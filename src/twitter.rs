//! Publishing to Twitter: the adaptive-length retry policy.
//!
//! The network's real length limit cannot be predicted from the rendered text,
//! so a status is rendered for a byte budget, and each "too long" rejection
//! lowers the budget by a fixed step, down to a floor.

use vstd::prelude::*;
use crate::citation::PermashortCitation;
use crate::error::{IwtError, SyndicationError};
use crate::feed::{strings_view, Directive, FeedItem};
use crate::strings::{is_prefix_of, starts_with};
use crate::text::{shorten_with_permashort_citation, status_of};

verus! {

/// The budget of the first attempt.
pub const MAX_TWEET_BYTES: usize = 280;

/// No attempt is made below this budget.
pub const MIN_TWEET_BYTES: usize = 210;

/// How much each "too long" rejection lowers the budget.
pub const TWEET_BYTES_STEP: usize = 5;

/// How the network answered one attempt, as read from the response.
#[derive(Debug)]
pub enum TwitterReply {
    /// The post was created under this id.
    Posted(String),
    /// The post was refused with these error messages.
    Rejected(Vec<String>),
    /// The response could not be read; why.
    Unreadable(String),
    /// The request could not be made or authorized.
    Failed(SyndicationError),
}

/// What to do after an attempt.
#[derive(Debug)]
pub enum TwitterNext {
    /// Try again with this budget.
    Retry(usize),
    /// Stop: the remote id of the post, or why it was not published.
    Done(Result<String, SyndicationError>),
}

/// The start of the message with which the network rejects a text as too long.
pub open spec fn too_long_message() -> Seq<char> {
    "Your Tweet text is too long."@
}

/// Some message reports the text as too long.
pub open spec fn reports_too_long(messages: Seq<Seq<char>>) -> bool {
    exists|i: int| 0 <= i < messages.len() && is_prefix_of(too_long_message(), #[trigger] messages[i])
}

/// Whether some message reports the text as too long.
pub fn is_too_long(messages: &Vec<String>) -> (r: bool)
    ensures
        r == reports_too_long(strings_view(messages@)),
{
    let mut i: usize = 0;
    while i < messages.len()
        invariant
            i <= messages@.len(),
            forall|k: int| 0 <= k < i ==> !is_prefix_of(too_long_message(), #[trigger] strings_view(messages@)[k]),
        decreases messages@.len() - i,
    {
        if starts_with(messages[i].as_str(), "Your Tweet text is too long.") {
            assert(is_prefix_of(too_long_message(), strings_view(messages@)[i as int]));
            return true;
        }
        i += 1;
    }
    false
}

/// Decides what follows an attempt at `budget`: a created post ends the loop;
/// a "too long" rejection above the floor retries one step lower; any other
/// rejection, or one at the floor, gives up; an unreadable response or a failed
/// request ends the loop with that failure.
pub fn twitter_next(budget: usize, reply: TwitterReply) -> (r: TwitterNext)
    ensures
        match reply {
            TwitterReply::Posted(id) => r matches TwitterNext::Done(Ok(x)) && x@ == id@,
            TwitterReply::Rejected(messages) => if reports_too_long(strings_view(messages@)) && budget
                > MIN_TWEET_BYTES {
                r matches TwitterNext::Retry(b) && b == budget - TWEET_BYTES_STEP
            } else {
                r matches TwitterNext::Done(Err(SyndicationError::PlatformRejected(_)))
            },
            TwitterReply::Unreadable(why) => r matches TwitterNext::Done(
                Err(SyndicationError::PlatformRejected(x)),
            ) && x@ == why@,
            TwitterReply::Failed(e) => r matches TwitterNext::Done(Err(x)) && x == e,
        },
{
    match reply {
        TwitterReply::Posted(id) => TwitterNext::Done(Ok(id)),
        TwitterReply::Rejected(messages) => {
            if is_too_long(&messages) && budget > MIN_TWEET_BYTES {
                TwitterNext::Retry(budget - TWEET_BYTES_STEP)
            } else {
                let e = IwtError::new("Couldn't reliably reduce the length of the post, gave up");
                TwitterNext::Done(Err(SyndicationError::PlatformRejected(e.to_string())))
            }
        },
        TwitterReply::Unreadable(why) => TwitterNext::Done(Err(SyndicationError::PlatformRejected(why))),
        TwitterReply::Failed(e) => TwitterNext::Done(Err(e)),
    }
}

/// The text of an attempt at `budget` for an item.
pub fn tweet_text(item: &FeedItem, directive: &Directive, citation: &PermashortCitation, budget: usize) -> (r: String)
    ensures
        r@ == status_of(item@.description, budget as nat, citation@, strings_view(directive.tags@)),
{
    shorten_with_permashort_citation(item.description.as_str(), budget, citation, &directive.tags)
}

/// Each budget that the loop tries: the first, and every one it retries with,
/// lies between the floor and the first budget and is a whole number of steps
/// below the first.
pub open spec fn tried_budget(b: nat) -> bool {
    MIN_TWEET_BYTES <= b <= MAX_TWEET_BYTES && (MAX_TWEET_BYTES - b) % (TWEET_BYTES_STEP as int) == 0
}

/// The loop is bounded: a retry lowers a tried budget by one step and stays at
/// or above the floor, so at most fifteen attempts are made.
pub proof fn lemma_retry_bounded(budget: nat, next: nat)
    requires
        tried_budget(budget),
        budget > MIN_TWEET_BYTES,
        next == budget - TWEET_BYTES_STEP,
    ensures
        tried_budget(next),
        next < budget,
{
}

} // verus!

verus! {

/// The budget after `k` "too long" rejections in a row.
pub open spec fn budget_after_rejections(k: nat) -> int {
    MAX_TWEET_BYTES - k * TWEET_BYTES_STEP
}

/// The back-off sequence: when every attempt is rejected as too long, the
/// attempts use 280, 275, ..., 210. Each budget below the fourteenth is above
/// the floor, so `twitter_next` retries one step lower; the fourteenth
/// rejection comes at the floor, where `twitter_next` gives up. The loop makes
/// fifteen attempts.
pub proof fn lemma_too_long_sequence(k: nat)
    requires
        k <= 14,
    ensures
        tried_budget(budget_after_rejections(k) as nat),
        k < 14 ==> budget_after_rejections(k) > MIN_TWEET_BYTES && budget_after_rejections(k + 1)
            == budget_after_rejections(k) - TWEET_BYTES_STEP,
        budget_after_rejections(14) == MIN_TWEET_BYTES,
{
    assert(budget_after_rejections(k) == 280 - 5 * k);
    assert((280 - (280 - 5 * k)) % 5 == 0) by (nonlinear_arith)
        requires
            k <= 14,
    ;
}

} // verus!
