//! Publishing to Mastodon: one status, sent once.

use vstd::prelude::*;
use crate::citation::PermashortCitation;
use crate::error::SyndicationError;
use crate::feed::{strings_view, Directive, FeedItem};
use crate::text::{shorten_with_permashort_citation, status_of};

verus! {

/// The byte budget of a status.
pub const MASTODON_STATUS_BYTES: usize = 500;

/// The status text for an item.
pub fn mastodon_status(item: &FeedItem, directive: &Directive, citation: &PermashortCitation) -> (r: String)
    ensures
        r@ == status_of(item@.description, MASTODON_STATUS_BYTES as nat, citation@, strings_view(directive.tags@)),
{
    shorten_with_permashort_citation(item.description.as_str(), MASTODON_STATUS_BYTES, citation, &directive.tags)
}

/// Whether an HTTP status reports success.
pub open spec fn is_success_status(status: u16) -> bool {
    200 <= status < 300
}

/// How the instance answered, as read from the response.
#[derive(Debug)]
pub enum MastodonReply {
    /// The instance answered with this HTTP status; the body held this status
    /// id, or could not be read, for this reason.
    Answered(u16, Result<String, String>),
    /// The request could not be made.
    Failed(SyndicationError),
}

/// The outcome of the single attempt: the remote id, or why it failed. Any
/// status but a success is terminal, whatever the body holds; there is no
/// retry.
pub fn mastodon_outcome(reply: MastodonReply) -> (r: Result<String, SyndicationError>)
    ensures
        match reply {
            MastodonReply::Answered(status, body) => if !is_success_status(status) {
                r matches Err(SyndicationError::PlatformRejected(_))
            } else {
                match body {
                    Ok(id) => r matches Ok(x) && x@ == id@,
                    Err(why) => r matches Err(SyndicationError::PlatformRejected(x)) && x@ == why@,
                }
            },
            MastodonReply::Failed(e) => r matches Err(x) && x == e,
        },
{
    match reply {
        MastodonReply::Answered(status, body) => {
            if status < 200 || status >= 300 {
                Err(SyndicationError::PlatformRejected(String::from_str("the instance refused the status")))
            } else {
                match body {
                    Ok(id) => Ok(id),
                    Err(why) => Err(SyndicationError::PlatformRejected(why)),
                }
            }
        },
        MastodonReply::Failed(e) => Err(e),
    }
}

} // verus!
