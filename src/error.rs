//! Error values of the syndication core.

use vstd::prelude::*;

verus! {

/// A plain error carrying a message.
#[derive(Debug)]
pub struct IwtError {
    message: String,
}

impl View for IwtError {
    type V = Seq<char>;

    closed spec fn view(&self) -> Seq<char> {
        self.message@
    }
}

impl IwtError {
    /// An error with the given message.
    pub fn new(message: &str) -> (r: IwtError)
        ensures
            r@ == message@,
    {
        IwtError { message: message.to_owned() }
    }

    /// The message of this error.
    pub fn message(&self) -> (r: &str)
        ensures
            r@ == self@,
    {
        self.message.as_str()
    }

    /// The message, as displayed to a user.
    pub fn to_string(&self) -> (r: String)
        ensures
            r@ == "IwtError: "@ + self@,
    {
        let mut r = String::from_str("IwtError: ");
        r.append(self.message.as_str());
        r
    }
}

} // verus!

verus! {

/// Why one (feed, target, item) triple, or one feed, failed.
#[derive(Debug)]
pub enum SyndicationError {
    /// The feed could not be fetched or parsed.
    FeedUnavailable(String),
    /// The item with this guid carries no syndication directive.
    DirectiveMissing(String),
    /// The ledger's storage failed.
    StorageFault(crate::ledger::StorageError),
    /// The link of the item could not be shortened.
    ShortenerFailed(String),
    /// The refresh token could not be exchanged for new credentials.
    AuthRefreshFailed(String),
    /// The network refused the post, or answered in a way that could not be read.
    PlatformRejected(String),
}

/// The content of a syndication error: its kind and what it carries.
pub enum ErrorView {
    FeedUnavailable(Seq<char>),
    DirectiveMissing(Seq<char>),
    StorageFault(crate::ledger::StorageErrorView),
    ShortenerFailed(Seq<char>),
    AuthRefreshFailed(Seq<char>),
    PlatformRejected(Seq<char>),
}

impl View for SyndicationError {
    type V = ErrorView;

    open spec fn view(&self) -> ErrorView {
        match self {
            SyndicationError::FeedUnavailable(m) => ErrorView::FeedUnavailable(m@),
            SyndicationError::DirectiveMissing(g) => ErrorView::DirectiveMissing(g@),
            SyndicationError::StorageFault(e) => ErrorView::StorageFault(e@),
            SyndicationError::ShortenerFailed(m) => ErrorView::ShortenerFailed(m@),
            SyndicationError::AuthRefreshFailed(m) => ErrorView::AuthRefreshFailed(m@),
            SyndicationError::PlatformRejected(m) => ErrorView::PlatformRejected(m@),
        }
    }
}

/// The contents of a list of errors, in order.
pub open spec fn errors_view(errors: Seq<SyndicationError>) -> Seq<ErrorView> {
    errors.map_values(|e: SyndicationError| e@)
}

} // verus!
