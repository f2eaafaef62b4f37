//! The URL-shortening service as the syndication core sees it: where a long
//! URI is put, and how the short path that comes back becomes a citation.

use vstd::prelude::*;
use crate::citation::{CitationView, PermashortCitation};
use crate::strings::is_ascii_alphanumeric;

verus! {

/// A failure of the URL-shortening service.
#[derive(Debug)]
pub struct ClientError {
    pub message: String,
}

impl ClientError {
    /// The error, as displayed to a user.
    pub fn to_string(&self) -> (r: String)
        ensures
            r@ == "UrlShortener Client Error: "@ + self.message@,
    {
        let mut r = String::from_str("UrlShortener Client Error: ");
        r.append(self.message.as_str());
        r
    }
}

/// A URI with every character but the unreserved ones percent-encoded, as the
/// encoding library produces it.
pub uninterp spec fn percent_encoded_of(s: Seq<char>) -> Seq<char>;

/// Relies on `urlencoding::encode`: the UTF-8 bytes of the text are
/// percent-encoded, all but ASCII letters, digits and `-_.~`.
#[verifier::external_body]
fn percent_encode(s: &str) -> (r: String)
    ensures
        r@ == percent_encoded_of(s@),
        (forall|i: int| 0 <= i < s@.len() ==> is_ascii_alphanumeric(#[trigger] s@[i])) ==> r@ == s@,
{
    urlencoding::encode(s).into_owned()
}

/// Where the shortening service is reached, and the protocol and domain of
/// the short links it hands out.
#[derive(Debug, Clone)]
pub struct ShortenerEndpoint {
    pub protocol: String,
    pub domain: String,
    pub base_uri: String,
}

impl ShortenerEndpoint {
    /// The endpoint for short links on `protocol://domain`, reached at
    /// `put_base_uri` where one is given, else at `protocol://domain`.
    pub fn new(protocol: &str, domain: &str, put_base_uri: Option<&String>) -> (r: ShortenerEndpoint)
        ensures
            r.protocol@ == protocol@,
            r.domain@ == domain@,
            r.base_uri@ == match put_base_uri {
                Some(b) => b@,
                None => protocol@ + "://"@ + domain@,
            },
    {
        let base_uri = match put_base_uri {
            Some(b) => b.clone(),
            None => {
                let mut b = String::from_str(protocol);
                b.append("://");
                b.append(domain);
                b
            },
        };
        ShortenerEndpoint { protocol: protocol.to_owned(), domain: domain.to_owned(), base_uri }
    }

    /// The URL to which a long URI is put: `base/u/<percent-encoded URI>`.
    pub fn put_url(&self, uri: &str) -> (r: String)
        ensures
            r@ == self.base_uri@ + "/u/"@ + percent_encoded_of(uri@),
    {
        let mut r = self.base_uri.clone();
        r.append("/u/");
        let encoded = percent_encode(uri);
        r.append(encoded.as_str());
        r
    }

    /// The citation for the short path that the service returned.
    pub fn citation(&self, short: &str) -> (r: PermashortCitation)
        ensures
            r@ == (CitationView {
                protocol: self.protocol@,
                domain: self.domain@,
                short_url: "s/"@ + short@,
            }),
    {
        let mut path = String::from_str("s/");
        path.append(short);
        PermashortCitation::new(self.protocol.clone(), self.domain.clone(), path)
    }
}

} // verus!
