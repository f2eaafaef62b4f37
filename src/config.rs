//! The parts of the configuration that the syndication core reads.

use vstd::prelude::*;

verus! {

/// The feeds to syndicate.
#[derive(Debug, Clone, PartialEq)]
pub struct Rss {
    pub urls: Vec<String>,
}

/// Where the database lives.
#[derive(Debug, Clone, PartialEq)]
pub struct DB {
    pub path: String,
}

/// The URL-shortening service.
#[derive(Debug, Clone, PartialEq)]
pub struct UrlShortener {
    pub protocol: String,
    pub domain: String,
    pub put_base_uri: Option<String>,
}

} // verus!
