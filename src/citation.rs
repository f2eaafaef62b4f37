//! Short links ("permashort citations") that stand for a post's long URI.

use vstd::prelude::*;

verus! {

/// A short link: protocol, domain and the short path on that domain.
#[derive(Debug, Clone)]
pub struct PermashortCitation {
    protocol: String,
    domain: String,
    short_url: String,
}

/// The parts of a short link.
pub struct CitationView {
    pub protocol: Seq<char>,
    pub domain: Seq<char>,
    pub short_url: Seq<char>,
}

impl View for PermashortCitation {
    type V = CitationView;

    closed spec fn view(&self) -> CitationView {
        CitationView { protocol: self.protocol@, domain: self.domain@, short_url: self.short_url@ }
    }
}

/// The canonical URI form: `protocol://domain/short_url`.
pub open spec fn uri_of(c: CitationView) -> Seq<char> {
    c.protocol + "://"@ + c.domain + "/"@ + c.short_url
}

/// The compact display form: `domain short_url`.
pub open spec fn display_of(c: CitationView) -> Seq<char> {
    c.domain + " "@ + c.short_url
}

impl PermashortCitation {
    pub fn new(protocol: String, domain: String, short_url: String) -> (r: PermashortCitation)
        ensures
            r@ == (CitationView { protocol: protocol@, domain: domain@, short_url: short_url@ }),
    {
        PermashortCitation { protocol, domain, short_url }
    }

    /// The canonical URI form.
    pub fn to_uri(&self) -> (r: String)
        ensures
            r@ == uri_of(self@),
    {
        let mut r = self.protocol.clone();
        r.append("://");
        r.append(self.domain.as_str());
        r.append("/");
        r.append(self.short_url.as_str());
        r
    }

    /// The compact display form.
    pub fn to_string(&self) -> (r: String)
        ensures
            r@ == display_of(self@),
    {
        let mut r = self.domain.clone();
        r.append(" ");
        r.append(self.short_url.as_str());
        r
    }
}

} // verus!
