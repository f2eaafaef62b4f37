//! Feed items and the syndication directives attached to them.

use vstd::prelude::*;
use crate::network::{network_key, Network};

verus! {

/// Per-item metadata: where an item goes, its tags, and its content warning.
#[derive(Debug, Clone)]
pub struct Directive {
    pub target_networks: Vec<Network>,
    pub tags: Vec<String>,
    pub content_warning: Option<String>,
}

/// The mathematical content of a directive.
pub struct DirectiveView {
    pub target_networks: Seq<Network>,
    pub tags: Seq<Seq<char>>,
    pub content_warning: Option<Seq<char>>,
}

/// The characters of each string.
pub open spec fn strings_view(v: Seq<String>) -> Seq<Seq<char>> {
    v.map_values(|s: String| s@)
}

/// The characters of an optional string.
pub open spec fn option_string_view(o: Option<String>) -> Option<Seq<char>> {
    match o {
        Some(s) => Some(s@),
        None => None,
    }
}

impl View for Directive {
    type V = DirectiveView;

    open spec fn view(&self) -> DirectiveView {
        DirectiveView {
            target_networks: self.target_networks@,
            tags: strings_view(self.tags@),
            content_warning: option_string_view(self.content_warning),
        }
    }
}

/// An item of a feed, as the syndication core reads it.
#[derive(Debug, Clone)]
pub struct FeedItem {
    pub guid: String,
    pub link: String,
    pub description: String,
    pub directive: Option<Directive>,
}

/// The mathematical content of a feed item.
pub struct FeedItemView {
    pub guid: Seq<char>,
    pub link: Seq<char>,
    pub description: Seq<char>,
    pub directive: Option<DirectiveView>,
}

impl View for FeedItem {
    type V = FeedItemView;

    open spec fn view(&self) -> FeedItemView {
        FeedItemView {
            guid: self.guid@,
            link: self.link@,
            description: self.description@,
            directive: match self.directive {
                Some(d) => Some(d@),
                None => None,
            },
        }
    }
}

/// Whether a directive selects the given network.
pub open spec fn directs_to(d: DirectiveView, n: Network) -> bool {
    d.target_networks.contains(n)
}

impl Directive {
    /// Whether this directive selects the given network.
    pub fn targets(&self, n: Network) -> (r: bool)
        ensures
            r == directs_to(self@, n),
    {
        let mut i: usize = 0;
        while i < self.target_networks.len()
            invariant
                i <= self.target_networks@.len(),
                forall|k: int| 0 <= k < i ==> self.target_networks@[k] != n,
            decreases self.target_networks@.len() - i,
        {
            if self.target_networks[i] == n {
                return true;
            }
            i += 1;
        }
        false
    }
}

} // verus!

verus! {

/// The text is the key of some network.
pub open spec fn names_network(s: Seq<char>) -> bool {
    exists|n: Network| network_key(n) == s
}

/// Builds a directive from the network keys, tags and content warning read
/// from an item's metadata; a key that names no known network gives none.
pub fn directive_from_parts(network_keys: &Vec<String>, tags: Vec<String>, content_warning: Option<String>) -> (r: Option<Directive>)
    ensures
        r is Some <==> forall|i: int| 0 <= i < network_keys@.len() ==> names_network(#[trigger] network_keys@[i]@),
        r matches Some(d) ==> {
            &&& d.target_networks@.len() == network_keys@.len()
            &&& forall|i: int|
                0 <= i < network_keys@.len() ==> network_key(#[trigger] d.target_networks@[i]) == network_keys@[i]@
            &&& d.tags@ == tags@
            &&& d.content_warning == content_warning
        },
{
    let mut networks: Vec<Network> = Vec::new();
    let mut i: usize = 0;
    while i < network_keys.len()
        invariant
            i <= network_keys@.len(),
            networks@.len() == i,
            forall|k: int| 0 <= k < i ==> network_key(#[trigger] networks@[k]) == network_keys@[k]@,
        decreases network_keys@.len() - i,
    {
        match Network::from_key(network_keys[i].as_str()) {
            Ok(n) => networks.push(n),
            Err(_) => {
                assert(!names_network(network_keys@[i as int]@));
                return None;
            },
        }
        i += 1;
    }
    assert forall|k: int| 0 <= k < network_keys@.len() implies names_network(#[trigger] network_keys@[k]@) by {
        assert(network_key(networks@[k]) == network_keys@[k]@);
    }
    Some(Directive { target_networks: networks, tags, content_warning })
}

} // verus!
