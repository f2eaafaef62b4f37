//! The social networks that posts are syndicated to.

use vstd::prelude::*;
use crate::strings::str_equal;

verus! {

/// A social network that a post can be syndicated to.
#[derive(Debug, Clone, Copy, PartialEq, Eq, Structural, PartialOrd, Ord, Hash)]
pub enum Network {
    Twitter,
    Mastodon,
}

/// The lowercase key of a network, used in storage and in feed metadata.
pub open spec fn network_key(n: Network) -> Seq<char> {
    match n {
        Network::Twitter => "twitter"@,
        Network::Mastodon => "mastodon"@,
    }
}

/// A value read from storage that names no known network.
#[derive(Debug)]
pub struct SqlConversionError {
    pub message: String,
}

impl SqlConversionError {
    /// The error, as displayed to a user.
    pub fn to_string(&self) -> (r: String)
        ensures
            r@ == "SqlConversionError: "@ + self.message@,
    {
        let mut r = String::from_str("SqlConversionError: ");
        r.append(self.message.as_str());
        r
    }
}

impl Network {
    /// The lowercase key of this network.
    pub fn key(&self) -> (r: &'static str)
        ensures
            r@ == network_key(*self),
    {
        match self {
            Network::Twitter => "twitter",
            Network::Mastodon => "mastodon",
        }
    }

    /// The lowercase key of this network, as an owned string.
    pub fn to_string(&self) -> (r: String)
        ensures
            r@ == network_key(*self),
    {
        self.key().to_owned()
    }

    /// Reads a network back from its key.
    pub fn from_key(s: &str) -> (r: Result<Network, SqlConversionError>)
        ensures
            match r {
                Ok(n) => network_key(n) == s@,
                Err(e) => (forall|n: Network| network_key(n) != s@) && e.message@ == "Unknown social network: "@ + s@,
            },
    {
        if str_equal(s, "twitter") {
            Ok(Network::Twitter)
        } else if str_equal(s, "mastodon") {
            Ok(Network::Mastodon)
        } else {
            proof {
                assert forall|n: Network| network_key(n) != s@ by {
                    match n {
                        Network::Twitter => {},
                        Network::Mastodon => {},
                    }
                }
            }
            let mut message = String::from_str("Unknown social network: ");
            message.append(s);
            Err(SqlConversionError { message })
        }
    }
}

/// Distinct networks have distinct keys.
pub proof fn lemma_network_key_injective(a: Network, b: Network)
    ensures
        network_key(a) == network_key(b) ==> a == b,
{
    reveal_strlit("twitter");
    reveal_strlit("mastodon");
    if a != b {
        assert(network_key(a).len() != network_key(b).len());
    }
}

/// Reading back the key of a network gives that network.
pub proof fn lemma_network_key_round_trip(n: Network, s: Seq<char>)
    ensures
        network_key(n) == s ==> forall|m: Network| network_key(m) == s ==> m == n,
{
    assert forall|m: Network| network_key(m) == s && network_key(n) == s implies m == n by {
        lemma_network_key_injective(m, n);
    }
}

} // verus!
