//! The dedup ledger: which posts were already syndicated to which network.

use vstd::prelude::*;
use crate::feed::{FeedItem, FeedItemView};
use crate::network::Network;
use crate::strings::str_equal;

verus! {

/// A post that was published to a network: the record that prevents a repeat.
#[derive(Debug, Clone)]
pub struct SyndicatedPost {
    pub social_network: Network,
    pub id: String,
    pub original_guid: String,
    pub original_uri: String,
}

/// The mathematical content of a syndicated-post record.
pub struct SyndicatedPostView {
    pub social_network: Network,
    pub id: Seq<char>,
    pub original_guid: Seq<char>,
    pub original_uri: Seq<char>,
}

impl View for SyndicatedPost {
    type V = SyndicatedPostView;

    open spec fn view(&self) -> SyndicatedPostView {
        SyndicatedPostView {
            social_network: self.social_network,
            id: self.id@,
            original_guid: self.original_guid@,
            original_uri: self.original_uri@,
        }
    }
}

/// The record of publishing `item` to `network` under the remote id `id`.
pub open spec fn record_of(network: Network, id: Seq<char>, item: FeedItemView) -> SyndicatedPostView {
    SyndicatedPostView {
        social_network: network,
        id,
        original_guid: item.guid,
        original_uri: item.link,
    }
}

impl SyndicatedPost {
    /// The record of publishing `item` to `social_network` under the remote id `id`.
    pub fn new(social_network: Network, id: &str, item: &FeedItem) -> (r: SyndicatedPost)
        ensures
            r@ == record_of(social_network, id@, item@),
    {
        SyndicatedPost {
            social_network,
            id: id.to_owned(),
            original_guid: item.guid.clone(),
            original_uri: item.link.clone(),
        }
    }

    /// A copy of this record.
    pub fn duplicate(&self) -> (r: SyndicatedPost)
        ensures
            r@ == self@,
    {
        SyndicatedPost {
            social_network: self.social_network,
            id: self.id.clone(),
            original_guid: self.original_guid.clone(),
            original_uri: self.original_uri.clone(),
        }
    }
}

/// A fault of the storage behind the ledger: a record that could not be
/// persisted, or a query that the database refused, with its message.
#[derive(Debug)]
pub enum StorageError {
    PersistenceError(String),
    SqlError(String),
}

/// The content of a storage fault.
pub enum StorageErrorView {
    PersistenceError(Seq<char>),
    SqlError(Seq<char>),
}

impl View for StorageError {
    type V = StorageErrorView;

    open spec fn view(&self) -> StorageErrorView {
        match self {
            StorageError::PersistenceError(m) => StorageErrorView::PersistenceError(m@),
            StorageError::SqlError(m) => StorageErrorView::SqlError(m@),
        }
    }
}

impl StorageError {
    /// A copy of this error.
    pub fn duplicate(&self) -> (r: StorageError)
        ensures
            r@ == self@,
    {
        match self {
            StorageError::PersistenceError(m) => StorageError::PersistenceError(m.clone()),
            StorageError::SqlError(m) => StorageError::SqlError(m.clone()),
        }
    }

    /// The error, as displayed to a user.
    pub fn to_string(&self) -> (r: String)
        ensures
            r@ == "StorageError"@,
    {
        String::from_str("StorageError")
    }
}

/// Whether a record carries the dedup key (`guid`, `network`).
pub open spec fn has_key(r: SyndicatedPostView, guid: Seq<char>, network: Network) -> bool {
    r.original_guid == guid && r.social_network == network
}

/// Whether some record of `records` carries the dedup key (`guid`, `network`).
pub open spec fn contains_key(records: Seq<SyndicatedPostView>, guid: Seq<char>, network: Network) -> bool {
    exists|i: int| 0 <= i < records.len() && has_key(records[i], guid, network)
}

/// No two records share a dedup key.
pub open spec fn keys_unique(records: Seq<SyndicatedPostView>) -> bool {
    forall|i: int, j: int|
        0 <= i < records.len() && 0 <= j < records.len() && i != j ==> !has_key(
            records[i],
            records[j].original_guid,
            records[j].social_network,
        )
}

/// The records already syndicated, at most one for each (guid, network) pair.
pub struct Ledger {
    records: Vec<SyndicatedPost>,
}

impl View for Ledger {
    type V = Seq<SyndicatedPostView>;

    closed spec fn view(&self) -> Seq<SyndicatedPostView> {
        self.records@.map_values(|r: SyndicatedPost| r@)
    }
}

impl Ledger {
    /// An empty ledger.
    pub fn new() -> (r: Ledger)
        ensures
            r@ == Seq::<SyndicatedPostView>::empty(),
            keys_unique(r@),
    {
        let r = Ledger { records: Vec::new() };
        assert(r@ =~= Seq::<SyndicatedPostView>::empty());
        r
    }

    /// The number of records.
    pub fn len(&self) -> (r: usize)
        ensures
            r == self@.len(),
    {
        self.records.len()
    }

    /// The record at position `i`, in the order of storing.
    pub fn get(&self, i: usize) -> (r: &SyndicatedPost)
        requires
            i < self@.len(),
        ensures
            r@ == self@[i as int],
    {
        &self.records[i]
    }

    fn position(&self, original_guid: &str, social_network: Network) -> (r: Option<usize>)
        ensures
            match r {
                Some(i) => i < self@.len() && has_key(self@[i as int], original_guid@, social_network),
                None => !contains_key(self@, original_guid@, social_network),
            },
    {
        let mut i: usize = 0;
        while i < self.records.len()
            invariant
                i <= self@.len(),
                self@.len() == self.records@.len(),
                forall|k: int| 0 <= k < i ==> !has_key(self@[k], original_guid@, social_network),
            decreases self@.len() - i,
        {
            let r = &self.records[i];
            if r.social_network == social_network && str_equal(r.original_guid.as_str(), original_guid) {
                return Some(i);
            }
            i += 1;
        }
        None
    }

    /// The record for the dedup key (`original_guid`, `social_network`), if one was stored.
    pub fn find(&self, original_guid: &str, social_network: Network) -> (r: Option<SyndicatedPost>)
        ensures
            r is Some <==> contains_key(self@, original_guid@, social_network),
            r matches Some(p) ==> has_key(p@, original_guid@, social_network) && self@.contains(p@),
    {
        match self.position(original_guid, social_network) {
            Some(i) => {
                let p = self.records[i].duplicate();
                assert(self@[i as int] == p@);
                Some(p)
            },
            None => None,
        }
    }

    /// Stores a record; a record whose dedup key is already stored is refused
    /// and the ledger is left as it was.
    pub fn store(&mut self, syndicated_post: SyndicatedPost) -> (r: Result<(), StorageError>)
        ensures
            contains_key(old(self)@, syndicated_post@.original_guid, syndicated_post@.social_network)
                ==> r is Err && final(self)@ == old(self)@,
            !contains_key(old(self)@, syndicated_post@.original_guid, syndicated_post@.social_network)
                ==> r is Ok && final(self)@ == old(self)@.push(syndicated_post@),
            keys_unique(old(self)@) ==> keys_unique(final(self)@),
    {
        let guid = syndicated_post.original_guid.as_str();
        match self.position(guid, syndicated_post.social_network) {
            Some(_) => Err(StorageError::PersistenceError(String::from_str("record already stored"))),
            None => {
                let ghost before = self@;
                let ghost rec = syndicated_post@;
                self.records.push(syndicated_post);
                assert(self@ =~= before.push(rec));
                assert(keys_unique(before) ==> keys_unique(self@)) by {
                    assert forall|i: int, j: int|
                        keys_unique(before) && 0 <= i < self@.len() && 0 <= j < self@.len() && i != j implies !has_key(
                            self@[i],
                            self@[j].original_guid,
                            self@[j].social_network,
                        ) by {
                        if i == before.len() as int {
                            assert(!has_key(before[j], rec.original_guid, rec.social_network));
                        } else if j == before.len() as int {
                            assert(!has_key(before[i], rec.original_guid, rec.social_network));
                        }
                    }
                }
                Ok(())
            },
        }
    }
}

} // verus!

verus! {

/// Storing one pair twice leaves one record: once a record is stored, the
/// ledger holds its key, so a second record with that key is refused.
pub proof fn lemma_store_twice(records: Seq<SyndicatedPostView>, first: SyndicatedPostView, second: SyndicatedPostView)
    requires
        first.original_guid == second.original_guid,
        first.social_network == second.social_network,
    ensures
        contains_key(records.push(first), second.original_guid, second.social_network),
{
    assert(has_key(records.push(first)[records.len() as int], second.original_guid, second.social_network));
}

} // verus!
