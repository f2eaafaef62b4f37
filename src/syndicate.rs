//! The syndication orchestrator: which (feed, target, item) triples exist, what
//! is decided for each, and how outcomes are recorded.
//!
//! The orchestrator is a state machine. Each call of [`Run::step`] settles one
//! triple; where the decision is to publish, the caller publishes and reports
//! the outcome with [`Run::on_published`]. A ledger lookup that the caller's
//! storage failed to answer is registered with [`Run::lookup_failed`], and its
//! triples then fail instead of being published.

use vstd::prelude::*;
use crate::error::{errors_view, ErrorView, SyndicationError};
use crate::feed::{directs_to, FeedItem, FeedItemView};
use crate::ledger::{
    contains_key, keys_unique, record_of, Ledger, StorageError, SyndicatedPost, SyndicatedPostView,
};
use crate::strings::str_equal;
use crate::network::Network;

verus! {

/// What is decided for one (target, item) pair.
#[derive(Debug, Clone, Copy, PartialEq, Eq, Structural)]
pub enum Decision {
    /// The ledger already holds the pair: nothing to do.
    AlreadyPublished,
    /// The item's directive does not name the target's network: nothing to do.
    NotTargeted,
    /// The item is targeted, but this is a dry run: nothing is published.
    Skipped,
    /// The item is to be published to the target.
    Publish,
    /// The item carries no directive: the triple fails.
    DirectiveMissing,
    /// The ledger could not be read for the pair: the triple fails, and
    /// nothing is published.
    StorageFault,
}

/// What a ledger lookup for a (guid, network) pair gave.
#[derive(Debug, Clone, Copy, PartialEq, Eq, Structural)]
pub enum Lookup {
    /// A record of the pair is held.
    Found,
    /// No record of the pair is held.
    Missing,
    /// The storage failed to answer.
    Fault,
}

/// The lookup of a pair in a set of records that can always be read.
pub open spec fn lookup_in(records: Seq<SyndicatedPostView>, guid: Seq<char>, network: Network) -> Lookup {
    if contains_key(records, guid, network) {
        Lookup::Found
    } else {
        Lookup::Missing
    }
}

/// The decision for an item and a network, given what the ledger lookup of
/// the pair gave.
pub open spec fn decision(lookup: Lookup, item: FeedItemView, network: Network, dry_run: bool) -> Decision {
    if lookup == Lookup::Fault {
        Decision::StorageFault
    } else if lookup == Lookup::Found {
        Decision::AlreadyPublished
    } else {
        match item.directive {
            None => Decision::DirectiveMissing,
            Some(d) => if !directs_to(d, network) {
                Decision::NotTargeted
            } else if dry_run {
                Decision::Skipped
            } else {
                Decision::Publish
            },
        }
    }
}

/// Decides what to do with `item` for a target of `network`, consulting the ledger.
pub fn decide(ledger: &Ledger, item: &FeedItem, network: Network, dry_run: bool) -> (r: Decision)
    ensures
        r == decision(lookup_in(ledger@, item@.guid, network), item@, network, dry_run),
{
    match ledger.find(item.guid.as_str(), network) {
        Some(_) => Decision::AlreadyPublished,
        None => match &item.directive {
            None => Decision::DirectiveMissing,
            Some(d) => if !d.targets(network) {
                Decision::NotTargeted
            } else if dry_run {
                Decision::Skipped
            } else {
                Decision::Publish
            },
        },
    }
}

/// One (feed, target, item) triple, by position.
#[derive(Debug, Clone, Copy, PartialEq, Eq, Structural)]
pub struct Triple {
    pub feed: usize,
    pub target: usize,
    pub item: usize,
}

/// The triple of feed `f`, target `t` and item `i`.
pub open spec fn triple(f: int, t: int, i: int) -> Triple {
    Triple { feed: f as usize, target: t as usize, item: i as usize }
}

/// The triples of feed `f` with `n_items` items, for the targets below `t`,
/// target by target, each in item order.
pub open spec fn feed_plan(f: int, t: int, n_items: nat) -> Seq<Triple>
    decreases t,
{
    if t <= 0 {
        Seq::empty()
    } else {
        feed_plan(f, t - 1, n_items) + Seq::new(n_items, |i: int| triple(f, t - 1, i))
    }
}

/// The triples of a whole run, feed by feed. `sizes[f]` is the number of items
/// of feed `f`, or `None` where that feed failed to load.
pub open spec fn run_plan(sizes: Seq<Option<nat>>, n_targets: int) -> Seq<Triple>
    decreases sizes.len(),
{
    if sizes.len() == 0 {
        Seq::empty()
    } else {
        run_plan(sizes.drop_last(), n_targets) + match sizes.last() {
            Some(n) => feed_plan(sizes.len() - 1, n_targets, n),
            None => Seq::empty(),
        }
    }
}

/// The number of feeds that failed to load.
pub open spec fn failed_count(sizes: Seq<Option<nat>>) -> nat
    decreases sizes.len(),
{
    if sizes.len() == 0 {
        0
    } else {
        failed_count(sizes.drop_last()) + if sizes.last() is None { 1nat } else { 0nat }
    }
}

/// What a step of the run did.
#[derive(Debug, Clone, Copy, PartialEq, Eq, Structural)]
pub enum Step {
    /// The triple was visited and this was decided for it.
    Visited(Triple, Decision),
    /// Every triple has been visited.
    Finished,
}

/// One syndication run over loaded feeds and a set of targets.
pub struct Run {
    feeds: Vec<Option<Vec<FeedItem>>>,
    targets: Vec<Network>,
    dry_run: bool,
    ledger: Ledger,
    plan: Vec<Triple>,
    next: usize,
    pending: Option<Triple>,
    errors: Vec<SyndicationError>,
    faults: Vec<(String, Network, StorageError)>,
}

/// The number of items of each feed, `None` for a feed that failed to load.
pub open spec fn sizes_of(feeds: Seq<Option<Vec<FeedItem>>>) -> Seq<Option<nat>> {
    feeds.map_values(
        |o: Option<Vec<FeedItem>>|
            match o {
                Some(v) => Some(v@.len()),
                None => None,
            },
    )
}

/// A triple names a loaded feed of `sizes`, a target below `n_targets` and an item of that feed.
pub open spec fn names_loaded(sizes: Seq<Option<nat>>, n_targets: int, t: Triple) -> bool {
    &&& t.feed < sizes.len()
    &&& sizes[t.feed as int] is Some
    &&& t.item < sizes[t.feed as int]->Some_0
    &&& t.target < n_targets
}

/// Lists the triples of a run, as [`run_plan`] orders them.
fn build_plan(feeds: &Vec<Option<Vec<FeedItem>>>, n_targets: usize) -> (r: Vec<Triple>)
    ensures
        r@ == run_plan(sizes_of(feeds@), n_targets as int),
        forall|k: int| 0 <= k < r@.len() ==> names_loaded(sizes_of(feeds@), n_targets as int, #[trigger] r@[k]),
{
    let ghost sizes = sizes_of(feeds@);
    let mut plan: Vec<Triple> = Vec::new();
    let mut f: usize = 0;
    while f < feeds.len()
        invariant
            f <= feeds@.len(),
            sizes == sizes_of(feeds@),
            plan@ == run_plan(sizes.take(f as int), n_targets as int),
            forall|k: int| 0 <= k < plan@.len() ==> names_loaded(sizes, n_targets as int, #[trigger] plan@[k]),
        decreases feeds@.len() - f,
    {
        assert(sizes.take(f + 1).drop_last() =~= sizes.take(f as int));
        match &feeds[f] {
            None => {
                assert(plan@ =~= run_plan(sizes.take(f + 1), n_targets as int));
            },
            Some(items) => {
                let ghost base = plan@;
                let n = items.len();
                let mut t: usize = 0;
                while t < n_targets
                    invariant
                        f < feeds@.len(),
                        sizes == sizes_of(feeds@),
                        feeds@[f as int] == Some(*items),
                        n == items@.len(),
                        t <= n_targets,
                        base == run_plan(sizes.take(f as int), n_targets as int),
                        plan@ == base + feed_plan(f as int, t as int, n as nat),
                        forall|k: int| 0 <= k < plan@.len() ==> names_loaded(sizes, n_targets as int, #[trigger] plan@[k]),
                    decreases n_targets - t,
                {
                    let ghost mid = plan@;
                    let mut i: usize = 0;
                    while i < n
                        invariant
                            f < feeds@.len(),
                            sizes == sizes_of(feeds@),
                            feeds@[f as int] == Some(*items),
                            n == items@.len(),
                            t < n_targets,
                            i <= n,
                            mid == base + feed_plan(f as int, t as int, n as nat),
                            plan@ == mid + Seq::new(i as nat, |j: int| triple(f as int, t as int, j)),
                            forall|k: int| 0 <= k < plan@.len() ==> names_loaded(sizes, n_targets as int, #[trigger] plan@[k]),
                        decreases n - i,
                    {
                        plan.push(Triple { feed: f, target: t, item: i });
                        assert(plan@ =~= mid + Seq::new((i + 1) as nat, |j: int| triple(f as int, t as int, j)));
                        i += 1;
                    }
                    assert(plan@ =~= base + feed_plan(f as int, (t + 1) as int, n as nat));
                    t += 1;
                }
                assert(plan@ =~= run_plan(sizes.take(f + 1), n_targets as int));
            },
        }
        f += 1;
    }
    assert(sizes.take(feeds@.len() as int) =~= sizes);
    plan
}

impl Run {
    /// The number of items of each feed, `None` for a feed that failed to load.
    pub closed spec fn sizes(&self) -> Seq<Option<nat>> {
        sizes_of(self.feeds@)
    }

    /// The networks of the targets, by position.
    pub closed spec fn networks(&self) -> Seq<Network> {
        self.targets@
    }

    /// Whether the run publishes nothing.
    pub closed spec fn is_dry_run(&self) -> bool {
        self.dry_run
    }

    /// The records of the run's ledger.
    pub closed spec fn records(&self) -> Seq<SyndicatedPostView> {
        self.ledger@
    }

    /// The triples of the run, in the order they are visited.
    pub closed spec fn plan(&self) -> Seq<Triple> {
        self.plan@
    }

    /// How many triples have been visited.
    pub closed spec fn cursor(&self) -> nat {
        self.next as nat
    }

    /// The triple whose publication awaits its outcome.
    pub closed spec fn pending(&self) -> Option<Triple> {
        self.pending
    }

    /// The errors collected so far, in order.
    pub closed spec fn error_list(&self) -> Seq<ErrorView> {
        errors_view(self.errors@)
    }

    /// How many errors have been collected.
    pub open spec fn error_count(&self) -> nat {
        self.error_list().len()
    }

    /// The (guid, network) pairs whose ledger lookup failed, in the order
    /// they were registered.
    pub closed spec fn fault_pairs(&self) -> Seq<(Seq<char>, Network)> {
        self.faults@.map_values(|f: (String, Network, StorageError)| (f.0@, f.1))
    }

    /// The ledger lookup of this (guid, network) pair failed.
    pub open spec fn faulted(&self, guid: Seq<char>, network: Network) -> bool {
        self.fault_pairs().contains((guid, network))
    }

    /// What the ledger lookup of a pair gives: found where the run's ledger
    /// holds a record of it, else a fault where one was registered, else
    /// missing.
    pub open spec fn lookup_of(&self, guid: Seq<char>, network: Network) -> Lookup {
        if contains_key(self.records(), guid, network) {
            Lookup::Found
        } else if self.faulted(guid, network) {
            Lookup::Fault
        } else {
            Lookup::Missing
        }
    }

    /// The item that a triple names.
    pub closed spec fn item_of(&self, t: Triple) -> FeedItemView {
        self.feeds@[t.feed as int]->Some_0@[t.item as int]@
    }

    /// The network of the target that a triple names.
    pub closed spec fn network_of(&self, t: Triple) -> Network {
        self.targets@[t.target as int]
    }

    /// The decision for the `k`-th triple of the plan, against the current ledger.
    pub open spec fn decision_at(&self, k: int) -> Decision {
        let t = self.plan()[k];
        decision(
            self.lookup_of(self.item_of(t).guid, self.network_of(t)),
            self.item_of(t),
            self.network_of(t),
            self.is_dry_run(),
        )
    }

    /// A triple names a loaded feed, a target and an item of that feed.
    pub closed spec fn valid_triple(&self, t: Triple) -> bool {
        &&& t.feed < self.feeds@.len()
        &&& self.feeds@[t.feed as int] is Some
        &&& t.item < self.feeds@[t.feed as int]->Some_0@.len()
        &&& t.target < self.targets@.len()
    }

    /// The plan lists the run's triples and each names a loaded item and a
    /// target; the cursor and the pending triple stay within it; the ledger
    /// holds one record per key.
    pub closed spec fn wf(&self) -> bool {
        &&& self.plan@ == run_plan(self.sizes(), self.targets@.len() as int)
        &&& self.next <= self.plan@.len()
        &&& forall|k: int| 0 <= k < self.plan@.len() ==> self.valid_triple(#[trigger] self.plan@[k])
        &&& self.pending matches Some(t) ==> self.valid_triple(t)
        &&& keys_unique(self.ledger@)
        &&& self.feeds@.len() <= usize::MAX
        &&& self.targets@.len() <= usize::MAX
        &&& forall|f: int|
            0 <= f < self.feeds@.len() && #[trigger] self.feeds@[f] is Some ==> self.feeds@[f]->Some_0@.len()
                <= usize::MAX
    }
}

} // verus!

verus! {

/// The number of items of each loaded feed, `None` for a feed that failed to load.
pub open spec fn load_sizes(loads: Seq<Result<Vec<FeedItem>, SyndicationError>>) -> Seq<Option<nat>> {
    loads.map_values(
        |l: Result<Vec<FeedItem>, SyndicationError>|
            match l {
                Ok(v) => Some(v@.len()),
                Err(_) => None,
            },
    )
}

/// The errors of the feeds that failed to load, in feed order.
pub open spec fn load_errors(loads: Seq<Result<Vec<FeedItem>, SyndicationError>>) -> Seq<ErrorView>
    decreases loads.len(),
{
    if loads.len() == 0 {
        Seq::empty()
    } else {
        load_errors(loads.drop_last()) + match loads.last() {
            Ok(_) => Seq::<ErrorView>::empty(),
            Err(e) => seq![e@],
        }
    }
}

impl Run {
    /// Starts a run over the feeds as they were loaded, each feed's items or the
    /// reason it failed, with an empty ledger. Each failed feed counts as one
    /// error; its triples are left out and every other triple is planned.
    pub fn new(
        loads: Vec<Result<Vec<FeedItem>, SyndicationError>>,
        targets: Vec<Network>,
        dry_run: bool,
    ) -> (r: Run)
        ensures
            r.wf(),
            r.sizes() == load_sizes(loads@),
            r.networks() == targets@,
            r.is_dry_run() == dry_run,
            r.records() == Seq::<SyndicatedPostView>::empty(),
            r.plan() == run_plan(r.sizes(), targets@.len() as int),
            r.cursor() == 0,
            r.pending() is None,
            r.error_count() == failed_count(r.sizes()),
            r.error_list() == load_errors(loads@),
            r.fault_pairs() == Seq::<(Seq<char>, Network)>::empty(),
            forall|t: Triple|
                #![trigger r.item_of(t)]
                names_loaded(r.sizes(), targets@.len() as int, t) ==> r.valid_triple(t)
                    && r.item_of(t) == loads@[t.feed as int]->Ok_0@[t.item as int]@,
            forall|t: Triple|
                #![trigger r.network_of(t)]
                t.target < targets@.len() ==> r.network_of(t) == targets@[t.target as int],
    {
        let ghost orig = loads@;
        let mut loads = loads;
        let mut feeds: Vec<Option<Vec<FeedItem>>> = Vec::new();
        let mut errors: Vec<SyndicationError> = Vec::new();
        while loads.len() > 0
            invariant
                feeds@.len() + loads@.len() == orig.len(),
                loads@ == orig.skip(feeds@.len() as int),
                sizes_of(feeds@) == load_sizes(orig.take(feeds@.len() as int)),
                errors@.len() == failed_count(sizes_of(feeds@)),
                errors_view(errors@) == load_errors(orig.take(feeds@.len() as int)),
                forall|i: int|
                    0 <= i < feeds@.len() && #[trigger] feeds@[i] is Some ==> feeds@[i]->Some_0@.len()
                        <= usize::MAX,
                forall|i: int|
                    0 <= i < feeds@.len() ==> (#[trigger] feeds@[i] matches Some(v) ==> orig[i] == Ok::<
                        Vec<FeedItem>,
                        SyndicationError,
                    >(v)),
            decreases loads@.len(),
        {
            let ghost before = feeds@;
            let ghost errors_before = errors@;
            let l = loads.remove(0);
            assert(l == orig[before.len() as int]);
            match l {
                Ok(items) => {
                    let _count = items.len();
                    feeds.push(Some(items));
                },
                Err(e) => {
                    feeds.push(None);
                    errors.push(e);
                },
            }
            assert(sizes_of(feeds@).drop_last() =~= sizes_of(before));
            assert(orig.take(feeds@.len() as int).drop_last() =~= orig.take(before.len() as int));
            assert(errors_view(errors@) =~= load_errors(orig.take(feeds@.len() as int))) by {
                assert(orig.take(feeds@.len() as int).last() == l);
                if errors@.len() > errors_before.len() {
                    assert(errors_view(errors@) =~= errors_view(errors_before) + seq![errors@.last()@]);
                } else {
                    assert(errors@ == errors_before);
                    assert(errors_view(errors@) =~= errors_view(errors_before) + Seq::<ErrorView>::empty());
                }
            }
            assert forall|i: int| 0 <= i < feeds@.len() implies sizes_of(feeds@)[i] == load_sizes(
                orig.take(feeds@.len() as int),
            )[i] by {
                if i < before.len() {
                    assert(sizes_of(before)[i] == load_sizes(orig.take(before.len() as int))[i]);
                }
            }
            assert(sizes_of(feeds@) =~= load_sizes(orig.take(feeds@.len() as int)));
            assert(loads@ =~= orig.skip(feeds@.len() as int));
        }
        assert(orig.take(feeds@.len() as int) =~= orig);
        let _feed_count = feeds.len();
        let _target_count = targets.len();
        let plan = build_plan(&feeds, targets.len());
        Run {
            feeds,
            targets,
            dry_run,
            ledger: Ledger::new(),
            plan,
            next: 0,
            pending: None,
            errors,
            faults: Vec::new(),
        }
    }

    /// Adds a record published before this run to the run's ledger; a record
    /// whose dedup key is already there is refused.
    pub fn remember(&mut self, record: SyndicatedPost) -> (r: Result<(), StorageError>)
        requires
            old(self).wf(),
        ensures
            final(self).wf(),
            final(self).keeps_inputs(*old(self)),
            final(self).cursor() == old(self).cursor(),
            final(self).pending() == old(self).pending(),
            final(self).error_list() == old(self).error_list(),
            contains_key(old(self).records(), record@.original_guid, record@.social_network)
                ==> r is Err && final(self).records() == old(self).records(),
            !contains_key(old(self).records(), record@.original_guid, record@.social_network)
                ==> r is Ok && final(self).records() == old(self).records().push(record@),
    {
        self.ledger.store(record)
    }

    /// This run has the inputs of `before`: the same plan, feed sizes,
    /// networks and mode, every triple names the same item and network, and
    /// the same lookups have failed.
    pub open spec fn keeps_inputs(&self, before: Run) -> bool {
        &&& self.plan() == before.plan()
        &&& self.sizes() == before.sizes()
        &&& self.networks() == before.networks()
        &&& self.is_dry_run() == before.is_dry_run()
        &&& forall|t: Triple| #[trigger] self.item_of(t) == before.item_of(t)
        &&& forall|t: Triple| #[trigger] self.network_of(t) == before.network_of(t)
        &&& forall|t: Triple| #[trigger] self.valid_triple(t) == before.valid_triple(t)
        &&& self.fault_pairs() == before.fault_pairs()
    }

    /// Visits the next triple of the plan and decides what to do with it. An
    /// item without a directive adds an error; a decision to publish leaves the
    /// triple pending until [`Run::on_published`] reports the outcome.
    pub fn step(&mut self) -> (r: Step)
        requires
            old(self).wf(),
        ensures
            final(self).wf(),
            final(self).keeps_inputs(*old(self)),
            final(self).records() == old(self).records(),
            old(self).cursor() < old(self).plan().len() ==> {
                let t = old(self).plan()[old(self).cursor() as int];
                let d = old(self).decision_at(old(self).cursor() as int);
                &&& r == Step::Visited(t, d)
                &&& final(self).valid_triple(t)
                &&& final(self).cursor() == old(self).cursor() + 1
                &&& final(self).pending() == if d == Decision::Publish {
                    Some(t)
                } else {
                    None
                }
                &&& d == Decision::DirectiveMissing ==> final(self).error_list() == old(self).error_list().push(
                    ErrorView::DirectiveMissing(old(self).item_of(t).guid),
                )
                &&& d == Decision::StorageFault ==> {
                    &&& final(self).error_list().len() == old(self).error_list().len() + 1
                    &&& final(self).error_list().drop_last() == old(self).error_list()
                    &&& final(self).error_list().last() is StorageFault
                }
                &&& (d != Decision::DirectiveMissing && d != Decision::StorageFault) ==> final(self).error_list()
                    == old(self).error_list()
            },
            old(self).cursor() >= old(self).plan().len() ==> {
                &&& r == Step::Finished
                &&& final(self).cursor() == old(self).cursor()
                &&& final(self).pending() is None
                &&& final(self).error_list() == old(self).error_list()
            },
    {
        if self.next >= self.plan.len() {
            self.pending = None;
            return Step::Finished;
        }
        let t = self.plan[self.next];
        assert(self.valid_triple(t));
        let item = match &self.feeds[t.feed] {
            Some(items) => &items[t.item],
            None => {
                assert(false);
                return Step::Finished;
            },
        };
        let network = self.targets[t.target];
        let ghost errors_before = self.errors@;
        let fault = if self.ledger.find(item.guid.as_str(), network).is_some() {
            None
        } else {
            self.find_fault(item.guid.as_str(), network)
        };
        let d = match fault {
            Some(i) => {
                assert(self.fault_pairs()[i as int] == (item@.guid, network));
                assert(self.faulted(item@.guid, network));
                let e = self.faults[i].2.duplicate();
                let ghost ev = e@;
                self.errors.push(SyndicationError::StorageFault(e));
                assert(errors_view(self.errors@) =~= errors_view(errors_before).push(ErrorView::StorageFault(ev)));
                Decision::StorageFault
            },
            None => {
                let d = decide(&self.ledger, item, network, self.dry_run);
                if d == Decision::DirectiveMissing {
                    self.errors.push(SyndicationError::DirectiveMissing(item.guid.clone()));
                    assert(errors_view(self.errors@) =~= errors_view(errors_before).push(
                        ErrorView::DirectiveMissing(item@.guid),
                    ));
                }
                d
            },
        };
        self.pending = if d == Decision::Publish {
            Some(t)
        } else {
            None
        };
        self.next = self.next + 1;
        Step::Visited(t, d)
    }

    /// Reports the outcome of publishing the pending triple: the remote id that
    /// the network gave the post, or why publishing failed. On success the
    /// record is stored in the ledger and returned, for the caller to persist;
    /// a failure, or a record whose key the ledger already holds, adds an error.
    /// With nothing pending, nothing changes.
    pub fn on_published(&mut self, outcome: Result<String, SyndicationError>) -> (r: Option<SyndicatedPost>)
        requires
            old(self).wf(),
        ensures
            final(self).wf(),
            final(self).keeps_inputs(*old(self)),
            final(self).cursor() == old(self).cursor(),
            final(self).pending() is None,
            match old(self).pending() {
                None => {
                    &&& r is None
                    &&& final(self).records() == old(self).records()
                    &&& final(self).error_list() == old(self).error_list()
                },
                Some(t) => match outcome {
                    Ok(id) => {
                        let rec = record_of(old(self).network_of(t), id@, old(self).item_of(t));
                        if contains_key(old(self).records(), rec.original_guid, rec.social_network) {
                            &&& r is None
                            &&& final(self).records() == old(self).records()
                            &&& final(self).error_list().len() == old(self).error_list().len() + 1
                            &&& final(self).error_list().drop_last() == old(self).error_list()
                            &&& final(self).error_list().last() is StorageFault
                        } else {
                            &&& (r matches Some(p) && p@ == rec)
                            &&& final(self).records() == old(self).records().push(rec)
                            &&& final(self).error_list() == old(self).error_list()
                        }
                    },
                    Err(e) => {
                        &&& r is None
                        &&& final(self).records() == old(self).records()
                        &&& final(self).error_list() == old(self).error_list().push(e@)
                    },
                },
            },
    {
        let t = match self.pending {
            None => return None,
            Some(t) => t,
        };
        self.pending = None;
        let ghost errors_before = self.errors@;
        match outcome {
            Err(e) => {
                self.errors.push(e);
                assert(errors_view(self.errors@) =~= errors_view(errors_before).push(e@));
                None
            },
            Ok(id) => {
                let item = match &self.feeds[t.feed] {
                    Some(items) => &items[t.item],
                    None => {
                        assert(false);
                        return None;
                    },
                };
                let record = SyndicatedPost::new(self.targets[t.target], id.as_str(), item);
                let kept = record.duplicate();
                match self.ledger.store(record) {
                    Ok(()) => Some(kept),
                    Err(e) => {
                        let ghost ev = e@;
                        self.errors.push(SyndicationError::StorageFault(e));
                        assert(errors_view(self.errors@) =~= errors_view(errors_before).push(ErrorView::StorageFault(ev)));
                        None
                    },
                }
            },
        }
    }

    /// Adds an error found outside the run, such as a record that the
    /// persistent storage refused; the run goes on.
    pub fn report(&mut self, error: SyndicationError)
        requires
            old(self).wf(),
        ensures
            final(self).wf(),
            final(self).keeps_inputs(*old(self)),
            final(self).records() == old(self).records(),
            final(self).cursor() == old(self).cursor(),
            final(self).pending() == old(self).pending(),
            final(self).error_list() == old(self).error_list().push(error@),
    {
        let ghost errors_before = self.errors@;
        let ghost ev = error@;
        self.errors.push(error);
        assert(errors_view(self.errors@) =~= errors_view(errors_before).push(ev));
    }

    /// Where the lookup of a pair was registered as failed, if it was.
    fn find_fault(&self, guid: &str, network: Network) -> (r: Option<usize>)
        ensures
            match r {
                Some(i) => i < self.faults@.len() && self.faults@[i as int].0@ == guid@ && self.faults@[i as int].1
                    == network,
                None => !self.faulted(guid@, network),
            },
    {
        let mut i: usize = 0;
        while i < self.faults.len()
            invariant
                i <= self.faults@.len(),
                forall|k: int| 0 <= k < i ==> !(self.faults@[k].0@ == guid@ && self.faults@[k].1 == network),
            decreases self.faults@.len() - i,
        {
            if self.faults[i].1 == network && str_equal(self.faults[i].0.as_str(), guid) {
                return Some(i);
            }
            i += 1;
        }
        assert(!self.fault_pairs().contains((guid@, network))) by {
            if self.fault_pairs().contains((guid@, network)) {
                let k = choose|k: int| 0 <= k < self.fault_pairs().len() && self.fault_pairs()[k] == (guid@, network);
                assert(self.fault_pairs()[k] == (self.faults@[k].0@, self.faults@[k].1));
            }
        }
        None
    }

    /// Registers that the ledger lookup of a (guid, network) pair failed with
    /// `error`. Each triple of that pair is then decided as a storage fault:
    /// it counts one error, and nothing is published for it.
    pub fn lookup_failed(&mut self, guid: &str, network: Network, error: StorageError)
        requires
            old(self).wf(),
        ensures
            final(self).wf(),
            final(self).plan() == old(self).plan(),
            final(self).sizes() == old(self).sizes(),
            final(self).networks() == old(self).networks(),
            final(self).is_dry_run() == old(self).is_dry_run(),
            forall|t: Triple| #[trigger] final(self).item_of(t) == old(self).item_of(t),
            forall|t: Triple| #[trigger] final(self).network_of(t) == old(self).network_of(t),
            forall|t: Triple| #[trigger] final(self).valid_triple(t) == old(self).valid_triple(t),
            final(self).fault_pairs() == old(self).fault_pairs().push((guid@, network)),
            final(self).records() == old(self).records(),
            final(self).cursor() == old(self).cursor(),
            final(self).pending() == old(self).pending(),
            final(self).error_list() == old(self).error_list(),
    {
        let ghost before = self.faults@;
        self.faults.push((guid.to_owned(), network, error));
        assert(self.fault_pairs() =~= old(self).fault_pairs().push((guid@, network)));
    }

    /// The item that a triple names, if it names one.
    pub fn item(&self, t: Triple) -> (r: Option<&FeedItem>)
        requires
            self.wf(),
        ensures
            self.valid_triple(t) ==> (r matches Some(i) && i@ == self.item_of(t)),
    {
        if t.feed < self.feeds.len() {
            match &self.feeds[t.feed] {
                Some(items) => if t.item < items.len() {
                    Some(&items[t.item])
                } else {
                    None
                },
                None => None,
            }
        } else {
            None
        }
    }

    /// The network of the target that a triple names, if it names one.
    pub fn network(&self, t: Triple) -> (r: Option<Network>)
        ensures
            t.target < self.networks().len() ==> r == Some(self.network_of(t)),
            t.target >= self.networks().len() ==> r is None,
    {
        if t.target < self.targets.len() {
            Some(self.targets[t.target])
        } else {
            None
        }
    }

    /// The run's ledger.
    pub fn ledger(&self) -> (r: &Ledger)
        ensures
            r@ == self.records(),
    {
        &self.ledger
    }

    /// The errors collected so far.
    pub fn errors(&self) -> (r: &Vec<SyndicationError>)
        ensures
            errors_view(r@) == self.error_list(),
    {
        &self.errors
    }

    /// Whether no triple and no feed has failed so far.
    pub fn succeeded(&self) -> (r: bool)
        ensures
            r == (self.error_count() == 0),
    {
        self.errors.len() == 0
    }

    /// Ends the run: an error if and only if some triple or feed failed.
    pub fn finish(self) -> (r: Result<Ledger, Vec<SyndicationError>>)
        ensures
            r is Ok <==> self.error_count() == 0,
            r matches Ok(l) ==> l@ == self.records(),
            r matches Err(e) ==> errors_view(e@) == self.error_list(),
    {
        if self.errors.len() == 0 {
            Ok(self.ledger)
        } else {
            Err(self.errors)
        }
    }
}

} // verus!

verus! {

/// Routing: a target is published to if and only if the ledger lookup found
/// no record of the pair (neither a record nor a fault), the item has a directive, the directive names the target's network,
/// and the run is not a dry run. An item whose directive names no network goes
/// to no target and does not fail.
pub proof fn lemma_routing(lookup: Lookup, item: FeedItemView, network: Network, dry_run: bool)
    ensures
        decision(lookup, item, network, dry_run) == Decision::Publish <==> {
            &&& lookup == Lookup::Missing
            &&& item.directive matches Some(d)
            &&& directs_to(d, network)
            &&& !dry_run
        },
        (item.directive matches Some(d) && d.target_networks.len() == 0) ==> {
            let r = decision(lookup, item, network, dry_run);
            r == Decision::AlreadyPublished || r == Decision::NotTargeted || r == Decision::StorageFault
        },
{
}

/// Dry run: in every state of a dry run, no triple is decided to be
/// published, whatever the directives say. Every call keeps the dry-run flag
/// (`keeps_inputs`), so no step of a dry run leaves a triple pending, and
/// `on_published` with nothing pending stores no record.
pub proof fn lemma_dry_run_publishes_nothing(run: Run, k: int)
    requires
        run.is_dry_run(),
    ensures
        run.decision_at(k) != Decision::Publish,
{
}

/// Idempotence: once the ledger holds a (guid, network) pair, every triple of
/// that item and network is decided as already published, so it is neither
/// published nor recorded again; and the ledger of a run never holds two
/// records of one pair.
pub proof fn lemma_published_once(run: Run, k: int)
    requires
        run.wf(),
        0 <= k < run.plan().len(),
        contains_key(run.records(), run.item_of(run.plan()[k]).guid, run.network_of(run.plan()[k])),
    ensures
        run.decision_at(k) == Decision::AlreadyPublished,
        keys_unique(run.records()),
{
}

proof fn lemma_feed_plan_contains(f: int, t_count: int, n: nat, t: int, i: int)
    requires
        0 <= t < t_count,
        0 <= i < n,
    ensures
        feed_plan(f, t_count, n).contains(triple(f, t, i)),
    decreases t_count,
{
    let head = feed_plan(f, t_count - 1, n);
    let tail = Seq::new(n, |j: int| triple(f, t_count - 1, j));
    if t == t_count - 1 {
        assert((head + tail)[head.len() + i] == triple(f, t, i));
    } else {
        lemma_feed_plan_contains(f, t_count - 1, n, t, i);
        let j = choose|j: int| 0 <= j < head.len() && head[j] == triple(f, t, i);
        assert((head + tail)[j] == triple(f, t, i));
    }
}

/// Partial failure isolation: every (target, item) triple of a feed that
/// loaded is in the plan of the run, whichever other feeds failed; and a run
/// in which some feed failed counts at least one error, so it ends in an error.
pub proof fn lemma_loaded_feed_planned(sizes: Seq<Option<nat>>, n_targets: int, f: int, t: int, i: int)
    requires
        0 <= f < sizes.len(),
        sizes[f] is Some,
        0 <= t < n_targets,
        0 <= i < sizes[f]->Some_0,
    ensures
        run_plan(sizes, n_targets).contains(triple(f, t, i)),
    decreases sizes.len(),
{
    let head = run_plan(sizes.drop_last(), n_targets);
    let tail = match sizes.last() {
        Some(n) => feed_plan(sizes.len() - 1, n_targets, n),
        None => Seq::empty(),
    };
    assert(run_plan(sizes, n_targets) == head + tail);
    if f == sizes.len() - 1 {
        lemma_feed_plan_contains(f, n_targets, sizes[f]->Some_0, t, i);
        let j = choose|j: int| 0 <= j < tail.len() && tail[j] == triple(f, t, i);
        assert((head + tail)[head.len() + j] == triple(f, t, i));
    } else {
        lemma_loaded_feed_planned(sizes.drop_last(), n_targets, f, t, i);
        let j = choose|j: int| 0 <= j < head.len() && head[j] == triple(f, t, i);
        assert((head + tail)[j] == triple(f, t, i));
    }
}

/// A run over feeds of which one failed to load starts with at least one error.
pub proof fn lemma_failed_feed_counts(sizes: Seq<Option<nat>>, f: int)
    requires
        0 <= f < sizes.len(),
        sizes[f] is None,
    ensures
        failed_count(sizes) >= 1,
    decreases sizes.len(),
{
    if f < sizes.len() - 1 {
        lemma_failed_feed_counts(sizes.drop_last(), f);
    }
}

} // verus!

verus! {

/// A failed lookup stops the publish: where the ledger lookup of a triple's
/// pair failed and no record of it is known, the triple is decided as a
/// storage fault, whatever the directive or the mode.
pub proof fn lemma_fault_not_published(run: Run, k: int)
    requires
        0 <= k < run.plan().len(),
        run.faulted(run.item_of(run.plan()[k]).guid, run.network_of(run.plan()[k])),
        !contains_key(run.records(), run.item_of(run.plan()[k]).guid, run.network_of(run.plan()[k])),
    ensures
        run.decision_at(k) == Decision::StorageFault,
{
}

} // verus!

verus! {

proof fn lemma_concat_no_duplicates(a: Seq<Triple>, b: Seq<Triple>)
    requires
        a.no_duplicates(),
        b.no_duplicates(),
        forall|i: int, j: int| 0 <= i < a.len() && 0 <= j < b.len() ==> a[i] != b[j],
    ensures
        (a + b).no_duplicates(),
{
    let c = a + b;
    assert forall|i: int, j: int| 0 <= i < c.len() && 0 <= j < c.len() && i != j implies c[i] != c[j] by {
        if i < a.len() && j >= a.len() {
            assert(c[j] == b[j - a.len()]);
        } else if j < a.len() && i >= a.len() {
            assert(c[i] == b[i - a.len()]);
        } else if i >= a.len() {
            assert(c[i] == b[i - a.len()] && c[j] == b[j - a.len()]);
        }
    }
}

proof fn lemma_feed_plan_unique(f: int, t: int, n: nat)
    requires
        0 <= f <= usize::MAX,
        t <= usize::MAX + 1,
        n <= usize::MAX + 1,
    ensures
        feed_plan(f, t, n).no_duplicates(),
        forall|k: int|
            0 <= k < feed_plan(f, t, n).len() ==> {
                let x = #[trigger] feed_plan(f, t, n)[k];
                x.feed == f && x.target < t && x.item < n
            },
    decreases t,
{
    if t > 0 {
        lemma_feed_plan_unique(f, t - 1, n);
        let a = feed_plan(f, t - 1, n);
        let b = Seq::new(n, |i: int| triple(f, t - 1, i));
        assert forall|i: int, j: int| 0 <= i < a.len() && 0 <= j < b.len() implies a[i] != b[j] by {
            assert(a[i].target < t - 1);
        }
        lemma_concat_no_duplicates(a, b);
        assert(feed_plan(f, t, n) == a + b);
        assert forall|k: int| 0 <= k < feed_plan(f, t, n).len() implies {
            let x = #[trigger] feed_plan(f, t, n)[k];
            x.feed == f && x.target < t && x.item < n
        } by {
            if k >= a.len() {
                assert((a + b)[k] == b[k - a.len()]);
            } else {
                assert((a + b)[k] == a[k]);
            }
        }
    }
}

/// Each triple is planned once: the plan of a run holds no triple twice, so
/// the run visits, and decides, every (feed, target, item) triple exactly once.
pub proof fn lemma_plan_unique(sizes: Seq<Option<nat>>, n_targets: int)
    requires
        sizes.len() <= usize::MAX,
        n_targets <= usize::MAX,
        forall|f: int| 0 <= f < sizes.len() && #[trigger] sizes[f] is Some ==> sizes[f]->Some_0 <= usize::MAX,
    ensures
        run_plan(sizes, n_targets).no_duplicates(),
        forall|k: int|
            0 <= k < run_plan(sizes, n_targets).len() ==> (#[trigger] run_plan(sizes, n_targets)[k]).feed
                < sizes.len(),
    decreases sizes.len(),
{
    if sizes.len() > 0 {
        let s = sizes.drop_last();
        assert forall|f: int| 0 <= f < s.len() && #[trigger] s[f] is Some implies s[f]->Some_0 <= usize::MAX by {
            assert(s[f] == sizes[f]);
        }
        lemma_plan_unique(s, n_targets);
        let a = run_plan(s, n_targets);
        let b = match sizes.last() {
            Some(n) => feed_plan(sizes.len() - 1, n_targets, n),
            None => Seq::<Triple>::empty(),
        };
        if let Some(n) = sizes.last() {
            assert(sizes[sizes.len() - 1] is Some);
            lemma_feed_plan_unique(sizes.len() - 1, n_targets, n);
        }
        assert forall|i: int, j: int| 0 <= i < a.len() && 0 <= j < b.len() implies a[i] != b[j] by {
            assert(a[i].feed < s.len());
        }
        lemma_concat_no_duplicates(a, b);
        assert(run_plan(sizes, n_targets) == a + b);
        assert forall|k: int| 0 <= k < (a + b).len() implies (#[trigger] (a + b)[k]).feed < sizes.len() by {
            if k >= a.len() {
                assert((a + b)[k] == b[k - a.len()]);
            } else {
                assert((a + b)[k] == a[k]);
            }
        }
    }
}

} // verus!

verus! {

/// A run visits every planned triple exactly once: its plan holds no triple
/// twice, and each step moves the cursor on by one.
pub proof fn lemma_run_plan_unique(run: Run)
    requires
        run.wf(),
    ensures
        run.plan().no_duplicates(),
{
    let sizes = run.sizes();
    assert forall|f: int| 0 <= f < sizes.len() && #[trigger] sizes[f] is Some implies sizes[f]->Some_0 <= usize::MAX by {
        assert(run.feeds@[f] is Some);
    }
    lemma_plan_unique(sizes, run.targets@.len() as int);
}

} // verus!
