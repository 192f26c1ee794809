//! The block-time cache: a bounded memo of slot to block time, with a set
//! of slots whose upstream lookup is under way.
//!
//! The cache itself never talks to the upstream node. A caller asks with
//! [`BlockTimeCache::get_block_time`]; when told to fetch, it performs the
//! upstream lookup and reports what came back with
//! [`BlockTimeCache::complete_fetch`].

use std::collections::HashMap;
use std::collections::HashSet;
use std::collections::VecDeque;
use vstd::prelude::*;
use vstd::string::StringSliceAdditionalSpecFns;

use crate::search::contains_bytes;
use crate::search::holds_bytes;

verus! {

/// Most entries the cache keeps resident.
pub const MAX_CACHED_SLOTS: usize = 20;

/// What the cache holds: the resident entries, oldest first, and the slots
/// being looked up.
pub struct CacheState {
    pub resident: Seq<(u64, i64)>,
    pub in_flight: Set<u64>,
}

/// How an upstream lookup ended.
#[derive(Clone, Copy, Debug, PartialEq, Eq, Structural)]
pub enum FetchOutcome {
    /// The node returned the block time.
    Found(i64),
    /// The block is not available yet: expected, and not worth a report.
    NotAvailable,
    /// The lookup failed for another reason.
    Failed,
}

impl FetchOutcome {
    /// The block time that the lookup found, if it found one.
    pub open spec fn spec_block_time(&self) -> Option<i64> {
        match *self {
            FetchOutcome::Found(time) => Some(time),
            _ => None,
        }
    }

    /// Tells the two kinds of failure apart by the failure's description:
    /// one that says "Block not available" is expected, any other is not.
    pub fn from_failure(description: &str) -> (outcome: Self)
        ensures
            outcome == if holds_bytes(
                description.spec_bytes(),
                "Block not available".spec_bytes(),
            ) {
                FetchOutcome::NotAvailable
            } else {
                FetchOutcome::Failed
            },
    {
        if contains_bytes(description.as_bytes(), "Block not available".as_bytes()) {
            FetchOutcome::NotAvailable
        } else {
            FetchOutcome::Failed
        }
    }

    #[verifier::when_used_as_spec(spec_block_time)]
    pub fn block_time(&self) -> (time: Option<i64>)
        ensures
            time == self.spec_block_time(),
    {
        match self {
            FetchOutcome::Found(time) => Some(*time),
            _ => None,
        }
    }

    /// Whether the outcome is to be reported as an error.
    pub fn is_reportable(&self) -> (reportable: bool)
        ensures
            reportable == (*self is Failed),
    {
        match self {
            FetchOutcome::Failed => true,
            _ => false,
        }
    }
}

/// Answer to a request for a slot's block time.
#[derive(Clone, Copy, Debug, PartialEq, Eq, Structural)]
pub enum Lookup {
    /// The block time is resident.
    Known(i64),
    /// Another lookup of this slot is under way; nothing is known this round.
    Pending,
    /// The slot is now marked as being looked up; the caller performs the
    /// upstream lookup.
    Fetch,
}

/// Whether some resident entry is keyed by `slot`.
pub open spec fn holds(resident: Seq<(u64, i64)>, slot: u64) -> bool {
    exists|i: int| 0 <= i < resident.len() && (#[trigger] resident[i]).0 == slot
}

/// The place of the entry keyed by `slot`, where there is one.
pub open spec fn place_of(resident: Seq<(u64, i64)>, slot: u64) -> int {
    choose|i: int| 0 <= i < resident.len() && (#[trigger] resident[i]).0 == slot
}

/// No two resident entries share a slot.
pub open spec fn distinct_slots(resident: Seq<(u64, i64)>) -> bool {
    forall|i: int, j: int|
        0 <= i < j < resident.len() ==> (#[trigger] resident[i]).0 != (#[trigger] resident[j]).0
}

/// The cache keeps its bound, holds no slot twice, and tracks finitely many
/// lookups.
pub open spec fn well_formed(state: CacheState) -> bool {
    &&& state.resident.len() <= MAX_CACHED_SLOTS
    &&& distinct_slots(state.resident)
    &&& state.in_flight.finite()
}

/// The resident entries after `time` is recorded for `slot`: a present
/// entry is overwritten in place; a new one joins at the back, and the
/// oldest entry leaves when that exceeds the bound.
pub open spec fn store(resident: Seq<(u64, i64)>, slot: u64, time: i64) -> Seq<(u64, i64)> {
    if holds(resident, slot) {
        resident.update(place_of(resident, slot), (slot, time))
    } else if resident.len() + 1 > MAX_CACHED_SLOTS {
        resident.push((slot, time)).subrange(1, resident.len() as int + 1)
    } else {
        resident.push((slot, time))
    }
}

/// The state and the answer when a caller asks for `slot`.
pub open spec fn lookup(state: CacheState, slot: u64) -> (CacheState, Lookup) {
    if holds(state.resident, slot) {
        (state, Lookup::Known(state.resident[place_of(state.resident, slot)].1))
    } else if state.in_flight.contains(slot) {
        (state, Lookup::Pending)
    } else {
        (
            CacheState { resident: state.resident, in_flight: state.in_flight.insert(slot) },
            Lookup::Fetch,
        )
    }
}

/// The state after the upstream lookup of `slot` ended with `fetched`.
pub open spec fn complete(state: CacheState, slot: u64, fetched: Option<i64>) -> CacheState {
    CacheState {
        resident: match fetched {
            Some(time) => store(state.resident, slot, time),
            None => state.resident,
        },
        in_flight: state.in_flight.remove(slot),
    }
}

/// The resident entries that a map and the order of its keys stand for:
/// the keys in their order, each with its value.
spec fn entries_of(times: Map<u64, i64>, order: Seq<u64>) -> Seq<(u64, i64)> {
    Seq::new(order.len(), |i: int| (order[i], times[order[i]]))
}

/// Whether the order lists `slot`.
spec fn listed(order: Seq<u64>, slot: u64) -> bool {
    exists|i: int| 0 <= i < order.len() && #[trigger] order[i] == slot
}

/// The order lists exactly the keys of the map, each once.
spec fn lists_keys(times: Map<u64, i64>, order: Seq<u64>) -> bool {
    &&& order.no_duplicates()
    &&& forall|i: int| 0 <= i < order.len() ==> times.contains_key(#[trigger] order[i])
    &&& forall|slot: u64| times.contains_key(slot) ==> listed(order, slot)
}

/// Where the order lists exactly the keys of the map, a slot is resident
/// just when it is a key, and its entry holds the map's value.
proof fn lemma_entries(times: Map<u64, i64>, order: Seq<u64>, slot: u64)
    requires
        lists_keys(times, order),
    ensures
        distinct_slots(entries_of(times, order)),
        holds(entries_of(times, order), slot) <==> times.contains_key(slot),
        times.contains_key(slot) ==> {
            &&& 0 <= place_of(entries_of(times, order), slot) < order.len()
            &&& order[place_of(entries_of(times, order), slot)] == slot
            &&& entries_of(times, order)[place_of(entries_of(times, order), slot)] == (
                slot,
                times[slot],
            )
        },
{
    let entries = entries_of(times, order);
    assert(distinct_slots(entries)) by {
        assert forall|i: int, j: int| 0 <= i < j < entries.len() implies (
        #[trigger] entries[i]).0 != (#[trigger] entries[j]).0 by {
            assert(order[i] != order[j]);
        }
    }
    if times.contains_key(slot) {
        assert(listed(order, slot));
        let i = choose|i: int| 0 <= i < order.len() && #[trigger] order[i] == slot;
        assert(entries[i].0 == slot);
    }
    if holds(entries, slot) {
        let p = place_of(entries, slot);
        assert(order[p] == slot);
    }
}

/// The block-time cache: the block times by slot, the slots in the order
/// in which they became resident, and the slots being looked up.
pub struct BlockTimeCache {
    cache: HashMap<u64, i64>,
    order: VecDeque<u64>,
    fetching: HashSet<u64>,
}

impl View for BlockTimeCache {
    type V = CacheState;

    closed spec fn view(&self) -> CacheState {
        CacheState {
            resident: entries_of(self.cache@, self.order@),
            in_flight: self.fetching@,
        }
    }
}

impl BlockTimeCache {
    /// The invariant every cache keeps. It implies [`well_formed`].
    pub closed spec fn wf(&self) -> bool {
        &&& lists_keys(self.cache@, self.order@)
        &&& self.order@.len() <= MAX_CACHED_SLOTS
        &&& self.fetching@.finite()
    }

    /// A cache that keeps its invariant is well formed.
    pub proof fn lemma_wf(&self)
        requires
            self.wf(),
        ensures
            well_formed(self@),
    {
        broadcast use vstd::std_specs::hash::group_hash_axioms;

        lemma_entries(self.cache@, self.order@, 0);
    }

    /// An empty cache with no lookup under way.
    pub fn new() -> (cache: Self)
        ensures
            cache.wf(),
            cache@.resident == Seq::<(u64, i64)>::empty(),
            cache@.in_flight == Set::<u64>::empty(),
    {
        broadcast use vstd::std_specs::hash::group_hash_axioms;

        let cache = BlockTimeCache {
            cache: HashMap::new(),
            order: VecDeque::new(),
            fetching: HashSet::new(),
        };
        assert(cache@.resident =~= Seq::<(u64, i64)>::empty());
        cache
    }

    /// Number of resident entries.
    pub fn len(&self) -> (len: usize)
        requires
            self.wf(),
        ensures
            len == self@.resident.len(),
            len <= MAX_CACHED_SLOTS,
    {
        self.order.len()
    }

    /// Asks for the block time of `slot`.
    ///
    /// A resident slot is answered at once. A slot whose lookup is under way
    /// gives [`Lookup::Pending`]: the caller does not wait and learns the
    /// time on a later call. Any other slot is marked as being looked up and
    /// the caller is told to fetch it.
    pub fn get_block_time(&mut self, slot: u64) -> (answer: Lookup)
        requires
            old(self).wf(),
        ensures
            final(self).wf(),
            well_formed(final(self)@),
            (final(self)@, answer) == lookup(old(self)@, slot),
    {
        broadcast use vstd::std_specs::hash::group_hash_axioms;

        proof {
            lemma_entries(self.cache@, self.order@, slot);
            self.lemma_wf();
        }
        match self.cache.get(&slot) {
            Some(time) => Lookup::Known(*time),
            None => {
                if self.fetching.contains(&slot) {
                    Lookup::Pending
                } else {
                    self.fetching.insert(slot);
                    Lookup::Fetch
                }
            },
        }
    }

    /// Reports how the upstream lookup of `slot` ended: `Some` block time on
    /// success, `None` on any failure. A block time is stored, and the oldest
    /// entry evicted when the bound is exceeded; a failure stores nothing.
    /// The slot's mark is cleared either way. Returns what was fetched.
    pub fn complete_fetch(&mut self, slot: u64, fetched: Option<i64>) -> (block_time: Option<i64>)
        requires
            old(self).wf(),
        ensures
            final(self).wf(),
            well_formed(final(self)@),
            final(self)@ == complete(old(self)@, slot, fetched),
            block_time == fetched,
    {
        broadcast use vstd::std_specs::hash::group_hash_axioms;

        let ghost times = self.cache@;
        let ghost order = self.order@;
        proof {
            lemma_entries(times, order, slot);
        }
        if let Some(time) = fetched {
            if self.cache.contains_key(&slot) {
                self.cache.insert(slot, time);
                proof {
                    lemma_overwrite(times, order, slot, time);
                }
            } else {
                self.cache.insert(slot, time);
                self.order.push_back(slot);
                proof {
                    lemma_join(times, order, slot, time);
                }
                if self.order.len() > MAX_CACHED_SLOTS {
                    let ghost grown_times = self.cache@;
                    let ghost grown_order = self.order@;
                    if let Some(oldest) = self.order.pop_front() {
                        self.cache.remove(&oldest);
                        proof {
                            lemma_evict(grown_times, grown_order);
                        }
                    }
                }
            }
        }
        self.fetching.remove(&slot);
        proof {
            self.lemma_wf();
        }
        fetched
    }
}

/// Overwriting the value of a key overwrites its entry in place.
proof fn lemma_overwrite(times: Map<u64, i64>, order: Seq<u64>, slot: u64, time: i64)
    requires
        lists_keys(times, order),
        times.contains_key(slot),
    ensures
        lists_keys(times.insert(slot, time), order),
        entries_of(times.insert(slot, time), order) == store(entries_of(times, order), slot, time),
{
    lemma_entries(times, order, slot);
    let entries = entries_of(times, order);
    let p = place_of(entries, slot);
    assert(entries_of(times.insert(slot, time), order) =~= entries.update(p, (slot, time))) by {
        assert forall|i: int| 0 <= i < order.len() && i != p implies order[i] != slot by {
            if i < p {
                assert(order[i] != order[p]);
            } else {
                assert(order[p] != order[i]);
            }
        }
    }
}

/// A new key joins at the back of the entries.
proof fn lemma_join(times: Map<u64, i64>, order: Seq<u64>, slot: u64, time: i64)
    requires
        lists_keys(times, order),
        !times.contains_key(slot),
    ensures
        lists_keys(times.insert(slot, time), order.push(slot)),
        entries_of(times.insert(slot, time), order.push(slot)) == entries_of(times, order).push(
            (slot, time),
        ),
        !holds(entries_of(times, order), slot),
{
    lemma_entries(times, order, slot);
    let grown = order.push(slot);
    assert(grown.no_duplicates()) by {
        assert forall|i: int, j: int| 0 <= i < grown.len() && 0 <= j < grown.len() && i
            != j implies grown[i] != grown[j] by {
            if i < order.len() && j < order.len() {
                assert(order[i] != order[j]);
            } else if i < order.len() {
                assert(times.contains_key(order[i]));
            } else {
                assert(times.contains_key(order[j]));
            }
        }
    }
    assert forall|s: u64| times.insert(slot, time).contains_key(s) implies listed(grown, s) by {
        if s == slot {
            assert(grown[grown.len() - 1] == s);
        } else {
            assert(listed(order, s));
            let i = choose|i: int| 0 <= i < order.len() && #[trigger] order[i] == s;
            assert(grown[i] == s);
        }
    }
    assert(entries_of(times.insert(slot, time), grown) =~= entries_of(times, order).push(
        (slot, time),
    )) by {
        assert forall|i: int| 0 <= i < order.len() implies order[i] != slot by {
            assert(times.contains_key(order[i]));
        }
    }
}

/// Dropping the first key drops the first entry.
proof fn lemma_evict(times: Map<u64, i64>, order: Seq<u64>)
    requires
        lists_keys(times, order),
        order.len() > 0,
    ensures
        lists_keys(times.remove(order[0]), order.subrange(1, order.len() as int)),
        entries_of(times.remove(order[0]), order.subrange(1, order.len() as int)) == entries_of(
            times,
            order,
        ).subrange(1, order.len() as int),
{
    let rest = order.subrange(1, order.len() as int);
    assert(rest.no_duplicates()) by {
        assert forall|i: int, j: int| 0 <= i < rest.len() && 0 <= j < rest.len() && i
            != j implies rest[i] != rest[j] by {
            assert(order[i + 1] != order[j + 1]);
        }
    }
    assert forall|i: int| 0 <= i < rest.len() implies times.remove(order[0]).contains_key(
        #[trigger] rest[i],
    ) by {
        assert(order[i + 1] != order[0]);
        assert(times.contains_key(order[i + 1]));
    }
    assert forall|s: u64| times.remove(order[0]).contains_key(s) implies listed(rest, s) by {
        assert(listed(order, s));
        let i = choose|i: int| 0 <= i < order.len() && #[trigger] order[i] == s;
        assert(rest[i - 1] == s);
    }
    assert(entries_of(times.remove(order[0]), rest) =~= entries_of(times, order).subrange(
        1,
        order.len() as int,
    )) by {
        assert forall|i: int| 0 <= i < rest.len() implies rest[i] != order[0] by {
            assert(order[i + 1] != order[0]);
        }
    }
}

/// Storing a block time keeps the bound and keeps every slot unique.
pub proof fn lemma_store_keeps_bound(resident: Seq<(u64, i64)>, slot: u64, time: i64)
    requires
        resident.len() <= MAX_CACHED_SLOTS,
        distinct_slots(resident),
    ensures
        store(resident, slot, time).len() <= MAX_CACHED_SLOTS,
        distinct_slots(store(resident, slot, time)),
        holds(store(resident, slot, time), slot),
{
    let after = store(resident, slot, time);
    if holds(resident, slot) {
        let p = place_of(resident, slot);
        assert(after[p].0 == slot);
    } else if resident.len() + 1 > MAX_CACHED_SLOTS {
        assert(after[after.len() - 1].0 == slot);
        assert forall|i: int, j: int| 0 <= i < j < after.len() implies (#[trigger] after[i]).0 != (
        #[trigger] after[j]).0 by {
            assert(after[i] == resident.push((slot, time))[i + 1]);
            assert(after[j] == resident.push((slot, time))[j + 1]);
            if j + 1 < resident.len() {
                assert(resident[i + 1].0 != resident[j + 1].0);
            } else {
                assert(resident[i + 1].0 != slot);
            }
        }
    } else {
        assert(after[after.len() - 1].0 == slot);
        assert forall|i: int, j: int| 0 <= i < j < after.len() implies (#[trigger] after[i]).0 != (
        #[trigger] after[j]).0 by {
            if j < resident.len() {
                assert(resident[i].0 != resident[j].0);
            } else {
                assert(resident[i].0 != slot);
            }
        }
    }
}

/// One step in the life of a cache: a caller asks for a slot, or an upstream
/// lookup ends.
pub enum CacheOp {
    Ask(u64),
    Complete(u64, Option<i64>),
}

/// The state after one step.
pub open spec fn apply(state: CacheState, op: CacheOp) -> CacheState {
    match op {
        CacheOp::Ask(slot) => lookup(state, slot).0,
        CacheOp::Complete(slot, fetched) => complete(state, slot, fetched),
    }
}

/// The state after a run of steps, first to last.
pub open spec fn run(state: CacheState, ops: Seq<CacheOp>) -> CacheState
    decreases ops.len(),
{
    if ops.len() == 0 {
        state
    } else {
        apply(run(state, ops.drop_last()), ops.last())
    }
}

/// Whether a step ends the upstream lookup of `slot`.
pub open spec fn completes(op: CacheOp, slot: u64) -> bool {
    op matches CacheOp::Complete(s, _) && s == slot
}

/// Recording a time for one slot makes no other slot resident.
pub proof fn lemma_store_adds_only_its_slot(
    resident: Seq<(u64, i64)>,
    slot: u64,
    time: i64,
    other: u64,
)
    requires
        other != slot,
        !holds(resident, other),
    ensures
        !holds(store(resident, slot, time), other),
{
    let after = store(resident, slot, time);
    if holds(after, other) {
        let k = place_of(after, other);
        if holds(resident, slot) {
            let p = place_of(resident, slot);
            assert(resident[k].0 == other);
        } else if resident.len() + 1 > MAX_CACHED_SLOTS {
            assert(after[k] == resident.push((slot, time))[k + 1]);
            assert(resident[k + 1].0 == other);
        } else {
            assert(resident[k].0 == other);
        }
    }
}

/// Every step keeps the cache well formed.
pub proof fn lemma_step_keeps_well_formed(state: CacheState, op: CacheOp)
    requires
        well_formed(state),
    ensures
        well_formed(apply(state, op)),
{
    match op {
        CacheOp::Ask(slot) => {},
        CacheOp::Complete(slot, fetched) => {
            if let Some(time) = fetched {
                lemma_store_keeps_bound(state.resident, slot, time);
            }
        },
    }
}

/// Whatever is asked and whatever the upstream lookups return, in any
/// order, the cache never holds more than its bound and never holds a slot
/// twice.
pub proof fn lemma_cache_stays_bounded(state: CacheState, ops: Seq<CacheOp>)
    requires
        well_formed(state),
    ensures
        well_formed(run(state, ops)),
        run(state, ops).resident.len() <= MAX_CACHED_SLOTS,
    decreases ops.len(),
{
    if ops.len() > 0 {
        lemma_cache_stays_bounded(state, ops.drop_last());
        lemma_step_keeps_well_formed(run(state, ops.drop_last()), ops.last());
    }
}

/// The first of two lookups of an uncached slot is told to fetch; the
/// second, made before the first fetch has ended, is told nothing is known
/// this round and changes nothing.
pub proof fn lemma_second_lookup_is_pending(state: CacheState, slot: u64)
    requires
        !holds(state.resident, slot),
        !state.in_flight.contains(slot),
    ensures
        lookup(state, slot).1 == Lookup::Fetch,
        lookup(lookup(state, slot).0, slot) == (lookup(state, slot).0, Lookup::Pending),
{
}

/// While the lookup of a slot is under way, no caller is told to fetch that
/// slot again, whatever happens to other slots in between.
pub proof fn lemma_one_fetch_in_flight(state: CacheState, slot: u64, ops: Seq<CacheOp>)
    requires
        !holds(state.resident, slot),
        state.in_flight.contains(slot),
        forall|i: int| 0 <= i < ops.len() ==> !completes(#[trigger] ops[i], slot),
    ensures
        !holds(run(state, ops).resident, slot),
        run(state, ops).in_flight.contains(slot),
        lookup(run(state, ops), slot) == (run(state, ops), Lookup::Pending),
    decreases ops.len(),
{
    if ops.len() > 0 {
        let before = run(state, ops.drop_last());
        assert forall|i: int| 0 <= i < ops.drop_last().len() implies !completes(
            #[trigger] ops.drop_last()[i],
            slot,
        ) by {
            assert(ops.drop_last()[i] == ops[i]);
        }
        lemma_one_fetch_in_flight(state, slot, ops.drop_last());
        assert(!completes(ops[ops.len() - 1], slot));
        match ops.last() {
            CacheOp::Ask(asked) => {},
            CacheOp::Complete(done, fetched) => {
                if let Some(time) = fetched {
                    lemma_store_adds_only_its_slot(before.resident, done, time, slot);
                }
            },
        }
    }
}

/// The steps in which a batch of slots is asked for, in order.
pub open spec fn asks(slots: Seq<u64>) -> Seq<CacheOp> {
    slots.map_values(|slot: u64| CacheOp::Ask(slot))
}

impl BlockTimeCache {
    /// Asks for the block times of a batch of slots, first to last, as
    /// [`BlockTimeCache::get_block_time`] does for each. The answers come in
    /// the order of the slots.
    pub fn get_block_times(&mut self, slots: &Vec<u64>) -> (answers: Vec<Lookup>)
        requires
            old(self).wf(),
        ensures
            final(self).wf(),
            well_formed(final(self)@),
            final(self)@ == run(old(self)@, asks(slots@)),
            answers@.len() == slots@.len(),
            forall|i: int|
                0 <= i < slots@.len() ==> #[trigger] answers@[i] == lookup(
                    run(old(self)@, asks(slots@.subrange(0, i))),
                    slots@[i],
                ).1,
    {
        let ghost start = self@;
        let mut answers: Vec<Lookup> = Vec::new();
        let mut i: usize = 0;
        proof {
            assert(asks(slots@.subrange(0, 0)) =~= Seq::<CacheOp>::empty());
        }
        while i < slots.len()
            invariant
                i <= slots@.len(),
                self.wf(),
                self@ == run(start, asks(slots@.subrange(0, i as int))),
                answers@.len() == i,
                forall|k: int|
                    0 <= k < i ==> #[trigger] answers@[k] == lookup(
                        run(start, asks(slots@.subrange(0, k))),
                        slots@[k],
                    ).1,
            decreases slots@.len() - i,
        {
            proof {
                let next = asks(slots@.subrange(0, i + 1));
                assert(next.drop_last() =~= asks(slots@.subrange(0, i as int)));
                assert(next.last() == CacheOp::Ask(slots@[i as int]));
            }
            let answer = self.get_block_time(slots[i]);
            answers.push(answer);
            i += 1;
        }
        proof {
            assert(slots@.subrange(0, i as int) =~= slots@);
            self.lemma_wf();
        }
        answers
    }
}

} // verus!
