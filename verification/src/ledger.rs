//! The transactions-by-slot ledger: for every slot with transactions still
//! waiting for their block time, the transactions in the order received.

use std::collections::BTreeMap;
use vstd::prelude::*;
use vstd::std_specs::btree::increasing_seq;
use vstd::std_specs::btree::spec_keys_iter;
use vstd::std_specs::cmp::OrdSpec;
use vstd::std_specs::iter::IteratorSpec;

verus! {

/// How many slots behind the newest block-meta a ledger entry may fall
/// before it is pruned.
pub const RETENTION_SLOTS: u64 = 20;

/// A transaction waiting for the block time of its slot.
pub struct PendingTransaction {
    /// Base58 text of the transaction's first signature.
    pub signature: String,
    /// When the transaction was received, in milliseconds since the epoch.
    pub received_at_ms: i64,
}

/// What a pending transaction says: the characters of its signature and the
/// time of its receipt.
pub struct PendingModel {
    pub signature: Seq<char>,
    pub received_at_ms: i64,
}

impl View for PendingTransaction {
    type V = PendingModel;

    open spec fn view(&self) -> PendingModel {
        PendingModel { signature: self.signature@, received_at_ms: self.received_at_ms }
    }
}

/// The views of a run of pending transactions, in the same order.
pub open spec fn views(transactions: Seq<PendingTransaction>) -> Seq<PendingModel> {
    transactions.map_values(|t: PendingTransaction| t@)
}

/// What a map of pending transactions says: for each slot, the views of
/// the transactions waiting there.
pub open spec fn as_map(entries: Map<u64, Vec<PendingTransaction>>) -> Map<u64, Seq<PendingModel>> {
    entries.map_values(|list: Vec<PendingTransaction>| views(list@))
}

/// The transactions waiting at `slot`; none where the slot has no entry.
pub open spec fn waiting(ledger: Map<u64, Seq<PendingModel>>, slot: u64) -> Seq<PendingModel> {
    if ledger.contains_key(slot) {
        ledger[slot]
    } else {
        Seq::empty()
    }
}

/// Receipt times never go back along a run of pending transactions.
pub open spec fn receipts_in_order(transactions: Seq<PendingModel>) -> bool {
    forall|i: int, j: int|
        0 <= i <= j < transactions.len() ==> (#[trigger] transactions[i]).received_at_ms <= (
        #[trigger] transactions[j]).received_at_ms
}

/// Whether an entry for `slot` outlives a block-meta at `newest`: it does
/// when it is at most [`RETENTION_SLOTS`] behind.
pub open spec fn retained(slot: u64, newest: u64) -> bool {
    slot + RETENTION_SLOTS >= newest
}

/// The ledger after a block-meta at `newest` has pruned it: the entries that
/// are retained, unchanged.
pub open spec fn pruned(ledger: Map<u64, Seq<PendingModel>>, newest: u64) -> Map<
    u64,
    Seq<PendingModel>,
> {
    ledger.restrict(Set::new(|slot: u64| retained(slot, newest)))
}

/// The lowest slot still to be examined when the first `done` of the
/// ordered slots have been: the next slot, or one past the highest slot
/// there can be.
spec fn next_slot(slots: Seq<u64>, done: int) -> int {
    if done < slots.len() {
        slots[done] as int
    } else {
        u64::MAX + 1
    }
}

/// Every slot in an ordered listing lies at or above the first slot not yet
/// examined, or is one of those examined.
proof fn lemma_examined(slots: Seq<u64>, done: int, slot: u64)
    requires
        0 <= done <= slots.len(),
        forall|a: int, b: int| 0 <= a < b < slots.len() ==> slots[a] < slots[b],
        slots.contains(slot),
    ensures
        slot >= next_slot(slots, done) <==> !(exists|k: int|
            0 <= k < done && #[trigger] slots[k] == slot),
{
    let m = choose|m: int| 0 <= m < slots.len() && slots[m] == slot;
    if m < done {
        if done < slots.len() {
            assert(slots[m] < slots[done]);
        }
    } else {
        if m > done {
            assert(slots[done] < slots[m]);
        }
        if exists|k: int| 0 <= k < done && #[trigger] slots[k] == slot {
            let k = choose|k: int| 0 <= k < done && #[trigger] slots[k] == slot;
            assert(slots[k] < slots[m]);
        }
    }
}

/// Slots are ordered as numbers are, which is what an ordered map of
/// slots relies on.
proof fn lemma_slot_keys()
    ensures
        vstd::laws_cmp::obeys_cmp::<u64>(),
        vstd::laws_cmp::obeys_cmp::<&u64>(),
        vstd::std_specs::btree::key_obeys_cmp_spec::<u64>(),
{
    broadcast use vstd::std_specs::btree::group_btree_axioms;
    broadcast use vstd::laws_cmp::group_laws_cmp;

}

/// The ledger: the transactions waiting at each slot, ordered by slot, and
/// the newest block-meta slot observed.
pub struct TransactionsBySlot {
    entries: BTreeMap<u64, Vec<PendingTransaction>>,
    newest_block_meta: u64,
}

impl View for TransactionsBySlot {
    type V = Map<u64, Seq<PendingModel>>;

    closed spec fn view(&self) -> Map<u64, Seq<PendingModel>> {
        as_map(self.entries@)
    }
}

impl TransactionsBySlot {
    /// The highest slot of any block-meta observed; zero before the first.
    pub closed spec fn spec_newest_block_meta(&self) -> u64 {
        self.newest_block_meta
    }

    /// An empty ledger.
    pub fn new() -> (ledger: Self)
        ensures
            ledger@ == Map::<u64, Seq<PendingModel>>::empty(),
            ledger.spec_newest_block_meta() == 0,
    {
        let ledger = TransactionsBySlot { entries: BTreeMap::new(), newest_block_meta: 0 };
        assert(ledger@ =~= Map::<u64, Seq<PendingModel>>::empty());
        ledger
    }

    #[verifier::when_used_as_spec(spec_newest_block_meta)]
    pub fn newest_block_meta(&self) -> (newest: u64)
        ensures
            newest == self.spec_newest_block_meta(),
    {
        self.newest_block_meta
    }

    /// Number of slots with transactions waiting.
    pub fn len(&self) -> (len: usize)
        ensures
            len == self@.dom().len(),
            self@.dom().finite(),
    {
        broadcast use vstd::std_specs::btree::group_btree_axioms;

        proof {
            lemma_slot_keys();
        }
        assert(self@.dom() =~= self.entries@.dom());
        self.entries.len()
    }

    /// Appends a transaction to the entry of `slot`, creating the entry on
    /// the slot's first transaction. Entries of other slots stay as they are.
    pub fn record(&mut self, slot: u64, transaction: PendingTransaction)
        ensures
            final(self)@ == old(self)@.insert(slot, waiting(old(self)@, slot).push(transaction@)),
            final(self).spec_newest_block_meta() == old(self).spec_newest_block_meta(),
    {
        broadcast use vstd::std_specs::btree::group_btree_axioms;

        proof {
            lemma_slot_keys();
        }
        let ghost before = self.entries@;
        let mut list = match self.entries.remove(&slot) {
            Some(list) => list,
            None => Vec::new(),
        };
        let ghost earlier = views(list@);
        assert(earlier =~= waiting(as_map(before), slot));
        list.push(transaction);
        assert(views(list@) =~= earlier.push(transaction@));
        self.entries.insert(slot, list);
        assert(as_map(self.entries@) =~= as_map(before).insert(
            slot,
            waiting(as_map(before), slot).push(transaction@),
        ));
    }

    /// The slots that have transactions waiting, in ascending order.
    pub fn slots(&self) -> (slots: Vec<u64>)
        ensures
            slots@.len() == self@.dom().len(),
            forall|s: u64| slots@.contains(s) <==> self@.contains_key(s),
            forall|i: int, j: int| 0 <= i < j < slots@.len() ==> slots@[i] < slots@[j],
    {
        broadcast use vstd::std_specs::btree::group_btree_axioms;

        proof {
            lemma_slot_keys();
        }
        let mut slots: Vec<u64> = Vec::new();
        let ghost all = spec_keys_iter(&self.entries).remaining();
        for slot in iter: self.entries.keys()
            invariant
                iter.seq() == all,
                slots@.len() == iter.index(),
                forall|i: int| 0 <= i < slots@.len() ==> slots@[i] == *all[i],
        {
            slots.push(*slot);
        }
        proof {
            assert(slots@ =~= all.unref());
            assert(self@.dom() =~= self.entries@.dom());
            assert forall|s: u64| slots@.contains(s) <==> self@.contains_key(s) by {
                assert(slots@.to_set().contains(s) <==> slots@.contains(s));
            }
            assert(increasing_seq(all));
            vstd::std_specs::btree::axiom_increasing_seq_meaning::<&u64>(all);
            assert forall|i: int, j: int| 0 <= i < j < slots@.len() implies slots@[i]
                < slots@[j] by {
                assert(OrdSpec::cmp_spec(&all[i], &all[j]) is Less);
            }
        }
        slots
    }

    /// Takes the entry of `slot` out of the ledger and returns its
    /// transactions, oldest first; returns none where the slot has no entry.
    pub fn remove(&mut self, slot: u64) -> (transactions: Vec<PendingTransaction>)
        ensures
            final(self)@ == old(self)@.remove(slot),
            views(transactions@) == waiting(old(self)@, slot),
            final(self).spec_newest_block_meta() == old(self).spec_newest_block_meta(),
    {
        broadcast use vstd::std_specs::btree::group_btree_axioms;

        proof {
            lemma_slot_keys();
        }
        let ghost before = self.entries@;
        let transactions = match self.entries.remove(&slot) {
            Some(list) => list,
            None => Vec::new(),
        };
        assert(views(transactions@) =~= waiting(as_map(before), slot));
        assert(as_map(self.entries@) =~= as_map(before).remove(slot));
        transactions
    }

    /// Notes a block-meta at `slot` and prunes: the newest block-meta slot
    /// becomes the larger of the one known and `slot`, and every entry more
    /// than [`RETENTION_SLOTS`] behind it leaves the ledger. The entries that
    /// stay are unchanged.
    pub fn observe_block_meta(&mut self, slot: u64)
        ensures
            final(self).spec_newest_block_meta() == if slot > old(self).spec_newest_block_meta() {
                slot
            } else {
                old(self).spec_newest_block_meta()
            },
            forall|s: u64|
                final(self)@.contains_key(s) <==> old(self)@.contains_key(s) && retained(
                    s,
                    final(self).spec_newest_block_meta(),
                ),
            forall|s: u64| final(self)@.contains_key(s) ==> final(self)@[s] == old(self)@[s],
            final(self)@ == pruned(old(self)@, final(self).spec_newest_block_meta()),
    {
        broadcast use vstd::std_specs::btree::group_btree_axioms;

        proof {
            lemma_slot_keys();
        }
        if slot > self.newest_block_meta {
            self.newest_block_meta = slot;
        }
        let newest = self.newest_block_meta;
        let slots = self.slots();
        let ghost before = self.entries@;
        proof {
            assert(as_map(before).dom() =~= before.dom());
            assert forall|s: u64| before.contains_key(s) implies s >= next_slot(slots@, 0) by {
                lemma_examined(slots@, 0, s);
            }
        }
        let mut i: usize = 0;
        while i < slots.len() && newest > RETENTION_SLOTS && slots[i] < newest - RETENTION_SLOTS
            invariant
                i <= slots@.len(),
                self.newest_block_meta == newest,
                forall|s: u64| slots@.contains(s) <==> before.contains_key(s),
                forall|a: int, b: int| 0 <= a < b < slots@.len() ==> slots@[a] < slots@[b],
                forall|k: int| 0 <= k < i ==> !retained(#[trigger] slots@[k], newest),
                forall|s: u64|
                    self.entries@.contains_key(s) <==> before.contains_key(s) && s >= next_slot(
                        slots@,
                        i as int,
                    ),
                forall|s: u64| self.entries@.contains_key(s) ==> self.entries@[s] == before[s],
            decreases slots@.len() - i,
        {
            let ghost earlier = self.entries@;
            self.entries.remove(&slots[i]);
            proof {
                assert forall|s: u64| self.entries@.contains_key(s) <==> before.contains_key(s)
                    && s >= next_slot(slots@, i + 1) by {
                    if before.contains_key(s) {
                        lemma_examined(slots@, i as int, s);
                        lemma_examined(slots@, i + 1, s);
                        if s != slots@[i as int] && !(exists|k: int|
                            0 <= k < i && #[trigger] slots@[k] == s) {
                            if exists|k: int| 0 <= k < i + 1 && #[trigger] slots@[k] == s {
                                let k = choose|k: int| 0 <= k < i + 1 && #[trigger] slots@[k] == s;
                                assert(k < i);
                            }
                        }
                        if s == slots@[i as int] {
                            assert(slots@[i as int] == s);
                        }
                    }
                }
            }
            i += 1;
        }
        proof {
            assert forall|s: u64| self.entries@.contains_key(s) <==> before.contains_key(s)
                && retained(s, newest) by {
                if before.contains_key(s) {
                    lemma_examined(slots@, i as int, s);
                    if exists|k: int| 0 <= k < i && #[trigger] slots@[k] == s {
                        let k = choose|k: int| 0 <= k < i && #[trigger] slots@[k] == s;
                        assert(!retained(slots@[k], newest));
                    }
                }
            }
            assert(as_map(self.entries@) =~= pruned(as_map(before), newest));
        }
    }
}

/// A transaction received no earlier than the last one waiting keeps the
/// receipt times of its slot in order.
pub proof fn lemma_record_keeps_receipt_order(waiting: Seq<PendingModel>, next: PendingModel)
    requires
        receipts_in_order(waiting),
        waiting.len() > 0 ==> waiting.last().received_at_ms <= next.received_at_ms,
    ensures
        receipts_in_order(waiting.push(next)),
{
    let after = waiting.push(next);
    assert forall|i: int, j: int| 0 <= i <= j < after.len() implies (
    #[trigger] after[i]).received_at_ms <= (#[trigger] after[j]).received_at_ms by {
        if j < waiting.len() {
            assert(waiting[i].received_at_ms <= waiting[j].received_at_ms);
        } else if i < waiting.len() {
            assert(waiting[i].received_at_ms <= waiting[waiting.len() - 1].received_at_ms);
        }
    }
}

} // verus!
