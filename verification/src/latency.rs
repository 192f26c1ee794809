//! Adjusted propagation latency and the rolling window of recent samples.

use vstd::prelude::*;

use crate::ledger::views;
use crate::ledger::waiting;
use crate::ledger::PendingModel;
use crate::ledger::PendingTransaction;
use crate::ledger::TransactionsBySlot;
use crate::text::format_rfc3339_millis;
use crate::text::rfc3339_millis_text;

verus! {

/// Calibration offset, in milliseconds, subtracted from every raw latency.
pub const LATENCY_OFFSET_MS: i64 = 500;

/// Time between two correlation cycles, in milliseconds.
pub const MONITOR_INTERVAL_MS: u64 = 420;

/// Number of samples the rolling window keeps.
pub const MAX_LATENCIES: usize = 420;

/// The value of `x` clamped into the range of `i64`.
pub open spec fn clamp_i64(x: int) -> int {
    if x < i64::MIN as int {
        i64::MIN as int
    } else if x > i64::MAX as int {
        i64::MAX as int
    } else {
        x
    }
}

/// Adjusted latency in milliseconds: the receipt time minus the block time
/// (given in whole seconds), clamped to `i64`, minus the calibration offset,
/// clamped again.
pub open spec fn adjusted_latency_ms(received_at_ms: int, block_time_secs: int) -> int {
    clamp_i64(clamp_i64(received_at_ms - block_time_secs * 1000) - LATENCY_OFFSET_MS as int)
}

/// Computes the adjusted latency of one transaction.
pub fn adjusted_latency(received_at_ms: i64, block_time_secs: i64) -> (latency: i64)
    ensures
        latency as int == adjusted_latency_ms(received_at_ms as int, block_time_secs as int),
{
    let block_ms: i128 = (block_time_secs as i128) * 1000;
    let raw: i128 = (received_at_ms as i128) - block_ms;
    let raw_clamped: i64 = if raw < i64::MIN as i128 {
        i64::MIN
    } else if raw > i64::MAX as i128 {
        i64::MAX
    } else {
        raw as i64
    };
    if raw_clamped < i64::MIN + LATENCY_OFFSET_MS {
        i64::MIN
    } else {
        raw_clamped - LATENCY_OFFSET_MS
    }
}

/// The part of a history of samples that the rolling window keeps: the
/// latest [`MAX_LATENCIES`] of them, in the order given.
pub open spec fn latest(history: Seq<i64>) -> Seq<i64> {
    if history.len() > MAX_LATENCIES {
        history.subrange(history.len() - MAX_LATENCIES, history.len() as int)
    } else {
        history
    }
}

/// The sum of a run of samples.
pub open spec fn total(samples: Seq<i64>) -> int
    decreases samples.len(),
{
    if samples.len() == 0 {
        0
    } else {
        total(samples.drop_last()) + samples.last()
    }
}

/// The rolling window of latency samples, oldest first.
pub struct LatencyWindow {
    samples: Vec<i64>,
}

impl View for LatencyWindow {
    type V = Seq<i64>;

    closed spec fn view(&self) -> Seq<i64> {
        self.samples@
    }
}

impl LatencyWindow {
    /// The window never holds more than [`MAX_LATENCIES`] samples.
    pub closed spec fn wf(&self) -> bool {
        self.samples@.len() <= MAX_LATENCIES
    }

    pub fn new() -> (window: Self)
        ensures
            window.wf(),
            window@ == Seq::<i64>::empty(),
    {
        LatencyWindow { samples: Vec::new() }
    }

    /// Number of samples in the window.
    pub fn len(&self) -> (len: usize)
        requires
            self.wf(),
        ensures
            len == self@.len(),
            len <= MAX_LATENCIES,
    {
        self.samples.len()
    }

    /// The sample at `index`, counted from the oldest.
    pub fn get(&self, index: usize) -> (sample: Option<i64>)
        ensures
            index < self@.len() ==> sample == Some(self@[index as int]),
            index >= self@.len() ==> sample is None,
    {
        if index < self.samples.len() {
            Some(self.samples[index])
        } else {
            None
        }
    }

    /// Appends a sample; a full window first drops its oldest sample.
    pub fn push(&mut self, sample: i64)
        requires
            old(self).wf(),
        ensures
            final(self).wf(),
            final(self)@ == latest(old(self)@.push(sample)),
    {
        self.samples.push(sample);
        if self.samples.len() > MAX_LATENCIES {
            self.samples.remove(0);
        }
    }

    /// The sum of the samples in the window.
    pub fn sum(&self) -> (sum: i128)
        requires
            self.wf(),
        ensures
            sum as int == total(self@),
    {
        let mut sum: i128 = 0;
        let mut i: usize = 0;
        while i < self.samples.len()
            invariant
                i <= self.samples@.len(),
                self.samples@.len() <= MAX_LATENCIES,
                sum as int == total(self.samples@.subrange(0, i as int)),
                -(i as int) * 0x8000_0000_0000_0000 <= sum as int <= (i as int)
                    * 0x8000_0000_0000_0000,
            decreases self.samples@.len() - i,
        {
            proof {
                assert(self.samples@.subrange(0, i + 1).drop_last() =~= self.samples@.subrange(
                    0,
                    i as int,
                ));
            }
            sum = sum + self.samples[i] as i128;
            i += 1;
        }
        proof {
            assert(self.samples@.subrange(0, i as int) =~= self.samples@);
        }
        sum
    }
}

/// The window always holds the latest samples of the whole history: what
/// it keeps after one more sample is what it would keep of the history
/// with that sample appended.
pub proof fn lemma_window_follows_history(history: Seq<i64>, sample: i64)
    ensures
        latest(latest(history).push(sample)) == latest(history.push(sample)),
        latest(history).len() <= MAX_LATENCIES,
        history.len() <= MAX_LATENCIES ==> latest(history) == history,
{
    assert(latest(latest(history).push(sample)) =~= latest(history.push(sample)));
}

/// Appending samples one after another leaves the window with the latest
/// samples of everything it was given, in the order given.
pub proof fn lemma_window_after_many(window: Seq<i64>, earlier: Seq<i64>, sample: i64)
    ensures
        latest(latest(window + earlier).push(sample)) == latest(window + earlier.push(sample)),
{
    lemma_window_follows_history(window + earlier, sample);
    assert((window + earlier).push(sample) =~= window + earlier.push(sample));
}

/// What one observability record says.
pub struct RecordModel {
    pub slot: u64,
    pub signature: Seq<char>,
    pub block_time_secs: i64,
    pub received_at_ms: i64,
    pub block_time: Option<Seq<char>>,
    pub received_at: Option<Seq<char>>,
    pub latency_ms: i64,
    pub samples: nat,
    pub samples_total: int,
}

/// The observability record of one correlated transaction. The rolling
/// average is `samples_total / samples`.
pub struct LatencyRecord {
    pub slot: u64,
    pub signature: String,
    pub block_time_secs: i64,
    pub received_at_ms: i64,
    /// RFC 3339 text of the block time, where it can be represented.
    pub block_time: Option<String>,
    /// RFC 3339 text of the receipt time, where it can be represented.
    pub received_at: Option<String>,
    pub latency_ms: i64,
    /// Number of samples in the rolling window, this one included.
    pub samples: usize,
    /// Sum of the samples in the rolling window, this one included.
    pub samples_total: i128,
}

/// The characters of an optional string.
pub open spec fn text_view(text: Option<String>) -> Option<Seq<char>> {
    match text {
        Some(t) => Some(t@),
        None => None,
    }
}

impl View for LatencyRecord {
    type V = RecordModel;

    open spec fn view(&self) -> RecordModel {
        RecordModel {
            slot: self.slot,
            signature: self.signature@,
            block_time_secs: self.block_time_secs,
            received_at_ms: self.received_at_ms,
            block_time: text_view(self.block_time),
            received_at: text_view(self.received_at),
            latency_ms: self.latency_ms,
            samples: self.samples as nat,
            samples_total: self.samples_total as int,
        }
    }
}

/// The views of a run of records, in the same order.
pub open spec fn record_views(records: Seq<LatencyRecord>) -> Seq<RecordModel> {
    records.map_values(|r: LatencyRecord| r@)
}

/// RFC 3339 text of a block time given in whole seconds; none where the
/// time in milliseconds leaves `i64` or cannot be represented as a date.
pub open spec fn block_time_text(block_time_secs: i64) -> Option<Seq<char>> {
    if i64::MIN <= block_time_secs * 1000 <= i64::MAX {
        rfc3339_millis_text(block_time_secs * 1000)
    } else {
        None
    }
}

/// The latency sample of one pending transaction.
pub open spec fn sample_of(transaction: PendingModel, block_time_secs: i64) -> i64 {
    adjusted_latency_ms(transaction.received_at_ms as int, block_time_secs as int) as i64
}

/// The latency samples of a run of pending transactions, in order.
pub open spec fn samples_of(transactions: Seq<PendingModel>, block_time_secs: i64) -> Seq<i64> {
    transactions.map_values(|t: PendingModel| sample_of(t, block_time_secs))
}

/// The record of the transaction at `index` among those of one slot, given
/// the window as it was before the slot's first transaction.
pub open spec fn record_of(
    slot: u64,
    block_time_secs: i64,
    transactions: Seq<PendingModel>,
    window: Seq<i64>,
    index: int,
) -> RecordModel {
    let seen = latest(window + samples_of(transactions.subrange(0, index + 1), block_time_secs));
    RecordModel {
        slot,
        signature: transactions[index].signature,
        block_time_secs,
        received_at_ms: transactions[index].received_at_ms,
        block_time: block_time_text(block_time_secs),
        received_at: rfc3339_millis_text(transactions[index].received_at_ms as int),
        latency_ms: sample_of(transactions[index], block_time_secs),
        samples: seen.len(),
        samples_total: total(seen),
    }
}

/// The records of all transactions of one slot, in order.
pub open spec fn records_of(
    slot: u64,
    block_time_secs: i64,
    transactions: Seq<PendingModel>,
    window: Seq<i64>,
) -> Seq<RecordModel> {
    Seq::new(
        transactions.len(),
        |i: int| record_of(slot, block_time_secs, transactions, window, i),
    )
}

/// What a correlation cycle works on and produces.
pub struct CycleModel {
    pub ledger: Map<u64, Seq<PendingModel>>,
    pub window: Seq<i64>,
    pub records: Seq<RecordModel>,
}

/// One slot of a cycle. A slot whose block time is unknown changes nothing.
/// A slot whose block time resolved leaves the ledger; each of its
/// transactions gives a sample to the window and a record, in order.
pub open spec fn resolve_slot(cycle: CycleModel, slot: u64, block_time: Option<i64>) -> CycleModel {
    match block_time {
        None => cycle,
        Some(secs) => CycleModel {
            ledger: cycle.ledger.remove(slot),
            window: latest(cycle.window + samples_of(waiting(cycle.ledger, slot), secs)),
            records: cycle.records + records_of(
                slot,
                secs,
                waiting(cycle.ledger, slot),
                cycle.window,
            ),
        },
    }
}

/// A whole cycle: the slots of the batch, first to last.
pub open spec fn resolve_all(cycle: CycleModel, resolved: Seq<(u64, Option<i64>)>) -> CycleModel
    decreases resolved.len(),
{
    if resolved.len() == 0 {
        cycle
    } else {
        resolve_slot(
            resolve_all(cycle, resolved.drop_last()),
            resolved.last().0,
            resolved.last().1,
        )
    }
}

/// The latency monitor: the rolling window and the correlation of pending
/// transactions with block times.
pub struct LatencyMonitor {
    window: LatencyWindow,
}

impl View for LatencyMonitor {
    type V = Seq<i64>;

    closed spec fn view(&self) -> Seq<i64> {
        self.window@
    }
}

impl LatencyMonitor {
    pub closed spec fn wf(&self) -> bool {
        self.window.wf()
    }

    /// A monitor with an empty window.
    pub fn new() -> (monitor: Self)
        ensures
            monitor.wf(),
            monitor@ == Seq::<i64>::empty(),
    {
        LatencyMonitor { window: LatencyWindow::new() }
    }

    /// Number of samples in the rolling window.
    pub fn samples(&self) -> (len: usize)
        requires
            self.wf(),
        ensures
            len == self@.len(),
            len <= MAX_LATENCIES,
    {
        self.window.len()
    }

    /// Correlates the transactions of one slot with the slot's block time:
    /// each gives one sample to the rolling window and one record, in the
    /// order in which the transactions were received.
    pub fn correlate(
        &mut self,
        slot: u64,
        block_time_secs: i64,
        transactions: &Vec<PendingTransaction>,
    ) -> (records: Vec<LatencyRecord>)
        requires
            old(self).wf(),
        ensures
            final(self).wf(),
            final(self)@ == latest(old(self)@ + samples_of(views(transactions@), block_time_secs)),
            record_views(records@) == records_of(
                slot,
                block_time_secs,
                views(transactions@),
                old(self)@,
            ),
    {
        let ghost window = self@;
        let ghost pending = views(transactions@);
        let block_time_ms = block_time_secs.checked_mul(1000);
        let mut records: Vec<LatencyRecord> = Vec::new();
        let mut i: usize = 0;
        proof {
            assert(window + samples_of(pending.subrange(0, 0), block_time_secs) =~= window);
            assert(record_views(records@) =~= Seq::<RecordModel>::empty());
        }
        while i < transactions.len()
            invariant
                i <= transactions@.len(),
                self.wf(),
                pending == views(transactions@),
                block_time_ms == if i64::MIN <= block_time_secs * 1000 <= i64::MAX {
                    Some((block_time_secs * 1000) as i64)
                } else {
                    None::<i64>
                },
                self@ == latest(
                    window + samples_of(pending.subrange(0, i as int), block_time_secs),
                ),
                records@.len() == i,
                forall|k: int|
                    0 <= k < i ==> (#[trigger] records@[k])@ == record_of(
                        slot,
                        block_time_secs,
                        pending,
                        window,
                        k,
                    ),
            decreases transactions@.len() - i,
        {
            let transaction = &transactions[i];
            let latency = adjusted_latency(transaction.received_at_ms, block_time_secs);
            proof {
                let earlier = samples_of(pending.subrange(0, i as int), block_time_secs);
                assert(pending[i as int] == transaction@);
                assert(samples_of(pending.subrange(0, i + 1), block_time_secs) =~= earlier.push(
                    latency,
                ));
                lemma_window_after_many(window, earlier, latency);
            }
            self.window.push(latency);
            let block_time = match block_time_ms {
                Some(ms) => format_rfc3339_millis(ms),
                None => None,
            };
            let record = LatencyRecord {
                slot,
                signature: transaction.signature.clone(),
                block_time_secs,
                received_at_ms: transaction.received_at_ms,
                block_time,
                received_at: format_rfc3339_millis(transaction.received_at_ms),
                latency_ms: latency,
                samples: self.window.len(),
                samples_total: self.window.sum(),
            };
            records.push(record);
            i += 1;
        }
        proof {
            assert(pending.subrange(0, i as int) =~= pending);
            assert(record_views(records@) =~= records_of(slot, block_time_secs, pending, window));
        }
        records
    }

    /// One correlation cycle over a batch of slots, each with the block
    /// time that was found for it or none. For every slot with a block
    /// time, first to last, the slot's entry leaves the ledger and its
    /// transactions are correlated; slots without one stay in the ledger.
    pub fn process_resolved(
        &mut self,
        ledger: &mut TransactionsBySlot,
        resolved: &Vec<(u64, Option<i64>)>,
    ) -> (records: Vec<LatencyRecord>)
        requires
            old(self).wf(),
        ensures
            final(self).wf(),
            final(ledger).spec_newest_block_meta() == old(ledger).spec_newest_block_meta(),
            (CycleModel {
                ledger: final(ledger)@,
                window: final(self)@,
                records: record_views(records@),
            }) == resolve_all(
                (CycleModel {
                    ledger: old(ledger)@,
                    window: old(self)@,
                    records: Seq::<RecordModel>::empty(),
                }),
                resolved@,
            ),
    {
        let ghost start = CycleModel {
            ledger: ledger@,
            window: self@,
            records: Seq::<RecordModel>::empty(),
        };
        let ghost newest = ledger.spec_newest_block_meta();
        let mut records: Vec<LatencyRecord> = Vec::new();
        let mut i: usize = 0;
        proof {
            assert(record_views(records@) =~= Seq::<RecordModel>::empty());
            assert(resolved@.subrange(0, 0) =~= Seq::<(u64, Option<i64>)>::empty());
        }
        while i < resolved.len()
            invariant
                i <= resolved@.len(),
                self.wf(),
                ledger.spec_newest_block_meta() == newest,
                (CycleModel {
                    ledger: ledger@,
                    window: self@,
                    records: record_views(records@),
                }) == resolve_all(start, resolved@.subrange(0, i as int)),
            decreases resolved@.len() - i,
        {
            let slot = resolved[i].0;
            let block_time = resolved[i].1;
            proof {
                assert(resolved@.subrange(0, i + 1).drop_last() =~= resolved@.subrange(
                    0,
                    i as int,
                ));
                assert(resolved@.subrange(0, i + 1).last() == resolved@[i as int]);
            }
            if let Some(secs) = block_time {
                let ghost window = self@;
                let ghost earlier = record_views(records@);
                let transactions = ledger.remove(slot);
                let mut found = self.correlate(slot, secs, &transactions);
                let ghost added = record_views(found@);
                records.append(&mut found);
                proof {
                    assert(added == records_of(slot, secs, views(transactions@), window));
                    assert(record_views(records@) =~= earlier + added);
                }
            }
            i += 1;
        }
        proof {
            assert(resolved@.subrange(0, i as int) =~= resolved@);
        }
        records
    }
}

} // verus!
