//! The update consumer's bookkeeping: what each update does to the
//! transactions-by-slot ledger.

use vstd::prelude::*;

use crate::ledger::pruned;
use crate::ledger::waiting;
use crate::ledger::PendingModel;
use crate::ledger::PendingTransaction;
use crate::ledger::TransactionsBySlot;
use crate::text::base58_text;
use crate::text::encode_base58;
use crate::update::Update;

verus! {

/// What the ledger says: the transactions waiting at each slot and the
/// newest block-meta slot observed.
pub struct LedgerModel {
    pub entries: Map<u64, Seq<PendingModel>>,
    pub newest_block_meta: u64,
}

/// What a ledger says.
pub open spec fn model_of(ledger: &TransactionsBySlot) -> LedgerModel {
    LedgerModel { entries: ledger@, newest_block_meta: ledger.spec_newest_block_meta() }
}

/// The ledger after one update received at `received_at_ms`.
///
/// A transaction with a signature joins the transactions waiting at its
/// slot, under the Base58 text of that signature. A block-meta raises the
/// newest block-meta slot and prunes the entries that fell too far behind.
/// Every other update leaves the ledger as it is.
pub open spec fn after_update(
    ledger: LedgerModel,
    update: Update,
    received_at_ms: i64,
) -> LedgerModel {
    match update {
        Update::Transaction { slot, signature: Some(bytes) } => LedgerModel {
            entries: ledger.entries.insert(
                slot,
                waiting(ledger.entries, slot).push(
                    PendingModel { signature: base58_text(bytes@), received_at_ms },
                ),
            ),
            newest_block_meta: ledger.newest_block_meta,
        },
        Update::BlockMeta { slot } => {
            let newest = if slot > ledger.newest_block_meta {
                slot
            } else {
                ledger.newest_block_meta
            };
            LedgerModel { entries: pruned(ledger.entries, newest), newest_block_meta: newest }
        },
        _ => ledger,
    }
}

/// Enters an update into the ledger. `received_at_ms` is the time the
/// update was received, in milliseconds since the epoch.
pub fn prepare_log_message(
    update: &Update,
    received_at_ms: i64,
    transactions_by_slot: &mut TransactionsBySlot,
)
    ensures
        model_of(final(transactions_by_slot)) == after_update(
            model_of(old(transactions_by_slot)),
            *update,
            received_at_ms,
        ),
{
    match update {
        Update::Transaction { slot, signature: Some(bytes) } => {
            let signature = encode_base58(bytes);
            transactions_by_slot.record(*slot, PendingTransaction { signature, received_at_ms });
        },
        Update::BlockMeta { slot } => {
            transactions_by_slot.observe_block_meta(*slot);
        },
        _ => {},
    }
}

/// The hook through which every update passes on its way out of the update
/// channel.
pub fn handle_update(
    update: &Update,
    received_at_ms: i64,
    transactions_by_slot: &mut TransactionsBySlot,
)
    ensures
        model_of(final(transactions_by_slot)) == after_update(
            model_of(old(transactions_by_slot)),
            *update,
            received_at_ms,
        ),
{
    prepare_log_message(update, received_at_ms, transactions_by_slot);
}

} // verus!
