//! The simplified entries subscription: a request with plain filter lists
//! and its conversion into the request that goes on the wire.

use vstd::prelude::*;

use crate::config::copy_names;
use crate::config::names;
use crate::request::distinct_labels;
use crate::request::lemma_labels_kept;
use crate::request::CommitmentLevel;

verus! {

pub struct SimpleFilterAccounts {
    pub account: Vec<String>,
    pub owner: Vec<String>,
    pub filters: Vec<String>,
    pub nonempty_txn_signature: Option<bool>,
}

pub struct SimpleFilterTransactions {
    pub account_include: Vec<String>,
    pub account_exclude: Vec<String>,
    pub account_required: Vec<String>,
}

pub struct SimpleFilterSlots {
    pub filter_by_commitment: Option<bool>,
    pub interslot_updates: Option<bool>,
}

/// The simplified request. An absent group counts as an empty one.
pub struct SimpleEntriesRequest {
    pub accounts: Option<Vec<(String, SimpleFilterAccounts)>>,
    pub transactions: Option<Vec<(String, SimpleFilterTransactions)>>,
    pub slots: Option<Vec<(String, SimpleFilterSlots)>>,
    pub commitment: Option<CommitmentLevel>,
}

#[derive(Clone, Debug)]
pub struct EntriesAccounts {
    pub account: Vec<String>,
    pub owner: Vec<String>,
    pub filters: Vec<String>,
    pub nonempty_txn_signature: Option<bool>,
}

#[derive(Clone, Debug)]
pub struct EntriesTransactions {
    pub account_include: Vec<String>,
    pub account_exclude: Vec<String>,
    pub account_required: Vec<String>,
}

#[derive(Clone, Copy, Debug, PartialEq, Eq, Structural)]
pub struct EntriesSlots {
    pub filter_by_commitment: Option<bool>,
    pub interslot_updates: Option<bool>,
}

/// The entries request as it goes on the wire.
#[derive(Clone, Debug)]
pub struct EntriesRequest {
    pub accounts: Vec<(String, EntriesAccounts)>,
    pub transactions: Vec<(String, EntriesTransactions)>,
    pub slots: Vec<(String, EntriesSlots)>,
    /// The commitment level by its number on the wire.
    pub commitment: Option<i32>,
}

/// The number that stands for a commitment level on the wire.
pub open spec fn commitment_number(level: CommitmentLevel) -> i32 {
    match level {
        CommitmentLevel::Processed => 0,
        CommitmentLevel::Confirmed => 1,
        CommitmentLevel::Finalized => 2,
    }
}

/// Computes the number that stands for a commitment level on the wire.
pub fn commitment_to_wire(level: CommitmentLevel) -> (number: i32)
    ensures
        number == commitment_number(level),
{
    match level {
        CommitmentLevel::Processed => 0,
        CommitmentLevel::Confirmed => 1,
        CommitmentLevel::Finalized => 2,
    }
}

/// Whether a wire accounts filter says what the simplified one says: the
/// same accounts and owners, no further conditions, and the signature flag
/// always set, to false where the simplified filter leaves it open.
pub open spec fn accounts_match(filter: SimpleFilterAccounts, wire: EntriesAccounts) -> bool {
    &&& names(wire.account) == names(filter.account)
    &&& names(wire.owner) == names(filter.owner)
    &&& wire.filters@.len() == 0
    &&& wire.nonempty_txn_signature == Some(
        match filter.nonempty_txn_signature {
            Some(flag) => flag,
            None => false,
        },
    )
}

/// Whether a wire transactions filter says what the simplified one says.
pub open spec fn transactions_match(
    filter: SimpleFilterTransactions,
    wire: EntriesTransactions,
) -> bool {
    &&& names(wire.account_include) == names(filter.account_include)
    &&& names(wire.account_exclude) == names(filter.account_exclude)
    &&& names(wire.account_required) == names(filter.account_required)
}

/// Whether a wire slots filter says what the simplified one says.
pub open spec fn slots_match(filter: SimpleFilterSlots, wire: EntriesSlots) -> bool {
    &&& wire.filter_by_commitment == filter.filter_by_commitment
    &&& wire.interslot_updates == filter.interslot_updates
}

impl SimpleFilterAccounts {
    pub fn to_wire(&self) -> (wire: EntriesAccounts)
        ensures
            accounts_match(*self, wire),
    {
        EntriesAccounts {
            account: copy_names(&self.account),
            owner: copy_names(&self.owner),
            filters: Vec::new(),
            nonempty_txn_signature: Some(
                match self.nonempty_txn_signature {
                    Some(flag) => flag,
                    None => false,
                },
            ),
        }
    }
}

impl SimpleFilterTransactions {
    pub fn to_wire(&self) -> (wire: EntriesTransactions)
        ensures
            transactions_match(*self, wire),
    {
        EntriesTransactions {
            account_include: copy_names(&self.account_include),
            account_exclude: copy_names(&self.account_exclude),
            account_required: copy_names(&self.account_required),
        }
    }
}

impl SimpleFilterSlots {
    pub fn to_wire(&self) -> (wire: EntriesSlots)
        ensures
            slots_match(*self, wire),
    {
        EntriesSlots {
            filter_by_commitment: self.filter_by_commitment,
            interslot_updates: self.interslot_updates,
        }
    }
}

/// The filters of an optional group; an absent group has none.
pub open spec fn group_of<T>(group: Option<Vec<(String, T)>>) -> Seq<(String, T)> {
    match group {
        Some(g) => g@,
        None => Seq::empty(),
    }
}

/// Whether the wire request says what the simplified one says: every
/// group holds, under the same labels and in the same order, the wire form
/// of the simplified filters, and the commitment level goes by its number.
pub open spec fn entries_match(request: SimpleEntriesRequest, wire: EntriesRequest) -> bool {
    &&& wire.accounts@.len() == group_of(request.accounts).len()
    &&& forall|i: int|
        0 <= i < wire.accounts@.len() ==> (#[trigger] wire.accounts@[i]).0@ == group_of(
            request.accounts,
        )[i].0@ && accounts_match(group_of(request.accounts)[i].1, wire.accounts@[i].1)
    &&& wire.transactions@.len() == group_of(request.transactions).len()
    &&& forall|i: int|
        0 <= i < wire.transactions@.len() ==> (#[trigger] wire.transactions@[i]).0@ == group_of(
            request.transactions,
        )[i].0@ && transactions_match(
            group_of(request.transactions)[i].1,
            wire.transactions@[i].1,
        )
    &&& wire.slots@.len() == group_of(request.slots).len()
    &&& forall|i: int|
        0 <= i < wire.slots@.len() ==> (#[trigger] wire.slots@[i]).0@ == group_of(
            request.slots,
        )[i].0@ && slots_match(group_of(request.slots)[i].1, wire.slots@[i].1)
    &&& wire.commitment == match request.commitment {
        Some(level) => Some(commitment_number(level)),
        None => None,
    }
}

fn wire_accounts(group: &Option<Vec<(String, SimpleFilterAccounts)>>) -> (wire: Vec<
    (String, EntriesAccounts),
>)
    ensures
        wire@.len() == group_of(*group).len(),
        forall|i: int|
            0 <= i < wire@.len() ==> (#[trigger] wire@[i]).0@ == group_of(*group)[i].0@
                && accounts_match(group_of(*group)[i].1, wire@[i].1),
{
    let mut wire: Vec<(String, EntriesAccounts)> = Vec::new();
    if let Some(list) = group {
        let mut i: usize = 0;
        while i < list.len()
            invariant
                i <= list@.len(),
                wire@.len() == i,
                forall|k: int|
                    0 <= k < i ==> (#[trigger] wire@[k]).0@ == list@[k].0@ && accounts_match(
                        list@[k].1,
                        wire@[k].1,
                    ),
            decreases list@.len() - i,
        {
            wire.push((list[i].0.clone(), list[i].1.to_wire()));
            i += 1;
        }
    }
    wire
}

fn wire_transactions(group: &Option<Vec<(String, SimpleFilterTransactions)>>) -> (wire: Vec<
    (String, EntriesTransactions),
>)
    ensures
        wire@.len() == group_of(*group).len(),
        forall|i: int|
            0 <= i < wire@.len() ==> (#[trigger] wire@[i]).0@ == group_of(*group)[i].0@
                && transactions_match(group_of(*group)[i].1, wire@[i].1),
{
    let mut wire: Vec<(String, EntriesTransactions)> = Vec::new();
    if let Some(list) = group {
        let mut i: usize = 0;
        while i < list.len()
            invariant
                i <= list@.len(),
                wire@.len() == i,
                forall|k: int|
                    0 <= k < i ==> (#[trigger] wire@[k]).0@ == list@[k].0@ && transactions_match(
                        list@[k].1,
                        wire@[k].1,
                    ),
            decreases list@.len() - i,
        {
            wire.push((list[i].0.clone(), list[i].1.to_wire()));
            i += 1;
        }
    }
    wire
}

fn wire_slots(group: &Option<Vec<(String, SimpleFilterSlots)>>) -> (wire: Vec<
    (String, EntriesSlots),
>)
    ensures
        wire@.len() == group_of(*group).len(),
        forall|i: int|
            0 <= i < wire@.len() ==> (#[trigger] wire@[i]).0@ == group_of(*group)[i].0@
                && slots_match(group_of(*group)[i].1, wire@[i].1),
{
    let mut wire: Vec<(String, EntriesSlots)> = Vec::new();
    if let Some(list) = group {
        let mut i: usize = 0;
        while i < list.len()
            invariant
                i <= list@.len(),
                wire@.len() == i,
                forall|k: int|
                    0 <= k < i ==> (#[trigger] wire@[k]).0@ == list@[k].0@ && slots_match(
                        list@[k].1,
                        wire@[k].1,
                    ),
            decreases list@.len() - i,
        {
            wire.push((list[i].0.clone(), list[i].1.to_wire()));
            i += 1;
        }
    }
    wire
}

impl EntriesRequest {
    /// Whether every group of the request names each of its filters by a
    /// label of its own, as a map from label to filter does.
    pub open spec fn labels_distinct(&self) -> bool {
        &&& distinct_labels(self.accounts@)
        &&& distinct_labels(self.transactions@)
        &&& distinct_labels(self.slots@)
    }
}

impl SimpleEntriesRequest {
    /// Whether every group of the request names each of its filters by a
    /// label of its own, as a map from label to filter does.
    pub open spec fn labels_distinct(&self) -> bool {
        &&& distinct_labels(group_of(self.accounts))
        &&& distinct_labels(group_of(self.transactions))
        &&& distinct_labels(group_of(self.slots))
    }

    /// The request as it goes on the wire. Where no group of the request
    /// holds a label twice, none of the wire request does.
    pub fn to_wire(&self) -> (wire: EntriesRequest)
        ensures
            entries_match(*self, wire),
            self.labels_distinct() ==> wire.labels_distinct(),
    {
        let wire = EntriesRequest {
            accounts: wire_accounts(&self.accounts),
            transactions: wire_transactions(&self.transactions),
            slots: wire_slots(&self.slots),
            commitment: match self.commitment {
                Some(level) => Some(commitment_to_wire(level)),
                None => None,
            },
        };
        proof {
            if self.labels_distinct() {
                lemma_labels_kept(group_of(self.accounts), wire.accounts@);
                lemma_labels_kept(group_of(self.transactions), wire.transactions@);
                lemma_labels_kept(group_of(self.slots), wire.slots@);
            }
        }
        wire
    }
}

/// A client of the entries stream at one endpoint.
pub struct ShredsClient {
    endpoint: String,
}

impl ShredsClient {
    /// The endpoint the client connects to.
    pub closed spec fn spec_endpoint(&self) -> String {
        self.endpoint
    }

    pub fn new(endpoint: String) -> (client: Self)
        ensures
            client.spec_endpoint() == endpoint,
    {
        ShredsClient { endpoint }
    }

    pub fn endpoint(&self) -> (endpoint: &String)
        ensures
            *endpoint == self.spec_endpoint(),
    {
        &self.endpoint
    }
}

} // verus!
