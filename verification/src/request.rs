//! The subscribe request as it goes on the wire: named groups of filters, a
//! commitment level, and the optional resume point and keepalive answer.

use vstd::prelude::*;

verus! {

/// Finality tier asked for when subscribing.
#[derive(Clone, Copy, Debug, PartialEq, Eq, Structural)]
pub enum CommitmentLevel {
    Processed,
    Confirmed,
    Finalized,
}

/// Identifier sent with the answer to a ping.
pub const PING_REPLY_ID: i32 = 1;

/// A comparison of an account's balance with a number of lamports.
#[derive(Clone, Copy, Debug, PartialEq, Eq, Structural)]
pub enum LamportsTest {
    Eq(u64),
    Ne(u64),
    Lt(u64),
    Gt(u64),
}

/// One condition on the accounts a subscription selects.
#[derive(Clone, Debug)]
pub enum AccountsFilter {
    /// The account's data holds `data` (given as Base58 text) at `offset`.
    Memcmp { offset: u64, data: String },
    Datasize(u64),
    TokenAccountState(bool),
    Lamports(LamportsTest),
}

/// What an accounts filter says.
pub enum FilterModel {
    Memcmp { offset: u64, data: Seq<char> },
    Datasize(u64),
    TokenAccountState(bool),
    Lamports(LamportsTest),
}

impl View for AccountsFilter {
    type V = FilterModel;

    open spec fn view(&self) -> FilterModel {
        match *self {
            AccountsFilter::Memcmp { offset, data } => FilterModel::Memcmp { offset, data: data@ },
            AccountsFilter::Datasize(size) => FilterModel::Datasize(size),
            AccountsFilter::TokenAccountState(state) => FilterModel::TokenAccountState(state),
            AccountsFilter::Lamports(test) => FilterModel::Lamports(test),
        }
    }
}

#[derive(Clone, Debug)]
pub struct SubscribeAccounts {
    pub account: Vec<String>,
    pub owner: Vec<String>,
    pub filters: Vec<AccountsFilter>,
    pub nonempty_txn_signature: Option<bool>,
}

#[derive(Clone, Copy, Debug, PartialEq, Eq, Structural)]
pub struct SubscribeSlots {
    pub filter_by_commitment: Option<bool>,
    pub interslot_updates: Option<bool>,
}

#[derive(Clone, Debug)]
pub struct SubscribeTransactions {
    pub vote: Option<bool>,
    pub failed: Option<bool>,
    pub signature: Option<String>,
    pub account_include: Vec<String>,
    pub account_exclude: Vec<String>,
    pub account_required: Vec<String>,
}

#[derive(Clone, Debug)]
pub struct SubscribeBlocks {
    pub account_include: Vec<String>,
    pub include_transactions: Option<bool>,
    pub include_accounts: Option<bool>,
    pub include_entries: Option<bool>,
}

#[derive(Clone, Copy, Debug, PartialEq, Eq, Structural)]
pub struct SubscribeBlocksMeta {}

#[derive(Clone, Copy, Debug, PartialEq, Eq, Structural)]
pub struct SubscribeEntry {}

/// The subscribe request. Every filter group pairs a label with a filter.
#[derive(Clone, Debug)]
pub struct SubscribeRequest {
    pub accounts: Vec<(String, SubscribeAccounts)>,
    pub slots: Vec<(String, SubscribeSlots)>,
    pub transactions: Vec<(String, SubscribeTransactions)>,
    pub transactions_status: Vec<(String, SubscribeTransactions)>,
    pub blocks: Vec<(String, SubscribeBlocks)>,
    pub blocks_meta: Vec<(String, SubscribeBlocksMeta)>,
    pub entry: Vec<(String, SubscribeEntry)>,
    pub commitment: Option<CommitmentLevel>,
    /// Ranges of account data to deliver, as offset and length.
    pub accounts_data_slice: Vec<(u64, u64)>,
    /// Identifier of a keepalive answer, where the request is one.
    pub ping: Option<i32>,
    /// The slot from which the server is asked to replay.
    pub from_slot: Option<u64>,
}

/// No label occurs twice in a group of labelled filters.
pub open spec fn distinct_labels<T>(group: Seq<(String, T)>) -> bool {
    forall|i: int, j: int|
        0 <= i < j < group.len() ==> (#[trigger] group[i]).0@ != (#[trigger] group[j]).0@
}

/// A group that repeats the labels of another, place by place, holds no
/// label twice where the other holds none twice.
pub proof fn lemma_labels_kept<A, B>(from: Seq<(String, A)>, to: Seq<(String, B)>)
    requires
        to.len() == from.len(),
        forall|i: int| 0 <= i < from.len() ==> (#[trigger] to[i]).0@ == from[i].0@,
        distinct_labels(from),
    ensures
        distinct_labels(to),
{
    assert forall|i: int, j: int| 0 <= i < j < to.len() implies (#[trigger] to[i]).0@ != (
    #[trigger] to[j]).0@ by {
        assert(from[i].0@ != from[j].0@);
    }
}

impl SubscribeRequest {
    /// Whether every group of the request names each of its filters by a
    /// label of its own, as a map from label to filter does.
    pub open spec fn labels_distinct(&self) -> bool {
        &&& distinct_labels(self.accounts@)
        &&& distinct_labels(self.slots@)
        &&& distinct_labels(self.transactions@)
        &&& distinct_labels(self.transactions_status@)
        &&& distinct_labels(self.blocks@)
        &&& distinct_labels(self.blocks_meta@)
        &&& distinct_labels(self.entry@)
    }

    /// A request with no filter and nothing set.
    pub fn empty() -> (request: Self)
        ensures
            request.accounts@.len() == 0,
            request.slots@.len() == 0,
            request.transactions@.len() == 0,
            request.transactions_status@.len() == 0,
            request.blocks@.len() == 0,
            request.blocks_meta@.len() == 0,
            request.entry@.len() == 0,
            request.commitment is None,
            request.accounts_data_slice@.len() == 0,
            request.ping is None,
            request.from_slot is None,
    {
        SubscribeRequest {
            accounts: Vec::new(),
            slots: Vec::new(),
            transactions: Vec::new(),
            transactions_status: Vec::new(),
            blocks: Vec::new(),
            blocks_meta: Vec::new(),
            entry: Vec::new(),
            commitment: None,
            accounts_data_slice: Vec::new(),
            ping: None,
            from_slot: None,
        }
    }

    /// The request that answers a ping: nothing set but the keepalive
    /// identifier.
    pub fn ping_reply() -> (request: Self)
        ensures
            request.accounts@.len() == 0,
            request.slots@.len() == 0,
            request.transactions@.len() == 0,
            request.transactions_status@.len() == 0,
            request.blocks@.len() == 0,
            request.blocks_meta@.len() == 0,
            request.entry@.len() == 0,
            request.commitment is None,
            request.accounts_data_slice@.len() == 0,
            request.ping == Some(PING_REPLY_ID),
            request.from_slot is None,
    {
        let mut request = SubscribeRequest::empty();
        request.ping = Some(PING_REPLY_ID);
        request
    }

    /// The same request with its resume point replaced.
    pub fn with_from_slot(self, from_slot: Option<u64>) -> (request: Self)
        ensures
            request == (SubscribeRequest { from_slot, ..self }),
    {
        let mut request = self;
        request.from_slot = from_slot;
        request
    }
}

} // verus!
