//! The declarative filter configuration and its conversion into the
//! subscribe request.

use vstd::prelude::*;

use crate::request::distinct_labels;
use crate::request::lemma_labels_kept;
use crate::request::AccountsFilter;
use crate::request::CommitmentLevel;
use crate::request::FilterModel;
use crate::request::LamportsTest;
use crate::request::SubscribeAccounts;
use crate::request::SubscribeBlocks;
use crate::request::SubscribeBlocksMeta;
use crate::request::SubscribeEntry;
use crate::request::SubscribeRequest;
use crate::request::SubscribeSlots;
use crate::request::SubscribeTransactions;

verus! {

/// The filter configuration. Each group lists labelled filters; a label
/// names its filter in the request.
pub struct Config {
    pub commitment: Option<String>,
    pub transactions: Vec<(String, TransactionFilter)>,
    pub accounts: Vec<(String, AccountFilter)>,
    pub slots: Vec<(String, SlotFilter)>,
    pub blocks: Vec<(String, BlockFilter)>,
    pub blocks_meta: Vec<(String, BlockMetaFilter)>,
    pub entry: Vec<(String, EntryFilter)>,
}

impl Config {
    /// Whether every group of the configuration names each of its filters
    /// by a label of its own, as a map from label to filter does.
    pub open spec fn labels_distinct(&self) -> bool {
        &&& distinct_labels(self.transactions@)
        &&& distinct_labels(self.accounts@)
        &&& distinct_labels(self.slots@)
        &&& distinct_labels(self.blocks@)
        &&& distinct_labels(self.blocks_meta@)
        &&& distinct_labels(self.entry@)
    }
}

/// Which transactions a subscription selects.
pub struct TransactionFilter {
    pub account_include: Option<Vec<String>>,
    pub account_exclude: Option<Vec<String>>,
    pub account_required: Option<Vec<String>>,
    pub vote: Option<bool>,
    pub failed: Option<bool>,
    pub signature: Option<String>,
}

/// Which accounts a subscription selects.
pub struct AccountFilter {
    pub account: Option<Vec<String>>,
    pub owner: Option<Vec<String>>,
    pub filters: Option<Vec<AccountSubFilter>>,
}

/// One condition of an account filter. The first of the four fields that
/// is set decides what the condition is.
pub struct AccountSubFilter {
    pub memcmp: Option<Memcmp>,
    pub datasize: Option<u64>,
    pub token_account_state: Option<bool>,
    pub lamports: Option<Lamports>,
}

/// A comparison of account data with given bytes.
pub struct Memcmp {
    pub offset: usize,
    pub data: String,
}

/// A comparison of an account's balance.
pub struct Lamports {
    /// One of `eq`, `ne`, `lt`, `gt`.
    pub cmp: String,
    pub value: u64,
}

/// Which slot updates a subscription selects.
pub struct SlotFilter {
    pub filter_by_commitment: Option<bool>,
    pub interslot_updates: Option<bool>,
}

/// Which blocks a subscription selects, and what comes with them.
pub struct BlockFilter {
    pub account_include: Option<Vec<String>>,
    pub include_transactions: Option<bool>,
    pub include_accounts: Option<bool>,
    pub include_entries: Option<bool>,
}

/// Selects block metadata; it has no conditions.
pub struct BlockMetaFilter {}

/// Selects entries; it has no conditions.
pub struct EntryFilter {}

/// The characters of each of a list of strings.
pub open spec fn names(list: Vec<String>) -> Seq<Seq<char>> {
    list@.map_values(|s: String| s@)
}

/// The characters of each string of an optional list; an absent list
/// counts as empty.
pub open spec fn names_or_none(list: Option<Vec<String>>) -> Seq<Seq<char>> {
    match list {
        Some(l) => names(l),
        None => Seq::empty(),
    }
}

/// The characters of an optional string.
pub open spec fn text_of(text: Option<String>) -> Option<Seq<char>> {
    match text {
        Some(t) => Some(t@),
        None => None,
    }
}

/// The commitment level that a configured name stands for. Names are
/// accepted capitalised or in lower case; any other text stands for
/// `Processed`.
pub open spec fn commitment_of(name: Seq<char>) -> CommitmentLevel {
    if name == "Confirmed"@ || name == "confirmed"@ {
        CommitmentLevel::Confirmed
    } else if name == "Finalized"@ || name == "finalized"@ {
        CommitmentLevel::Finalized
    } else {
        CommitmentLevel::Processed
    }
}

/// Whether `text` reads exactly as `word`.
pub(crate) fn reads_as(text: &str, word: &str) -> (same: bool)
    ensures
        same == (text@ == word@),
{
    let left = text.to_owned();
    let right = word.to_owned();
    left == right
}

/// Reads a configured commitment name.
pub fn commitment_from_str(name: &str) -> (level: CommitmentLevel)
    ensures
        level == commitment_of(name@),
{
    if reads_as(name, "Confirmed") || reads_as(name, "confirmed") {
        CommitmentLevel::Confirmed
    } else if reads_as(name, "Finalized") || reads_as(name, "finalized") {
        CommitmentLevel::Finalized
    } else {
        CommitmentLevel::Processed
    }
}

/// A copy of a list of strings.
pub(crate) fn copy_names(list: &Vec<String>) -> (copy: Vec<String>)
    ensures
        names(copy) == names(*list),
{
    let mut copy: Vec<String> = Vec::new();
    let mut i: usize = 0;
    while i < list.len()
        invariant
            i <= list@.len(),
            copy@.len() == i,
            forall|k: int| 0 <= k < i ==> (#[trigger] copy@[k])@ == list@[k]@,
        decreases list@.len() - i,
    {
        copy.push(list[i].clone());
        i += 1;
    }
    assert(names(copy) =~= names(*list));
    copy
}

/// A copy of an optional list of strings, empty where the list is absent.
fn copy_names_or_none(list: &Option<Vec<String>>) -> (copy: Vec<String>)
    ensures
        names(copy) == names_or_none(*list),
{
    match list {
        Some(l) => copy_names(l),
        None => {
            let copy: Vec<String> = Vec::new();
            assert(names(copy) =~= Seq::<Seq<char>>::empty());
            copy
        },
    }
}

/// A copy of an optional string.
fn copy_text(text: &Option<String>) -> (copy: Option<String>)
    ensures
        text_of(copy) == text_of(*text),
{
    match text {
        Some(t) => Some(t.clone()),
        None => None,
    }
}

/// Whether a wire transactions filter says what the configured one says.
pub open spec fn transactions_match(filter: TransactionFilter, wire: SubscribeTransactions) -> bool {
    &&& names(wire.account_include) == names_or_none(filter.account_include)
    &&& names(wire.account_exclude) == names_or_none(filter.account_exclude)
    &&& names(wire.account_required) == names_or_none(filter.account_required)
    &&& wire.vote == filter.vote
    &&& wire.failed == filter.failed
    &&& text_of(wire.signature) == text_of(filter.signature)
}

/// Whether a wire slots filter says what the configured one says.
pub open spec fn slots_match(filter: SlotFilter, wire: SubscribeSlots) -> bool {
    &&& wire.filter_by_commitment == filter.filter_by_commitment
    &&& wire.interslot_updates == filter.interslot_updates
}

/// Whether a wire blocks filter says what the configured one says.
pub open spec fn blocks_match(filter: BlockFilter, wire: SubscribeBlocks) -> bool {
    &&& names(wire.account_include) == names_or_none(filter.account_include)
    &&& wire.include_transactions == filter.include_transactions
    &&& wire.include_accounts == filter.include_accounts
    &&& wire.include_entries == filter.include_entries
}

/// The comparison that a configured lamports condition stands for; none
/// where its operator is not one of `eq`, `ne`, `lt`, `gt`.
pub open spec fn lamports_test(operator: Seq<char>, value: u64) -> Option<LamportsTest> {
    if operator == "eq"@ {
        Some(LamportsTest::Eq(value))
    } else if operator == "ne"@ {
        Some(LamportsTest::Ne(value))
    } else if operator == "lt"@ {
        Some(LamportsTest::Lt(value))
    } else if operator == "gt"@ {
        Some(LamportsTest::Gt(value))
    } else {
        None
    }
}

/// The wire condition that a configured one stands for: the first of
/// memcmp, datasize, token-account state and lamports that is set decides;
/// a condition with nothing set, or with an unknown lamports operator,
/// stands for none.
pub open spec fn wire_filter(sub: AccountSubFilter) -> Option<FilterModel> {
    if let Some(m) = sub.memcmp {
        Some(FilterModel::Memcmp { offset: widen(m.offset), data: m.data@ })
    } else if let Some(size) = sub.datasize {
        Some(FilterModel::Datasize(size))
    } else if let Some(state) = sub.token_account_state {
        Some(FilterModel::TokenAccountState(state))
    } else if let Some(l) = sub.lamports {
        match lamports_test(l.cmp@, l.value) {
            Some(test) => Some(FilterModel::Lamports(test)),
            None => None,
        }
    } else {
        None
    }
}

/// The wire conditions that a list of configured ones stands for, in
/// order, those that stand for none left out.
pub open spec fn wire_filters(subs: Seq<AccountSubFilter>) -> Seq<FilterModel>
    decreases subs.len(),
{
    if subs.len() == 0 {
        Seq::empty()
    } else {
        match wire_filter(subs.last()) {
            Some(f) => wire_filters(subs.drop_last()).push(f),
            None => wire_filters(subs.drop_last()),
        }
    }
}

/// What each of a list of wire conditions says.
pub open spec fn filter_views(filters: Seq<AccountsFilter>) -> Seq<FilterModel> {
    filters.map_values(|f: AccountsFilter| f@)
}

/// Whether a wire accounts filter says what the configured one says.
pub open spec fn accounts_match(filter: AccountFilter, wire: SubscribeAccounts) -> bool {
    &&& names(wire.account) == names_or_none(filter.account)
    &&& names(wire.owner) == names_or_none(filter.owner)
    &&& filter_views(wire.filters@) == match filter.filters {
        Some(subs) => wire_filters(subs@),
        None => Seq::<FilterModel>::empty(),
    }
    &&& wire.nonempty_txn_signature is None
}

impl TransactionFilter {
    /// The wire form of the filter: absent lists become empty lists.
    pub fn to_wire(&self) -> (wire: SubscribeTransactions)
        ensures
            transactions_match(*self, wire),
    {
        SubscribeTransactions {
            account_include: copy_names_or_none(&self.account_include),
            account_exclude: copy_names_or_none(&self.account_exclude),
            account_required: copy_names_or_none(&self.account_required),
            vote: self.vote,
            failed: self.failed,
            signature: copy_text(&self.signature),
        }
    }
}

impl SlotFilter {
    pub fn to_wire(&self) -> (wire: SubscribeSlots)
        ensures
            slots_match(*self, wire),
    {
        SubscribeSlots {
            filter_by_commitment: self.filter_by_commitment,
            interslot_updates: self.interslot_updates,
        }
    }
}

impl BlockFilter {
    /// The wire form of the filter: an absent list becomes an empty list.
    pub fn to_wire(&self) -> (wire: SubscribeBlocks)
        ensures
            blocks_match(*self, wire),
    {
        SubscribeBlocks {
            account_include: copy_names_or_none(&self.account_include),
            include_transactions: self.include_transactions,
            include_accounts: self.include_accounts,
            include_entries: self.include_entries,
        }
    }
}

impl BlockMetaFilter {
    pub fn to_wire(&self) -> (wire: SubscribeBlocksMeta)
        ensures
            wire == (SubscribeBlocksMeta {  }),
    {
        SubscribeBlocksMeta {  }
    }
}

impl EntryFilter {
    pub fn to_wire(&self) -> (wire: SubscribeEntry)
        ensures
            wire == (SubscribeEntry {  }),
    {
        SubscribeEntry {  }
    }
}

/// An offset as the wire carries it.
pub open spec fn widen(offset: usize) -> u64 {
    offset as u64
}

/// Widens an offset to the width of the wire.
fn widen_offset(offset: usize) -> (wide: u64)
    ensures
        wide == widen(offset),
        wide == offset,
{
    offset as u64
}

impl Lamports {
    /// Reads the operator of the condition.
    pub fn to_wire(&self) -> (test: Option<LamportsTest>)
        ensures
            test == lamports_test(self.cmp@, self.value),
    {
        let operator = self.cmp.as_str();
        if reads_as(operator, "eq") {
            Some(LamportsTest::Eq(self.value))
        } else if reads_as(operator, "ne") {
            Some(LamportsTest::Ne(self.value))
        } else if reads_as(operator, "lt") {
            Some(LamportsTest::Lt(self.value))
        } else if reads_as(operator, "gt") {
            Some(LamportsTest::Gt(self.value))
        } else {
            None
        }
    }
}

impl AccountSubFilter {
    /// The wire condition this one stands for, if any.
    pub fn to_wire(&self) -> (wire: Option<AccountsFilter>)
        ensures
            match wire {
                Some(f) => wire_filter(*self) == Some(f@),
                None => wire_filter(*self) is None,
            },
    {
        if let Some(m) = &self.memcmp {
            Some(AccountsFilter::Memcmp { offset: widen_offset(m.offset), data: m.data.clone() })
        } else if let Some(size) = self.datasize {
            Some(AccountsFilter::Datasize(size))
        } else if let Some(state) = self.token_account_state {
            Some(AccountsFilter::TokenAccountState(state))
        } else if let Some(l) = &self.lamports {
            match l.to_wire() {
                Some(test) => Some(AccountsFilter::Lamports(test)),
                None => None,
            }
        } else {
            None
        }
    }
}

impl AccountFilter {
    /// The wire form of the filter: absent lists become empty lists, and
    /// the conditions that stand for none are left out.
    pub fn to_wire(&self) -> (wire: SubscribeAccounts)
        ensures
            accounts_match(*self, wire),
    {
        let mut filters: Vec<AccountsFilter> = Vec::new();
        if let Some(subs) = &self.filters {
            let mut i: usize = 0;
            assert(subs@.subrange(0, 0) =~= Seq::<AccountSubFilter>::empty());
            assert(filter_views(filters@) =~= Seq::<FilterModel>::empty());
            while i < subs.len()
                invariant
                    i <= subs@.len(),
                    filter_views(filters@) == wire_filters(subs@.subrange(0, i as int)),
                decreases subs@.len() - i,
            {
                let ghost before = filter_views(filters@);
                assert(subs@.subrange(0, i + 1).drop_last() =~= subs@.subrange(0, i as int));
                assert(subs@.subrange(0, i + 1).last() == subs@[i as int]);
                if let Some(f) = subs[i].to_wire() {
                    filters.push(f);
                    assert(filter_views(filters@) =~= before.push(f@));
                }
                i += 1;
            }
            assert(subs@.subrange(0, i as int) =~= subs@);
        } else {
            assert(filter_views(filters@) =~= Seq::<FilterModel>::empty());
        }
        SubscribeAccounts {
            nonempty_txn_signature: None,
            account: copy_names_or_none(&self.account),
            owner: copy_names_or_none(&self.owner),
            filters,
        }
    }
}

/// Whether the request says what the configuration says: every group
/// holds, under the same labels and in the same order, the wire form of the
/// configured filters; the commitment level is the configured one; and
/// nothing else is set.
pub open spec fn request_matches(config: Config, request: SubscribeRequest) -> bool {
    &&& request.commitment == match config.commitment {
        Some(name) => Some(commitment_of(name@)),
        None => None,
    }
    &&& request.transactions@.len() == config.transactions@.len()
    &&& forall|i: int|
        0 <= i < config.transactions@.len() ==> (#[trigger] request.transactions@[i]).0@
            == config.transactions@[i].0@ && transactions_match(
            config.transactions@[i].1,
            request.transactions@[i].1,
        )
    &&& request.accounts@.len() == config.accounts@.len()
    &&& forall|i: int|
        0 <= i < config.accounts@.len() ==> (#[trigger] request.accounts@[i]).0@
            == config.accounts@[i].0@ && accounts_match(
            config.accounts@[i].1,
            request.accounts@[i].1,
        )
    &&& request.slots@.len() == config.slots@.len()
    &&& forall|i: int|
        0 <= i < config.slots@.len() ==> (#[trigger] request.slots@[i]).0@ == config.slots@[i].0@
            && slots_match(config.slots@[i].1, request.slots@[i].1)
    &&& request.blocks@.len() == config.blocks@.len()
    &&& forall|i: int|
        0 <= i < config.blocks@.len() ==> (#[trigger] request.blocks@[i]).0@
            == config.blocks@[i].0@ && blocks_match(config.blocks@[i].1, request.blocks@[i].1)
    &&& request.blocks_meta@.len() == config.blocks_meta@.len()
    &&& forall|i: int|
        0 <= i < config.blocks_meta@.len() ==> (#[trigger] request.blocks_meta@[i]).0@
            == config.blocks_meta@[i].0@
    &&& request.entry@.len() == config.entry@.len()
    &&& forall|i: int|
        0 <= i < config.entry@.len() ==> (#[trigger] request.entry@[i]).0@ == config.entry@[i].0@
    &&& request.transactions_status@.len() == 0
    &&& request.accounts_data_slice@.len() == 0
    &&& request.from_slot is None
    &&& request.ping is None
}

fn wire_transactions(group: &Vec<(String, TransactionFilter)>) -> (wire: Vec<
    (String, SubscribeTransactions),
>)
    ensures
        wire@.len() == group@.len(),
        forall|i: int|
            0 <= i < group@.len() ==> (#[trigger] wire@[i]).0@ == group@[i].0@
                && transactions_match(group@[i].1, wire@[i].1),
{
    let mut wire: Vec<(String, SubscribeTransactions)> = Vec::new();
    let mut i: usize = 0;
    while i < group.len()
        invariant
            i <= group@.len(),
            wire@.len() == i,
            forall|k: int|
                0 <= k < i ==> (#[trigger] wire@[k]).0@ == group@[k].0@ && transactions_match(
                    group@[k].1,
                    wire@[k].1,
                ),
        decreases group@.len() - i,
    {
        wire.push((group[i].0.clone(), group[i].1.to_wire()));
        i += 1;
    }
    wire
}

fn wire_accounts(group: &Vec<(String, AccountFilter)>) -> (wire: Vec<(String, SubscribeAccounts)>)
    ensures
        wire@.len() == group@.len(),
        forall|i: int|
            0 <= i < group@.len() ==> (#[trigger] wire@[i]).0@ == group@[i].0@ && accounts_match(
                group@[i].1,
                wire@[i].1,
            ),
{
    let mut wire: Vec<(String, SubscribeAccounts)> = Vec::new();
    let mut i: usize = 0;
    while i < group.len()
        invariant
            i <= group@.len(),
            wire@.len() == i,
            forall|k: int|
                0 <= k < i ==> (#[trigger] wire@[k]).0@ == group@[k].0@ && accounts_match(
                    group@[k].1,
                    wire@[k].1,
                ),
        decreases group@.len() - i,
    {
        wire.push((group[i].0.clone(), group[i].1.to_wire()));
        i += 1;
    }
    wire
}

fn wire_slots(group: &Vec<(String, SlotFilter)>) -> (wire: Vec<(String, SubscribeSlots)>)
    ensures
        wire@.len() == group@.len(),
        forall|i: int|
            0 <= i < group@.len() ==> (#[trigger] wire@[i]).0@ == group@[i].0@ && slots_match(
                group@[i].1,
                wire@[i].1,
            ),
{
    let mut wire: Vec<(String, SubscribeSlots)> = Vec::new();
    let mut i: usize = 0;
    while i < group.len()
        invariant
            i <= group@.len(),
            wire@.len() == i,
            forall|k: int|
                0 <= k < i ==> (#[trigger] wire@[k]).0@ == group@[k].0@ && slots_match(
                    group@[k].1,
                    wire@[k].1,
                ),
        decreases group@.len() - i,
    {
        wire.push((group[i].0.clone(), group[i].1.to_wire()));
        i += 1;
    }
    wire
}

fn wire_blocks(group: &Vec<(String, BlockFilter)>) -> (wire: Vec<(String, SubscribeBlocks)>)
    ensures
        wire@.len() == group@.len(),
        forall|i: int|
            0 <= i < group@.len() ==> (#[trigger] wire@[i]).0@ == group@[i].0@ && blocks_match(
                group@[i].1,
                wire@[i].1,
            ),
{
    let mut wire: Vec<(String, SubscribeBlocks)> = Vec::new();
    let mut i: usize = 0;
    while i < group.len()
        invariant
            i <= group@.len(),
            wire@.len() == i,
            forall|k: int|
                0 <= k < i ==> (#[trigger] wire@[k]).0@ == group@[k].0@ && blocks_match(
                    group@[k].1,
                    wire@[k].1,
                ),
        decreases group@.len() - i,
    {
        wire.push((group[i].0.clone(), group[i].1.to_wire()));
        i += 1;
    }
    wire
}

fn wire_blocks_meta(group: &Vec<(String, BlockMetaFilter)>) -> (wire: Vec<
    (String, SubscribeBlocksMeta),
>)
    ensures
        wire@.len() == group@.len(),
        forall|i: int| 0 <= i < group@.len() ==> (#[trigger] wire@[i]).0@ == group@[i].0@,
{
    let mut wire: Vec<(String, SubscribeBlocksMeta)> = Vec::new();
    let mut i: usize = 0;
    while i < group.len()
        invariant
            i <= group@.len(),
            wire@.len() == i,
            forall|k: int| 0 <= k < i ==> (#[trigger] wire@[k]).0@ == group@[k].0@,
        decreases group@.len() - i,
    {
        wire.push((group[i].0.clone(), group[i].1.to_wire()));
        i += 1;
    }
    wire
}

fn wire_entries(group: &Vec<(String, EntryFilter)>) -> (wire: Vec<(String, SubscribeEntry)>)
    ensures
        wire@.len() == group@.len(),
        forall|i: int| 0 <= i < group@.len() ==> (#[trigger] wire@[i]).0@ == group@[i].0@,
{
    let mut wire: Vec<(String, SubscribeEntry)> = Vec::new();
    let mut i: usize = 0;
    while i < group.len()
        invariant
            i <= group@.len(),
            wire@.len() == i,
            forall|k: int| 0 <= k < i ==> (#[trigger] wire@[k]).0@ == group@[k].0@,
        decreases group@.len() - i,
    {
        wire.push((group[i].0.clone(), group[i].1.to_wire()));
        i += 1;
    }
    wire
}

/// Builds the subscribe request that the configuration describes. The
/// request carries no resume point; one is set per connection. Where no
/// group of the configuration holds a label twice, none of the request
/// does.
pub fn build_subscribe_request(config: &Config) -> (request: SubscribeRequest)
    ensures
        request_matches(*config, request),
        config.labels_distinct() ==> request.labels_distinct(),
{
    let commitment = match &config.commitment {
        Some(name) => Some(commitment_from_str(name.as_str())),
        None => None,
    };
    let request = SubscribeRequest {
        commitment,
        transactions: wire_transactions(&config.transactions),
        accounts: wire_accounts(&config.accounts),
        slots: wire_slots(&config.slots),
        blocks: wire_blocks(&config.blocks),
        blocks_meta: wire_blocks_meta(&config.blocks_meta),
        entry: wire_entries(&config.entry),
        transactions_status: Vec::new(),
        accounts_data_slice: Vec::new(),
        from_slot: None,
        ping: None,
    };
    proof {
        if config.labels_distinct() {
            lemma_labels_kept(config.transactions@, request.transactions@);
            lemma_labels_kept(config.accounts@, request.accounts@);
            lemma_labels_kept(config.slots@, request.slots@);
            lemma_labels_kept(config.blocks@, request.blocks@);
            lemma_labels_kept(config.blocks_meta@, request.blocks_meta@);
            lemma_labels_kept(config.entry@, request.entry@);
        }
    }
    request
}

} // verus!
