use geyser_rs::cache::BlockTimeCache;
use geyser_rs::cache::FetchOutcome;
use geyser_rs::cache::Lookup;

#[test]
fn resident_slot_is_answered_at_once() {
    let mut cache = BlockTimeCache::new();
    assert_eq!(cache.get_block_time(7), Lookup::Fetch);
    assert_eq!(cache.complete_fetch(7, Some(1_700_000_000)), Some(1_700_000_000));
    assert_eq!(cache.get_block_time(7), Lookup::Known(1_700_000_000));
    assert_eq!(cache.get_block_time(7), Lookup::Known(1_700_000_000));
    assert_eq!(cache.len(), 1);
}

#[test]
fn second_lookup_of_an_uncached_slot_is_pending() {
    let mut cache = BlockTimeCache::new();
    assert_eq!(cache.get_block_time(5), Lookup::Fetch);
    assert_eq!(cache.get_block_time(5), Lookup::Pending);
    assert_eq!(cache.get_block_time(6), Lookup::Fetch);
    assert_eq!(cache.get_block_time(5), Lookup::Pending);
    cache.complete_fetch(5, Some(99));
    assert_eq!(cache.get_block_time(5), Lookup::Known(99));
    assert_eq!(cache.get_block_time(6), Lookup::Pending);
}

#[test]
fn failed_lookup_caches_nothing_and_clears_the_mark() {
    let mut cache = BlockTimeCache::new();
    assert_eq!(cache.get_block_time(5), Lookup::Fetch);
    assert_eq!(cache.complete_fetch(5, None), None);
    assert_eq!(cache.len(), 0);
    assert_eq!(cache.get_block_time(5), Lookup::Fetch);
}

#[test]
fn cache_never_holds_more_than_twenty_entries() {
    let mut cache = BlockTimeCache::new();
    for slot in 0..100u64 {
        assert_eq!(cache.get_block_time(slot), Lookup::Fetch);
        cache.complete_fetch(slot, Some(slot as i64 * 2));
        assert!(cache.len() <= 20);
    }
    assert_eq!(cache.len(), 20);
}

#[test]
fn eviction_removes_the_oldest_entry() {
    let mut cache = BlockTimeCache::new();
    for slot in 1..=21u64 {
        cache.get_block_time(slot);
        cache.complete_fetch(slot, Some(slot as i64));
    }
    assert_eq!(cache.len(), 20);
    assert_eq!(cache.get_block_time(2), Lookup::Known(2));
    assert_eq!(cache.get_block_time(21), Lookup::Known(21));
    assert_eq!(cache.get_block_time(1), Lookup::Fetch);
}

#[test]
fn twenty_entries_are_all_kept() {
    let mut cache = BlockTimeCache::new();
    for slot in 1..=20u64 {
        cache.get_block_time(slot);
        cache.complete_fetch(slot, Some(-(slot as i64)));
    }
    assert_eq!(cache.len(), 20);
    for slot in 1..=20u64 {
        assert_eq!(cache.get_block_time(slot), Lookup::Known(-(slot as i64)));
    }
}

#[test]
fn storing_a_resident_slot_again_overwrites_in_place() {
    let mut cache = BlockTimeCache::new();
    cache.complete_fetch(1, Some(10));
    cache.complete_fetch(2, Some(20));
    cache.complete_fetch(1, Some(11));
    assert_eq!(cache.len(), 2);
    assert_eq!(cache.get_block_time(1), Lookup::Known(11));
    assert_eq!(cache.get_block_time(2), Lookup::Known(20));
}

#[test]
fn batch_lookup_answers_in_order() {
    let mut cache = BlockTimeCache::new();
    cache.get_block_time(3);
    cache.complete_fetch(3, Some(33));
    let answers = cache.get_block_times(&vec![1, 3, 1, 2]);
    assert_eq!(
        answers,
        vec![Lookup::Fetch, Lookup::Known(33), Lookup::Pending, Lookup::Fetch]
    );
    assert!(cache.get_block_times(&Vec::new()).is_empty());
}

#[test]
fn block_not_available_is_expected() {
    let outcome = FetchOutcome::from_failure(
        "ClientError { kind: RpcError(RpcResponseError { code: -32004, message: \"Block not available for slot 5\" }) }",
    );
    assert_eq!(outcome, FetchOutcome::NotAvailable);
    assert!(!outcome.is_reportable());
    assert_eq!(outcome.block_time(), None);
}

#[test]
fn other_failures_are_reported() {
    let outcome = FetchOutcome::from_failure("connection refused");
    assert_eq!(outcome, FetchOutcome::Failed);
    assert!(outcome.is_reportable());
    assert_eq!(outcome.block_time(), None);
    assert_eq!(FetchOutcome::from_failure(""), FetchOutcome::Failed);
    assert_eq!(
        FetchOutcome::from_failure("block not available"),
        FetchOutcome::Failed
    );
    assert_eq!(
        FetchOutcome::from_failure("Block not availabl"),
        FetchOutcome::Failed
    );
}

#[test]
fn found_outcome_carries_the_block_time() {
    let outcome = FetchOutcome::Found(12);
    assert_eq!(outcome.block_time(), Some(12));
    assert!(!outcome.is_reportable());
}
