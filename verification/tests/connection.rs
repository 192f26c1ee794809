use geyser_rs::connection::resume_from;
use geyser_rs::connection::update_tracked_slot;
use geyser_rs::connection::Action;
use geyser_rs::connection::ConnectionManager;
use geyser_rs::connection::Event;
use geyser_rs::connection::Phase;
use geyser_rs::retry::delay_or_fallback;
use geyser_rs::retry::ReconnectBackoff;
use geyser_rs::retry::RetryDelay;
use geyser_rs::update::Update;

fn subscribed() -> ConnectionManager {
    let mut manager = ConnectionManager::new();
    assert!(matches!(manager.handle(Event::Start), Action::Connect));
    assert!(matches!(
        manager.handle(Event::Connected),
        Action::Subscribe { from_slot: None }
    ));
    manager
}

fn nanos_of(delay: RetryDelay) -> u128 {
    delay.secs as u128 * 1_000_000_000 + delay.nanos as u128
}

#[test]
fn new_manager_is_idle_and_has_seen_nothing() {
    let manager = ConnectionManager::new();
    assert_eq!(manager.phase(), Phase::Idle);
    assert_eq!(manager.tracked_slot(), 0);
    assert!(!manager.saw_non_heartbeat());
    assert_eq!(manager.delays_taken(), 0);
}

#[test]
fn tracked_slot_is_the_highest_slot_delivered() {
    let mut manager = subscribed();
    let updates = vec![
        Update::Slot { slot: 10 },
        Update::Ping,
        Update::Transaction { slot: 42, signature: None },
        Update::Block { slot: 7 },
        Update::Pong,
        Update::Account { slot: 41 },
        Update::Entry { slot: 42 },
        Update::BlockMeta { slot: 12 },
        Update::Other,
    ];
    for update in updates {
        manager.handle(Event::Received(update));
    }
    assert_eq!(manager.tracked_slot(), 42);
}

#[test]
fn heartbeats_leave_the_tracked_slot_alone() {
    let mut manager = subscribed();
    manager.handle(Event::Received(Update::Slot { slot: 5 }));
    assert!(matches!(
        manager.handle(Event::Received(Update::Ping)),
        Action::Acknowledge
    ));
    assert!(matches!(
        manager.handle(Event::Received(Update::Pong)),
        Action::Continue
    ));
    assert_eq!(manager.tracked_slot(), 5);
    assert_eq!(manager.phase(), Phase::Subscribed);
}

#[test]
fn only_heartbeats_do_not_count_as_progress() {
    let mut manager = subscribed();
    manager.handle(Event::Received(Update::Ping));
    manager.handle(Event::Received(Update::Pong));
    assert!(!manager.saw_non_heartbeat());
    manager.handle(Event::Received(Update::Other));
    assert!(manager.saw_non_heartbeat());
    assert_eq!(manager.tracked_slot(), 0);
}

#[test]
fn updates_are_forwarded_unchanged() {
    let mut manager = subscribed();
    let action = manager.handle(Event::Received(Update::Transaction {
        slot: 9,
        signature: Some(vec![1, 2, 3]),
    }));
    match action {
        Action::Forward(Update::Transaction { slot, signature }) => {
            assert_eq!(slot, 9);
            assert_eq!(signature, Some(vec![1, 2, 3]));
        }
        _ => panic!("the update was not forwarded"),
    }
}

#[test]
fn reconnect_resumes_one_slot_below_the_tracked_slot() {
    let mut manager = subscribed();
    manager.handle(Event::Received(Update::Slot { slot: 1000 }));
    assert!(matches!(
        manager.handle(Event::StreamEnded),
        Action::Sleep(_)
    ));
    assert_eq!(manager.phase(), Phase::Draining);
    assert!(matches!(
        manager.handle(Event::DelayElapsed),
        Action::Connect
    ));
    assert_eq!(manager.phase(), Phase::Connecting);
    assert!(matches!(
        manager.handle(Event::Connected),
        Action::Subscribe { from_slot: Some(999) }
    ));
    assert_eq!(manager.phase(), Phase::Subscribed);
}

#[test]
fn reconnect_without_a_tracked_slot_names_no_resume_point() {
    let mut manager = subscribed();
    manager.handle(Event::StreamError);
    assert_eq!(manager.phase(), Phase::Failed);
    manager.handle(Event::DelayElapsed);
    assert!(matches!(
        manager.handle(Event::Connected),
        Action::Subscribe { from_slot: None }
    ));
}

#[test]
fn resume_point_values() {
    assert_eq!(resume_from(0), None);
    assert_eq!(resume_from(1), Some(0));
    assert_eq!(resume_from(1000), Some(999));
    assert_eq!(resume_from(u64::MAX), Some(u64::MAX - 1));
}

#[test]
fn update_tracked_slot_takes_the_maximum() {
    let mut highest = 10;
    update_tracked_slot(&Update::Slot { slot: 3 }, &mut highest);
    assert_eq!(highest, 10);
    update_tracked_slot(&Update::Slot { slot: 11 }, &mut highest);
    assert_eq!(highest, 11);
    update_tracked_slot(&Update::Ping, &mut highest);
    assert_eq!(highest, 11);
    update_tracked_slot(&Update::Other, &mut highest);
    assert_eq!(highest, 11);
}

#[test]
fn failed_ack_gives_up_the_connection() {
    let mut manager = subscribed();
    assert!(matches!(
        manager.handle(Event::Received(Update::Ping)),
        Action::Acknowledge
    ));
    assert!(matches!(manager.handle(Event::AckFailed), Action::Sleep(_)));
    assert_eq!(manager.phase(), Phase::Failed);
}

#[test]
fn failed_connect_and_failed_subscribe_back_off() {
    let mut manager = ConnectionManager::new();
    manager.handle(Event::Start);
    assert!(matches!(
        manager.handle(Event::ConnectFailed),
        Action::Sleep(_)
    ));
    assert_eq!(manager.phase(), Phase::Failed);
    manager.handle(Event::DelayElapsed);
    manager.handle(Event::Connected);
    assert!(matches!(
        manager.handle(Event::SubscribeFailed),
        Action::Sleep(_)
    ));
    assert_eq!(manager.phase(), Phase::Failed);
    assert_eq!(manager.delays_taken(), 2);
}

#[test]
fn events_without_meaning_in_a_phase_change_nothing() {
    let mut manager = ConnectionManager::new();
    assert!(matches!(manager.handle(Event::Connected), Action::Continue));
    assert!(matches!(manager.handle(Event::StreamEnded), Action::Continue));
    assert!(matches!(
        manager.handle(Event::DelayElapsed),
        Action::Continue
    ));
    assert_eq!(manager.phase(), Phase::Idle);
    let mut manager = subscribed();
    assert!(matches!(manager.handle(Event::Start), Action::Continue));
    assert!(matches!(
        manager.handle(Event::ConnectFailed),
        Action::Continue
    ));
    assert_eq!(manager.phase(), Phase::Subscribed);
}

#[test]
fn progress_earns_a_fresh_delay_policy() {
    let mut manager = subscribed();
    for _ in 0..5 {
        manager.handle(Event::StreamEnded);
        manager.handle(Event::DelayElapsed);
        manager.handle(Event::Connected);
    }
    assert_eq!(manager.delays_taken(), 5);
    manager.handle(Event::Received(Update::Slot { slot: 1 }));
    let action = manager.handle(Event::StreamError);
    assert_eq!(manager.delays_taken(), 1);
    match action {
        Action::Sleep(delay) => {
            let nanos = nanos_of(delay);
            assert!(nanos >= 250_000_000, "{}", nanos);
            assert!(nanos <= 750_000_001, "{}", nanos);
        }
        _ => panic!("no delay"),
    }
}

#[test]
fn failed_connect_after_progress_keeps_accumulating() {
    let mut manager = subscribed();
    manager.handle(Event::Received(Update::Slot { slot: 1 }));
    assert!(manager.saw_non_heartbeat());
    manager.handle(Event::StreamEnded);
    assert_eq!(manager.delays_taken(), 1);
    assert!(!manager.saw_non_heartbeat());
    manager.handle(Event::DelayElapsed);
    manager.handle(Event::ConnectFailed);
    assert_eq!(manager.delays_taken(), 2);
    manager.handle(Event::DelayElapsed);
    manager.handle(Event::Connected);
    manager.handle(Event::Received(Update::Ping));
    manager.handle(Event::StreamEnded);
    assert_eq!(manager.delays_taken(), 3);
}

#[test]
fn delays_keep_growing_without_progress() {
    let mut backoff = ReconnectBackoff::new();
    let mut last = RetryDelay { secs: 0, nanos: 0 };
    for _ in 0..6 {
        last = backoff.next_delay();
        assert!(last.nanos < 1_000_000_000);
    }
    assert_eq!(backoff.taken(), 6);
    // The sixth delay is drawn around 500 ms * 1.5^5.
    assert!(nanos_of(last) >= 1_890_000_000, "{}", nanos_of(last));
    backoff.reset();
    assert_eq!(backoff.taken(), 0);
    let first = backoff.next_delay();
    assert!(nanos_of(first) <= 750_000_001, "{}", nanos_of(first));
    assert_eq!(backoff.taken(), 1);
}

fn grown(interval: u128) -> u128 {
    if interval * 3 >= 60_000_000_000 * 2 {
        60_000_000_000
    } else {
        interval * 3 / 2
    }
}

fn assert_drawn_around(delay: RetryDelay, interval: u128) {
    let nanos = nanos_of(delay);
    assert!(delay.nanos < 1_000_000_000);
    assert!(nanos + 1_000 >= interval / 2, "{} at {}", nanos, interval);
    assert!(nanos <= interval * 3 / 2 + 1_000, "{} at {}", nanos, interval);
}

#[test]
fn every_delay_is_drawn_around_the_interval_the_policy_stands_at() {
    for _ in 0..200 {
        let mut backoff = ReconnectBackoff::new();
        let mut interval = 500_000_000u128;
        for _ in 0..20 {
            assert_drawn_around(backoff.next_delay(), interval);
            interval = grown(interval);
        }
        assert_eq!(interval, 60_000_000_000);
        backoff.reset();
        assert_drawn_around(backoff.next_delay(), 500_000_000);
        assert_drawn_around(backoff.next_delay(), 750_000_000);
    }
}

#[test]
fn interval_stops_growing_at_one_minute() {
    let mut backoff = ReconnectBackoff::new();
    for _ in 0..40 {
        backoff.next_delay();
    }
    for _ in 0..50 {
        let nanos = nanos_of(backoff.next_delay());
        assert!(nanos + 1_000 >= 30_000_000_000, "{}", nanos);
        assert!(nanos <= 90_000_001_000, "{}", nanos);
    }
}

#[test]
fn manager_sleeps_around_the_interval_of_its_policy() {
    let mut manager = subscribed();
    let mut interval = 500_000_000u128;
    for _ in 0..8 {
        match manager.handle(Event::StreamEnded) {
            Action::Sleep(delay) => assert_drawn_around(delay, interval),
            _ => panic!("no delay"),
        }
        interval = grown(interval);
        manager.handle(Event::DelayElapsed);
        manager.handle(Event::Connected);
    }
    manager.handle(Event::Received(Update::Slot { slot: 3 }));
    match manager.handle(Event::StreamError) {
        Action::Sleep(delay) => assert_drawn_around(delay, 500_000_000),
        _ => panic!("no delay"),
    }
    manager.handle(Event::DelayElapsed);
    match manager.handle(Event::ConnectFailed) {
        Action::Sleep(delay) => assert_drawn_around(delay, 750_000_000),
        _ => panic!("no delay"),
    }
}

#[test]
fn first_delay_is_drawn_around_half_a_second() {
    let mut backoff = ReconnectBackoff::new();
    let first = backoff.next_delay();
    assert!(nanos_of(first) >= 250_000_000);
    assert!(nanos_of(first) <= 750_000_001);
}

#[test]
fn missing_delay_falls_back_to_one_second() {
    assert_eq!(delay_or_fallback(None), RetryDelay { secs: 1, nanos: 0 });
    assert_eq!(
        delay_or_fallback(Some((3, 250))),
        RetryDelay { secs: 3, nanos: 250 }
    );
}
