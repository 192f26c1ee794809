use geyser_rs::channel::UpdateChannel;
use geyser_rs::update::Update;

#[test]
fn full_channel_rejects_and_keeps_its_contents() {
    let mut channel = UpdateChannel::with_capacity(2).unwrap();
    assert!(channel.try_send(Update::Slot { slot: 1 }).is_ok());
    assert!(channel.try_send(Update::Slot { slot: 2 }).is_ok());
    assert!(channel.is_full());
    let rejected = channel.try_send(Update::Slot { slot: 3 });
    assert!(matches!(rejected, Err(Update::Slot { slot: 3 })));
    assert_eq!(channel.len(), 2);
    assert!(matches!(channel.try_recv(), Some(Update::Slot { slot: 1 })));
    assert!(matches!(channel.try_recv(), Some(Update::Slot { slot: 2 })));
    assert!(channel.try_recv().is_none());
}

#[test]
fn standard_channel_holds_ten_thousand_updates() {
    let mut channel = UpdateChannel::new();
    assert_eq!(channel.capacity(), 10_000);
    assert!(channel.is_empty());
    for slot in 0..10_000u64 {
        assert!(channel.try_send(Update::Slot { slot }).is_ok());
    }
    assert!(channel.is_full());
    assert!(matches!(channel.try_send(Update::Ping), Err(Update::Ping)));
    assert_eq!(channel.len(), 10_000);
    assert!(matches!(channel.try_recv(), Some(Update::Slot { slot: 0 })));
    assert!(!channel.is_full());
    assert!(channel.try_send(Update::Pong).is_ok());
    assert_eq!(channel.len(), 10_000);
}

#[test]
fn no_channel_is_made_without_room_or_beyond_the_largest_bound() {
    assert!(UpdateChannel::with_capacity(0).is_none());
    assert!(UpdateChannel::with_capacity(usize::MAX).is_none());
    assert!(UpdateChannel::with_capacity(usize::MAX / 8 + 1).is_none());
    let mut channel = UpdateChannel::with_capacity(1).unwrap();
    assert_eq!(channel.capacity(), 1);
    assert!(channel.is_empty());
    assert!(!channel.is_full());
    assert!(channel.try_send(Update::Other).is_ok());
    assert!(matches!(channel.try_send(Update::Ping), Err(Update::Ping)));
    assert!(matches!(channel.try_recv(), Some(Update::Other)));
    assert!(channel.try_recv().is_none());
    assert!(channel.try_send(Update::Pong).is_ok());
}

#[test]
fn updates_leave_in_the_order_in_which_they_were_accepted() {
    let mut channel = UpdateChannel::with_capacity(3).unwrap();
    for round in 0..10u64 {
        for slot in 0..3u64 {
            assert!(channel.try_send(Update::Slot { slot: round * 3 + slot }).is_ok());
        }
        assert!(channel.try_send(Update::Slot { slot: 999 }).is_err());
        assert_eq!(channel.len(), 3);
        for slot in 0..3u64 {
            match channel.try_recv() {
                Some(Update::Slot { slot: got }) => assert_eq!(got, round * 3 + slot),
                _ => panic!("an update is missing"),
            }
        }
        assert!(channel.is_empty());
    }
}

#[test]
fn update_kinds_and_their_slots() {
    assert_eq!(Update::Transaction { slot: 1, signature: None }.slot(), Some(1));
    assert_eq!(Update::Slot { slot: 2 }.slot(), Some(2));
    assert_eq!(Update::Block { slot: 3 }.slot(), Some(3));
    assert_eq!(Update::BlockMeta { slot: 4 }.slot(), Some(4));
    assert_eq!(Update::Account { slot: 5 }.slot(), Some(5));
    assert_eq!(Update::Entry { slot: 6 }.slot(), Some(6));
    assert_eq!(Update::Ping.slot(), None);
    assert_eq!(Update::Pong.slot(), None);
    assert_eq!(Update::Other.slot(), None);
    assert!(Update::Ping.is_heartbeat());
    assert!(Update::Pong.is_heartbeat());
    assert!(!Update::Other.is_heartbeat());
    assert!(!Update::Slot { slot: 0 }.is_heartbeat());
}
