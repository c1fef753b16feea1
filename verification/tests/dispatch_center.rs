use async_forge::dispatch_center::{ChannelState, DispatchCenter};
use async_forge::error::DispatchError;
use async_forge::message_interface::SendableMessage;

#[derive(Debug)]
struct Note(&'static str);

impl SendableMessage for Note {
    const NB_SENDERS: usize = 1;

    fn to_id(&self) -> &'static str {
        self.0
    }

    fn is_close(&self) -> bool {
        self.0 == "closed"
    }

    fn close() -> Self {
        Note("closed")
    }
}

fn runtime() -> tokio::runtime::Runtime {
    tokio::runtime::Builder::new_current_thread()
        .enable_all()
        .build()
        .unwrap()
}

#[test]
fn new_center_has_no_channel() {
    let center: DispatchCenter<Note> = DispatchCenter::new();
    assert_eq!(center.channel_state("a"), ChannelState::Uninitialised);
    assert_eq!(center.channel_number_subscriber("a"), 0);
    assert_eq!(center.number_of_waiter("a"), 0);
    let default: DispatchCenter<Note> = DispatchCenter::default();
    assert_eq!(default.channel_state("a"), ChannelState::Uninitialised);
}

#[test]
fn subscribe_makes_the_channel_run() {
    let mut center: DispatchCenter<Note> = DispatchCenter::new();
    let (receiver1, notices) = center.subscribe("channel1");
    assert!(notices.is_empty());
    let (receiver2, _) = center.subscribe("channel1");
    assert_eq!(center.channel_state("channel1"), ChannelState::Running);
    assert_eq!(center.channel_number_subscriber("channel1"), 2);
    assert!(center.is_subscribed("channel1", &receiver1));
    assert!(center.is_subscribed("channel1", &receiver2));
    assert!(!center.is_subscribed("channel2", &receiver1));
    assert_ne!(receiver1.id(), receiver2.id());
}

#[test]
fn unsubscribe_errors_and_states() {
    let mut center: DispatchCenter<Note> = DispatchCenter::new();
    let (r1, _) = center.subscribe("a");
    let (r2, _) = center.subscribe("a");

    assert!(matches!(
        center.unsubscribe("b", &r1),
        Err(DispatchError::ChannelUninitialized("b"))
    ));
    assert!(matches!(center.unsubscribe("a", &r2), Ok(ChannelState::Running)));
    assert_eq!(center.channel_number_subscriber("a"), 1);
    assert!(!center.is_subscribed("a", &r2));
    assert!(matches!(
        center.unsubscribe("a", &r2),
        Err(DispatchError::NotSubscribed("a"))
    ));
    assert!(matches!(center.unsubscribe("a", &r1), Ok(ChannelState::Over)));
    assert_eq!(center.channel_state("a"), ChannelState::Over);
    assert_eq!(center.channel_number_subscriber("a"), 0);
    assert!(matches!(
        center.unsubscribe("a", &r1),
        Err(DispatchError::ChannelOver("a"))
    ));
}

#[test]
fn unsubscribe_undoes_subscribe() {
    let mut center: DispatchCenter<Note> = DispatchCenter::new();
    let (r1, _) = center.subscribe("a");
    let (r2, _) = center.subscribe("a");
    assert!(center.unsubscribe("a", &r2).is_ok());
    assert_eq!(center.channel_number_subscriber("a"), 1);
    assert!(center.is_subscribed("a", &r1));
    assert_eq!(center.subscribed_list(&r1), vec!["a"]);
    assert!(center.subscribed_list(&r2).is_empty());
}

#[test]
fn waiters_are_told_of_each_subscription() {
    runtime().block_on(async {
        let mut center: DispatchCenter<Note> = DispatchCenter::new();
        let mut waiter = center.get_waiter("channel1");
        assert_eq!(center.number_of_waiter("channel1"), 1);
        assert_eq!(center.number_of_waiter("channel2"), 0);
        let (_receiver, notices) = center.subscribe("channel1");
        assert_eq!(notices.len(), 1);
        for notice in notices {
            notice.send(()).await.unwrap();
        }
        assert!(waiter.recv().await.is_some());
        let (_other, notices) = center.subscribe("channel2");
        assert!(notices.is_empty());
    });
}

#[test]
fn subscribe_multiple_subscribes_one_receiver_everywhere() {
    let mut center: DispatchCenter<Note> = DispatchCenter::new();
    let _waiter = center.get_waiter("b");
    let (receiver, notices) = center.subscribe_multiple(&["a", "b", "a"]);
    assert_eq!(notices.len(), 1);
    assert_eq!(center.channel_number_subscriber("a"), 2);
    assert_eq!(center.channel_number_subscriber("b"), 1);
    assert_eq!(center.subscribed_list(&receiver), vec!["a", "b"]);
    assert!(center.unsubscribe("a", &receiver).is_ok());
    assert_eq!(center.channel_state("a"), ChannelState::Over);
}

#[test]
fn unsubscribe_multiple_reports_every_failure_and_unsubscribes_all() {
    let mut center: DispatchCenter<Note> = DispatchCenter::new();
    let (receiver, _) = center.subscribe_multiple(&["a", "b"]);
    let (other, _) = center.subscribe("c");
    assert!(center.unsubscribe_multiple(&["a"], &receiver).is_ok());
    match center.unsubscribe_multiple(&["b", "b", "c", "d"], &receiver) {
        Err(DispatchError::NotSubscribeMultiple(errors)) => {
            assert_eq!(errors.len(), 3);
            assert!(matches!(errors[0], DispatchError::ChannelOver("b")));
            assert!(matches!(errors[1], DispatchError::NotSubscribed("c")));
            assert!(matches!(errors[2], DispatchError::ChannelUninitialized("d")));
        }
        _ => panic!("expected the unsubscription errors"),
    }
    assert!(center.subscribed_list(&receiver).is_empty());
    assert!(center.is_subscribed("c", &other));
}

#[test]
fn cleaning_drops_closed_receivers() {
    let mut center: DispatchCenter<Note> = DispatchCenter::new();
    let (kept, _) = center.subscribe("a");
    let (gone, _) = center.subscribe("a");
    let (gone_b, _) = center.subscribe("b");
    drop(gone);
    drop(gone_b);
    assert_eq!(center.clean_channel("a"), ChannelState::Running);
    assert_eq!(center.channel_number_subscriber("a"), 1);
    assert!(center.is_subscribed("a", &kept));
    assert_eq!(center.clean_channel("z"), ChannelState::Uninitialised);
    let states = center.clean_all();
    assert_eq!(states, vec![("a", ChannelState::Running), ("b", ChannelState::Over)]);
}

#[test]
fn send_targets_follow_the_channel_state() {
    let mut center: DispatchCenter<Note> = DispatchCenter::new();
    assert!(center.send_targets("a").is_err());
    let (r1, _) = center.subscribe("a");
    let (_r2, _) = center.subscribe("a");
    assert_eq!(center.send_targets("a").unwrap().len(), 2);
    center.unsubscribe("a", &r1).unwrap();
    assert_eq!(center.send_targets("a").unwrap().len(), 1);
}

#[test]
fn over_channel_has_no_targets() {
    let mut center: DispatchCenter<Note> = DispatchCenter::new();
    let (r1, _) = center.subscribe("a");
    center.unsubscribe("a", &r1).unwrap();
    assert_eq!(center.send_targets("a").unwrap().len(), 0);
}

#[test]
fn broadcast_reaches_every_open_subscriber() {
    runtime().block_on(async {
        let mut center: DispatchCenter<Note> = DispatchCenter::new();
        let (mut r1, _) = center.subscribe("a");
        let (mut r2, _) = center.subscribe("b");
        let (gone, _) = center.subscribe("b");
        drop(gone);
        let targets = center.broadcast_targets();
        assert_eq!(targets.len(), 2);
        assert_eq!(center.channel_number_subscriber("b"), 1);
        let msg = std::sync::Arc::new(Note("a"));
        for t in targets {
            t.send(msg.clone()).await.unwrap();
        }
        assert_eq!(r1.recv().await.unwrap().to_id(), "a");
        assert_eq!(r2.recv().await.unwrap().to_id(), "a");
    });
}

#[test]
fn get_sender_finds_the_bound_sender() {
    runtime().block_on(async {
        let mut center: DispatchCenter<Note> = DispatchCenter::new();
        let (mut receiver, _) = center.subscribe_multiple(&["a", "b"]);
        let (other, _) = center.subscribe("c");
        let sender = center.get_sender(&receiver, "a").unwrap();
        assert!(sender.is_bound_to(&receiver));
        assert!(center.get_sender(&other, "a").is_none());
        assert!(center.get_sender(&receiver, "c").is_none());
        sender.send(std::sync::Arc::new(Note("a"))).await.unwrap();
        assert_eq!(receiver.recv().await.unwrap().to_id(), "a");

        let found = center.get_senders(&receiver, &["a", "c", "b", "a"]);
        let names: Vec<&str> = found.iter().map(|(c, _)| *c).collect();
        assert_eq!(names, vec!["a", "b"]);
        assert!(found.iter().all(|(_, s)| s.is_bound_to(&receiver)));
    });
}

#[test]
fn message_interface_is_usable() {
    let n = Note::close();
    assert!(n.is_close());
    assert_eq!(Note::NB_SENDERS, 1);
}

#[test]
fn clean_channel_with_drops_exactly_the_flagged_subscribers() {
    let mut center: DispatchCenter<Note> = DispatchCenter::new();
    let (r1, _) = center.subscribe("a");
    let (r2, _) = center.subscribe("a");
    let (r3, _) = center.subscribe("a");
    assert_eq!(center.clean_channel_with("a", &vec![false, true, false]), ChannelState::Running);
    assert_eq!(center.channel_number_subscriber("a"), 2);
    assert!(center.is_subscribed("a", &r1));
    assert!(!center.is_subscribed("a", &r2));
    assert!(center.is_subscribed("a", &r3));
    assert_eq!(center.clean_channel_with("z", &vec![]), ChannelState::Uninitialised);
    assert_eq!(center.clean_channel_with("a", &vec![true, true]), ChannelState::Over);
    assert_eq!(center.channel_number_subscriber("a"), 0);
    assert_eq!(center.clean_channel_with("a", &vec![]), ChannelState::Over);
}

#[test]
fn clean_all_with_cleans_each_channel_by_its_flags() {
    let mut center: DispatchCenter<Note> = DispatchCenter::new();
    let (_a1, _) = center.subscribe("a");
    let (a2, _) = center.subscribe("a");
    let (_b1, _) = center.subscribe("b");
    let states = center.clean_all_with(&vec![vec![true, false], vec![true]]);
    assert_eq!(states, vec![("a", ChannelState::Running), ("b", ChannelState::Over)]);
    assert_eq!(center.channel_number_subscriber("a"), 1);
    assert!(center.is_subscribed("a", &a2));
    assert_eq!(center.channel_number_subscriber("b"), 0);
}

#[test]
fn broadcast_targets_with_keeps_the_unflagged_subscribers() {
    runtime().block_on(async {
        let mut center: DispatchCenter<Note> = DispatchCenter::new();
        let (_a1, _) = center.subscribe("a");
        let (mut a2, _) = center.subscribe("a");
        let (mut b1, _) = center.subscribe("b");
        let targets = center.broadcast_targets_with(&vec![vec![true, false], vec![false]]);
        assert_eq!(targets.len(), 2);
        let msg = std::sync::Arc::new(Note("b"));
        for t in targets {
            t.send(msg.clone()).await.unwrap();
        }
        assert_eq!(a2.recv().await.unwrap().to_id(), "b");
        assert_eq!(b1.recv().await.unwrap().to_id(), "b");
    });
}

#[test]
fn send_targets_reach_every_subscriber_of_the_channel() {
    runtime().block_on(async {
        let mut center: DispatchCenter<Note> = DispatchCenter::new();
        let (mut r1, _) = center.subscribe("a");
        let (mut r2, _) = center.subscribe("a");
        let (mut other, _) = center.subscribe("b");
        let msg = std::sync::Arc::new(Note("a"));
        for t in center.send_targets(msg.to_id()).unwrap() {
            t.send(msg.clone()).await.unwrap();
        }
        assert_eq!(r1.recv().await.unwrap().to_id(), "a");
        assert_eq!(r2.recv().await.unwrap().to_id(), "a");
        assert!(other.try_recv().is_err());
    });
}

#[test]
fn a_waiter_is_told_of_each_later_subscription() {
    runtime().block_on(async {
        let mut center: DispatchCenter<Note> = DispatchCenter::new();
        let mut waiter = center.get_waiter("a");
        for _ in 0..2 {
            let (_r, notices) = center.subscribe("a");
            assert_eq!(notices.len(), 1);
            for n in notices {
                assert!(n.is_bound_to(&waiter));
                n.send(()).await.unwrap();
            }
            assert!(waiter.recv().await.is_some());
        }
    });
}

#[test]
fn the_connection_counter_counts_identifiers() {
    let mut center: DispatchCenter<Note> = DispatchCenter::new();
    assert_eq!(center.connection_counter(), 0);
    let _r = center.subscribe("a");
    let _w = center.get_waiter("b");
    let _m = center.subscribe_multiple(&["a", "c"]);
    assert_eq!(center.connection_counter(), 3);
}

#[test]
fn a_channel_left_uninitialised_never_returns() {
    let mut center: DispatchCenter<Note> = DispatchCenter::new();
    let (r, _) = center.subscribe("a");
    center.unsubscribe("a", &r).unwrap();
    assert_eq!(center.channel_state("a"), ChannelState::Over);
    assert_eq!(center.clean_channel("a"), ChannelState::Over);
    center.clean_all();
    assert_eq!(center.channel_state("a"), ChannelState::Over);
}

#[test]
fn unsubscribing_one_receiver_keeps_the_others() {
    let mut center: DispatchCenter<Note> = DispatchCenter::new();
    let (r1, _) = center.subscribe("a");
    let (r2, _) = center.subscribe("a");
    let (r3, _) = center.subscribe("a");
    assert!(matches!(center.unsubscribe("a", &r2), Ok(ChannelState::Running)));
    assert!(center.is_subscribed("a", &r1));
    assert!(!center.is_subscribed("a", &r2));
    assert!(center.is_subscribed("a", &r3));
    assert_eq!(center.channel_number_subscriber("a"), 2);
}

#[test]
fn a_receiver_of_another_center_is_not_subscribed() {
    let mut first: DispatchCenter<Note> = DispatchCenter::new();
    let mut second: DispatchCenter<Note> = DispatchCenter::new();
    let (mine, _) = first.subscribe("a");
    let (other, _) = second.subscribe("a");
    assert!(first.is_subscribed("a", &mine));
    assert!(!first.is_subscribed("a", &other));
    assert!(first.get_sender(&other, "a").is_none());
    assert!(first.subscribed_list(&other).is_empty());
    assert!(matches!(
        first.unsubscribe("a", &other),
        Err(async_forge::error::DispatchError::NotSubscribed("a"))
    ));
    assert!(first.is_subscribed("a", &mine));
}
