use async_forge::smart_channel::{bind, channel, SmartReceiver, SmartSender};

fn runtime() -> tokio::runtime::Runtime {
    tokio::runtime::Builder::new_current_thread()
        .enable_all()
        .build()
        .unwrap()
}

#[test]
fn test_sender_receiver_binding() {
    let id = 1;
    let (sender, receiver) = channel::<(), _>(10, id.clone());

    assert_eq!(sender.id(), &id);
    assert_eq!(receiver.id(), id);
    assert!(sender.is_bound_to(&receiver));
    assert!(receiver.is_bound_to(&sender));
}

#[test]
fn test_send_receive_message() {
    runtime().block_on(async {
        let id = 2;
        let (sender, mut receiver) = channel(10, id);

        sender.send("Hello, world!".to_string()).await.unwrap();
        let received = receiver.recv().await.unwrap();

        assert_eq!(received, "Hello, world!");
    });
}

#[test]
fn test_unbound_sender_receiver() {
    let id1 = 1;
    let id2 = 2;

    let (sender, _) = channel::<String, _>(10, id1);
    let (_, receiver) = channel::<String, _>(10, id2);

    assert!(!sender.is_bound_to(&receiver));
    assert!(!receiver.is_bound_to(&sender));
}

#[test]
fn test_multiple_senders_with_same_id() {
    runtime().block_on(async {
        let id = 1;
        let (sender1, mut receiver) = channel(10, id.clone());
        let sender2 = sender1.clone();

        sender1.send("From sender1".to_string()).await.unwrap();
        let msg1 = receiver.recv().await.unwrap();
        assert_eq!(msg1, "From sender1");

        sender2.send("From sender2".to_string()).await.unwrap();
        let msg2 = receiver.recv().await.unwrap();
        assert_eq!(msg2, "From sender2");
    });
}

#[test]
fn test_receiver_closes_on_drop() {
    runtime().block_on(async {
        let id = 1;
        let (sender, receiver) = channel::<String, _>(10, id);

        drop(receiver);

        let result = sender.send("This should fail".to_string()).await;
        assert!(result.is_err());
    });
}

#[test]
fn test_no_duplicate_message_on_same_id() {
    runtime().block_on(async {
        let id = 4;
        let (sender1, mut receiver) = channel(10, id);
        let sender2 = sender1.clone();

        sender1.send("Message 1".to_string()).await.unwrap();
        sender2.send("Message 2".to_string()).await.unwrap();

        let received1 = receiver.recv().await.unwrap();
        let received2 = receiver.recv().await.unwrap();

        assert_ne!(received1, received2);
    });
}

#[test]
fn test_cloning_sender_does_not_create_new_id() {
    let id = 42;
    let (sender1, _) = channel::<String, _>(10, id.clone());
    let sender2 = sender1.clone();

    assert_eq!(sender1.id(), sender2.id());
    assert!(sender1 == sender2);
}

#[test]
fn string_ids_bind_halves_of_the_same_channel_only() {
    let id1 = "channel-1".to_string();
    let id2 = "channel-2".to_string();

    let (sender1, receiver1) = channel::<String, _>(100, id1.clone());
    let (sender2, receiver2) = channel::<String, _>(100, id2.clone());

    assert!(sender1.is_bound_to(&receiver1));
    assert!(sender2.is_bound_to(&receiver2));
    assert!(!sender1.is_bound_to(&receiver2));
    assert!(!receiver2.is_bound_to(&sender1));
    assert!(sender1 != sender2);
    assert_eq!(receiver1.id(), id1);
}

#[test]
fn bind_wraps_given_tokio_halves_with_the_id() {
    runtime().block_on(async {
        let (tx, rx) = tokio::sync::mpsc::channel::<u8>(4);
        let (sender, mut receiver): (SmartSender<u8, u64>, SmartReceiver<u8, u64>) =
            bind(tx, rx, 7);
        assert_eq!(*sender.id(), 7);
        assert_eq!(receiver.id(), 7);
        assert!(sender.is_bound_to(&receiver));
        sender.inner().send(3).await.unwrap();
        assert_eq!(receiver.inner_mut().recv().await, Some(3));
    });
}
