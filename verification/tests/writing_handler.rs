use async_forge::error::DispatchError;
use async_forge::smart_channel::{channel, SmartSender};
use async_forge::writing_handler::{settle_writings, WritingHandler, WritingOutcome};
use std::sync::Arc;
use std::time::Duration;

const TEST_ID: u64 = 1;

fn runtime() -> tokio::runtime::Runtime {
    tokio::runtime::Builder::new_multi_thread()
        .worker_threads(2)
        .enable_all()
        .build()
        .unwrap()
}

fn new_arc_broadcast<M: Send + Sync + 'static>(
    msg: M,
    senders: &[SmartSender<Arc<M>, u64>],
) -> WritingHandler<Arc<M>> {
    let msg = Arc::new(msg);
    WritingHandler::from_handles(
        senders
            .iter()
            .map(|sender| {
                let msg = Arc::clone(&msg);
                let sender = sender.clone();
                tokio::spawn(async move { sender.send(msg).await })
            })
            .collect(),
    )
}

fn new_cloning_broadcast<M: Clone + Send + 'static>(
    msg: &M,
    senders: &[SmartSender<M, u64>],
) -> WritingHandler<M> {
    WritingHandler::from_handles(
        senders
            .iter()
            .map(|sender| {
                let msg = msg.clone();
                let sender = sender.clone();
                tokio::spawn(async move { sender.send(msg).await })
            })
            .collect(),
    )
}

async fn wait<M: Send + 'static>(
    handler: WritingHandler<M>,
    duration: Option<Duration>,
) -> Result<usize, DispatchError<M, ()>> {
    let mut outcomes = Vec::new();
    for handle in handler.into_handles() {
        let outcome = match duration {
            Some(d) => match tokio::time::timeout(d, handle).await {
                Ok(Ok(Ok(()))) => WritingOutcome::Delivered,
                Ok(Ok(Err(e))) => WritingOutcome::SendFailed(e),
                Ok(Err(e)) => WritingOutcome::JoinFailed(e),
                Err(_) => WritingOutcome::TimedOut(d),
            },
            None => match handle.await {
                Ok(Ok(())) => WritingOutcome::Delivered,
                Ok(Err(e)) => WritingOutcome::SendFailed(e),
                Err(e) => WritingOutcome::JoinFailed(e),
            },
        };
        outcomes.push(outcome);
    }
    settle_writings(outcomes)
}

#[test]
fn test_empty_handler_wait() {
    runtime().block_on(async {
        let handler: WritingHandler<String> = WritingHandler::empty();
        let result = wait(handler, None).await;
        assert_eq!(result.unwrap(), 0);
    });
}

#[test]
fn test_handler_len() {
    runtime().block_on(async {
        let handler: WritingHandler<String> = WritingHandler::empty();
        assert_eq!(handler.len(), 0);
        assert!(handler.is_empty());
        let (tx1, _) = channel(10, TEST_ID);
        let (tx2, _) = channel(10, TEST_ID);

        let message = "Hello from Arc!";
        let handler = new_arc_broadcast(message, &[tx1, tx2]);
        assert!(handler.len() == 2)
    });
}

#[test]
fn test_arc_broadcast_success() {
    runtime().block_on(async {
        let (tx1, mut rx1) = channel(10, TEST_ID);
        let (tx2, mut rx2) = channel(10, TEST_ID);

        let message = "Hello from Arc!";
        let handler = new_arc_broadcast(message, &[tx1, tx2]);
        wait(handler, None).await.unwrap();

        assert_eq!(rx1.recv().await.unwrap(), Arc::new("Hello from Arc!"));
        assert_eq!(rx2.recv().await.unwrap(), Arc::new("Hello from Arc!"));
    });
}

#[test]
fn test_cloning_broadcast_success() {
    runtime().block_on(async {
        let (tx1, mut rx1) = channel(10, TEST_ID);
        let (tx2, mut rx2) = channel(10, TEST_ID);

        let message = "Hello from Arc!".to_string();
        let handler = new_cloning_broadcast(&message, &[tx1, tx2]);
        wait(handler, None).await.unwrap();

        assert_eq!(rx1.recv().await.unwrap(), String::from("Hello from Arc!"));
        assert_eq!(rx2.recv().await.unwrap(), String::from("Hello from Arc!"));
    });
}

#[test]
fn test_timeout_error() {
    runtime().block_on(async {
        let (tx1, _rx1) = channel(1, TEST_ID);

        let valid_handler =
            new_cloning_broadcast(&"Message should pass".to_string(), &[tx1.clone()]);
        wait(valid_handler, None).await.unwrap();

        let err_handler =
            new_cloning_broadcast(&"Message should not pass".to_string(), &[tx1.clone()]);

        let result = wait(err_handler, Some(Duration::from_millis(500))).await;
        assert!(result.is_err());

        if let Err(DispatchError::WritingSendError(errors)) = result {
            assert!(errors.len() == 1);
            assert!(matches!(errors[0], DispatchError::WritingTimeout(_)));
        } else {
            panic!("Expected timeout error.");
        }
    });
}

#[test]
fn test_send_error() {
    runtime().block_on(async {
        let (tx, _) = channel(10, TEST_ID);

        let handler = new_cloning_broadcast(&"Join test".to_string(), &[tx]);

        let result = wait(handler, None).await;
        assert!(result.is_err());
        if let Err(DispatchError::WritingSendError(errors)) = result {
            assert!(matches!(errors[0], DispatchError::SendingError(_)));
        } else {
            panic!("Expected join error.");
        }
    });
}

#[test]
fn test_multiple_errors() {
    runtime().block_on(async {
        let (tx1, _) = channel(10, TEST_ID);
        let (tx2, _) = channel(10, TEST_ID);

        let handler = new_cloning_broadcast(&"Multi-error test".to_string(), &[tx1, tx2]);

        let result = wait(handler, None).await;
        assert!(result.is_err());
        if let Err(DispatchError::WritingSendError(errors)) = result {
            assert_eq!(errors.len(), 2);
        } else {
            panic!("Expected multiple send errors.");
        }
    });
}

#[test]
fn test_no_error_with_successful_senders() {
    runtime().block_on(async {
        let (tx, mut rx) = channel(10, TEST_ID);

        let handler = new_cloning_broadcast(&"Success message".to_string(), &[tx]);
        tokio::spawn(async move {
            let _ = rx.recv().await;
        });

        let result = wait(handler, None).await;
        assert!(result.is_ok());
    });
}

#[test]
fn settle_counts_delivered_writings() {
    let outcomes: Vec<WritingOutcome<u8>> = vec![
        WritingOutcome::Delivered,
        WritingOutcome::Delivered,
        WritingOutcome::Delivered,
    ];
    assert_eq!(settle_writings(outcomes).unwrap(), 3);
}

#[test]
fn settle_keeps_errors_in_order() {
    let outcomes: Vec<WritingOutcome<u8>> = vec![
        WritingOutcome::TimedOut(Duration::from_millis(7)),
        WritingOutcome::Delivered,
        WritingOutcome::SendFailed(tokio::sync::mpsc::error::SendError(9)),
    ];
    match settle_writings(outcomes) {
        Err(DispatchError::WritingSendError(errors)) => {
            assert_eq!(errors.len(), 2);
            assert!(matches!(errors[0], DispatchError::WritingTimeout(d) if d == Duration::from_millis(7)));
            assert!(matches!(errors[1], DispatchError::SendingError(tokio::sync::mpsc::error::SendError(9))));
        }
        _ => panic!("expected the writing errors"),
    }
}

#[test]
fn handles_round_trip_through_the_handler() {
    runtime().block_on(async {
        let (tx, mut rx) = channel(10, TEST_ID);
        let handler = new_cloning_broadcast(&5u32, &[tx.clone(), tx]);
        assert_eq!(handler.len(), 2);
        assert!(!handler.is_empty());
        let handles = handler.into_handles();
        assert_eq!(handles.len(), 2);
        for h in handles {
            h.await.unwrap().unwrap();
        }
        assert_eq!(rx.recv().await, Some(5));
        assert_eq!(rx.recv().await, Some(5));
    });
}

#[test]
fn a_writing_that_panics_gives_a_joining_error() {
    runtime().block_on(async {
        let handle: async_forge::writing_handler::Handler<u8> = tokio::spawn(async {
            if true {
                panic!("the writing task stops");
            }
            Ok(())
        });
        let handler = WritingHandler::from_handles(vec![handle]);
        match wait(handler, None).await {
            Err(DispatchError::WritingSendError(errors)) => {
                assert_eq!(errors.len(), 1);
                assert!(matches!(errors[0], DispatchError::JoiningError(_)));
            }
            _ => panic!("expected a joining error"),
        }
    });
}
