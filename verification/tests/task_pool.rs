use async_forge::task_book::OpId;
use async_forge::task_pool::{
    creation_outcome, sent_outcome, settle_ending, waited_outcome, PoolError, PoolState,
    PoolTaskEnded, PoolWait, TaskTrait,
};
use tokio::sync::mpsc::{channel, Receiver, Sender};

fn runtime() -> tokio::runtime::Runtime {
    tokio::runtime::Builder::new_multi_thread()
        .worker_threads(2)
        .enable_all()
        .build()
        .unwrap()
}

async fn handle_next<M, O: Clone>(
    pool: &mut PoolState<M, O>,
    ended: &mut Receiver<(OpId, O)>,
) -> Result<bool, PoolError> {
    let (id, output) = ended.recv().await.unwrap();
    let notified = match pool.handle_ending_process(id)? {
        None => None,
        Some(notifier) => Some(notifier.send(()).await.is_ok()),
    };
    let has_cleared = settle_ending(notified)?;
    let mut delivered = Vec::new();
    for listener in pool.result_listeners() {
        let result = PoolTaskEnded { output: output.clone(), id, has_cleared };
        delivered.push(listener.send(result).await.is_ok());
    }
    pool.keep_listeners(&delivered);
    Ok(has_cleared)
}

struct Doubler;

impl TaskTrait<u64, u64, u64> for Doubler {
    fn begin(offset: u64, output_sender: Sender<(OpId, u64)>) -> Sender<u64> {
        let (sender, mut receiver) = channel(4);
        tokio::spawn(async move {
            while let Some(val) = receiver.recv().await {
                let _ = output_sender.send((offset, 2 * val)).await;
            }
        });
        sender
    }
}

#[test]
fn pool_process_output_reaches_listeners() {
    runtime().block_on(async {
        let (mut pool, mut ended) = PoolState::<u64, u64>::new();
        pool.new_process::<Doubler, _>(7, 7).unwrap();
        let mut results = pool.new_result_redirection();
        pool.send(7).unwrap().send(21).await.unwrap();
        assert_eq!(handle_next(&mut pool, &mut ended).await, Ok(false));
        let result = results.recv().await.unwrap();
        assert_eq!((result.id, result.output, result.has_cleared), (7, 42, false));
        assert!(pool.is_empty());
    });
}

#[test]
fn pool_wait_and_send_decisions() {
    runtime().block_on(async {
        let (mut pool, mut ended) = PoolState::<u64, u64>::new();
        let mut wait = match pool.wait_and_send(1) {
            Ok(PoolWait::Wait(receiver)) => receiver,
            _ => panic!("the process is not created yet"),
        };
        let waiters = pool.new_process::<Doubler, _>(1, 1).unwrap();
        let mut delivered = Vec::new();
        for w in waiters {
            delivered.push(w.send(()).await.is_ok());
        }
        assert_eq!(creation_outcome(1, &delivered), Ok(()));
        assert_eq!(waited_outcome(1, wait.recv().await.is_some()), Ok(()));
        let sender = pool.send_after_wait(1, true).unwrap().clone();
        assert_eq!(sent_outcome(1, sender.send(5).await.is_ok()), Ok(()));
        assert_eq!(ended.recv().await, Some((1, 10)));
        assert!(matches!(pool.handle_ending_process(1), Ok(None)));

        pool.new_process::<Doubler, _>(1, 1).unwrap();
        match pool.wait_and_send(1) {
            Ok(PoolWait::Send(sender)) => {
                assert!(sender.same_channel(pool.send(1).unwrap()));
                assert_eq!(sent_outcome(1, sender.send(6).await.is_ok()), Ok(()));
            }
            _ => panic!("the process runs"),
        }
        assert_eq!(handle_next(&mut pool, &mut ended).await, Ok(false));
        assert!(matches!(pool.wait_and_send(1), Err(PoolError::TaskClosed(1))));
    });
}

#[test]
fn pool_cleaning_awaits_the_given_number() {
    runtime().block_on(async {
        let (mut pool, mut ended) = PoolState::<u64, u64>::new();
        assert!(pool.clean(0).is_none());
        for i in 0..3 {
            pool.new_process::<Doubler, _>(i, i).unwrap();
        }
        let mut cleaner = pool.clean(3).unwrap();
        for i in 0..3 {
            pool.send(i).unwrap().send(1).await.unwrap();
        }
        let mut cleared = Vec::new();
        for _ in 0..3 {
            cleared.push(handle_next(&mut pool, &mut ended).await.unwrap());
        }
        assert_eq!(cleared, vec![false, false, true]);
        assert!(cleaner.recv().await.is_some());
    });
}

#[test]
fn pool_refuses_running_duplicates_and_unknown_processes() {
    let rt = runtime();
    let _guard = rt.enter();
    let (mut pool, _) = PoolState::<u64, u64>::new();
    pool.new_process::<Doubler, _>(1, 1).unwrap();
    assert!(matches!(
        pool.new_process::<Doubler, _>(1, 1),
        Err(PoolError::TaskAlreadyExists(1))
    ));
    assert!(matches!(pool.send(2), Err(PoolError::TaskNotExist(2))));
    assert!(matches!(pool.handle_ending_process(2), Err(PoolError::TaskClosed(2))));
    assert_eq!(settle_ending(Some(false)), Err(PoolError::CleaningNotifierError));
    assert_eq!(waited_outcome(3, false), Err(PoolError::FailedToWaitCreation(3)));
    assert_eq!(sent_outcome(3, false), Err(PoolError::SendError(3)));
}

#[test]
fn pool_output_sender_copy_reaches_the_pool() {
    runtime().block_on(async {
        let (pool, mut ended) = PoolState::<u64, u64>::new();
        let output = pool.output_sender_copy();
        output.send((5, 25)).await.unwrap();
        assert_eq!(ended.recv().await, Some((5, 25)));
    });
}

#[test]
fn start_process_records_the_given_sender() {
    runtime().block_on(async {
        let (mut pool, _ended) = PoolState::<u64, u64>::new();
        let mut wait = match pool.wait_and_send(2) {
            Ok(PoolWait::Wait(receiver)) => receiver,
            _ => panic!("the process is not created yet"),
        };
        let (sender, mut receiver) = channel::<u64>(2);
        let waiters = pool.start_process(2, sender.clone());
        assert_eq!(waiters.len(), 1);
        for w in waiters {
            w.send(()).await.unwrap();
        }
        assert!(wait.recv().await.is_some());
        assert!(pool.send(2).unwrap().same_channel(&sender));
        pool.send(2).unwrap().send(3).await.unwrap();
        assert_eq!(receiver.recv().await, Some(3));
    });
}

#[test]
fn cleaning_an_empty_pool_drops_the_creation_waiters() {
    runtime().block_on(async {
        let (mut pool, _ended) = PoolState::<u64, u64>::new();
        let mut wait = match pool.wait_and_send(3) {
            Ok(PoolWait::Wait(receiver)) => receiver,
            _ => panic!("the process is not created yet"),
        };
        assert!(pool.clean(0).is_none());
        assert!(wait.recv().await.is_none());
        assert_eq!(waited_outcome(3, false), Err(PoolError::FailedToWaitCreation(3)));
    });
}

#[test]
fn pool_send_after_wait_follows_the_wait_and_the_process_state() {
    let rt = runtime();
    let _guard = rt.enter();
    let (mut pool, _ended) = PoolState::<u64, u64>::new();
    assert!(matches!(pool.send_after_wait(4, false), Err(PoolError::FailedToWaitCreation(4))));
    assert!(matches!(pool.send_after_wait(4, true), Err(PoolError::SendError(4))));
    pool.new_process::<Doubler, _>(4, 4).unwrap();
    let sender = pool.send_after_wait(4, true).unwrap();
    assert!(sender.same_channel(pool.send(4).unwrap()));
}
