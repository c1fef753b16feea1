use async_forge::forge_error::ForgeError;
use async_forge::task_book::OpId;
use async_forge::task_forge::{
    creation_outcome, new_channel, sent_outcome, settle_ending, waited_outcome, ForgeState,
    ForgeTaskEnded, TaskInterface, TaskTrait,
};
use std::sync::Arc;
use tokio::sync::mpsc::{channel, Receiver, Sender};

fn runtime() -> tokio::runtime::Runtime {
    tokio::runtime::Builder::new_multi_thread()
        .worker_threads(2)
        .enable_all()
        .build()
        .unwrap()
}

/// Takes the next output a task handed to the forge, ends the task in the
/// forge and delivers the result to the listeners, as the forge's listening
/// loop does.
async fn handle_next<M, O>(
    forge: &mut ForgeState<M, O>,
    ended: &mut Receiver<(OpId, O)>,
) -> Result<bool, ForgeError> {
    let (id, output) = ended.recv().await.unwrap();
    let notified = match forge.handle_ending_task(id)? {
        None => None,
        Some(notifier) => Some(notifier.send(()).await.is_ok()),
    };
    let has_cleared = settle_ending(notified)?;
    let output = Arc::new(output);
    let mut delivered = Vec::new();
    for listener in forge.result_listeners() {
        let result = ForgeTaskEnded { output: Arc::clone(&output), id, has_cleared };
        delivered.push(listener.send(result).await.is_ok());
    }
    forge.keep_listeners(&delivered);
    Ok(has_cleared)
}

struct EchoTask;

impl TaskTrait<String, String, String> for EchoTask {
    fn begin(_: String, task_interface: TaskInterface<String>) -> Sender<String> {
        let (sender, mut receiver) = channel(1);
        tokio::spawn(async move {
            while let Some(input) = receiver.recv().await {
                task_interface
                    .output_sender()
                    .send((task_interface.id(), format!("Echo: {input}")))
                    .await
                    .unwrap();
            }
        });
        sender
    }
}

struct IncrementTask;

impl TaskTrait<u64, u64, u64> for IncrementTask {
    fn begin(init_val: u64, task_interface: TaskInterface<u64>) -> Sender<u64> {
        let (sender, mut receiver) = channel(1);
        tokio::spawn(async move {
            while let Some(val) = receiver.recv().await {
                task_interface
                    .output_sender()
                    .send((task_interface.id(), init_val + val))
                    .await
                    .unwrap();
            }
        });
        sender
    }
}

struct DummyTask;

impl TaskTrait<(), String, String> for DummyTask {
    fn begin(_: (), task_interface: TaskInterface<String>) -> Sender<String> {
        let (sender, _) = channel(1);
        tokio::spawn(async move {
            tokio::time::sleep(tokio::time::Duration::from_millis(10)).await;
            let _ = task_interface
                .output_sender()
                .send((task_interface.id(), "Completed".to_string()))
                .await;
        });
        sender
    }
}

#[test]
fn test_simple_task_execution() {
    runtime().block_on(async {
        let (mut forge, mut ended) = ForgeState::<String, String>::new();
        let task_id = 1;
        let waiters = forge
            .new_task::<EchoTask, _>(task_id, "Hello".to_string())
            .unwrap();
        assert!(waiters.is_empty());
        let sender = forge.send(task_id).unwrap().clone();
        let delivered = sender.send("Hello again!".to_string()).await.is_ok();
        sent_outcome(task_id, delivered).unwrap();

        let mut result_receiver = forge.new_result_redirection();
        handle_next(&mut forge, &mut ended).await.unwrap();
        let result = result_receiver.recv().await.unwrap();
        assert_eq!(result.output.as_ref(), "Echo: Hello again!");
    });
}

#[test]
fn test_task_does_not_exist() {
    let (forge, _) = ForgeState::<String, String>::new();
    let task_id = 999;
    let result = forge.send(task_id);

    assert!(matches!(result, Err(ForgeError::TaskNotExist(_))));
}

#[test]
fn test_forge_cleaning() {
    runtime().block_on(async {
        let (mut forge, mut ended) = ForgeState::<String, String>::new();

        let none_cleaner = forge.clean(None);
        assert!(none_cleaner.is_none());

        let awaited = 200;
        for i in 0..awaited {
            forge.new_task::<DummyTask, _>(i, ()).unwrap();
        }

        let cleaner = forge.clean(Some(awaited as usize));
        assert!(cleaner.is_some());
        let mut cleaner = cleaner.unwrap();
        let mut cleared = false;
        for _ in 0..awaited {
            cleared = handle_next(&mut forge, &mut ended).await.unwrap();
        }
        assert!(cleared);
        cleaner.recv().await;

        let none_cleaner = forge.clean(None);
        assert!(none_cleaner.is_none());
    });
}

#[test]
fn test_send_concurrent_tasks() {
    runtime().block_on(async {
        let (mut forge, mut ended) = ForgeState::<u64, u64>::new();

        for i in 0..5 {
            forge.new_task::<IncrementTask, _>(i, i).unwrap();
            forge.send(i).unwrap().send(10).await.unwrap();
        }

        let mut result_receiver = forge.new_result_redirection();
        for _ in 0..5 {
            handle_next(&mut forge, &mut ended).await.unwrap();
            let result = result_receiver.recv().await.unwrap();
            assert_eq!(result.output.as_ref(), &(result.id + 10));
        }
    });
}

/// Waits for the creation of the task, then sends it the message, as the
/// forge's `wait_and_send` does.
async fn wait_then_send(
    forge: Arc<tokio::sync::Mutex<ForgeState<u64, u64>>>,
    id: OpId,
    msg: u64,
) -> Result<(), ForgeError> {
    let wait = forge.lock().await.wait_for_task_creation(id)?;
    let notified = match wait {
        None => true,
        Some(mut receiver) => receiver.recv().await.is_some(),
    };
    let sender = forge.lock().await.send_after_wait(id, notified)?.clone();
    sent_outcome(id, sender.send(msg).await.is_ok())
}

#[test]
fn test_wait_and_send_concurrent_tasks() {
    runtime().block_on(async {
        let (forge, mut ended) = ForgeState::<u64, u64>::new();
        let forge = Arc::new(tokio::sync::Mutex::new(forge));

        let mut sends = Vec::new();
        for i in 0..5 {
            let forge = Arc::clone(&forge);
            sends.push(tokio::spawn(async move { wait_then_send(forge, i, 10).await.unwrap() }));
        }

        tokio::time::sleep(tokio::time::Duration::from_millis(10)).await;

        for i in 0..5 {
            let waiters = forge.lock().await.new_task::<IncrementTask, _>(i, i).unwrap();
            let mut delivered = Vec::new();
            for w in waiters {
                delivered.push(w.send(()).await.is_ok());
            }
            creation_outcome(i, &delivered).unwrap();
        }

        let mut result_receiver = forge.lock().await.new_result_redirection();
        for send in sends {
            send.await.unwrap();
        }

        for _ in 0..5 {
            handle_next(&mut *forge.lock().await, &mut ended).await.unwrap();
            let result = result_receiver.recv().await.unwrap();
            assert_eq!(result.output.as_ref(), &(result.id + 10));
        }
    });
}

#[test]
fn task_interface_carries_the_id_and_the_forge_output_channel() {
    runtime().block_on(async {
        let (forge, mut ended) = ForgeState::<u64, u64>::new();
        let interface = forge.task_interface(9);
        assert_eq!(interface.id(), 9);
        interface.output_sender().send((interface.id(), 81)).await.unwrap();
        assert_eq!(ended.recv().await, Some((9, 81)));
    });
}

#[test]
fn start_task_records_the_given_sender() {
    runtime().block_on(async {
        let (mut forge, _ended) = ForgeState::<u64, u64>::new();
        let mut wait = forge.wait_for_task_creation(4).unwrap().unwrap();
        let (sender, mut receiver) = channel::<u64>(2);
        let waiters = forge.start_task(4, sender.clone());
        assert_eq!(waiters.len(), 1);
        for w in waiters {
            w.send(()).await.unwrap();
        }
        assert!(wait.recv().await.is_some());
        assert!(forge.send(4).unwrap().same_channel(&sender));
        forge.send(4).unwrap().send(12).await.unwrap();
        assert_eq!(receiver.recv().await, Some(12));
        assert!(matches!(forge.wait_for_task_creation(4), Ok(None)));
    });
}

#[test]
fn running_task_cannot_be_created_twice_but_closed_one_can() {
    runtime().block_on(async {
        let (mut forge, mut ended) = ForgeState::<u64, u64>::new();
        forge.new_task::<IncrementTask, _>(3, 1).unwrap();
        assert!(matches!(
            forge.new_task::<IncrementTask, _>(3, 1),
            Err(ForgeError::TaskAlreadyExists(3))
        ));
        forge.send(3).unwrap().send(1).await.unwrap();
        assert_eq!(handle_next(&mut forge, &mut ended).await, Ok(false));
        assert!(forge.is_empty());
        assert!(matches!(forge.send(3), Err(ForgeError::TaskNotExist(3))));
        assert!(matches!(
            forge.wait_for_task_creation(3),
            Err(ForgeError::TaskClosed(3))
        ));
        assert!(forge.new_task::<IncrementTask, _>(3, 1).is_ok());
        assert!(!forge.is_empty());
        assert!(matches!(forge.wait_for_task_creation(3), Ok(None)));
    });
}

#[test]
fn ending_a_closed_task_is_refused() {
    let (mut forge, _) = ForgeState::<u64, u64>::new();
    assert!(matches!(forge.handle_ending_task(8), Err(ForgeError::TaskClosed(8))));
}

#[test]
fn listeners_that_are_gone_are_dropped() {
    let (mut forge, _) = ForgeState::<u64, u64>::new();
    let _kept = forge.new_result_redirection();
    let gone = forge.new_result_redirection();
    drop(gone);
    assert_eq!(forge.result_listeners().len(), 2);
    forge.keep_listeners(&vec![true, false]);
    assert_eq!(forge.result_listeners().len(), 1);
}

#[test]
fn outcomes_map_to_forge_errors() {
    assert_eq!(settle_ending(None), Ok(false));
    assert_eq!(settle_ending(Some(true)), Ok(true));
    assert_eq!(settle_ending(Some(false)), Err(ForgeError::CleaningNotifierError));
    assert_eq!(creation_outcome(4, &vec![true, true]), Ok(()));
    assert_eq!(
        creation_outcome(4, &vec![true, false]),
        Err(ForgeError::TaskCreationSendingError(4))
    );
    assert_eq!(waited_outcome(5, true), Ok(()));
    assert_eq!(waited_outcome(5, false), Err(ForgeError::FailedToWaitCreation(5)));
    assert_eq!(sent_outcome(6, false), Err(ForgeError::SendError(6)));
}

#[test]
fn new_channel_carries_messages() {
    runtime().block_on(async {
        let (tx, mut rx) = new_channel::<u8>();
        tx.send(1).await.unwrap();
        assert_eq!(rx.recv().await, Some(1));
        assert_eq!(tx.max_capacity(), 100);
    });
}

#[test]
fn cleaning_without_awaited_ends_with_the_last_task() {
    runtime().block_on(async {
        let (mut forge, mut ended) = ForgeState::<u64, u64>::new();
        forge.new_task::<IncrementTask, _>(1, 0).unwrap();
        forge.new_task::<IncrementTask, _>(2, 0).unwrap();
        let mut cleaner = forge.clean(None).unwrap();
        assert!(!forge.should_clear());
        forge.send(1).unwrap().send(1).await.unwrap();
        assert_eq!(handle_next(&mut forge, &mut ended).await, Ok(false));
        forge.send(2).unwrap().send(1).await.unwrap();
        assert_eq!(handle_next(&mut forge, &mut ended).await, Ok(true));
        assert!(cleaner.recv().await.is_some());
        assert!(forge.wait_for_task_creation(1).unwrap().is_some());
    });
}

#[test]
fn cleaning_an_empty_forge_drops_the_creation_waiters() {
    runtime().block_on(async {
        let (mut forge, _ended) = ForgeState::<u64, u64>::new();
        let mut wait = forge.wait_for_task_creation(6).unwrap().unwrap();
        assert!(forge.clean(None).is_none());
        assert!(wait.recv().await.is_none());
        assert_eq!(waited_outcome(6, false), Err(ForgeError::FailedToWaitCreation(6)));
    });
}

#[test]
fn send_after_wait_follows_the_wait_and_the_task_state() {
    let rt = runtime();
    let _guard = rt.enter();
    let (mut forge, _ended) = ForgeState::<u64, u64>::new();
    assert!(matches!(forge.send_after_wait(2, false), Err(ForgeError::FailedToWaitCreation(2))));
    assert!(matches!(forge.send_after_wait(2, true), Err(ForgeError::TaskNotExist(2))));
    forge.new_task::<IncrementTask, _>(2, 0).unwrap();
    let sender = forge.send_after_wait(2, true).unwrap();
    assert!(sender.same_channel(forge.send(2).unwrap()));
}

#[test]
fn a_finished_cleaning_is_told_once() {
    runtime().block_on(async {
        let (mut forge, mut ended) = ForgeState::<u64, u64>::new();
        forge.new_task::<IncrementTask, _>(1, 0).unwrap();
        let mut cleaner = forge.clean(None).unwrap();
        forge.send(1).unwrap().send(1).await.unwrap();
        assert_eq!(handle_next(&mut forge, &mut ended).await, Ok(true));
        assert!(cleaner.recv().await.is_some());
        forge.new_task::<IncrementTask, _>(2, 0).unwrap();
        forge.send(2).unwrap().send(1).await.unwrap();
        assert_eq!(handle_next(&mut forge, &mut ended).await, Ok(false));
        assert!(cleaner.recv().await.is_none());
    });
}
