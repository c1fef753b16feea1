//! The state behind a task pool: the task book, the sender the processes
//! hand their output to, and the listeners of the processes' results.
//!
//! Each operation of the pool is split here into what it decides, with the
//! sends that it leaves to the caller, and what the outcome of those sends
//! makes of the result.

use crate::channel_table::{lemma_select_from, select};
use crate::mpsc::{bounded_channel, channel_halves, lemma_buffer_bound};
use crate::task_book::{OpId, TaskBook, TaskFault, TaskState, NOTIFICATION_CHANNEL_SIZE};
use tokio::sync::mpsc::Receiver as TokioReceiver;
use tokio::sync::mpsc::Sender as TokioSender;
use vstd::prelude::*;

verus! {

/// What can go wrong in a task pool.
#[derive(Debug, Clone, Copy, PartialEq, Eq, Structural)]
pub enum PoolError {
    /// Sending a message to the process failed.
    SendError(OpId),
    /// Receiving a message failed.
    ReceiveError,
    /// The process is already closed.
    TaskClosed(OpId),
    /// The process could not be created.
    TaskCreationError(OpId),
    /// The end of a cleaning could not be told.
    CleaningNotifierError,
    /// The process already exists and is running.
    TaskAlreadyExists(OpId),
    /// A waiter of the process's creation could not be told.
    TaskCreationSendingError(OpId),
    /// Waiting for the creation of the process failed.
    FailedToWaitCreation(OpId),
    /// No running process has this identifier.
    TaskNotExist(OpId),
    /// Every handle to the pool is gone.
    End,
}

pub type PoolResult<T> = Result<T, PoolError>;

impl PoolError {
    /// The pool error for a refusal of the task book about process `id`.
    pub fn from_fault(fault: TaskFault, id: OpId) -> (error: PoolError)
        ensures
            error == match fault {
                TaskFault::AlreadyRunning => PoolError::TaskAlreadyExists(id),
                TaskFault::Closed => PoolError::TaskClosed(id),
            },
    {
        match fault {
            TaskFault::AlreadyRunning => PoolError::TaskAlreadyExists(id),
            TaskFault::Closed => PoolError::TaskClosed(id),
        }
    }
}

/// The size of the channel the tasks hand their output to.
pub const END_TASK_CHANNEL_SIZE: usize = 100;

/// The result of a completed process: its output, its identifier, and
/// whether its end finished a cleaning of the pool.
#[derive(Clone)]
pub struct PoolTaskEnded<Output> {
    pub output: Output,
    pub id: OpId,
    pub has_cleared: bool,
}

pub type OutputSender<Output> = TokioSender<PoolTaskEnded<Output>>;

pub type OutputReceiver<Output> = TokioReceiver<PoolTaskEnded<Output>>;

/// A process a pool can start: `begin` starts it with its argument and the
/// sender on which it hands its output, with its identifier, to the pool,
/// and returns the sender of its messages.  Implemented by the users of the
/// pool.
pub trait TaskTrait<Arg, Message, Output> {
    fn begin(arg: Arg, output_sender: TokioSender<(OpId, Output)>) -> TokioSender<Message>;
}

/// Where waiting-and-sending to a process stands: the process runs and the
/// message goes to its sender, or the caller waits on the receiver for its
/// creation.
#[verifier::reject_recursive_types(Message)]
pub enum PoolWait<Message> {
    Send(TokioSender<Message>),
    Wait(TokioReceiver<()>),
}

/// The state of a task pool.
#[verifier::reject_recursive_types(Message)]
#[verifier::reject_recursive_types(Output)]
pub struct PoolState<Message, Output> {
    book: TaskBook<Message>,
    end_task_sender: TokioSender<(OpId, Output)>,
    output_result_senders: Vec<OutputSender<Output>>,
}

impl<Message, Output> PoolState<Message, Output> {
    /// The task book of the pool.
    pub closed spec fn book(&self) -> TaskBook<Message> {
        self.book
    }

    /// The senders of the listeners of the tasks' results.
    pub closed spec fn listeners(&self) -> Seq<OutputSender<Output>> {
        self.output_result_senders@
    }

    /// The sender on which every process of the pool hands its output.
    pub closed spec fn end_sender(&self) -> TokioSender<(OpId, Output)> {
        self.end_task_sender
    }

    /// The book is well formed, and a cleaning of the pool always awaits a
    /// number of processes.
    pub open spec fn wf(&self) -> bool {
        &&& self.book().wf()
        &&& self.book().cleaning_awaited() is Some ==> self.book().cleaning_awaited()->0 is Some
    }

    /// An empty pool, with the receiver of the channel on which its tasks
    /// hand their output.
    pub fn new() -> (made: (Self, TokioReceiver<(OpId, Output)>))
        ensures
            made.0.wf(),
            channel_halves(END_TASK_CHANNEL_SIZE, made.0.end_sender(), made.1),
            made.0.book().task_ids().is_empty(),
            made.0.book().states() == Map::<OpId, TaskState>::empty(),
            forall|id: OpId| #[trigger] made.0.book().waiters(id).len() == 0,
            made.0.book().cleaning_awaited() is None,
            made.0.listeners().len() == 0,
    {
        proof {
            lemma_buffer_bound();
        }
        let (end_task_sender, receiver) = bounded_channel(END_TASK_CHANNEL_SIZE);
        let book = TaskBook::new();
        proof {
            assert(book.task_ids() =~= Set::<OpId>::empty());
        }
        (PoolState { book, end_task_sender, output_result_senders: Vec::new() }, receiver)
    }

    /// Whether the pool's cleaning is over.
    pub fn should_clear(&self) -> (due: bool)
        ensures
            due == self.book().clear_due(),
    {
        self.book.should_clear()
    }

    /// Removes an ended task from the pool (see `TaskBook::end_task`).
    /// Returns the cleaning notifier when the end finished a cleaning; the
    /// caller tells it, then settles the outcome with `settle_ending`.
    /// Fails with `TaskClosed` when the task does not run.
    pub fn handle_ending_process(&mut self, ending_process: OpId) -> (ended: PoolResult<
        Option<TokioSender<()>>,
    >)
        requires
            old(self).wf(),
        ensures
            final(self).wf(),
            final(self).end_sender() == old(self).end_sender(),
            final(self).listeners() == old(self).listeners(),
            !old(self).book().is_running(ending_process) ==> ended == Err::<
                Option<TokioSender<()>>,
                PoolError,
            >(PoolError::TaskClosed(ending_process)) && *final(self) == *old(self),
            ended matches Ok(Some(_)) ==> {
                &&& old(self).book().task_ids() == Set::<OpId>::empty().insert(ending_process)
                &&& match old(self).book().cleaning_awaited() {
                    Some(Some(n)) => old(self).book().states().insert(
                        ending_process,
                        TaskState::Closed,
                    ).len() == n,
                    Some(None) => true,
                    None => false,
                }
            },
            old(self).book().is_running(ending_process) ==> {
                &&& ended is Ok
                &&& final(self).book().task_senders() == old(self).book().task_senders().remove(
                    ending_process,
                )
                &&& old(self).book().ending_clears(ending_process) ==> {
                    &&& ended->Ok_0 == old(self).book().cleaning_notifier()
                    &&& ended->Ok_0 is Some
                    &&& final(self).book().states() == Map::<OpId, TaskState>::empty()
                    &&& forall|w: OpId| #[trigger] final(self).book().waiters(w).len() == 0
                    &&& final(self).book().cleaning_awaited() is None
                }
                &&& !old(self).book().ending_clears(ending_process) ==> {
                    &&& ended->Ok_0 is None
                    &&& final(self).book().states() == old(self).book().states().insert(
                        ending_process,
                        TaskState::Closed,
                    )
                    &&& forall|w: OpId| #[trigger] final(self).book().waiters(w) == old(
                        self,
                    ).book().waiters(w)
                    &&& final(self).book().cleaning_awaited() == old(self).book().cleaning_awaited()
                    &&& final(self).book().cleaning_notifier() == old(
                        self,
                    ).book().cleaning_notifier()
                }
            },
    {
        match self.book.end_task(ending_process) {
            Ok(notifier) => Ok(notifier),
            Err(fault) => Err(PoolError::from_fault(fault, ending_process)),
        }
    }

    /// A handle to the sender of the pool's output channel, for a process
    /// that begins.
    pub fn output_sender_copy(&self) -> (sender: TokioSender<(OpId, Output)>)
        ensures
            sender == self.end_sender(),
    {
        self.end_task_sender.clone()
    }

    /// Records the process that `Task::begin` started, with the sender of
    /// its messages, as running (see `TaskBook::start`), and hands back the
    /// senders to the waiters of its creation.
    pub fn start_process(&mut self, id: OpId, sender: TokioSender<Message>) -> (waiters: Vec<
        TokioSender<()>,
    >)
        requires
            old(self).wf(),
            !old(self).book().is_running(id),
        ensures
            final(self).wf(),
            final(self).end_sender() == old(self).end_sender(),
            final(self).listeners() == old(self).listeners(),
            final(self).book().task_senders() == old(self).book().task_senders().insert(id, sender),
            final(self).book().states() == old(self).book().states().insert(
                id,
                TaskState::Running,
            ),
            waiters@ == old(self).book().waiters(id),
            final(self).book().waiters(id).len() == 0,
            forall|other: OpId|
                other != id ==> #[trigger] final(self).book().waiters(other) == old(
                    self,
                ).book().waiters(other),
            final(self).book().cleaning_awaited() == old(self).book().cleaning_awaited(),
            final(self).book().cleaning_notifier() == old(self).book().cleaning_notifier(),
    {
        self.book.start(id, sender)
    }

    /// Starts a process that does not run yet: `Task::begin` gets the
    /// argument and `output_sender_copy()`, and the sender it returns is
    /// recorded by `start_process`.
    /// Returns the senders to the waiters of the task's creation, which the
    /// caller tells, then settles the outcome with `creation_outcome`.
    /// Fails with `TaskAlreadyExists`, changing nothing and starting
    /// nothing, when the task runs; a closed task can be started again.
    pub fn new_process<Task: TaskTrait<TaskArg, Message, Output>, TaskArg>(
        &mut self,
        id: OpId,
        config: TaskArg,
    ) -> (created: PoolResult<Vec<TokioSender<()>>>)
        requires
            old(self).wf(),
        ensures
            final(self).wf(),
            final(self).end_sender() == old(self).end_sender(),
            final(self).listeners() == old(self).listeners(),
            old(self).book().is_running(id) ==> created == Err::<
                Vec<TokioSender<()>>,
                PoolError,
            >(PoolError::TaskAlreadyExists(id)) && *final(self) == *old(self),
            !old(self).book().is_running(id) ==> {
                &&& created is Ok
                &&& created->Ok_0@ == old(self).book().waiters(id)
                &&& final(self).book().task_ids() == old(self).book().task_ids().insert(id)
                &&& exists|sender: TokioSender<Message>|
                    #![trigger call_ensures(Task::begin, (config, old(self).end_sender()), sender)]
                    {
                        &&& call_ensures(Task::begin, (config, old(self).end_sender()), sender)
                        &&& final(self).book().task_senders() == old(
                            self,
                        ).book().task_senders().insert(id, sender)
                    }
                &&& final(self).book().states() == old(self).book().states().insert(
                    id,
                    TaskState::Running,
                )
                &&& final(self).book().waiters(id).len() == 0
                &&& forall|other: OpId|
                    other != id ==> #[trigger] final(self).book().waiters(other) == old(
                        self,
                    ).book().waiters(other)
                &&& final(self).book().cleaning_awaited() == old(self).book().cleaning_awaited()
                &&& final(self).book().cleaning_notifier() == old(self).book().cleaning_notifier()
            },
    {
        if !self.book.can_start(id) {
            return Err(PoolError::TaskAlreadyExists(id));
        }
        let output_sender = self.output_sender_copy();
        let sender = Task::begin(config, output_sender);
        let waiters = self.start_process(id, sender);
        proof {
            assert(self.book().task_ids() =~= old(self).book().task_ids().insert(id));
        }
        Ok(waiters)
    }

    /// What waiting for the process and sending it a message takes: a copy
    /// of the sender of its messages when it runs, a receiver to wait on for
    /// its creation when the pool has not seen it, `TaskClosed` when it has
    /// closed.  Once the creation is told, the caller sends the message
    /// through `send`.
    pub fn wait_and_send(&mut self, id: OpId) -> (wait: PoolResult<PoolWait<Message>>)
        requires
            old(self).wf(),
        ensures
            final(self).wf(),
            final(self).end_sender() == old(self).end_sender(),
            final(self).listeners() == old(self).listeners(),
            !old(self).book().states().contains_key(id) ==> {
                &&& wait matches Ok(PoolWait::Wait(receiver)) && channel_halves(
                    NOTIFICATION_CHANNEL_SIZE,
                    final(self).book().waiters(id).last(),
                    receiver,
                )
                &&& final(self).book().waiters(id).len() == old(self).book().waiters(id).len() + 1
                &&& final(self).book().waiters(id).drop_last() == old(self).book().waiters(id)
                &&& forall|other: OpId|
                    other != id ==> #[trigger] final(self).book().waiters(other) == old(
                        self,
                    ).book().waiters(other)
                &&& final(self).book().task_senders() == old(self).book().task_senders()
                &&& final(self).book().states() == old(self).book().states()
                &&& final(self).book().cleaning_awaited() == old(self).book().cleaning_awaited()
                &&& final(self).book().cleaning_notifier() == old(self).book().cleaning_notifier()
            },
            old(self).book().is_running(id) ==> {
                &&& wait matches Ok(PoolWait::Send(sender)) && sender == old(
                    self,
                ).book().task_senders()[id]
                &&& *final(self) == *old(self)
            },
            old(self).book().states().contains_key(id) && old(self).book().states()[id]
                == TaskState::Closed ==> wait == Err::<PoolWait<Message>, PoolError>(
                PoolError::TaskClosed(id),
            ) && *final(self) == *old(self),
    {
        match self.book.creation_wait(id) {
            Ok(Some(receiver)) => Ok(PoolWait::Wait(receiver)),
            Ok(None) => match self.book.sender_of(id) {
                Some(sender) => Ok(PoolWait::Send(sender.clone())),
                None => Err(PoolError::SendError(id)),
            },
            Err(fault) => Err(PoolError::from_fault(fault, id)),
        }
    }

    /// The sender of the running task's messages; `TaskNotExist` when the
    /// task does not run.
    pub fn send(&self, id: OpId) -> (sender: PoolResult<&TokioSender<Message>>)
        requires
            self.wf(),
        ensures
            self.book().is_running(id) ==> sender is Ok && *sender->Ok_0
                == self.book().task_senders()[id],
            !self.book().is_running(id) ==> sender == Err::<&TokioSender<Message>, PoolError>(
                PoolError::TaskNotExist(id),
            ),
    {
        match self.book.sender_of(id) {
            Some(sender) => Ok(sender),
            None => Err(PoolError::TaskNotExist(id)),
        }
    }

    /// Where sending to process `id` stands once the wait for its creation
    /// is over (`notified`: whether its creation was told): the running
    /// process's sender; `FailedToWaitCreation` when the creation was never
    /// told; `SendError` when the process does not run.
    pub fn send_after_wait(&self, id: OpId, notified: bool) -> (sender: PoolResult<
        &TokioSender<Message>,
    >)
        requires
            self.wf(),
        ensures
            !notified ==> sender == Err::<&TokioSender<Message>, PoolError>(
                PoolError::FailedToWaitCreation(id),
            ),
            notified && self.book().is_running(id) ==> sender is Ok && *sender->Ok_0
                == self.book().task_senders()[id],
            notified && !self.book().is_running(id) ==> sender == Err::<
                &TokioSender<Message>,
                PoolError,
            >(PoolError::SendError(id)),
    {
        if !notified {
            return Err(PoolError::FailedToWaitCreation(id));
        }
        match self.book.sender_of(id) {
            Some(sender) => Ok(sender),
            None => Err(PoolError::SendError(id)),
        }
    }

    /// A new receiver of the results of the tasks that end from now on.
    pub fn new_result_redirection(&mut self) -> (receiver: OutputReceiver<Output>)
        requires
            old(self).wf(),
        ensures
            final(self).wf(),
            final(self).end_sender() == old(self).end_sender(),
            final(self).book() == old(self).book(),
            final(self).listeners().len() == old(self).listeners().len() + 1,
            final(self).listeners().drop_last() == old(self).listeners(),
            channel_halves(NOTIFICATION_CHANNEL_SIZE, final(self).listeners().last(), receiver),
    {
        proof {
            lemma_buffer_bound();
        }
        let (sender, receiver) = bounded_channel(NOTIFICATION_CHANNEL_SIZE);
        self.output_result_senders.push(sender);
        proof {
            assert(self.listeners().drop_last() =~= old(self).listeners());
        }
        receiver
    }

    /// A new receiver told of the task's creation.
    pub fn new_process_notif_receiver(&mut self, id: OpId) -> (receiver: TokioReceiver<()>)
        requires
            old(self).wf(),
        ensures
            final(self).wf(),
            final(self).end_sender() == old(self).end_sender(),
            final(self).listeners() == old(self).listeners(),
            final(self).book().waiters(id).len() == old(self).book().waiters(id).len() + 1,
            final(self).book().waiters(id).drop_last() == old(self).book().waiters(id),
            channel_halves(
                NOTIFICATION_CHANNEL_SIZE,
                final(self).book().waiters(id).last(),
                receiver,
            ),
            forall|other: OpId|
                other != id ==> #[trigger] final(self).book().waiters(other) == old(
                    self,
                ).book().waiters(other),
            final(self).book().task_senders() == old(self).book().task_senders(),
            final(self).book().states() == old(self).book().states(),
            final(self).book().cleaning_awaited() == old(self).book().cleaning_awaited(),
            final(self).book().cleaning_notifier() == old(self).book().cleaning_notifier(),
    {
        self.book.new_notif_receiver(id)
    }

    /// Whether no task runs.
    pub fn is_empty(&self) -> (empty: bool)
        ensures
            empty == self.book().task_ids().is_empty(),
    {
        self.book.is_empty()
    }

    /// Starts a cleaning that awaits `awaited` processes (see
    /// `TaskBook::clean`).
    pub fn clean(&mut self, awaited: usize) -> (notice: Option<TokioReceiver<()>>)
        requires
            old(self).wf(),
        ensures
            final(self).wf(),
            final(self).end_sender() == old(self).end_sender(),
            final(self).listeners() == old(self).listeners(),
            final(self).book().task_senders() == old(self).book().task_senders(),
            old(self).book().task_ids().is_empty() ==> {
                &&& notice is None
                &&& final(self).book().states() == Map::<OpId, TaskState>::empty()
                &&& forall|w: OpId| #[trigger] final(self).book().waiters(w).len() == 0
                &&& final(self).book().cleaning_awaited() == old(self).book().cleaning_awaited()
            },
            !old(self).book().task_ids().is_empty() ==> {
                &&& notice is Some
                &&& final(self).book().cleaning_notifier() is Some
                &&& channel_halves(
                    NOTIFICATION_CHANNEL_SIZE,
                    final(self).book().cleaning_notifier()->0,
                    notice->0,
                )
                &&& final(self).book().cleaning_awaited() == Some(Some(awaited))
                &&& final(self).book().states() == old(self).book().states()
                &&& forall|w: OpId| #[trigger] final(self).book().waiters(w) == old(
                    self,
                ).book().waiters(w)
            },
    {
        self.book.clean(Some(awaited))
    }

    /// The senders of the listeners of the tasks' results.
    pub fn result_listeners(&self) -> (senders: &Vec<OutputSender<Output>>)
        ensures
            senders@ == self.listeners(),
    {
        &self.output_result_senders
    }

    /// Keeps the listeners a result was delivered to, in order, and drops
    /// the others.
    pub fn keep_listeners(&mut self, delivered: &Vec<bool>)
        requires
            old(self).wf(),
            delivered@.len() == old(self).listeners().len(),
        ensures
            final(self).wf(),
            final(self).end_sender() == old(self).end_sender(),
            final(self).book() == old(self).book(),
            final(self).listeners() == select(old(self).listeners(), delivered@),
    {
        let mut senders: Vec<OutputSender<Output>> = Vec::new();
        std::mem::swap(&mut senders, &mut self.output_result_senders);
        let ghost all = senders@;
        let mut kept: Vec<OutputSender<Output>> = Vec::new();
        let n = delivered.len();
        let mut k: usize = 0;
        for sender in it: senders.into_iter()
            invariant
                n == delivered@.len(),
                it.seq() == all,
                all.len() == delivered@.len(),
                k == it.index(),
                kept@ == select(all.take(k as int), delivered@.take(k as int)),
        {
            assert(sender == all[k as int]);
            if delivered[k] {
                kept.push(sender);
            }
            proof {
                assert(all.take(k + 1).drop_last() =~= all.take(k as int));
                assert(delivered@.take(k + 1).drop_last() =~= delivered@.take(k as int));
                assert(all.take(k + 1).last() == all[k as int]);
                assert(delivered@.take(k + 1).last() == delivered@[k as int]);
            }
            k = k + 1;
        }
        proof {
            assert(all.take(all.len() as int) =~= all);
            assert(delivered@.take(all.len() as int) =~= delivered@);
        }
        self.output_result_senders = kept;
    }
}

/// The outcome of handling an ending task, once the cleaning notifier, if
/// any, was told: `notified` is `None` when the end finished no cleaning,
/// and otherwise whether the notifier was told.
pub fn settle_ending(notified: Option<bool>) -> (outcome: PoolResult<bool>)
    ensures
        outcome == match notified {
            None => Ok::<bool, PoolError>(false),
            Some(true) => Ok(true),
            Some(false) => Err(PoolError::CleaningNotifierError),
        },
{
    match notified {
        None => Ok(false),
        Some(true) => Ok(true),
        Some(false) => Err(PoolError::CleaningNotifierError),
    }
}

/// The outcome of creating task `id`, once each waiter of its creation was
/// told: `TaskCreationSendingError` when one of them could not be.
pub fn creation_outcome(id: OpId, delivered: &Vec<bool>) -> (outcome: PoolResult<()>)
    ensures
        outcome == if forall|k: int| 0 <= k < delivered@.len() ==> #[trigger] delivered@[k] {
            Ok::<(), PoolError>(())
        } else {
            Err(PoolError::TaskCreationSendingError(id))
        },
{
    let mut k: usize = 0;
    while k < delivered.len()
        invariant
            k <= delivered@.len(),
            forall|j: int| 0 <= j < k ==> #[trigger] delivered@[j],
        decreases delivered@.len() - k,
    {
        if !delivered[k] {
            return Err(PoolError::TaskCreationSendingError(id));
        }
        k = k + 1;
    }
    Ok(())
}

/// The outcome of waiting for the creation of task `id`:
/// `FailedToWaitCreation` when the notification never came.
pub fn waited_outcome(id: OpId, notified: bool) -> (outcome: PoolResult<()>)
    ensures
        outcome == if notified {
            Ok::<(), PoolError>(())
        } else {
            Err(PoolError::FailedToWaitCreation(id))
        },
{
    if notified {
        Ok(())
    } else {
        Err(PoolError::FailedToWaitCreation(id))
    }
}

/// The outcome of sending a message to task `id`: `SendError` when the
/// task's receiver is gone.
pub fn sent_outcome(id: OpId, delivered: bool) -> (outcome: PoolResult<()>)
    ensures
        outcome == if delivered {
            Ok::<(), PoolError>(())
        } else {
            Err(PoolError::SendError(id))
        },
{
    if delivered {
        Ok(())
    } else {
        Err(PoolError::SendError(id))
    }
}

/// A process waited for gets the message sent after the wait: when waiting
/// registered a creation waiter for it, and its waiters were left so until
/// it started, its start hands that waiter back to be told, and it then runs
/// with the sender `Task::begin` returned, which is where `send_after_wait`
/// sends.
pub proof fn lemma_waited_process_gets_the_message<Message, Output>(
    before: PoolState<Message, Output>,
    waited: PoolState<Message, Output>,
    starting: PoolState<Message, Output>,
    started: PoolState<Message, Output>,
    id: OpId,
    sender: TokioSender<Message>,
    told: Seq<TokioSender<()>>,
)
    requires
        waited.book().waiters(id).len() == before.book().waiters(id).len() + 1,
        waited.book().waiters(id).drop_last() == before.book().waiters(id),
        starting.book().waiters(id) == waited.book().waiters(id),
        told == starting.book().waiters(id),
        started.book().task_senders() == starting.book().task_senders().insert(id, sender),
        started.book().states() == starting.book().states().insert(id, TaskState::Running),
    ensures
        told.len() == before.book().waiters(id).len() + 1,
        told.last() == waited.book().waiters(id).last(),
        started.book().is_running(id),
        started.book().task_senders()[id] == sender,
{
}

/// Once an ending is handled and its result delivered, the listeners left
/// are exactly those of before to which the result was delivered, in their
/// order; each of them was a listener before.
pub proof fn lemma_delivery_keeps_reached_listeners<Message, Output>(
    before: PoolState<Message, Output>,
    handled: PoolState<Message, Output>,
    after: PoolState<Message, Output>,
    delivered: Seq<bool>,
)
    requires
        handled.listeners() == before.listeners(),
        after.listeners() == select(handled.listeners(), delivered),
    ensures
        after.listeners() == select(before.listeners(), delivered),
        forall|k: int|
            0 <= k < after.listeners().len() ==> before.listeners().contains(
                #[trigger] after.listeners()[k],
            ),
{
    assert forall|k: int| 0 <= k < after.listeners().len() implies before.listeners().contains(
        #[trigger] after.listeners()[k],
    ) by {
        lemma_select_from(before.listeners(), delivered, k);
    }
}

/// Every result receiver gets the results delivered to the listeners: after
/// two redirections one after the other, the listeners hold, at the places
/// of the two redirections, the sending halves of the two receivers'
/// channels, and a later redirection keeps the earlier ones.
pub proof fn lemma_each_redirection_has_its_listener<Message, Output>(
    before: PoolState<Message, Output>,
    first: PoolState<Message, Output>,
    second: PoolState<Message, Output>,
    first_receiver: TokioReceiver<PoolTaskEnded<Output>>,
    second_receiver: TokioReceiver<PoolTaskEnded<Output>>,
)
    requires
        first.listeners().len() == before.listeners().len() + 1,
        first.listeners().drop_last() == before.listeners(),
        channel_halves(NOTIFICATION_CHANNEL_SIZE, first.listeners().last(), first_receiver),
        second.listeners().len() == first.listeners().len() + 1,
        second.listeners().drop_last() == first.listeners(),
        channel_halves(NOTIFICATION_CHANNEL_SIZE, second.listeners().last(), second_receiver),
    ensures
        second.listeners().len() == before.listeners().len() + 2,
        channel_halves(
            NOTIFICATION_CHANNEL_SIZE,
            second.listeners()[before.listeners().len() as int],
            first_receiver,
        ),
        channel_halves(
            NOTIFICATION_CHANNEL_SIZE,
            second.listeners()[before.listeners().len() + 1int],
            second_receiver,
        ),
{
    let n = before.listeners().len() as int;
    assert(second.listeners()[n] == second.listeners().drop_last()[n]);
    assert(first.listeners()[n] == first.listeners().last());
}

} // verus!
