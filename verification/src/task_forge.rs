//! The state behind a task forge: the task book, the sender the tasks hand
//! their output to, and the listeners of the tasks' results.
//!
//! Each operation of the forge is split here into what it decides, with the
//! sends that it leaves to the caller, and what the outcome of those sends
//! makes of the result.

use crate::channel_table::{lemma_select_from, select};
use crate::forge_error::{ForgeError, ForgeResult};
use crate::mpsc::{bounded_channel, channel_halves, lemma_buffer_bound};
use crate::task_book::{OpId, TaskBook, TaskFault, TaskState, NOTIFICATION_CHANNEL_SIZE};
use std::sync::Arc;
use tokio::sync::mpsc::Receiver as TokioReceiver;
use tokio::sync::mpsc::Sender as TokioSender;
use vstd::prelude::*;

verus! {

/// The size of the channel the tasks hand their output to.
pub const END_TASK_CHANNEL_SIZE: usize = 100;

/// The two halves of a channel.
pub type Channel<T> = (TokioSender<T>, TokioReceiver<T>);

/// A new channel of the forge's usual size, 100 messages.
pub fn new_channel<T>() -> (pair: Channel<T>)
    ensures
        channel_halves(END_TASK_CHANNEL_SIZE, pair.0, pair.1),
{
    proof {
        lemma_buffer_bound();
    }
    bounded_channel(END_TASK_CHANNEL_SIZE)
}

/// The result of a completed task: its output, its identifier, and whether
/// its end finished a cleaning of the forge.
#[derive(Clone)]
pub struct ForgeTaskEnded<Output> {
    pub output: Arc<Output>,
    pub id: OpId,
    pub has_cleared: bool,
}

pub type OutputSender<Output> = TokioSender<ForgeTaskEnded<Output>>;

pub type OutputReceiver<Output> = TokioReceiver<ForgeTaskEnded<Output>>;

/// What a task is given when it begins: its identifier and the sender on
/// which it hands its output to the forge.
#[verifier::reject_recursive_types(Output)]
pub struct TaskInterface<Output> {
    id: OpId,
    output_sender: TokioSender<(OpId, Output)>,
}

impl<Output> TaskInterface<Output> {
    /// The identifier of the task.
    pub closed spec fn task_id(&self) -> OpId {
        self.id
    }

    /// The identifier of the task.
    pub fn id(&self) -> (id: OpId)
        ensures
            id == self.task_id(),
    {
        self.id
    }

    /// The sender on which the task hands its output to the forge.
    pub closed spec fn tokio_output_sender(&self) -> TokioSender<(OpId, Output)> {
        self.output_sender
    }

    /// The sender on which the task hands its output, with its identifier,
    /// to the forge.
    pub fn output_sender(&self) -> (sender: &TokioSender<(OpId, Output)>)
        ensures
            *sender == self.tokio_output_sender(),
    {
        &self.output_sender
    }
}

/// A task a forge can start: `begin` starts it with its argument and returns
/// the sender of its messages.  Implemented by the users of the forge.
pub trait TaskTrait<TaskArg, Message, Output> {
    fn begin(arg: TaskArg, task_interface: TaskInterface<Output>) -> TokioSender<Message>;
}

/// The state of a task forge.
#[verifier::reject_recursive_types(Message)]
#[verifier::reject_recursive_types(Output)]
pub struct ForgeState<Message, Output> {
    book: TaskBook<Message>,
    end_task_sender: TokioSender<(OpId, Output)>,
    output_result_senders: Vec<OutputSender<Output>>,
}

impl<Message, Output> ForgeState<Message, Output> {
    /// The task book of the forge.
    pub closed spec fn book(&self) -> TaskBook<Message> {
        self.book
    }

    /// The senders of the listeners of the tasks' results.
    pub closed spec fn listeners(&self) -> Seq<OutputSender<Output>> {
        self.output_result_senders@
    }

    /// The sender on which every task of the forge hands its output.
    pub closed spec fn end_sender(&self) -> TokioSender<(OpId, Output)> {
        self.end_task_sender
    }

    pub open spec fn wf(&self) -> bool {
        self.book().wf()
    }

    /// An empty forge, with the receiver of the channel on which its tasks
    /// hand their output.
    pub fn new() -> (made: (Self, TokioReceiver<(OpId, Output)>))
        ensures
            made.0.wf(),
            channel_halves(END_TASK_CHANNEL_SIZE, made.0.end_sender(), made.1),
            made.0.book().task_ids().is_empty(),
            made.0.book().states() == Map::<OpId, TaskState>::empty(),
            forall|id: OpId| #[trigger] made.0.book().waiters(id).len() == 0,
            made.0.book().cleaning_awaited() is None,
            made.0.listeners().len() == 0,
    {
        proof {
            lemma_buffer_bound();
        }
        let (end_task_sender, receiver) = bounded_channel(END_TASK_CHANNEL_SIZE);
        let book = TaskBook::new();
        proof {
            assert(book.task_ids() =~= Set::<OpId>::empty());
        }
        (ForgeState { book, end_task_sender, output_result_senders: Vec::new() }, receiver)
    }

    /// Whether the forge's cleaning is over.
    pub fn should_clear(&self) -> (due: bool)
        ensures
            due == self.book().clear_due(),
    {
        self.book.should_clear()
    }

    /// Removes an ended task from the forge (see `TaskBook::end_task`).
    /// Returns the cleaning notifier when the end finished a cleaning; the
    /// caller tells it, then settles the outcome with `settle_ending`.
    /// Fails with `TaskClosed` when the task does not run.
    pub fn handle_ending_task(&mut self, ending_task: OpId) -> (ended: ForgeResult<
        Option<TokioSender<()>>,
    >)
        requires
            old(self).wf(),
        ensures
            final(self).wf(),
            final(self).end_sender() == old(self).end_sender(),
            final(self).listeners() == old(self).listeners(),
            !old(self).book().is_running(ending_task) ==> ended == Err::<
                Option<TokioSender<()>>,
                ForgeError,
            >(ForgeError::TaskClosed(ending_task)) && *final(self) == *old(self),
            ended matches Ok(Some(_)) ==> {
                &&& old(self).book().task_ids() == Set::<OpId>::empty().insert(ending_task)
                &&& match old(self).book().cleaning_awaited() {
                    Some(Some(n)) => old(self).book().states().insert(
                        ending_task,
                        TaskState::Closed,
                    ).len() == n,
                    Some(None) => true,
                    None => false,
                }
            },
            old(self).book().is_running(ending_task) ==> {
                &&& ended is Ok
                &&& final(self).book().task_senders() == old(self).book().task_senders().remove(
                    ending_task,
                )
                &&& old(self).book().ending_clears(ending_task) ==> {
                    &&& ended->Ok_0 == old(self).book().cleaning_notifier()
                    &&& ended->Ok_0 is Some
                    &&& final(self).book().states() == Map::<OpId, TaskState>::empty()
                    &&& forall|w: OpId| #[trigger] final(self).book().waiters(w).len() == 0
                    &&& final(self).book().cleaning_awaited() is None
                }
                &&& !old(self).book().ending_clears(ending_task) ==> {
                    &&& ended->Ok_0 is None
                    &&& final(self).book().states() == old(self).book().states().insert(
                        ending_task,
                        TaskState::Closed,
                    )
                    &&& forall|w: OpId| #[trigger] final(self).book().waiters(w) == old(
                        self,
                    ).book().waiters(w)
                    &&& final(self).book().cleaning_awaited() == old(self).book().cleaning_awaited()
                    &&& final(self).book().cleaning_notifier() == old(
                        self,
                    ).book().cleaning_notifier()
                }
            },
    {
        match self.book.end_task(ending_task) {
            Ok(notifier) => Ok(notifier),
            Err(fault) => Err(ForgeError::from_fault(fault, ending_task)),
        }
    }

    /// The interface a task of the forge is given when it begins: its
    /// identifier and a handle to the sender of the forge's output channel.
    pub fn task_interface(&self, id: OpId) -> (interface: TaskInterface<Output>)
        ensures
            interface.task_id() == id,
            interface.tokio_output_sender() == self.end_sender(),
    {
        TaskInterface { id, output_sender: self.end_task_sender.clone() }
    }

    /// Records the task that `Task::begin` started, with the sender of its
    /// messages, as running (see `TaskBook::start`), and hands back the
    /// senders to the waiters of its creation.
    pub fn start_task(&mut self, id: OpId, sender: TokioSender<Message>) -> (waiters: Vec<
        TokioSender<()>,
    >)
        requires
            old(self).wf(),
            !old(self).book().is_running(id),
        ensures
            final(self).wf(),
            final(self).end_sender() == old(self).end_sender(),
            final(self).listeners() == old(self).listeners(),
            final(self).book().task_senders() == old(self).book().task_senders().insert(id, sender),
            final(self).book().states() == old(self).book().states().insert(
                id,
                TaskState::Running,
            ),
            waiters@ == old(self).book().waiters(id),
            final(self).book().waiters(id).len() == 0,
            forall|other: OpId|
                other != id ==> #[trigger] final(self).book().waiters(other) == old(
                    self,
                ).book().waiters(other),
            final(self).book().cleaning_awaited() == old(self).book().cleaning_awaited(),
            final(self).book().cleaning_notifier() == old(self).book().cleaning_notifier(),
    {
        self.book.start(id, sender)
    }

    /// Starts a task that does not run yet: `Task::begin` gets the argument
    /// and `task_interface(id)`, and the sender it returns is recorded by
    /// `start_task`.
    /// Returns the senders to the waiters of the task's creation, which the
    /// caller tells, then settles the outcome with `creation_outcome`.
    /// Fails with `TaskAlreadyExists`, changing nothing and starting
    /// nothing, when the task runs; a closed task can be started again.
    pub fn new_task<Task: TaskTrait<TaskArg, Message, Output>, TaskArg>(
        &mut self,
        id: OpId,
        arg: TaskArg,
    ) -> (created: ForgeResult<Vec<TokioSender<()>>>)
        requires
            old(self).wf(),
        ensures
            final(self).wf(),
            final(self).end_sender() == old(self).end_sender(),
            final(self).listeners() == old(self).listeners(),
            old(self).book().is_running(id) ==> created == Err::<
                Vec<TokioSender<()>>,
                ForgeError,
            >(ForgeError::TaskAlreadyExists(id)) && *final(self) == *old(self),
            !old(self).book().is_running(id) ==> {
                &&& created is Ok
                &&& created->Ok_0@ == old(self).book().waiters(id)
                &&& final(self).book().task_ids() == old(self).book().task_ids().insert(id)
                &&& exists|interface: TaskInterface<Output>, sender: TokioSender<Message>|
                    #![trigger call_ensures(Task::begin, (arg, interface), sender)]
                    {
                        &&& interface.task_id() == id
                        &&& interface.tokio_output_sender() == old(self).end_sender()
                        &&& call_ensures(Task::begin, (arg, interface), sender)
                        &&& final(self).book().task_senders() == old(
                            self,
                        ).book().task_senders().insert(id, sender)
                    }
                &&& final(self).book().states() == old(self).book().states().insert(
                    id,
                    TaskState::Running,
                )
                &&& final(self).book().waiters(id).len() == 0
                &&& forall|other: OpId|
                    other != id ==> #[trigger] final(self).book().waiters(other) == old(
                        self,
                    ).book().waiters(other)
                &&& final(self).book().cleaning_awaited() == old(self).book().cleaning_awaited()
                &&& final(self).book().cleaning_notifier() == old(self).book().cleaning_notifier()
            },
    {
        if !self.book.can_start(id) {
            return Err(ForgeError::TaskAlreadyExists(id));
        }
        let interface = self.task_interface(id);
        let sender = Task::begin(arg, interface);
        let waiters = self.start_task(id, sender);
        proof {
            assert(self.book().task_ids() =~= old(self).book().task_ids().insert(id));
        }
        Ok(waiters)
    }

    /// What waiting for the creation of the task takes: `Ok(None)` when it
    /// runs, `Ok(Some(receiver))` to wait on when the forge has not seen it,
    /// `TaskClosed` when it has closed.
    pub fn wait_for_task_creation(&mut self, id: OpId) -> (wait: ForgeResult<
        Option<TokioReceiver<()>>,
    >)
        requires
            old(self).wf(),
        ensures
            final(self).wf(),
            final(self).end_sender() == old(self).end_sender(),
            final(self).listeners() == old(self).listeners(),
            !old(self).book().states().contains_key(id) ==> {
                &&& wait matches Ok(Some(receiver)) && channel_halves(
                    NOTIFICATION_CHANNEL_SIZE,
                    final(self).book().waiters(id).last(),
                    receiver,
                )
                &&& final(self).book().waiters(id).len() == old(self).book().waiters(id).len() + 1
                &&& final(self).book().waiters(id).drop_last() == old(self).book().waiters(id)
                &&& forall|other: OpId|
                    other != id ==> #[trigger] final(self).book().waiters(other) == old(
                        self,
                    ).book().waiters(other)
                &&& final(self).book().task_senders() == old(self).book().task_senders()
                &&& final(self).book().states() == old(self).book().states()
                &&& final(self).book().cleaning_awaited() == old(self).book().cleaning_awaited()
                &&& final(self).book().cleaning_notifier() == old(self).book().cleaning_notifier()
            },
            old(self).book().is_running(id) ==> (wait matches Ok(None)) && *final(self)
                == *old(self),
            old(self).book().states().contains_key(id) && old(self).book().states()[id]
                == TaskState::Closed ==> wait == Err::<Option<TokioReceiver<()>>, ForgeError>(
                ForgeError::TaskClosed(id),
            ) && *final(self) == *old(self),
    {
        match self.book.creation_wait(id) {
            Ok(wait) => Ok(wait),
            Err(fault) => Err(ForgeError::from_fault(fault, id)),
        }
    }

    /// The sender of the running task's messages; `TaskNotExist` when the
    /// task does not run.
    pub fn send(&self, id: OpId) -> (sender: ForgeResult<&TokioSender<Message>>)
        requires
            self.wf(),
        ensures
            self.book().is_running(id) ==> sender is Ok && *sender->Ok_0
                == self.book().task_senders()[id],
            !self.book().is_running(id) ==> sender == Err::<&TokioSender<Message>, ForgeError>(
                ForgeError::TaskNotExist(id),
            ),
    {
        match self.book.sender_of(id) {
            Some(sender) => Ok(sender),
            None => Err(ForgeError::TaskNotExist(id)),
        }
    }

    /// Where sending to task `id` stands once the wait for its creation is
    /// over (`notified`: whether its creation was told, or it was running
    /// already): the running task's sender; `FailedToWaitCreation` when the
    /// creation was never told; `TaskNotExist` when the task does not run.
    pub fn send_after_wait(&self, id: OpId, notified: bool) -> (sender: ForgeResult<
        &TokioSender<Message>,
    >)
        requires
            self.wf(),
        ensures
            !notified ==> sender == Err::<&TokioSender<Message>, ForgeError>(
                ForgeError::FailedToWaitCreation(id),
            ),
            notified && self.book().is_running(id) ==> sender is Ok && *sender->Ok_0
                == self.book().task_senders()[id],
            notified && !self.book().is_running(id) ==> sender == Err::<
                &TokioSender<Message>,
                ForgeError,
            >(ForgeError::TaskNotExist(id)),
    {
        if !notified {
            return Err(ForgeError::FailedToWaitCreation(id));
        }
        self.send(id)
    }

    /// A new receiver of the results of the tasks that end from now on.
    pub fn new_result_redirection(&mut self) -> (receiver: OutputReceiver<Output>)
        requires
            old(self).wf(),
        ensures
            final(self).wf(),
            final(self).end_sender() == old(self).end_sender(),
            final(self).book() == old(self).book(),
            final(self).listeners().len() == old(self).listeners().len() + 1,
            final(self).listeners().drop_last() == old(self).listeners(),
            channel_halves(NOTIFICATION_CHANNEL_SIZE, final(self).listeners().last(), receiver),
    {
        proof {
            lemma_buffer_bound();
        }
        let (sender, receiver) = bounded_channel(NOTIFICATION_CHANNEL_SIZE);
        self.output_result_senders.push(sender);
        proof {
            assert(self.listeners().drop_last() =~= old(self).listeners());
        }
        receiver
    }

    /// A new receiver told of the task's creation.
    pub fn new_task_notif_receiver(&mut self, id: OpId) -> (receiver: TokioReceiver<()>)
        requires
            old(self).wf(),
        ensures
            final(self).wf(),
            final(self).end_sender() == old(self).end_sender(),
            final(self).listeners() == old(self).listeners(),
            final(self).book().waiters(id).len() == old(self).book().waiters(id).len() + 1,
            final(self).book().waiters(id).drop_last() == old(self).book().waiters(id),
            channel_halves(
                NOTIFICATION_CHANNEL_SIZE,
                final(self).book().waiters(id).last(),
                receiver,
            ),
            forall|other: OpId|
                other != id ==> #[trigger] final(self).book().waiters(other) == old(
                    self,
                ).book().waiters(other),
            final(self).book().task_senders() == old(self).book().task_senders(),
            final(self).book().states() == old(self).book().states(),
            final(self).book().cleaning_awaited() == old(self).book().cleaning_awaited(),
            final(self).book().cleaning_notifier() == old(self).book().cleaning_notifier(),
    {
        self.book.new_notif_receiver(id)
    }

    /// Whether no task runs.
    pub fn is_empty(&self) -> (empty: bool)
        ensures
            empty == self.book().task_ids().is_empty(),
    {
        self.book.is_empty()
    }

    /// Starts a cleaning that awaits `awaited` tasks, or the forge to be
    /// empty when `awaited` is `None` (see `TaskBook::clean`).
    pub fn clean(&mut self, awaited: Option<usize>) -> (notice: Option<TokioReceiver<()>>)
        requires
            old(self).wf(),
        ensures
            final(self).wf(),
            final(self).end_sender() == old(self).end_sender(),
            final(self).listeners() == old(self).listeners(),
            final(self).book().task_senders() == old(self).book().task_senders(),
            old(self).book().task_ids().is_empty() ==> {
                &&& notice is None
                &&& final(self).book().states() == Map::<OpId, TaskState>::empty()
                &&& forall|w: OpId| #[trigger] final(self).book().waiters(w).len() == 0
                &&& final(self).book().cleaning_awaited() == old(self).book().cleaning_awaited()
            },
            !old(self).book().task_ids().is_empty() ==> {
                &&& notice is Some
                &&& final(self).book().cleaning_notifier() is Some
                &&& channel_halves(
                    NOTIFICATION_CHANNEL_SIZE,
                    final(self).book().cleaning_notifier()->0,
                    notice->0,
                )
                &&& final(self).book().cleaning_awaited() == Some(awaited)
                &&& final(self).book().states() == old(self).book().states()
                &&& forall|w: OpId| #[trigger] final(self).book().waiters(w) == old(
                    self,
                ).book().waiters(w)
            },
    {
        self.book.clean(awaited)
    }

    /// The senders of the listeners of the tasks' results.
    pub fn result_listeners(&self) -> (senders: &Vec<OutputSender<Output>>)
        ensures
            senders@ == self.listeners(),
    {
        &self.output_result_senders
    }

    /// Keeps the listeners a result was delivered to, in order, and drops
    /// the others.
    pub fn keep_listeners(&mut self, delivered: &Vec<bool>)
        requires
            old(self).wf(),
            delivered@.len() == old(self).listeners().len(),
        ensures
            final(self).wf(),
            final(self).end_sender() == old(self).end_sender(),
            final(self).book() == old(self).book(),
            final(self).listeners() == select(old(self).listeners(), delivered@),
    {
        let mut senders: Vec<OutputSender<Output>> = Vec::new();
        std::mem::swap(&mut senders, &mut self.output_result_senders);
        let ghost all = senders@;
        let mut kept: Vec<OutputSender<Output>> = Vec::new();
        let n = delivered.len();
        let mut k: usize = 0;
        for sender in it: senders.into_iter()
            invariant
                n == delivered@.len(),
                it.seq() == all,
                all.len() == delivered@.len(),
                k == it.index(),
                kept@ == select(all.take(k as int), delivered@.take(k as int)),
        {
            assert(sender == all[k as int]);
            if delivered[k] {
                kept.push(sender);
            }
            proof {
                assert(all.take(k + 1).drop_last() =~= all.take(k as int));
                assert(delivered@.take(k + 1).drop_last() =~= delivered@.take(k as int));
                assert(all.take(k + 1).last() == all[k as int]);
                assert(delivered@.take(k + 1).last() == delivered@[k as int]);
            }
            k = k + 1;
        }
        proof {
            assert(all.take(all.len() as int) =~= all);
            assert(delivered@.take(all.len() as int) =~= delivered@);
        }
        self.output_result_senders = kept;
    }
}

/// The outcome of handling an ending task, once the cleaning notifier, if
/// any, was told: `notified` is `None` when the end finished no cleaning,
/// and otherwise whether the notifier was told.
pub fn settle_ending(notified: Option<bool>) -> (outcome: ForgeResult<bool>)
    ensures
        outcome == match notified {
            None => Ok::<bool, ForgeError>(false),
            Some(true) => Ok(true),
            Some(false) => Err(ForgeError::CleaningNotifierError),
        },
{
    match notified {
        None => Ok(false),
        Some(true) => Ok(true),
        Some(false) => Err(ForgeError::CleaningNotifierError),
    }
}

/// The outcome of creating task `id`, once each waiter of its creation was
/// told: `TaskCreationSendingError` when one of them could not be.
pub fn creation_outcome(id: OpId, delivered: &Vec<bool>) -> (outcome: ForgeResult<()>)
    ensures
        outcome == if forall|k: int| 0 <= k < delivered@.len() ==> #[trigger] delivered@[k] {
            Ok::<(), ForgeError>(())
        } else {
            Err(ForgeError::TaskCreationSendingError(id))
        },
{
    let mut k: usize = 0;
    while k < delivered.len()
        invariant
            k <= delivered@.len(),
            forall|j: int| 0 <= j < k ==> #[trigger] delivered@[j],
        decreases delivered@.len() - k,
    {
        if !delivered[k] {
            return Err(ForgeError::TaskCreationSendingError(id));
        }
        k = k + 1;
    }
    Ok(())
}

/// The outcome of waiting for the creation of task `id`:
/// `FailedToWaitCreation` when the notification never came.
pub fn waited_outcome(id: OpId, notified: bool) -> (outcome: ForgeResult<()>)
    ensures
        outcome == if notified {
            Ok::<(), ForgeError>(())
        } else {
            Err(ForgeError::FailedToWaitCreation(id))
        },
{
    if notified {
        Ok(())
    } else {
        Err(ForgeError::FailedToWaitCreation(id))
    }
}

/// The outcome of sending a message to task `id`: `SendError` when the
/// task's receiver is gone.
pub fn sent_outcome(id: OpId, delivered: bool) -> (outcome: ForgeResult<()>)
    ensures
        outcome == if delivered {
            Ok::<(), ForgeError>(())
        } else {
            Err(ForgeError::SendError(id))
        },
{
    if delivered {
        Ok(())
    } else {
        Err(ForgeError::SendError(id))
    }
}

/// A task waited for gets the message sent after the wait: when waiting
/// registered a creation waiter for it, and its waiters were left so until
/// it started, its start hands that waiter back to be told, and it then runs
/// with the sender `Task::begin` returned, which is where `send_after_wait`
/// sends.
pub proof fn lemma_waited_task_gets_the_message<Message, Output>(
    before: ForgeState<Message, Output>,
    waited: ForgeState<Message, Output>,
    starting: ForgeState<Message, Output>,
    started: ForgeState<Message, Output>,
    id: OpId,
    sender: TokioSender<Message>,
    told: Seq<TokioSender<()>>,
)
    requires
        waited.book().waiters(id).len() == before.book().waiters(id).len() + 1,
        waited.book().waiters(id).drop_last() == before.book().waiters(id),
        starting.book().waiters(id) == waited.book().waiters(id),
        told == starting.book().waiters(id),
        started.book().task_senders() == starting.book().task_senders().insert(id, sender),
        started.book().states() == starting.book().states().insert(id, TaskState::Running),
    ensures
        told.len() == before.book().waiters(id).len() + 1,
        told.last() == waited.book().waiters(id).last(),
        started.book().is_running(id),
        started.book().task_senders()[id] == sender,
{
}

/// Once an ending is handled and its result delivered, the listeners left
/// are exactly those of before to which the result was delivered, in their
/// order; each of them was a listener before.
pub proof fn lemma_delivery_keeps_reached_listeners<Message, Output>(
    before: ForgeState<Message, Output>,
    handled: ForgeState<Message, Output>,
    after: ForgeState<Message, Output>,
    delivered: Seq<bool>,
)
    requires
        handled.listeners() == before.listeners(),
        after.listeners() == select(handled.listeners(), delivered),
    ensures
        after.listeners() == select(before.listeners(), delivered),
        forall|k: int|
            0 <= k < after.listeners().len() ==> before.listeners().contains(
                #[trigger] after.listeners()[k],
            ),
{
    assert forall|k: int| 0 <= k < after.listeners().len() implies before.listeners().contains(
        #[trigger] after.listeners()[k],
    ) by {
        lemma_select_from(before.listeners(), delivered, k);
    }
}

/// Every result receiver gets the results delivered to the listeners: after
/// two redirections one after the other, the listeners hold, at the places
/// of the two redirections, the sending halves of the two receivers'
/// channels, and a later redirection keeps the earlier ones.
pub proof fn lemma_each_redirection_has_its_listener<Message, Output>(
    before: ForgeState<Message, Output>,
    first: ForgeState<Message, Output>,
    second: ForgeState<Message, Output>,
    first_receiver: TokioReceiver<ForgeTaskEnded<Output>>,
    second_receiver: TokioReceiver<ForgeTaskEnded<Output>>,
)
    requires
        first.listeners().len() == before.listeners().len() + 1,
        first.listeners().drop_last() == before.listeners(),
        channel_halves(NOTIFICATION_CHANNEL_SIZE, first.listeners().last(), first_receiver),
        second.listeners().len() == first.listeners().len() + 1,
        second.listeners().drop_last() == first.listeners(),
        channel_halves(NOTIFICATION_CHANNEL_SIZE, second.listeners().last(), second_receiver),
    ensures
        second.listeners().len() == before.listeners().len() + 2,
        channel_halves(
            NOTIFICATION_CHANNEL_SIZE,
            second.listeners()[before.listeners().len() as int],
            first_receiver,
        ),
        channel_halves(
            NOTIFICATION_CHANNEL_SIZE,
            second.listeners()[before.listeners().len() + 1int],
            second_receiver,
        ),
{
    let n = before.listeners().len() as int;
    assert(second.listeners()[n] == second.listeners().drop_last()[n]);
    assert(first.listeners()[n] == first.listeners().last());
}

} // verus!
