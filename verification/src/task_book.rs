//! The bookkeeping shared by task forges and task pools: which tasks run,
//! which have closed, who waits for a task to be created, and whether the
//! book is being cleaned.

use crate::mpsc::{bounded_channel, channel_halves, lemma_buffer_bound};
use std::collections::HashMap;
use tokio::sync::mpsc::Receiver as TokioReceiver;
use tokio::sync::mpsc::Sender as TokioSender;
use vstd::prelude::*;

verus! {

broadcast use vstd::std_specs::hash::group_hash_axioms;

/// The identifier of a task.
pub type OpId = u64;

/// The size of the notification channels a book creates.
pub const NOTIFICATION_CHANNEL_SIZE: usize = 100;

/// The state of a task the book has seen.
#[derive(PartialEq, Eq, Copy, Clone, Debug, Structural)]
pub enum TaskState {
    Running,
    Closed,
}

/// Why the book refused an operation on a task.
#[derive(PartialEq, Eq, Copy, Clone, Debug, Structural)]
pub enum TaskFault {
    /// The task is already running.
    AlreadyRunning,
    /// The task has closed, or was never seen.
    Closed,
}

/// Running tasks with the senders of their messages, the state of every task
/// seen since the last cleaning, the senders that tell waiters of a task's
/// creation, and the cleaning notifier with the number of tasks it awaits.
#[verifier::reject_recursive_types(Message)]
pub struct TaskBook<Message> {
    tasks: HashMap<OpId, TokioSender<Message>>,
    states: HashMap<OpId, TaskState>,
    creation_waiters: HashMap<OpId, Vec<TokioSender<()>>>,
    cleaning: Option<(TokioSender<()>, Option<usize>)>,
}

impl<Message> TaskBook<Message> {
    /// The senders of the running tasks, by task.
    pub closed spec fn task_senders(&self) -> Map<OpId, TokioSender<Message>> {
        self.tasks@
    }

    /// The running tasks.
    pub open spec fn task_ids(&self) -> Set<OpId> {
        self.task_senders().dom()
    }

    /// The state of every task seen since the last cleaning.
    pub closed spec fn states(&self) -> Map<OpId, TaskState> {
        self.states@
    }

    /// The senders that tell the waiters of the task's creation.
    pub closed spec fn waiters(&self, id: OpId) -> Seq<TokioSender<()>> {
        if self.creation_waiters@.contains_key(id) {
            self.creation_waiters@[id]@
        } else {
            Seq::empty()
        }
    }

    /// `Some(awaited)` while the book is being cleaned.
    pub closed spec fn cleaning_awaited(&self) -> Option<Option<usize>> {
        match self.cleaning {
            Some((_, awaited)) => Some(awaited),
            None => None,
        }
    }

    /// The sender that tells of the end of the cleaning, while cleaning.
    pub closed spec fn cleaning_notifier(&self) -> Option<TokioSender<()>> {
        match self.cleaning {
            Some((notifier, _)) => Some(notifier),
            None => None,
        }
    }

    /// Whether the task is running.
    pub open spec fn is_running(&self, id: OpId) -> bool {
        self.states().contains_key(id) && self.states()[id] == TaskState::Running
    }

    /// Exactly the running tasks have a sender.
    pub open spec fn wf(&self) -> bool {
        forall|id: OpId| #[trigger] self.task_ids().contains(id) <==> self.is_running(id)
    }

    /// The book is being cleaned, no task runs, and, when a number of tasks
    /// is awaited, that many tasks have been seen.
    pub open spec fn clear_due(&self) -> bool {
        match self.cleaning_awaited() {
            Some(awaited) => self.task_ids().is_empty() && match awaited {
                Some(n) => self.states().len() == n,
                None => true,
            },
            None => false,
        }
    }

    /// Whether ending the running task `id` ends the cleaning: it is the
    /// last running task, and the awaited number of tasks, if any, is the
    /// number of tasks seen.
    pub open spec fn ending_clears(&self, id: OpId) -> bool {
        match self.cleaning_awaited() {
            Some(awaited) => self.task_ids().remove(id).is_empty() && match awaited {
                Some(n) => self.states().insert(id, TaskState::Closed).len() == n,
                None => true,
            },
            None => false,
        }
    }

    /// An empty book.
    pub fn new() -> (book: Self)
        ensures
            book.wf(),
            book.task_senders() == Map::<OpId, TokioSender<Message>>::empty(),
            book.states() == Map::<OpId, TaskState>::empty(),
            forall|id: OpId| #[trigger] book.waiters(id).len() == 0,
            book.cleaning_awaited() is None,
    {
        TaskBook {
            tasks: HashMap::new(),
            states: HashMap::new(),
            creation_waiters: HashMap::new(),
            cleaning: None,
        }
    }

    /// The state of the task, if the book has seen it.
    pub fn state(&self, id: OpId) -> (state: Option<TaskState>)
        ensures
            state == if self.states().contains_key(id) {
                Some(self.states()[id])
            } else {
                None
            },
    {
        match self.states.get(&id) {
            Some(s) => Some(*s),
            None => None,
        }
    }

    /// Whether the cleaning is over: see `clear_due`.
    pub fn should_clear(&self) -> (due: bool)
        ensures
            due == self.clear_due(),
    {
        match &self.cleaning {
            Some((_, awaited)) => {
                let satisfied = match awaited {
                    Some(n) => self.states.len() == *n,
                    None => true,
                };
                self.tasks.is_empty() && satisfied
            },
            None => false,
        }
    }

    /// Whether the task can be started: it is not running.
    pub fn can_start(&self, id: OpId) -> (free: bool)
        ensures
            free == !self.is_running(id),
    {
        match self.states.get(&id) {
            Some(TaskState::Running) => false,
            _ => true,
        }
    }

    /// Records the task as running with the sender of its messages, and hands
    /// back the senders to the waiters of its creation, which the caller
    /// notifies.
    pub fn start(&mut self, id: OpId, sender: TokioSender<Message>) -> (waiters: Vec<TokioSender<()>>)
        requires
            old(self).wf(),
            !old(self).is_running(id),
        ensures
            final(self).wf(),
            final(self).task_senders() == old(self).task_senders().insert(id, sender),
            final(self).states() == old(self).states().insert(id, TaskState::Running),
            waiters@ == old(self).waiters(id),
            final(self).waiters(id).len() == 0,
            forall|other: OpId|
                other != id ==> #[trigger] final(self).waiters(other) == old(self).waiters(other),
            final(self).cleaning_awaited() == old(self).cleaning_awaited(),
            final(self).cleaning_notifier() == old(self).cleaning_notifier(),
    {
        self.states.insert(id, TaskState::Running);
        let waiters = match self.creation_waiters.remove(&id) {
            Some(w) => w,
            None => Vec::new(),
        };
        self.tasks.insert(id, sender);
        proof {
            assert forall|x: OpId| #[trigger] self.task_ids().contains(x) <==> self.is_running(x) by {
                if x != id {
                    assert(old(self).task_ids().contains(x) <==> old(self).is_running(x));
                }
            }
            assert forall|other: OpId| other != id implies #[trigger] self.waiters(other)
                == old(self).waiters(other) by {
                assert(self.creation_waiters@.contains_key(other) == old(
                    self,
                ).creation_waiters@.contains_key(other));
            }
        }
        waiters
    }

    /// Ends a running task: it loses its sender and is marked closed.  When
    /// that ends a cleaning (see `clear_due`), every state and waiter is
    /// forgotten, the cleaning stops, and the cleaning notifier is handed
    /// back for the caller to notify.  Fails, changing nothing, when the task
    /// is not running.
    pub fn end_task(&mut self, id: OpId) -> (ended: Result<Option<TokioSender<()>>, TaskFault>)
        requires
            old(self).wf(),
        ensures
            final(self).wf(),
            !old(self).is_running(id) ==> ended == Err::<Option<TokioSender<()>>, TaskFault>(
                TaskFault::Closed,
            ) && *final(self) == *old(self),
            ended matches Ok(Some(_)) ==> {
                &&& old(self).task_ids() == Set::<OpId>::empty().insert(id)
                &&& match old(self).cleaning_awaited() {
                    Some(Some(n)) => old(self).states().insert(id, TaskState::Closed).len() == n,
                    Some(None) => true,
                    None => false,
                }
            },
            old(self).is_running(id) ==> {
                let closed_states = old(self).states().insert(id, TaskState::Closed);
                let due = old(self).ending_clears(id);
                &&& final(self).task_senders() == old(self).task_senders().remove(id)
                &&& due ==> {
                    &&& final(self).states() == Map::<OpId, TaskState>::empty()
                    &&& forall|w: OpId| #[trigger] final(self).waiters(w).len() == 0
                    &&& final(self).cleaning_awaited() is None
                    &&& ended == Ok::<Option<TokioSender<()>>, TaskFault>(
                        old(self).cleaning_notifier(),
                    )
                    &&& old(self).cleaning_notifier() is Some
                }
                &&& !due ==> {
                    &&& final(self).states() == closed_states
                    &&& forall|w: OpId| #[trigger] final(self).waiters(w) == old(self).waiters(w)
                    &&& final(self).cleaning_awaited() == old(self).cleaning_awaited()
                    &&& final(self).cleaning_notifier() == old(self).cleaning_notifier()
                    &&& ended == Ok::<Option<TokioSender<()>>, TaskFault>(None)
                }
            },
    {
        match self.states.get(&id) {
            Some(TaskState::Running) => {},
            _ => {
                return Err(TaskFault::Closed);
            },
        }
        self.tasks.remove(&id);
        self.states.insert(id, TaskState::Closed);
        proof {
            assert(self.task_ids() =~= old(self).task_ids().remove(id));
        }
        if self.should_clear() {
            self.states.clear();
            self.creation_waiters.clear();
            match self.cleaning.take() {
                Some((notifier, _)) => Ok(Some(notifier)),
                None => Ok(None),
            }
        } else {
            Ok(None)
        }
    }

    /// A new receiver told of the task's creation; its sender is added to
    /// the task's waiters.
    pub fn new_notif_receiver(&mut self, id: OpId) -> (receiver: TokioReceiver<()>)
        requires
            old(self).wf(),
        ensures
            final(self).wf(),
            final(self).waiters(id).len() == old(self).waiters(id).len() + 1,
            final(self).waiters(id).drop_last() == old(self).waiters(id),
            channel_halves(NOTIFICATION_CHANNEL_SIZE, final(self).waiters(id).last(), receiver),
            forall|other: OpId|
                other != id ==> #[trigger] final(self).waiters(other) == old(self).waiters(other),
            final(self).task_senders() == old(self).task_senders(),
            final(self).states() == old(self).states(),
            final(self).cleaning_awaited() == old(self).cleaning_awaited(),
            final(self).cleaning_notifier() == old(self).cleaning_notifier(),
    {
        proof {
            lemma_buffer_bound();
        }
        let (sender, receiver) = bounded_channel(NOTIFICATION_CHANNEL_SIZE);
        let mut senders = match self.creation_waiters.remove(&id) {
            Some(w) => w,
            None => Vec::new(),
        };
        let ghost before = senders@;
        senders.push(sender);
        self.creation_waiters.insert(id, senders);
        proof {
            assert(self.tasks@ == old(self).tasks@);
            assert(self.states@ == old(self).states@);
            assert forall|x: OpId| #[trigger] self.task_ids().contains(x) <==> self.is_running(x) by {
                assert(old(self).task_ids().contains(x) <==> old(self).is_running(x));
            }
            assert(self.waiters(id).drop_last() =~= old(self).waiters(id));
            assert forall|other: OpId| other != id implies #[trigger] self.waiters(other)
                == old(self).waiters(other) by {
                assert(self.creation_waiters@.contains_key(other) == old(
                    self,
                ).creation_waiters@.contains_key(other));
            }
        }
        receiver
    }

    /// What waiting for the creation of the task takes: nothing when it
    /// runs (`Ok(None)`); a new receiver told of its creation when the book
    /// has not seen it (`Ok(Some(..))`); it fails when the task has closed.
    pub fn creation_wait(&mut self, id: OpId) -> (wait: Result<Option<TokioReceiver<()>>, TaskFault>)
        requires
            old(self).wf(),
        ensures
            final(self).wf(),
            !old(self).states().contains_key(id) ==> {
                &&& wait matches Ok(Some(receiver)) && channel_halves(
                    NOTIFICATION_CHANNEL_SIZE,
                    final(self).waiters(id).last(),
                    receiver,
                )
                &&& final(self).waiters(id).len() == old(self).waiters(id).len() + 1
                &&& final(self).waiters(id).drop_last() == old(self).waiters(id)
                &&& forall|other: OpId|
                    other != id ==> #[trigger] final(self).waiters(other) == old(self).waiters(other)
                &&& final(self).task_senders() == old(self).task_senders()
                &&& final(self).states() == old(self).states()
                &&& final(self).cleaning_awaited() == old(self).cleaning_awaited()
                &&& final(self).cleaning_notifier() == old(self).cleaning_notifier()
            },
            old(self).is_running(id) ==> (wait matches Ok(None)) && *final(self) == *old(self),
            old(self).states().contains_key(id) && old(self).states()[id] == TaskState::Closed
                ==> wait == Err::<Option<TokioReceiver<()>>, TaskFault>(TaskFault::Closed)
                && *final(self) == *old(self),
    {
        match self.state(id) {
            None => Ok(Some(self.new_notif_receiver(id))),
            Some(TaskState::Running) => Ok(None),
            Some(TaskState::Closed) => Err(TaskFault::Closed),
        }
    }

    /// The sender of a running task's messages.
    pub fn sender_of(&self, id: OpId) -> (sender: Option<&TokioSender<Message>>)
        ensures
            match sender {
                Some(s) => self.task_ids().contains(id) && *s == self.task_senders()[id],
                None => !self.task_ids().contains(id),
            },
    {
        self.tasks.get(&id)
    }

    /// Whether no task runs.
    pub fn is_empty(&self) -> (empty: bool)
        ensures
            empty == self.task_ids().is_empty(),
    {
        self.tasks.is_empty()
    }

    /// Starts a cleaning.  When no task runs, the book forgets every state
    /// and waiter at once and returns `None`.  Otherwise the cleaning
    /// awaits `awaited` (see `clear_due`) and a receiver that will be told
    /// of its end is returned.
    pub fn clean(&mut self, awaited: Option<usize>) -> (notice: Option<TokioReceiver<()>>)
        requires
            old(self).wf(),
        ensures
            final(self).wf(),
            final(self).task_senders() == old(self).task_senders(),
            old(self).task_ids().is_empty() ==> {
                &&& notice is None
                &&& final(self).states() == Map::<OpId, TaskState>::empty()
                &&& forall|w: OpId| #[trigger] final(self).waiters(w).len() == 0
                &&& final(self).cleaning_awaited() == old(self).cleaning_awaited()
                &&& final(self).cleaning_notifier() == old(self).cleaning_notifier()
            },
            !old(self).task_ids().is_empty() ==> {
                &&& notice is Some
                &&& final(self).cleaning_notifier() is Some
                &&& channel_halves(
                    NOTIFICATION_CHANNEL_SIZE,
                    final(self).cleaning_notifier()->0,
                    notice->0,
                )
                &&& final(self).cleaning_awaited() == Some(awaited)
                &&& final(self).states() == old(self).states()
                &&& forall|w: OpId| #[trigger] final(self).waiters(w) == old(self).waiters(w)
            },
    {
        proof {
            lemma_buffer_bound();
        }
        let (sender, receiver) = bounded_channel(NOTIFICATION_CHANNEL_SIZE);
        if self.tasks.is_empty() {
            self.creation_waiters.clear();
            self.states.clear();
            proof {
                assert forall|x: OpId| #[trigger] self.task_ids().contains(x) <==> self.is_running(
                    x,
                ) by {
                    assert(!old(self).task_ids().contains(x));
                }
            }
            None
        } else {
            self.cleaning = Some((sender, awaited));
            proof {
                assert forall|x: OpId| #[trigger] self.task_ids().contains(x) <==> self.is_running(
                    x,
                ) by {
                    assert(old(self).task_ids().contains(x) <==> old(self).is_running(x));
                }
            }
            Some(receiver)
        }
    }
}

/// While a cleaning that awaits no number runs, ending the last running task
/// ends the cleaning.
pub proof fn lemma_last_task_ends_cleaning<Message>(book: TaskBook<Message>, id: OpId)
    requires
        book.wf(),
        book.cleaning_awaited() == Some(None::<usize>),
        book.task_ids() == Set::<OpId>::empty().insert(id),
    ensures
        book.is_running(id),
        book.ending_clears(id),
{
    assert(book.task_ids().contains(id));
    assert(book.task_ids().remove(id) =~= Set::<OpId>::empty());
}

/// While a cleaning that awaits `n` tasks runs and the book has seen `n`
/// tasks, ending the last running task ends the cleaning.
pub proof fn lemma_awaited_tasks_end_cleaning<Message>(book: TaskBook<Message>, id: OpId, n: usize)
    requires
        book.wf(),
        book.cleaning_awaited() == Some(Some(n)),
        book.states().len() == n,
        book.task_ids() == Set::<OpId>::empty().insert(id),
    ensures
        book.is_running(id),
        book.ending_clears(id),
{
    assert(book.task_ids().contains(id));
    assert(book.task_ids().remove(id) =~= Set::<OpId>::empty());
    assert(book.states().insert(id, TaskState::Closed).dom() =~= book.states().dom());
}

/// Every waiter registered for a task since it was last started is among the
/// senders `start` hands back, in the order of registration.
pub proof fn lemma_registered_waiter_is_told<Message>(
    before: TaskBook<Message>,
    registered: TaskBook<Message>,
    id: OpId,
    told: Seq<TokioSender<()>>,
)
    requires
        registered.waiters(id).len() == before.waiters(id).len() + 1,
        registered.waiters(id).drop_last() == before.waiters(id),
        told == registered.waiters(id),
    ensures
        told.len() == before.waiters(id).len() + 1,
        told.last() == registered.waiters(id).last(),
        told.take(before.waiters(id).len() as int) == before.waiters(id),
{
    assert(told.take(before.waiters(id).len() as int) =~= told.drop_last());
}

/// Ending a task that was started leaves the running tasks, and their
/// senders, as they were before the start.
pub proof fn lemma_end_undoes_start<Message>(
    before: TaskBook<Message>,
    started: TaskBook<Message>,
    ended: TaskBook<Message>,
    id: OpId,
    sender: TokioSender<Message>,
)
    requires
        before.wf(),
        !before.is_running(id),
        started.task_senders() == before.task_senders().insert(id, sender),
        ended.task_senders() == started.task_senders().remove(id),
    ensures
        ended.task_senders() == before.task_senders(),
        ended.task_ids() == before.task_ids(),
{
    assert(!before.task_ids().contains(id));
    assert(ended.task_senders() =~= before.task_senders());
}

/// The notifier of a cleaning is handed back by the ending that finishes
/// the cleaning, and by no ending after it until the book is cleaned again:
/// once the cleaning is over, no ending clears the book.
pub proof fn lemma_cleaning_notifier_told_once<Message>(
    before: TaskBook<Message>,
    after: TaskBook<Message>,
    id: OpId,
    later: OpId,
)
    requires
        before.ending_clears(id),
        after.cleaning_awaited() is None,
    ensures
        before.cleaning_notifier() is Some,
        !after.ending_clears(later),
{
}

/// A cleaning that awaits `n` tasks is finished by an ending only when the
/// ending leaves no task running and `n` tasks have been seen, the ended one
/// included: with fewer tasks seen, ending the last running task does not
/// finish it.
pub proof fn lemma_awaited_number_is_needed<Message>(book: TaskBook<Message>, id: OpId, n: usize)
    requires
        book.cleaning_awaited() == Some(Some(n)),
        book.ending_clears(id),
    ensures
        book.task_ids().remove(id) == Set::<OpId>::empty(),
        book.states().insert(id, TaskState::Closed).len() == n,
{
    assert(book.task_ids().remove(id) =~= Set::<OpId>::empty());
}

/// A cleaning that awaits `n` tasks is over only when no task runs and `n`
/// tasks have been seen.
pub proof fn lemma_due_cleaning_saw_the_awaited_number<Message>(book: TaskBook<Message>, n: usize)
    requires
        book.cleaning_awaited() == Some(Some(n)),
        book.clear_due(),
    ensures
        book.task_ids() == Set::<OpId>::empty(),
        book.states().len() == n,
{
    assert(book.task_ids() =~= Set::<OpId>::empty());
}

/// Every receiver that waits for a task's creation is told by its start:
/// after two receivers registered for the task one after the other, and
/// with its waiters left so until it starts, the senders the start hands
/// back hold, at the places of the two registrations, the sending halves of
/// the two receivers' channels.
pub proof fn lemma_each_waiting_receiver_is_told<Message>(
    before: TaskBook<Message>,
    first: TaskBook<Message>,
    second: TaskBook<Message>,
    id: OpId,
    first_receiver: TokioReceiver<()>,
    second_receiver: TokioReceiver<()>,
    told: Seq<TokioSender<()>>,
)
    requires
        first.waiters(id).len() == before.waiters(id).len() + 1,
        first.waiters(id).drop_last() == before.waiters(id),
        channel_halves(NOTIFICATION_CHANNEL_SIZE, first.waiters(id).last(), first_receiver),
        second.waiters(id).len() == first.waiters(id).len() + 1,
        second.waiters(id).drop_last() == first.waiters(id),
        channel_halves(NOTIFICATION_CHANNEL_SIZE, second.waiters(id).last(), second_receiver),
        told == second.waiters(id),
    ensures
        told.len() == before.waiters(id).len() + 2,
        channel_halves(
            NOTIFICATION_CHANNEL_SIZE,
            told[before.waiters(id).len() as int],
            first_receiver,
        ),
        channel_halves(
            NOTIFICATION_CHANNEL_SIZE,
            told[before.waiters(id).len() + 1int],
            second_receiver,
        ),
{
    let n = before.waiters(id).len() as int;
    assert(told[n] == second.waiters(id).drop_last()[n]);
    assert(first.waiters(id)[n] == first.waiters(id).last());
}

} // verus!
