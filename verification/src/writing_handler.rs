//! The writing handler: the spawned tasks that each put one message into one
//! channel, and what waiting for all of them gives.

use crate::error::DispatchError;
use tokio::sync::mpsc::error::SendError;
use tokio::task::{JoinError, JoinHandle};
use vstd::prelude::*;

verus! {

/// A spawned task sending one message.
pub type Handler<M> = JoinHandle<Result<(), SendError<M>>>;

/// The tasks that each send one message of a broadcast.
#[verifier::reject_recursive_types(M)]
pub struct WritingHandler<M> {
    handlers: Vec<Handler<M>>,
}

impl<M> WritingHandler<M> {
    /// The handles of the writing tasks, in the order they were spawned.
    pub closed spec fn handles(&self) -> Seq<Handler<M>> {
        self.handlers@
    }

    /// A handler with no writing; waiting on it succeeds at once.
    pub fn empty() -> (handler: Self)
        ensures
            handler.handles().len() == 0,
    {
        WritingHandler { handlers: Vec::new() }
    }

    /// A handler for the given writing tasks.
    pub fn from_handles(handlers: Vec<Handler<M>>) -> (handler: Self)
        ensures
            handler.handles() == handlers@,
    {
        WritingHandler { handlers }
    }

    /// The writing tasks, to be awaited.
    pub fn into_handles(self) -> (handlers: Vec<Handler<M>>)
        ensures
            handlers@ == self.handles(),
    {
        self.handlers
    }

    /// The number of writings.
    pub fn len(&self) -> (n: usize)
        ensures
            n == self.handles().len(),
    {
        self.handlers.len()
    }

    /// Whether there is no writing.
    pub fn is_empty(&self) -> (empty: bool)
        ensures
            empty == (self.handles().len() == 0),
    {
        self.len() == 0
    }
}

/// How one writing ended.
#[verifier::reject_recursive_types(M)]
pub enum WritingOutcome<M> {
    /// The message was put in the channel.
    Delivered,
    /// The receiver was gone; the message comes back.
    SendFailed(SendError<M>),
    /// The writing task did not run to completion.
    JoinFailed(JoinError),
    /// The writing did not finish within the duration.
    TimedOut(std::time::Duration),
}

/// The error a writing outcome stands for, if any.
pub open spec fn outcome_error<M>(outcome: WritingOutcome<M>) -> Option<DispatchError<M, ()>> {
    match outcome {
        WritingOutcome::Delivered => None,
        WritingOutcome::SendFailed(e) => Some(DispatchError::SendingError(e)),
        WritingOutcome::JoinFailed(e) => Some(DispatchError::JoiningError(e)),
        WritingOutcome::TimedOut(d) => Some(DispatchError::WritingTimeout(d)),
    }
}

/// The errors of the outcomes, in order.
pub open spec fn outcome_errors<M>(outcomes: Seq<WritingOutcome<M>>) -> Seq<DispatchError<M, ()>>
    decreases outcomes.len(),
{
    if outcomes.len() == 0 {
        Seq::empty()
    } else {
        let rest = outcome_errors(outcomes.drop_last());
        match outcome_error(outcomes.last()) {
            Some(e) => rest.push(e),
            None => rest,
        }
    }
}

/// What waiting on a writing handler gives, once each writing has ended:
/// the number of writings when all were delivered, and otherwise every error
/// met, in order.
pub fn settle_writings<M>(outcomes: Vec<WritingOutcome<M>>) -> (settled: Result<
    usize,
    DispatchError<M, ()>,
>)
    ensures
        outcome_errors(outcomes@).len() == 0 ==> settled == Ok::<usize, DispatchError<M, ()>>(
            outcomes@.len() as usize,
        ),
        outcome_errors(outcomes@).len() > 0 ==> (settled matches Err(
            DispatchError::WritingSendError(errors),
        ) && errors@ == outcome_errors(outcomes@)),
{
    let n = outcomes.len();
    let ghost all = outcomes@;
    let mut errors: Vec<DispatchError<M, ()>> = Vec::new();
    for outcome in it: outcomes.into_iter()
        invariant
            n == all.len(),
            it.seq() == all,
            errors@ == outcome_errors(all.take(it.index() as int)),
    {
        let ghost k = it.index() as int;
        assert(outcome == all[k]);
        match outcome {
            WritingOutcome::Delivered => {},
            WritingOutcome::SendFailed(e) => errors.push(DispatchError::SendingError(e)),
            WritingOutcome::JoinFailed(e) => errors.push(DispatchError::JoiningError(e)),
            WritingOutcome::TimedOut(d) => errors.push(DispatchError::WritingTimeout(d)),
        }
        proof {
            assert(all.take(k + 1).drop_last() =~= all.take(k));
            assert(all.take(k + 1).last() == all[k]);
        }
    }
    proof {
        assert(all.take(all.len() as int) =~= all);
    }
    if errors.len() == 0 {
        Ok(n)
    } else {
        Err(DispatchError::WritingSendError(errors))
    }
}

} // verus!
