//! Errors of the dispatch center and of the writing handler.

use tokio::sync::mpsc::error::SendError;
use tokio::task::JoinError;
use vstd::prelude::*;

verus! {

/// Situations that the code rules out; kept so that callers can match on them.
#[derive(Debug, Clone, Copy, PartialEq, Eq, Structural)]
pub enum UnexpectedErrorKind {
    DurationIsMissing,
    InvalidChannelStateUnsubscribe,
}

/// What can go wrong when sending through, or managing, dispatch channels.
#[derive(Debug)]
#[verifier::reject_recursive_types(M)]
pub enum DispatchError<M, ChannelId> {
    /// Sending a message through a Tokio channel failed: the receiver is gone.
    SendingError(SendError<M>),
    /// A writing task did not run to completion.
    JoiningError(JoinError),
    /// All the send and join errors met while writing.
    WritingSendError(Vec<DispatchError<M, ChannelId>>),
    /// A writing did not finish within the given duration.
    WritingTimeout(std::time::Duration),
    /// A situation that should never happen.
    UnexpectedError(UnexpectedErrorKind),
    /// The receiver is not subscribed to the channel.
    NotSubscribed(ChannelId),
    /// The errors met while unsubscribing from several channels.
    NotSubscribeMultiple(Vec<DispatchError<M, ChannelId>>),
    /// The channel has never had a subscriber.
    ChannelUninitialized(ChannelId),
    /// The channel had subscribers and has none left.
    ChannelOver(ChannelId),
}

} // verus!
