//! The Tokio channel types this library carries, and the synchronous
//! operations on them that the library performs.

use vstd::prelude::*;

verus! {

/// The sending half of a bounded Tokio channel (`tokio::sync::mpsc::Sender`).
#[verifier::external_type_specification]
#[verifier::external_body]
#[verifier::reject_recursive_types(T)]
pub struct ExTokioSender<T>(tokio::sync::mpsc::Sender<T>);

/// The receiving half of a bounded Tokio channel (`tokio::sync::mpsc::Receiver`).
#[verifier::external_type_specification]
#[verifier::external_body]
#[verifier::reject_recursive_types(T)]
pub struct ExTokioReceiver<T>(tokio::sync::mpsc::Receiver<T>);

/// The error `Sender::send` gives back with the message when the receiver
/// is gone (`tokio::sync::mpsc::error::SendError`).
#[verifier::external_type_specification]
#[verifier::external_body]
#[verifier::reject_recursive_types(T)]
pub struct ExTokioSendError<T>(tokio::sync::mpsc::error::SendError<T>);

/// The error of a task that did not run to completion
/// (`tokio::task::JoinError`).
#[verifier::external_type_specification]
#[verifier::external_body]
pub struct ExTokioJoinError(tokio::task::JoinError);

/// A handle to a spawned task (`tokio::task::JoinHandle`).
#[verifier::external_type_specification]
#[verifier::external_body]
#[verifier::reject_recursive_types(T)]
pub struct ExTokioJoinHandle<T>(tokio::task::JoinHandle<T>);

/// The largest buffer a Tokio bounded channel accepts (its semaphore's
/// `MAX_PERMITS`, `usize::MAX >> 3`).
pub const MAX_CHANNEL_BUFFER: usize = usize::MAX >> 3;

/// Every buffer size up to `0x1fff_ffff` is accepted, whatever the width of
/// `usize`.
pub proof fn lemma_buffer_bound()
    ensures
        0x1fff_ffff <= MAX_CHANNEL_BUFFER,
{
    let top: usize = usize::MAX;
    assert(0x1fff_ffffusize <= (top >> 3usize)) by (bit_vector)
        requires
            top >= 0xffff_ffffusize,
    ;
}

/// Calls `tokio::sync::mpsc::channel`, which builds a fresh bounded channel
/// holding up to `buffer` messages.  Tokio asserts that the buffer is neither
/// zero nor above `MAX_PERMITS`; those inputs are excluded here.  Nothing is
/// stated of the two halves: they are new handles to a new channel.
#[verifier::external_body]
pub fn bounded_channel<T>(buffer: usize) -> (pair: (
    tokio::sync::mpsc::Sender<T>,
    tokio::sync::mpsc::Receiver<T>,
))
    requires
        0 < buffer <= MAX_CHANNEL_BUFFER,
{
    tokio::sync::mpsc::channel(buffer)
}

/// Whether `sender` and `receiver` are the two halves that one call of
/// `bounded_channel(buffer)` returned, so that what is sent on the sender
/// reaches the receiver.
pub open spec fn channel_halves<T>(
    buffer: usize,
    sender: tokio::sync::mpsc::Sender<T>,
    receiver: tokio::sync::mpsc::Receiver<T>,
) -> bool {
    call_ensures(bounded_channel::<T>, (buffer,), (sender, receiver))
}

/// Calls `tokio::sync::mpsc::Sender::is_closed`, which reports whether the
/// receiving half has been dropped or closed.  That depends on another owner
/// of the channel, so nothing is stated of the answer.
#[verifier::external_body]
pub fn sender_is_closed<T>(sender: &tokio::sync::mpsc::Sender<T>) -> (closed: bool) {
    sender.is_closed()
}

/// Calls `tokio::sync::mpsc::Sender::same_channel`, which tells whether two
/// senders are handles to one channel (it compares their shared pointers to
/// the channel).  As in the contract of `Sender::clone`, a sender stands for
/// the channel it is a handle to, so the answer is whether they are equal.
#[verifier::external_body]
pub fn senders_share_channel<T>(
    a: &tokio::sync::mpsc::Sender<T>,
    b: &tokio::sync::mpsc::Sender<T>,
) -> (same: bool)
    ensures
        same == (*a == *b),
{
    a.same_channel(b)
}

/// `Sender::clone` makes another handle to the same channel: a Tokio sender
/// is one shared pointer to the channel, and its clone copies that pointer
/// (after counting one more sender), so the copy is the same value.
pub assume_specification<T>[ <tokio::sync::mpsc::Sender<T> as Clone>::clone ](
    sender: &tokio::sync::mpsc::Sender<T>,
) -> (copy: tokio::sync::mpsc::Sender<T>)
    ensures
        copy == *sender,
;

} // verus!
