//! The interface of the messages a dispatch center carries.

use vstd::prelude::*;

verus! {

/// A message that names the channel it belongs to, and that has a closing
/// form.  Implemented by the users of the dispatch center.
pub trait SendableMessage: Send + Sync + Sized + 'static {
    /// How many senders a message of this type is meant for.
    const NB_SENDERS: usize;

    /// The channel the message is sent on.
    fn to_id(&self) -> &'static str;

    /// Whether this message is the closing message.
    fn is_close(&self) -> bool;

    /// The closing message.
    fn close() -> Self;
}

} // verus!
