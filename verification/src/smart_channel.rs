//! Channels whose two halves carry an identifier, so that a sender can be
//! matched with the receiver it belongs to.

use crate::mpsc::{bounded_channel, channel_halves, MAX_CHANNEL_BUFFER};
use tokio::sync::mpsc::Receiver as TokioReceiver;
use tokio::sync::mpsc::Sender as TokioSender;
use vstd::prelude::*;
use vstd::std_specs::cmp::PartialEqSpec;

verus! {

/// An identifier type whose `==` is equality of values and whose `clone`
/// gives back the same value.  Every law about bindings is stated for such
/// identifiers; what an arbitrary `PartialEq` or `Clone` does is unknown.
pub open spec fn faithful_id<Id: Clone + PartialEq>() -> bool {
    &&& Id::obeys_eq_spec()
    &&& forall|a: Id, b: Id| #[trigger] a.eq_spec(&b) <==> a == b
    &&& forall|a: Id, b: Id| #[trigger] call_ensures(Id::clone, (&a,), b) ==> a == b
}

/// Creates a Tokio channel holding up to `channel_size` messages and
/// associates both halves with `id`.
pub fn channel<T, Id: Clone + Eq + PartialEq>(channel_size: usize, id: Id) -> (pair: (
    SmartSender<T, Id>,
    SmartReceiver<T, Id>,
))
    requires
        0 < channel_size <= MAX_CHANNEL_BUFFER,
    ensures
        cloned(id, pair.0.bound_id()),
        pair.1.bound_id() == id,
        faithful_id::<Id>() ==> pair.0.bound_id() == id,
        channel_halves(channel_size, pair.0.tokio_sender(), pair.1.tokio_receiver()),
{
    let (sender, receiver) = bounded_channel(channel_size);
    bind(sender, receiver, id)
}

/// Wraps the given sender and receiver with the provided id.  The two
/// returned halves are bound to each other; whether the Tokio halves belong
/// to one channel is not checked.
pub fn bind<T, Id: Clone + Eq + PartialEq>(
    sender: TokioSender<T>,
    receiver: TokioReceiver<T>,
    id: Id,
) -> (pair: (SmartSender<T, Id>, SmartReceiver<T, Id>))
    ensures
        cloned(id, pair.0.bound_id()),
        pair.1.bound_id() == id,
        faithful_id::<Id>() ==> pair.0.bound_id() == id,
        pair.0.tokio_sender() == sender,
        pair.1.tokio_receiver() == receiver,
{
    let sender_id = id.clone();
    (SmartSender::new(sender, sender_id), SmartReceiver::new(receiver, id))
}

/// A Tokio sender with an identifier.  Clones keep the identifier.
#[verifier::reject_recursive_types(T)]
pub struct SmartSender<T, Id: Clone + Eq + PartialEq> {
    id: Id,
    sender: TokioSender<T>,
}

/// A Tokio receiver with an identifier.
#[verifier::reject_recursive_types(T)]
pub struct SmartReceiver<T, Id: Clone + Eq + PartialEq> {
    id: Id,
    receiver: TokioReceiver<T>,
}

impl<T, Id: Clone + Eq + PartialEq> SmartSender<T, Id> {
    /// The identifier this sender carries.
    pub closed spec fn bound_id(&self) -> Id {
        self.id
    }

    fn new(sender: TokioSender<T>, id: Id) -> (s: Self)
        ensures
            s.bound_id() == id,
            s.tokio_sender() == sender,
    {
        SmartSender { id, sender }
    }

    /// Returns a reference to the identifier of the sender.
    pub fn id(&self) -> (id: &Id)
        ensures
            *id == self.bound_id(),
    {
        &self.id
    }

    /// Returns `true` when the sender and the receiver carry the same
    /// identifier.
    pub fn is_bound_to(&self, receiver: &SmartReceiver<T, Id>) -> (bound: bool)
        ensures
            Id::obeys_eq_spec() ==> bound == self.bound_id().eq_spec(&receiver.bound_id()),
            faithful_id::<Id>() ==> (bound <==> self.bound_id() == receiver.bound_id()),
    {
        self.id == receiver.id
    }

    /// The Tokio sender this sender wraps.
    pub closed spec fn tokio_sender(&self) -> TokioSender<T> {
        self.sender
    }

    /// The Tokio sender inside.
    pub fn inner(&self) -> (sender: &TokioSender<T>)
        ensures
            *sender == self.tokio_sender(),
    {
        &self.sender
    }
}

impl<T, Id: Clone + Eq + PartialEq> SmartReceiver<T, Id> {
    /// The identifier this receiver carries.
    pub closed spec fn bound_id(&self) -> Id {
        self.id
    }

    fn new(receiver: TokioReceiver<T>, id: Id) -> (r: Self)
        ensures
            r.bound_id() == id,
            r.tokio_receiver() == receiver,
    {
        SmartReceiver { id, receiver }
    }

    /// Returns a clone of the identifier of the receiver.
    pub fn id(&self) -> (id: Id)
        ensures
            cloned(self.bound_id(), id),
            faithful_id::<Id>() ==> id == self.bound_id(),
    {
        self.id.clone()
    }

    /// Returns `true` when the receiver and the sender carry the same
    /// identifier.
    pub fn is_bound_to(&self, sender: &SmartSender<T, Id>) -> (bound: bool)
        ensures
            Id::obeys_eq_spec() ==> bound == self.bound_id().eq_spec(&sender.bound_id()),
            faithful_id::<Id>() ==> (bound <==> self.bound_id() == sender.bound_id()),
    {
        self.id == sender.id
    }

    /// The Tokio receiver this receiver wraps.
    pub closed spec fn tokio_receiver(&self) -> TokioReceiver<T> {
        self.receiver
    }

    /// The Tokio receiver inside.
    pub fn inner(&self) -> (receiver: &TokioReceiver<T>)
        ensures
            *receiver == self.tokio_receiver(),
    {
        &self.receiver
    }

    /// The Tokio receiver inside, for receiving; the identifier stays.
    pub fn inner_mut(&mut self) -> (receiver: &mut TokioReceiver<T>)
        ensures
            *receiver == old(self).tokio_receiver(),
            final(self).bound_id() == old(self).bound_id(),
            final(self).tokio_receiver() == *final(receiver),
    {
        &mut self.receiver
    }
}

impl<T, Id: Clone + Eq + PartialEq> Clone for SmartSender<T, Id> {
    fn clone(&self) -> (copy: Self)
        ensures
            cloned(self.bound_id(), copy.bound_id()),
            copy.tokio_sender() == self.tokio_sender(),
            faithful_id::<Id>() ==> copy == *self,
    {
        SmartSender { id: self.id.clone(), sender: self.sender.clone() }
    }
}

impl<T, Id: Clone + Eq + PartialEq> PartialEq for SmartSender<T, Id> {
    fn eq(&self, other: &Self) -> (same: bool) {
        self.id == other.id
    }
}

impl<T, Id: Clone + Eq + PartialEq> vstd::std_specs::cmp::PartialEqSpecImpl for SmartSender<T, Id> {
    open spec fn obeys_eq_spec() -> bool {
        Id::obeys_eq_spec()
    }

    open spec fn eq_spec(&self, other: &Self) -> bool {
        self.bound_id().eq_spec(&other.bound_id())
    }
}

impl<T, Id: Clone + Eq + PartialEq> Eq for SmartSender<T, Id> {

}

impl<T, Id: Clone + Eq + PartialEq> core::ops::Deref for SmartSender<T, Id> {
    type Target = TokioSender<T>;

    fn deref(&self) -> (sender: &TokioSender<T>)
        ensures
            *sender == self.tokio_sender(),
    {
        &self.sender
    }
}

impl<T, Id: Clone + Eq + PartialEq> core::ops::DerefMut for SmartSender<T, Id> {
    fn deref_mut(&mut self) -> (sender: &mut TokioSender<T>)
        ensures
            *sender == old(self).tokio_sender(),
            final(self).bound_id() == old(self).bound_id(),
            final(self).tokio_sender() == *final(sender),
    {
        &mut self.sender
    }
}

impl<T, Id: Clone + Eq + PartialEq> core::ops::Deref for SmartReceiver<T, Id> {
    type Target = TokioReceiver<T>;

    fn deref(&self) -> (receiver: &TokioReceiver<T>)
        ensures
            *receiver == self.tokio_receiver(),
    {
        &self.receiver
    }
}

impl<T, Id: Clone + Eq + PartialEq> core::ops::DerefMut for SmartReceiver<T, Id> {
    fn deref_mut(&mut self) -> (receiver: &mut TokioReceiver<T>)
        ensures
            *receiver == old(self).tokio_receiver(),
            final(self).bound_id() == old(self).bound_id(),
            final(self).tokio_receiver() == *final(receiver),
    {
        &mut self.receiver
    }
}

/// The two halves that `channel` and `bind` return are bound to each other:
/// `is_bound_to` answers `true` both ways.
pub proof fn lemma_halves_are_bound<T, Id: Clone + Eq + PartialEq>(
    id: Id,
    sender: SmartSender<T, Id>,
    receiver: SmartReceiver<T, Id>,
)
    requires
        faithful_id::<Id>(),
        cloned(id, sender.bound_id()),
        receiver.bound_id() == id,
    ensures
        sender.bound_id() == receiver.bound_id(),
        sender.bound_id().eq_spec(&receiver.bound_id()),
        receiver.bound_id().eq_spec(&sender.bound_id()),
{
}

/// A clone of a sender keeps its identifier: it is bound to the same
/// receivers, and `==` holds between the two.
pub proof fn lemma_clone_keeps_binding<T, Id: Clone + Eq + PartialEq>(
    sender: SmartSender<T, Id>,
    copy: SmartSender<T, Id>,
    receiver: SmartReceiver<T, Id>,
)
    requires
        faithful_id::<Id>(),
        cloned(sender.bound_id(), copy.bound_id()),
    ensures
        copy.bound_id() == sender.bound_id(),
        (copy.bound_id() == receiver.bound_id()) == (sender.bound_id() == receiver.bound_id()),
        sender.bound_id().eq_spec(&copy.bound_id()),
{
}

/// Binding is symmetric: a sender is bound to a receiver exactly when the
/// receiver is bound to the sender.
pub proof fn lemma_binding_is_symmetric<T, Id: Clone + Eq + PartialEq>(
    sender: SmartSender<T, Id>,
    receiver: SmartReceiver<T, Id>,
)
    requires
        faithful_id::<Id>(),
    ensures
        sender.bound_id().eq_spec(&receiver.bound_id()) == receiver.bound_id().eq_spec(
            &sender.bound_id(),
        ),
{
}

} // verus!
