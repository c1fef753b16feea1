//! The dispatch center: named channels with subscribers, and waiters that are
//! told each time a channel gets a subscriber.
//!
//! The center keeps, for every channel name, the senders of its subscribers,
//! and for every name the senders of its creation waiters.  Everything here
//! is synchronous; sending on the handed-out senders is left to the caller.

use crate::channel_table::{
    kept_from, lemma_select_all, lemma_select_flagged, lemma_select_from, lemma_select_keeps, select,
    ChannelTable,
};
use crate::error::UnexpectedErrorKind;
use crate::error::DispatchError;
use crate::message_interface::SendableMessage;
use crate::mpsc::{
    bounded_channel, channel_halves, lemma_buffer_bound, sender_is_closed, senders_share_channel,
};
use tokio::sync::mpsc::Sender as TokioSender;
use crate::smart_channel::{channel, faithful_id, SmartReceiver, SmartSender};
use std::sync::Arc;
use vstd::prelude::*;

verus! {

/// The size of a subscriber channel.
pub const CHANNEL_SIZE: usize = 100;

/// The size of a creation-waiter channel.
pub const NOTIFIER_CHANNEL_SIZE: usize = 10;

/// The state of a channel, as `channel_state` reports it.
#[derive(Clone, Copy, Eq, PartialEq, Debug, Structural)]
pub enum ChannelState {
    /// The channel has never had a subscriber.
    Uninitialised,
    /// The channel has at least one subscriber.
    Running,
    /// The channel had subscribers and has none left.
    Over,
}

/// The identifier of every channel a dispatch center creates: a counter that
/// the center increases for each channel, so that no two of its channels
/// share an identifier, and a handle to a channel that the center owns, so
/// that identifiers made by two centers differ.
#[derive(Debug)]
pub struct SmartChannelId {
    channel_counter: usize,
    center: TokioSender<()>,
}

impl SmartChannelId {
    /// The value of the center's counter when this identifier was made.
    pub closed spec fn counter(self) -> nat {
        self.channel_counter as nat
    }

    /// The identity of the center that made this identifier.
    pub closed spec fn center(self) -> TokioSender<()> {
        self.center
    }
}

impl Clone for SmartChannelId {
    fn clone(&self) -> (copy: Self)
        ensures
            copy == *self,
    {
        SmartChannelId { channel_counter: self.channel_counter, center: self.center.clone() }
    }
}

impl PartialEq for SmartChannelId {
    fn eq(&self, other: &Self) -> (same: bool) {
        self.channel_counter == other.channel_counter && senders_share_channel(
            &self.center,
            &other.center,
        )
    }
}

impl Eq for SmartChannelId {

}

impl vstd::std_specs::cmp::PartialEqSpecImpl for SmartChannelId {
    open spec fn obeys_eq_spec() -> bool {
        true
    }

    open spec fn eq_spec(&self, other: &Self) -> bool {
        *self == *other
    }
}

/// Two identifiers made by one center are the same identifier exactly when
/// they carry the same counter.
pub proof fn lemma_counter_identifies(a: SmartChannelId, b: SmartChannelId)
    requires
        a.center() == b.center(),
    ensures
        a.counter() == b.counter() <==> a == b,
{
}

/// Channel identifiers compare by value and clone to themselves.
pub proof fn lemma_channel_ids_are_faithful()
    ensures
        faithful_id::<SmartChannelId>(),
{
}

pub type Msg<M> = Arc<M>;

pub type MessageSender<M> = SmartSender<Msg<M>, SmartChannelId>;

pub type MessageReceiver<M> = SmartReceiver<Msg<M>, SmartChannelId>;

pub type Waiter = SmartReceiver<(), SmartChannelId>;

pub type WaiterSender = SmartSender<(), SmartChannelId>;

pub type ChannelId = &'static str;

/// The identifiers carried by a list of senders, in order.
pub open spec fn ids_of<T>(senders: Seq<SmartSender<T, SmartChannelId>>) -> Seq<SmartChannelId> {
    senders.map_values(|s: SmartSender<T, SmartChannelId>| s.bound_id())
}

/// The texts of a list of channel names.
pub open spec fn names_of(ids: Seq<ChannelId>) -> Seq<Seq<char>> {
    ids.map_values(|n: ChannelId| n@)
}

/// How many times the name occurs in the list.
pub open spec fn count_of(names: Seq<Seq<char>>, name: Seq<char>) -> nat
    decreases names.len(),
{
    if names.len() == 0 {
        0
    } else {
        count_of(names.drop_last(), name) + if names.last() == name {
            1nat
        } else {
            0nat
        }
    }
}

/// Whether some entry of the list is for the named channel.
pub open spec fn has_entry<T>(entries: Seq<(ChannelId, T)>, name: Seq<char>) -> bool {
    exists|j: int| 0 <= j < entries.len() && (#[trigger] entries[j]).0@ == name
}

/// A filter that keeps every element changes nothing.
pub proof fn lemma_filter_keeps_all<T>(s: Seq<T>, pred: spec_fn(T) -> bool)
    requires
        forall|k: int| 0 <= k < s.len() ==> pred(#[trigger] s[k]),
    ensures
        s.filter(pred) == s,
    decreases s.len(),
{
    reveal(Seq::filter);
    if s.len() > 0 {
        lemma_filter_keeps_all(s.drop_last(), pred);
        assert(s.drop_last().push(s.last()) =~= s);
    }
}

/// Clones every sender of the list; each clone is a handle to the same
/// channel with the same identifier, that is, the same sender.
fn clone_senders<T>(senders: &Vec<SmartSender<T, SmartChannelId>>) -> (clones: Vec<
    SmartSender<T, SmartChannelId>,
>)
    ensures
        clones@ == senders@,
{
    proof {
        lemma_channel_ids_are_faithful();
    }
    let mut clones: Vec<SmartSender<T, SmartChannelId>> = Vec::new();
    let mut i: usize = 0;
    while i < senders.len()
        invariant
            faithful_id::<SmartChannelId>(),
            i <= senders@.len(),
            clones@ == senders@.take(i as int),
        decreases senders@.len() - i,
    {
        let copy = senders[i].clone();
        clones.push(copy);
        assert(clones@ =~= senders@.take(i as int + 1));
        i = i + 1;
    }
    assert(senders@.take(senders@.len() as int) =~= senders@);
    clones
}

/// The senders of the list that are not bound to the receiver, in order.
fn without_receiver<T>(
    list: Vec<SmartSender<T, SmartChannelId>>,
    receiver: &SmartReceiver<T, SmartChannelId>,
) -> (kept: Vec<SmartSender<T, SmartChannelId>>)
    ensures
        kept@ == list@.filter(
            |s: SmartSender<T, SmartChannelId>| s.bound_id() != receiver.bound_id(),
        ),
{
    proof {
        lemma_channel_ids_are_faithful();
    }
    let ghost all = list@;
    let ghost pred = |s: SmartSender<T, SmartChannelId>| s.bound_id() != receiver.bound_id();
    let mut kept: Vec<SmartSender<T, SmartChannelId>> = Vec::new();
    for s in it: list.into_iter()
        invariant
            faithful_id::<SmartChannelId>(),
            it.seq() == all,
            pred == (|s: SmartSender<T, SmartChannelId>| s.bound_id() != receiver.bound_id()),
            kept@ == all.take(it.index() as int).filter(pred),
    {
        let ghost k = it.index() as int;
        assert(s == all[k]);
        let bound = s.is_bound_to(receiver);
        if !bound {
            kept.push(s);
        }
        proof {
            let prefix = all.take(k + 1);
            assert(prefix.drop_last() =~= all.take(k));
            assert(prefix.last() == all[k]);
            reveal(Seq::filter);
            assert(prefix.filter(pred) == if pred(prefix.last()) {
                prefix.drop_last().filter(pred).push(prefix.last())
            } else {
                prefix.drop_last().filter(pred)
            });
        }
    }
    proof {
        assert(all.take(all.len() as int) =~= all);
    }
    kept
}

/// The flags that keep an element exactly when it is not closed.
pub open spec fn open_flags(closed: Seq<bool>) -> Seq<bool> {
    closed.map_values(|c: bool| !c)
}

/// Whether `closed` is an answer that `sender_is_closed` gave for the
/// sender's Tokio half: the flag comes from asking Tokio about this sender.
pub open spec fn told_closed<T>(sender: SmartSender<T, SmartChannelId>, closed: bool) -> bool {
    call_ensures(sender_is_closed::<T>, (&sender.tokio_sender(),), closed)
}

/// Whether `closed` holds, for each sender of the list in order, an answer
/// that Tokio gave to whether its receiver is closed.
pub open spec fn told_closed_flags<T>(list: Seq<SmartSender<T, SmartChannelId>>, closed: Seq<bool>) -> bool {
    &&& closed.len() == list.len()
    &&& forall|k: int| 0 <= k < list.len() ==> told_closed(list[k], #[trigger] closed[k])
}

/// Whether `after` is `before` without exactly the senders for which Tokio
/// answered that their receiver is closed, the others kept in order.
pub open spec fn cleaned_by_tokio<T>(
    after: Seq<SmartSender<T, SmartChannelId>>,
    before: Seq<SmartSender<T, SmartChannelId>>,
) -> bool {
    exists|closed: Seq<bool>|
        #![trigger told_closed_flags(before, closed)]
        told_closed_flags(before, closed) && after == select(before, open_flags(closed))
}

/// Asks Tokio, for each sender of the list in order, whether its receiver
/// is closed.  The answers depend on the owners of the receivers, so only
/// their number is stated.
fn closed_flags<T>(list: &Vec<SmartSender<T, SmartChannelId>>) -> (closed: Vec<bool>)
    ensures
        closed@.len() == list@.len(),
        forall|k: int|
            0 <= k < list@.len() ==> told_closed(list@[k], #[trigger] closed@[k]),
{
    let mut closed: Vec<bool> = Vec::new();
    let mut k: usize = 0;
    while k < list.len()
        invariant
            k <= list@.len(),
            closed@.len() == k,
            forall|j: int| 0 <= j < k ==> told_closed(list@[j], #[trigger] closed@[j]),
        decreases list@.len() - k,
    {
        closed.push(sender_is_closed(list[k].inner()));
        k = k + 1;
    }
    closed
}

/// The senders of the list whose flag in `closed` is not set, in order.
fn retain_open<T>(list: Vec<SmartSender<T, SmartChannelId>>, closed: &Vec<bool>) -> (kept: Vec<
    SmartSender<T, SmartChannelId>,
>)
    requires
        closed@.len() == list@.len(),
    ensures
        kept@ == select(list@, open_flags(closed@)),
{
    let ghost all = list@;
    let n = closed.len();
    let mut kept: Vec<SmartSender<T, SmartChannelId>> = Vec::new();
    let mut k: usize = 0;
    for s in it: list.into_iter()
        invariant
            n == closed@.len(),
            it.seq() == all,
            all.len() == closed@.len(),
            k == it.index(),
            kept@ == select(all.take(k as int), open_flags(closed@).take(k as int)),
    {
        assert(s == all[k as int]);
        if !closed[k] {
            kept.push(s);
        }
        proof {
            let flags = open_flags(closed@);
            assert(all.take(k + 1).drop_last() =~= all.take(k as int));
            assert(flags.take(k + 1).drop_last() =~= flags.take(k as int));
            assert(all.take(k + 1).last() == all[k as int]);
            assert(flags.take(k + 1).last() == !closed@[k as int]);
        }
        k = k + 1;
    }
    proof {
        assert(all.take(all.len() as int) =~= all);
        assert(open_flags(closed@).take(all.len() as int) =~= open_flags(closed@));
    }
    kept
}

/// The main structure of the crate: the senders to the subscribers of each
/// channel and the senders to the waiters of each channel.
#[verifier::reject_recursive_types(M)]
pub struct DispatchCenter<M: SendableMessage> {
    connection_id: usize,
    identity: TokioSender<()>,
    senders: ChannelTable<MessageSender<M>>,
    waiter_senders: ChannelTable<WaiterSender>,
}

impl<M: SendableMessage> DispatchCenter<M> {
    /// The counter the next channel identifier will carry.
    pub closed spec fn next_id(&self) -> nat {
        self.connection_id as nat
    }

    /// The identity every channel identifier of this center carries.
    pub closed spec fn identity(&self) -> TokioSender<()> {
        self.identity
    }

    /// The names of the channels that have had a subscriber, oldest first.
    pub closed spec fn channels(&self) -> Seq<Seq<char>> {
        self.senders.names()
    }

    /// Whether the channel has ever had a subscriber.
    pub closed spec fn initialised(&self, channel: Seq<char>) -> bool {
        self.senders.has(channel)
    }

    /// The senders to the current subscribers of the channel.
    pub closed spec fn subscribers(&self, channel: Seq<char>) -> Seq<MessageSender<M>> {
        self.senders.list(channel)
    }

    /// The senders to the creation waiters of the channel.
    pub closed spec fn waiters(&self, channel: Seq<char>) -> Seq<WaiterSender> {
        self.waiter_senders.list(channel)
    }

    /// The identifiers of the current subscribers of the channel.
    pub open spec fn subscriber_ids(&self, channel: Seq<char>) -> Seq<SmartChannelId> {
        ids_of(self.subscribers(channel))
    }

    /// The identifiers of the creation waiters of the channel.
    pub open spec fn waiter_ids(&self, channel: Seq<char>) -> Seq<SmartChannelId> {
        ids_of(self.waiters(channel))
    }

    /// The state of a channel.
    pub open spec fn state_of(&self, channel: Seq<char>) -> ChannelState {
        if !self.initialised(channel) {
            ChannelState::Uninitialised
        } else if self.subscribers(channel).len() > 0 {
            ChannelState::Running
        } else {
            ChannelState::Over
        }
    }

    /// Whether the receiver with this identifier is subscribed to the
    /// channel: the channel runs and one of its subscribers is bound to it.
    pub open spec fn subscribed(&self, channel: Seq<char>, id: SmartChannelId) -> bool {
        self.state_of(channel) == ChannelState::Running && self.subscriber_ids(channel).contains(id)
    }

    /// Every identifier handed out so far was made from a smaller counter.
    pub closed spec fn wf(&self) -> bool {
        &&& self.senders.wf()
        &&& self.waiter_senders.wf()
        &&& forall|c: Seq<char>, i: int|
            0 <= i < self.senders.list(c).len() ==> (#[trigger] self.senders.list(
                c,
            )[i]).bound_id().counter() < self.connection_id
        &&& forall|c: Seq<char>, i: int|
            0 <= i < self.waiter_senders.list(c).len() ==> (#[trigger] self.waiter_senders.list(
                c,
            )[i]).bound_id().counter() < self.connection_id
    }

    /// Only channels that have had a subscriber have a list, and every
    /// identifier of a list was made before the next one.
    pub proof fn lemma_wf(&self)
        requires
            self.wf(),
        ensures
            forall|c: Seq<char>| !self.initialised(c) ==> self.subscribers(c).len() == 0,
            forall|c: Seq<char>| self.initialised(c) <==> self.channels().contains(c),
            self.channels().no_duplicates(),
            forall|c: Seq<char>, i: int|
                0 <= i < self.subscriber_ids(c).len() ==> (#[trigger] self.subscriber_ids(
                    c,
                )[i]).counter() < self.next_id(),
            forall|c: Seq<char>, i: int|
                0 <= i < self.waiter_ids(c).len() ==> (#[trigger] self.waiter_ids(c)[i]).counter()
                    < self.next_id(),
    {
        assert forall|c: Seq<char>, i: int|
            0 <= i < self.subscriber_ids(c).len() implies (#[trigger] self.subscriber_ids(
                c,
            )[i]).counter() < self.next_id() by {
            assert(self.senders.list(c)[i].bound_id() == self.subscriber_ids(c)[i]);
        }
        assert forall|c: Seq<char>, i: int|
            0 <= i < self.waiter_ids(c).len() implies (#[trigger] self.waiter_ids(c)[i]).counter()
                < self.next_id() by {
            assert(self.waiter_senders.list(c)[i].bound_id() == self.waiter_ids(c)[i]);
        }
    }

    /// An empty center: no channel, no waiter.
    pub fn new() -> (center: Self)
        ensures
            center.wf(),
            center.next_id() == 0,
            center.channels().len() == 0,
            forall|c: Seq<char>|
                center.state_of(c) == ChannelState::Uninitialised && center.waiters(c).len() == 0,
    {
        proof {
            lemma_buffer_bound();
        }
        let (identity, _) = bounded_channel(1);
        DispatchCenter {
            connection_id: 0,
            identity,
            senders: ChannelTable::new(),
            waiter_senders: ChannelTable::new(),
        }
    }

    /// Makes a fresh channel identifier and advances the counter.
    fn get_new_id(&mut self) -> (id: SmartChannelId)
        requires
            old(self).wf(),
            old(self).next_id() < usize::MAX,
        ensures
            final(self).wf(),
            id.counter() == old(self).next_id(),
            id.center() == old(self).identity(),
            final(self).identity() == old(self).identity(),
            final(self).next_id() == old(self).next_id() + 1,
            final(self).senders == old(self).senders,
            final(self).waiter_senders == old(self).waiter_senders,
    {
        let channel_counter = self.connection_id;
        self.connection_id = self.connection_id + 1;
        SmartChannelId { channel_counter, center: self.identity.clone() }
    }

    /// The counter the next channel identifier will carry; a subscription or
    /// a waiter can be made while it is below `usize::MAX`.
    pub fn connection_counter(&self) -> (counter: usize)
        ensures
            counter == self.next_id(),
    {
        self.connection_id
    }

    /// The state of the given channel.
    pub fn channel_state(&self, id: ChannelId) -> (state: ChannelState)
        requires
            self.wf(),
        ensures
            state == self.state_of(id@),
    {
        match self.senders.find(id) {
            Some(i) => {
                proof {
                    self.senders.lemma_entry(i as int);
                }
                if self.senders.list_at(i).len() > 0 {
                    ChannelState::Running
                } else {
                    ChannelState::Over
                }
            },
            None => ChannelState::Uninitialised,
        }
    }

    /// The number of subscribers of the channel; 0 when it is uninitialised
    /// or over.
    pub fn channel_number_subscriber(&self, id: ChannelId) -> (n: usize)
        requires
            self.wf(),
        ensures
            n == self.subscribers(id@).len(),
            self.state_of(id@) != ChannelState::Running ==> n == 0,
    {
        match self.senders.find(id) {
            Some(i) => {
                proof {
                    self.senders.lemma_entry(i as int);
                }
                self.senders.list_at(i).len()
            },
            None => 0,
        }
    }

    /// The number of creation waiters of the channel.
    pub fn number_of_waiter(&self, id: ChannelId) -> (n: usize)
        requires
            self.wf(),
        ensures
            n == self.waiters(id@).len(),
    {
        match self.waiter_senders.find(id) {
            Some(i) => {
                proof {
                    self.waiter_senders.lemma_entry(i as int);
                }
                self.waiter_senders.list_at(i).len()
            },
            None => 0,
        }
    }

    /// Whether the receiver is subscribed to the channel.
    pub fn is_subscribed(&self, channel: ChannelId, receiver: &MessageReceiver<M>) -> (subscribed:
        bool)
        requires
            self.wf(),
        ensures
            subscribed == self.subscribed(channel@, receiver.bound_id()),
    {
        proof {
            lemma_channel_ids_are_faithful();
        }
        match self.senders.find(channel) {
            Some(i) => {
                proof {
                    self.senders.lemma_entry(i as int);
                }
                let list = self.senders.list_at(i);
                let mut j: usize = 0;
                while j < list.len()
                    invariant
                        faithful_id::<SmartChannelId>(),
                        j <= list@.len(),
                        list@ == self.subscribers(channel@),
                        forall|k: int|
                            0 <= k < j ==> list@[k].bound_id() != receiver.bound_id(),
                    decreases list@.len() - j,
                {
                    if list[j].is_bound_to(receiver) {
                        assert(self.subscriber_ids(channel@)[j as int] == receiver.bound_id());
                        return true;
                    }
                    j = j + 1;
                }
                proof {
                    if self.subscriber_ids(channel@).contains(receiver.bound_id()) {
                        let k = choose|k: int|
                            0 <= k < self.subscriber_ids(channel@).len()
                                && self.subscriber_ids(channel@)[k] == receiver.bound_id();
                        assert(list@[k].bound_id() == receiver.bound_id());
                    }
                }
                false
            },
            None => false,
        }
    }

    /// Copies of the senders to the creation waiters of the channel.
    fn notify_creation(&self, id: ChannelId) -> (notices: Vec<WaiterSender>)
        requires
            self.wf(),
        ensures
            notices@ == self.waiters(id@),
    {
        match self.waiter_senders.find(id) {
            Some(i) => {
                proof {
                    self.waiter_senders.lemma_entry(i as int);
                }
                clone_senders(self.waiter_senders.list_at(i))
            },
            None => Vec::new(),
        }
    }

    /// Adds the sender to the channel's subscribers, and returns copies of the
    /// senders to the channel's creation waiters, which the caller notifies.
    fn insert_sender(&mut self, sender: MessageSender<M>, id: ChannelId) -> (notices: Vec<
        WaiterSender,
    >)
        requires
            old(self).wf(),
            sender.bound_id().counter() < old(self).next_id(),
        ensures
            final(self).wf(),
            final(self).identity() == old(self).identity(),
            final(self).next_id() == old(self).next_id(),
            final(self).subscribers(id@) == old(self).subscribers(id@).push(sender),
            forall|c: Seq<char>|
                c != id@ ==> #[trigger] final(self).subscribers(c) == old(self).subscribers(c),
            final(self).channels() == if old(self).initialised(id@) {
                old(self).channels()
            } else {
                old(self).channels().push(id@)
            },
            forall|c: Seq<char>|
                #[trigger] final(self).initialised(c) <==> (old(self).initialised(c) || c == id@),
            final(self).waiter_senders == old(self).waiter_senders,
            notices@ == old(self).waiters(id@),
    {
        self.senders.push(id, sender);
        proof {
            assert forall|c: Seq<char>| #[trigger] self.initialised(c) <==> (old(self).initialised(
                c,
            ) || c == id@) by {
                if c != id@ && self.senders.names().contains(c) {
                    let j = choose|j: int|
                        0 <= j < self.senders.names().len() && self.senders.names()[j] == c;
                    if !old(self).senders.names().contains(id@) {
                        assert(j < old(self).senders.names().len());
                        assert(old(self).senders.names()[j] == c);
                    }
                }
                if c == id@ && !old(self).senders.names().contains(id@) {
                    assert(self.senders.names()[old(self).senders.names().len() as int] == id@);
                }
                if old(self).senders.names().contains(c) {
                    let j = choose|j: int|
                        0 <= j < old(self).senders.names().len() && old(self).senders.names()[j]
                            == c;
                    assert(self.senders.names()[j] == c);
                }
            }
            assert forall|c: Seq<char>, i: int|
                0 <= i < self.senders.list(c).len() implies (#[trigger] self.senders.list(
                c,
            )[i]).bound_id().counter() < self.connection_id by {
                if c != id@ {
                    assert(self.senders.list(c) == old(self).senders.list(c));
                } else if i < old(self).senders.list(c).len() {
                    assert(self.senders.list(c)[i] == old(self).senders.list(c)[i]);
                }
            }
        }
        self.notify_creation(id)
    }

    /// Subscribes a new receiver to the channel.  Returns the receiver, with
    /// copies of the senders to the channel's creation waiters: sending `()`
    /// on each of them tells the waiters of the subscription.
    pub fn subscribe(&mut self, id: ChannelId) -> (subscription: (MessageReceiver<M>, Vec<
        WaiterSender,
    >))
        requires
            old(self).wf(),
            old(self).next_id() < usize::MAX,
        ensures
            final(self).wf(),
            forall|c: Seq<char>|
                old(self).state_of(c) != ChannelState::Uninitialised ==> (#[trigger] final(self).state_of(
                    c,
                )) != ChannelState::Uninitialised,
            final(self).identity() == old(self).identity(),
            subscription.0.bound_id().counter() == old(self).next_id(),
            subscription.0.bound_id().center() == old(self).identity(),
            final(self).next_id() == old(self).next_id() + 1,
            final(self).subscriber_ids(id@) == old(self).subscriber_ids(id@).push(
                subscription.0.bound_id(),
            ),
            final(self).subscribers(id@).drop_last() == old(self).subscribers(id@),
            channel_halves(
                CHANNEL_SIZE,
                final(self).subscribers(id@).last().tokio_sender(),
                subscription.0.tokio_receiver(),
            ),
            forall|c: Seq<char>|
                c != id@ ==> #[trigger] final(self).subscribers(c) == old(self).subscribers(c),
            final(self).channels() == if old(self).initialised(id@) {
                old(self).channels()
            } else {
                old(self).channels().push(id@)
            },
            final(self).state_of(id@) == ChannelState::Running,
            final(self).subscribed(id@, subscription.0.bound_id()),
            forall|c: Seq<char>| #[trigger] final(self).waiters(c) == old(self).waiters(c),
            subscription.1@ == old(self).waiters(id@),
            forall|c: Seq<char>|
                !(#[trigger] old(self).subscriber_ids(c)).contains(subscription.0.bound_id()),
    {
        proof {
            lemma_channel_ids_are_faithful();
            lemma_buffer_bound();
            old(self).lemma_wf();
        }
        let channel_id = self.get_new_id();
        let (sender, receiver) = channel(CHANNEL_SIZE, channel_id);
        let notices = self.insert_sender(sender, id);
        proof {
            assert(self.subscriber_ids(id@) =~= old(self).subscriber_ids(id@).push(
                receiver.bound_id(),
            ));
            self.senders.lemma_found(id@);
            let last = self.subscriber_ids(id@).len() - 1;
            assert(self.subscriber_ids(id@)[last] == receiver.bound_id());
        }
        (receiver, notices)
    }

    /// Makes a new waiter for the channel; it is told of every later
    /// subscription to the channel.
    pub fn get_waiter(&mut self, id: ChannelId) -> (waiter: Waiter)
        requires
            old(self).wf(),
            old(self).next_id() < usize::MAX,
        ensures
            final(self).wf(),
            forall|c: Seq<char>|
                old(self).state_of(c) != ChannelState::Uninitialised ==> (#[trigger] final(self).state_of(
                    c,
                )) != ChannelState::Uninitialised,
            final(self).identity() == old(self).identity(),
            waiter.bound_id().counter() == old(self).next_id(),
            waiter.bound_id().center() == old(self).identity(),
            final(self).next_id() == old(self).next_id() + 1,
            final(self).waiter_ids(id@) == old(self).waiter_ids(id@).push(waiter.bound_id()),
            final(self).waiters(id@).drop_last() == old(self).waiters(id@),
            channel_halves(
                NOTIFIER_CHANNEL_SIZE,
                final(self).waiters(id@).last().tokio_sender(),
                waiter.tokio_receiver(),
            ),
            forall|c: Seq<char>|
                c != id@ ==> #[trigger] final(self).waiters(c) == old(self).waiters(c),
            forall|c: Seq<char>| #[trigger] final(self).subscribers(c) == old(self).subscribers(c),
            final(self).channels() == old(self).channels(),
            forall|c: Seq<char>| #[trigger] final(self).initialised(c) == old(self).initialised(c),
    {
        proof {
            lemma_channel_ids_are_faithful();
            lemma_buffer_bound();
        }
        let channel_id = self.get_new_id();
        let (sender, receiver) = channel(NOTIFIER_CHANNEL_SIZE, channel_id);
        self.waiter_senders.push(id, sender);
        proof {
            assert(self.waiter_ids(id@) =~= old(self).waiter_ids(id@).push(receiver.bound_id()));
            assert forall|c: Seq<char>, i: int|
                0 <= i < self.waiter_senders.list(c).len() implies (
            #[trigger] self.waiter_senders.list(c)[i]).bound_id().counter()
                < self.connection_id by {
                if c != id@ {
                    assert(self.waiter_senders.list(c) == old(self).waiter_senders.list(c));
                } else if i < old(self).waiter_senders.list(c).len() {
                    assert(self.waiter_senders.list(c)[i] == old(self).waiter_senders.list(c)[i]);
                }
            }
        }
        receiver
    }

    /// Puts `list` as the subscribers of the channel at position `i`, and
    /// hands back the subscribers it had.
    fn replace_subscribers(&mut self, i: usize, list: Vec<MessageSender<M>>) -> (previous: Vec<
        MessageSender<M>,
    >)
        requires
            old(self).wf(),
            i < old(self).channels().len(),
            forall|k: int|
                0 <= k < list@.len() ==> (#[trigger] list@[k]).bound_id().counter() < old(
                    self,
                ).next_id(),
        ensures
            final(self).wf(),
            final(self).identity() == old(self).identity(),
            previous@ == old(self).subscribers(old(self).channels()[i as int]),
            final(self).subscribers(old(self).channels()[i as int]) == list@,
            forall|c: Seq<char>|
                c != old(self).channels()[i as int] ==> #[trigger] final(self).subscribers(c)
                    == old(self).subscribers(c),
            final(self).channels() == old(self).channels(),
            forall|c: Seq<char>| #[trigger] final(self).initialised(c) == old(self).initialised(c),
            final(self).waiter_senders == old(self).waiter_senders,
            final(self).next_id() == old(self).next_id(),
    {
        let previous = self.senders.replace_list(i, list);
        proof {
            let name = old(self).channels()[i as int];
            assert forall|c: Seq<char>, k: int|
                0 <= k < self.senders.list(c).len() implies (#[trigger] self.senders.list(
                c,
            )[k]).bound_id().counter() < self.connection_id by {
                if c != name {
                    assert(self.senders.list(c) == old(self).senders.list(c));
                } else {
                    assert(self.senders.list(c)[k] == list@[k]);
                }
            }
        }
        previous
    }

    /// Removes every sender bound to the receiver from the channel.  Fails,
    /// changing nothing, when the channel is uninitialised, over, or when
    /// the receiver is not subscribed to it.  Returns the new state of the
    /// channel.
    #[verifier::spinoff_prover]
    pub fn unsubscribe(&mut self, id: ChannelId, receiver: &MessageReceiver<M>) -> (result: Result<
        ChannelState,
        DispatchError<M, ChannelId>,
    >)
        requires
            old(self).wf(),
        ensures
            final(self).wf(),
            forall|c: Seq<char>|
                old(self).state_of(c) != ChannelState::Uninitialised ==> (#[trigger] final(self).state_of(
                    c,
                )) != ChannelState::Uninitialised,
            final(self).identity() == old(self).identity(),
            old(self).state_of(id@) == ChannelState::Uninitialised ==> result == Err::<
                ChannelState,
                DispatchError<M, ChannelId>,
            >(DispatchError::ChannelUninitialized(id)) && *final(self) == *old(self),
            old(self).state_of(id@) == ChannelState::Over ==> result == Err::<
                ChannelState,
                DispatchError<M, ChannelId>,
            >(DispatchError::ChannelOver(id)) && *final(self) == *old(self),
            old(self).state_of(id@) == ChannelState::Running && !old(self).subscriber_ids(
                id@,
            ).contains(receiver.bound_id()) ==> result == Err::<
                ChannelState,
                DispatchError<M, ChannelId>,
            >(DispatchError::NotSubscribed(id)) && *final(self) == *old(self),
            old(self).state_of(id@) == ChannelState::Running && old(self).subscriber_ids(
                id@,
            ).contains(receiver.bound_id()) ==> {
                &&& result == Ok::<ChannelState, DispatchError<M, ChannelId>>(
                    final(self).state_of(id@),
                )
                &&& final(self).subscribers(id@) == old(self).subscribers(id@).filter(
                    |s: MessageSender<M>| s.bound_id() != receiver.bound_id(),
                )
                &&& !final(self).subscribed(id@, receiver.bound_id())
                &&& forall|other: SmartChannelId|
                    other != receiver.bound_id() ==> (#[trigger] final(self).subscriber_ids(
                        id@,
                    ).contains(other) <==> old(self).subscriber_ids(id@).contains(other))
                &&& forall|c: Seq<char>|
                    c != id@ ==> #[trigger] final(self).subscribers(c) == old(self).subscribers(c)
                &&& final(self).channels() == old(self).channels()
                &&& forall|c: Seq<char>| #[trigger] final(self).waiters(c) == old(self).waiters(c)
                &&& final(self).next_id() == old(self).next_id()
            },
    {
        match self.channel_state(id) {
            ChannelState::Running => {
                if !self.is_subscribed(id, receiver) {
                    return Err(DispatchError::NotSubscribed(id));
                }
                match self.senders.find(id) {
                    Some(i) => {
                        proof {
                            self.senders.lemma_entry(i as int);
                            self.lemma_wf();
                        }
                        let previous = self.replace_subscribers(i, Vec::new());
                        let kept = without_receiver(previous, receiver);
                        proof {
                            let pred = |s: MessageSender<M>| s.bound_id() != receiver.bound_id();
                            assert forall|k: int| 0 <= k < kept@.len() implies (
                            #[trigger] kept@[k]).bound_id().counter() < self.next_id() by {
                                assert(previous@.filter(pred).contains(kept@[k]));
                                previous@.lemma_filter_contains_rev(pred, kept@[k]);
                                let j = choose|j: int|
                                    0 <= j < previous@.len() && previous@[j] == kept@[k];
                                assert(old(self).subscriber_ids(id@)[j] == kept@[k].bound_id());
                            }
                        }
                        self.replace_subscribers(i, kept);
                        proof {
                            let pred = |s: MessageSender<M>| s.bound_id() != receiver.bound_id();
                            if self.subscriber_ids(id@).contains(receiver.bound_id()) {
                                let k = choose|k: int|
                                    0 <= k < self.subscriber_ids(id@).len()
                                        && self.subscriber_ids(id@)[k] == receiver.bound_id();
                                broadcast use vstd::seq_lib::group_filter_ensures;

                                assert(pred(kept@[k]));
                            }
                            assert forall|c: Seq<char>|
                                #[trigger] self.waiters(c) == old(self).waiters(c) by {}
                            let ids = old(self).subscriber_ids(id@);
                            let pred = |s: MessageSender<M>| s.bound_id() != receiver.bound_id();
                            assert(self.subscribers(id@) == kept@);
                            assert(previous@ == old(self).subscribers(id@));
                            assert forall|other: SmartChannelId| other != receiver.bound_id() implies (
                            #[trigger] self.subscriber_ids(id@).contains(other) <==> ids.contains(
                                other,
                            )) by {
                                broadcast use vstd::seq_lib::group_filter_ensures;

                                if ids.contains(other) {
                                    let j = choose|j: int| 0 <= j < ids.len() && ids[j] == other;
                                    assert(pred(previous@[j]));
                                    assert(kept@.contains(previous@[j]));
                                    let k = choose|k: int|
                                        0 <= k < kept@.len() && kept@[k] == previous@[j];
                                    assert(self.subscriber_ids(id@)[k] == other);
                                }
                                if self.subscriber_ids(id@).contains(other) {
                                    let k = choose|k: int|
                                        0 <= k < self.subscriber_ids(id@).len()
                                            && self.subscriber_ids(id@)[k] == other;
                                    previous@.lemma_filter_contains_rev(pred, kept@[k]);
                                    let j = choose|j: int|
                                        0 <= j < previous@.len() && previous@[j] == kept@[k];
                                    assert(ids[j] == other);
                                }
                            }
                        }
                        Ok(self.channel_state(id))
                    },
                    None => Err(
                        DispatchError::UnexpectedError(
                            UnexpectedErrorKind::InvalidChannelStateUnsubscribe,
                        ),
                    ),
                }
            },
            ChannelState::Over => Err(DispatchError::ChannelOver(id)),
            ChannelState::Uninitialised => Err(DispatchError::ChannelUninitialized(id)),
        }
    }

    /// Drops from a running channel the subscribers whose flag in `closed`
    /// is set, keeping the others in order; other channels are left as they
    /// are.  Returns the state of the channel after cleaning.
    pub fn clean_channel_with(&mut self, channel: ChannelId, closed: &Vec<bool>) -> (state:
        ChannelState)
        requires
            old(self).wf(),
            old(self).state_of(channel@) == ChannelState::Running ==> closed@.len() == old(
                self,
            ).subscribers(channel@).len(),
        ensures
            final(self).wf(),
            forall|c: Seq<char>|
                old(self).state_of(c) != ChannelState::Uninitialised ==> (#[trigger] final(self).state_of(
                    c,
                )) != ChannelState::Uninitialised,
            final(self).identity() == old(self).identity(),
            state == final(self).state_of(channel@),
            old(self).state_of(channel@) == ChannelState::Running ==> final(self).subscribers(
                channel@,
            ) == select(old(self).subscribers(channel@), open_flags(closed@)),
            old(self).state_of(channel@) != ChannelState::Running ==> *final(self) == *old(self),
            forall|c: Seq<char>|
                c != channel@ ==> #[trigger] final(self).subscribers(c) == old(self).subscribers(c),
            final(self).channels() == old(self).channels(),
            forall|c: Seq<char>| #[trigger] final(self).initialised(c) == old(self).initialised(c),
            forall|c: Seq<char>| #[trigger] final(self).waiters(c) == old(self).waiters(c),
            final(self).next_id() == old(self).next_id(),
    {
        let state = self.channel_state(channel);
        match state {
            ChannelState::Running => {
                let i = match self.senders.find(channel) {
                    Some(i) => i,
                    None => {
                        return state;
                    },
                };
                proof {
                    self.senders.lemma_entry(i as int);
                    self.lemma_wf();
                }
                let previous = self.replace_subscribers(i, Vec::new());
                let kept = retain_open(previous, closed);
                proof {
                    assert forall|k: int| 0 <= k < kept@.len() implies (
                    #[trigger] kept@[k]).bound_id().counter() < self.next_id() by {
                        lemma_select_from(previous@, open_flags(closed@), k);
                        let j = choose|j: int|
                            0 <= j < previous@.len() && previous@[j] == kept@[k];
                        assert(old(self).subscriber_ids(channel@)[j] == kept@[k].bound_id());
                    }
                }
                let empty = kept.len() == 0;
                self.replace_subscribers(i, kept);
                if empty {
                    ChannelState::Over
                } else {
                    ChannelState::Running
                }
            },
            _ => state,
        }
    }

    /// Drops the senders whose receiver is closed from a running channel,
    /// asking Tokio for each subscriber in order (see `clean_channel_with`).
    /// Returns the state of the channel after cleaning.
    pub fn clean_channel(&mut self, channel: ChannelId) -> (state: ChannelState)
        requires
            old(self).wf(),
        ensures
            final(self).wf(),
            forall|c: Seq<char>|
                old(self).state_of(c) != ChannelState::Uninitialised ==> (#[trigger] final(self).state_of(
                    c,
                )) != ChannelState::Uninitialised,
            final(self).identity() == old(self).identity(),
            state == final(self).state_of(channel@),
            old(self).state_of(channel@) == ChannelState::Running ==> kept_from(
                final(self).subscribers(channel@),
                old(self).subscribers(channel@),
            ),
            old(self).state_of(channel@) == ChannelState::Running ==> cleaned_by_tokio(
                final(self).subscribers(channel@),
                old(self).subscribers(channel@),
            ),
            old(self).state_of(channel@) != ChannelState::Running ==> *final(self) == *old(self),
            forall|c: Seq<char>|
                c != channel@ ==> #[trigger] final(self).subscribers(c) == old(self).subscribers(c),
            final(self).channels() == old(self).channels(),
            forall|c: Seq<char>| #[trigger] final(self).initialised(c) == old(self).initialised(c),
            forall|c: Seq<char>| #[trigger] final(self).waiters(c) == old(self).waiters(c),
            final(self).next_id() == old(self).next_id(),
    {
        proof {
            self.lemma_wf();
        }
        let closed = match self.senders.find(channel) {
            Some(i) => {
                proof {
                    self.senders.lemma_entry(i as int);
                }
                closed_flags(self.senders.list_at(i))
            },
            None => Vec::new(),
        };
        let state = self.clean_channel_with(channel, &closed);
        proof {
            if old(self).state_of(channel@) == ChannelState::Running {
                assert(told_closed_flags(old(self).subscribers(channel@), closed@));
            }
        }
        state
    }

    /// For each channel in order, whether the receiver of each of its
    /// subscribers is closed, as Tokio answers.
    fn closed_flags_all(&self) -> (closed: Vec<Vec<bool>>)
        requires
            self.wf(),
        ensures
            closed@.len() == self.channels().len(),
            forall|j: int|
                0 <= j < closed@.len() ==> (#[trigger] closed@[j])@.len() == self.subscribers(
                    self.channels()[j],
                ).len(),
            forall|j: int|
                0 <= j < closed@.len() ==> told_closed_flags(
                    self.subscribers(self.channels()[j]),
                    (#[trigger] closed@[j])@,
                ),
    {
        let mut closed: Vec<Vec<bool>> = Vec::new();
        let n = self.senders.len();
        let mut i: usize = 0;
        while i < n
            invariant
                self.wf(),
                n == self.channels().len(),
                i <= n,
                closed@.len() == i,
                forall|j: int|
                    0 <= j < i ==> (#[trigger] closed@[j])@.len() == self.subscribers(
                        self.channels()[j],
                    ).len(),
                forall|j: int|
                    0 <= j < i ==> told_closed_flags(
                        self.subscribers(self.channels()[j]),
                        (#[trigger] closed@[j])@,
                    ),
            decreases n - i,
        {
            proof {
                self.senders.lemma_entry(i as int);
            }
            closed.push(closed_flags(self.senders.list_at(i)));
            i = i + 1;
        }
        closed
    }

    /// When every channel was cleaned by the flags Tokio answered for its
    /// subscribers, every running channel is left with exactly the
    /// subscribers whose receiver Tokio did not report closed.
    proof fn lemma_cleaned_by_tokio(before: &Self, after: &Self, closed: Seq<Vec<bool>>)
        requires
            before.wf(),
            closed.len() == before.channels().len(),
            forall|j: int|
                0 <= j < closed.len() ==> told_closed_flags(
                    before.subscribers(before.channels()[j]),
                    (#[trigger] closed[j])@,
                ),
            forall|j: int|
                0 <= j < closed.len() ==> #[trigger] after.subscribers(before.channels()[j]) == if before.state_of(
                    before.channels()[j],
                ) == ChannelState::Running {
                    select(before.subscribers(before.channels()[j]), open_flags(closed[j]@))
                } else {
                    before.subscribers(before.channels()[j])
                },
        ensures
            forall|c: Seq<char>|
                before.state_of(c) == ChannelState::Running ==> cleaned_by_tokio(
                    #[trigger] after.subscribers(c),
                    before.subscribers(c),
                ),
    {
        before.lemma_wf();
        assert forall|c: Seq<char>| before.state_of(c) == ChannelState::Running implies cleaned_by_tokio(
            #[trigger] after.subscribers(c),
            before.subscribers(c),
        ) by {
            let j = choose|j: int| 0 <= j < before.channels().len() && before.channels()[j] == c;
            assert(after.subscribers(before.channels()[j]) == select(
                before.subscribers(c),
                open_flags(closed[j]@),
            ));
            assert(told_closed_flags(before.subscribers(c), closed[j]@));
        }
    }

    /// A cleaning of every channel by the flags of `closed`, one list per
    /// channel in channel order, keeps from every channel some of its
    /// subscribers, in order.
    proof fn lemma_cleaned_keeps_from(before: &Self, after: &Self, closed: Seq<Vec<bool>>)
        requires
            before.wf(),
            closed.len() == before.channels().len(),
            forall|j: int|
                0 <= j < closed.len() ==> (#[trigger] closed[j])@.len() == before.subscribers(
                    before.channels()[j],
                ).len(),
            forall|j: int|
                0 <= j < closed.len() ==> #[trigger] after.subscribers(before.channels()[j]) == if before.state_of(
                    before.channels()[j],
                ) == ChannelState::Running {
                    select(before.subscribers(before.channels()[j]), open_flags(closed[j]@))
                } else {
                    before.subscribers(before.channels()[j])
                },
            forall|c: Seq<char>|
                !before.initialised(c) ==> #[trigger] after.subscribers(c) == before.subscribers(c),
        ensures
            forall|c: Seq<char>|
                kept_from(#[trigger] after.subscribers(c), before.subscribers(c)),
    {
        before.lemma_wf();
        assert forall|c: Seq<char>| kept_from(#[trigger] after.subscribers(c), before.subscribers(c)) by {
            if before.initialised(c) {
                let j = choose|j: int|
                    0 <= j < before.channels().len() && before.channels()[j] == c;
                assert(after.subscribers(before.channels()[j]) == if before.state_of(c)
                    == ChannelState::Running {
                    select(before.subscribers(c), open_flags(closed[j]@))
                } else {
                    before.subscribers(c)
                });
                if before.state_of(c) == ChannelState::Running {
                    assert(open_flags(closed[j]@).len() == before.subscribers(c).len());
                } else {
                    lemma_select_all(before.subscribers(c));
                }
            } else {
                lemma_select_all(before.subscribers(c));
            }
        }
    }

    /// Cleans every channel, in order, by the flags of `closed`, one list per
    /// channel (see `clean_channel_with`).  Returns each channel with its
    /// state after cleaning.
    #[verifier::spinoff_prover]
    pub fn clean_all_with(&mut self, closed: &Vec<Vec<bool>>) -> (states: Vec<
        (ChannelId, ChannelState),
    >)
        requires
            old(self).wf(),
            closed@.len() == old(self).channels().len(),
            forall|j: int|
                0 <= j < closed@.len() && old(self).state_of(old(self).channels()[j])
                    == ChannelState::Running ==> (#[trigger] closed@[j])@.len() == old(
                    self,
                ).subscribers(old(self).channels()[j]).len(),
        ensures
            final(self).wf(),
            forall|c: Seq<char>|
                old(self).state_of(c) != ChannelState::Uninitialised ==> (#[trigger] final(self).state_of(
                    c,
                )) != ChannelState::Uninitialised,
            final(self).identity() == old(self).identity(),
            states@.len() == final(self).channels().len(),
            forall|j: int|
                0 <= j < states@.len() ==> (#[trigger] states@[j]).0@ == final(self).channels()[j]
                    && states@[j].1 == final(self).state_of(final(self).channels()[j]),
            forall|j: int|
                0 <= j < closed@.len() ==> #[trigger] final(self).subscribers(
                    old(self).channels()[j],
                ) == if old(self).state_of(old(self).channels()[j]) == ChannelState::Running {
                    select(old(self).subscribers(old(self).channels()[j]), open_flags(closed@[j]@))
                } else {
                    old(self).subscribers(old(self).channels()[j])
                },
            forall|c: Seq<char>|
                !old(self).initialised(c) ==> #[trigger] final(self).subscribers(c) == old(
                    self,
                ).subscribers(c),
            final(self).channels() == old(self).channels(),
            forall|c: Seq<char>| #[trigger] final(self).initialised(c) == old(self).initialised(c),
            forall|c: Seq<char>| #[trigger] final(self).waiters(c) == old(self).waiters(c),
            final(self).next_id() == old(self).next_id(),
    {
        let mut states: Vec<(ChannelId, ChannelState)> = Vec::new();
        let n = self.senders.len();
        proof {
            self.lemma_wf();
        }
        let mut i: usize = 0;
        while i < n
            invariant
                self.identity() == old(self).identity(),
                self.wf(),
                n == self.channels().len(),
                n == closed@.len(),
                i <= n,
                self.channels() == old(self).channels(),
                self.channels().no_duplicates(),
                forall|c: Seq<char>| self.initialised(c) <==> self.channels().contains(c),
                states@.len() == i,
                forall|j: int|
                    0 <= j < closed@.len() && old(self).state_of(old(self).channels()[j])
                        == ChannelState::Running ==> (#[trigger] closed@[j])@.len() == old(
                        self,
                    ).subscribers(old(self).channels()[j]).len(),
                forall|j: int|
                    0 <= j < i ==> (#[trigger] states@[j]).0@ == self.channels()[j]
                        && states@[j].1 == self.state_of(self.channels()[j]),
                forall|j: int|
                    0 <= j < i ==> #[trigger] self.subscribers(old(self).channels()[j]) == if old(
                        self,
                    ).state_of(old(self).channels()[j]) == ChannelState::Running {
                        select(
                            old(self).subscribers(old(self).channels()[j]),
                            open_flags(closed@[j]@),
                        )
                    } else {
                        old(self).subscribers(old(self).channels()[j])
                    },
                forall|j: int|
                    i <= j < n ==> #[trigger] self.subscribers(self.channels()[j]) == old(
                        self,
                    ).subscribers(self.channels()[j]),
                forall|c: Seq<char>|
                    !old(self).initialised(c) ==> #[trigger] self.subscribers(c) == old(
                        self,
                    ).subscribers(c),
                forall|c: Seq<char>| #[trigger] self.initialised(c) == old(self).initialised(c),
                forall|c: Seq<char>| #[trigger] self.waiters(c) == old(self).waiters(c),
                self.next_id() == old(self).next_id(),
            decreases n - i,
        {
            let name = self.senders.name_at(i);
            let ghost before = *self;
            proof {
                assert(before.subscribers(name@) == old(self).subscribers(name@));
                assert(before.state_of(name@) == old(self).state_of(old(self).channels()[i as int]));
            }
            let state = self.clean_channel_with(name, &closed[i]);
            states.push((name, state));
            proof {
                assert forall|j: int| 0 <= j < i + 1 implies (#[trigger] states@[j]).0@
                    == self.channels()[j] && states@[j].1 == self.state_of(self.channels()[j]) by {
                    if j < i {
                        assert(self.channels()[j] != name@);
                        assert(self.subscribers(self.channels()[j]) == before.subscribers(
                            self.channels()[j],
                        ));
                    }
                }
                assert forall|j: int| 0 <= j < i + 1 implies #[trigger] self.subscribers(
                    old(self).channels()[j],
                ) == if old(self).state_of(old(self).channels()[j]) == ChannelState::Running {
                    select(
                        old(self).subscribers(old(self).channels()[j]),
                        open_flags(closed@[j]@),
                    )
                } else {
                    old(self).subscribers(old(self).channels()[j])
                } by {
                    if j < i {
                        assert(self.channels()[j] != name@);
                        assert(self.subscribers(self.channels()[j]) == before.subscribers(
                            self.channels()[j],
                        ));
                    }
                }
                assert forall|j: int| i + 1 <= j < n implies #[trigger] self.subscribers(
                    self.channels()[j],
                ) == old(self).subscribers(self.channels()[j]) by {
                    assert(self.channels()[j] != name@);
                }
                assert forall|c: Seq<char>| !old(self).initialised(c) implies #[trigger] self.subscribers(c)
                    == old(self).subscribers(c) by {
                    assert(c != name@);
                }
            }
            i = i + 1;
        }
        states
    }

    /// Cleans every channel, in order, asking Tokio which receivers are
    /// closed (see `clean_all_with`).  Returns each channel with its state
    /// after cleaning.
    pub fn clean_all(&mut self) -> (states: Vec<(ChannelId, ChannelState)>)
        requires
            old(self).wf(),
        ensures
            final(self).wf(),
            forall|c: Seq<char>|
                old(self).state_of(c) != ChannelState::Uninitialised ==> (#[trigger] final(self).state_of(
                    c,
                )) != ChannelState::Uninitialised,
            final(self).identity() == old(self).identity(),
            states@.len() == final(self).channels().len(),
            forall|j: int|
                0 <= j < states@.len() ==> (#[trigger] states@[j]).0@ == final(self).channels()[j]
                    && states@[j].1 == final(self).state_of(final(self).channels()[j]),
            forall|c: Seq<char>|
                kept_from(#[trigger] final(self).subscribers(c), old(self).subscribers(c)),
            forall|c: Seq<char>|
                old(self).state_of(c) == ChannelState::Running ==> cleaned_by_tokio(
                    #[trigger] final(self).subscribers(c),
                    old(self).subscribers(c),
                ),
            final(self).channels() == old(self).channels(),
            forall|c: Seq<char>| #[trigger] final(self).initialised(c) == old(self).initialised(c),
            forall|c: Seq<char>| #[trigger] final(self).waiters(c) == old(self).waiters(c),
            final(self).next_id() == old(self).next_id(),
    {
        let closed = self.closed_flags_all();
        let states = self.clean_all_with(&closed);
        proof {
            Self::lemma_cleaned_keeps_from(old(self), self, closed@);
            Self::lemma_cleaned_by_tokio(old(self), self, closed@);
        }
        states
    }

    /// Subscribes one new receiver to every listed channel; a channel listed
    /// twice gets two senders to it.  Returns the receiver, with copies of
    /// the senders to the creation waiters of each listed channel, in list
    /// order, which the caller notifies.
    #[verifier::spinoff_prover]
    pub fn subscribe_multiple(&mut self, ids: &[ChannelId]) -> (subscription: (
        MessageReceiver<M>,
        Vec<WaiterSender>,
    ))
        requires
            old(self).wf(),
            old(self).next_id() < usize::MAX,
        ensures
            final(self).wf(),
            forall|c: Seq<char>|
                old(self).state_of(c) != ChannelState::Uninitialised ==> (#[trigger] final(self).state_of(
                    c,
                )) != ChannelState::Uninitialised,
            final(self).identity() == old(self).identity(),
            subscription.0.bound_id().counter() == old(self).next_id(),
            subscription.0.bound_id().center() == old(self).identity(),
            final(self).next_id() == old(self).next_id() + 1,
            forall|c: Seq<char>|
                #[trigger] final(self).subscriber_ids(c) == old(self).subscriber_ids(c) + Seq::new(
                    count_of(names_of(ids@), c),
                    |k: int| subscription.0.bound_id(),
                ),
            forall|c: Seq<char>|
                #[trigger] final(self).initialised(c) <==> (old(self).initialised(c) || names_of(
                    ids@,
                ).contains(c)),
            exists|added: MessageSender<M>|
                #![trigger added.bound_id()]
                added.bound_id() == subscription.0.bound_id() && channel_halves(
                    CHANNEL_SIZE,
                    added.tokio_sender(),
                    subscription.0.tokio_receiver(),
                ) && forall|c: Seq<char>|
                    #[trigger] final(self).subscribers(c) == old(self).subscribers(c) + Seq::new(
                        count_of(names_of(ids@), c),
                        |k: int| added,
                    ),
            forall|c: Seq<char>| #[trigger] final(self).waiters(c) == old(self).waiters(c),
            subscription.1@ == old(self).waiters_for(names_of(ids@)),
            forall|c: Seq<char>, w: WaiterSender|
                #![trigger names_of(ids@).contains(c), old(self).waiters(c).contains(w)]
                names_of(ids@).contains(c) && old(self).waiters(c).contains(w)
                    ==> subscription.1@.contains(w),
            forall|c: Seq<char>|
                !(#[trigger] old(self).subscriber_ids(c)).contains(subscription.0.bound_id()),
    {
        proof {
            lemma_channel_ids_are_faithful();
            lemma_buffer_bound();
            old(self).lemma_wf();
        }
        let channel_id = self.get_new_id();
        let (sender, receiver) = channel(CHANNEL_SIZE, channel_id);
        let ghost rid = receiver.bound_id();
        let ghost names = names_of(ids@);
        let mut notices: Vec<WaiterSender> = Vec::new();
        let mut k: usize = 0;
        while k < ids.len()
            invariant
                self.identity() == old(self).identity(),
                faithful_id::<SmartChannelId>(),
                self.wf(),
                k <= ids@.len(),
                names == names_of(ids@),
                sender.bound_id() == rid,
                rid.counter() == old(self).next_id(),
                self.next_id() == old(self).next_id() + 1,
                self.waiter_senders == old(self).waiter_senders,
                forall|c: Seq<char>|
                    #[trigger] self.subscriber_ids(c) == old(self).subscriber_ids(c) + Seq::new(
                        count_of(names.take(k as int), c),
                        |j: int| rid,
                    ),
                forall|c: Seq<char>|
                    #[trigger] self.subscribers(c) == old(self).subscribers(c) + Seq::new(
                        count_of(names.take(k as int), c),
                        |j: int| sender,
                    ),
                forall|c: Seq<char>|
                    #[trigger] self.initialised(c) <==> (old(self).initialised(c) || names.take(
                        k as int,
                    ).contains(c)),
                notices@ == old(self).waiters_for(names.take(k as int)),
            decreases ids@.len() - k,
        {
            let name = ids[k];
            let copy = sender.clone();
            let ghost before = *self;
            let ghost notices_before = notices@;
            let mut more = self.insert_sender(copy, name);
            let ghost more_before = more@;
            notices.append(&mut more);
            proof {
                let prefix = names.take(k as int + 1);
                assert(prefix.drop_last() =~= names.take(k as int));
                assert(prefix.last() == name@);
                assert(notices@ =~= notices_before + more_before);
                assert forall|c: Seq<char>|
                    #[trigger] self.subscriber_ids(c) == old(self).subscriber_ids(c) + Seq::new(
                        count_of(prefix, c),
                        |j: int| rid,
                    ) by {
                    let earlier = count_of(names.take(k as int), c);
                    assert(before.subscriber_ids(c) == old(self).subscriber_ids(c) + Seq::new(
                        earlier,
                        |j: int| rid,
                    ));
                    if c == name@ {
                        assert(count_of(prefix, c) == earlier + 1);
                        assert(self.subscribers(c) =~= before.subscribers(c).push(sender));
                        assert(old(self).subscribers(c) + Seq::new(earlier + 1, |j: int| sender)
                            =~= (old(self).subscribers(c) + Seq::new(earlier, |j: int| sender)).push(
                            sender,
                        ));
                        assert(self.subscriber_ids(c) =~= before.subscriber_ids(c).push(rid));
                        assert(old(self).subscriber_ids(c) + Seq::new(earlier + 1, |j: int| rid)
                            =~= (old(self).subscriber_ids(c) + Seq::new(earlier, |j: int| rid)).push(
                            rid,
                        ));
                    } else {
                        assert(count_of(prefix, c) == earlier);
                        assert(self.subscribers(c) == before.subscribers(c));
                    }
                }
                assert forall|c: Seq<char>|
                    #[trigger] self.initialised(c) <==> (old(self).initialised(c)
                        || prefix.contains(c)) by {
                    if names.take(k as int).contains(c) {
                        let w = choose|w: int|
                            0 <= w < names.take(k as int).len() && names.take(k as int)[w] == c;
                        assert(prefix[w] == c);
                    }
                    if prefix.contains(c) && c != name@ {
                        let w = choose|w: int| 0 <= w < prefix.len() && prefix[w] == c;
                        assert(names.take(k as int)[w] == c);
                    }
                    if c == name@ {
                        assert(prefix[k as int] == c);
                    }
                }
            }
            k = k + 1;
        }
        proof {
            assert(names.take(ids@.len() as int) =~= names);
            assert(sender.bound_id() == receiver.bound_id());
            assert forall|c: Seq<char>, w: WaiterSender|
                #![trigger names.contains(c), old(self).waiters(c).contains(w)]
                names.contains(c) && old(self).waiters(c).contains(w) implies notices@.contains(
                w,
            ) by {
                lemma_listed_waiters_are_told(*old(self), names, c, w);
            }
        }
        (receiver, notices)
    }

    /// Unsubscribes the receiver from every listed channel, in order.  Every
    /// listed channel ends without the receiver, whatever failed on the way;
    /// the result is `Ok` exactly when every single unsubscription succeeded,
    /// and otherwise holds the errors met.
    #[verifier::spinoff_prover]
    pub fn unsubscribe_multiple(&mut self, ids: &[ChannelId], receiver: &MessageReceiver<M>) -> (result:
        Result<(), DispatchError<M, ChannelId>>)
        requires
            old(self).wf(),
        ensures
            final(self).wf(),
            forall|c: Seq<char>|
                old(self).state_of(c) != ChannelState::Uninitialised ==> (#[trigger] final(self).state_of(
                    c,
                )) != ChannelState::Uninitialised,
            final(self).identity() == old(self).identity(),
            forall|c: Seq<char>|
                #[trigger] final(self).subscribers(c) == if names_of(ids@).contains(c) {
                    old(self).subscribers(c).filter(
                        |s: MessageSender<M>| s.bound_id() != receiver.bound_id(),
                    )
                } else {
                    old(self).subscribers(c)
                },
            forall|c: Seq<char>|
                names_of(ids@).contains(c) ==> !(#[trigger] final(self).subscriber_ids(c)).contains(
                    receiver.bound_id(),
                ),
            final(self).channels() == old(self).channels(),
            forall|c: Seq<char>| #[trigger] final(self).initialised(c) == old(self).initialised(c),
            forall|c: Seq<char>| #[trigger] final(self).waiters(c) == old(self).waiters(c),
            final(self).next_id() == old(self).next_id(),
            result is Ok <==> forall|k: int|
                0 <= k < ids@.len() ==> {
                    &&& old(self).subscriber_ids(#[trigger] names_of(ids@)[k]).contains(
                        receiver.bound_id(),
                    )
                    &&& !names_of(ids@).take(k).contains(names_of(ids@)[k])
                },
            result is Err ==> (result->Err_0 matches DispatchError::NotSubscribeMultiple(errors)
                && errors@ == old(self).step_errors(ids@, ids@.len() as int, receiver.bound_id())
                && errors@.len() > 0),
    {
        let ghost names = names_of(ids@);
        let ghost rid = receiver.bound_id();
        let ghost pred = |s: MessageSender<M>| s.bound_id() != receiver.bound_id();
        let mut errors: Vec<DispatchError<M, ChannelId>> = Vec::new();
        let mut k: usize = 0;
        while k < ids.len()
            invariant
                self.identity() == old(self).identity(),
                self.wf(),
                k <= ids@.len(),
                names == names_of(ids@),
                rid == receiver.bound_id(),
                pred == (|s: MessageSender<M>| s.bound_id() != receiver.bound_id()),
                forall|c: Seq<char>|
                    #[trigger] self.subscribers(c) == if names.take(k as int).contains(c) {
                        old(self).subscribers(c).filter(pred)
                    } else {
                        old(self).subscribers(c)
                    },
                self.channels() == old(self).channels(),
                forall|c: Seq<char>| #[trigger] self.initialised(c) == old(self).initialised(c),
                forall|c: Seq<char>| #[trigger] self.waiters(c) == old(self).waiters(c),
                self.next_id() == old(self).next_id(),
                errors@.len() == 0 <==> forall|j: int|
                    0 <= j < k ==> {
                        &&& old(self).subscriber_ids(#[trigger] names[j]).contains(rid)
                        &&& !names.take(j).contains(names[j])
                    },
                errors@ == old(self).step_errors(ids@, k as int, receiver.bound_id()),
            decreases ids@.len() - k,
        {
            let name = ids[k];
            let ghost before = *self;
            let ghost errors_before = errors@;
            let outcome = self.unsubscribe(name, receiver);
            let failed = outcome.is_err();
            match outcome {
                Err(e) => {
                    errors.push(e);
                },
                Ok(_) => {},
            }
            proof {
                let prefix = names.take(k as int + 1);
                assert(prefix.drop_last() =~= names.take(k as int));
                assert(names[k as int] == name@);
                assert(prefix[k as int] == name@);
                let c0 = name@;
                let listed_before = names.take(k as int).contains(c0);
                // the step succeeds exactly when the receiver is still subscribed
                if listed_before {
                    let w = choose|w: int|
                        0 <= w < names.take(k as int).len() && names.take(k as int)[w] == c0;
                    assert(names.take(k as int)[w] == c0);
                    broadcast use vstd::seq_lib::group_filter_ensures;

                    assert(!before.subscriber_ids(c0).contains(rid)) by {
                        if before.subscriber_ids(c0).contains(rid) {
                            let q = choose|q: int|
                                0 <= q < before.subscriber_ids(c0).len()
                                    && before.subscriber_ids(c0)[q] == rid;
                            assert(pred(before.subscribers(c0)[q]));
                        }
                    }
                } else {
                    assert(before.subscribers(c0) == old(self).subscribers(c0));
                }
                assert(failed <==> !(old(self).subscriber_ids(c0).contains(rid) && !listed_before));
                assert forall|c: Seq<char>|
                    #[trigger] self.subscribers(c) == if prefix.contains(c) {
                        old(self).subscribers(c).filter(pred)
                    } else {
                        old(self).subscribers(c)
                    } by {
                    if c == c0 {
                        assert(prefix.contains(c));
                        if !failed {
                            assert(!listed_before);
                            assert(before.subscribers(c) == old(self).subscribers(c));
                            assert(self.subscribers(c) == before.subscribers(c).filter(pred));
                        } else {
                            assert(self.subscribers(c) == before.subscribers(c));
                            if !listed_before {
                                assert(before.subscribers(c) == old(self).subscribers(c));
                                assert forall|q: int|
                                    0 <= q < old(self).subscribers(c).len() implies pred(
                                    #[trigger] old(self).subscribers(c)[q],
                                ) by {
                                    if !pred(old(self).subscribers(c)[q]) {
                                        assert(old(self).subscriber_ids(c)[q] == rid);
                                    }
                                }
                                lemma_filter_keeps_all(old(self).subscribers(c), pred);
                            } else {
                                assert(before.subscribers(c) == old(self).subscribers(c).filter(pred));
                            }
                        }
                    } else {
                        if before.state_of(c0) == ChannelState::Running
                            && before.subscriber_ids(c0).contains(rid) {
                            assert(self.subscribers(c) == before.subscribers(c));
                        } else {
                            assert(*self == before);
                        }
                        if prefix.contains(c) {
                            let w = choose|w: int| 0 <= w < prefix.len() && prefix[w] == c;
                            assert(names.take(k as int)[w] == c);
                        }
                        if names.take(k as int).contains(c) {
                            let w = choose|w: int|
                                0 <= w < names.take(k as int).len() && names.take(k as int)[w]
                                    == c;
                            assert(prefix[w] == c);
                        }
                    }
                }
                assert forall|c: Seq<char>| #[trigger] self.waiters(c) == old(self).waiters(c) by {
                    assert(self.waiters(c) == before.waiters(c));
                }
                assert forall|c: Seq<char>| #[trigger] self.initialised(c) == old(self).initialised(
                    c,
                ) by {
                    assert(self.initialised(c) == before.initialised(c));
                }
                if failed {
                    assert(errors@.len() > 0);
                } else {
                    assert(errors@ == errors_before);
                }
                assert((errors@.len() == 0) <==> forall|j: int|
                    0 <= j < k + 1 ==> {
                        &&& old(self).subscriber_ids(#[trigger] names[j]).contains(rid)
                        &&& !names.take(j).contains(names[j])
                    });
                let subs = old(self).subscribers_after(names, k as int, c0, receiver.bound_id());
                assert(pred =~= (|s: MessageSender<M>| s.bound_id() != receiver.bound_id()));
                assert(before.subscribers(c0) == subs);
                assert(before.initialised(c0) == old(self).initialised(c0));
                assert(ids@[k as int]@ == c0);
                match old(self).step_error(ids@, k as int, receiver.bound_id()) {
                    Some(e) => {
                        assert(errors@ =~= errors_before.push(e));
                    },
                    None => {
                        assert(errors@ =~= errors_before);
                    },
                }
            }
            k = k + 1;
        }
        proof {
            assert(names.take(ids@.len() as int) =~= names);
            broadcast use vstd::seq_lib::group_filter_ensures;

            assert forall|c: Seq<char>| names.contains(c) implies !(
            #[trigger] self.subscriber_ids(c)).contains(rid) by {
                if self.subscriber_ids(c).contains(rid) {
                    let q = choose|q: int|
                        0 <= q < self.subscriber_ids(c).len() && self.subscriber_ids(c)[q] == rid;
                    assert(pred(self.subscribers(c)[q]));
                }
            }
        }
        if errors.len() == 0 {
            Ok(())
        } else {
            Err(DispatchError::NotSubscribeMultiple(errors))
        }
    }

    /// The subscribers of the channel once the receiver with identifier
    /// `id` was unsubscribed from the first `k` listed channels.
    pub open spec fn subscribers_after(
        &self,
        names: Seq<Seq<char>>,
        k: int,
        channel: Seq<char>,
        id: SmartChannelId,
    ) -> Seq<MessageSender<M>> {
        if names.take(k).contains(channel) {
            self.subscribers(channel).filter(|s: MessageSender<M>| s.bound_id() != id)
        } else {
            self.subscribers(channel)
        }
    }

    /// The error that unsubscribing the receiver with identifier `id` from
    /// the `k`-th listed channel meets, after the channels before it.
    pub open spec fn step_error(&self, ids: Seq<ChannelId>, k: int, id: SmartChannelId) -> Option<
        DispatchError<M, ChannelId>,
    > {
        let channel = ids[k]@;
        let subscribers = self.subscribers_after(names_of(ids), k, channel, id);
        if !self.initialised(channel) {
            Some(DispatchError::ChannelUninitialized(ids[k]))
        } else if subscribers.len() == 0 {
            Some(DispatchError::ChannelOver(ids[k]))
        } else if !ids_of(subscribers).contains(id) {
            Some(DispatchError::NotSubscribed(ids[k]))
        } else {
            None
        }
    }

    /// The errors met unsubscribing the receiver with identifier `id` from
    /// the first `n` listed channels, in order.
    pub open spec fn step_errors(&self, ids: Seq<ChannelId>, n: int, id: SmartChannelId) -> Seq<
        DispatchError<M, ChannelId>,
    >
        decreases n,
    {
        if n <= 0 {
            Seq::empty()
        } else {
            let rest = self.step_errors(ids, n - 1, id);
            match self.step_error(ids, n - 1, id) {
                Some(e) => rest.push(e),
                None => rest,
            }
        }
    }

    /// The identifiers of the subscribers of the first `n` channels, channel
    /// after channel.
    pub open spec fn subscribers_upto(&self, n: int) -> Seq<MessageSender<M>>
        decreases n,
    {
        if n <= 0 {
            Seq::empty()
        } else {
            self.subscribers_upto(n - 1) + self.subscribers(self.channels()[n - 1])
        }
    }

    /// The identifiers of the subscribers of every channel, channel after
    /// channel.
    pub open spec fn all_subscribers(&self) -> Seq<MessageSender<M>> {
        self.subscribers_upto(self.channels().len() as int)
    }

    /// The identifiers of the creation waiters of each listed channel, one
    /// channel after the other.
    pub open spec fn waiters_for(&self, names: Seq<Seq<char>>) -> Seq<WaiterSender>
        decreases names.len(),
    {
        if names.len() == 0 {
            Seq::empty()
        } else {
            self.waiters_for(names.drop_last()) + self.waiters(names.last())
        }
    }

    /// The senders a message of the channel goes to: copies of the
    /// subscribers of a running channel (the same senders, to the same
    /// channels), none for a channel that is over.
    /// Fails for a channel that has never had a subscriber.
    pub fn send_targets(&self, id: ChannelId) -> (targets: Result<Vec<MessageSender<M>>, ()>)
        requires
            self.wf(),
        ensures
            match self.state_of(id@) {
                ChannelState::Running => targets is Ok && targets->Ok_0@ == self.subscribers(id@),
                ChannelState::Over => targets is Ok && targets->Ok_0@.len() == 0,
                ChannelState::Uninitialised => targets is Err,
            },
    {
        match self.senders.find(id) {
            Some(i) => {
                proof {
                    self.senders.lemma_entry(i as int);
                }
                let copies = clone_senders(self.senders.list_at(i));
                Ok(copies)
            },
            None => Err(()),
        }
    }

    /// Cleans every channel by the flags of `closed` (see `clean_all_with`),
    /// then returns copies of the senders to all the subscribers of every
    /// channel, channel after channel.
    pub fn broadcast_targets_with(&mut self, closed: &Vec<Vec<bool>>) -> (targets: Vec<
        MessageSender<M>,
    >)
        requires
            old(self).wf(),
            closed@.len() == old(self).channels().len(),
            forall|j: int|
                0 <= j < closed@.len() && old(self).state_of(old(self).channels()[j])
                    == ChannelState::Running ==> (#[trigger] closed@[j])@.len() == old(
                    self,
                ).subscribers(old(self).channels()[j]).len(),
        ensures
            final(self).wf(),
            forall|c: Seq<char>|
                old(self).state_of(c) != ChannelState::Uninitialised ==> (#[trigger] final(self).state_of(
                    c,
                )) != ChannelState::Uninitialised,
            final(self).identity() == old(self).identity(),
            targets@ == final(self).all_subscribers(),
            forall|j: int|
                0 <= j < closed@.len() ==> #[trigger] final(self).subscribers(
                    old(self).channels()[j],
                ) == if old(self).state_of(old(self).channels()[j]) == ChannelState::Running {
                    select(old(self).subscribers(old(self).channels()[j]), open_flags(closed@[j]@))
                } else {
                    old(self).subscribers(old(self).channels()[j])
                },
            forall|c: Seq<char>|
                !old(self).initialised(c) ==> #[trigger] final(self).subscribers(c) == old(
                    self,
                ).subscribers(c),
            final(self).channels() == old(self).channels(),
            forall|c: Seq<char>| #[trigger] final(self).initialised(c) == old(self).initialised(c),
            forall|c: Seq<char>| #[trigger] final(self).waiters(c) == old(self).waiters(c),
            final(self).next_id() == old(self).next_id(),
    {
        self.clean_all_with(closed);
        let mut targets: Vec<MessageSender<M>> = Vec::new();
        let n = self.senders.len();
        let mut i: usize = 0;
        while i < n
            invariant
                self.identity() == old(self).identity(),
                self.wf(),
                n == self.channels().len(),
                i <= n,
                targets@ == self.subscribers_upto(i as int),
            decreases n - i,
        {
            proof {
                self.senders.lemma_entry(i as int);
            }
            let mut copies = clone_senders(self.senders.list_at(i));
            let ghost before = targets@;
            targets.append(&mut copies);
            assert(targets@ =~= before + self.subscribers(self.channels()[i as int]));
            i = i + 1;
        }
        targets
    }

    /// Cleans every channel, asking Tokio which receivers are closed, then
    /// returns copies of the senders to all the subscribers of every
    /// channel, channel after channel (see `broadcast_targets_with`).
    pub fn broadcast_targets(&mut self) -> (targets: Vec<MessageSender<M>>)
        requires
            old(self).wf(),
        ensures
            final(self).wf(),
            forall|c: Seq<char>|
                old(self).state_of(c) != ChannelState::Uninitialised ==> (#[trigger] final(self).state_of(
                    c,
                )) != ChannelState::Uninitialised,
            final(self).identity() == old(self).identity(),
            targets@ == final(self).all_subscribers(),
            forall|c: Seq<char>|
                kept_from(#[trigger] final(self).subscribers(c), old(self).subscribers(c)),
            forall|c: Seq<char>|
                old(self).state_of(c) == ChannelState::Running ==> cleaned_by_tokio(
                    #[trigger] final(self).subscribers(c),
                    old(self).subscribers(c),
                ),
            final(self).channels() == old(self).channels(),
            forall|c: Seq<char>| #[trigger] final(self).initialised(c) == old(self).initialised(c),
            forall|c: Seq<char>| #[trigger] final(self).waiters(c) == old(self).waiters(c),
            final(self).next_id() == old(self).next_id(),
    {
        let closed = self.closed_flags_all();
        let targets = self.broadcast_targets_with(&closed);
        proof {
            Self::lemma_cleaned_keeps_from(old(self), self, closed@);
            Self::lemma_cleaned_by_tokio(old(self), self, closed@);
        }
        targets
    }

    /// The channels the receiver is subscribed to, in channel order.
    #[verifier::spinoff_prover]
    pub fn subscribed_list(&self, receiver: &MessageReceiver<M>) -> (listed: Vec<ChannelId>)
        requires
            self.wf(),
        ensures
            names_of(listed@) == self.channels().filter(
                |c: Seq<char>| self.subscriber_ids(c).contains(receiver.bound_id()),
            ),
    {
        let ghost pred = |c: Seq<char>| self.subscriber_ids(c).contains(receiver.bound_id());
        let mut listed: Vec<ChannelId> = Vec::new();
        let n = self.senders.len();
        let mut i: usize = 0;
        while i < n
            invariant
                self.wf(),
                n == self.channels().len(),
                i <= n,
                pred == (|c: Seq<char>| self.subscriber_ids(c).contains(receiver.bound_id())),
                names_of(listed@) == self.channels().take(i as int).filter(pred),
            decreases n - i,
        {
            let name = self.senders.name_at(i);
            let ghost before = listed@;
            if self.is_subscribed(name, receiver) {
                listed.push(name);
            }
            proof {
                let prefix = self.channels().take(i as int + 1);
                assert(prefix.drop_last() =~= self.channels().take(i as int));
                assert(prefix.last() == name@);
                reveal(Seq::filter);
                assert(names_of(before.push(name)) =~= names_of(before).push(name@));
            }
            i = i + 1;
        }
        proof {
            assert(self.channels().take(n as int) =~= self.channels());
        }
        listed
    }

    /// A copy of the sender of the channel that is bound to the receiver,
    /// when the receiver is subscribed to the channel.
    pub fn get_sender(&self, receiver: &MessageReceiver<M>, channel: ChannelId) -> (sender: Option<
        MessageSender<M>,
    >)
        requires
            self.wf(),
        ensures
            sender is Some <==> self.subscriber_ids(channel@).contains(receiver.bound_id()),
            sender is Some ==> sender->0.bound_id() == receiver.bound_id()
                && self.subscribers(channel@).contains(sender->0),
    {
        proof {
            lemma_channel_ids_are_faithful();
        }
        match self.senders.find(channel) {
            Some(i) => {
                proof {
                    self.senders.lemma_entry(i as int);
                }
                let list = self.senders.list_at(i);
                let mut j: usize = 0;
                while j < list.len()
                    invariant
                        faithful_id::<SmartChannelId>(),
                        j <= list@.len(),
                        list@ == self.subscribers(channel@),
                        forall|k: int|
                            0 <= k < j ==> list@[k].bound_id() != receiver.bound_id(),
                    decreases list@.len() - j,
                {
                    if list[j].is_bound_to(receiver) {
                        assert(self.subscriber_ids(channel@)[j as int] == receiver.bound_id());
                        let copy = list[j].clone();
                        assert(self.subscribers(channel@)[j as int] == copy);
                        return Some(copy);
                    }
                    j = j + 1;
                }
                proof {
                    if self.subscriber_ids(channel@).contains(receiver.bound_id()) {
                        let k = choose|k: int|
                            0 <= k < self.subscriber_ids(channel@).len()
                                && self.subscriber_ids(channel@)[k] == receiver.bound_id();
                        assert(list@[k].bound_id() == receiver.bound_id());
                    }
                }
                None
            },
            None => None,
        }
    }

    /// For each of the listed channels the receiver is subscribed to, once,
    /// a copy of a subscriber of that channel bound to the receiver.
    #[verifier::spinoff_prover]
    pub fn get_senders(&self, receiver: &MessageReceiver<M>, channels: &[ChannelId]) -> (found: Vec<
        (ChannelId, MessageSender<M>),
    >)
        requires
            self.wf(),
        ensures
            forall|j: int|
                0 <= j < found@.len() ==> {
                    &&& (#[trigger] found@[j]).1.bound_id() == receiver.bound_id()
                    &&& self.subscribers(found@[j].0@).contains(found@[j].1)
                    &&& self.subscriber_ids(found@[j].0@).contains(receiver.bound_id())
                    &&& names_of(channels@).contains(found@[j].0@)
                },
            forall|j: int, k: int| 0 <= j < k < found@.len() ==> found@[j].0@ != found@[k].0@,
            forall|c: Seq<char>|
                #[trigger] names_of(channels@).contains(c) && self.subscriber_ids(c).contains(
                    receiver.bound_id(),
                ) ==> has_entry(found@, c),
    {
        let mut found: Vec<(ChannelId, MessageSender<M>)> = Vec::new();
        let mut k: usize = 0;
        while k < channels.len()
            invariant
                self.wf(),
                k <= channels@.len(),
                forall|j: int|
                    0 <= j < found@.len() ==> {
                        &&& (#[trigger] found@[j]).1.bound_id() == receiver.bound_id()
                        &&& self.subscribers(found@[j].0@).contains(found@[j].1)
                        &&& self.subscriber_ids(found@[j].0@).contains(receiver.bound_id())
                        &&& names_of(channels@).contains(found@[j].0@)
                    },
                forall|j: int, l: int| 0 <= j < l < found@.len() ==> found@[j].0@ != found@[l].0@,
                forall|c: Seq<char>|
                    #[trigger] names_of(channels@.take(k as int)).contains(c)
                        && self.subscriber_ids(c).contains(receiver.bound_id()) ==> has_entry(
                        found@,
                        c,
                    ),
            decreases channels@.len() - k,
        {
            let name = channels[k];
            let mut present = false;
            let mut j: usize = 0;
            while j < found.len()
                invariant
                    j <= found@.len(),
                    present <==> exists|l: int| 0 <= l < j && (#[trigger] found@[l]).0@ == name@,
                decreases found@.len() - j,
            {
                if crate::channel_table::same_name(found[j].0, name) {
                    present = true;
                }
                j = j + 1;
            }
            let ghost before = found@;
            if !present {
                match self.get_sender(receiver, name) {
                    Some(sender) => {
                        found.push((name, sender));
                    },
                    None => {},
                }
            }
            proof {
                assert(names_of(channels@).contains(name@)) by {
                    assert(names_of(channels@)[k as int] == name@);
                }
                assert forall|c: Seq<char>|
                    #[trigger] names_of(channels@.take(k as int + 1)).contains(c)
                        && self.subscriber_ids(c).contains(receiver.bound_id()) implies has_entry(
                    found@,
                    c,
                ) by {
                    let prefix = names_of(channels@.take(k as int + 1));
                    let w = choose|w: int| 0 <= w < prefix.len() && #[trigger] prefix[w] == c;
                    if w < k {
                        assert(names_of(channels@.take(k as int))[w] == c);
                        assert(names_of(channels@.take(k as int)).contains(c));
                        assert(has_entry(before, c));
                        let j0 = choose|j0: int|
                            0 <= j0 < before.len() && (#[trigger] before[j0]).0@ == c;
                        assert(found@[j0] == before[j0]);
                        assert(found@[j0].0@ == c);
                    } else {
                        assert(c == name@);
                        if present {
                            let l = choose|l: int| 0 <= l < before.len() && (#[trigger] before[l]).0@ == name@;
                            assert(found@[l] == before[l]);
                            assert(found@[l].0@ == c);
                        } else {
                            assert(found@[before.len() as int].0@ == c);
                        }
                    }
                }
            }
            k = k + 1;
        }
        proof {
            assert(channels@.take(channels@.len() as int) =~= channels@);
        }
        found
    }
}

impl<M: SendableMessage> Default for DispatchCenter<M> {
    fn default() -> (center: Self)
        ensures
            center.wf(),
            center.next_id() == 0,
            center.channels().len() == 0,
            forall|c: Seq<char>|
                center.state_of(c) == ChannelState::Uninitialised && center.waiters(c).len() == 0,
    {
        Self::new()
    }
}

/// Filtering senders by identifier filters their identifiers alike.
pub proof fn lemma_ids_of_filter<T>(senders: Seq<SmartSender<T, SmartChannelId>>, id: SmartChannelId)
    ensures
        ids_of(senders.filter(|s: SmartSender<T, SmartChannelId>| s.bound_id() != id)) == ids_of(
            senders,
        ).filter(|x: SmartChannelId| x != id),
    decreases senders.len(),
{
    reveal(Seq::filter);
    let pred = |s: SmartSender<T, SmartChannelId>| s.bound_id() != id;
    let id_pred = |x: SmartChannelId| x != id;
    if senders.len() > 0 {
        lemma_ids_of_filter(senders.drop_last(), id);
        assert(ids_of(senders).drop_last() =~= ids_of(senders.drop_last()));
        assert(ids_of(senders).last() == senders.last().bound_id());
        let rest = senders.drop_last().filter(pred);
        if pred(senders.last()) {
            assert(ids_of(rest.push(senders.last())) =~= ids_of(rest).push(senders.last().bound_id()));
        }
    } else {
        assert(ids_of(senders) =~= Seq::<SmartChannelId>::empty());
    }
}

/// Unsubscribing the receiver a subscription returned leaves the channel
/// with the subscribers it had before that subscription.
pub proof fn lemma_unsubscribe_undoes_subscribe<M: SendableMessage>(
    before: DispatchCenter<M>,
    subscribed: DispatchCenter<M>,
    after: DispatchCenter<M>,
    channel: Seq<char>,
    receiver_id: SmartChannelId,
)
    requires
        before.wf(),
        receiver_id.counter() == before.next_id(),
        subscribed.subscriber_ids(channel) == before.subscriber_ids(channel).push(receiver_id),
        after.subscribers(channel) == subscribed.subscribers(channel).filter(
            |s: MessageSender<M>| s.bound_id() != receiver_id,
        ),
    ensures
        after.subscriber_ids(channel) == before.subscriber_ids(channel),
{
    before.lemma_wf();
    lemma_ids_of_filter(subscribed.subscribers(channel), receiver_id);
    let ids = before.subscriber_ids(channel);
    let id_pred = |x: SmartChannelId| x != receiver_id;
    assert forall|k: int| 0 <= k < ids.len() implies id_pred(#[trigger] ids[k]) by {
        assert(ids[k].counter() < before.next_id());
    }
    lemma_filter_keeps_all(ids, id_pred);
    reveal(Seq::filter);
    assert(ids.push(receiver_id).drop_last() =~= ids);
}

/// A waiter made for a channel is told of every later subscription to the
/// channel: subscribing keeps the waiters, so for as long as the channel's
/// waiters are left as the waiter's creation made them, one of the senders
/// that a subscription hands back to be told is bound to the waiter.
pub proof fn lemma_waiter_is_told_of_subscription<M: SendableMessage>(
    before: DispatchCenter<M>,
    waiting: DispatchCenter<M>,
    later: DispatchCenter<M>,
    channel: Seq<char>,
    waiter_id: SmartChannelId,
    notices: Seq<WaiterSender>,
)
    requires
        waiting.waiter_ids(channel) == before.waiter_ids(channel).push(waiter_id),
        later.waiters(channel) == waiting.waiters(channel),
        notices == later.waiters(channel),
    ensures
        notices.len() == before.waiters(channel).len() + 1,
        notices.last().bound_id() == waiter_id,
        exists|k: int| 0 <= k < notices.len() && (#[trigger] notices[k]).bound_id() == waiter_id,
{
    let ids = waiting.waiter_ids(channel);
    assert(ids.len() == notices.len());
    assert(ids[ids.len() - 1] == waiter_id);
    assert(notices[notices.len() - 1].bound_id() == waiter_id);
}

/// A message sent to every target of a running channel reaches every
/// receiver subscribed to the channel: one of the targets is bound to it.
pub proof fn lemma_subscriber_is_a_target<M: SendableMessage>(
    center: DispatchCenter<M>,
    channel: Seq<char>,
    receiver_id: SmartChannelId,
    targets: Seq<MessageSender<M>>,
)
    requires
        center.subscribed(channel, receiver_id),
        targets == center.subscribers(channel),
    ensures
        exists|k: int| 0 <= k < targets.len() && (#[trigger] targets[k]).bound_id() == receiver_id,
{
    let ids = center.subscriber_ids(channel);
    let k = choose|k: int| 0 <= k < ids.len() && ids[k] == receiver_id;
    assert(targets[k].bound_id() == receiver_id);
}

/// Whether `x` is an element of `before` whose flag in `closed` is not set.
pub open spec fn is_unflagged_in<T>(x: T, before: Seq<T>, closed: Seq<bool>) -> bool {
    exists|k: int| 0 <= k < before.len() && !closed[k] && #[trigger] before[k] == x
}

/// Whether `after` holds every element of `before` whose flag in `closed` is
/// not set, and nothing but such elements.
pub open spec fn holds_exactly_unflagged<T>(after: Seq<T>, before: Seq<T>, closed: Seq<bool>) -> bool {
    &&& forall|k: int| 0 <= k < before.len() && !closed[k] ==> after.contains(#[trigger] before[k])
    &&& forall|j: int| 0 <= j < after.len() ==> is_unflagged_in(#[trigger] after[j], before, closed)
}

/// A cleaning by Tokio's answers keeps a subscriber exactly when Tokio
/// answered that its receiver is open: every subscriber answered open is
/// still there, and everything left is a subscriber answered open.
pub proof fn lemma_cleaning_keeps_exactly_the_open<T>(
    after: Seq<SmartSender<T, SmartChannelId>>,
    before: Seq<SmartSender<T, SmartChannelId>>,
)
    requires
        cleaned_by_tokio(after, before),
    ensures
        exists|closed: Seq<bool>|
            #![trigger told_closed_flags(before, closed)]
            told_closed_flags(before, closed) && holds_exactly_unflagged(after, before, closed),
{
    let closed = choose|closed: Seq<bool>|
        told_closed_flags(before, closed) && after == select(before, open_flags(closed));
    let keep = open_flags(closed);
    assert(keep.len() == before.len());
    assert forall|k: int| 0 <= k < before.len() && !closed[k] implies after.contains(
        #[trigger] before[k],
    ) by {
        assert(keep[k] == !closed[k]);
        lemma_select_keeps(before, keep, k);
    }
    assert forall|j: int| 0 <= j < after.len() implies is_unflagged_in(
        #[trigger] after[j],
        before,
        closed,
    ) by {
        lemma_select_flagged(before, keep, j);
        let k = choose|k: int| 0 <= k < before.len() && keep[k] && #[trigger] before[k] == after[j];
        assert(keep[k] == !closed[k]);
        assert(before[k] == after[j]);
    }
    assert(holds_exactly_unflagged(after, before, closed));
    assert(told_closed_flags(before, closed));
}

/// Subscribing to several channels tells every waiter of every listed
/// channel: each sender to a waiter of a listed channel is among the
/// senders handed back to be told, whether or not the channel already had
/// subscribers.
pub proof fn lemma_listed_waiters_are_told<M: SendableMessage>(
    center: DispatchCenter<M>,
    names: Seq<Seq<char>>,
    channel: Seq<char>,
    waiter: WaiterSender,
)
    requires
        names.contains(channel),
        center.waiters(channel).contains(waiter),
    ensures
        center.waiters_for(names).contains(waiter),
    decreases names.len(),
{
    let rest = names.drop_last();
    let told = center.waiters_for(names);
    assert(told == center.waiters_for(rest) + center.waiters(names.last()));
    if names.last() == channel {
        let k = choose|k: int|
            0 <= k < center.waiters(channel).len() && center.waiters(channel)[k] == waiter;
        assert(told[center.waiters_for(rest).len() + k] == waiter);
    } else {
        let j = choose|j: int| 0 <= j < names.len() && names[j] == channel;
        assert(j != names.len() - 1);
        assert(rest[j] == channel);
        lemma_listed_waiters_are_told(center, rest, channel, waiter);
        let k = choose|k: int|
            0 <= k < center.waiters_for(rest).len() && center.waiters_for(rest)[k] == waiter;
        assert(told[k] == waiter);
    }
}

} // verus!
