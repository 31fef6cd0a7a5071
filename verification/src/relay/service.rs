//! The relay service: connected clients, their outbound handles, and the
//! channels they publish and subscribe to.

use vstd::prelude::*;
use std::collections::HashMap;
use vstd::std_specs::iter::IteratorSpec;
use tokio::sync::mpsc::Sender;
use crate::protocol::message::{Message, MessageType, MessageView};
use crate::relay::channel::{
    can_publish, channel_or_empty, channel_wf, channels_wf, lemma_without_absent,
    release, spec_disconnect, spec_publish, spec_subscribe,
    spec_unsubscribe, ChannelManager, ChannelMap, ClientId,
};
use crate::relay::client::{is_lowest_free, is_v4_value, ClientManager};

verus! {

broadcast use vstd::std_specs::hash::group_hash_axioms;

/// `tokio::sync::mpsc::Sender`: a handle on the channel that carries
/// messages to one client. The library only stores and hands out such
/// handles; it never looks inside one.
#[verifier::external_type_specification]
#[verifier::external_body]
#[verifier::reject_recursive_types(T)]
pub struct ExSender<T>(tokio::sync::mpsc::Sender<T>);

/// `Sender::clone`: a new handle on the same channel. Nothing is stated of
/// the result beyond its being that call's answer for `sender`, which the
/// callers name with `cloned`.
pub assume_specification<T>[ <tokio::sync::mpsc::Sender<T> as Clone>::clone ](
    sender: &tokio::sync::mpsc::Sender<T>,
) -> tokio::sync::mpsc::Sender<T>;

/// Why the relay refused a client's message.
#[derive(Debug, Clone, Copy, PartialEq, Eq, Structural)]
pub enum RelayError {
    UnknownClient,
    PublisherAlreadyExists,
    NotPublisher,
}

impl RelayError {
    /// The human-readable description of the error.
    pub fn as_str(&self) -> (s: &'static str)
        ensures
            s == (match *self {
                RelayError::UnknownClient => "client is not connected",
                RelayError::PublisherAlreadyExists => "channel already has a publisher",
                RelayError::NotPublisher => "client is not the channel publisher",
            }),
    {
        match self {
            RelayError::UnknownClient => "client is not connected",
            RelayError::PublisherAlreadyExists => "channel already has a publisher",
            RelayError::NotPublisher => "client is not the channel publisher",
        }
    }
}

/// Every publisher and subscriber of every channel is a connected client.
pub open spec fn members_connected(m: ChannelMap, clients: Set<ClientId>) -> bool {
    forall|n: Seq<char>|
        #[trigger] m.contains_key(n) ==> (m[n].publisher matches Some(p) ==> clients.contains(p))
            && forall|s: ClientId| #[trigger] m[n].subscribers.contains(s) ==> clients.contains(s)
}

/// The mathematical value of the relay: the connected clients, the
/// outbound handle of each, and the channels.
pub struct RelayView {
    pub clients: Set<ClientId>,
    pub outbound: Map<ClientId, Sender<Message>>,
    pub channels: ChannelMap,
}

/// The relay with its channels replaced.
pub open spec fn with_channels(v: RelayView, channels: ChannelMap) -> RelayView {
    RelayView { clients: v.clients, outbound: v.outbound, channels }
}

/// The relay after `client_id` connected with outbound handle `outbound`.
pub open spec fn spec_connect(v: RelayView, client_id: ClientId, outbound: Sender<Message>) -> RelayView {
    RelayView {
        clients: v.clients.insert(client_id),
        outbound: v.outbound.insert(client_id, outbound),
        channels: v.channels,
    }
}

/// The relay after `client_id` disconnected.
pub open spec fn spec_disconnected(v: RelayView, client_id: ClientId) -> RelayView {
    RelayView {
        clients: v.clients.remove(client_id),
        outbound: v.outbound.remove(client_id),
        channels: spec_disconnect(v.channels, client_id),
    }
}

/// What the relay answers to a message from `client_id`: the clients whose
/// outbound handles it hands out, or the reason for refusing the message.
pub open spec fn spec_answer(v: RelayView, client_id: ClientId, m: MessageView) -> Result<Set<ClientId>, RelayError> {
    if !v.clients.contains(client_id) {
        Err(RelayError::UnknownClient)
    } else {
        match m.message_type {
            MessageType::Publish => if can_publish(v.channels, m.channel_name) {
                Ok(Set::empty())
            } else {
                Err(RelayError::PublisherAlreadyExists)
            },
            MessageType::Data => if channel_or_empty(v.channels, m.channel_name).publisher == Some(client_id) {
                Ok(channel_or_empty(v.channels, m.channel_name).subscribers)
            } else {
                Err(RelayError::NotPublisher)
            },
            _ => Ok(Set::empty()),
        }
    }
}

/// The relay after a message from `client_id`.
pub open spec fn spec_after(v: RelayView, client_id: ClientId, m: MessageView) -> RelayView {
    if !v.clients.contains(client_id) {
        v
    } else {
        match m.message_type {
            MessageType::Subscribe => with_channels(v, spec_subscribe(v.channels, m.channel_name, client_id)),
            MessageType::Unsubscribe => with_channels(v, spec_unsubscribe(v.channels, m.channel_name, client_id)),
            MessageType::Publish => if can_publish(v.channels, m.channel_name) {
                with_channels(v, spec_publish(v.channels, m.channel_name, client_id))
            } else {
                v
            },
            MessageType::Data => v,
        }
    }
}

/// `out` holds, in order, one clone of each of `handles`.
pub open spec fn clones_of(out: Seq<Sender<Message>>, handles: Seq<Sender<Message>>) -> bool {
    out.len() == handles.len() && forall|i: int| 0 <= i < out.len() ==> cloned(handles[i], #[trigger] out[i])
}

/// The outbound handles of the clients of `order`, in that order.
pub open spec fn handles_of(v: RelayView, order: Seq<ClientId>) -> Seq<Sender<Message>> {
    order.map_values(|s: ClientId| v.outbound[s])
}

/// `out` holds one clone of the outbound handle of each of `ids`, in an
/// order that lists each of them once.
pub open spec fn fans_out_to(out: Seq<Sender<Message>>, v: RelayView, ids: Set<ClientId>) -> bool {
    exists|order: Seq<ClientId>|
        order.no_duplicates() && order.to_set() == ids && #[trigger] clones_of(out, handles_of(v, order))
}

/// Handing out no handle fans out to no client.
proof fn lemma_no_recipients(v: RelayView)
    ensures
        fans_out_to(Seq::empty(), v, Set::empty()),
{
    let order = Seq::<ClientId>::empty();
    assert(order.to_set() =~= Set::<ClientId>::empty());
    assert(clones_of(Seq::empty(), handles_of(v, order)));
}

/// `r` is the answer that `expected` describes in relay `v`.
pub open spec fn answers(r: Result<Vec<Sender<Message>>, RelayError>, v: RelayView, expected: Result<Set<ClientId>, RelayError>) -> bool {
    match (r, expected) {
        (Ok(out), Ok(ids)) => fans_out_to(out@, v, ids),
        (Err(e), Err(f)) => e == f,
        _ => false,
    }
}

/// The relay: connected clients, their outbound handles, and the channels.
pub struct Relay {
    clients: ClientManager,
    channels: ChannelManager,
    outbound: HashMap<ClientId, Sender<Message>>,
}

impl View for Relay {
    type V = RelayView;

    closed spec fn view(&self) -> RelayView {
        RelayView { clients: self.clients@, outbound: self.outbound@, channels: self.channels@ }
    }
}

impl Relay {
    /// The relay's invariant: exactly the connected clients have an outbound
    /// handle, the channels are well-formed, and channels only ever name
    /// connected clients.
    pub closed spec fn wf(&self) -> bool {
        &&& self.clients.wf()
        &&& self.channels.wf()
        &&& self.outbound@.dom() == self.clients@
        &&& members_connected(self.channels@, self.clients@)
    }

    /// In a well-formed relay, the channels are well-formed and only name
    /// connected clients, and exactly the connected clients have an outbound
    /// handle.
    pub proof fn lemma_wf(&self)
        requires
            self.wf(),
        ensures
            channels_wf(self@.channels),
            members_connected(self@.channels, self@.clients),
            self@.outbound.dom() == self@.clients,
    {
        self.channels.lemma_channels_wf();
    }

    /// A relay with no client and no channel.
    pub fn new() -> (r: Self)
        ensures
            r.wf(),
            r@.clients == Set::<ClientId>::empty(),
            r@.outbound == Map::<ClientId, Sender<Message>>::empty(),
            r@.channels == ChannelMap::empty(),
    {
        let r = Relay {
            clients: ClientManager::new(),
            channels: ChannelManager::new(),
            outbound: HashMap::new(),
        };
        assert(r.outbound@.dom() =~= r.clients@);
        r
    }

    /// Connects a client whose messages go out through `outbound`, and
    /// answers its fresh identifier: a random version-4 UUID value, or,
    /// should that one be taken, another version-4 value that is free.
    pub fn connect(&mut self, outbound: Sender<Message>) -> (id: ClientId)
        requires
            old(self).wf(),
        ensures
            final(self).wf(),
            !old(self)@.clients.contains(id),
            final(self)@ == spec_connect(old(self)@, id, outbound),
            is_v4_value(id) || is_lowest_free(old(self)@.clients, id),
            is_v4_value(id),
    {
        let id = self.clients.register();
        self.outbound.insert(id, outbound);
        assert(self.outbound@.dom() =~= self.clients@);
        id
    }

    /// Disconnects `client_id`: it leaves every channel, releasing any
    /// channel it published on, and its outbound handle is dropped.
    pub fn disconnect(&mut self, client_id: ClientId)
        requires
            old(self).wf(),
        ensures
            final(self).wf(),
            final(self)@ == spec_disconnected(old(self)@, client_id),
    {
        self.channels.disconnect(client_id);
        self.clients.remove(client_id);
        let _ = self.outbound.remove(&client_id);
        proof {
            let m = self.channels@;
            let old_m = old(self).channels@;
            assert(self.outbound@.dom() =~= self.clients@);
            assert forall|n: Seq<char>| #[trigger] m.contains_key(n) implies
                (m[n].publisher matches Some(p) ==> self.clients@.contains(p))
                && forall|s: ClientId| #[trigger] m[n].subscribers.contains(s) ==> self.clients@.contains(s) by {
                assert(old_m.contains_key(n));
                assert(m[n] == release(old_m[n], client_id));
            }
        }
    }

    proof fn lemma_wf_with_new_channels(&self, old_self: &Self)
        requires
            old_self.wf(),
            self.clients == old_self.clients,
            self.outbound == old_self.outbound,
            self.channels.wf(),
            members_connected(self.channels@, self.clients@),
        ensures
            self.wf(),
    {
    }

    /// A clone of the outbound handle of `client_id`, where it is connected.
    pub fn sender(&self, client_id: ClientId) -> (r: Option<Sender<Message>>)
        requires
            self.wf(),
        ensures
            match r {
                Some(h) => self@.outbound.contains_key(client_id) && cloned(self@.outbound[client_id], h),
                None => !self@.outbound.contains_key(client_id),
            },
    {
        match self.outbound.get(&client_id) {
            Some(h) => Some(h.clone()),
            None => None,
        }
    }

    /// Applies a message from `client_id`. Clients that are not connected are
    /// refused. SUBSCRIBE, UNSUBSCRIBE and PUBLISH change the channels and
    /// answer no recipient; a second PUBLISH on a channel is refused. DATA
    /// changes nothing and answers the outbound handles of the channel's
    /// subscribers, provided the sender is the channel's publisher.
    pub fn handle_message(&mut self, client_id: ClientId, message: &Message) -> (r: Result<Vec<Sender<Message>>, RelayError>)
        requires
            old(self).wf(),
        ensures
            final(self).wf(),
            answers(r, old(self)@, spec_answer(old(self)@, client_id, message@)),
            final(self)@ == spec_after(old(self)@, client_id, message@),
    {
        if !self.clients.contains(client_id) {
            return Err(RelayError::UnknownClient);
        }
        let name = message.channel_name.as_str();
        match message.message_type {
            MessageType::Subscribe => {
                self.channels.subscribe(name, client_id);
                proof {
                    lemma_subscribe_members(old(self)@.channels, name@, client_id, self@.clients);
                    self.lemma_wf_with_new_channels(old(self));
                    lemma_no_recipients(old(self)@);
                }
                Ok(Vec::new())
            },
            MessageType::Unsubscribe => {
                self.channels.unsubscribe(name, client_id);
                proof {
                    lemma_unsubscribe_members(old(self)@.channels, name@, client_id, self@.clients);
                    self.lemma_wf_with_new_channels(old(self));
                    lemma_no_recipients(old(self)@);
                }
                Ok(Vec::new())
            },
            MessageType::Publish => {
                match self.channels.publish(name, client_id) {
                    Ok(()) => {
                        proof {
                            lemma_publish_members(old(self)@.channels, name@, client_id, self@.clients);
                            self.lemma_wf_with_new_channels(old(self));
                            lemma_no_recipients(old(self)@);
                        }
                        Ok(Vec::new())
                    },
                    Err(_) => Err(RelayError::PublisherAlreadyExists),
                }
            },
            MessageType::Data => self.data_recipients(client_id, name),
        }
    }

    /// The outbound handles of the subscribers of `channel_name`, provided
    /// `client_id` is its publisher.
    fn data_recipients(&self, client_id: ClientId, channel_name: &str) -> (r: Result<Vec<Sender<Message>>, RelayError>)
        requires
            self.wf(),
            self@.clients.contains(client_id),
        ensures
            answers(r, self@, if channel_or_empty(self@.channels, channel_name@).publisher == Some(client_id) {
                Ok(channel_or_empty(self@.channels, channel_name@).subscribers)
            } else {
                Err(RelayError::NotPublisher)
            }),
    {
        match self.channels.publisher(channel_name) {
            Some(p) => {
                if p != client_id {
                    return Err(RelayError::NotPublisher);
                }
            },
            None => {
                return Err(RelayError::NotPublisher);
            },
        }
        let mut recipients: Vec<Sender<Message>> = Vec::new();
        match self.channels.subscribers(channel_name) {
            Some(subscribers) => {
                let ghost all = vstd::std_specs::hash::spec_hash_keys_iter(subscribers).remaining().unref();
                let ghost v = self@;
                for s in it: subscribers.iter()
                    invariant
                        self.wf(),
                        v == self@,
                        self@.channels.contains_key(channel_name@),
                        subscribers@ == self@.channels[channel_name@].subscribers,
                        all == vstd::std_specs::hash::spec_hash_keys_iter(subscribers).remaining().unref(),
                        all.to_set() == subscribers@,
                        all.no_duplicates(),
                        it.seq().unref() == all,
                        clones_of(recipients@, handles_of(v, all.take(it.index()))),
                {
                    let subscriber = *s;
                    proof {
                        assert(all[it.index()] == subscriber);
                        assert(all.to_set().contains(subscriber));
                        assert(self@.clients.contains(subscriber));
                    }
                    let ghost before = recipients@;
                    match self.sender(subscriber) {
                        Some(h) => {
                            recipients.push(h);
                        },
                        None => {},
                    }
                    proof {
                        let next = handles_of(v, all.take(it.index() + 1));
                        let prev = handles_of(v, all.take(it.index()));
                        assert forall|k: int| 0 <= k < recipients@.len() implies cloned(next[k], #[trigger] recipients@[k]) by {
                            if k < before.len() {
                                assert(next[k] == prev[k]);
                                assert(recipients@[k] == before[k]);
                            }
                        }
                    }
                }
                proof {
                    assert(all.take(all.len() as int) =~= all);
                    let order = all;
                    assert(clones_of(recipients@, handles_of(v, order)));
                }
            },
            None => {
                proof {
                    let order = Seq::<ClientId>::empty();
                    assert(order.to_set() =~= Set::<ClientId>::empty());
                    assert(clones_of(recipients@, handles_of(self@, order)));
                }
            },
        }
        Ok(recipients)
    }

}

/// Subscribing a connected client keeps every channel member connected.
pub proof fn lemma_subscribe_members(m: ChannelMap, name: Seq<char>, id: ClientId, clients: Set<ClientId>)
    requires
        members_connected(m, clients),
        clients.contains(id),
    ensures
        members_connected(spec_subscribe(m, name, id), clients),
{
    let m2 = spec_subscribe(m, name, id);
    assert forall|n: Seq<char>| #[trigger] m2.contains_key(n) implies
        (m2[n].publisher matches Some(p) ==> clients.contains(p))
        && forall|s: ClientId| #[trigger] m2[n].subscribers.contains(s) ==> clients.contains(s) by {
        if n == name {
            let c = channel_or_empty(m, name);
            assert forall|s: ClientId| #[trigger] m2[n].subscribers.contains(s) implies clients.contains(s) by {
                if s != id {
                    assert(c.subscribers.contains(s));
                    assert(m.contains_key(name));
                    assert(m[name].subscribers.contains(s));
                }
            }
        }
    }
}

/// Making a connected client a publisher keeps every channel member
/// connected.
pub proof fn lemma_publish_members(m: ChannelMap, name: Seq<char>, id: ClientId, clients: Set<ClientId>)
    requires
        members_connected(m, clients),
        clients.contains(id),
    ensures
        members_connected(spec_publish(m, name, id), clients),
{
}

/// Unsubscribing keeps every channel member connected.
pub proof fn lemma_unsubscribe_members(m: ChannelMap, name: Seq<char>, id: ClientId, clients: Set<ClientId>)
    requires
        members_connected(m, clients),
    ensures
        members_connected(spec_unsubscribe(m, name, id), clients),
{
}

/// A connected client's UNSUBSCRIBE from a channel answers no recipient and
/// takes exactly that client out of that channel's subscribers: the
/// channel's publisher and other subscribers stay, every other channel stays
/// as it was, and the connected clients and their handles are unchanged.
pub proof fn lemma_unsubscribe_changes_only_that_channel(v: RelayView, client_id: ClientId, m: MessageView)
    requires
        v.clients.contains(client_id),
        m.message_type == MessageType::Unsubscribe,
    ensures
        spec_answer(v, client_id, m) == Ok::<Set<ClientId>, RelayError>(Set::empty()),
        spec_after(v, client_id, m).clients == v.clients,
        spec_after(v, client_id, m).outbound == v.outbound,
        channel_or_empty(spec_after(v, client_id, m).channels, m.channel_name).publisher
            == channel_or_empty(v.channels, m.channel_name).publisher,
        channel_or_empty(spec_after(v, client_id, m).channels, m.channel_name).subscribers
            == channel_or_empty(v.channels, m.channel_name).subscribers.remove(client_id),
        forall|n: Seq<char>|
            n != m.channel_name ==> (#[trigger] spec_after(v, client_id, m).channels.contains_key(n) <==> v.channels.contains_key(n)),
        forall|n: Seq<char>|
            n != m.channel_name && v.channels.contains_key(n) ==> #[trigger] spec_after(v, client_id, m).channels[n] == v.channels[n],
{
    let name = m.channel_name;
    if v.channels.contains_key(name) {
        let c = v.channels[name];
        if !(c.publisher is Some || !c.subscribers.remove(client_id).is_empty()) {
            assert(c.subscribers.remove(client_id) =~= Set::<ClientId>::empty());
        }
    } else {
        assert(Set::<ClientId>::empty().remove(client_id) =~= Set::<ClientId>::empty());
    }
}

/// A connected client's SUBSCRIBE to a channel answers no recipient and adds
/// exactly that client to that channel's subscribers: the channel's
/// publisher and other subscribers stay, every other channel stays as it
/// was, and the connected clients and their handles are unchanged.
pub proof fn lemma_subscribe_changes_only_that_channel(v: RelayView, client_id: ClientId, m: MessageView)
    requires
        v.clients.contains(client_id),
        m.message_type == MessageType::Subscribe,
    ensures
        spec_answer(v, client_id, m) == Ok::<Set<ClientId>, RelayError>(Set::empty()),
        spec_after(v, client_id, m).clients == v.clients,
        spec_after(v, client_id, m).outbound == v.outbound,
        spec_after(v, client_id, m).channels.contains_key(m.channel_name),
        spec_after(v, client_id, m).channels[m.channel_name].publisher
            == channel_or_empty(v.channels, m.channel_name).publisher,
        spec_after(v, client_id, m).channels[m.channel_name].subscribers
            == channel_or_empty(v.channels, m.channel_name).subscribers.insert(client_id),
        forall|n: Seq<char>|
            n != m.channel_name ==> (#[trigger] spec_after(v, client_id, m).channels.contains_key(n) <==> v.channels.contains_key(n)),
        forall|n: Seq<char>|
            n != m.channel_name && v.channels.contains_key(n) ==> #[trigger] spec_after(v, client_id, m).channels[n] == v.channels[n],
{
}

/// A connected client's PUBLISH on a channel without a publisher makes it the
/// publisher and changes nothing else; on a channel that has one it is
/// refused and changes nothing.
pub proof fn lemma_publish_changes_only_that_channel(v: RelayView, client_id: ClientId, m: MessageView)
    requires
        v.clients.contains(client_id),
        m.message_type == MessageType::Publish,
    ensures
        (channel_or_empty(v.channels, m.channel_name).publisher is None) ==> {
            &&& spec_answer(v, client_id, m) == Ok::<Set<ClientId>, RelayError>(Set::empty())
            &&& spec_after(v, client_id, m).clients == v.clients
            &&& spec_after(v, client_id, m).outbound == v.outbound
            &&& spec_after(v, client_id, m).channels.contains_key(m.channel_name)
            &&& spec_after(v, client_id, m).channels[m.channel_name].publisher == Some(client_id)
            &&& spec_after(v, client_id, m).channels[m.channel_name].subscribers
                == channel_or_empty(v.channels, m.channel_name).subscribers
            &&& forall|n: Seq<char>|
                n != m.channel_name ==> (#[trigger] spec_after(v, client_id, m).channels.contains_key(n) <==> v.channels.contains_key(n))
            &&& forall|n: Seq<char>|
                n != m.channel_name && v.channels.contains_key(n) ==> #[trigger] spec_after(v, client_id, m).channels[n] == v.channels[n]
        },
        (channel_or_empty(v.channels, m.channel_name).publisher is Some) ==> {
            &&& spec_answer(v, client_id, m) == Err::<Set<ClientId>, RelayError>(RelayError::PublisherAlreadyExists)
            &&& spec_after(v, client_id, m) == v
        },
{
}

/// A message from a client that is not connected is refused as coming from
/// an unknown client and changes nothing.
pub proof fn lemma_unknown_client_refused(v: RelayView, client_id: ClientId, m: MessageView)
    requires
        !v.clients.contains(client_id),
    ensures
        spec_answer(v, client_id, m) == Err::<Set<ClientId>, RelayError>(RelayError::UnknownClient),
        spec_after(v, client_id, m) == v,
{
}

/// Once a client has disconnected, every message from it is refused as
/// coming from an unknown client.
pub proof fn lemma_disconnected_client_refused(v: RelayView, client_id: ClientId, m: MessageView)
    ensures
        spec_answer(spec_disconnected(v, client_id), client_id, m) == Err::<Set<ClientId>, RelayError>(RelayError::UnknownClient),
{
}

/// Disconnecting a client that has just connected gives back the relay as
/// it was before.
pub proof fn lemma_disconnect_undoes_connect(v: RelayView, client_id: ClientId, outbound: Sender<Message>)
    requires
        channels_wf(v.channels),
        members_connected(v.channels, v.clients),
        v.outbound.dom() == v.clients,
        !v.clients.contains(client_id),
    ensures
        spec_disconnected(spec_connect(v, client_id, outbound), client_id) == v,
{
    let m = v.channels;
    let d = spec_disconnect(m, client_id);
    assert forall|n: Seq<char>| #[trigger] m.contains_key(n) implies release(m[n], client_id) == m[n] && d.contains_key(n) by {
        assert(!m[n].subscribers.contains(client_id));
        lemma_without_absent(m[n].subscribers, client_id);
        assert(channel_wf(m[n]));
    }
    assert(d =~= m);
    assert(v.clients.insert(client_id).remove(client_id) =~= v.clients);
    assert(v.outbound.insert(client_id, outbound).remove(client_id) =~= v.outbound);
}

/// DATA from a channel's publisher reaches every subscriber of the channel:
/// the answer names exactly the channel's subscribers, each a connected
/// client with an outbound handle. DATA changes no state.
pub proof fn lemma_data_fans_out(v: RelayView, client_id: ClientId, m: MessageView)
    requires
        members_connected(v.channels, v.clients),
        v.outbound.dom() == v.clients,
        v.clients.contains(client_id),
        m.message_type == MessageType::Data,
        channel_or_empty(v.channels, m.channel_name).publisher == Some(client_id),
    ensures
        spec_answer(v, client_id, m) == Ok::<Set<ClientId>, RelayError>(
            channel_or_empty(v.channels, m.channel_name).subscribers,
        ),
        forall|s: ClientId|
            #[trigger] channel_or_empty(v.channels, m.channel_name).subscribers.contains(s)
                ==> v.outbound.contains_key(s),
        spec_after(v, client_id, m) == v,
{
    assert forall|s: ClientId|
        #[trigger] channel_or_empty(v.channels, m.channel_name).subscribers.contains(s) implies v.outbound.contains_key(s) by {
        assert(v.channels.contains_key(m.channel_name));
        assert(v.channels[m.channel_name].subscribers.contains(s));
    }
}

/// DATA from anyone but a channel's publisher is refused and changes
/// nothing; in particular DATA on a channel that does not exist is never
/// forwarded.
pub proof fn lemma_data_needs_publisher(v: RelayView, client_id: ClientId, m: MessageView)
    requires
        v.clients.contains(client_id),
        m.message_type == MessageType::Data,
        channel_or_empty(v.channels, m.channel_name).publisher != Some(client_id),
    ensures
        spec_answer(v, client_id, m) == Err::<Set<ClientId>, RelayError>(RelayError::NotPublisher),
        spec_after(v, client_id, m) == v,
{
}

impl Default for Relay {
    /// The same as `Relay::new`: no client and no channel.
    fn default() -> (r: Self)
        ensures
            r.wf(),
            r@.clients == Set::<ClientId>::empty(),
            r@.outbound == Map::<ClientId, Sender<Message>>::empty(),
            r@.channels == ChannelMap::empty(),
    {
        Relay::new()
    }
}

} // verus!
