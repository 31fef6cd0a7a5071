//! Channels: for each channel name, the one client allowed to publish on it
//! and the clients subscribed to it.

use vstd::prelude::*;
use std::collections::HashSet;
use vstd::std_specs::iter::IteratorSpec;

verus! {

broadcast use vstd::std_specs::hash::group_hash_axioms;

/// Identifies a connected client; the value of a random (version 4) UUID.
pub type ClientId = u128;

/// One channel: its publisher, if any, and its subscribers.
#[derive(Debug, Default)]
pub struct Channel {
    pub publisher: Option<ClientId>,
    pub subscribers: HashSet<ClientId>,
}

/// The mathematical value of a channel.
pub struct ChannelState {
    pub publisher: Option<ClientId>,
    pub subscribers: Set<ClientId>,
}

impl View for Channel {
    type V = ChannelState;

    open spec fn view(&self) -> ChannelState {
        ChannelState { publisher: self.publisher, subscribers: self.subscribers@ }
    }
}

/// All channels, by name.
pub type ChannelMap = Map<Seq<char>, ChannelState>;

/// A channel with no publisher and no subscriber.
pub open spec fn empty_channel() -> ChannelState {
    ChannelState { publisher: None, subscribers: Set::empty() }
}

/// A channel is kept only while it has a publisher or a subscriber.
pub open spec fn channel_is_live(c: ChannelState) -> bool {
    c.publisher is Some || !c.subscribers.is_empty()
}

/// A well-formed channel: live, with finitely many subscribers.
pub open spec fn channel_wf(c: ChannelState) -> bool {
    channel_is_live(c) && c.subscribers.finite()
}

/// Every channel of the map is well-formed.
pub open spec fn channels_wf(m: ChannelMap) -> bool {
    forall|n: Seq<char>| #[trigger] m.contains_key(n) ==> channel_wf(m[n])
}

/// The channel called `name`, or an empty one where there is none.
pub open spec fn channel_or_empty(m: ChannelMap, name: Seq<char>) -> ChannelState {
    if m.contains_key(name) {
        m[name]
    } else {
        empty_channel()
    }
}

/// The subscribers other than `client_id`.
pub open spec fn without(subscribers: Set<ClientId>, client_id: ClientId) -> Set<ClientId> {
    subscribers.remove(client_id)
}

/// A client may become a channel's publisher when the channel has none.
pub open spec fn can_publish(m: ChannelMap, name: Seq<char>) -> bool {
    channel_or_empty(m, name).publisher is None
}

/// The channels after `client_id` became the publisher of `name`.
pub open spec fn spec_publish(m: ChannelMap, name: Seq<char>, client_id: ClientId) -> ChannelMap {
    m.insert(
        name,
        ChannelState {
            publisher: Some(client_id),
            subscribers: channel_or_empty(m, name).subscribers,
        },
    )
}

/// The channels after `client_id` subscribed to `name`.
pub open spec fn spec_subscribe(m: ChannelMap, name: Seq<char>, client_id: ClientId) -> ChannelMap {
    let c = channel_or_empty(m, name);
    m.insert(
        name,
        ChannelState {
            publisher: c.publisher,
            subscribers: c.subscribers.insert(client_id),
        },
    )
}

/// The channels after `client_id` unsubscribed from `name`: a channel left
/// with neither publisher nor subscriber is dropped.
pub open spec fn spec_unsubscribe(m: ChannelMap, name: Seq<char>, client_id: ClientId) -> ChannelMap {
    if !m.contains_key(name) {
        m
    } else {
        let c = ChannelState {
            publisher: m[name].publisher,
            subscribers: without(m[name].subscribers, client_id),
        };
        if channel_is_live(c) {
            m.insert(name, c)
        } else {
            m.remove(name)
        }
    }
}

/// A channel without `client_id`, neither as publisher nor as subscriber.
pub open spec fn release(c: ChannelState, client_id: ClientId) -> ChannelState {
    ChannelState {
        publisher: if c.publisher == Some(client_id) {
            None
        } else {
            c.publisher
        },
        subscribers: without(c.subscribers, client_id),
    }
}

/// The channels after `client_id` left all of them: channels left with
/// neither publisher nor subscriber are dropped.
pub open spec fn spec_disconnect(m: ChannelMap, client_id: ClientId) -> ChannelMap {
    Map::new(
        |n: Seq<char>| m.contains_key(n) && channel_is_live(release(m[n], client_id)),
        |n: Seq<char>| release(m[n], client_id),
    )
}

/// `client_id` is the publisher or a subscriber of some channel.
pub open spec fn is_member(m: ChannelMap, client_id: ClientId) -> bool {
    exists|n: Seq<char>|
        #[trigger] m.contains_key(n) && (m[n].publisher == Some(client_id)
            || m[n].subscribers.contains(client_id))
}

/// A copy of `subscribers` without `client_id`.
fn subscribers_without(subscribers: &HashSet<ClientId>, client_id: ClientId) -> (r: HashSet<ClientId>)
    ensures
        r@ == without(subscribers@, client_id),
{
    let mut r: HashSet<ClientId> = HashSet::new();
    let ghost all = vstd::std_specs::hash::spec_hash_keys_iter(subscribers).remaining().unref();
    for s in it: subscribers.iter()
        invariant
            all == vstd::std_specs::hash::spec_hash_keys_iter(subscribers).remaining().unref(),
            all.to_set() == subscribers@,
            it.seq().unref() == all,
            r@ == all.take(it.index()).to_set().remove(client_id),
    {
        let c = *s;
        let ghost idx = it.index();
        let ghost seen = all.take(idx).to_set();
        proof {
            assert(c == all[idx]);
            assert(all.take(idx + 1) =~= all.take(idx) + seq![c]);
            Seq::<ClientId>::lemma_to_set_insert_commutes(all.take(idx), c);
            assert(all.take(idx + 1).to_set() == seen.insert(c));
        }
        if c != client_id {
            r.insert(c);
            assert(seen.insert(c).remove(client_id) =~= seen.remove(client_id).insert(c));
        } else {
            assert(seen.insert(c).remove(client_id) =~= seen.remove(client_id));
        }
        assert(r@ == all.take(idx + 1).to_set().remove(client_id));
    }
    assert(all.take(all.len() as int) =~= all);
    r
}

/// Removing a client that a set does not hold leaves the set as it is.
pub proof fn lemma_without_absent(s: Set<ClientId>, client_id: ClientId)
    requires
        !s.contains(client_id),
    ensures
        without(s, client_id) == s,
{
    assert(s.remove(client_id) =~= s);
}

/// Subscribing a client to a channel twice is the same as subscribing it
/// once.
pub proof fn lemma_subscribe_idempotent(m: ChannelMap, name: Seq<char>, client_id: ClientId)
    ensures
        spec_subscribe(spec_subscribe(m, name, client_id), name, client_id) == spec_subscribe(
            m,
            name,
            client_id,
        ),
{
    let m1 = spec_subscribe(m, name, client_id);
    assert(m1[name].subscribers.insert(client_id) =~= m1[name].subscribers);
    assert(spec_subscribe(m1, name, client_id) =~= m1);
}

/// Unsubscribing a client from a channel it had just subscribed to, not
/// having been subscribed before, gives back the channels as they were.
pub proof fn lemma_unsubscribe_undoes_subscribe(m: ChannelMap, name: Seq<char>, client_id: ClientId)
    requires
        channels_wf(m),
        !channel_or_empty(m, name).subscribers.contains(client_id),
    ensures
        spec_unsubscribe(spec_subscribe(m, name, client_id), name, client_id) == m,
{
    let c = channel_or_empty(m, name);
    let m1 = spec_subscribe(m, name, client_id);
    assert(without(m1[name].subscribers, client_id) =~= c.subscribers);
    if m.contains_key(name) {
        assert(channel_wf(m[name]));
        assert(m1.insert(name, c) =~= m);
    } else {
        assert(c.subscribers.is_empty());
        assert(m1.remove(name) =~= m);
    }
}

/// Unsubscribing `client_id` from `name` takes exactly that client out of
/// that channel's subscribers: its publisher and every other subscriber
/// stay, every other channel stays as it was, and unsubscribing a client
/// that is not subscribed changes nothing.
pub proof fn lemma_unsubscribe_removes_only_that_client(m: ChannelMap, name: Seq<char>, client_id: ClientId)
    requires
        channels_wf(m),
    ensures
        channel_or_empty(spec_unsubscribe(m, name, client_id), name).publisher == channel_or_empty(m, name).publisher,
        channel_or_empty(spec_unsubscribe(m, name, client_id), name).subscribers == channel_or_empty(m, name).subscribers.remove(client_id),
        forall|s: ClientId|
            s != client_id && #[trigger] channel_or_empty(m, name).subscribers.contains(s) ==> spec_unsubscribe(m, name, client_id).contains_key(name)
                && spec_unsubscribe(m, name, client_id)[name].subscribers.contains(s),
        forall|n: Seq<char>|
            n != name ==> (#[trigger] spec_unsubscribe(m, name, client_id).contains_key(n) <==> m.contains_key(n)),
        forall|n: Seq<char>|
            n != name && m.contains_key(n) ==> #[trigger] spec_unsubscribe(m, name, client_id)[n] == m[n],
        !channel_or_empty(m, name).subscribers.contains(client_id) ==> spec_unsubscribe(m, name, client_id) == m,
{
    let after = spec_unsubscribe(m, name, client_id);
    if m.contains_key(name) {
        assert(channel_wf(m[name]));
        if !channel_is_live(ChannelState { publisher: m[name].publisher, subscribers: without(m[name].subscribers, client_id) }) {
            assert(m[name].subscribers.remove(client_id) =~= Set::<ClientId>::empty());
        }
        if !m[name].subscribers.contains(client_id) {
            lemma_without_absent(m[name].subscribers, client_id);
            assert(after =~= m);
        }
    } else {
        assert(Set::<ClientId>::empty().remove(client_id) =~= Set::<ClientId>::empty());
    }
}

/// Subscribing and unsubscribing never change who publishes on a channel.
pub proof fn lemma_subscriptions_keep_publishers(m: ChannelMap, name: Seq<char>, client_id: ClientId, other: Seq<char>)
    ensures
        channel_or_empty(spec_subscribe(m, name, client_id), other).publisher == channel_or_empty(m, other).publisher,
        channel_or_empty(spec_unsubscribe(m, name, client_id), other).publisher == channel_or_empty(m, other).publisher,
{
}

/// A channel has at most one publisher: once a client publishes on it, it
/// is the channel's publisher and no further publish on it succeeds.
pub proof fn lemma_single_publisher(m: ChannelMap, name: Seq<char>, client_id: ClientId)
    ensures
        spec_publish(m, name, client_id)[name].publisher == Some(client_id),
        !can_publish(spec_publish(m, name, client_id), name),
{
}

/// After a client disconnects it is no channel's publisher or subscriber,
/// each channel it published on can be published on again, every other
/// membership stays, and the channels stay well-formed.
pub proof fn lemma_disconnect_releases(m: ChannelMap, client_id: ClientId)
    requires
        channels_wf(m),
    ensures
        !is_member(spec_disconnect(m, client_id), client_id),
        channels_wf(spec_disconnect(m, client_id)),
        forall|n: Seq<char>|
            #[trigger] m.contains_key(n) && m[n].publisher == Some(client_id) ==> can_publish(
                spec_disconnect(m, client_id),
                n,
            ),
        forall|n: Seq<char>|
            #[trigger] m.contains_key(n) && m[n].publisher is Some && m[n].publisher != Some(client_id)
                ==> spec_disconnect(m, client_id).contains_key(n) && spec_disconnect(m, client_id)[n].publisher
                == m[n].publisher,
        forall|n: Seq<char>, s: ClientId|
            s != client_id && #[trigger] m.contains_key(n) && #[trigger] m[n].subscribers.contains(s) ==> spec_disconnect(
                m,
                client_id,
            ).contains_key(n) && spec_disconnect(m, client_id)[n].subscribers.contains(s),
{
    let d = spec_disconnect(m, client_id);
    assert forall|n: Seq<char>| #[trigger] d.contains_key(n) implies !(d[n].publisher == Some(client_id)
        || d[n].subscribers.contains(client_id)) && channel_wf(d[n]) by {
        assert(channel_wf(m[n]));
    }
}

/// A named channel, as the manager stores it.
struct ChannelEntry {
    name: String,
    channel: Channel,
}

/// Keeps, for each channel name, the channel's publisher and subscribers.
pub struct ChannelManager {
    entries: Vec<ChannelEntry>,
    state: Ghost<ChannelMap>,
}

impl View for ChannelManager {
    type V = ChannelMap;

    closed spec fn view(&self) -> ChannelMap {
        self.state@
    }
}

impl ChannelManager {
    /// The manager's internal invariant: each stored channel is named once,
    /// the entries are exactly the channels of the view, and every channel is
    /// well-formed.
    pub closed spec fn wf(&self) -> bool {
        &&& forall|i: int, j: int|
            0 <= i < j < self.entries@.len() ==> #[trigger] self.entries@[i].name@
                != #[trigger] self.entries@[j].name@
        &&& forall|i: int|
            0 <= i < self.entries@.len() ==> self.state@.contains_key(
                #[trigger] self.entries@[i].name@,
            ) && self.state@[self.entries@[i].name@] == self.entries@[i].channel@
        &&& forall|n: Seq<char>|
            #[trigger] self.state@.contains_key(n) ==> exists|i: int|
                0 <= i < self.entries@.len() && #[trigger] self.entries@[i].name@ == n
        &&& channels_wf(self.state@)
    }

    /// Every channel a well-formed manager keeps is live and has finitely
    /// many subscribers.
    pub proof fn lemma_channels_wf(&self)
        requires
            self.wf(),
        ensures
            channels_wf(self@),
    {
    }

    /// A manager with no channel.
    pub fn new() -> (r: Self)
        ensures
            r.wf(),
            r@ == ChannelMap::empty(),
    {
        ChannelManager { entries: Vec::new(), state: Ghost(Map::empty()) }
    }

    /// The position of the entry called `name`, if any.
    fn find(&self, name: &String) -> (r: Option<usize>)
        requires
            self.wf(),
        ensures
            match r {
                Some(i) => i < self.entries@.len() && self.entries@[i as int].name@ == name@,
                None => !self@.contains_key(name@),
            },
    {
        let mut i: usize = 0;
        while i < self.entries.len()
            invariant
                self.wf(),
                i <= self.entries@.len(),
                forall|k: int| 0 <= k < i ==> self.entries@[k].name@ != name@,
            decreases self.entries@.len() - i,
        {
            if self.entries[i].name == *name {
                return Some(i);
            }
            i += 1;
        }
        proof {
            if self@.contains_key(name@) {
                let k = choose|k: int| 0 <= k < self.entries@.len() && #[trigger] self.entries@[k].name@ == name@;
                assert(self.entries@[k].name@ == name@);
            }
        }
        None
    }

    /// Makes `client_id` the publisher of `channel_name`, creating the channel
    /// where there is none. A channel has at most one publisher: where it
    /// already has one, nothing changes and the answer is an error.
    pub fn publish(&mut self, channel_name: &str, client_id: ClientId) -> (r: Result<(), &'static str>)
        requires
            old(self).wf(),
        ensures
            final(self).wf(),
            can_publish(old(self)@, channel_name@) ==> r == Ok::<(), &'static str>(())
                && final(self)@ == spec_publish(old(self)@, channel_name@, client_id),
            !can_publish(old(self)@, channel_name@) ==> r == Err::<(), &'static str>(
                "channel already has a publisher",
            ) && final(self)@ == old(self)@,
    {
        let key = channel_name.to_owned();
        match self.find(&key) {
            Some(i) => {
                if self.entries[i].channel.publisher.is_some() {
                    return Err("channel already has a publisher");
                }
                let ghost old_state = self.state@;
                let ghost new_channel = ChannelState {
                    publisher: Some(client_id),
                    subscribers: self.entries@[i as int].channel@.subscribers,
                };
                self.entries[i].channel.publisher = Some(client_id);
                self.state = Ghost(old_state.insert(key@, new_channel));
                proof {
                    assert(self.entries@[i as int].channel@ == new_channel);
                    self.lemma_wf_after_update(old(self), i as int, new_channel);
                }
            },
            None => {
                let ghost old_state = self.state@;
                let channel = Channel { publisher: Some(client_id), subscribers: HashSet::new() };
                self.entries.push(ChannelEntry { name: key, channel });
                self.state = Ghost(old_state.insert(channel_name@, channel@));
                proof {
                    self.lemma_wf_after_push(old(self));
                }
            },
        }
        Ok(())
    }

    /// Subscribes `client_id` to `channel_name`, creating the channel where
    /// there is none. Subscribing twice changes nothing.
    pub fn subscribe(&mut self, channel_name: &str, client_id: ClientId)
        requires
            old(self).wf(),
        ensures
            final(self).wf(),
            final(self)@ == spec_subscribe(old(self)@, channel_name@, client_id),
    {
        let key = channel_name.to_owned();
        match self.find(&key) {
            Some(i) => {
                let ghost old_state = self.state@;
                let ghost new_channel = ChannelState {
                    publisher: self.entries@[i as int].channel@.publisher,
                    subscribers: self.entries@[i as int].channel@.subscribers.insert(client_id),
                };
                proof {
                    assert(self@.contains_key(key@));
                    assert(channel_wf(self.entries@[i as int].channel@));
                }
                self.entries[i].channel.subscribers.insert(client_id);
                self.state = Ghost(old_state.insert(key@, new_channel));
                proof {
                    assert(self.entries@[i as int].channel@ =~= new_channel);
                    self.lemma_wf_after_update(old(self), i as int, new_channel);
                }
            },
            None => {
                let ghost old_state = self.state@;
                let mut subscribers: HashSet<ClientId> = HashSet::new();
                subscribers.insert(client_id);
                let channel = Channel { publisher: None, subscribers };
                assert(channel@.subscribers.contains(client_id));
                self.entries.push(ChannelEntry { name: key, channel });
                self.state = Ghost(old_state.insert(channel_name@, channel@));
                proof {
                    assert(channel@.subscribers =~= empty_channel().subscribers.insert(client_id));
                    self.lemma_wf_after_push(old(self));
                }
            },
        }
    }

    /// Unsubscribes `client_id` from `channel_name`; a channel left with
    /// neither publisher nor subscriber is removed.
    pub fn unsubscribe(&mut self, channel_name: &str, client_id: ClientId)
        requires
            old(self).wf(),
        ensures
            final(self).wf(),
            final(self)@ == spec_unsubscribe(old(self)@, channel_name@, client_id),
    {
        let key = channel_name.to_owned();
        match self.find(&key) {
            Some(i) => {
                let remaining = subscribers_without(&self.entries[i].channel.subscribers, client_id);
                let ghost old_state = self.state@;
                if self.entries[i].channel.publisher.is_none() && remaining.is_empty() {
                    let _ = self.entries.remove(i);
                    self.state = Ghost(old_state.remove(key@));
                    proof {
                        self.lemma_wf_after_remove(old(self), i as int);
                    }
                } else {
                    let ghost new_channel = ChannelState {
                        publisher: self.entries@[i as int].channel@.publisher,
                        subscribers: remaining@,
                    };
                    proof {
                        let old_channel = self.entries@[i as int].channel@;
                        assert(self@.contains_key(key@));
                        assert(channel_wf(old_channel));
                    }
                    self.entries[i].channel.subscribers = remaining;
                    self.state = Ghost(old_state.insert(key@, new_channel));
                    proof {
                        assert(self.entries@[i as int].channel@ == new_channel);
                        self.lemma_wf_after_update(old(self), i as int, new_channel);
                    }
                }
            },
            None => {},
        }
    }

    /// Releases `client_id` from every channel: it stops being a publisher and
    /// a subscriber anywhere, and channels left with neither are removed.
    pub fn disconnect(&mut self, client_id: ClientId)
        requires
            old(self).wf(),
        ensures
            final(self).wf(),
            final(self)@ == spec_disconnect(old(self)@, client_id),
    {
        let ghost target = spec_disconnect(self@, client_id);
        let mut kept: Vec<ChannelEntry> = Vec::new();
        let mut i: usize = 0;
        while i < self.entries.len()
            invariant
                self.wf(),
                i <= self.entries@.len(),
                target == spec_disconnect(self@, client_id),
                forall|a: int, b: int|
                    0 <= a < b < kept@.len() ==> #[trigger] kept@[a].name@ != #[trigger] kept@[b].name@,
                forall|a: int|
                    0 <= a < kept@.len() ==> target.contains_key(#[trigger] kept@[a].name@)
                        && target[kept@[a].name@] == kept@[a].channel@,
                forall|a: int|
                    0 <= a < kept@.len() ==> exists|j: int|
                        0 <= j < i && self.entries@[j].name@ == #[trigger] kept@[a].name@,
                forall|j: int|
                    0 <= j < i && target.contains_key(#[trigger] self.entries@[j].name@) ==> exists|a: int|
                        0 <= a < kept@.len() && #[trigger] kept@[a].name@ == self.entries@[j].name@,
            decreases self.entries@.len() - i,
        {
            let entry = &self.entries[i];
            let publisher = if entry.channel.publisher == Some(client_id) {
                None
            } else {
                entry.channel.publisher
            };
            let subscribers = subscribers_without(&entry.channel.subscribers, client_id);
            let ghost name = entry.name@;
            proof {
                assert(self@.contains_key(name));
                assert(release(self@[name], client_id) == (ChannelState { publisher, subscribers: subscribers@ }));
            }
            if publisher.is_some() || !subscribers.is_empty() {
                let ghost before = kept@;
                kept.push(ChannelEntry { name: entry.name.clone(), channel: Channel { publisher, subscribers } });
                proof {
                    assert(target.contains_key(name));
                    assert forall|a: int| 0 <= a < kept@.len() - 1 implies #[trigger] kept@[a].name@ != name by {
                        let j = choose|j: int| 0 <= j < i && self.entries@[j].name@ == #[trigger] before[a].name@;
                        assert(before[a] == kept@[a]);
                    }
                    assert forall|a: int| 0 <= a < kept@.len() implies exists|j: int|
                        0 <= j < i + 1 && self.entries@[j].name@ == #[trigger] kept@[a].name@ by {
                        if a < kept@.len() - 1 {
                            assert(before[a] == kept@[a]);
                            let j = choose|j: int| 0 <= j < i && self.entries@[j].name@ == #[trigger] before[a].name@;
                            assert(self.entries@[j].name@ == kept@[a].name@);
                        } else {
                            assert(self.entries@[i as int].name@ == kept@[a].name@);
                        }
                    }
                    assert forall|j: int|
                        0 <= j < i + 1 && target.contains_key(#[trigger] self.entries@[j].name@) implies exists|a: int|
                        0 <= a < kept@.len() && #[trigger] kept@[a].name@ == self.entries@[j].name@ by {
                        if j < i {
                            let a = choose|a: int| 0 <= a < before.len() && #[trigger] before[a].name@ == self.entries@[j].name@;
                            assert(kept@[a] == before[a]);
                        } else {
                            assert(kept@[kept@.len() - 1].name@ == self.entries@[j].name@);
                        }
                    }
                }
            } else {
                proof {
                    assert(!target.contains_key(name));
                    assert forall|a: int| 0 <= a < kept@.len() implies exists|j: int|
                        0 <= j < i + 1 && self.entries@[j].name@ == #[trigger] kept@[a].name@ by {
                        let j = choose|j: int| 0 <= j < i && self.entries@[j].name@ == #[trigger] kept@[a].name@;
                        assert(self.entries@[j].name@ == kept@[a].name@);
                    }
                }
            }
            i += 1;
        }
        proof {
            assert forall|n: Seq<char>| #[trigger] target.contains_key(n) implies exists|a: int|
                0 <= a < kept@.len() && #[trigger] kept@[a].name@ == n by {
                let j = choose|j: int| 0 <= j < self.entries@.len() && #[trigger] self.entries@[j].name@ == n;
                assert(target.contains_key(self.entries@[j].name@));
            }
            assert forall|n: Seq<char>| #[trigger] target.contains_key(n) implies channel_wf(target[n]) by {
                let c = self@[n];
                assert(channel_wf(c));
            }
        }
        self.entries = kept;
        self.state = Ghost(target);
    }

    /// The subscribers of `channel_name`, where the channel exists.
    pub fn subscribers(&self, channel_name: &str) -> (r: Option<&HashSet<ClientId>>)
        requires
            self.wf(),
        ensures
            match r {
                Some(v) => self@.contains_key(channel_name@) && v@ == self@[channel_name@].subscribers,
                None => !self@.contains_key(channel_name@),
            },
    {
        let key = channel_name.to_owned();
        match self.find(&key) {
            Some(i) => Some(&self.entries[i].channel.subscribers),
            None => None,
        }
    }

    /// The publisher of `channel_name`, where the channel exists and has one.
    pub fn publisher(&self, channel_name: &str) -> (r: Option<ClientId>)
        requires
            self.wf(),
        ensures
            r == channel_or_empty(self@, channel_name@).publisher,
    {
        let key = channel_name.to_owned();
        match self.find(&key) {
            Some(i) => self.entries[i].channel.publisher,
            None => None,
        }
    }

    /// The channel called `channel_name`, where it exists.
    pub fn channel(&self, channel_name: &str) -> (r: Option<&Channel>)
        requires
            self.wf(),
        ensures
            match r {
                Some(c) => self@.contains_key(channel_name@) && c@ == self@[channel_name@],
                None => !self@.contains_key(channel_name@),
            },
    {
        let key = channel_name.to_owned();
        match self.find(&key) {
            Some(i) => Some(&self.entries[i].channel),
            None => None,
        }
    }

    proof fn lemma_wf_after_update(&self, old_self: &Self, i: int, c: ChannelState)
        requires
            old_self.wf(),
            0 <= i < old_self.entries@.len(),
            self.entries@.len() == old_self.entries@.len(),
            forall|k: int| 0 <= k < self.entries@.len() ==> (#[trigger] self.entries@[k]).name@ == old_self.entries@[k].name@,
            forall|k: int| 0 <= k < self.entries@.len() && k != i ==> #[trigger] self.entries@[k] == old_self.entries@[k],
            self.entries@[i].channel@ == c,
            self.state@ == old_self.state@.insert(old_self.entries@[i].name@, c),
            channel_wf(c),
        ensures
            self.wf(),
    {
        assert forall|n: Seq<char>| #[trigger] self.state@.contains_key(n) implies exists|k: int|
            0 <= k < self.entries@.len() && #[trigger] self.entries@[k].name@ == n by {
            if n != old_self.entries@[i].name@ {
                let k = choose|k: int| 0 <= k < old_self.entries@.len() && #[trigger] old_self.entries@[k].name@ == n;
                assert(self.entries@[k].name@ == n);
            } else {
                assert(self.entries@[i].name@ == n);
            }
        }
        assert forall|k: int| 0 <= k < self.entries@.len() implies self.state@.contains_key(
            #[trigger] self.entries@[k].name@,
        ) && self.state@[self.entries@[k].name@] == self.entries@[k].channel@ by {
            if k != i {
                assert(old_self.entries@[k].name@ != old_self.entries@[i].name@);
            }
        }
        assert forall|a: int, b: int|
            0 <= a < b < self.entries@.len() implies #[trigger] self.entries@[a].name@
                != #[trigger] self.entries@[b].name@ by {
            assert(old_self.entries@[a].name@ != old_self.entries@[b].name@);
        }
    }

    proof fn lemma_wf_after_push(&self, old_self: &Self)
        requires
            old_self.wf(),
            self.entries@.len() == old_self.entries@.len() + 1,
            forall|k: int| 0 <= k < old_self.entries@.len() ==> #[trigger] self.entries@[k] == old_self.entries@[k],
            !old_self@.contains_key(self.entries@.last().name@),
            self.state@ == old_self.state@.insert(self.entries@.last().name@, self.entries@.last().channel@),
            channel_wf(self.entries@.last().channel@),
        ensures
            self.wf(),
    {
        let last = self.entries@.len() - 1;
        assert forall|n: Seq<char>| #[trigger] self.state@.contains_key(n) implies exists|k: int|
            0 <= k < self.entries@.len() && #[trigger] self.entries@[k].name@ == n by {
            if n != self.entries@[last].name@ {
                let k = choose|k: int| 0 <= k < old_self.entries@.len() && #[trigger] old_self.entries@[k].name@ == n;
                assert(self.entries@[k].name@ == n);
            } else {
                assert(self.entries@[last].name@ == n);
            }
        }
        assert forall|k: int| 0 <= k < self.entries@.len() implies self.state@.contains_key(
            #[trigger] self.entries@[k].name@,
        ) && self.state@[self.entries@[k].name@] == self.entries@[k].channel@ by {
            if k != last {
                assert(self.entries@[k] == old_self.entries@[k]);
                assert(old_self.state@.contains_key(old_self.entries@[k].name@));
            }
        }
        assert forall|a: int, b: int|
            0 <= a < b < self.entries@.len() implies #[trigger] self.entries@[a].name@
                != #[trigger] self.entries@[b].name@ by {
            assert(self.entries@[a] == old_self.entries@[a]);
            if b < last {
                assert(self.entries@[b] == old_self.entries@[b]);
            } else {
                assert(old_self.state@.contains_key(old_self.entries@[a].name@));
            }
        }
    }

    proof fn lemma_wf_after_remove(&self, old_self: &Self, i: int)
        requires
            old_self.wf(),
            0 <= i < old_self.entries@.len(),
            self.entries@ == old_self.entries@.remove(i),
            self.state@ == old_self.state@.remove(old_self.entries@[i].name@),
        ensures
            self.wf(),
    {
        let gone = old_self.entries@[i].name@;
        assert forall|n: Seq<char>| #[trigger] self.state@.contains_key(n) implies exists|k: int|
            0 <= k < self.entries@.len() && #[trigger] self.entries@[k].name@ == n by {
            let k = choose|k: int| 0 <= k < old_self.entries@.len() && #[trigger] old_self.entries@[k].name@ == n;
            if k < i {
                assert(self.entries@[k].name@ == n);
            } else {
                assert(k != i);
                assert(self.entries@[k - 1].name@ == n);
            }
        }
        assert forall|k: int| 0 <= k < self.entries@.len() implies self.state@.contains_key(
            #[trigger] self.entries@[k].name@,
        ) && self.state@[self.entries@[k].name@] == self.entries@[k].channel@ by {
            if k < i {
                assert(self.entries@[k] == old_self.entries@[k]);
                assert(old_self.entries@[k].name@ != gone);
            } else {
                assert(self.entries@[k] == old_self.entries@[k + 1]);
                assert(old_self.entries@[k + 1].name@ != gone);
            }
        }
        assert forall|a: int, b: int|
            0 <= a < b < self.entries@.len() implies #[trigger] self.entries@[a].name@
                != #[trigger] self.entries@[b].name@ by {
            let oa = if a < i { a } else { a + 1 };
            let ob = if b < i { b } else { b + 1 };
            assert(self.entries@[a] == old_self.entries@[oa]);
            assert(self.entries@[b] == old_self.entries@[ob]);
            assert(old_self.entries@[oa].name@ != old_self.entries@[ob].name@);
        }
    }
}

} // verus!
