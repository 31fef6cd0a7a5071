//! The set of connected clients, each known by a fresh random identifier.

use vstd::prelude::*;
use std::collections::HashSet;
use crate::relay::channel::ClientId;

verus! {

broadcast use vstd::std_specs::hash::group_hash_axioms;

/// `uuid::Uuid::new_v4`, read as its 128-bit value.
/// The value is random; as the crate's source shows, the version nibble is 4
/// and the variant bits are `10`. Nothing else about it is stated. The call
/// panics only where the operating system gives no random bytes.
#[verifier::external_body]
fn random_client_id() -> (id: ClientId)
    ensures
        is_v4_value(id),
{
    uuid::Uuid::new_v4().as_u128()
}

/// The value of a version-4 UUID: version nibble 4, variant bits `10`.
pub open spec fn is_v4_value(id: ClientId) -> bool {
    (id >> 76u32) & 0xfu128 == 4 && (id >> 62u32) & 0x3u128 == 2
}

/// `id` is the smallest identifier that `clients` does not hold.
pub open spec fn is_lowest_free(clients: Set<ClientId>, id: ClientId) -> bool {
    !clients.contains(id) && forall|k: ClientId| k < id ==> #[trigger] clients.contains(k)
}

/// The `k`-th version-4 value, for the fallback on a collision: version
/// nibble 4 and variant bits `10` fixed, the low 62 bits of `k` in the low
/// bits and its top two bits in bits 64 and 65.
pub open spec fn v4_candidate(k: u64) -> ClientId {
    0x0000_0000_0000_4000_8000_0000_0000_0000u128 | ((k as u128) & 0x3fff_ffff_ffff_ffffu128) | (((k as u128)
        >> 62u32) << 64u32)
}

/// Every candidate is a version-4 value, and distinct numbers give distinct
/// candidates.
proof fn lemma_v4_candidate(a: u64, b: u64)
    ensures
        is_v4_value(v4_candidate(a)),
        a != b ==> v4_candidate(a) != v4_candidate(b),
{
    assert(is_v4_value(v4_candidate(a))) by (bit_vector);
    assert(a != b ==> v4_candidate(a) != v4_candidate(b)) by (bit_vector);
}

/// A finite set that holds the candidates for every number below `c` has
/// at least `c` elements.
proof fn lemma_holds_candidates_below(s: Set<ClientId>, c: nat)
    requires
        s.finite(),
        c <= u64::MAX as nat + 1,
        forall|k: u64| (k as nat) < c ==> #[trigger] s.contains(v4_candidate(k)),
    ensures
        c <= s.len(),
    decreases c,
{
    if c > 0 {
        let top = (c - 1) as u64;
        assert(s.contains(v4_candidate(top)));
        let s2 = s.remove(v4_candidate(top));
        assert forall|k: u64| (k as nat) < (c - 1) as nat implies #[trigger] s2.contains(v4_candidate(k)) by {
            lemma_v4_candidate(k, top);
            assert(s.contains(v4_candidate(k)));
        }
        lemma_holds_candidates_below(s2, (c - 1) as nat);
    }
}

/// Keeps the identifiers of the connected clients.
pub struct ClientManager {
    clients: HashSet<ClientId>,
}

impl View for ClientManager {
    type V = Set<ClientId>;

    closed spec fn view(&self) -> Set<ClientId> {
        self.clients@
    }
}

/// A finite set that holds every number below `c` has at least `c`
/// elements.
proof fn lemma_holds_all_below(s: Set<ClientId>, c: nat)
    requires
        s.finite(),
        c <= u128::MAX as nat + 1,
        forall|k: ClientId| (k as nat) < c ==> #[trigger] s.contains(k),
    ensures
        c <= s.len(),
    decreases c,
{
    if c > 0 {
        let top = (c - 1) as ClientId;
        assert(s.contains(top));
        let s2 = s.remove(top);
        assert forall|k: ClientId| (k as nat) < (c - 1) as nat implies #[trigger] s2.contains(k) by {
            assert(s.contains(k));
        }
        lemma_holds_all_below(s2, (c - 1) as nat);
    }
}

impl ClientManager {
    /// The set of connected clients is finite.
    pub closed spec fn wf(&self) -> bool {
        self.clients@.finite()
    }

    /// A manager with no client.
    pub fn new() -> (r: Self)
        ensures
            r.wf(),
            r@ == Set::<ClientId>::empty(),
    {
        ClientManager { clients: HashSet::new() }
    }

    /// The smallest identifier that no connected client has.
    fn lowest_free_id(&self) -> (id: ClientId)
        requires
            self.wf(),
        ensures
            !self@.contains(id),
            forall|k: ClientId| k < id ==> #[trigger] self@.contains(k),
    {
        let mut c: ClientId = 0;
        loop
            invariant
                self.wf(),
                c as nat <= self@.len(),
                forall|k: ClientId| k < c ==> #[trigger] self@.contains(k),
            decreases self@.len() - c,
        {
            if !self.clients.contains(&c) {
                return c;
            }
            proof {
                assert forall|k: ClientId| (k as nat) < (c + 1) as nat implies #[trigger] self@.contains(k) by {
                    if k < c {
                        assert(self@.contains(k));
                    }
                }
                lemma_holds_all_below(self@, (c + 1) as nat);
                assert(self@.len() == self.clients.len());
            }
            c = c + 1;
        }
    }

    /// A version-4 value that no connected client has: the first free one
    /// among the candidates.
    fn free_v4_id(&self) -> (id: ClientId)
        requires
            self.wf(),
        ensures
            !self@.contains(id),
            is_v4_value(id),
    {
        let mut c: u64 = 0;
        loop
            invariant
                self.wf(),
                c as nat <= self@.len(),
                forall|k: u64| k < c ==> #[trigger] self@.contains(v4_candidate(k)),
            decreases self@.len() - c,
        {
            let candidate: ClientId = 0x0000_0000_0000_4000_8000_0000_0000_0000u128
                | ((c as u128) & 0x3fff_ffff_ffff_ffffu128) | (((c as u128) >> 62u32) << 64u32);
            assert(candidate == v4_candidate(c));
            if !self.clients.contains(&candidate) {
                proof {
                    lemma_v4_candidate(c, c);
                }
                return candidate;
            }
            proof {
                assert forall|k: u64| (k as nat) < (c + 1) as nat implies #[trigger] self@.contains(v4_candidate(k)) by {
                    if k < c {
                        assert(self@.contains(v4_candidate(k)));
                    }
                }
                lemma_holds_candidates_below(self@, (c + 1) as nat);
                assert(self@.len() == self.clients.len());
            }
            c = c + 1;
        }
    }

    /// Connects a new client and answers its identifier: a random version-4
    /// UUID value, or, should that one already be taken, another version-4
    /// value that no client has. The identifier is never that of a client
    /// already connected, and it is always a version-4 value.
    pub fn register(&mut self) -> (id: ClientId)
        requires
            old(self).wf(),
        ensures
            final(self).wf(),
            !old(self)@.contains(id),
            final(self)@ == old(self)@.insert(id),
            is_v4_value(id) || is_lowest_free(old(self)@, id),
            is_v4_value(id),
    {
        let drawn = random_client_id();
        let candidate = if self.clients.contains(&drawn) {
            self.free_v4_id()
        } else {
            drawn
        };
        self.register_candidate(candidate)
    }

    /// Connects a new client under `candidate` where no connected client has
    /// that identifier, and otherwise under the smallest free identifier.
    pub fn register_candidate(&mut self, candidate: ClientId) -> (id: ClientId)
        requires
            old(self).wf(),
        ensures
            final(self).wf(),
            !old(self)@.contains(candidate) ==> id == candidate,
            old(self)@.contains(candidate) ==> is_lowest_free(old(self)@, id),
            !old(self)@.contains(id),
            final(self)@ == old(self)@.insert(id),
    {
        let id = if self.clients.contains(&candidate) {
            self.lowest_free_id()
        } else {
            candidate
        };
        self.clients.insert(id);
        id
    }

    /// Disconnects `client_id`; unknown clients are ignored.
    pub fn remove(&mut self, client_id: ClientId)
        requires
            old(self).wf(),
        ensures
            final(self).wf(),
            final(self)@ == old(self)@.remove(client_id),
    {
        self.clients.remove(&client_id);
    }

    /// Whether `client_id` is connected.
    pub fn contains(&self, client_id: ClientId) -> (r: bool)
        ensures
            r == self@.contains(client_id),
    {
        self.clients.contains(&client_id)
    }

    /// The number of connected clients.
    pub fn len(&self) -> (n: usize)
        requires
            self.wf(),
        ensures
            n == self@.len(),
    {
        self.clients.len()
    }

    /// Whether no client is connected.
    pub fn is_empty(&self) -> (r: bool)
        requires
            self.wf(),
        ensures
            r == (self@.len() == 0),
    {
        self.clients.is_empty()
    }
}

impl Default for ClientManager {
    /// The same as `ClientManager::new`: no client.
    fn default() -> (r: Self)
        ensures
            r.wf(),
            r@ == Set::<ClientId>::empty(),
    {
        ClientManager::new()
    }
}

/// Removing the client that `register` has just added gives back the
/// clients that were connected before.
pub proof fn lemma_remove_undoes_register(before: Set<ClientId>, id: ClientId)
    requires
        !before.contains(id),
    ensures
        before.insert(id).remove(id) == before,
{
    assert(before.insert(id).remove(id) =~= before);
}

} // verus!
