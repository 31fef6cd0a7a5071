//! Domain types for a single interactive cloud-gaming session.

use vstd::prelude::*;

verus! {

/// Server-issued identifier for a game session.
#[derive(Clone, Copy, Debug, PartialEq, Eq, Hash, Structural)]
pub struct GameSessionId(pub u128);

/// Lifecycle states shared by the session manager, worker, and client.
#[derive(Clone, Copy, Debug, PartialEq, Eq, Structural)]
pub enum GameSessionState {
    Requested,
    Assigned,
    Ready,
    Ended,
}

/// A game session has one player and one assigned game worker.
#[derive(Clone, Debug, PartialEq, Eq, Structural)]
pub struct GameSession {
    pub id: GameSessionId,
    pub state: GameSessionState,
}

impl GameSession {
    /// A newly requested session: it carries `id` and starts in `Requested`.
    pub fn requested(id: GameSessionId) -> (s: Self)
        ensures
            s.id == id,
            s.state == GameSessionState::Requested,
    {
        Self { id, state: GameSessionState::Requested }
    }
}

} // verus!
