use moq_rs::session::{GameSession, GameSessionId, GameSessionState};

#[test]
fn new_session_starts_requested() {
    let session = GameSession::requested(GameSessionId(42));

    assert_eq!(session.id, GameSessionId(42));
    assert_eq!(session.state, GameSessionState::Requested);
}
