use cc_demon::codec::encode_user_message;
use cc_demon::engine::{
    Engine, EngineState, Handshake, ReadOutcome, SessionError, WireOp,
};

fn ready_engine() -> Engine {
    Engine { state: EngineState::Ready, identity: None }
}

fn line(s: &str) -> ReadOutcome {
    ReadOutcome::Line(s.to_string())
}

#[test]
fn test_ping_pong_round_trip() {
    let mut engine = ready_engine();
    let script = vec![line("{\"type\":\"result\",\"result\":\"pong\"}")];
    let mut trace: Vec<WireOp> = Vec::new();
    let r = engine.send_and_await_scripted("ping", &script, 3, &mut trace);
    assert_eq!(r.unwrap(), "pong");
    assert_eq!(engine.state, EngineState::Ready);
    match &trace[0] {
        WireOp::Write(l) => assert_eq!(l, &encode_user_message("ping")),
        _ => panic!("the first wire operation is the request write"),
    }
}

#[test]
fn test_noise_lines_ignored() {
    let mut engine = ready_engine();
    let script = vec![
        line("not json"),
        line("{\"type\":\"unknown\"}"),
        line("{\"type\":\"result\",\"result\":\"answer\"}"),
    ];
    let mut trace: Vec<WireOp> = Vec::new();
    let r = engine.send_and_await_scripted("q", &script, 3, &mut trace);
    assert_eq!(r.unwrap(), "answer");
    assert_eq!(engine.state, EngineState::Ready);
}

#[test]
fn test_eof_mid_exchange_kills_generation() {
    let mut engine = ready_engine();
    let script = vec![
        line("{\"type\":\"assistant\",\"message\":{\"content\":[{\"type\":\"text\",\"text\":\"half\"}]}}"),
        ReadOutcome::Eof,
    ];
    let mut trace: Vec<WireOp> = Vec::new();
    let r = engine.send_and_await_scripted("q", &script, 3, &mut trace);
    assert!(matches!(r, Err(SessionError::ProtocolIo)));
    assert_eq!(engine.state, EngineState::Dead);

    // A later send without a restart fails immediately and silently
    // respawns nothing: the wire trace does not grow.
    let before = trace.len();
    let r2 = engine.send_and_await_scripted("again", &Vec::new(), 3, &mut trace);
    assert!(matches!(r2, Err(SessionError::ProtocolIo)));
    assert_eq!(trace.len(), before);
    assert_eq!(engine.state, EngineState::Dead);
}

#[test]
fn test_deadline_timeout_kills_generation() {
    let mut engine = ready_engine();
    let script = vec![ReadOutcome::Timeout, ReadOutcome::Timeout];
    let mut trace: Vec<WireOp> = Vec::new();
    let r = engine.send_and_await_scripted("q", &script, 1, &mut trace);
    assert!(matches!(r, Err(SessionError::ProtocolTimeout)));
    assert_eq!(engine.state, EngineState::Dead);
}

#[test]
fn test_semantic_error_leaves_session_usable() {
    let mut engine = ready_engine();
    let script = vec![line("{\"type\":\"result\",\"is_error\":true,\"error\":\"bad\"}")];
    let mut trace: Vec<WireOp> = Vec::new();
    let r = engine.send_and_await_scripted("q", &script, 3, &mut trace);
    match r {
        Err(SessionError::Semantic(m)) => assert_eq!(m, "bad"),
        _ => panic!("expected a semantic error"),
    }
    assert_eq!(engine.state, EngineState::Ready);

    // The next exchange on the same generation succeeds.
    let script2 = vec![line("{\"type\":\"result\",\"result\":\"fine\"}")];
    let r2 = engine.send_and_await_scripted("q2", &script2, 3, &mut trace);
    assert_eq!(r2.unwrap(), "fine");
}

#[test]
fn test_bare_result_falls_back_to_assistant_text() {
    let mut engine = ready_engine();
    let script = vec![
        line("{\"type\":\"assistant\",\"message\":{\"content\":[{\"type\":\"text\",\"text\":\"partial answer\"}]}}"),
        line("{\"type\":\"result\"}"),
    ];
    let mut trace: Vec<WireOp> = Vec::new();
    let r = engine.send_and_await_scripted("q", &script, 3, &mut trace);
    assert_eq!(r.unwrap(), "partial answer");
}

#[test]
fn test_identity_updates_on_any_event() {
    let mut engine = ready_engine();
    let script = vec![
        line("{\"type\":\"weird\",\"session_id\":\"first\"}"),
        line("{\"type\":\"result\",\"result\":\"ok\",\"session_id\":\"second\"}"),
    ];
    let mut trace: Vec<WireOp> = Vec::new();
    let r = engine.send_and_await_scripted("q", &script, 3, &mut trace);
    assert_eq!(r.unwrap(), "ok");
    assert_eq!(engine.identity, Some("second".to_string()));
}

#[test]
fn test_lifecycle_and_handshake() {
    let mut engine = Engine::new();
    assert_eq!(engine.state, EngineState::Unstarted);
    engine.begin_start();
    assert_eq!(engine.state, EngineState::Starting);
    engine.spawn_result(true).unwrap();
    assert_eq!(engine.state, EngineState::Initializing);

    // Drain phase records identities but changes nothing else.
    engine.drain_absorb_line("{\"type\":\"noise\",\"session_id\":\"early\"}");
    assert_eq!(engine.identity, Some("early".to_string()));
    assert_eq!(engine.state, EngineState::Initializing);

    // Ready requires both the init event and the probe's result.
    let mut hs = Handshake::new();
    let done = engine.handshake_absorb_line(
        &mut hs,
        "{\"type\":\"system\",\"subtype\":\"init\",\"session_id\":\"sid\"}",
    );
    assert!(!done);
    assert_eq!(engine.state, EngineState::Initializing);
    let done = engine.handshake_absorb_line(&mut hs, "{\"type\":\"result\",\"result\":\"\"}");
    assert!(done);
    assert_eq!(engine.state, EngineState::Ready);
    assert_eq!(engine.identity, Some("sid".to_string()));
}

#[test]
fn test_spawn_failure_is_fatal_to_generation() {
    let mut engine = Engine::new();
    engine.begin_start();
    let r = engine.spawn_result(false);
    assert!(matches!(r, Err(SessionError::SpawnFailure)));
    assert_eq!(engine.state, EngineState::Dead);
}

#[test]
fn test_startup_deadline_is_distinct_from_exchange_timeout() {
    let mut engine = Engine::new();
    engine.begin_start();
    engine.spawn_result(true).unwrap();
    let r = engine.handshake_timeout(true);
    assert!(matches!(r, Some(SessionError::SpawnFailure)));
    assert_eq!(engine.state, EngineState::Dead);
}

#[test]
fn test_teardown_clears_identity() {
    let mut engine = ready_engine();
    engine.identity = Some("x".to_string());
    engine.teardown();
    assert_eq!(engine.state, EngineState::Dead);
    assert_eq!(engine.identity, None);
}

#[test]
fn test_deadline_binds_a_steady_line_stream() {
    // A subprocess that keeps emitting non-result lines cannot outlive the
    // per-exchange deadline: the first line absorbed after the deadline
    // fails the exchange and kills the generation.
    let mut engine = ready_engine();
    let mut ex = engine.begin_exchange();
    let step = engine.absorb_line(&mut ex, "{\"type\":\"unknown\"}", false);
    assert!(matches!(step, cc_demon::engine::StepOutcome::Pending));
    let step = engine.absorb_line(&mut ex, "{\"type\":\"unknown\"}", true);
    assert!(matches!(
        step,
        cc_demon::engine::StepOutcome::Failed(SessionError::ProtocolTimeout)
    ));
    assert_eq!(engine.state, EngineState::Dead);
}

#[test]
fn test_terminal_line_at_deadline_still_concludes() {
    let mut engine = ready_engine();
    let mut ex = engine.begin_exchange();
    let step = engine.absorb_line(
        &mut ex,
        "{\"type\":\"result\",\"result\":\"late\"}",
        true,
    );
    match step {
        cc_demon::engine::StepOutcome::Done(t) => assert_eq!(t, "late"),
        _ => panic!("a terminal event concludes the exchange even at the deadline"),
    }
    assert_eq!(engine.state, EngineState::Ready);
}
