use cc_demon::engine::{Engine, EngineState, ReadOutcome, SessionError, WireOp};
use cc_demon::health::HealthMonitor;
use cc_demon::manager::{compact_command, serve_all};
use cc_demon::queue::RequestQueue;

fn line(s: &str) -> ReadOutcome {
    ReadOutcome::Line(s.to_string())
}

fn result_line(text: &str) -> ReadOutcome {
    line(&format!("{{\"type\":\"result\",\"result\":\"{}\"}}", text))
}

#[test]
fn test_queue_is_fifo() {
    let mut q = RequestQueue::new(10);
    let t1 = q.enqueue("first".to_string()).unwrap();
    let t2 = q.enqueue("second".to_string()).unwrap();
    let t3 = q.enqueue("third".to_string()).unwrap();
    assert!(t1 < t2 && t2 < t3);
    assert_eq!(q.dequeue().unwrap().prompt, "first");
    assert_eq!(q.dequeue().unwrap().prompt, "second");
    assert_eq!(q.dequeue().unwrap().prompt, "third");
    assert!(q.dequeue().is_none());
}

#[test]
fn test_queue_saturation() {
    let mut q = RequestQueue::new(1);
    q.enqueue("only".to_string()).unwrap();
    let r = q.enqueue("too many".to_string());
    assert!(matches!(r, Err(SessionError::QueueSaturated)));
    assert_eq!(q.len(), 1);
}

#[test]
fn test_worker_serves_in_arrival_order() {
    let mut engine = Engine { state: EngineState::Ready, identity: None };
    let mut q = RequestQueue::new(10);
    let t1 = q.enqueue("one".to_string()).unwrap();
    let t2 = q.enqueue("two".to_string()).unwrap();
    let t3 = q.enqueue("three".to_string()).unwrap();
    let scripts = vec![
        vec![result_line("r1")],
        vec![result_line("r2")],
        vec![result_line("r3")],
    ];
    let mut trace: Vec<WireOp> = Vec::new();
    let results = serve_all(&mut engine, &mut q, &scripts, 3, &mut trace);
    let tickets: Vec<u64> = results.iter().map(|p| p.0).collect();
    assert_eq!(tickets, vec![t1, t2, t3]);
    let texts: Vec<String> = results.into_iter().map(|p| p.1.unwrap()).collect();
    assert_eq!(texts, vec!["r1", "r2", "r3"]);
}

#[test]
fn test_exchanges_never_interleave_on_the_wire() {
    // An ordinary request and a compaction queued at the same instant: the
    // wire trace holds two whole blocks, each a write followed by its own
    // reads, never a write inside another exchange's read loop.
    let mut engine = Engine { state: EngineState::Ready, identity: None };
    let mut q = RequestQueue::new(10);
    q.enqueue("real request".to_string()).unwrap();
    q.enqueue(compact_command()).unwrap();
    let scripts = vec![
        vec![line("{\"type\":\"unknown\"}"), result_line("answer")],
        vec![result_line("compacted")],
    ];
    let mut trace: Vec<WireOp> = Vec::new();
    let results = serve_all(&mut engine, &mut q, &scripts, 3, &mut trace);
    assert_eq!(results.len(), 2);

    let shape: Vec<&str> = trace
        .iter()
        .map(|op| match op {
            WireOp::Write(_) => "write",
            WireOp::Read(_) => "read",
        })
        .collect();
    assert_eq!(shape, vec!["write", "read", "read", "write", "read"]);
    // No write occurs while a previous write's read loop is unresolved.
    match (&trace[0], &trace[3]) {
        (WireOp::Write(w1), WireOp::Write(w2)) => {
            assert!(w1.contains("real request"));
            assert!(w2.contains("/compact"));
        },
        _ => panic!("expected the two request writes"),
    }
}

#[test]
fn test_dead_generation_fails_queued_requests_without_wire_traffic() {
    let mut engine = Engine { state: EngineState::Ready, identity: None };
    let mut q = RequestQueue::new(10);
    q.enqueue("kills it".to_string()).unwrap();
    q.enqueue("after death".to_string()).unwrap();
    let scripts = vec![vec![ReadOutcome::Eof], vec![result_line("never read")]];
    let mut trace: Vec<WireOp> = Vec::new();
    let results = serve_all(&mut engine, &mut q, &scripts, 3, &mut trace);
    assert!(matches!(results[0].1, Err(SessionError::ProtocolIo)));
    assert!(matches!(results[1].1, Err(SessionError::ProtocolIo)));
    assert_eq!(engine.state, EngineState::Dead);
    // The second request put nothing on the wire.
    let writes = trace
        .iter()
        .filter(|op| matches!(op, WireOp::Write(_)))
        .count();
    assert_eq!(writes, 1);
}

#[test]
fn test_failure_counter_and_restart_ceiling() {
    // Ceiling three: failures one, two and three each trigger an attempt; a
    // fourth consecutive failure does not.
    let mut hm = HealthMonitor::new(3);
    assert!(hm.observe(false));
    assert_eq!(hm.consecutive_failures, 1);
    assert!(hm.observe(false));
    assert_eq!(hm.consecutive_failures, 2);
    assert!(hm.observe(false));
    assert_eq!(hm.consecutive_failures, 3);
    assert!(!hm.observe(false));
    assert_eq!(hm.consecutive_failures, 4);
    assert!(hm.exhausted());

    // A positive poll resets the counter unconditionally.
    assert!(!hm.observe(true));
    assert_eq!(hm.consecutive_failures, 0);
    assert!(!hm.exhausted());
}

#[test]
fn test_restart_outcome_resets_only_on_success() {
    let mut hm = HealthMonitor::new(2);
    hm.observe(false);
    hm.restart_result(false);
    assert_eq!(hm.consecutive_failures, 1);
    hm.restart_result(true);
    assert_eq!(hm.consecutive_failures, 0);
}

#[test]
fn test_compact_command_text() {
    assert_eq!(compact_command(), "/compact");
}

#[test]
fn test_handshake_probe_text() {
    assert_eq!(cc_demon::engine::handshake_probe_text(), "ping");
}
