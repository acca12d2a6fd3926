use glypheris::command::{compile_gate, compile_session, SocketStatus, HALT_SCORE_BITS, OK_SCORE_BITS};
use glypheris::frame::SOCKET_PORT;
use glypheris::json::{JsonNumber, JsonValue};
use glypheris::plan::decode_plan;
use glypheris::session::SessionLog;

fn num(i: i64) -> JsonValue {
    JsonValue::Number(JsonNumber { int_value: Some(i), f32_bits: (i as f32).to_bits() })
}

#[test]
fn score_constants_match_f32() {
    assert_eq!(HALT_SCORE_BITS, 0.89f32.to_bits());
    assert_eq!(OK_SCORE_BITS, 0.01f32.to_bits());
}

#[test]
fn vague_intent_is_halted() {
    let r = compile_gate("maybe wave", "GestureCommand").err().unwrap();
    assert_eq!(r.status, "AMBIGUOUS_HALT");
    assert_eq!(r.binary_hex, "");
    assert_eq!(r.listing, "");
    assert_eq!(f32::from_bits(r.ambiguity_score), 0.89);
    assert_eq!(r.tps, 0);
    assert_eq!(r.ttft, 0);
    assert_eq!(r.session_id, "");
}

#[test]
fn clear_intent_gets_its_grammar() {
    assert_eq!(compile_gate("wave", "ExecutionPlan").ok(), Some("grammars/execution_plan.gbnf"));
}

#[test]
fn compiled_session_packs_frame_entry_and_answer() {
    let doc = JsonValue::Object(vec![
        ("plan_id".to_string(), JsonValue::String("p1".to_string())),
        ("max_retries".to_string(), num(2)),
    ]);
    let c = compile_session(
        &doc,
        "{\"plan_id\":\"p1\",\"max_retries\":2}".to_string(),
        "ExecutionPlan".to_string(),
        "make a plan".to_string(),
        "0123456789abcdef".to_string(),
        "2024-05-06 07:08:09".to_string(),
        12.5f32.to_bits(),
        0.85f32.to_bits(),
    )
    .unwrap();
    let packet = vec![0x0A, 0x02, 0x70, 0x31, 0x18, 0x02, 0x20, 0x02, 0x50, 0x01];
    let mut frame = vec![0x47, 0x4C, 0x50, 0x48, 1, 0, 0, 0, 10, 0, 0, 0];
    frame.extend_from_slice(&packet);
    assert_eq!(c.frame, frame);
    assert_eq!(c.entry.binary_hex, "0A 02 70 31 18 02 20 02 50 01");
    assert_eq!(c.entry.byte_size, 10);
    assert_eq!(c.entry.schema, "ExecutionPlan");
    assert_eq!(c.response.status, "OK");
    assert_eq!(c.response.binary_hex, c.entry.binary_hex);
    assert_eq!(c.response.listing, "; GBNF VALIDATED JSON PAYLOAD\n{\"plan_id\":\"p1\",\"max_retries\":2}");
    assert_eq!(f32::from_bits(c.response.tps), 12.5);
    assert_eq!(c.response.session_id, "0123456789abcdef");

    let mut log = SessionLog::new();
    log.record(c.entry);
    let back = log.plan_binary("0123456789abcdef").unwrap();
    assert_eq!(back, packet);
    let plan = decode_plan(&back).unwrap();
    assert_eq!(plan.plan_id, "p1");
    assert_eq!(plan.max_retries, 2);
}

#[test]
fn compile_session_refuses_unknown_schema() {
    let r = compile_session(
        &JsonValue::Null,
        "null".to_string(),
        "Nope".to_string(),
        "x".to_string(),
        "id".to_string(),
        "t".to_string(),
        0,
        0,
    );
    assert_eq!(r.err(), Some("Unknown schema target: Nope".to_string()));
}

#[test]
fn socket_status_reports_port_and_clients() {
    let s = SocketStatus::new(3);
    assert!(s.running);
    assert_eq!(s.port, SOCKET_PORT);
    assert_eq!(s.port, 7432);
    assert_eq!(s.client_count, 3);
}
