use glypheris::compile::{compile_to_binary, HALF_BITS, ONE_BITS, SEVEN_TENTHS_BITS};
use glypheris::gesture::decode_gesture;
use glypheris::inference::decode_inference;
use glypheris::json::{JsonNumber, JsonValue};
use glypheris::plan::decode_plan;

fn model(v: &serde_json::Value) -> JsonValue {
    match v {
        serde_json::Value::Null => JsonValue::Null,
        serde_json::Value::Bool(b) => JsonValue::Bool(*b),
        serde_json::Value::Number(n) => JsonValue::Number(JsonNumber {
            int_value: n.as_i64(),
            f32_bits: (n.as_f64().unwrap_or(0.0) as f32).to_bits(),
        }),
        serde_json::Value::String(s) => JsonValue::String(s.clone()),
        serde_json::Value::Array(items) => JsonValue::Array(items.iter().map(model).collect()),
        serde_json::Value::Object(members) => JsonValue::Object(
            members.iter().map(|(k, v)| (k.clone(), model(v))).collect(),
        ),
    }
}

fn parse(text: &str) -> JsonValue {
    let value: serde_json::Value = serde_json::from_str(text).unwrap();
    model(&value)
}

#[test]
fn default_float_constants_match_f32() {
    assert_eq!(HALF_BITS, 0.5f32.to_bits());
    assert_eq!(ONE_BITS, 1.0f32.to_bits());
    assert_eq!(SEVEN_TENTHS_BITS, 0.7f32.to_bits());
}

#[test]
fn gesture_defaults_fill_an_empty_payload() {
    let bytes = compile_to_binary(&parse("{}"), "GestureCommand").unwrap();
    let g = decode_gesture(&bytes).unwrap();
    assert_eq!(g.action, 0);
    assert_eq!(f32::from_bits(g.intensity), 0.5);
    assert_eq!(g.duration_ms, 0);
    assert!(g.direction.is_none());
    assert!(g.compiler_verified);
    assert_eq!(f32::from_bits(g.speed_multiplier), 1.0);
    assert_eq!(g.loop_count, 1);
    assert_eq!(g.blend_mode, 0);
    assert_eq!(g.priority, 0);
    assert_eq!(g.easing, 0);
    assert_eq!(g.target_bone, "");
    assert_eq!(g.emotion_tag, 0);
}

#[test]
fn gesture_packet_bytes_are_exact() {
    let bytes = compile_to_binary(&parse(r#"{"action":"JUMP"}"#), "GestureCommand").unwrap();
    assert_eq!(
        bytes,
        vec![0x08, 0x01, 0x15, 0x00, 0x00, 0x00, 0x3F, 0x28, 0x01, 0x35, 0x00, 0x00, 0x80, 0x3F, 0x38, 0x01]
    );
}

#[test]
fn gesture_enum_names_map_to_numbers() {
    let json = r#"{"action":"INTERACT","blend_mode":"LAYER","easing":"BOUNCE","emotion_tag":"SURPRISED",
        "direction":{"x":2.5},"target_bone":"spine","duration_ms":250,"priority":10}"#;
    let g = decode_gesture(&compile_to_binary(&parse(json), "GestureCommand").unwrap()).unwrap();
    assert_eq!(g.action, 9);
    assert_eq!(g.blend_mode, 2);
    assert_eq!(g.easing, 5);
    assert_eq!(g.emotion_tag, 6);
    let d = g.direction.unwrap();
    assert_eq!(f32::from_bits(d.x), 2.5);
    assert_eq!(f32::from_bits(d.y), 0.0);
    assert_eq!(g.target_bone, "spine");
    assert_eq!(g.duration_ms, 250);
    assert_eq!(g.priority, 10);
}

#[test]
fn unknown_enum_names_fall_back() {
    let json = r#"{"action":"FLY","blend_mode":"MIX","easing":7,"emotion_tag":null}"#;
    let g = decode_gesture(&compile_to_binary(&parse(json), "GestureCommand").unwrap()).unwrap();
    assert_eq!(g.action, 0);
    assert_eq!(g.blend_mode, 0);
    assert_eq!(g.easing, 0);
    assert_eq!(g.emotion_tag, 0);
}

#[test]
fn plan_defaults_fill_an_empty_payload() {
    let p = decode_plan(&compile_to_binary(&parse("{}"), "ExecutionPlan").unwrap()).unwrap();
    assert_eq!(p.plan_id, "");
    assert_eq!(p.priority_level, 2);
    assert_eq!(p.max_retries, 0);
    assert!(p.nodes.is_empty());
    assert!(p.compiler_verified);
    assert!(!p.parallel_allowed);
}

#[test]
fn plan_compiler_verified_is_always_set() {
    let json = r#"{"compiler_verified":false,"priority_level":"BACKGROUND","estimated_cost_units":2}"#;
    let p = decode_plan(&compile_to_binary(&parse(json), "ExecutionPlan").unwrap()).unwrap();
    assert!(p.compiler_verified);
    assert_eq!(p.priority_level, 0);
    assert_eq!(f32::from_bits(p.estimated_cost_units), 2.0);
}

#[test]
fn plan_dependencies_keep_only_strings() {
    let json = r#"{"nodes":[{"task_id":"t","dependencies":[1,"a",null,"b"]},{}]}"#;
    let p = decode_plan(&compile_to_binary(&parse(json), "ExecutionPlan").unwrap()).unwrap();
    assert_eq!(p.nodes.len(), 2);
    assert_eq!(p.nodes[0].dependencies, vec!["a".to_string(), "b".to_string()]);
    assert_eq!(p.nodes[1].task_id, "");
    assert!(p.nodes[1].dependencies.is_empty());
}

#[test]
fn inference_defaults_fill_an_empty_payload() {
    let p = decode_inference(&compile_to_binary(&parse("{}"), "InferencePacket").unwrap()).unwrap();
    assert_eq!(p.query_type, 0);
    assert_eq!(f32::from_bits(p.confidence_threshold), 0.7);
    assert_eq!(f32::from_bits(p.overall_confidence), 0.0);
    assert!(p.chain_of_thought.is_empty());
    assert!(p.compiler_verified);
}

#[test]
fn integer_fields_wrap_to_i32() {
    let json = r#"{"context_window_used":4294967297}"#;
    let p = decode_inference(&compile_to_binary(&parse(json), "InferencePacket").unwrap()).unwrap();
    assert_eq!(p.context_window_used, 1);
}

#[test]
fn unknown_schema_is_refused() {
    let r = compile_to_binary(&parse("{}"), "Telemetry");
    assert_eq!(r, Err("Unknown schema target: Telemetry".to_string()));
}

#[test]
fn non_object_payload_uses_defaults() {
    let p = decode_plan(&compile_to_binary(&parse("[1,2]"), "ExecutionPlan").unwrap()).unwrap();
    assert_eq!(p.plan_id, "");
    assert_eq!(p.priority_level, 2);
}

#[test]
fn wrong_kinds_and_non_objects_read_as_absent() {
    for schema in ["GestureCommand", "ExecutionPlan", "InferencePacket"] {
        let empty = compile_to_binary(&parse("{}"), schema).unwrap();
        for text in ["[]", "5", "null", "\"x\"", "true"] {
            assert_eq!(compile_to_binary(&parse(text), schema).unwrap(), empty);
        }
    }
    let typed = compile_to_binary(&parse(r#"{"intensity":"high","duration_ms":1.5,"direction":[1]}"#), "GestureCommand");
    assert_eq!(typed, compile_to_binary(&parse("{}"), "GestureCommand"));
}

#[test]
fn ignored_member_drops_out_of_the_packet() {
    let cases = [
        ("GestureCommand", r#"{"action":"WAVE","loop_count":3,"priority":"high"}"#, r#"{"action":"WAVE","loop_count":3}"#),
        ("GestureCommand", r#"{"action":"JUMP","mood":"calm"}"#, r#"{"action":"JUMP"}"#),
        ("ExecutionPlan", r#"{"objective":"o","max_retries":2.5,"nodes":[]}"#, r#"{"objective":"o","nodes":[]}"#),
        ("ExecutionPlan", r#"{"plan_id":"p","nodes":{"a":1}}"#, r#"{"plan_id":"p"}"#),
        ("InferencePacket", r#"{"session_id":"s","overall_confidence":"sure"}"#, r#"{"session_id":"s"}"#),
        ("InferencePacket", r#"{"final_answer":"42","compiler_verified":false}"#, r#"{"final_answer":"42"}"#),
    ];
    for (schema, with_member, without) in cases {
        assert_eq!(
            compile_to_binary(&parse(with_member), schema).unwrap(),
            compile_to_binary(&parse(without), schema).unwrap(),
            "{} {}",
            schema,
            with_member
        );
    }
    let kept = compile_to_binary(&parse(r#"{"action":"WAVE","loop_count":3}"#), "GestureCommand").unwrap();
    let dropped = compile_to_binary(&parse(r#"{"action":"WAVE"}"#), "GestureCommand").unwrap();
    assert_ne!(kept, dropped);
}
