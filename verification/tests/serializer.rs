use glypheris::compile::compile_to_binary;
use glypheris::gesture::decode_gesture;
use glypheris::inference::decode_inference;
use glypheris::json::{JsonNumber, JsonValue};
use glypheris::plan::decode_plan;

fn model(v: &serde_json::Value) -> JsonValue {
    match v {
        serde_json::Value::Null => JsonValue::Null,
        serde_json::Value::Bool(b) => JsonValue::Bool(*b),
        serde_json::Value::Number(n) => JsonValue::Number(JsonNumber {
            int_value: n.as_i64(),
            f32_bits: (n.as_f64().unwrap_or(0.0) as f32).to_bits(),
        }),
        serde_json::Value::String(s) => JsonValue::String(s.clone()),
        serde_json::Value::Array(items) => JsonValue::Array(items.iter().map(model).collect()),
        serde_json::Value::Object(members) => JsonValue::Object(
            members.iter().map(|(k, v)| (k.clone(), model(v))).collect(),
        ),
    }
}

fn parse(text: &str) -> JsonValue {
    let value: serde_json::Value = serde_json::from_str(text).unwrap();
    model(&value)
}

#[test]
fn test_gesture_command_serialization() {
    let json = r#"{
            "action": "ATTACK",
            "intensity": 0.95,
            "duration_ms": 500,
            "direction": {
                "x": 0.0,
                "y": 0.0,
                "z": 1.0
            },
            "compiler_verified": true,
            "speed_multiplier": 1.0,
            "loop_count": 1,
            "blend_mode": "OVERRIDE",
            "priority": 8,
            "easing": "LINEAR",
            "target_bone": "",
            "emotion_tag": "AGGRESSIVE"
        }"#;

    let res = compile_to_binary(&parse(json), "GestureCommand");
    assert!(res.is_ok());
    let bytes = res.unwrap();
    let decoded = decode_gesture(&bytes[..]).unwrap();
    assert_eq!(f32::from_bits(decoded.intensity), 0.95);
    assert_eq!(decoded.duration_ms, 500);
    assert_eq!(decoded.priority, 8);
    assert!(decoded.direction.is_some());
    assert_eq!(f32::from_bits(decoded.direction.unwrap().z), 1.0);
}

#[test]
fn test_execution_plan_serialization() {
    let json = r#"{
            "plan_id": "plan-123",
            "objective": "Execute a safe local workflow",
            "priority_level": "HIGH",
            "max_retries": 3,
            "timeout_ms": 10000,
            "requires_confirmation": false,
            "parallel_allowed": true,
            "nodes": [
                {
                    "task_id": "task_1",
                    "tool_name": "http_get",
                    "parameters_json": "{\"url\":\"https://example.com\"}",
                    "dependencies": []
                },
                {
                    "task_id": "task_2",
                    "tool_name": "fs_write",
                    "parameters_json": "{\"filename\":\"output.txt\",\"content\":\"hello\"}",
                    "dependencies": ["task_1"]
                }
            ],
            "estimated_cost_units": 1.5,
            "compiler_verified": true
        }"#;

    let res = compile_to_binary(&parse(json), "ExecutionPlan");
    assert!(res.is_ok());
    let bytes = res.unwrap();
    let decoded = decode_plan(&bytes[..]).unwrap();
    assert_eq!(decoded.plan_id, "plan-123");
    assert_eq!(decoded.max_retries, 3);
    assert_eq!(decoded.nodes.len(), 2);
    assert_eq!(decoded.nodes[0].task_id, "task_1");
    assert_eq!(decoded.nodes[0].tool_name, "http_get");
    assert_eq!(decoded.nodes[1].dependencies.len(), 1);
    assert_eq!(decoded.nodes[1].dependencies[0], "task_1");
}

#[test]
fn test_inference_packet_serialization() {
    let json = r#"{
            "session_id": "session-456",
            "query_type": "ANALYTICAL",
            "confidence_threshold": 0.85,
            "chain_of_thought": [
                {
                    "step_id": "step_1",
                    "reasoning": "Analyze the black hole entropy equation.",
                    "confidence": 0.95,
                    "evidence_refs": ["ref_bekenstein", "ref_hawking"]
                }
            ],
            "final_answer": "Entropy is proportional to the area of the event horizon.",
            "overall_confidence": 0.9,
            "requires_clarification": false,
            "context_window_used": 2048,
            "compiler_verified": true
        }"#;

    let res = compile_to_binary(&parse(json), "InferencePacket");
    assert!(res.is_ok());
    let bytes = res.unwrap();
    let decoded = decode_inference(&bytes[..]).unwrap();
    assert_eq!(decoded.session_id, "session-456");
    assert_eq!(f32::from_bits(decoded.confidence_threshold), 0.85);
    assert_eq!(decoded.chain_of_thought.len(), 1);
    assert_eq!(decoded.chain_of_thought[0].step_id, "step_1");
    assert_eq!(decoded.chain_of_thought[0].evidence_refs.len(), 2);
    assert_eq!(decoded.chain_of_thought[0].evidence_refs[0], "ref_bekenstein");
}
