use glypheris::gesture::{decode_gesture, encode_gesture, GestureCommand, Vector3};
use glypheris::inference::{decode_inference, encode_inference, InferencePacket, ThoughtNode};
use glypheris::plan::{decode_plan, encode_plan, ExecutionPlan, TaskNode};
use glypheris::wire::{Fault, WireError};

#[test]
fn gesture_roundtrip() {
    let mut g = GestureCommand::default();
    g.action = 4;
    g.intensity = 0.25f32.to_bits();
    g.duration_ms = -12;
    g.direction = Some(Vector3 { x: 1.5f32.to_bits(), y: 0, z: (-2.0f32).to_bits() });
    g.compiler_verified = true;
    g.speed_multiplier = 2.0f32.to_bits();
    g.loop_count = 0;
    g.blend_mode = 1;
    g.priority = 10;
    g.easing = 3;
    g.target_bone = "hand_l".to_string();
    g.emotion_tag = 5;
    let back = decode_gesture(&encode_gesture(&g)).unwrap();
    assert_eq!(back.action, 4);
    assert_eq!(back.intensity, g.intensity);
    assert_eq!(back.duration_ms, -12);
    let d = back.direction.unwrap();
    assert_eq!((d.x, d.y, d.z), (1.5f32.to_bits(), 0, (-2.0f32).to_bits()));
    assert!(back.compiler_verified);
    assert_eq!(back.speed_multiplier, g.speed_multiplier);
    assert_eq!(back.loop_count, 0);
    assert_eq!(back.blend_mode, 1);
    assert_eq!(back.priority, 10);
    assert_eq!(back.easing, 3);
    assert_eq!(back.target_bone, "hand_l");
    assert_eq!(back.emotion_tag, 5);
}

#[test]
fn plan_roundtrip() {
    let mut p = ExecutionPlan::default();
    p.plan_id = "p".to_string();
    p.objective = "ö".to_string();
    p.priority_level = 4;
    p.max_retries = -1;
    p.timeout_ms = 9;
    p.requires_confirmation = true;
    p.parallel_allowed = true;
    p.nodes = vec![TaskNode {
        task_id: "t".to_string(),
        tool_name: "fs_read".to_string(),
        parameters_json: "{}".to_string(),
        dependencies: vec!["a".to_string(), "".to_string()],
    }];
    p.estimated_cost_units = 0.5f32.to_bits();
    p.compiler_verified = false;
    let back = decode_plan(&encode_plan(&p)).unwrap();
    assert_eq!(back.plan_id, "p");
    assert_eq!(back.objective, "ö");
    assert_eq!(back.priority_level, 4);
    assert_eq!(back.max_retries, -1);
    assert_eq!(back.timeout_ms, 9);
    assert!(back.requires_confirmation && back.parallel_allowed && !back.compiler_verified);
    assert_eq!(back.nodes.len(), 1);
    assert_eq!(back.nodes[0].dependencies, vec!["a".to_string(), "".to_string()]);
    assert_eq!(back.estimated_cost_units, 0.5f32.to_bits());
}

#[test]
fn inference_roundtrip() {
    let mut p = InferencePacket::default();
    p.session_id = "s".to_string();
    p.query_type = 3;
    p.confidence_threshold = 0.7f32.to_bits();
    p.chain_of_thought = vec![ThoughtNode {
        step_id: "1".to_string(),
        reasoning: "r".to_string(),
        confidence: 1.0f32.to_bits(),
        evidence_refs: vec!["e".to_string()],
    }];
    p.final_answer = "42".to_string();
    p.overall_confidence = 0.9f32.to_bits();
    p.requires_clarification = true;
    p.context_window_used = 2048;
    p.compiler_verified = true;
    let back = decode_inference(&encode_inference(&p)).unwrap();
    assert_eq!(back.session_id, "s");
    assert_eq!(back.query_type, 3);
    assert_eq!(back.chain_of_thought[0].evidence_refs, vec!["e".to_string()]);
    assert_eq!(back.final_answer, "42");
    assert_eq!(back.overall_confidence, 0.9f32.to_bits());
    assert!(back.requires_clarification);
    assert_eq!(back.context_window_used, 2048);
}

#[test]
fn negative_int32_uses_ten_bytes() {
    let mut p = ExecutionPlan::default();
    p.max_retries = -1;
    p.compiler_verified = false;
    let bytes = encode_plan(&p);
    assert_eq!(bytes, vec![0x20, 0xFF, 0xFF, 0xFF, 0xFF, 0xFF, 0xFF, 0xFF, 0xFF, 0xFF, 0x01]);
}

#[test]
fn decoder_skips_unknown_fields_and_keeps_last_scalar() {
    let p = decode_plan(&[0x58, 0x05, 0x20, 0x01, 0x20, 0x02, 0x65, 1, 2, 3, 4]).unwrap();
    assert_eq!(p.max_retries, 2);
    assert_eq!(p.plan_id, "");
}

#[test]
fn decoder_errors() {
    assert_eq!(decode_plan(&[0xFF]).err().map(|e| e.fault), Some(Fault::InvalidVarint));
    assert_eq!(decode_plan(&[0x00]).err().map(|e| e.fault), Some(Fault::ZeroTag));
    assert_eq!(decode_plan(&[0x0F]).err().map(|e| e.fault), Some(Fault::InvalidWireType(7)));
    assert_eq!(decode_plan(&[0x0A, 0x05, 0x61]).err().map(|e| e.fault), Some(Fault::BufferUnderflow));
    assert_eq!(decode_plan(&[0x0D, 0, 0, 0, 0]).err().map(|e| e.fault), Some(Fault::WrongWireType { found: 5, expected: 2 }));
    assert_eq!(decode_plan(&[0x0A, 0x01, 0xFF]).err().map(|e| e.fault), Some(Fault::InvalidUtf8));
}

fn text_of(bytes: &[u8]) -> String {
    decode_plan(bytes).err().unwrap().message()
}

#[test]
fn decoder_error_texts() {
    assert_eq!(text_of(&[0xFF]), "failed to decode Protobuf message: invalid varint");
    assert_eq!(text_of(&[0x07]), "failed to decode Protobuf message: invalid wire type value: 7");
    assert_eq!(text_of(&[0x00]), "failed to decode Protobuf message: invalid tag value: 0");
    assert_eq!(
        text_of(&[0x80, 0x80, 0x80, 0x80, 0x10]),
        "failed to decode Protobuf message: invalid key value: 4294967296"
    );
    assert_eq!(
        text_of(&[0x0D, 0, 0, 0, 0]),
        "failed to decode Protobuf message: ExecutionPlan.plan_id: invalid wire type: ThirtyTwoBit (expected LengthDelimited)"
    );
    assert_eq!(
        text_of(&[0x0A, 0x05, 0x61]),
        "failed to decode Protobuf message: ExecutionPlan.plan_id: buffer underflow"
    );
    assert_eq!(
        text_of(&[0x0A, 0x01, 0xFF]),
        "failed to decode Protobuf message: ExecutionPlan.plan_id: invalid string value: data is not UTF-8 encoded"
    );
    assert_eq!(text_of(&[0x5A, 0x05, 0x61]), "failed to decode Protobuf message: buffer underflow");
    assert_eq!(
        text_of(&[0x42, 0x03, 0x0A, 0x01, 0xFF]),
        "failed to decode Protobuf message: TaskNode.task_id: ExecutionPlan.nodes: invalid string value: data is not UTF-8 encoded"
    );
    assert_eq!(
        text_of(&[0x42, 0x01, 0x07]),
        "failed to decode Protobuf message: ExecutionPlan.nodes: invalid wire type value: 7"
    );
    assert_eq!(
        decode_gesture(&[0x10, 0x01]).err().unwrap().message(),
        "failed to decode Protobuf message: GestureCommand.intensity: invalid wire type: Varint (expected ThirtyTwoBit)"
    );
    assert_eq!(
        decode_inference(&[0x1D, 0x00, 0x00]).err().unwrap().message(),
        "failed to decode Protobuf message: InferencePacket.confidence_threshold: buffer underflow"
    );
}

#[test]
fn decoder_reports_the_first_error_in_the_stream() {
    // An invalid string comes before a truncated field: the string is reported.
    assert_eq!(
        text_of(&[0x0A, 0x01, 0xFF, 0x12, 0x05]),
        "failed to decode Protobuf message: ExecutionPlan.plan_id: invalid string value: data is not UTF-8 encoded"
    );
    // A bad embedded node comes before a bad key.
    assert_eq!(
        text_of(&[0x42, 0x02, 0x12, 0x05, 0x07]),
        "failed to decode Protobuf message: TaskNode.tool_name: ExecutionPlan.nodes: buffer underflow"
    );
}

#[test]
fn embedded_messages_are_read_in_place() {
    // The node claims one byte, but its field runs on into the next bytes.
    assert_eq!(
        text_of(&[0x42, 0x01, 0x0A, 0x01, 0x41]),
        "failed to decode Protobuf message: ExecutionPlan.nodes: delimited length exceeded"
    );
    assert_eq!(
        decode_gesture(&[0x22, 0x01, 0x0D, 0, 0, 0x80, 0x3F]).err().unwrap().message(),
        "failed to decode Protobuf message: GestureCommand.direction: delimited length exceeded"
    );
    // A field inside the node that runs past the whole input is reported as such.
    assert_eq!(
        text_of(&[0x42, 0x02, 0x0A, 0x09]),
        "failed to decode Protobuf message: TaskNode.task_id: ExecutionPlan.nodes: buffer underflow"
    );
}

#[test]
fn key_and_wire_type_texts_match_prost() {
    let key_err = |bytes: &[u8]| prost::encoding::decode_key(&mut &bytes[..]).unwrap_err().to_string();
    assert_eq!(text_of(&[0x07]), key_err(&[0x07]));
    assert_eq!(text_of(&[0x00]), key_err(&[0x00]));
    assert_eq!(text_of(&[0x80, 0x80, 0x80, 0x80, 0x10]), key_err(&[0x80, 0x80, 0x80, 0x80, 0x10]));
    let mut wrong = prost::encoding::check_wire_type(
        prost::encoding::WireType::LengthDelimited,
        prost::encoding::WireType::ThirtyTwoBit,
    )
    .unwrap_err();
    wrong.push("ExecutionPlan", "plan_id");
    assert_eq!(text_of(&[0x0D, 0, 0, 0, 0]), wrong.to_string());
}

fn prost_skip(bytes: &[u8]) -> Result<usize, String> {
    let mut buf = bytes;
    let (tag, wire_type) = prost::encoding::decode_key(&mut buf).map_err(|e| e.to_string())?;
    prost::encoding::skip_field(wire_type, tag, &mut buf, prost::encoding::DecodeContext::default())
        .map_err(|e| e.to_string())?;
    Ok(bytes.len() - buf.len())
}

fn nested_groups(levels: usize) -> Vec<u8> {
    let mut v = vec![0x5Bu8; levels];
    v.extend(std::iter::repeat(0x5Cu8).take(levels));
    v
}

#[test]
fn unknown_groups_are_skipped() {
    let bytes = [0x5B, 0x08, 0x01, 0x12, 0x01, 0x41, 0x5C, 0x20, 0x02];
    let p = decode_plan(&bytes).unwrap();
    assert_eq!(p.max_retries, 2);
    assert_eq!(prost_skip(&bytes[..7]), Ok(7));
}

#[test]
fn group_errors() {
    assert_eq!(decode_plan(&[0x5B, 0x64]).err().map(|e| e.fault), Some(Fault::UnexpectedEndGroup));
    assert_eq!(decode_plan(&[0x5C]).err().map(|e| e.fault), Some(Fault::UnexpectedEndGroup));
    assert_eq!(decode_plan(&[0x5B, 0x08]).err().map(|e| e.fault), Some(Fault::InvalidVarint));
    assert_eq!(decode_plan(&[0x0B, 0x0C]).err().map(|e| e.fault), Some(Fault::WrongWireType { found: 3, expected: 2 }));
    assert!(prost_skip(&[0x5B, 0x64]).is_err());
    assert!(prost_skip(&[0x5C]).is_err());
}

#[test]
fn group_nesting_limit_matches_prost() {
    assert!(decode_plan(&nested_groups(100)).is_ok());
    assert_eq!(prost_skip(&nested_groups(100)), Ok(200));
    assert_eq!(decode_plan(&nested_groups(101)).err().map(|e| e.fault), Some(Fault::RecursionLimit));
    assert_eq!(
        prost_skip(&nested_groups(101)),
        Err("failed to decode Protobuf message: recursion limit reached".to_string())
    );
}

#[test]
fn group_nesting_limit_in_embedded_messages() {
    let embed = |levels: usize| {
        let node = nested_groups(levels);
        let mut bytes = vec![0x42u8];
        prost::encoding::encode_varint(node.len() as u64, &mut bytes);
        bytes.extend_from_slice(&node);
        bytes
    };
    assert_eq!(decode_plan(&embed(99)).unwrap().nodes.len(), 1);
    assert_eq!(decode_plan(&embed(100)).err().map(|e| e.fault), Some(Fault::RecursionLimit));
}
