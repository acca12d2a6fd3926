use glypheris::engine::{
    build_prompt, extract_json_payload, grammar_path_for, is_ambiguous, schema_context_for,
    GESTURE_CONTEXT, INFERENCE_CONTEXT, PLAN_CONTEXT,
};
use glypheris::text::is_whitespace;

#[test]
fn grammar_paths_follow_the_schema() {
    assert_eq!(grammar_path_for("GestureCommand"), "grammars/gesture_command.gbnf");
    assert_eq!(grammar_path_for("ExecutionPlan"), "grammars/execution_plan.gbnf");
    assert_eq!(grammar_path_for("InferencePacket"), "grammars/inference_packet.gbnf");
    assert_eq!(grammar_path_for("Other"), "grammars/gesture_command.gbnf");
}

#[test]
fn schema_context_follows_the_grammar_path() {
    assert_eq!(schema_context_for("grammars/gesture_command.gbnf"), GESTURE_CONTEXT);
    assert_eq!(schema_context_for("grammars/execution_plan.gbnf"), PLAN_CONTEXT);
    assert_eq!(schema_context_for("grammars/inference_packet.gbnf"), INFERENCE_CONTEXT);
    assert_eq!(schema_context_for("x/execution_plan_v2"), PLAN_CONTEXT);
    assert_eq!(schema_context_for("anything"), INFERENCE_CONTEXT);
    for ctx in [GESTURE_CONTEXT, PLAN_CONTEXT, INFERENCE_CONTEXT] {
        assert!(!ctx.contains('{') && !ctx.contains('}') && !ctx.contains('|'));
    }
    assert!(PLAN_CONTEXT.contains("filename and content for fs_write"));
}

#[test]
fn prompt_wraps_context_and_intent() {
    let p = build_prompt("CTX", "wave hello");
    assert_eq!(
        p,
        "<|im_start|>system\nYou are a deterministic semantic compiler. Output ONLY a single valid JSON object with these fields:\nCTX\n<|im_end|>\n<|im_start|>user\nCompile this human intent into machine parameters: wave hello\n<|im_end|>\n<|im_start|>assistant\n"
    );
}

#[test]
fn ambiguity_rules() {
    assert!(is_ambiguous(""));
    assert!(is_ambiguous("  \t\n "));
    assert!(is_ambiguous("Maybe jump"));
    assert!(is_ambiguous("it SORT OF waves"));
    assert!(!is_ambiguous("jump high"));
    assert!(!is_ambiguous("sortof"));
}

#[test]
fn payload_is_cut_from_the_last_assistant_turn() {
    let raw = "<|im_start|>assistant\n{\"echo\":1}\n<|im_start|>assistant\n  \x1b[0m{\"action\":\"JUMP\"}\x1b[1m  \n";
    assert_eq!(extract_json_payload(raw), Ok("{\"action\":\"JUMP\"}".to_string()));
}

#[test]
fn payload_without_marker_uses_whole_output() {
    assert_eq!(extract_json_payload("noise {\"a\":{\"b\":2}} tail"), Ok("{\"a\":{\"b\":2}}".to_string()));
}

#[test]
fn payload_boundary_errors() {
    assert_eq!(
        extract_json_payload("} backwards {"),
        Err("Engine hallucination: Invalid JSON boundaries detected.".to_string())
    );
    assert_eq!(
        extract_json_payload("no braces at all"),
        Err("Engine failed to complete structure. Hardware timeout or invalid prompt.".to_string())
    );
    assert_eq!(
        extract_json_payload("only { open"),
        Err("Engine failed to complete structure. Hardware timeout or invalid prompt.".to_string())
    );
}

#[test]
fn whitespace_matches_char_is_whitespace() {
    for u in 0u32..=0x10FFFF {
        if let Some(c) = char::from_u32(u) {
            assert_eq!(is_whitespace(c), c.is_whitespace(), "code point {:X}", u);
        }
    }
}
