//! The compiler back end: maps a validated JSON payload onto the packet of
//! the requested schema, filling every field the payload leaves out with
//! its documented default, and encodes the packet.

use vstd::prelude::*;
use vstd::string::StringExecFns;
use crate::gesture::{
    encode_gesture, gesture_bytes, gesture_decode, gesture_keeps, lemma_gesture_roundtrip, ActionType, BlendMode, Easing, EmotionTag, GestureCommand,
    GestureCommandView, Vector3,
};
use crate::inference::{
    encode_inference, inference_bytes, inference_decode, inference_keeps, lemma_inference_roundtrip, thoughts_view, InferencePacket, InferencePacketView,
    QueryType, ThoughtNode, ThoughtNodeView,
};
use crate::json::{
    bool_member, bool_or, json_as_bool, json_as_f32_bits, json_as_i64, json_as_str, f32_member, f32_or, i64_member, i64_or, json_as_array, json_is_object,
    json_lookup, lookup, str_member, str_or, string_items, string_items_member, strings_in, without_key, lemma_lookup_without_key, JsonValue,
};
use crate::plan::{
    encode_plan, lemma_plan_roundtrip, nodes_view, plan_bytes, plan_decode, plan_keeps, ExecutionPlan, ExecutionPlanView, PriorityLevel, TaskNode,
    TaskNodeView,
};
use crate::text::str_eq;
use crate::wire::WireError;

verus! {

/// The action a name stands for; unknown names are `Idle`.
pub open spec fn spec_action_from_name(s: Seq<char>) -> ActionType {
    if s == "JUMP"@ {
        ActionType::Jump
    } else if s == "WAVE"@ {
        ActionType::Wave
    } else if s == "RUN"@ {
        ActionType::Run
    } else if s == "ATTACK"@ {
        ActionType::Attack
    } else if s == "WALK"@ {
        ActionType::Walk
    } else if s == "CROUCH"@ {
        ActionType::Crouch
    } else if s == "ROLL"@ {
        ActionType::Roll
    } else if s == "EMOTE"@ {
        ActionType::Emote
    } else if s == "INTERACT"@ {
        ActionType::Interact
    } else {
        ActionType::Idle
    }
}

/// The action a name stands for; unknown names are `Idle`.
pub fn action_from_name(s: &str) -> (r: ActionType)
    ensures
        r == spec_action_from_name(s@),
{
    if str_eq(s, "JUMP") {
        ActionType::Jump
    } else if str_eq(s, "WAVE") {
        ActionType::Wave
    } else if str_eq(s, "RUN") {
        ActionType::Run
    } else if str_eq(s, "ATTACK") {
        ActionType::Attack
    } else if str_eq(s, "WALK") {
        ActionType::Walk
    } else if str_eq(s, "CROUCH") {
        ActionType::Crouch
    } else if str_eq(s, "ROLL") {
        ActionType::Roll
    } else if str_eq(s, "EMOTE") {
        ActionType::Emote
    } else if str_eq(s, "INTERACT") {
        ActionType::Interact
    } else {
        ActionType::Idle
    }
}

/// The blend mode a name stands for; unknown names are `Override`.
pub open spec fn spec_blend_from_name(s: Seq<char>) -> BlendMode {
    if s == "ADDITIVE"@ {
        BlendMode::Additive
    } else if s == "LAYER"@ {
        BlendMode::Layer
    } else {
        BlendMode::Override
    }
}

/// The blend mode a name stands for; unknown names are `Override`.
pub fn blend_from_name(s: &str) -> (r: BlendMode)
    ensures
        r == spec_blend_from_name(s@),
{
    if str_eq(s, "ADDITIVE") {
        BlendMode::Additive
    } else if str_eq(s, "LAYER") {
        BlendMode::Layer
    } else {
        BlendMode::Override
    }
}

/// The easing a name stands for; unknown names are `Linear`.
pub open spec fn spec_easing_from_name(s: Seq<char>) -> Easing {
    if s == "EASE_IN"@ {
        Easing::EaseIn
    } else if s == "EASE_OUT"@ {
        Easing::EaseOut
    } else if s == "EASE_IN_OUT"@ {
        Easing::EaseInOut
    } else if s == "SPRING"@ {
        Easing::Spring
    } else if s == "BOUNCE"@ {
        Easing::Bounce
    } else {
        Easing::Linear
    }
}

/// The easing a name stands for; unknown names are `Linear`.
pub fn easing_from_name(s: &str) -> (r: Easing)
    ensures
        r == spec_easing_from_name(s@),
{
    if str_eq(s, "EASE_IN") {
        Easing::EaseIn
    } else if str_eq(s, "EASE_OUT") {
        Easing::EaseOut
    } else if str_eq(s, "EASE_IN_OUT") {
        Easing::EaseInOut
    } else if str_eq(s, "SPRING") {
        Easing::Spring
    } else if str_eq(s, "BOUNCE") {
        Easing::Bounce
    } else {
        Easing::Linear
    }
}

/// The emotion a name stands for; unknown names are `Neutral`.
pub open spec fn spec_emotion_from_name(s: Seq<char>) -> EmotionTag {
    if s == "AGGRESSIVE"@ {
        EmotionTag::Aggressive
    } else if s == "FEARFUL"@ {
        EmotionTag::Fearful
    } else if s == "JOYFUL"@ {
        EmotionTag::Joyful
    } else if s == "EXHAUSTED"@ {
        EmotionTag::Exhausted
    } else if s == "DETERMINED"@ {
        EmotionTag::Determined
    } else if s == "SURPRISED"@ {
        EmotionTag::Surprised
    } else {
        EmotionTag::Neutral
    }
}

/// The emotion a name stands for; unknown names are `Neutral`.
pub fn emotion_from_name(s: &str) -> (r: EmotionTag)
    ensures
        r == spec_emotion_from_name(s@),
{
    if str_eq(s, "AGGRESSIVE") {
        EmotionTag::Aggressive
    } else if str_eq(s, "FEARFUL") {
        EmotionTag::Fearful
    } else if str_eq(s, "JOYFUL") {
        EmotionTag::Joyful
    } else if str_eq(s, "EXHAUSTED") {
        EmotionTag::Exhausted
    } else if str_eq(s, "DETERMINED") {
        EmotionTag::Determined
    } else if str_eq(s, "SURPRISED") {
        EmotionTag::Surprised
    } else {
        EmotionTag::Neutral
    }
}

/// The priority a name stands for; unknown names are `Normal`.
pub open spec fn spec_priority_from_name(s: Seq<char>) -> PriorityLevel {
    if s == "CRITICAL"@ {
        PriorityLevel::Critical
    } else if s == "HIGH"@ {
        PriorityLevel::High
    } else if s == "LOW"@ {
        PriorityLevel::Low
    } else if s == "BACKGROUND"@ {
        PriorityLevel::Background
    } else {
        PriorityLevel::Normal
    }
}

/// The priority a name stands for; unknown names are `Normal`.
pub fn priority_from_name(s: &str) -> (r: PriorityLevel)
    ensures
        r == spec_priority_from_name(s@),
{
    if str_eq(s, "CRITICAL") {
        PriorityLevel::Critical
    } else if str_eq(s, "HIGH") {
        PriorityLevel::High
    } else if str_eq(s, "LOW") {
        PriorityLevel::Low
    } else if str_eq(s, "BACKGROUND") {
        PriorityLevel::Background
    } else {
        PriorityLevel::Normal
    }
}

/// The query type a name stands for; unknown names are `Conversational`.
pub open spec fn spec_query_from_name(s: Seq<char>) -> QueryType {
    if s == "FACTUAL"@ {
        QueryType::Factual
    } else if s == "ANALYTICAL"@ {
        QueryType::Analytical
    } else if s == "CREATIVE"@ {
        QueryType::Creative
    } else if s == "INSTRUCTIONAL"@ {
        QueryType::Instructional
    } else {
        QueryType::Conversational
    }
}

/// The query type a name stands for; unknown names are `Conversational`.
pub fn query_from_name(s: &str) -> (r: QueryType)
    ensures
        r == spec_query_from_name(s@),
{
    if str_eq(s, "FACTUAL") {
        QueryType::Factual
    } else if str_eq(s, "ANALYTICAL") {
        QueryType::Analytical
    } else if str_eq(s, "CREATIVE") {
        QueryType::Creative
    } else if str_eq(s, "INSTRUCTIONAL") {
        QueryType::Instructional
    } else {
        QueryType::Conversational
    }
}

/// Bit pattern of `0.5f32`.
pub const HALF_BITS: u32 = 0x3F00_0000;

/// Bit pattern of `1.0f32`.
pub const ONE_BITS: u32 = 0x3F80_0000;

/// Bit pattern of `0.7` narrowed to `f32`.
pub const SEVEN_TENTHS_BITS: u32 = 0x3F33_3333;

/// The gesture command a payload describes.
pub open spec fn gesture_from_json(doc: JsonValue) -> GestureCommandView {
    GestureCommandView {
        action: spec_action_from_name(str_or(json_lookup(doc, "action"@), "IDLE"@)).spec_value(),
        intensity: f32_or(json_lookup(doc, "intensity"@), HALF_BITS),
        duration_ms: i64_or(json_lookup(doc, "duration_ms"@), 0) as i32,
        direction: if json_is_object(json_lookup(doc, "direction"@)) {
            let d = json_lookup(doc, "direction"@)->0;
            Some(
                Vector3 {
                    x: f32_or(json_lookup(d, "x"@), 0),
                    y: f32_or(json_lookup(d, "y"@), 0),
                    z: f32_or(json_lookup(d, "z"@), 0),
                },
            )
        } else {
            None
        },
        compiler_verified: bool_or(json_lookup(doc, "compiler_verified"@), true),
        speed_multiplier: f32_or(json_lookup(doc, "speed_multiplier"@), ONE_BITS),
        loop_count: i64_or(json_lookup(doc, "loop_count"@), 1) as i32,
        blend_mode: spec_blend_from_name(str_or(json_lookup(doc, "blend_mode"@), "OVERRIDE"@)).spec_value(),
        priority: i64_or(json_lookup(doc, "priority"@), 0) as i32,
        easing: spec_easing_from_name(str_or(json_lookup(doc, "easing"@), "LINEAR"@)).spec_value(),
        target_bone: str_or(json_lookup(doc, "target_bone"@), ""@),
        emotion_tag: spec_emotion_from_name(str_or(json_lookup(doc, "emotion_tag"@), "NEUTRAL"@)).spec_value(),
    }
}

/// Builds the gesture command a payload describes.
pub fn gesture_from_doc(doc: &JsonValue) -> (g: GestureCommand)
    ensures
        g@ == gesture_from_json(*doc),
{
    let action_name = str_member(doc, "action", "IDLE");
    let blend_name = str_member(doc, "blend_mode", "OVERRIDE");
    let easing_name = str_member(doc, "easing", "LINEAR");
    let emotion_name = str_member(doc, "emotion_tag", "NEUTRAL");
    let direction = match lookup(doc, "direction") {
        Some(d) => match d {
            JsonValue::Object(_) => Some(
                Vector3 {
                    x: f32_member(d, "x", 0),
                    y: f32_member(d, "y", 0),
                    z: f32_member(d, "z", 0),
                },
            ),
            _ => None,
        },
        None => None,
    };
    GestureCommand {
        action: action_from_name(action_name.as_str()).value(),
        intensity: f32_member(doc, "intensity", HALF_BITS),
        duration_ms: i64_member(doc, "duration_ms", 0) as i32,
        direction: direction,
        compiler_verified: bool_member(doc, "compiler_verified", true),
        speed_multiplier: f32_member(doc, "speed_multiplier", ONE_BITS),
        loop_count: i64_member(doc, "loop_count", 1) as i32,
        blend_mode: blend_from_name(blend_name.as_str()).value(),
        priority: i64_member(doc, "priority", 0) as i32,
        easing: easing_from_name(easing_name.as_str()).value(),
        target_bone: str_member(doc, "target_bone", ""),
        emotion_tag: emotion_from_name(emotion_name.as_str()).value(),
    }
}

/// The task node an array element describes.
pub open spec fn node_from_json(v: JsonValue) -> TaskNodeView {
    TaskNodeView {
        task_id: str_or(json_lookup(v, "task_id"@), ""@),
        tool_name: str_or(json_lookup(v, "tool_name"@), ""@),
        parameters_json: str_or(json_lookup(v, "parameters_json"@), ""@),
        dependencies: string_items(v, "dependencies"@),
    }
}

/// The plan a payload describes.
pub open spec fn plan_from_json(doc: JsonValue) -> ExecutionPlanView {
    ExecutionPlanView {
        plan_id: str_or(json_lookup(doc, "plan_id"@), ""@),
        objective: str_or(json_lookup(doc, "objective"@), ""@),
        priority_level: spec_priority_from_name(str_or(json_lookup(doc, "priority_level"@), "NORMAL"@)).spec_value(),
        max_retries: i64_or(json_lookup(doc, "max_retries"@), 0) as i32,
        timeout_ms: i64_or(json_lookup(doc, "timeout_ms"@), 0) as i32,
        requires_confirmation: bool_or(json_lookup(doc, "requires_confirmation"@), false),
        parallel_allowed: bool_or(json_lookup(doc, "parallel_allowed"@), false),
        nodes: match json_as_array(json_lookup(doc, "nodes"@)) {
            Some(items) => items.map_values(|v: JsonValue| node_from_json(v)),
            None => seq![],
        },
        estimated_cost_units: f32_or(json_lookup(doc, "estimated_cost_units"@), 0),
        compiler_verified: true,
    }
}

/// Builds the task node an array element describes.
pub fn node_from_doc(v: &JsonValue) -> (n: TaskNode)
    ensures
        n@ == node_from_json(*v),
{
    TaskNode {
        task_id: str_member(v, "task_id", ""),
        tool_name: str_member(v, "tool_name", ""),
        parameters_json: str_member(v, "parameters_json", ""),
        dependencies: string_items_member(v, "dependencies"),
    }
}

/// Builds the plan a payload describes.
pub fn plan_from_doc(doc: &JsonValue) -> (p: ExecutionPlan)
    ensures
        p@ == plan_from_json(*doc),
{
    let priority_name = str_member(doc, "priority_level", "NORMAL");
    let mut nodes: Vec<TaskNode> = Vec::new();
    match lookup(doc, "nodes") {
        Some(JsonValue::Array(items)) => {
            let mut i: usize = 0;
            assert(nodes_view(nodes@) =~= items@.take(0).map_values(|v: JsonValue| node_from_json(v)));
            while i < items.len()
                invariant
                    i <= items@.len(),
                    nodes_view(nodes@) == items@.take(i as int).map_values(
                        |v: JsonValue| node_from_json(v),
                    ),
                decreases items@.len() - i,
            {
                let n = node_from_doc(&items[i]);
                let ghost before = nodes@;
                nodes.push(n);
                assert(nodes_view(nodes@) =~= nodes_view(before).push(n@));
                assert(items@.take(i + 1).map_values(|v: JsonValue| node_from_json(v))
                    =~= items@.take(i as int).map_values(|v: JsonValue| node_from_json(v)).push(
                    node_from_json(items@[i as int]),
                ));
                i = i + 1;
            }
            assert(items@.take(i as int) =~= items@);
        },
        _ => {
            assert(nodes_view(nodes@) =~= Seq::<TaskNodeView>::empty());
        },
    }
    ExecutionPlan {
        plan_id: str_member(doc, "plan_id", ""),
        objective: str_member(doc, "objective", ""),
        priority_level: priority_from_name(priority_name.as_str()).value(),
        max_retries: i64_member(doc, "max_retries", 0) as i32,
        timeout_ms: i64_member(doc, "timeout_ms", 0) as i32,
        requires_confirmation: bool_member(doc, "requires_confirmation", false),
        parallel_allowed: bool_member(doc, "parallel_allowed", false),
        nodes: nodes,
        estimated_cost_units: f32_member(doc, "estimated_cost_units", 0),
        compiler_verified: true,
    }
}

/// The reasoning step an array element describes.
pub open spec fn thought_from_json(v: JsonValue) -> ThoughtNodeView {
    ThoughtNodeView {
        step_id: str_or(json_lookup(v, "step_id"@), ""@),
        reasoning: str_or(json_lookup(v, "reasoning"@), ""@),
        confidence: f32_or(json_lookup(v, "confidence"@), 0),
        evidence_refs: string_items(v, "evidence_refs"@),
    }
}

/// The inference packet a payload describes.
pub open spec fn inference_from_json(doc: JsonValue) -> InferencePacketView {
    InferencePacketView {
        session_id: str_or(json_lookup(doc, "session_id"@), ""@),
        query_type: spec_query_from_name(str_or(json_lookup(doc, "query_type"@), "CONVERSATIONAL"@)).spec_value(),
        confidence_threshold: f32_or(json_lookup(doc, "confidence_threshold"@), SEVEN_TENTHS_BITS),
        chain_of_thought: match json_as_array(json_lookup(doc, "chain_of_thought"@)) {
            Some(items) => items.map_values(|v: JsonValue| thought_from_json(v)),
            None => seq![],
        },
        final_answer: str_or(json_lookup(doc, "final_answer"@), ""@),
        overall_confidence: f32_or(json_lookup(doc, "overall_confidence"@), 0),
        requires_clarification: bool_or(json_lookup(doc, "requires_clarification"@), false),
        context_window_used: i64_or(json_lookup(doc, "context_window_used"@), 0) as i32,
        compiler_verified: true,
    }
}

/// Builds the reasoning step an array element describes.
pub fn thought_from_doc(v: &JsonValue) -> (n: ThoughtNode)
    ensures
        n@ == thought_from_json(*v),
{
    ThoughtNode {
        step_id: str_member(v, "step_id", ""),
        reasoning: str_member(v, "reasoning", ""),
        confidence: f32_member(v, "confidence", 0),
        evidence_refs: string_items_member(v, "evidence_refs"),
    }
}

/// Builds the inference packet a payload describes.
pub fn inference_from_doc(doc: &JsonValue) -> (p: InferencePacket)
    ensures
        p@ == inference_from_json(*doc),
{
    let query_name = str_member(doc, "query_type", "CONVERSATIONAL");
    let mut thoughts: Vec<ThoughtNode> = Vec::new();
    match lookup(doc, "chain_of_thought") {
        Some(JsonValue::Array(items)) => {
            let mut i: usize = 0;
            assert(thoughts_view(thoughts@) =~= items@.take(0).map_values(
                |v: JsonValue| thought_from_json(v),
            ));
            while i < items.len()
                invariant
                    i <= items@.len(),
                    thoughts_view(thoughts@) == items@.take(i as int).map_values(
                        |v: JsonValue| thought_from_json(v),
                    ),
                decreases items@.len() - i,
            {
                let n = thought_from_doc(&items[i]);
                let ghost before = thoughts@;
                thoughts.push(n);
                assert(thoughts_view(thoughts@) =~= thoughts_view(before).push(n@));
                assert(items@.take(i + 1).map_values(|v: JsonValue| thought_from_json(v))
                    =~= items@.take(i as int).map_values(|v: JsonValue| thought_from_json(v)).push(
                    thought_from_json(items@[i as int]),
                ));
                i = i + 1;
            }
            assert(items@.take(i as int) =~= items@);
        },
        _ => {
            assert(thoughts_view(thoughts@) =~= Seq::<ThoughtNodeView>::empty());
        },
    }
    InferencePacket {
        session_id: str_member(doc, "session_id", ""),
        query_type: query_from_name(query_name.as_str()).value(),
        confidence_threshold: f32_member(doc, "confidence_threshold", SEVEN_TENTHS_BITS),
        chain_of_thought: thoughts,
        final_answer: str_member(doc, "final_answer", ""),
        overall_confidence: f32_member(doc, "overall_confidence", 0),
        requires_clarification: bool_member(doc, "requires_clarification", false),
        context_window_used: i64_member(doc, "context_window_used", 0) as i32,
        compiler_verified: true,
    }
}

/// What compiling a payload under a schema name gives: the packet's bytes,
/// or the message naming an unknown schema.
pub open spec fn spec_compile(doc: JsonValue, schema: Seq<char>) -> Result<Seq<u8>, Seq<char>> {
    if schema == "GestureCommand"@ {
        Ok(gesture_bytes(gesture_from_json(doc)))
    } else if schema == "ExecutionPlan"@ {
        Ok(plan_bytes(plan_from_json(doc)))
    } else if schema == "InferencePacket"@ {
        Ok(inference_bytes(inference_from_json(doc)))
    } else {
        Err("Unknown schema target: "@ + schema)
    }
}

/// Compiles a parsed JSON payload into the Protobuf packet of `schema`.
pub fn compile_to_binary(doc: &JsonValue, schema: &str) -> (r: Result<Vec<u8>, String>)
    ensures
        match spec_compile(*doc, schema@) {
            Ok(b) => r matches Ok(v) && v@ == b,
            Err(m) => r matches Err(e) && e@ == m,
        },
{
    if str_eq(schema, "GestureCommand") {
        let g = gesture_from_doc(doc);
        Ok(encode_gesture(&g))
    } else if str_eq(schema, "ExecutionPlan") {
        let p = plan_from_doc(doc);
        Ok(encode_plan(&p))
    } else if str_eq(schema, "InferencePacket") {
        let p = inference_from_doc(doc);
        Ok(encode_inference(&p))
    } else {
        let mut msg = String::from_str("Unknown schema target: ");
        msg.append(schema);
        Err(msg)
    }
}

} // verus!

verus! {

/// A compiled packet decodes to the message built from the JSON payload,
/// for each of the three schemas, whenever that message survives encoding
/// (no negative-zero float, every length within the wire's limit).
pub proof fn lemma_compiled_packet_decodes(doc: JsonValue)
    ensures
        gesture_keeps(gesture_from_json(doc)) ==> spec_compile(doc, "GestureCommand"@) == Ok::<
            Seq<u8>,
            Seq<char>,
        >(gesture_bytes(gesture_from_json(doc))) && gesture_decode(gesture_bytes(gesture_from_json(doc)))
            == Ok::<GestureCommandView, WireError>(gesture_from_json(doc)),
        plan_keeps(plan_from_json(doc)) ==> spec_compile(doc, "ExecutionPlan"@) == Ok::<
            Seq<u8>,
            Seq<char>,
        >(plan_bytes(plan_from_json(doc))) && plan_decode(plan_bytes(plan_from_json(doc))) == Ok::<
            ExecutionPlanView,
            WireError,
        >(plan_from_json(doc)),
        inference_keeps(inference_from_json(doc)) ==> spec_compile(doc, "InferencePacket"@) == Ok::<
            Seq<u8>,
            Seq<char>,
        >(inference_bytes(inference_from_json(doc))) && inference_decode(
            inference_bytes(inference_from_json(doc)),
        ) == Ok::<InferencePacketView, WireError>(inference_from_json(doc)),
{
    reveal_strlit("GestureCommand");
    reveal_strlit("ExecutionPlan");
    reveal_strlit("InferencePacket");
    assert("GestureCommand"@.len() == 14);
    assert("ExecutionPlan"@.len() == 13);
    assert("InferencePacket"@.len() == 15);
    if gesture_keeps(gesture_from_json(doc)) {
        lemma_gesture_roundtrip(gesture_from_json(doc));
    }
    if plan_keeps(plan_from_json(doc)) {
        lemma_plan_roundtrip(plan_from_json(doc));
    }
    if inference_keeps(inference_from_json(doc)) {
        lemma_inference_roundtrip(inference_from_json(doc));
    }
}

} // verus!

verus! {

/// A payload that is not a JSON object compiles as an empty object does:
/// every member reads as absent and takes its default.
pub proof fn lemma_non_object_compiles_as_empty(doc: JsonValue, empty: JsonValue, schema: Seq<char>)
    requires
        !(doc is Object),
        empty matches JsonValue::Object(members) && members@.len() == 0,
    ensures
        spec_compile(doc, schema) == spec_compile(empty, schema),
{
    assert forall|key: Seq<char>| json_lookup(doc, key) is None && json_lookup(empty, key) is None by {}
    assert(gesture_from_json(doc) == gesture_from_json(empty));
    assert(plan_from_json(doc) =~= plan_from_json(empty));
    assert(inference_from_json(doc) =~= inference_from_json(empty));
}

/// The gesture compiler reads member `key` holding `v` as it reads an
/// absent member: `key` is not one it reads, or `v` is not of the kind its
/// reader for `key` takes.
pub open spec fn gesture_ignores(key: Seq<char>, v: JsonValue) -> bool {
    &&& (key == "action"@ || key == "blend_mode"@ || key == "easing"@ || key == "emotion_tag"@
        || key == "target_bone"@ ==> json_as_str(Some(v)) is None)
    &&& (key == "intensity"@ || key == "speed_multiplier"@ ==> json_as_f32_bits(Some(v)) is None)
    &&& (key == "duration_ms"@ || key == "loop_count"@ || key == "priority"@ ==> json_as_i64(Some(v)) is None)
    &&& (key == "compiler_verified"@ ==> json_as_bool(Some(v)) is None)
    &&& (key == "direction"@ ==> !json_is_object(Some(v)))
}

/// The plan compiler reads member `key` holding `v` as it reads an absent
/// member: `key` is not one it reads, or `v` is not of the kind its reader
/// for `key` takes.
pub open spec fn plan_ignores(key: Seq<char>, v: JsonValue) -> bool {
    &&& (key == "plan_id"@ || key == "objective"@ || key == "priority_level"@ ==> json_as_str(Some(v)) is None)
    &&& (key == "max_retries"@ || key == "timeout_ms"@ ==> json_as_i64(Some(v)) is None)
    &&& (key == "requires_confirmation"@ || key == "parallel_allowed"@ ==> json_as_bool(Some(v)) is None)
    &&& (key == "estimated_cost_units"@ ==> json_as_f32_bits(Some(v)) is None)
    &&& (key == "nodes"@ ==> json_as_array(Some(v)) is None)
}

/// The inference compiler reads member `key` holding `v` as it reads an
/// absent member: `key` is not one it reads, or `v` is not of the kind its
/// reader for `key` takes.
pub open spec fn inference_ignores(key: Seq<char>, v: JsonValue) -> bool {
    &&& (key == "session_id"@ || key == "final_answer"@ || key == "query_type"@ ==> json_as_str(Some(v)) is None)
    &&& (key == "confidence_threshold"@ || key == "overall_confidence"@ ==> json_as_f32_bits(Some(v)) is None)
    &&& (key == "requires_clarification"@ ==> json_as_bool(Some(v)) is None)
    &&& (key == "context_window_used"@ ==> json_as_i64(Some(v)) is None)
    &&& (key == "chain_of_thought"@ ==> json_as_array(Some(v)) is None)
}

/// The compiler of `schema` reads member `key` holding `v` as it reads an
/// absent member.
pub open spec fn schema_ignores(schema: Seq<char>, key: Seq<char>, v: JsonValue) -> bool {
    if schema == "GestureCommand"@ {
        gesture_ignores(key, v)
    } else if schema == "ExecutionPlan"@ {
        plan_ignores(key, v)
    } else if schema == "InferencePacket"@ {
        inference_ignores(key, v)
    } else {
        true
    }
}

/// Taking out of a payload a member that the schema's compiler does not
/// read, or whose value is not of the kind its reader takes (a string where
/// a number is read, a fraction where an integer is read, and so on),
/// leaves the compiled packet unchanged: unknown members are ignored and
/// wrong-kind members fall back to the same default as absent ones.
pub proof fn lemma_ignored_member_drops_out(doc: JsonValue, rest: JsonValue, key: Seq<char>, schema: Seq<char>)
    requires
        doc matches JsonValue::Object(members) && rest matches JsonValue::Object(kept) && kept@ == without_key(
            members@,
            key,
        ),
        json_lookup(doc, key) matches Some(v) ==> schema_ignores(schema, key, v),
    ensures
        spec_compile(doc, schema) == spec_compile(rest, schema),
{
    let members = doc->Object_0@;
    assert forall|other: Seq<char>|
        #![trigger json_lookup(rest, other)]
        json_lookup(rest, other) == if other == key {
            None
        } else {
            json_lookup(doc, other)
        } by {
        lemma_lookup_without_key(members, key, other);
    }
    if schema == "GestureCommand"@ {
        assert(gesture_from_json(doc) == gesture_from_json(rest));
    } else if schema == "ExecutionPlan"@ {
        assert(plan_from_json(doc) =~= plan_from_json(rest));
    } else if schema == "InferencePacket"@ {
        assert(inference_from_json(doc) =~= inference_from_json(rest));
    }
}

} // verus!

verus! {
/// The name a payload gives the action `a`: the variant's name in capitals,
/// words joined by `_`.
pub open spec fn action_name(a: ActionType) -> Seq<char> {
    match a {
        ActionType::Idle => "IDLE"@,
        ActionType::Jump => "JUMP"@,
        ActionType::Wave => "WAVE"@,
        ActionType::Run => "RUN"@,
        ActionType::Attack => "ATTACK"@,
        ActionType::Walk => "WALK"@,
        ActionType::Crouch => "CROUCH"@,
        ActionType::Roll => "ROLL"@,
        ActionType::Emote => "EMOTE"@,
        ActionType::Interact => "INTERACT"@,
    }
}

/// Reading names back: the name of every variant reads as that variant,
/// so it goes on the wire as that variant's number; any other name reads as
/// `Idle`.
pub proof fn lemma_action_names_read_back()
    ensures
        forall|a: ActionType| #[trigger] spec_action_from_name(action_name(a)) == a,
        forall|a: ActionType| (#[trigger] spec_action_from_name(action_name(a))).spec_value() == a.spec_value(),
        forall|s: Seq<char>|
            #[trigger] spec_action_from_name(s) == ActionType::Idle || action_name(spec_action_from_name(s)) == s,
{
    reveal_strlit("IDLE");
    reveal_strlit("JUMP");
    reveal_strlit("WAVE");
    reveal_strlit("RUN");
    reveal_strlit("ATTACK");
    reveal_strlit("WALK");
    reveal_strlit("CROUCH");
    reveal_strlit("ROLL");
    reveal_strlit("EMOTE");
    reveal_strlit("INTERACT");
    assert forall|a: ActionType| #[trigger] spec_action_from_name(action_name(a)) == a by {
        match a {
            ActionType::Idle => {
                assert("IDLE"@[0] != "JUMP"@[0]);
                assert("IDLE"@[0] != "WAVE"@[0]);
                assert("IDLE"@.len() != "RUN"@.len());
                assert("IDLE"@.len() != "ATTACK"@.len());
                assert("IDLE"@[0] != "WALK"@[0]);
                assert("IDLE"@.len() != "CROUCH"@.len());
                assert("IDLE"@[0] != "ROLL"@[0]);
                assert("IDLE"@.len() != "EMOTE"@.len());
                assert("IDLE"@.len() != "INTERACT"@.len());
            },
            ActionType::Jump => {},
            ActionType::Wave => {
                assert("WAVE"@[0] != "JUMP"@[0]);
            },
            ActionType::Run => {
                assert("RUN"@.len() != "JUMP"@.len());
                assert("RUN"@.len() != "WAVE"@.len());
            },
            ActionType::Attack => {
                assert("ATTACK"@.len() != "JUMP"@.len());
                assert("ATTACK"@.len() != "WAVE"@.len());
                assert("ATTACK"@.len() != "RUN"@.len());
            },
            ActionType::Walk => {
                assert("WALK"@[0] != "JUMP"@[0]);
                assert("WALK"@[2] != "WAVE"@[2]);
                assert("WALK"@.len() != "RUN"@.len());
                assert("WALK"@.len() != "ATTACK"@.len());
            },
            ActionType::Crouch => {
                assert("CROUCH"@.len() != "JUMP"@.len());
                assert("CROUCH"@.len() != "WAVE"@.len());
                assert("CROUCH"@.len() != "RUN"@.len());
                assert("CROUCH"@[0] != "ATTACK"@[0]);
                assert("CROUCH"@.len() != "WALK"@.len());
            },
            ActionType::Roll => {
                assert("ROLL"@[0] != "JUMP"@[0]);
                assert("ROLL"@[0] != "WAVE"@[0]);
                assert("ROLL"@.len() != "RUN"@.len());
                assert("ROLL"@.len() != "ATTACK"@.len());
                assert("ROLL"@[0] != "WALK"@[0]);
                assert("ROLL"@.len() != "CROUCH"@.len());
            },
            ActionType::Emote => {
                assert("EMOTE"@.len() != "JUMP"@.len());
                assert("EMOTE"@.len() != "WAVE"@.len());
                assert("EMOTE"@.len() != "RUN"@.len());
                assert("EMOTE"@.len() != "ATTACK"@.len());
                assert("EMOTE"@.len() != "WALK"@.len());
                assert("EMOTE"@.len() != "CROUCH"@.len());
                assert("EMOTE"@.len() != "ROLL"@.len());
            },
            ActionType::Interact => {
                assert("INTERACT"@.len() != "JUMP"@.len());
                assert("INTERACT"@.len() != "WAVE"@.len());
                assert("INTERACT"@.len() != "RUN"@.len());
                assert("INTERACT"@.len() != "ATTACK"@.len());
                assert("INTERACT"@.len() != "WALK"@.len());
                assert("INTERACT"@.len() != "CROUCH"@.len());
                assert("INTERACT"@.len() != "ROLL"@.len());
                assert("INTERACT"@.len() != "EMOTE"@.len());
            },
        }
    }
}

/// The name a payload gives the blend mode `a`: the variant's name in capitals,
/// words joined by `_`.
pub open spec fn blend_name(a: BlendMode) -> Seq<char> {
    match a {
        BlendMode::Override => "OVERRIDE"@,
        BlendMode::Additive => "ADDITIVE"@,
        BlendMode::Layer => "LAYER"@,
    }
}

/// Reading names back: the name of every variant reads as that variant,
/// so it goes on the wire as that variant's number; any other name reads as
/// `Override`.
pub proof fn lemma_blend_names_read_back()
    ensures
        forall|a: BlendMode| #[trigger] spec_blend_from_name(blend_name(a)) == a,
        forall|a: BlendMode| (#[trigger] spec_blend_from_name(blend_name(a))).spec_value() == a.spec_value(),
        forall|s: Seq<char>|
            #[trigger] spec_blend_from_name(s) == BlendMode::Override || blend_name(spec_blend_from_name(s)) == s,
{
    reveal_strlit("OVERRIDE");
    reveal_strlit("ADDITIVE");
    reveal_strlit("LAYER");
    assert forall|a: BlendMode| #[trigger] spec_blend_from_name(blend_name(a)) == a by {
        match a {
            BlendMode::Override => {
                assert("OVERRIDE"@[0] != "ADDITIVE"@[0]);
                assert("OVERRIDE"@.len() != "LAYER"@.len());
            },
            BlendMode::Additive => {},
            BlendMode::Layer => {
                assert("LAYER"@.len() != "ADDITIVE"@.len());
            },
        }
    }
}

/// The name a payload gives the easing `a`: the variant's name in capitals,
/// words joined by `_`.
pub open spec fn easing_name(a: Easing) -> Seq<char> {
    match a {
        Easing::Linear => "LINEAR"@,
        Easing::EaseIn => "EASE_IN"@,
        Easing::EaseOut => "EASE_OUT"@,
        Easing::EaseInOut => "EASE_IN_OUT"@,
        Easing::Spring => "SPRING"@,
        Easing::Bounce => "BOUNCE"@,
    }
}

/// Reading names back: the name of every variant reads as that variant,
/// so it goes on the wire as that variant's number; any other name reads as
/// `Linear`.
pub proof fn lemma_easing_names_read_back()
    ensures
        forall|a: Easing| #[trigger] spec_easing_from_name(easing_name(a)) == a,
        forall|a: Easing| (#[trigger] spec_easing_from_name(easing_name(a))).spec_value() == a.spec_value(),
        forall|s: Seq<char>|
            #[trigger] spec_easing_from_name(s) == Easing::Linear || easing_name(spec_easing_from_name(s)) == s,
{
    reveal_strlit("LINEAR");
    reveal_strlit("EASE_IN");
    reveal_strlit("EASE_OUT");
    reveal_strlit("EASE_IN_OUT");
    reveal_strlit("SPRING");
    reveal_strlit("BOUNCE");
    assert forall|a: Easing| #[trigger] spec_easing_from_name(easing_name(a)) == a by {
        match a {
            Easing::Linear => {
                assert("LINEAR"@.len() != "EASE_IN"@.len());
                assert("LINEAR"@.len() != "EASE_OUT"@.len());
                assert("LINEAR"@.len() != "EASE_IN_OUT"@.len());
                assert("LINEAR"@[0] != "SPRING"@[0]);
                assert("LINEAR"@[0] != "BOUNCE"@[0]);
            },
            Easing::EaseIn => {},
            Easing::EaseOut => {
                assert("EASE_OUT"@.len() != "EASE_IN"@.len());
            },
            Easing::EaseInOut => {
                assert("EASE_IN_OUT"@.len() != "EASE_IN"@.len());
                assert("EASE_IN_OUT"@.len() != "EASE_OUT"@.len());
            },
            Easing::Spring => {
                assert("SPRING"@.len() != "EASE_IN"@.len());
                assert("SPRING"@.len() != "EASE_OUT"@.len());
                assert("SPRING"@.len() != "EASE_IN_OUT"@.len());
            },
            Easing::Bounce => {
                assert("BOUNCE"@.len() != "EASE_IN"@.len());
                assert("BOUNCE"@.len() != "EASE_OUT"@.len());
                assert("BOUNCE"@.len() != "EASE_IN_OUT"@.len());
                assert("BOUNCE"@[0] != "SPRING"@[0]);
            },
        }
    }
}

/// The name a payload gives the emotion `a`: the variant's name in capitals,
/// words joined by `_`.
pub open spec fn emotion_name(a: EmotionTag) -> Seq<char> {
    match a {
        EmotionTag::Neutral => "NEUTRAL"@,
        EmotionTag::Aggressive => "AGGRESSIVE"@,
        EmotionTag::Fearful => "FEARFUL"@,
        EmotionTag::Joyful => "JOYFUL"@,
        EmotionTag::Exhausted => "EXHAUSTED"@,
        EmotionTag::Determined => "DETERMINED"@,
        EmotionTag::Surprised => "SURPRISED"@,
    }
}

/// Reading names back: the name of every variant reads as that variant,
/// so it goes on the wire as that variant's number; any other name reads as
/// `Neutral`.
pub proof fn lemma_emotion_names_read_back()
    ensures
        forall|a: EmotionTag| #[trigger] spec_emotion_from_name(emotion_name(a)) == a,
        forall|a: EmotionTag| (#[trigger] spec_emotion_from_name(emotion_name(a))).spec_value() == a.spec_value(),
        forall|s: Seq<char>|
            #[trigger] spec_emotion_from_name(s) == EmotionTag::Neutral || emotion_name(spec_emotion_from_name(s)) == s,
{
    reveal_strlit("NEUTRAL");
    reveal_strlit("AGGRESSIVE");
    reveal_strlit("FEARFUL");
    reveal_strlit("JOYFUL");
    reveal_strlit("EXHAUSTED");
    reveal_strlit("DETERMINED");
    reveal_strlit("SURPRISED");
    assert forall|a: EmotionTag| #[trigger] spec_emotion_from_name(emotion_name(a)) == a by {
        match a {
            EmotionTag::Neutral => {
                assert("NEUTRAL"@.len() != "AGGRESSIVE"@.len());
                assert("NEUTRAL"@[0] != "FEARFUL"@[0]);
                assert("NEUTRAL"@.len() != "JOYFUL"@.len());
                assert("NEUTRAL"@.len() != "EXHAUSTED"@.len());
                assert("NEUTRAL"@.len() != "DETERMINED"@.len());
                assert("NEUTRAL"@.len() != "SURPRISED"@.len());
            },
            EmotionTag::Aggressive => {},
            EmotionTag::Fearful => {
                assert("FEARFUL"@.len() != "AGGRESSIVE"@.len());
            },
            EmotionTag::Joyful => {
                assert("JOYFUL"@.len() != "AGGRESSIVE"@.len());
                assert("JOYFUL"@.len() != "FEARFUL"@.len());
            },
            EmotionTag::Exhausted => {
                assert("EXHAUSTED"@.len() != "AGGRESSIVE"@.len());
                assert("EXHAUSTED"@.len() != "FEARFUL"@.len());
                assert("EXHAUSTED"@.len() != "JOYFUL"@.len());
            },
            EmotionTag::Determined => {
                assert("DETERMINED"@[0] != "AGGRESSIVE"@[0]);
                assert("DETERMINED"@.len() != "FEARFUL"@.len());
                assert("DETERMINED"@.len() != "JOYFUL"@.len());
                assert("DETERMINED"@.len() != "EXHAUSTED"@.len());
            },
            EmotionTag::Surprised => {
                assert("SURPRISED"@.len() != "AGGRESSIVE"@.len());
                assert("SURPRISED"@.len() != "FEARFUL"@.len());
                assert("SURPRISED"@.len() != "JOYFUL"@.len());
                assert("SURPRISED"@[0] != "EXHAUSTED"@[0]);
                assert("SURPRISED"@.len() != "DETERMINED"@.len());
            },
        }
    }
}

/// The name a payload gives the priority `a`: the variant's name in capitals,
/// words joined by `_`.
pub open spec fn priority_name(a: PriorityLevel) -> Seq<char> {
    match a {
        PriorityLevel::Background => "BACKGROUND"@,
        PriorityLevel::Low => "LOW"@,
        PriorityLevel::Normal => "NORMAL"@,
        PriorityLevel::High => "HIGH"@,
        PriorityLevel::Critical => "CRITICAL"@,
    }
}

/// Reading names back: the name of every variant reads as that variant,
/// so it goes on the wire as that variant's number; any other name reads as
/// `Normal`.
pub proof fn lemma_priority_names_read_back()
    ensures
        forall|a: PriorityLevel| #[trigger] spec_priority_from_name(priority_name(a)) == a,
        forall|a: PriorityLevel| (#[trigger] spec_priority_from_name(priority_name(a))).spec_value() == a.spec_value(),
        forall|s: Seq<char>|
            #[trigger] spec_priority_from_name(s) == PriorityLevel::Normal || priority_name(spec_priority_from_name(s)) == s,
{
    reveal_strlit("BACKGROUND");
    reveal_strlit("LOW");
    reveal_strlit("NORMAL");
    reveal_strlit("HIGH");
    reveal_strlit("CRITICAL");
    assert forall|a: PriorityLevel| #[trigger] spec_priority_from_name(priority_name(a)) == a by {
        match a {
            PriorityLevel::Background => {
                assert("BACKGROUND"@.len() != "CRITICAL"@.len());
                assert("BACKGROUND"@.len() != "HIGH"@.len());
                assert("BACKGROUND"@.len() != "LOW"@.len());
            },
            PriorityLevel::Low => {
                assert("LOW"@.len() != "CRITICAL"@.len());
                assert("LOW"@.len() != "HIGH"@.len());
            },
            PriorityLevel::Normal => {
                assert("NORMAL"@.len() != "CRITICAL"@.len());
                assert("NORMAL"@.len() != "HIGH"@.len());
                assert("NORMAL"@.len() != "LOW"@.len());
                assert("NORMAL"@.len() != "BACKGROUND"@.len());
            },
            PriorityLevel::High => {
                assert("HIGH"@.len() != "CRITICAL"@.len());
            },
            PriorityLevel::Critical => {},
        }
    }
}

/// The name a payload gives the query type `a`: the variant's name in capitals,
/// words joined by `_`.
pub open spec fn query_name(a: QueryType) -> Seq<char> {
    match a {
        QueryType::Conversational => "CONVERSATIONAL"@,
        QueryType::Factual => "FACTUAL"@,
        QueryType::Analytical => "ANALYTICAL"@,
        QueryType::Creative => "CREATIVE"@,
        QueryType::Instructional => "INSTRUCTIONAL"@,
    }
}

/// Reading names back: the name of every variant reads as that variant,
/// so it goes on the wire as that variant's number; any other name reads as
/// `Conversational`.
pub proof fn lemma_query_names_read_back()
    ensures
        forall|a: QueryType| #[trigger] spec_query_from_name(query_name(a)) == a,
        forall|a: QueryType| (#[trigger] spec_query_from_name(query_name(a))).spec_value() == a.spec_value(),
        forall|s: Seq<char>|
            #[trigger] spec_query_from_name(s) == QueryType::Conversational || query_name(spec_query_from_name(s)) == s,
{
    reveal_strlit("CONVERSATIONAL");
    reveal_strlit("FACTUAL");
    reveal_strlit("ANALYTICAL");
    reveal_strlit("CREATIVE");
    reveal_strlit("INSTRUCTIONAL");
    assert forall|a: QueryType| #[trigger] spec_query_from_name(query_name(a)) == a by {
        match a {
            QueryType::Conversational => {
                assert("CONVERSATIONAL"@.len() != "FACTUAL"@.len());
                assert("CONVERSATIONAL"@.len() != "ANALYTICAL"@.len());
                assert("CONVERSATIONAL"@.len() != "CREATIVE"@.len());
                assert("CONVERSATIONAL"@.len() != "INSTRUCTIONAL"@.len());
            },
            QueryType::Factual => {},
            QueryType::Analytical => {
                assert("ANALYTICAL"@.len() != "FACTUAL"@.len());
            },
            QueryType::Creative => {
                assert("CREATIVE"@.len() != "FACTUAL"@.len());
                assert("CREATIVE"@.len() != "ANALYTICAL"@.len());
            },
            QueryType::Instructional => {
                assert("INSTRUCTIONAL"@.len() != "FACTUAL"@.len());
                assert("INSTRUCTIONAL"@.len() != "ANALYTICAL"@.len());
                assert("INSTRUCTIONAL"@.len() != "CREATIVE"@.len());
            },
        }
    }
}

} // verus!

verus! {

/// Each member of a gesture payload lands in the field of its own name: a
/// member of the kind its field takes gives that field its value (an
/// action, blend mode, easing or emotion by its name, an integer wrapped to
/// `int32`, a number as its `f32` bits), and an absent member gives the
/// field's default (action `IDLE`, intensity 0.5, duration 0,
/// `compiler_verified` true, speed 1.0, one loop, blend `OVERRIDE`,
/// priority 0, easing `LINEAR`, no bone, emotion `NEUTRAL`, no direction).
pub proof fn lemma_gesture_members(doc: JsonValue)
    ensures
        ({
            let g = gesture_from_json(doc);
            &&& forall|a: ActionType|
                json_as_str(json_lookup(doc, "action"@)) == Some(#[trigger] action_name(a)) ==> g.action
                    == a.spec_value()
            &&& forall|a: BlendMode|
                json_as_str(json_lookup(doc, "blend_mode"@)) == Some(#[trigger] blend_name(a)) ==> g.blend_mode
                    == a.spec_value()
            &&& forall|a: Easing|
                json_as_str(json_lookup(doc, "easing"@)) == Some(#[trigger] easing_name(a)) ==> g.easing
                    == a.spec_value()
            &&& forall|a: EmotionTag|
                json_as_str(json_lookup(doc, "emotion_tag"@)) == Some(#[trigger] emotion_name(a)) ==> g.emotion_tag
                    == a.spec_value()
            &&& (json_as_f32_bits(json_lookup(doc, "intensity"@)) matches Some(f) ==> g.intensity == f)
            &&& (json_as_i64(json_lookup(doc, "duration_ms"@)) matches Some(x) ==> g.duration_ms == x as i32)
            &&& (json_as_bool(json_lookup(doc, "compiler_verified"@)) matches Some(b) ==> g.compiler_verified == b)
            &&& (json_as_f32_bits(json_lookup(doc, "speed_multiplier"@)) matches Some(f) ==> g.speed_multiplier == f)
            &&& (json_as_i64(json_lookup(doc, "loop_count"@)) matches Some(x) ==> g.loop_count == x as i32)
            &&& (json_as_i64(json_lookup(doc, "priority"@)) matches Some(x) ==> g.priority == x as i32)
            &&& (json_as_str(json_lookup(doc, "target_bone"@)) matches Some(s) ==> g.target_bone == s)
            &&& (g.direction is Some <==> json_is_object(json_lookup(doc, "direction"@)))
            &&& (json_lookup(doc, "direction"@) matches Some(d) ==> g.direction matches Some(v) ==> {
                &&& (json_as_f32_bits(json_lookup(d, "x"@)) matches Some(f) ==> v.x == f)
                &&& (json_as_f32_bits(json_lookup(d, "y"@)) matches Some(f) ==> v.y == f)
                &&& (json_as_f32_bits(json_lookup(d, "z"@)) matches Some(f) ==> v.z == f)
                &&& (json_lookup(d, "x"@) is None ==> v.x == 0)
                &&& (json_lookup(d, "y"@) is None ==> v.y == 0)
                &&& (json_lookup(d, "z"@) is None ==> v.z == 0)
            })
            &&& (json_lookup(doc, "action"@) is None ==> g.action == ActionType::Idle.spec_value())
            &&& (json_lookup(doc, "intensity"@) is None ==> g.intensity == HALF_BITS)
            &&& (json_lookup(doc, "duration_ms"@) is None ==> g.duration_ms == 0)
            &&& (json_lookup(doc, "compiler_verified"@) is None ==> g.compiler_verified)
            &&& (json_lookup(doc, "speed_multiplier"@) is None ==> g.speed_multiplier == ONE_BITS)
            &&& (json_lookup(doc, "loop_count"@) is None ==> g.loop_count == 1)
            &&& (json_lookup(doc, "blend_mode"@) is None ==> g.blend_mode == BlendMode::Override.spec_value())
            &&& (json_lookup(doc, "priority"@) is None ==> g.priority == 0)
            &&& (json_lookup(doc, "easing"@) is None ==> g.easing == Easing::Linear.spec_value())
            &&& (json_lookup(doc, "target_bone"@) is None ==> g.target_bone.len() == 0)
            &&& (json_lookup(doc, "emotion_tag"@) is None ==> g.emotion_tag == EmotionTag::Neutral.spec_value())
        }),
{
    lemma_action_names_read_back();
    lemma_blend_names_read_back();
    lemma_easing_names_read_back();
    lemma_emotion_names_read_back();
    reveal_strlit("");
    let g = gesture_from_json(doc);
    assert(spec_action_from_name(action_name(ActionType::Idle)) == ActionType::Idle);
    assert(spec_blend_from_name(blend_name(BlendMode::Override)) == BlendMode::Override);
    assert(spec_easing_from_name(easing_name(Easing::Linear)) == Easing::Linear);
    assert(spec_emotion_from_name(emotion_name(EmotionTag::Neutral)) == EmotionTag::Neutral);
    if let Some(d) = json_lookup(doc, "direction"@) {
        if json_is_object(Some(d)) {
            assert(g.direction == Some(
                Vector3 {
                    x: f32_or(json_lookup(d, "x"@), 0),
                    y: f32_or(json_lookup(d, "y"@), 0),
                    z: f32_or(json_lookup(d, "z"@), 0),
                },
            ));
        }
    }
}

/// Each member of a task node lands in the field of its own name: a string
/// member gives its field that string, absent it is empty; the string
/// elements of `dependencies` are kept in order.
pub proof fn lemma_node_members(v: JsonValue)
    ensures
        ({
            let n = node_from_json(v);
            &&& (json_as_str(json_lookup(v, "task_id"@)) matches Some(s) ==> n.task_id == s)
            &&& (json_as_str(json_lookup(v, "tool_name"@)) matches Some(s) ==> n.tool_name == s)
            &&& (json_as_str(json_lookup(v, "parameters_json"@)) matches Some(s) ==> n.parameters_json == s)
            &&& (json_as_array(json_lookup(v, "dependencies"@)) matches Some(items) ==> n.dependencies
                == strings_in(items))
            &&& (json_lookup(v, "task_id"@) is None ==> n.task_id.len() == 0)
            &&& (json_lookup(v, "tool_name"@) is None ==> n.tool_name.len() == 0)
            &&& (json_lookup(v, "parameters_json"@) is None ==> n.parameters_json.len() == 0)
            &&& (json_lookup(v, "dependencies"@) is None ==> n.dependencies.len() == 0)
        }),
{
    reveal_strlit("");
}

/// Each member of a plan payload lands in the field of its own name: a
/// member of the kind its field takes gives that field its value, an absent
/// member its default (priority `NORMAL`, no retries, no deadline, no
/// confirmation, not parallel, no nodes, cost 0); every node of `nodes` is
/// compiled in order, and `compiler_verified` is always set.
pub proof fn lemma_plan_members(doc: JsonValue)
    ensures
        ({
            let p = plan_from_json(doc);
            &&& (json_as_str(json_lookup(doc, "plan_id"@)) matches Some(s) ==> p.plan_id == s)
            &&& (json_as_str(json_lookup(doc, "objective"@)) matches Some(s) ==> p.objective == s)
            &&& forall|a: PriorityLevel|
                json_as_str(json_lookup(doc, "priority_level"@)) == Some(#[trigger] priority_name(a))
                    ==> p.priority_level == a.spec_value()
            &&& (json_as_i64(json_lookup(doc, "max_retries"@)) matches Some(x) ==> p.max_retries == x as i32)
            &&& (json_as_i64(json_lookup(doc, "timeout_ms"@)) matches Some(x) ==> p.timeout_ms == x as i32)
            &&& (json_as_bool(json_lookup(doc, "requires_confirmation"@)) matches Some(b)
                ==> p.requires_confirmation == b)
            &&& (json_as_bool(json_lookup(doc, "parallel_allowed"@)) matches Some(b) ==> p.parallel_allowed == b)
            &&& (json_as_array(json_lookup(doc, "nodes"@)) matches Some(items) ==> p.nodes.len() == items.len()
                && forall|i: int| 0 <= i < items.len() ==> p.nodes[i] == node_from_json(#[trigger] items[i]))
            &&& (json_as_f32_bits(json_lookup(doc, "estimated_cost_units"@)) matches Some(f)
                ==> p.estimated_cost_units == f)
            &&& p.compiler_verified
            &&& (json_lookup(doc, "plan_id"@) is None ==> p.plan_id.len() == 0)
            &&& (json_lookup(doc, "objective"@) is None ==> p.objective.len() == 0)
            &&& (json_lookup(doc, "priority_level"@) is None ==> p.priority_level == PriorityLevel::Normal.spec_value())
            &&& (json_lookup(doc, "max_retries"@) is None ==> p.max_retries == 0)
            &&& (json_lookup(doc, "timeout_ms"@) is None ==> p.timeout_ms == 0)
            &&& (json_lookup(doc, "requires_confirmation"@) is None ==> !p.requires_confirmation)
            &&& (json_lookup(doc, "parallel_allowed"@) is None ==> !p.parallel_allowed)
            &&& (json_lookup(doc, "nodes"@) is None ==> p.nodes.len() == 0)
            &&& (json_lookup(doc, "estimated_cost_units"@) is None ==> p.estimated_cost_units == 0)
        }),
{
    lemma_priority_names_read_back();
    reveal_strlit("");
    assert(spec_priority_from_name(priority_name(PriorityLevel::Normal)) == PriorityLevel::Normal);
}

/// Each member of a reasoning step lands in the field of its own name, as
/// for task nodes; `confidence` takes a number's `f32` bits, 0 when absent.
pub proof fn lemma_thought_members(v: JsonValue)
    ensures
        ({
            let n = thought_from_json(v);
            &&& (json_as_str(json_lookup(v, "step_id"@)) matches Some(s) ==> n.step_id == s)
            &&& (json_as_str(json_lookup(v, "reasoning"@)) matches Some(s) ==> n.reasoning == s)
            &&& (json_as_f32_bits(json_lookup(v, "confidence"@)) matches Some(f) ==> n.confidence == f)
            &&& (json_as_array(json_lookup(v, "evidence_refs"@)) matches Some(items) ==> n.evidence_refs
                == strings_in(items))
            &&& (json_lookup(v, "step_id"@) is None ==> n.step_id.len() == 0)
            &&& (json_lookup(v, "reasoning"@) is None ==> n.reasoning.len() == 0)
            &&& (json_lookup(v, "confidence"@) is None ==> n.confidence == 0)
            &&& (json_lookup(v, "evidence_refs"@) is None ==> n.evidence_refs.len() == 0)
        }),
{
    reveal_strlit("");
}

/// Each member of an inference payload lands in the field of its own name:
/// a member of the kind its field takes gives that field its value, an
/// absent member its default (query `CONVERSATIONAL`, threshold 0.7, no
/// steps, no answer, confidence 0, no clarification, no context used);
/// every step of `chain_of_thought` is compiled in order, and
/// `compiler_verified` is always set.
pub proof fn lemma_inference_members(doc: JsonValue)
    ensures
        ({
            let p = inference_from_json(doc);
            &&& (json_as_str(json_lookup(doc, "session_id"@)) matches Some(s) ==> p.session_id == s)
            &&& forall|a: QueryType|
                json_as_str(json_lookup(doc, "query_type"@)) == Some(#[trigger] query_name(a)) ==> p.query_type
                    == a.spec_value()
            &&& (json_as_f32_bits(json_lookup(doc, "confidence_threshold"@)) matches Some(f)
                ==> p.confidence_threshold == f)
            &&& (json_as_array(json_lookup(doc, "chain_of_thought"@)) matches Some(items) ==> p.chain_of_thought.len()
                == items.len() && forall|i: int|
                0 <= i < items.len() ==> p.chain_of_thought[i] == thought_from_json(#[trigger] items[i]))
            &&& (json_as_str(json_lookup(doc, "final_answer"@)) matches Some(s) ==> p.final_answer == s)
            &&& (json_as_f32_bits(json_lookup(doc, "overall_confidence"@)) matches Some(f) ==> p.overall_confidence == f)
            &&& (json_as_bool(json_lookup(doc, "requires_clarification"@)) matches Some(b)
                ==> p.requires_clarification == b)
            &&& (json_as_i64(json_lookup(doc, "context_window_used"@)) matches Some(x) ==> p.context_window_used
                == x as i32)
            &&& p.compiler_verified
            &&& (json_lookup(doc, "session_id"@) is None ==> p.session_id.len() == 0)
            &&& (json_lookup(doc, "query_type"@) is None ==> p.query_type == QueryType::Conversational.spec_value())
            &&& (json_lookup(doc, "confidence_threshold"@) is None ==> p.confidence_threshold == SEVEN_TENTHS_BITS)
            &&& (json_lookup(doc, "chain_of_thought"@) is None ==> p.chain_of_thought.len() == 0)
            &&& (json_lookup(doc, "final_answer"@) is None ==> p.final_answer.len() == 0)
            &&& (json_lookup(doc, "overall_confidence"@) is None ==> p.overall_confidence == 0)
            &&& (json_lookup(doc, "requires_clarification"@) is None ==> !p.requires_clarification)
            &&& (json_lookup(doc, "context_window_used"@) is None ==> p.context_window_used == 0)
        }),
{
    lemma_query_names_read_back();
    reveal_strlit("");
    assert(spec_query_from_name(query_name(QueryType::Conversational)) == QueryType::Conversational);
}

} // verus!
