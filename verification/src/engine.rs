//! The compiler front end: what is asked of the language model, and how
//! its raw output is cut down to the JSON object it generated.

use vstd::prelude::*;
use vstd::string::StringExecFns;
use crate::text::{
    chars_of, contains, contains_seq, last_match, lowercase_of, rfind_chars, str_eq,
    string_from_chars, to_lowercase, trim_chars, trim_vec,
};

verus! {

/// Field guide for `GestureCommand` payloads.
pub const GESTURE_CONTEXT: &'static str = "action: one of IDLE, JUMP, WAVE, RUN, ATTACK, WALK, CROUCH, ROLL, EMOTE, INTERACT\n\
intensity: float 0.0 to 1.0 (strength of the action)\n\
duration_ms: integer milliseconds\n\
direction: object with float x, y, z\n\
compiler_verified: true\n\
speed_multiplier: float (0.1 slow-motion to 2.0 fast, default 1.0)\n\
loop_count: integer (1 = once, 0 = infinite)\n\
blend_mode: one of OVERRIDE, ADDITIVE, LAYER\n\
priority: integer 0-10 (higher overrides lower animations)\n\
easing: one of LINEAR, EASE_IN, EASE_OUT, EASE_IN_OUT, SPRING, BOUNCE\n\
target_bone: string bone name or empty string\n\
emotion_tag: one of NEUTRAL, AGGRESSIVE, FEARFUL, JOYFUL, EXHAUSTED, DETERMINED, SURPRISED";

/// Field guide for `ExecutionPlan` payloads.
pub const PLAN_CONTEXT: &'static str = "plan_id: a short unique string identifier\n\
objective: string describing the overall goal\n\
priority_level: one of CRITICAL, HIGH, NORMAL, LOW, BACKGROUND\n\
max_retries: integer number of retry attempts on failure\n\
timeout_ms: integer deadline in milliseconds (0 = no limit)\n\
requires_confirmation: true or false (human approval gate)\n\
parallel_allowed: true or false (concurrent node execution)\n\
nodes: array of task nodes, each having:\n\
  - task_id: unique task string\n\
  - tool_name: one of http_get, fs_read, fs_write\n\
  - parameters_json: the tool parameters serialized as one JSON object string: url for http_get, filename for fs_read, filename and content for fs_write\n\
  - dependencies: array of task_id strings\n\
estimated_cost_units: float compute cost estimate\n\
compiler_verified: true";

/// Field guide for `InferencePacket` payloads.
pub const INFERENCE_CONTEXT: &'static str = "session_id: a short unique session string\n\
query_type: one of CONVERSATIONAL, FACTUAL, ANALYTICAL, CREATIVE, INSTRUCTIONAL\n\
confidence_threshold: float 0.0-1.0 minimum acceptable confidence\n\
chain_of_thought: array of thought steps, each having:\n\
  - step_id: unique step string\n\
  - reasoning: explanation of the step\n\
  - confidence: float 0.0-1.0\n\
  - evidence_refs: array of reference strings\n\
final_answer: string with the concluded response\n\
overall_confidence: float 0.0-1.0 confidence in the answer\n\
requires_clarification: true or false\n\
context_window_used: integer token count consumed\n\
compiler_verified: true";

} // verus!

verus! {

/// The grammar file that constrains generation for a schema name; unknown
/// names use the gesture grammar.
pub open spec fn spec_grammar_path(schema: Seq<char>) -> Seq<char> {
    if schema == "ExecutionPlan"@ {
        "grammars/execution_plan.gbnf"@
    } else if schema == "InferencePacket"@ {
        "grammars/inference_packet.gbnf"@
    } else {
        "grammars/gesture_command.gbnf"@
    }
}

/// The grammar file that constrains generation for a schema name.
pub fn grammar_path_for(schema: &str) -> (r: &'static str)
    ensures
        r@ == spec_grammar_path(schema@),
{
    if str_eq(schema, "ExecutionPlan") {
        "grammars/execution_plan.gbnf"
    } else if str_eq(schema, "InferencePacket") {
        "grammars/inference_packet.gbnf"
    } else {
        "grammars/gesture_command.gbnf"
    }
}

/// The field guide that goes with a grammar path.
pub open spec fn spec_schema_context(grammar_path: Seq<char>) -> Seq<char> {
    if contains_seq(grammar_path, "gesture_command"@) {
        GESTURE_CONTEXT@
    } else if contains_seq(grammar_path, "execution_plan"@) {
        PLAN_CONTEXT@
    } else {
        INFERENCE_CONTEXT@
    }
}

/// No brace or pipe occurs in `s`.
pub open spec fn plain_text(s: Seq<char>) -> bool {
    forall|i: int| 0 <= i < s.len() ==> #[trigger] s[i] != '{' && s[i] != '}' && s[i] != '|'
}

/// The three field guides hold no braces or pipes.
proof fn lemma_contexts_plain()
    ensures
        plain_text(GESTURE_CONTEXT@),
        plain_text(PLAN_CONTEXT@),
        plain_text(INFERENCE_CONTEXT@),
{
    reveal_strlit("action: one of IDLE, JUMP, WAVE, RUN, ATTACK, WALK, CROUCH, ROLL, EMOTE, INTERACT\n\
intensity: float 0.0 to 1.0 (strength of the action)\n\
duration_ms: integer milliseconds\n\
direction: object with float x, y, z\n\
compiler_verified: true\n\
speed_multiplier: float (0.1 slow-motion to 2.0 fast, default 1.0)\n\
loop_count: integer (1 = once, 0 = infinite)\n\
blend_mode: one of OVERRIDE, ADDITIVE, LAYER\n\
priority: integer 0-10 (higher overrides lower animations)\n\
easing: one of LINEAR, EASE_IN, EASE_OUT, EASE_IN_OUT, SPRING, BOUNCE\n\
target_bone: string bone name or empty string\n\
emotion_tag: one of NEUTRAL, AGGRESSIVE, FEARFUL, JOYFUL, EXHAUSTED, DETERMINED, SURPRISED");
    assert(GESTURE_CONTEXT@ == "action: one of IDLE, JUMP, WAVE, RUN, ATTACK, WALK, CROUCH, ROLL, EMOTE, INTERACT\n\
intensity: float 0.0 to 1.0 (strength of the action)\n\
duration_ms: integer milliseconds\n\
direction: object with float x, y, z\n\
compiler_verified: true\n\
speed_multiplier: float (0.1 slow-motion to 2.0 fast, default 1.0)\n\
loop_count: integer (1 = once, 0 = infinite)\n\
blend_mode: one of OVERRIDE, ADDITIVE, LAYER\n\
priority: integer 0-10 (higher overrides lower animations)\n\
easing: one of LINEAR, EASE_IN, EASE_OUT, EASE_IN_OUT, SPRING, BOUNCE\n\
target_bone: string bone name or empty string\n\
emotion_tag: one of NEUTRAL, AGGRESSIVE, FEARFUL, JOYFUL, EXHAUSTED, DETERMINED, SURPRISED"@);
    reveal_strlit("plan_id: a short unique string identifier\n\
objective: string describing the overall goal\n\
priority_level: one of CRITICAL, HIGH, NORMAL, LOW, BACKGROUND\n\
max_retries: integer number of retry attempts on failure\n\
timeout_ms: integer deadline in milliseconds (0 = no limit)\n\
requires_confirmation: true or false (human approval gate)\n\
parallel_allowed: true or false (concurrent node execution)\n\
nodes: array of task nodes, each having:\n\
  - task_id: unique task string\n\
  - tool_name: one of http_get, fs_read, fs_write\n\
  - parameters_json: the tool parameters serialized as one JSON object string: url for http_get, filename for fs_read, filename and content for fs_write\n\
  - dependencies: array of task_id strings\n\
estimated_cost_units: float compute cost estimate\n\
compiler_verified: true");
    assert(PLAN_CONTEXT@ == "plan_id: a short unique string identifier\n\
objective: string describing the overall goal\n\
priority_level: one of CRITICAL, HIGH, NORMAL, LOW, BACKGROUND\n\
max_retries: integer number of retry attempts on failure\n\
timeout_ms: integer deadline in milliseconds (0 = no limit)\n\
requires_confirmation: true or false (human approval gate)\n\
parallel_allowed: true or false (concurrent node execution)\n\
nodes: array of task nodes, each having:\n\
  - task_id: unique task string\n\
  - tool_name: one of http_get, fs_read, fs_write\n\
  - parameters_json: the tool parameters serialized as one JSON object string: url for http_get, filename for fs_read, filename and content for fs_write\n\
  - dependencies: array of task_id strings\n\
estimated_cost_units: float compute cost estimate\n\
compiler_verified: true"@);
    reveal_strlit("session_id: a short unique session string\n\
query_type: one of CONVERSATIONAL, FACTUAL, ANALYTICAL, CREATIVE, INSTRUCTIONAL\n\
confidence_threshold: float 0.0-1.0 minimum acceptable confidence\n\
chain_of_thought: array of thought steps, each having:\n\
  - step_id: unique step string\n\
  - reasoning: explanation of the step\n\
  - confidence: float 0.0-1.0\n\
  - evidence_refs: array of reference strings\n\
final_answer: string with the concluded response\n\
overall_confidence: float 0.0-1.0 confidence in the answer\n\
requires_clarification: true or false\n\
context_window_used: integer token count consumed\n\
compiler_verified: true");
    assert(INFERENCE_CONTEXT@ == "session_id: a short unique session string\n\
query_type: one of CONVERSATIONAL, FACTUAL, ANALYTICAL, CREATIVE, INSTRUCTIONAL\n\
confidence_threshold: float 0.0-1.0 minimum acceptable confidence\n\
chain_of_thought: array of thought steps, each having:\n\
  - step_id: unique step string\n\
  - reasoning: explanation of the step\n\
  - confidence: float 0.0-1.0\n\
  - evidence_refs: array of reference strings\n\
final_answer: string with the concluded response\n\
overall_confidence: float 0.0-1.0 confidence in the answer\n\
requires_clarification: true or false\n\
context_window_used: integer token count consumed\n\
compiler_verified: true"@);
}

/// The plain-English field guide for the schema a grammar file belongs to.
/// It holds no braces or pipes, so an echo of the prompt cannot pass for JSON.
pub fn schema_context_for(grammar_path: &str) -> (r: &'static str)
    ensures
        r@ == spec_schema_context(grammar_path@),
        plain_text(r@),
{
    proof {
        lemma_contexts_plain();
    }
    if contains(grammar_path, "gesture_command") {
        GESTURE_CONTEXT
    } else if contains(grammar_path, "execution_plan") {
        PLAN_CONTEXT
    } else {
        INFERENCE_CONTEXT
    }
}

/// Opening of the prompt, up to the field guide.
pub const PROMPT_HEAD: &'static str = "<|im_start|>system\nYou are a deterministic semantic compiler. Output ONLY a single valid JSON object with these fields:\n";

/// Between the field guide and the intent.
pub const PROMPT_MIDDLE: &'static str = "\n<|im_end|>\n<|im_start|>user\nCompile this human intent into machine parameters: ";

/// After the intent: the turn marker generation starts from.
pub const PROMPT_TAIL: &'static str = "\n<|im_end|>\n<|im_start|>assistant\n";

/// The marker that opens the model's own turn.
pub const ASSISTANT_MARKER: &'static str = "<|im_start|>assistant";

/// The prompt for an intent under a field guide.
pub open spec fn spec_prompt(schema_context: Seq<char>, intent: Seq<char>) -> Seq<char> {
    PROMPT_HEAD@ + schema_context + PROMPT_MIDDLE@ + intent + PROMPT_TAIL@
}

/// Builds the strict single-turn prompt for an intent.
pub fn build_prompt(schema_context: &str, intent: &str) -> (r: String)
    ensures
        r@ == spec_prompt(schema_context@, intent@),
{
    let mut p = String::from_str(PROMPT_HEAD);
    p.append(schema_context);
    p.append(PROMPT_MIDDLE);
    p.append(intent);
    p.append(PROMPT_TAIL);
    p
}

/// An intent the compiler halts on: blank, or hedged with "maybe" or
/// "sort of" in any letter case.
pub open spec fn spec_is_ambiguous(intent: Seq<char>) -> bool {
    trim_chars(intent).len() == 0 || contains_seq(lowercase_of(intent), "maybe"@) || contains_seq(
        lowercase_of(intent),
        "sort of"@,
    )
}

/// Tells whether an intent is too vague to compile.
pub fn is_ambiguous(intent: &str) -> (r: bool)
    ensures
        r == spec_is_ambiguous(intent@),
{
    let chars = chars_of(intent);
    let trimmed = trim_vec(&chars);
    if trimmed.len() == 0 {
        return true;
    }
    let lower = to_lowercase(intent);
    contains(lower.as_str(), "maybe") || contains(lower.as_str(), "sort of")
}

/// The part of the raw output after the last assistant marker, or all of it.
pub open spec fn generation_zone(raw: Seq<char>) -> Seq<char> {
    match last_match(raw, ASSISTANT_MARKER@) {
        Some(i) => raw.skip(i + ASSISTANT_MARKER@.len()),
        None => raw,
    }
}

/// `s` with ANSI escape sequences removed: an ESC character and everything
/// up to and including the next `m` are dropped. `skipping` says whether
/// such a sequence is open when `s` begins.
pub open spec fn strip_ansi(s: Seq<char>, skipping: bool) -> Seq<char>
    decreases s.len(),
{
    if s.len() == 0 {
        seq![]
    } else if s[0] == '\x1b' {
        strip_ansi(s.drop_first(), true)
    } else if skipping {
        strip_ansi(s.drop_first(), s[0] != 'm')
    } else {
        seq![s[0]] + strip_ansi(s.drop_first(), false)
    }
}

/// The first index at or after `k` holding `c`.
pub open spec fn first_index_from(s: Seq<char>, c: char, k: int) -> Option<int>
    decreases s.len() - k,
{
    if k < 0 || k >= s.len() {
        None
    } else if s[k] == c {
        Some(k)
    } else {
        first_index_from(s, c, k + 1)
    }
}

/// The last index at or below `k` holding `c`.
pub open spec fn last_index_below(s: Seq<char>, c: char, k: int) -> Option<int>
    decreases k + 1,
{
    if k < 0 || k >= s.len() {
        None
    } else if s[k] == c {
        Some(k)
    } else {
        last_index_below(s, c, k - 1)
    }
}

/// Reported when the output holds braces in the wrong order.
pub const BOUNDARY_ERROR: &'static str = "Engine hallucination: Invalid JSON boundaries detected.";

/// Reported when the output lacks an opening or a closing brace.
pub const INCOMPLETE_ERROR: &'static str = "Engine failed to complete structure. Hardware timeout or invalid prompt.";

/// What the engine output is cut down to: from the first `{` to the last
/// `}` of the trimmed, escape-free generation zone.
pub open spec fn spec_extract(raw: Seq<char>) -> Result<Seq<char>, Seq<char>> {
    let clean = trim_chars(strip_ansi(generation_zone(raw), false));
    match (first_index_from(clean, '{', 0), last_index_below(clean, '}', clean.len() - 1)) {
        (Some(a), Some(b)) => if a < b {
            Ok(clean.subrange(a, b + 1))
        } else {
            Err(BOUNDARY_ERROR@)
        },
        _ => Err(INCOMPLETE_ERROR@),
    }
}

/// Removes ANSI escape sequences from `s` from index `start` on.
pub fn strip_ansi_from(s: &Vec<char>, start: usize) -> (r: Vec<char>)
    requires
        start <= s@.len(),
    ensures
        r@ == strip_ansi(s@.skip(start as int), false),
{
    let mut out: Vec<char> = Vec::new();
    let mut skip = false;
    let mut i: usize = start;
    while i < s.len()
        invariant
            start <= i <= s@.len(),
            strip_ansi(s@.skip(start as int), false) == out@ + strip_ansi(s@.skip(i as int), skip),
        decreases s@.len() - i,
    {
        let ch = s[i];
        let ghost rest = s@.skip(i as int);
        assert(rest[0] == ch);
        assert(rest.drop_first() =~= s@.skip(i + 1));
        if ch == '\x1b' {
            skip = true;
        } else if skip {
            if ch == 'm' {
                skip = false;
            }
        } else {
            let ghost before = out@;
            out.push(ch);
            assert(before + (seq![ch] + strip_ansi(s@.skip(i + 1), false)) =~= out@ + strip_ansi(
                s@.skip(i + 1),
                false,
            ));
        }
        i = i + 1;
    }
    assert(s@.skip(i as int) =~= Seq::<char>::empty());
    assert(out@ + Seq::<char>::empty() =~= out@);
    out
}

/// The first index of `c` in `s`.
pub fn find_char(s: &Vec<char>, c: char) -> (r: Option<usize>)
    ensures
        r matches Some(i) ==> first_index_from(s@, c, 0) == Some(i as int) && i < s@.len(),
        r is None ==> first_index_from(s@, c, 0) is None,
{
    let mut i: usize = 0;
    while i < s.len()
        invariant
            i <= s@.len(),
            first_index_from(s@, c, 0) == first_index_from(s@, c, i as int),
        decreases s@.len() - i,
    {
        if s[i] == c {
            return Some(i);
        }
        i = i + 1;
    }
    None
}

/// The last index of `c` in `s`.
pub fn rfind_char(s: &Vec<char>, c: char) -> (r: Option<usize>)
    ensures
        r matches Some(i) ==> last_index_below(s@, c, s@.len() - 1) == Some(i as int) && i < s@.len(),
        r is None ==> last_index_below(s@, c, s@.len() - 1) is None,
{
    let mut k: usize = s.len();
    while k > 0
        invariant
            k <= s@.len(),
            last_index_below(s@, c, s@.len() - 1) == last_index_below(s@, c, k - 1),
        decreases k,
    {
        if s[k - 1] == c {
            return Some(k - 1);
        }
        k = k - 1;
    }
    None
}

/// Cuts the raw engine output down to the JSON object the model generated.
pub fn extract_json_payload(raw: &str) -> (r: Result<String, String>)
    ensures
        match spec_extract(raw@) {
            Ok(s) => r matches Ok(x) && x@ == s,
            Err(m) => r matches Err(x) && x@ == m,
        },
{
    let chars = chars_of(raw);
    let total: usize = chars.len();
    let marker = chars_of(ASSISTANT_MARKER);
    let start: usize = match rfind_chars(&chars, &marker) {
        Some(i) => {
            proof {
                crate::text::lemma_last_match(raw@, ASSISTANT_MARKER@);
            }
            i + marker.len()
        },
        None => 0,
    };
    assert(chars@.skip(start as int) =~= generation_zone(raw@));
    let stripped = strip_ansi_from(&chars, start);
    let clean = trim_vec(&stripped);
    let a = find_char(&clean, '{');
    let b = rfind_char(&clean, '}');
    match (a, b) {
        (Some(a), Some(b)) => {
            if a < b {
                let cl: usize = clean.len();
                let mut piece: Vec<char> = Vec::new();
                let mut i: usize = a;
                while i <= b
                    invariant
                        a <= i <= b + 1,
                        b < clean@.len(),
                        cl == clean@.len(),
                        piece@ == clean@.subrange(a as int, i as int),
                    decreases b + 1 - i,
                {
                    piece.push(clean[i]);
                    assert(piece@ =~= clean@.subrange(a as int, i + 1));
                    i = i + 1;
                }
                Ok(string_from_chars(piece.as_slice()))
            } else {
                Err(String::from_str(BOUNDARY_ERROR))
            }
        },
        _ => Err(String::from_str(INCOMPLETE_ERROR)),
    }
}

} // verus!
