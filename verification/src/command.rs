//! What the compile and status commands answer, and the part of a
//! compilation that runs after the language model has produced its JSON.

use vstd::prelude::*;
use vstd::string::StringExecFns;
use crate::compile::{compile_to_binary, lemma_compiled_packet_decodes, plan_from_json, spec_compile};
use crate::engine::{grammar_path_for, is_ambiguous, spec_grammar_path, spec_is_ambiguous};
use crate::frame::{frame_packet, spec_frame, SOCKET_PORT};
use crate::hex::{format_hex, hex_string};
use crate::json::JsonValue;
use crate::plan::{plan_bytes, plan_decode, plan_keeps, ExecutionPlanView};
use crate::session::{
    lemma_recorded_plan_reads_back, plan_binary_of, recorded, SessionEntry, SessionEntryView,
    PLAN_SCHEMA,
};
use crate::wire::WireError;

verus! {

/// Status of a compilation that went through.
pub const STATUS_OK: &'static str = "OK";

/// Status of an intent refused as too vague.
pub const STATUS_HALT: &'static str = "AMBIGUOUS_HALT";

/// First line of the listing shown for a compiled payload.
pub const ASM_HEADER: &'static str = "; GBNF VALIDATED JSON PAYLOAD\n";

/// Ambiguity score of a refused intent, 0.89 as `f32` bits.
pub const HALT_SCORE_BITS: u32 = 0x3F63D70A;

/// Ambiguity score of a compiled intent, 0.01 as `f32` bits.
pub const OK_SCORE_BITS: u32 = 0x3C23D70A;

/// The answer to a compile command. Scores and speeds are `f32` bits.
pub struct CompileResponse {
    pub status: String,
    pub binary_hex: String,
    pub listing: String,
    pub ambiguity_score: u32,
    pub tps: u32,
    pub ttft: u32,
    pub session_id: String,
}

/// The value of a [`CompileResponse`].
pub struct CompileResponseView {
    pub status: Seq<char>,
    pub binary_hex: Seq<char>,
    pub listing: Seq<char>,
    pub ambiguity_score: u32,
    pub tps: u32,
    pub ttft: u32,
    pub session_id: Seq<char>,
}

impl View for CompileResponse {
    type V = CompileResponseView;

    open spec fn view(&self) -> CompileResponseView {
        CompileResponseView {
            status: self.status@,
            binary_hex: self.binary_hex@,
            listing: self.listing@,
            ambiguity_score: self.ambiguity_score,
            tps: self.tps,
            ttft: self.ttft,
            session_id: self.session_id@,
        }
    }
}

/// The answer to an intent refused as too vague: everything empty or zero
/// but the status and the score.
pub open spec fn halted_response() -> CompileResponseView {
    CompileResponseView {
        status: STATUS_HALT@,
        binary_hex: seq![],
        listing: seq![],
        ambiguity_score: HALT_SCORE_BITS,
        tps: 0,
        ttft: 0,
        session_id: seq![],
    }
}

/// The answer to a compilation that went through.
pub open spec fn compiled_response(
    binary_hex: Seq<char>,
    json_payload: Seq<char>,
    tps: u32,
    ttft: u32,
    session_id: Seq<char>,
) -> CompileResponseView {
    CompileResponseView {
        status: STATUS_OK@,
        binary_hex,
        listing: ASM_HEADER@ + json_payload,
        ambiguity_score: OK_SCORE_BITS,
        tps,
        ttft,
        session_id,
    }
}

impl CompileResponse {
    /// The answer to an intent refused as too vague.
    pub fn halted() -> (r: CompileResponse)
        ensures
            r@ == halted_response(),
    {
        let r = CompileResponse {
            status: String::from_str(STATUS_HALT),
            binary_hex: String::new(),
            listing: String::new(),
            ambiguity_score: HALT_SCORE_BITS,
            tps: 0,
            ttft: 0,
            session_id: String::new(),
        };
        assert(r@.binary_hex =~= Seq::<char>::empty());
        r
    }

    /// The answer to a compilation that went through.
    pub fn compiled(binary_hex: String, json_payload: &str, tps: u32, ttft: u32, session_id: String) -> (r:
        CompileResponse)
        ensures
            r@ == compiled_response(binary_hex@, json_payload@, tps, ttft, session_id@),
    {
        let mut listing = String::from_str(ASM_HEADER);
        listing.append(json_payload);
        CompileResponse {
            status: String::from_str(STATUS_OK),
            binary_hex,
            listing,
            ambiguity_score: OK_SCORE_BITS,
            tps,
            ttft,
            session_id,
        }
    }
}

/// The first decision of a compile command: a vague intent is refused,
/// any other is compiled against the grammar of its schema.
pub fn compile_gate(intent: &str, schema: &str) -> (r: Result<&'static str, CompileResponse>)
    ensures
        if spec_is_ambiguous(intent@) {
            r matches Err(h) && h@ == halted_response()
        } else {
            r matches Ok(p) && p@ == spec_grammar_path(schema@)
        },
{
    if is_ambiguous(intent) {
        Err(CompileResponse::halted())
    } else {
        Ok(grammar_path_for(schema))
    }
}

/// A compiled session: the frame to broadcast, the log entry and the answer.
pub struct CompiledSession {
    pub frame: Vec<u8>,
    pub entry: SessionEntry,
    pub response: CompileResponse,
}

/// The rest of a compile command once the language model has answered with
/// `json_payload`, parsed as `doc`: the packet, its frame, the session
/// entry and the answer, or why the payload does not compile.
pub fn compile_session(
    doc: &JsonValue,
    json_payload: String,
    schema: String,
    intent: String,
    session_id: String,
    timestamp: String,
    tps: u32,
    ttft: u32,
) -> (r: Result<CompiledSession, String>)
    ensures
        match spec_compile(*doc, schema@) {
            Err(m) => r matches Err(e) && e@ == m,
            Ok(b) => r matches Ok(c) && c.frame@ == spec_frame(schema@, b) && c.entry@ == (
            SessionEntryView {
                id: session_id@,
                timestamp: timestamp@,
                schema: schema@,
                intent: intent@,
                json_payload: json_payload@,
                binary_hex: hex_string(b),
                byte_size: b.len(),
                tps,
                ttft,
            }) && c.response@ == compiled_response(
                hex_string(b),
                json_payload@,
                tps,
                ttft,
                session_id@,
            ),
        },
{
    let binary = match compile_to_binary(doc, schema.as_str()) {
        Ok(b) => b,
        Err(e) => return Err(e),
    };
    let frame = frame_packet(schema.as_str(), binary.as_slice());
    let hex = format_hex(binary.as_slice());
    let response = CompileResponse::compiled(hex, json_payload.as_str(), tps, ttft, session_id.clone());
    let entry = SessionEntry::from_packet(
        session_id,
        timestamp,
        schema,
        intent,
        json_payload,
        binary.as_slice(),
        tps,
        ttft,
    );
    Ok(CompiledSession { frame, entry, response })
}

/// The answer to a status request on the broadcast bridge.
pub struct SocketStatus {
    pub running: bool,
    pub port: u16,
    pub client_count: usize,
}

impl SocketStatus {
    /// The bridge runs on [`SOCKET_PORT`] with `client_count` clients.
    pub fn new(client_count: usize) -> (r: SocketStatus)
        ensures
            r.running,
            r.port == SOCKET_PORT,
            r.client_count == client_count,
    {
        SocketStatus { running: true, port: SOCKET_PORT, client_count }
    }
}

} // verus!

verus! {

/// What a compiled plan session gives back when it is executed: recorded
/// under an id no older entry has, the log reads back the compiled packet,
/// and that packet decodes to the plan built from the payload, so the run
/// starts on that plan's nodes.
pub proof fn lemma_compiled_plan_runs(doc: JsonValue, log: Seq<SessionEntryView>, e: SessionEntryView)
    requires
        plan_keeps(plan_from_json(doc)),
        e.schema == PLAN_SCHEMA@,
        spec_compile(doc, e.schema) matches Ok(b) && e.binary_hex == hex_string(b),
        forall|j: int| 0 <= j < log.len() ==> #[trigger] log[j].id != e.id,
    ensures
        spec_compile(doc, e.schema) == Ok::<Seq<u8>, Seq<char>>(plan_bytes(plan_from_json(doc))),
        plan_binary_of(recorded(log, e), e.id) == Ok::<Seq<u8>, Seq<char>>(
            plan_bytes(plan_from_json(doc)),
        ),
        plan_decode(plan_bytes(plan_from_json(doc))) == Ok::<ExecutionPlanView, WireError>(
            plan_from_json(doc),
        ),
{
    lemma_compiled_packet_decodes(doc);
    reveal_strlit("ExecutionPlan");
    assert(PLAN_SCHEMA@ == "ExecutionPlan"@);
    lemma_recorded_plan_reads_back(log, e, plan_bytes(plan_from_json(doc)));
}

} // verus!
