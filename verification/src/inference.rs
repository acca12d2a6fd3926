//! `InferencePacket`: general chat, analytical and factual inference output.

use vstd::prelude::*;
use crate::wire;
use crate::wire::{
    fits, string_list, strings_view, encode_fields, fold_fields, int32_from_wire, int32_of,
    opt_bool, opt_float, opt_int32, opt_string, utf8_payload, value_in_bounds,
    Fault, FieldValue, MessageKind, WireError, WireValue,
};

verus! {

/// Classification of the query type.
#[derive(Clone, Copy, Debug, PartialEq, Eq, Hash, PartialOrd, Ord, Structural)]
pub enum QueryType {
    Conversational,
    Factual,
    Analytical,
    Creative,
    Instructional,
}

impl QueryType {
    /// The number this variant carries on the wire.
    pub open spec fn spec_value(self) -> i32 {
        match self {
            QueryType::Conversational => 0,
            QueryType::Factual => 1,
            QueryType::Analytical => 2,
            QueryType::Creative => 3,
            QueryType::Instructional => 4,
        }
    }

    /// The number this variant carries on the wire.
    pub fn value(self) -> (r: i32)
        ensures
            r == self.spec_value(),
    {
        match self {
            QueryType::Conversational => 0,
            QueryType::Factual => 1,
            QueryType::Analytical => 2,
            QueryType::Creative => 3,
            QueryType::Instructional => 4,
        }
    }
}

/// One step of a reasoning chain.
#[derive(Clone, Debug)]
pub struct ThoughtNode {
    pub step_id: String,
    pub reasoning: String,
    /// Confidence in this step, as `f32` bits.
    pub confidence: u32,
    /// References to supporting evidence or context.
    pub evidence_refs: Vec<String>,
}

/// The value of a [`ThoughtNode`].
pub struct ThoughtNodeView {
    pub step_id: Seq<char>,
    pub reasoning: Seq<char>,
    pub confidence: u32,
    pub evidence_refs: Seq<Seq<char>>,
}

impl View for ThoughtNode {
    type V = ThoughtNodeView;

    open spec fn view(&self) -> ThoughtNodeView {
        ThoughtNodeView {
            step_id: self.step_id@,
            reasoning: self.reasoning@,
            confidence: self.confidence,
            evidence_refs: strings_view(self.evidence_refs@),
        }
    }
}

/// An inference packet.
#[derive(Clone, Debug)]
pub struct InferencePacket {
    /// Conversation or session tracking identifier.
    pub session_id: String,
    /// A [`QueryType`] number.
    pub query_type: i32,
    /// Minimum confidence to accept the answer, as `f32` bits.
    pub confidence_threshold: u32,
    /// Step-by-step reasoning chain.
    pub chain_of_thought: Vec<ThoughtNode>,
    /// The concluded answer.
    pub final_answer: String,
    /// Overall confidence in the answer, as `f32` bits.
    pub overall_confidence: u32,
    /// The query was ambiguous and needs clarification.
    pub requires_clarification: bool,
    /// Context window tokens consumed during inference.
    pub context_window_used: i32,
    pub compiler_verified: bool,
}

/// The value of an [`InferencePacket`].
pub struct InferencePacketView {
    pub session_id: Seq<char>,
    pub query_type: i32,
    pub confidence_threshold: u32,
    pub chain_of_thought: Seq<ThoughtNodeView>,
    pub final_answer: Seq<char>,
    pub overall_confidence: u32,
    pub requires_clarification: bool,
    pub context_window_used: i32,
    pub compiler_verified: bool,
}

/// The value of each thought.
pub open spec fn thoughts_view(v: Seq<ThoughtNode>) -> Seq<ThoughtNodeView> {
    v.map_values(|n: ThoughtNode| n@)
}

impl View for InferencePacket {
    type V = InferencePacketView;

    open spec fn view(&self) -> InferencePacketView {
        InferencePacketView {
            session_id: self.session_id@,
            query_type: self.query_type,
            confidence_threshold: self.confidence_threshold,
            chain_of_thought: thoughts_view(self.chain_of_thought@),
            final_answer: self.final_answer@,
            overall_confidence: self.overall_confidence,
            requires_clarification: self.requires_clarification,
            context_window_used: self.context_window_used,
            compiler_verified: self.compiler_verified,
        }
    }
}

/// A thought with every field at its default.
pub open spec fn thought_default() -> ThoughtNodeView {
    ThoughtNodeView { step_id: seq![], reasoning: seq![], confidence: 0, evidence_refs: seq![] }
}

/// A packet with every field at its default.
pub open spec fn inference_default() -> InferencePacketView {
    InferencePacketView {
        session_id: seq![],
        query_type: 0,
        confidence_threshold: 0,
        chain_of_thought: seq![],
        final_answer: seq![],
        overall_confidence: 0,
        requires_clarification: false,
        context_window_used: 0,
        compiler_verified: false,
    }
}

impl Default for ThoughtNode {
    fn default() -> (r: Self)
        ensures
            r@ == thought_default(),
    {
        let r = ThoughtNode {
            step_id: String::new(),
            reasoning: String::new(),
            confidence: 0,
            evidence_refs: Vec::new(),
        };
        assert(r@.evidence_refs =~= Seq::<Seq<char>>::empty());
        r
    }
}

impl Default for InferencePacket {
    fn default() -> (r: Self)
        ensures
            r@ == inference_default(),
    {
        let r = InferencePacket {
            session_id: String::new(),
            query_type: 0,
            confidence_threshold: 0,
            chain_of_thought: Vec::new(),
            final_answer: String::new(),
            overall_confidence: 0,
            requires_clarification: false,
            context_window_used: 0,
            compiler_verified: false,
        };
        assert(r@.chain_of_thought =~= Seq::<ThoughtNodeView>::empty());
        r
    }
}

/// The fields a thought is written as.
pub open spec fn thought_fields(n: ThoughtNodeView) -> Seq<(u32, FieldValue)> {
    opt_string(1, n.step_id) + opt_string(2, n.reasoning) + opt_float(3, n.confidence) + string_list(
        4,
        n.evidence_refs,
    )
}

/// The encoded bytes of a thought.
pub open spec fn thought_bytes(n: ThoughtNodeView) -> Seq<u8> {
    encode_fields(thought_fields(n))
}

/// The repeated `chain_of_thought` field.
pub open spec fn thought_list(ns: Seq<ThoughtNodeView>) -> Seq<(u32, FieldValue)> {
    Seq::new(ns.len(), |i: int| (4u32, FieldValue::Bytes(thought_bytes(ns[i]))))
}

/// The fields a packet is written as.
pub open spec fn inference_fields(p: InferencePacketView) -> Seq<(u32, FieldValue)> {
    opt_string(1, p.session_id) + opt_int32(2, p.query_type) + opt_float(3, p.confidence_threshold)
        + thought_list(p.chain_of_thought) + opt_string(5, p.final_answer) + opt_float(
        6,
        p.overall_confidence,
    ) + opt_bool(7, p.requires_clarification) + opt_int32(8, p.context_window_used) + opt_bool(
        9,
        p.compiler_verified,
    )
}

/// The encoded bytes of a packet.
pub open spec fn inference_bytes(p: InferencePacketView) -> Seq<u8> {
    encode_fields(inference_fields(p))
}

/// Encodes a thought.
pub fn encode_thought(n: &ThoughtNode) -> (out: Vec<u8>)
    ensures
        out@ == thought_bytes(n@),
{
    let mut buf: Vec<u8> = Vec::new();
    let ghost acc: Seq<(u32, FieldValue)> = seq![];
    assert(buf@ =~= encode_fields(acc));
    wire::put_opt_string(1, &n.step_id, &mut buf);
    proof {
        wire::lemma_encode_fields_concat(acc, opt_string(1, n.step_id@));
        acc = acc + opt_string(1, n.step_id@);
    }
    wire::put_opt_string(2, &n.reasoning, &mut buf);
    proof {
        wire::lemma_encode_fields_concat(acc, opt_string(2, n.reasoning@));
        acc = acc + opt_string(2, n.reasoning@);
    }
    wire::put_opt_float(3, n.confidence, &mut buf);
    proof {
        wire::lemma_encode_fields_concat(acc, opt_float(3, n.confidence));
        acc = acc + opt_float(3, n.confidence);
    }
    let ghost base = acc;
    let ghost refs = n@.evidence_refs;
    let mut i: usize = 0;
    assert(acc =~= base + string_list(4, refs.take(0)));
    while i < n.evidence_refs.len()
        invariant
            i <= n.evidence_refs@.len(),
            refs == strings_view(n.evidence_refs@),
            buf@ == encode_fields(acc),
            acc == base + string_list(4, refs.take(i as int)),
        decreases n.evidence_refs@.len() - i,
    {
        wire::put_string_always(4, &n.evidence_refs[i], &mut buf);
        proof {
            let one = seq![(4u32, FieldValue::Bytes(vstd::utf8::encode_utf8(n.evidence_refs@[i as int]@)))];
            wire::lemma_encode_fields_concat(acc, one);
            acc = acc + one;
            assert(string_list(4, refs.take(i + 1)) =~= string_list(4, refs.take(i as int)) + one);
            assert(acc =~= base + string_list(4, refs.take(i + 1)));
        }
        i = i + 1;
    }
    assert(refs.take(i as int) =~= refs);
    assert(acc =~= thought_fields(n@));
    buf
}

/// Encodes a packet as `prost` would.
pub fn encode_inference(p: &InferencePacket) -> (out: Vec<u8>)
    ensures
        out@ == inference_bytes(p@),
{
    let mut buf: Vec<u8> = Vec::new();
    let ghost acc: Seq<(u32, FieldValue)> = seq![];
    assert(buf@ =~= encode_fields(acc));
    wire::put_opt_string(1, &p.session_id, &mut buf);
    proof {
        wire::lemma_encode_fields_concat(acc, opt_string(1, p.session_id@));
        acc = acc + opt_string(1, p.session_id@);
    }
    wire::put_opt_int32(2, p.query_type, &mut buf);
    proof {
        wire::lemma_encode_fields_concat(acc, opt_int32(2, p.query_type));
        acc = acc + opt_int32(2, p.query_type);
    }
    wire::put_opt_float(3, p.confidence_threshold, &mut buf);
    proof {
        wire::lemma_encode_fields_concat(acc, opt_float(3, p.confidence_threshold));
        acc = acc + opt_float(3, p.confidence_threshold);
    }
    let ghost base = acc;
    let ghost ns = p@.chain_of_thought;
    let mut i: usize = 0;
    assert(acc =~= base + thought_list(ns.take(0)));
    while i < p.chain_of_thought.len()
        invariant
            i <= p.chain_of_thought@.len(),
            ns == thoughts_view(p.chain_of_thought@),
            buf@ == encode_fields(acc),
            acc == base + thought_list(ns.take(i as int)),
        decreases p.chain_of_thought@.len() - i,
    {
        let body = encode_thought(&p.chain_of_thought[i]);
        wire::put_message(4, &body, &mut buf);
        proof {
            let one = seq![(4u32, FieldValue::Bytes(thought_bytes(ns[i as int])))];
            wire::lemma_encode_fields_concat(acc, one);
            acc = acc + one;
            assert(thought_list(ns.take(i + 1)) =~= thought_list(ns.take(i as int)) + one);
            assert(acc =~= base + thought_list(ns.take(i + 1)));
        }
        i = i + 1;
    }
    assert(ns.take(i as int) =~= ns);
    wire::put_opt_string(5, &p.final_answer, &mut buf);
    proof {
        wire::lemma_encode_fields_concat(acc, opt_string(5, p.final_answer@));
        acc = acc + opt_string(5, p.final_answer@);
    }
    wire::put_opt_float(6, p.overall_confidence, &mut buf);
    proof {
        wire::lemma_encode_fields_concat(acc, opt_float(6, p.overall_confidence));
        acc = acc + opt_float(6, p.overall_confidence);
    }
    wire::put_opt_bool(7, p.requires_clarification, &mut buf);
    proof {
        wire::lemma_encode_fields_concat(acc, opt_bool(7, p.requires_clarification));
        acc = acc + opt_bool(7, p.requires_clarification);
    }
    wire::put_opt_int32(8, p.context_window_used, &mut buf);
    proof {
        wire::lemma_encode_fields_concat(acc, opt_int32(8, p.context_window_used));
        acc = acc + opt_int32(8, p.context_window_used);
    }
    wire::put_opt_bool(9, p.compiler_verified, &mut buf);
    proof {
        wire::lemma_encode_fields_concat(acc, opt_bool(9, p.compiler_verified));
        acc = acc + opt_bool(9, p.compiler_verified);
        assert(acc =~= inference_fields(p@));
    }
    buf
}

/// The effect of one decoded field on a thought.
pub open spec fn thought_apply(m: ThoughtNodeView, t: u32, v: FieldValue) -> Result<ThoughtNodeView, WireError> {
    match v {
        FieldValue::Fixed32(x) => if t == 3 {
            Ok(ThoughtNodeView { confidence: x, ..m })
        } else {
            Ok(m)
        },
        FieldValue::Bytes(b) => if t == 1 || t == 2 || t == 4 {
            match utf8_payload(b) {
                Ok(cs) => if t == 1 {
                    Ok(ThoughtNodeView { step_id: cs, ..m })
                } else if t == 2 {
                    Ok(ThoughtNodeView { reasoning: cs, ..m })
                } else {
                    Ok(ThoughtNodeView { evidence_refs: m.evidence_refs.push(cs), ..m })
                },
                Err(e) => Err(e),
            }
        } else {
            Ok(m)
        },
        _ => Ok(m),
    }
}

/// [`thought_apply`] as a value.
pub open spec fn thought_applier() -> spec_fn(ThoughtNodeView, u32, FieldValue) -> Result<ThoughtNodeView, WireError> {
    |m: ThoughtNodeView, t: u32, v: FieldValue| thought_apply(m, t, v)
}

/// What decoding `s` as a thought gives.
pub open spec fn thought_decode(s: Seq<u8>) -> Result<ThoughtNodeView, WireError> {
    wire::stream_decode(MessageKind::ThoughtNode, thought_default(), s, thought_applier_in())
}

/// [`thought_apply`] as a value that also takes the bytes after the field,
/// which it does not look at.
pub open spec fn thought_applier_in() -> spec_fn(ThoughtNodeView, u32, FieldValue, Seq<u8>) -> Result<ThoughtNodeView, WireError> {
    |m: ThoughtNodeView, t: u32, v: FieldValue, tail: Seq<u8>| thought_apply(m, t, v)
}

/// The effect of one decoded field on a packet.
pub open spec fn inference_apply(m: InferencePacketView, t: u32, v: FieldValue) -> Result<InferencePacketView, WireError> {
    match v {
        FieldValue::Varint(x) => if t == 2 {
            Ok(InferencePacketView { query_type: int32_of(x), ..m })
        } else if t == 7 {
            Ok(InferencePacketView { requires_clarification: x != 0, ..m })
        } else if t == 8 {
            Ok(InferencePacketView { context_window_used: int32_of(x), ..m })
        } else if t == 9 {
            Ok(InferencePacketView { compiler_verified: x != 0, ..m })
        } else {
            Ok(m)
        },
        FieldValue::Fixed32(x) => if t == 3 {
            Ok(InferencePacketView { confidence_threshold: x, ..m })
        } else if t == 6 {
            Ok(InferencePacketView { overall_confidence: x, ..m })
        } else {
            Ok(m)
        },
        FieldValue::Bytes(b) => if t == 1 || t == 5 {
            match utf8_payload(b) {
                Ok(cs) => if t == 1 {
                    Ok(InferencePacketView { session_id: cs, ..m })
                } else {
                    Ok(InferencePacketView { final_answer: cs, ..m })
                },
                Err(e) => Err(e),
            }
        } else if t == 4 {
            match thought_decode(b) {
                Ok(n) => Ok(InferencePacketView { chain_of_thought: m.chain_of_thought.push(n), ..m }),
                Err(e) => Err(e),
            }
        } else {
            Ok(m)
        },
        FieldValue::Skipped => Ok(m),
    }
}

/// [`inference_apply`] as a value.
pub open spec fn inference_applier() -> spec_fn(InferencePacketView, u32, FieldValue) -> Result<InferencePacketView, WireError> {
    |m: InferencePacketView, t: u32, v: FieldValue| inference_apply(m, t, v)
}

/// What decoding `s` as a packet gives.
pub open spec fn inference_decode(s: Seq<u8>) -> Result<InferencePacketView, WireError> {
    wire::stream_decode(MessageKind::InferencePacket, inference_default(), s, inference_applier_in())
}

/// The effect of one decoded field on a inference when `tail` follows it: as
/// [`inference_apply`], but an embedded message is read in place, where it may
/// run into `tail`.
pub open spec fn inference_apply_in(m: InferencePacketView, t: u32, v: FieldValue, tail: Seq<u8>) -> Result<InferencePacketView, WireError> {
    match v {
        FieldValue::Bytes(b) => if t == 4 {
            match wire::stream_limited(MessageKind::ThoughtNode, thought_default(), b + tail, b.len() as int, thought_applier_in()) {
                Ok(n) => Ok(InferencePacketView { chain_of_thought: m.chain_of_thought.push(n), ..m }),
                Err(e) => Err(e),
            }
        } else {
            inference_apply(m, t, v)
        },
        _ => inference_apply(m, t, v),
    }
}

/// [`inference_apply_in`] as a value.
pub open spec fn inference_applier_in() -> spec_fn(InferencePacketView, u32, FieldValue, Seq<u8>) -> Result<InferencePacketView, WireError> {
    |m: InferencePacketView, t: u32, v: FieldValue, tail: Seq<u8>| inference_apply_in(m, t, v, tail)
}

/// A field that applies on its own bytes applies the same in place.
pub proof fn lemma_inference_apply_in(m: InferencePacketView, t: u32, v: FieldValue, tail: Seq<u8>)
    ensures
        inference_apply(m, t, v) is Ok ==> inference_apply_in(m, t, v, tail) == inference_apply(m, t, v),
{
    if let FieldValue::Bytes(b) = v {
        if t == 4 && inference_apply(m, t, v) is Ok {
            wire::lemma_limited_prefix(MessageKind::ThoughtNode, thought_default(), b, tail, thought_applier_in());
        }
    }
}

fn apply_thought_field(m: &mut ThoughtNode, t: u32, w: WireValue, s: &[u8]) -> (r: Result<(), WireError>)
    requires
        value_in_bounds(s@.len(), w),
    ensures
        match thought_apply(old(m)@, t, wire::value_view(s@, w)) {
            Ok(n) => r is Ok && final(m)@ == n,
            Err(e) => r == Err::<(), WireError>(e),
        },
{
    match w {
        WireValue::Fixed32(x) => {
            if t == 3 {
                m.confidence = x;
            }
            Ok(())
        },
        WireValue::Bytes(a, b) => {
            if t == 1 || t == 2 || t == 4 {
                match wire::read_string(s, a, b) {
                    Ok(st) => {
                        if t == 1 {
                            m.step_id = st;
                        } else if t == 2 {
                            m.reasoning = st;
                        } else {
                            let ghost before = m.evidence_refs@;
                            m.evidence_refs.push(st);
                            assert(strings_view(m.evidence_refs@) =~= strings_view(before).push(
                                st@,
                            ));
                        }
                        Ok(())
                    },
                    Err(e) => Err(e),
                }
            } else {
                Ok(())
            }
        },
        _ => Ok(()),
    }
}

/// Decodes a thought.
pub fn decode_thought(s: &[u8]) -> (r: Result<ThoughtNode, WireError>)
    ensures
        match thought_decode(s@) {
            Ok(n) => r matches Ok(x) && x@ == n,
            Err(e) => r matches Err(e2) && e2 == e,
        },
{
    let mut cur = ThoughtNode::default();
    let mut pos: usize = 0;
    assert(s@.skip(0) =~= s@);
    while pos < s.len()
        invariant
            pos <= s@.len(),
            thought_decode(s@) == wire::stream_decode(MessageKind::ThoughtNode, cur@, s@.skip(pos as int), thought_applier_in()),
        decreases s@.len() - pos,
    {
        let ghost rest = s@.skip(pos as int);
        proof {
            wire::lemma_read_field_bounds(MessageKind::ThoughtNode, rest);
        }
        match wire::read_field(MessageKind::ThoughtNode, s, pos) {
            Err(e) => return Err(e),
            Ok((t, w, p)) => {
                assert(rest.skip((p - pos) as int) =~= s@.skip(p as int));
                match apply_thought_field(&mut cur, t, w, s) {
                    Ok(()) => {},
                    Err(e) => return Err(e.push(MessageKind::ThoughtNode, t)),
                }
                pos = p;
            },
        }
    }
    Ok(cur)
}

/// Decodes the embedded ThoughtNode at `a..b` of `s` in place: fields are read
/// from `s` while they start before `b`, and the last must end at `b`.
fn decode_thought_in(s: &[u8], a: usize, b: usize) -> (r: Result<ThoughtNode, WireError>)
    requires
        a <= b <= s@.len(),
    ensures
        match wire::stream_limited(MessageKind::ThoughtNode, thought_default(), s@.skip(a as int), (b - a) as int, thought_applier_in()) {
            Ok(n) => r matches Ok(x) && x@ == n,
            Err(e) => r matches Err(e2) && e2 == e,
        },
{
    let mut cur = ThoughtNode::default();
    let mut pos: usize = a;
    while pos < b
        invariant
            a <= pos <= s@.len(),
            b <= s@.len(),
            wire::stream_limited(MessageKind::ThoughtNode, thought_default(), s@.skip(a as int), (b - a) as int, thought_applier_in())
                == wire::stream_limited(MessageKind::ThoughtNode, cur@, s@.skip(pos as int), b - pos, thought_applier_in()),
        decreases s@.len() - pos,
    {
        let ghost rest = s@.skip(pos as int);
        proof {
            wire::lemma_read_field_bounds(MessageKind::ThoughtNode, rest);
        }
        match wire::read_field(MessageKind::ThoughtNode, s, pos) {
            Err(e) => return Err(e),
            Ok((t, w, p)) => {
                assert(rest.skip((p - pos) as int) =~= s@.skip(p as int));
                match apply_thought_field(&mut cur, t, w, s) {
                    Ok(()) => {},
                    Err(e) => return Err(e.push(MessageKind::ThoughtNode, t)),
                }
                pos = p;
            },
        }
    }
    if pos != b {
        return Err(WireError::of(Fault::DelimitedLengthExceeded));
    }
    Ok(cur)
}

fn apply_inference_field(m: &mut InferencePacket, t: u32, w: WireValue, s: &[u8], p: usize) -> (r: Result<(), WireError>)
    requires
        value_in_bounds(s@.len(), w),
        p <= s@.len(),
        w matches WireValue::Bytes(a, b) ==> b == p,
    ensures
        match inference_apply_in(old(m)@, t, wire::value_view(s@, w), s@.skip(p as int)) {
            Ok(p) => r is Ok && final(m)@ == p,
            Err(e) => r == Err::<(), WireError>(e),
        },
{
    match w {
        WireValue::Varint(x) => {
            if t == 2 {
                m.query_type = int32_from_wire(x);
            } else if t == 7 {
                m.requires_clarification = x != 0;
            } else if t == 8 {
                m.context_window_used = int32_from_wire(x);
            } else if t == 9 {
                m.compiler_verified = x != 0;
            }
            Ok(())
        },
        WireValue::Fixed32(x) => {
            if t == 3 {
                m.confidence_threshold = x;
            } else if t == 6 {
                m.overall_confidence = x;
            }
            Ok(())
        },
        WireValue::Bytes(a, b) => {
            if t == 1 || t == 5 {
                match wire::read_string(s, a, b) {
                    Ok(st) => {
                        if t == 1 {
                            m.session_id = st;
                        } else {
                            m.final_answer = st;
                        }
                        Ok(())
                    },
                    Err(e) => Err(e),
                }
            } else if t == 4 {
                assert(s@.skip(a as int) =~= s@.subrange(a as int, b as int) + s@.skip(b as int));
                match decode_thought_in(s, a, b) {
                    Ok(n) => {
                        let ghost before = m.chain_of_thought@;
                        m.chain_of_thought.push(n);
                        assert(thoughts_view(m.chain_of_thought@) =~= thoughts_view(before).push(
                            n@,
                        ));
                        Ok(())
                    },
                    Err(e) => Err(e),
                }
            } else {
                Ok(())
            }
        },
        WireValue::Skipped => Ok(()),
    }
}

/// Decodes a packet as `prost` would.
/// Fields are read and applied one by one, embedded messages in place, so
/// the error is the first `prost` meets, with the fields it passed through.
pub fn decode_inference(s: &[u8]) -> (r: Result<InferencePacket, WireError>)
    ensures
        match inference_decode(s@) {
            Ok(p) => r matches Ok(x) && x@ == p,
            Err(e) => r matches Err(e2) && e2 == e,
        },
{
    let mut cur = InferencePacket::default();
    let mut pos: usize = 0;
    assert(s@.skip(0) =~= s@);
    while pos < s.len()
        invariant
            pos <= s@.len(),
            inference_decode(s@) == wire::stream_decode(MessageKind::InferencePacket, cur@, s@.skip(pos as int), inference_applier_in()),
        decreases s@.len() - pos,
    {
        let ghost rest = s@.skip(pos as int);
        proof {
            wire::lemma_read_field_bounds(MessageKind::InferencePacket, rest);
        }
        match wire::read_field(MessageKind::InferencePacket, s, pos) {
            Err(e) => return Err(e),
            Ok((t, w, p)) => {
                assert(rest.skip((p - pos) as int) =~= s@.skip(p as int));
                match apply_inference_field(&mut cur, t, w, s, p) {
                    Ok(()) => {},
                    Err(e) => return Err(e.push(MessageKind::InferencePacket, t)),
                }
                pos = p;
            },
        }
    }
    Ok(cur)
}

} // verus!

verus! {

/// A thought that survives encoding: its confidence is not negative zero
/// and its strings fit the wire's length prefix.
pub open spec fn thought_keeps(n: ThoughtNodeView) -> bool {
    &&& fits(n.step_id)
    &&& fits(n.reasoning)
    &&& n.confidence != 0x8000_0000
    &&& forall|i: int| 0 <= i < n.evidence_refs.len() ==> fits(#[trigger] n.evidence_refs[i])
}

/// A packet that survives encoding: no float field is negative zero and
/// every string and thought fits the wire's length prefix.
pub open spec fn inference_keeps(p: InferencePacketView) -> bool {
    &&& fits(p.session_id)
    &&& fits(p.final_answer)
    &&& p.confidence_threshold != 0x8000_0000
    &&& p.overall_confidence != 0x8000_0000
    &&& forall|i: int| 0 <= i < p.chain_of_thought.len() ==> thought_keeps(#[trigger] p.chain_of_thought[i])
        && thought_bytes(p.chain_of_thought[i]).len() < 0x1_0000_0000_0000_0000
}

proof fn lemma_fold_refs(m: ThoughtNodeView, xs: Seq<Seq<char>>)
    ensures
        fold_fields(m, string_list(4, xs), thought_applier()) == Ok::<ThoughtNodeView, WireError>(
            ThoughtNodeView { evidence_refs: m.evidence_refs + xs, ..m },
        ),
    decreases xs.len(),
{
    let ap = thought_applier();
    if xs.len() == 0 {
        assert(string_list(4, xs) =~= Seq::<(u32, FieldValue)>::empty());
        assert(m.evidence_refs + xs =~= m.evidence_refs);
    } else {
        let init = xs.drop_last();
        let last = xs.last();
        let one = seq![(4u32, FieldValue::Bytes(vstd::utf8::encode_utf8(last)))];
        assert(string_list(4, xs) =~= string_list(4, init) + one);
        lemma_fold_refs(m, init);
        let m1 = ThoughtNodeView { evidence_refs: m.evidence_refs + init, ..m };
        wire::lemma_fold_concat(m, string_list(4, init), one, ap);
        wire::lemma_fold_single(m1, 4, FieldValue::Bytes(vstd::utf8::encode_utf8(last)), ap);
        wire::lemma_utf8_payload_roundtrip(last);
        assert((m.evidence_refs + init).push(last) =~= m.evidence_refs + xs);
    }
}

/// Decoding an encoded thought gives it back.
pub proof fn lemma_thought_roundtrip(n: ThoughtNodeView)
    requires
        thought_keeps(n),
    ensures
        thought_decode(thought_bytes(n)) == Ok::<ThoughtNodeView, WireError>(n),
{
    let k = MessageKind::ThoughtNode;
    let p1 = opt_string(1, n.step_id);
    let p2 = opt_string(2, n.reasoning);
    let p3 = opt_float(3, n.confidence);
    let p4 = string_list(4, n.evidence_refs);
    wire::lemma_opt_string_ok(k, 1, n.step_id);
    wire::lemma_opt_string_ok(k, 2, n.reasoning);
    wire::lemma_opt_float_ok(k, 3, n.confidence);
    wire::lemma_string_list_ok(k, 4, n.evidence_refs);
    wire::lemma_fields_ok_concat(k, p1, p2);
    wire::lemma_fields_ok_concat(k, p1 + p2, p3);
    wire::lemma_fields_ok_concat(k, p1 + p2 + p3, p4);
    wire::lemma_parse_encode_fields(k, thought_fields(n));
    let ap = thought_applier();
    let m0 = thought_default();
    let m1 = ThoughtNodeView { step_id: n.step_id, ..m0 };
    let m2 = ThoughtNodeView { reasoning: n.reasoning, ..m1 };
    let m3 = ThoughtNodeView { confidence: n.confidence, ..m2 };
    assert(fold_fields(m0, p1, ap) == Ok::<ThoughtNodeView, WireError>(m1)) by {
        wire::lemma_utf8_payload_roundtrip(n.step_id);
        wire::lemma_fold_opt_string(m0, 1, n.step_id, ap);
        if n.step_id.len() == 0 {
            assert(m0.step_id =~= n.step_id);
        }
    }
    assert(fold_fields(m1, p2, ap) == Ok::<ThoughtNodeView, WireError>(m2)) by {
        wire::lemma_utf8_payload_roundtrip(n.reasoning);
        wire::lemma_fold_opt_string(m1, 2, n.reasoning, ap);
        if n.reasoning.len() == 0 {
            assert(m1.reasoning =~= n.reasoning);
        }
    }
    assert(fold_fields(m2, p3, ap) == Ok::<ThoughtNodeView, WireError>(m3)) by {
        wire::lemma_fold_opt_float(m2, 3, n.confidence, ap);
    }
    lemma_fold_refs(m3, n.evidence_refs);
    assert(m3.evidence_refs + n.evidence_refs =~= n.evidence_refs);
    wire::lemma_fold_concat(m0, p1, p2, ap);
    wire::lemma_fold_concat(m0, p1 + p2, p3, ap);
    wire::lemma_fold_concat(m0, p1 + p2 + p3, p4, ap);
    wire::lemma_stream_is_fold(MessageKind::ThoughtNode, thought_default(), thought_bytes(n), thought_applier_in(), thought_applier());
}

proof fn lemma_thought_list_ok(ns: Seq<ThoughtNodeView>)
    requires
        forall|i: int| 0 <= i < ns.len() ==> thought_bytes(#[trigger] ns[i]).len() < 0x1_0000_0000_0000_0000,
    ensures
        wire::fields_ok(MessageKind::InferencePacket, thought_list(ns)),
{
    assert forall|i: int| 0 <= i < thought_list(ns).len() implies wire::field_ok(
        MessageKind::InferencePacket,
        #[trigger] thought_list(ns)[i].0,
        thought_list(ns)[i].1,
    ) by {
        assert(thought_bytes(ns[i]).len() < 0x1_0000_0000_0000_0000);
    }
}

proof fn lemma_fold_thought_list(m: InferencePacketView, ns: Seq<ThoughtNodeView>)
    requires
        forall|i: int| 0 <= i < ns.len() ==> thought_keeps(#[trigger] ns[i]),
    ensures
        fold_fields(m, thought_list(ns), inference_applier()) == Ok::<InferencePacketView, WireError>(
            InferencePacketView { chain_of_thought: m.chain_of_thought + ns, ..m },
        ),
    decreases ns.len(),
{
    let ap = inference_applier();
    if ns.len() == 0 {
        assert(thought_list(ns) =~= Seq::<(u32, FieldValue)>::empty());
        assert(m.chain_of_thought + ns =~= m.chain_of_thought);
    } else {
        let init = ns.drop_last();
        let last = ns.last();
        let one = seq![(4u32, FieldValue::Bytes(thought_bytes(last)))];
        assert(thought_list(ns) =~= thought_list(init) + one);
        assert forall|i: int| 0 <= i < init.len() implies thought_keeps(#[trigger] init[i]) by {
            assert(init[i] == ns[i]);
        }
        assert(thought_keeps(ns[ns.len() - 1]));
        lemma_fold_thought_list(m, init);
        let m1 = InferencePacketView { chain_of_thought: m.chain_of_thought + init, ..m };
        wire::lemma_fold_concat(m, thought_list(init), one, ap);
        wire::lemma_fold_single(m1, 4, FieldValue::Bytes(thought_bytes(last)), ap);
        lemma_thought_roundtrip(last);
        assert((m.chain_of_thought + init).push(last) =~= m.chain_of_thought + ns);
    }
}

proof fn lemma_inference_fields_ok(p: InferencePacketView)
    requires
        inference_keeps(p),
    ensures
        wire::fields_ok(MessageKind::InferencePacket, inference_fields(p)),
{
    let k = MessageKind::InferencePacket;
    let p1 = opt_string(1, p.session_id);
    let p2 = opt_int32(2, p.query_type);
    let p3 = opt_float(3, p.confidence_threshold);
    let p4 = thought_list(p.chain_of_thought);
    let p5 = opt_string(5, p.final_answer);
    let p6 = opt_float(6, p.overall_confidence);
    let p7 = opt_bool(7, p.requires_clarification);
    let p8 = opt_int32(8, p.context_window_used);
    let p9 = opt_bool(9, p.compiler_verified);
    wire::lemma_opt_string_ok(k, 1, p.session_id);
    wire::lemma_opt_int32_ok(k, 2, p.query_type);
    wire::lemma_opt_float_ok(k, 3, p.confidence_threshold);
    lemma_thought_list_ok(p.chain_of_thought);
    wire::lemma_opt_string_ok(k, 5, p.final_answer);
    wire::lemma_opt_float_ok(k, 6, p.overall_confidence);
    wire::lemma_opt_bool_ok(k, 7, p.requires_clarification);
    wire::lemma_opt_int32_ok(k, 8, p.context_window_used);
    wire::lemma_opt_bool_ok(k, 9, p.compiler_verified);
    wire::lemma_fields_ok_concat(k, p1, p2);
    wire::lemma_fields_ok_concat(k, p1 + p2, p3);
    wire::lemma_fields_ok_concat(k, p1 + p2 + p3, p4);
    wire::lemma_fields_ok_concat(k, p1 + p2 + p3 + p4, p5);
    wire::lemma_fields_ok_concat(k, p1 + p2 + p3 + p4 + p5, p6);
    wire::lemma_fields_ok_concat(k, p1 + p2 + p3 + p4 + p5 + p6, p7);
    wire::lemma_fields_ok_concat(k, p1 + p2 + p3 + p4 + p5 + p6 + p7, p8);
    wire::lemma_fields_ok_concat(k, p1 + p2 + p3 + p4 + p5 + p6 + p7 + p8, p9);
}

#[verifier::rlimit(50)]
proof fn lemma_inference_fold(p: InferencePacketView)
    requires
        inference_keeps(p),
    ensures
        fold_fields(inference_default(), inference_fields(p), inference_applier()) == Ok::<InferencePacketView, WireError>(p),
{
    let p1 = opt_string(1, p.session_id);
    let p2 = opt_int32(2, p.query_type);
    let p3 = opt_float(3, p.confidence_threshold);
    let p4 = thought_list(p.chain_of_thought);
    let p5 = opt_string(5, p.final_answer);
    let p6 = opt_float(6, p.overall_confidence);
    let p7 = opt_bool(7, p.requires_clarification);
    let p8 = opt_int32(8, p.context_window_used);
    let p9 = opt_bool(9, p.compiler_verified);
    let ap = inference_applier();
    let m0 = inference_default();
    let m1 = InferencePacketView { session_id: p.session_id, ..m0 };
    let m2 = InferencePacketView { query_type: p.query_type, ..m1 };
    let m3 = InferencePacketView { confidence_threshold: p.confidence_threshold, ..m2 };
    let m4 = InferencePacketView { chain_of_thought: p.chain_of_thought, ..m3 };
    let m5 = InferencePacketView { final_answer: p.final_answer, ..m4 };
    let m6 = InferencePacketView { overall_confidence: p.overall_confidence, ..m5 };
    let m7 = InferencePacketView { requires_clarification: p.requires_clarification, ..m6 };
    let m8 = InferencePacketView { context_window_used: p.context_window_used, ..m7 };
    let m9 = InferencePacketView { compiler_verified: p.compiler_verified, ..m8 };
    assert(fold_fields(m0, p1, ap) == Ok::<InferencePacketView, WireError>(m1)) by {
        wire::lemma_utf8_payload_roundtrip(p.session_id);
        wire::lemma_fold_opt_string(m0, 1, p.session_id, ap);
        if p.session_id.len() == 0 {
            assert(m0.session_id =~= p.session_id);
        }
    }
    assert(fold_fields(m1, p2, ap) == Ok::<InferencePacketView, WireError>(m2)) by {
        wire::lemma_int32_roundtrip(p.query_type);
        wire::lemma_fold_opt_int32(m1, 2, p.query_type, ap);
    }
    assert(fold_fields(m2, p3, ap) == Ok::<InferencePacketView, WireError>(m3)) by {
        wire::lemma_fold_opt_float(m2, 3, p.confidence_threshold, ap);
    }
    assert(fold_fields(m3, p4, ap) == Ok::<InferencePacketView, WireError>(m4)) by {
        assert forall|i: int| 0 <= i < p.chain_of_thought.len() implies thought_keeps(
            #[trigger] p.chain_of_thought[i],
        ) by {}
        lemma_fold_thought_list(m3, p.chain_of_thought);
        assert(m3.chain_of_thought + p.chain_of_thought =~= p.chain_of_thought);
    }
    assert(fold_fields(m4, p5, ap) == Ok::<InferencePacketView, WireError>(m5)) by {
        wire::lemma_utf8_payload_roundtrip(p.final_answer);
        wire::lemma_fold_opt_string(m4, 5, p.final_answer, ap);
        if p.final_answer.len() == 0 {
            assert(m4.final_answer =~= p.final_answer);
        }
    }
    assert(fold_fields(m5, p6, ap) == Ok::<InferencePacketView, WireError>(m6)) by {
        wire::lemma_fold_opt_float(m5, 6, p.overall_confidence, ap);
    }
    assert(fold_fields(m6, p7, ap) == Ok::<InferencePacketView, WireError>(m7)) by {
        wire::lemma_fold_opt_bool(m6, 7, p.requires_clarification, ap);
    }
    assert(fold_fields(m7, p8, ap) == Ok::<InferencePacketView, WireError>(m8)) by {
        wire::lemma_int32_roundtrip(p.context_window_used);
        wire::lemma_fold_opt_int32(m7, 8, p.context_window_used, ap);
    }
    assert(fold_fields(m8, p9, ap) == Ok::<InferencePacketView, WireError>(m9)) by {
        wire::lemma_fold_opt_bool(m8, 9, p.compiler_verified, ap);
    }
    wire::lemma_fold_concat(m0, p1, p2, ap);
    wire::lemma_fold_concat(m0, p1 + p2, p3, ap);
    wire::lemma_fold_concat(m0, p1 + p2 + p3, p4, ap);
    wire::lemma_fold_concat(m0, p1 + p2 + p3 + p4, p5, ap);
    wire::lemma_fold_concat(m0, p1 + p2 + p3 + p4 + p5, p6, ap);
    wire::lemma_fold_concat(m0, p1 + p2 + p3 + p4 + p5 + p6, p7, ap);
    wire::lemma_fold_concat(m0, p1 + p2 + p3 + p4 + p5 + p6 + p7, p8, ap);
    wire::lemma_fold_concat(m0, p1 + p2 + p3 + p4 + p5 + p6 + p7 + p8, p9, ap);
    assert(m9 == p);
}

/// Decoding an encoded packet gives it back, for every packet whose float
/// fields are not negative zero.
pub proof fn lemma_inference_roundtrip(p: InferencePacketView)
    requires
        inference_keeps(p),
    ensures
        inference_decode(inference_bytes(p)) == Ok::<InferencePacketView, WireError>(p),
{
    lemma_inference_fields_ok(p);
    wire::lemma_parse_encode_fields(MessageKind::InferencePacket, inference_fields(p));
    lemma_inference_fold(p);
    assert forall|m2: InferencePacketView, t: u32, v: FieldValue, tail: Seq<u8>| inference_applier()(m2, t, v) is Ok implies
        #[trigger] inference_applier_in()(m2, t, v, tail) == inference_applier()(m2, t, v) by {
        lemma_inference_apply_in(m2, t, v, tail);
    }
    wire::lemma_stream_is_fold(MessageKind::InferencePacket, inference_default(), inference_bytes(p), inference_applier_in(), inference_applier());
}

} // verus!

verus! {

/// Each field of a reasoning step is written under the field number of the
/// schema: a step with only one field set encodes as that one field
/// (step_id 1, reasoning 2, confidence 3, one evidence reference 4).
pub proof fn lemma_thought_field_numbers(s: Seq<char>, f: u32)
    ensures
        thought_bytes(ThoughtNodeView { step_id: s, ..thought_default() }) == encode_fields(opt_string(1, s)),
        thought_bytes(ThoughtNodeView { reasoning: s, ..thought_default() }) == encode_fields(opt_string(2, s)),
        thought_bytes(ThoughtNodeView { confidence: f, ..thought_default() }) == encode_fields(opt_float(3, f)),
        thought_bytes(ThoughtNodeView { evidence_refs: seq![s], ..thought_default() }) == encode_fields(
            seq![(4u32, FieldValue::Bytes(vstd::utf8::encode_utf8(s)))],
        ),
{
    let z = thought_default();
    assert(string_list(4, z.evidence_refs) =~= Seq::<(u32, FieldValue)>::empty());
    assert(thought_fields(ThoughtNodeView { step_id: s, ..z }) =~= opt_string(1, s));
    assert(thought_fields(ThoughtNodeView { reasoning: s, ..z }) =~= opt_string(2, s));
    assert(thought_fields(ThoughtNodeView { confidence: f, ..z }) =~= opt_float(3, f));
    assert(thought_fields(ThoughtNodeView { evidence_refs: seq![s], ..z }) =~= seq![
        (4u32, FieldValue::Bytes(vstd::utf8::encode_utf8(s))),
    ]);
}

/// Each field of an inference packet is written under the field number of
/// the schema: a packet with only one field set encodes as that one field
/// (session_id 1, query_type 2, confidence_threshold 3, one reasoning step
/// 4, final_answer 5, overall_confidence 6, requires_clarification 7,
/// context_window_used 8, compiler_verified 9), and an `int32` or `bool`
/// field read back from such a packet lands in the field of that number.
pub proof fn lemma_inference_field_numbers(x: i32, f: u32, b: bool, s: Seq<char>, n: ThoughtNodeView)
    ensures
        inference_bytes(InferencePacketView { session_id: s, ..inference_default() }) == encode_fields(
            opt_string(1, s),
        ),
        inference_bytes(InferencePacketView { query_type: x, ..inference_default() }) == encode_fields(
            opt_int32(2, x),
        ),
        inference_bytes(InferencePacketView { confidence_threshold: f, ..inference_default() }) == encode_fields(
            opt_float(3, f),
        ),
        inference_bytes(InferencePacketView { chain_of_thought: seq![n], ..inference_default() }) == encode_fields(
            seq![(4u32, FieldValue::Bytes(thought_bytes(n)))],
        ),
        inference_bytes(InferencePacketView { final_answer: s, ..inference_default() }) == encode_fields(
            opt_string(5, s),
        ),
        inference_bytes(InferencePacketView { overall_confidence: f, ..inference_default() }) == encode_fields(
            opt_float(6, f),
        ),
        inference_bytes(InferencePacketView { requires_clarification: b, ..inference_default() }) == encode_fields(
            opt_bool(7, b),
        ),
        inference_bytes(InferencePacketView { context_window_used: x, ..inference_default() }) == encode_fields(
            opt_int32(8, x),
        ),
        inference_bytes(InferencePacketView { compiler_verified: b, ..inference_default() }) == encode_fields(
            opt_bool(9, b),
        ),
        inference_decode(encode_fields(opt_int32(2, x))) == Ok::<InferencePacketView, WireError>(
            InferencePacketView { query_type: x, ..inference_default() },
        ),
        inference_decode(encode_fields(opt_bool(7, b))) == Ok::<InferencePacketView, WireError>(
            InferencePacketView { requires_clarification: b, ..inference_default() },
        ),
        inference_decode(encode_fields(opt_int32(8, x))) == Ok::<InferencePacketView, WireError>(
            InferencePacketView { context_window_used: x, ..inference_default() },
        ),
        inference_decode(encode_fields(opt_bool(9, b))) == Ok::<InferencePacketView, WireError>(
            InferencePacketView { compiler_verified: b, ..inference_default() },
        ),
{
    let z = inference_default();
    assert(thought_list(z.chain_of_thought) =~= Seq::<(u32, FieldValue)>::empty());
    assert(fits(z.session_id) && fits(z.final_answer)) by {
        assert(z.session_id =~= Seq::<char>::empty());
    }
    assert(inference_fields(InferencePacketView { session_id: s, ..z }) =~= opt_string(1, s));
    assert(inference_fields(InferencePacketView { query_type: x, ..z }) =~= opt_int32(2, x));
    assert(inference_fields(InferencePacketView { confidence_threshold: f, ..z }) =~= opt_float(3, f));
    assert(inference_fields(InferencePacketView { chain_of_thought: seq![n], ..z }) =~= seq![
        (4u32, FieldValue::Bytes(thought_bytes(n))),
    ]);
    assert(inference_fields(InferencePacketView { final_answer: s, ..z }) =~= opt_string(5, s));
    assert(inference_fields(InferencePacketView { overall_confidence: f, ..z }) =~= opt_float(6, f));
    assert(inference_fields(InferencePacketView { requires_clarification: b, ..z }) =~= opt_bool(7, b));
    assert(inference_fields(InferencePacketView { context_window_used: x, ..z }) =~= opt_int32(8, x));
    assert(inference_fields(InferencePacketView { compiler_verified: b, ..z }) =~= opt_bool(9, b));
    lemma_inference_roundtrip(InferencePacketView { query_type: x, ..z });
    lemma_inference_roundtrip(InferencePacketView { requires_clarification: b, ..z });
    lemma_inference_roundtrip(InferencePacketView { context_window_used: x, ..z });
    lemma_inference_roundtrip(InferencePacketView { compiler_verified: b, ..z });
}

} // verus!
