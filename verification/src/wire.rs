//! Protobuf wire format: the byte-level statement of what each field
//! encoding writes, the calls into `prost::encoding` that write them, and
//! the field reader used by the message decoders.

use vstd::prelude::*;
use vstd::string::StringExecFns;
use crate::frame::le32;
use crate::text::decimal;

verus! {

/// Largest field number the wire format admits.
pub const MAX_TAG: u32 = 0x1FFF_FFFF;

/// 128 to the power `k`.
pub open spec fn pow128(k: nat) -> nat
    decreases k,
{
    if k == 0 {
        1
    } else {
        128 * pow128((k - 1) as nat)
    }
}

/// LEB128 bytes of `v`: seven bits per byte, low group first, high bit set
/// on every byte but the last.
pub open spec fn varint(v: nat) -> Seq<u8>
    decreases v,
{
    if v < 128 {
        seq![v as u8]
    } else {
        seq![(v % 128 + 128) as u8] + varint(v / 128)
    }
}

/// Reads a varint starting at byte `k` of `s` the way `prost` does: at most
/// ten bytes, and a tenth byte must be 0 or 1. Gives the value contributed
/// from byte `k` on and the index just past the varint.
pub open spec fn varint_at(s: Seq<u8>, k: nat) -> Option<(int, nat)>
    decreases 10 - k,
{
    if k >= 10 || k >= s.len() {
        None
    } else if s[k as int] < 128 {
        if k == 9 && s[k as int] >= 2 {
            None
        } else {
            Some((s[k as int] * pow128(k), k + 1))
        }
    } else {
        match varint_at(s, k + 1) {
            Some((v, n)) => Some((v + (s[k as int] - 128) * pow128(k), n)),
            None => None,
        }
    }
}

/// A varint at the start of `s`: its value and its length in bytes.
pub open spec fn read_varint_spec(s: Seq<u8>) -> Option<(int, nat)> {
    varint_at(s, 0)
}

/// Bytes of a field key.
pub open spec fn key_bytes(tag: nat, wire_type: nat) -> Seq<u8> {
    varint(tag * 8 + wire_type)
}

/// The unsigned value an `int32` takes on the wire (sign-extended to 64 bits).
pub open spec fn int32_wire(v: i32) -> nat {
    if v >= 0 {
        v as nat
    } else {
        (v + 0x1_0000_0000_0000_0000) as nat
    }
}

/// An `int32` field (wire type 0).
pub open spec fn int32_field(tag: u32, v: i32) -> Seq<u8> {
    key_bytes(tag as nat, 0) + varint(int32_wire(v))
}

/// A `bool` field (wire type 0).
pub open spec fn bool_field(tag: u32, b: bool) -> Seq<u8> {
    key_bytes(tag as nat, 0) + varint(if b { 1 } else { 0 })
}

/// A 32-bit fixed-width field (wire type 5), as `float` fields are written:
/// the little-endian bytes of the IEEE-754 bit pattern.
pub open spec fn fixed32_field(tag: u32, bits: u32) -> Seq<u8> {
    key_bytes(tag as nat, 5) + le32(bits)
}

/// A length-delimited field (wire type 2).
pub open spec fn len_field(tag: u32, payload: Seq<u8>) -> Seq<u8> {
    key_bytes(tag as nat, 2) + varint(payload.len()) + payload
}

/// Calls `prost::encoding::int32::encode`, which writes the key and the
/// sign-extended varint of `value`.
#[verifier::external_body]
pub(crate) fn put_int32(tag: u32, value: i32, buf: &mut Vec<u8>)
    requires
        1 <= tag <= MAX_TAG,
    ensures
        final(buf)@ == old(buf)@ + int32_field(tag, value),
{
    prost::encoding::int32::encode(tag, &value, buf)
}

/// Calls `prost::encoding::bool::encode`, which writes the key and a varint 1 or 0.
#[verifier::external_body]
pub(crate) fn put_bool(tag: u32, value: bool, buf: &mut Vec<u8>)
    requires
        1 <= tag <= MAX_TAG,
    ensures
        final(buf)@ == old(buf)@ + bool_field(tag, value),
{
    prost::encoding::bool::encode(tag, &value, buf)
}

/// Calls `prost::encoding::fixed32::encode`, which writes the key and the
/// four little-endian bytes of `value`.
#[verifier::external_body]
pub(crate) fn put_fixed32(tag: u32, value: u32, buf: &mut Vec<u8>)
    requires
        1 <= tag <= MAX_TAG,
    ensures
        final(buf)@ == old(buf)@ + fixed32_field(tag, value),
{
    prost::encoding::fixed32::encode(tag, &value, buf)
}

/// Calls `prost::encoding::string::encode`, which writes the key, the byte
/// length and the UTF-8 bytes of `value`.
#[verifier::external_body]
pub(crate) fn put_string(tag: u32, value: &String, buf: &mut Vec<u8>)
    requires
        1 <= tag <= MAX_TAG,
    ensures
        final(buf)@ == old(buf)@ + len_field(tag, vstd::utf8::encode_utf8(value@)),
{
    prost::encoding::string::encode(tag, value, buf)
}

/// Calls `prost::encoding::bytes::encode`, which writes the key, the length
/// and the bytes of `value`.
#[verifier::external_body]
pub(crate) fn put_bytes(tag: u32, value: &Vec<u8>, buf: &mut Vec<u8>)
    requires
        1 <= tag <= MAX_TAG,
    ensures
        final(buf)@ == old(buf)@ + len_field(tag, value@),
{
    prost::encoding::bytes::encode(tag, value, buf)
}

/// Calls `prost::encoding::decode_varint` on the bytes of `s` from `pos` on.
/// Gives the value and how many bytes of `s` remain after the varint.
#[verifier::external_body]
pub(crate) fn read_varint(s: &[u8], pos: usize) -> (r: Option<(u64, usize)>)
    requires
        pos <= s@.len(),
    ensures
        r == (match read_varint_spec(s@.skip(pos as int)) {
            Some((v, n)) => Some((v as u64, (s@.len() - pos - n) as usize)),
            None => None,
        }),
{
    let mut rest: &[u8] = &s[pos..];
    match prost::encoding::decode_varint(&mut rest) {
        Ok(v) => Some((v, rest.len())),
        Err(_) => None,
    }
}

/// Every varint has at least one byte.
pub proof fn lemma_varint_len(v: nat)
    ensures
        1 <= varint(v).len(),
        v < 128 <==> varint(v).len() == 1,
    decreases v,
{
    if v >= 128 {
        lemma_varint_len(v / 128);
    }
}

/// 128^9 is 2^63.
pub proof fn lemma_pow128_facts()
    ensures
        pow128(0) == 1,
        pow128(9) == 0x8000_0000_0000_0000,
{
    reveal_with_fuel(pow128, 10);
}

proof fn lemma_pow128_pos(k: nat)
    ensures
        pow128(k) >= 1,
    decreases k,
{
    if k > 0 {
        lemma_pow128_pos((k - 1) as nat);
    }
}

/// Reading back the varint of `v` written at byte `k` gives `v` scaled by
/// 128^k, as long as that fits in 64 bits.
pub proof fn lemma_varint_at(s: Seq<u8>, k: nat, v: nat)
    requires
        k <= 9,
        k + varint(v).len() <= s.len(),
        s.subrange(k as int, k as int + varint(v).len()) == varint(v),
        v * pow128(k) < 0x1_0000_0000_0000_0000,
    ensures
        varint_at(s, k) == Some(((v * pow128(k)) as int, k + varint(v).len())),
    decreases v,
{
    lemma_varint_len(v);
    lemma_pow128_facts();
    lemma_pow128_pos(k);
    let p = pow128(k);
    assert(s[k as int] == varint(v)[0]);
    if v < 128 {
        if k == 9 {
            assert(v < 2) by (nonlinear_arith)
                requires
                    v * p < 0x1_0000_0000_0000_0000,
                    p == 0x8000_0000_0000_0000,
            ;
        }
    } else {
        let q = v / 128;
        let r = v % 128;
        if k == 9 {
            assert(false) by (nonlinear_arith)
                requires
                    v * p < 0x1_0000_0000_0000_0000,
                    p == 0x8000_0000_0000_0000,
                    v >= 128,
            ;
        }
        assert(pow128(k + 1) == 128 * p);
        assert(q * pow128(k + 1) < 0x1_0000_0000_0000_0000) by (nonlinear_arith)
            requires
                v * p < 0x1_0000_0000_0000_0000,
                pow128(k + 1) == 128 * p,
                q == v / 128,
                p >= 1,
        ;
        let tail = varint(q);
        assert(varint(v) == seq![(r + 128) as u8] + tail);
        assert(s.subrange(k as int + 1, k as int + 1 + tail.len()) =~= tail) by {
            assert forall|i: int| 0 <= i < tail.len() implies s.subrange(k as int + 1, k as int + 1 + tail.len())[i]
                == tail[i] by {
                assert(s.subrange(k as int, k as int + varint(v).len())[i + 1] == varint(v)[i + 1]);
            }
        }
        lemma_varint_at(s, k + 1, q);
        assert(q * pow128(k + 1) + r * p == v * p) by (nonlinear_arith)
            requires
                pow128(k + 1) == 128 * p,
                q == v / 128,
                r == v % 128,
        ;
    }
}

/// Reading a varint written at the start of `s` gives back its value and length.
pub proof fn lemma_read_varint(v: nat, rest: Seq<u8>)
    requires
        v < 0x1_0000_0000_0000_0000,
    ensures
        read_varint_spec(varint(v) + rest) == Some((v as int, varint(v).len())),
{
    let s = varint(v) + rest;
    lemma_varint_len(v);
    lemma_pow128_facts();
    assert(s.subrange(0, varint(v).len() as int) =~= varint(v));
    lemma_varint_at(s, 0, v);
}

} // verus!

verus! {

/// Why a byte sequence is not a well-formed message.
#[derive(Clone, Copy, Debug, PartialEq, Eq, Structural)]
pub enum Fault {
    /// A varint runs past the input, past ten bytes, or past 64 bits.
    InvalidVarint,
    /// A key, this one, does not fit in 32 bits.
    InvalidKey(u64),
    /// A key names this wire type, 6 or 7.
    InvalidWireType(u64),
    /// A key names field number 0.
    ZeroTag,
    /// An end-group key with no group open, or closing another field's group.
    UnexpectedEndGroup,
    /// Groups nested deeper than the decoder allows.
    RecursionLimit,
    /// A field's payload runs past the input.
    BufferUnderflow,
    /// A known field arrives with wire type `found` instead of `expected`.
    WrongWireType { found: u8, expected: u8 },
    /// A string field holds bytes that are not UTF-8.
    InvalidUtf8,
    /// An embedded message's last field ends past the message's length.
    DelimitedLengthExceeded,
}

/// The known fields an error passed through, innermost first.
#[derive(Clone, Copy, Debug, PartialEq, Eq, Structural)]
pub enum FieldPath {
    Empty,
    One(MessageKind, u32),
    Two(MessageKind, u32, MessageKind, u32),
}

/// A decode error: what went wrong, and in which known fields.
#[derive(Clone, Copy, Debug, PartialEq, Eq, Structural)]
pub struct WireError {
    pub fault: Fault,
    pub path: FieldPath,
}

/// An error with no field around it yet.
pub open spec fn fault(f: Fault) -> WireError {
    WireError { fault: f, path: FieldPath::Empty }
}

/// `path` with field `t` of `kind` added as the outermost entry.
pub open spec fn path_push(path: FieldPath, kind: MessageKind, t: u32) -> FieldPath {
    match path {
        FieldPath::Empty => FieldPath::One(kind, t),
        FieldPath::One(k1, t1) => FieldPath::Two(k1, t1, kind, t),
        FieldPath::Two(k1, t1, k2, t2) => FieldPath::Two(k1, t1, k2, t2),
    }
}

/// `e` as seen from field `t` of `kind`, which it passed through.
pub open spec fn pushed(e: WireError, kind: MessageKind, t: u32) -> WireError {
    WireError { fault: e.fault, path: path_push(e.path, kind, t) }
}

impl WireError {
    /// An error with no field around it yet.
    pub fn of(f: Fault) -> (r: WireError)
        ensures
            r == fault(f),
    {
        WireError { fault: f, path: FieldPath::Empty }
    }

    /// This error as seen from field `t` of `kind`, which it passed through.
    pub fn push(self, kind: MessageKind, t: u32) -> (r: WireError)
        ensures
            r == pushed(self, kind, t),
    {
        let path = match self.path {
            FieldPath::Empty => FieldPath::One(kind, t),
            FieldPath::One(k1, t1) => FieldPath::Two(k1, t1, kind, t),
            FieldPath::Two(k1, t1, k2, t2) => FieldPath::Two(k1, t1, k2, t2),
        };
        WireError { fault: self.fault, path }
    }
}

/// The message whose field table governs a decode.
#[derive(Clone, Copy, Debug, PartialEq, Eq, Structural)]
pub enum MessageKind {
    Vector3,
    GestureCommand,
    TaskNode,
    ExecutionPlan,
    ThoughtNode,
    InferencePacket,
}

/// The wire type each known field of `kind` must arrive with.
pub open spec fn expected_wire_type(kind: MessageKind, tag: u32) -> Option<u8> {
    match kind {
        MessageKind::Vector3 => if 1 <= tag <= 3 { Some(5u8) } else { None },
        MessageKind::GestureCommand => if tag == 2 || tag == 6 {
            Some(5u8)
        } else if tag == 4 || tag == 11 {
            Some(2u8)
        } else if 1 <= tag <= 12 {
            Some(0u8)
        } else {
            None
        },
        MessageKind::TaskNode => if 1 <= tag <= 4 { Some(2u8) } else { None },
        MessageKind::ExecutionPlan => if tag == 1 || tag == 2 || tag == 8 {
            Some(2u8)
        } else if tag == 9 {
            Some(5u8)
        } else if 3 <= tag <= 10 {
            Some(0u8)
        } else {
            None
        },
        MessageKind::ThoughtNode => if tag == 3 {
            Some(5u8)
        } else if 1 <= tag <= 4 {
            Some(2u8)
        } else {
            None
        },
        MessageKind::InferencePacket => if tag == 3 || tag == 6 {
            Some(5u8)
        } else if tag == 1 || tag == 4 || tag == 5 {
            Some(2u8)
        } else if 1 <= tag <= 9 {
            Some(0u8)
        } else {
            None
        },
    }
}

/// Executable form of [`expected_wire_type`].
pub fn expected_wire_type_of(kind: MessageKind, tag: u32) -> (r: Option<u8>)
    ensures
        r == expected_wire_type(kind, tag),
{
    match kind {
        MessageKind::Vector3 => if 1 <= tag && tag <= 3 { Some(5u8) } else { None },
        MessageKind::GestureCommand => if tag == 2 || tag == 6 {
            Some(5u8)
        } else if tag == 4 || tag == 11 {
            Some(2u8)
        } else if 1 <= tag && tag <= 12 {
            Some(0u8)
        } else {
            None
        },
        MessageKind::TaskNode => if 1 <= tag && tag <= 4 { Some(2u8) } else { None },
        MessageKind::ExecutionPlan => if tag == 1 || tag == 2 || tag == 8 {
            Some(2u8)
        } else if tag == 9 {
            Some(5u8)
        } else if 3 <= tag && tag <= 10 {
            Some(0u8)
        } else {
            None
        },
        MessageKind::ThoughtNode => if tag == 3 {
            Some(5u8)
        } else if 1 <= tag && tag <= 4 {
            Some(2u8)
        } else {
            None
        },
        MessageKind::InferencePacket => if tag == 3 || tag == 6 {
            Some(5u8)
        } else if tag == 1 || tag == 4 || tag == 5 {
            Some(2u8)
        } else if 1 <= tag && tag <= 9 {
            Some(0u8)
        } else {
            None
        },
    }
}

/// The payload of one field, as the decoder sees it.
pub enum FieldValue {
    Varint(u64),
    /// A payload the decoder steps over without reading it: a 64-bit value
    /// or a group, neither of which any message here declares.
    Skipped,
    Bytes(Seq<u8>),
    Fixed32(u32),
}

/// The wire type a payload travels with.
pub open spec fn wire_type_of(v: FieldValue) -> u8 {
    match v {
        FieldValue::Varint(_) => 0,
        FieldValue::Skipped => 1,
        FieldValue::Bytes(_) => 2,
        FieldValue::Fixed32(_) => 5,
    }
}

/// The value of four little-endian bytes.
pub open spec fn le32_value(b: Seq<u8>) -> u32 {
    (b[0] + b[1] * 256 + b[2] * 65536 + b[3] * 16777216) as u32
}

/// A field key at the start of `s`: field number, wire type, key length.
pub open spec fn read_key_spec(s: Seq<u8>) -> Result<(u32, u8, nat), WireError> {
    match read_varint_spec(s) {
        None => Err(fault(Fault::InvalidVarint)),
        Some((k, n)) => if k > 0xFFFF_FFFF {
            Err(fault(Fault::InvalidKey(k as u64)))
        } else if k % 8 > 5 {
            Err(fault(Fault::InvalidWireType((k % 8) as u64)))
        } else if k / 8 < 1 {
            Err(fault(Fault::ZeroTag))
        } else {
            Ok(((k / 8) as u32, (k % 8) as u8, n))
        },
    }
}

/// A payload of wire type `wt` at the start of `r`, and its length.
pub open spec fn read_value_spec(r: Seq<u8>, wt: u8) -> Result<(FieldValue, nat), WireError> {
    if wt == 0 {
        match read_varint_spec(r) {
            None => Err(fault(Fault::InvalidVarint)),
            Some((v, n)) => Ok((FieldValue::Varint(v as u64), n)),
        }
    } else if wt == 1 {
        if r.len() < 8 {
            Err(fault(Fault::BufferUnderflow))
        } else {
            Ok((FieldValue::Skipped, 8))
        }
    } else if wt == 2 {
        match read_varint_spec(r) {
            None => Err(fault(Fault::InvalidVarint)),
            Some((len, n)) => if len > r.len() - n {
                Err(fault(Fault::BufferUnderflow))
            } else {
                Ok((FieldValue::Bytes(r.subrange(n as int, n + len)), (n + len) as nat))
            },
        }
    } else if wt == 5 {
        if r.len() < 4 {
            Err(fault(Fault::BufferUnderflow))
        } else {
            Ok((FieldValue::Fixed32(le32_value(r)), 4))
        }
    } else {
        Err(fault(Fault::UnexpectedEndGroup))
    }
}

/// How many levels of nesting the decoder still allows inside a message of
/// `kind`: a top-level message starts with 100, an embedded one with one
/// level already used.
pub open spec fn nesting_budget(kind: MessageKind) -> nat {
    match kind {
        MessageKind::Vector3 | MessageKind::TaskNode | MessageKind::ThoughtNode => 99,
        _ => 100,
    }
}

/// Steps over the payload of an unknown field of wire type `wt` and number
/// `tag` at the start of `r`, as `prost` skips it with `depth` nesting levels
/// left: the length stepped over.
pub open spec fn skip_spec(r: Seq<u8>, wt: u8, tag: u32, depth: nat) -> Result<nat, WireError>
    decreases r.len(), 1nat,
{
    if depth == 0 {
        Err(fault(Fault::RecursionLimit))
    } else if wt == 3 {
        group_spec(r, tag, depth)
    } else if wt == 4 {
        Err(fault(Fault::UnexpectedEndGroup))
    } else {
        match read_value_spec(r, wt) {
            Ok((v, k)) => Ok(k),
            Err(e) => Err(e),
        }
    }
}

/// Steps over the rest of a group opened by field `tag`: the fields inside,
/// each skipped one level deeper, up to the end-group key of the same field.
pub open spec fn group_spec(r: Seq<u8>, tag: u32, depth: nat) -> Result<nat, WireError>
    decreases r.len(), 0nat,
{
    match read_key_spec(r) {
        Err(e) => Err(e),
        Ok((t, wt, n)) => if n == 0 || n > r.len() || depth == 0 {
            Err(fault(Fault::InvalidVarint))
        } else if wt == 4 {
            if t == tag {
                Ok(n)
            } else {
                Err(fault(Fault::UnexpectedEndGroup))
            }
        } else {
            match skip_spec(r.skip(n as int), wt, t, (depth - 1) as nat) {
                Err(e) => Err(e),
                Ok(k) => if k > r.len() - n {
                    Err(fault(Fault::BufferUnderflow))
                } else {
                    match group_spec(r.skip((n + k) as int), tag, depth) {
                        Err(e) => Err(e),
                        Ok(m) => Ok(n + k + m),
                    }
                },
            }
        },
    }
}

/// One field at the start of `s`, checked against the field table of
/// `kind`: field number, payload, and the field's length in bytes.
pub open spec fn read_field_spec(kind: MessageKind, s: Seq<u8>) -> Result<(u32, FieldValue, nat), WireError> {
    match read_key_spec(s) {
        Err(e) => Err(e),
        Ok((t, wt, n)) => if expected_wire_type(kind, t) is Some && expected_wire_type(kind, t)->0 != wt {
            Err(pushed(fault(Fault::WrongWireType { found: wt, expected: expected_wire_type(kind, t)->0 }), kind, t))
        } else if wt == 3 || wt == 4 {
            match skip_spec(s.skip(n as int), wt, t, nesting_budget(kind)) {
                Err(e) => Err(e),
                Ok(k) => Ok((t, FieldValue::Skipped, n + k)),
            }
        } else {
            match read_value_spec(s.skip(n as int), wt) {
                Err(e) => Err(if expected_wire_type(kind, t) is Some {
                    pushed(e, kind, t)
                } else {
                    e
                }),
                Ok((v, k)) => Ok((t, v, n + k)),
            }
        },
    }
}

/// Upper limit on the value a varint ending before byte `n` can carry.
pub open spec fn varint_limit(n: nat) -> nat {
    if n >= 10 {
        2 * pow128(9)
    } else {
        pow128(n)
    }
}

proof fn lemma_pow128_mono(a: nat, b: nat)
    requires
        a <= b,
    ensures
        pow128(a) <= pow128(b),
    decreases b,
{
    if a < b {
        lemma_pow128_mono(a, (b - 1) as nat);
        lemma_pow128_pos((b - 1) as nat);
    }
}

proof fn lemma_varint_at_bounds(s: Seq<u8>, k: nat)
    ensures
        varint_at(s, k) matches Some((v, n)) ==> k < n <= s.len() && n <= 10 && 0 <= v && v
            + pow128(k) <= varint_limit(n),
    decreases 10 - k,
{
    lemma_pow128_pos(k);
    if k < 10 && k < s.len() {
        let d = s[k as int];
        let p = pow128(k);
        assert(pow128(k + 1) == 128 * p);
        if d >= 128 {
            lemma_varint_at_bounds(s, k + 1);
            if let Some((v1, n)) = varint_at(s, k + 1) {
                assert(v1 + (d - 128) * p + p <= varint_limit(n)) by (nonlinear_arith)
                    requires
                        v1 + 128 * p <= varint_limit(n),
                        d < 256,
                        d >= 128,
                        p >= 1,
                        v1 >= 0,
                ;
                assert((d - 128) * p >= 0) by (nonlinear_arith)
                    requires
                        d >= 128,
                        p >= 1,
                ;
            }
        } else {
            assert(d * p >= 0) by (nonlinear_arith)
                requires
                    p >= 1,
            ;
            if k == 9 {
                lemma_pow128_facts();
                if d < 2 {
                    assert(d * p + p <= 2 * p) by (nonlinear_arith)
                        requires
                            d < 2,
                            p >= 1,
                    ;
                }
            } else {
                assert(d * p + p <= 128 * p) by (nonlinear_arith)
                    requires
                        d < 128,
                        p >= 1,
                ;
            }
        }
    }
}

/// A varint read from the start of any input fits in 64 bits.
pub proof fn lemma_read_varint_bounds(s: Seq<u8>)
    ensures
        read_varint_spec(s) matches Some((v, n)) ==> 1 <= n <= s.len() && n <= 10 && 0 <= v
            < 0x1_0000_0000_0000_0000,
{
    lemma_varint_at_bounds(s, 0);
    lemma_pow128_facts();
    if let Some((v, n)) = read_varint_spec(s) {
        if n < 10 {
            lemma_pow128_mono(n, 9);
        }
    }
}

/// A key read from the start of any input occupies at least one byte of it.
pub proof fn lemma_read_key_bounds(s: Seq<u8>)
    ensures
        read_key_spec(s) matches Ok((t, wt, n)) ==> 1 <= n <= s.len() && wt <= 5,
{
    lemma_read_varint_bounds(s);
}

/// A payload read from the start of any input fits in it.
pub proof fn lemma_read_value_bounds(r: Seq<u8>, wt: u8)
    ensures
        read_value_spec(r, wt) matches Ok((v, k)) ==> k <= r.len(),
{
    lemma_read_varint_bounds(r);
}

/// A skipped payload fits in the input.
pub proof fn lemma_skip_bounds(r: Seq<u8>, wt: u8, tag: u32, depth: nat)
    ensures
        skip_spec(r, wt, tag, depth) matches Ok(k) ==> k <= r.len(),
    decreases r.len(), 1nat,
{
    if depth > 0 {
        if wt == 3 {
            lemma_group_bounds(r, tag, depth);
        } else {
            lemma_read_value_bounds(r, wt);
        }
    }
}

/// A skipped group takes at least one byte and fits in the input.
pub proof fn lemma_group_bounds(r: Seq<u8>, tag: u32, depth: nat)
    ensures
        group_spec(r, tag, depth) matches Ok(k) ==> 1 <= k <= r.len(),
    decreases r.len(), 0nat,
{
    if let Ok((t, wt, n)) = read_key_spec(r) {
        if n >= 1 && n <= r.len() && depth > 0 && wt != 4 {
            let r1 = r.skip(n as int);
            lemma_skip_bounds(r1, wt, t, (depth - 1) as nat);
            if let Ok(k) = skip_spec(r1, wt, t, (depth - 1) as nat) {
                if k <= r.len() - n {
                    lemma_group_bounds(r.skip((n + k) as int), tag, depth);
                }
            }
        }
    }
}

/// A successfully read field occupies at least one byte and no more than the input.
pub proof fn lemma_read_field_bounds(kind: MessageKind, s: Seq<u8>)
    ensures
        read_field_spec(kind, s) matches Ok((t, v, n)) ==> 1 <= n <= s.len(),
{
    lemma_read_key_bounds(s);
    if let Ok((t, wt, n)) = read_key_spec(s) {
        let r = s.skip(n as int);
        assert(r.len() == s.len() - n);
        lemma_read_value_bounds(r, wt);
        lemma_skip_bounds(r, wt, t, nesting_budget(kind));
    }
}

/// The fields of `s`, read one after another to its end.
pub open spec fn parse_fields(kind: MessageKind, s: Seq<u8>) -> Result<Seq<(u32, FieldValue)>, WireError>
    decreases s.len(),
{
    if s.len() == 0 {
        Ok(seq![])
    } else {
        match read_field_spec(kind, s) {
            Err(e) => Err(e),
            Ok((t, v, n)) => {
                proof {
                    lemma_read_field_bounds(kind, s);
                }
                if n == 0 {
                    Err(fault(Fault::InvalidVarint))
                } else {
                    match parse_fields(kind, s.skip(n as int)) {
                        Err(e) => Err(e),
                        Ok(rest) => Ok(seq![(t, v)] + rest),
                    }
                }
            },
        }
    }
}

} // verus!

verus! {

/// A field payload located in the input: varints and 32-bit values by value,
/// length-delimited payloads by their start and end offsets.
#[derive(Clone, Copy, Debug, PartialEq, Eq, Structural)]
pub enum WireValue {
    Varint(u64),
    /// A 64-bit value or a group, stepped over.
    Skipped,
    Bytes(usize, usize),
    Fixed32(u32),
}

/// What a located payload holds, read against the input `s`.
pub open spec fn value_view(s: Seq<u8>, w: WireValue) -> FieldValue {
    match w {
        WireValue::Varint(v) => FieldValue::Varint(v),
        WireValue::Skipped => FieldValue::Skipped,
        WireValue::Bytes(a, b) => FieldValue::Bytes(s.subrange(a as int, b as int)),
        WireValue::Fixed32(x) => FieldValue::Fixed32(x),
    }
}

/// A located payload lies inside an input of length `len`.
pub open spec fn value_in_bounds(len: nat, w: WireValue) -> bool {
    match w {
        WireValue::Bytes(a, b) => a <= b <= len,
        _ => true,
    }
}

/// Reads a field key at `pos`; gives field number, wire type and the
/// offset just past the key.
pub fn read_key(s: &[u8], pos: usize) -> (r: Result<(u32, u8, usize), WireError>)
    requires
        pos <= s@.len(),
    ensures
        match read_key_spec(s@.skip(pos as int)) {
            Ok((t, w, n)) => r == Ok::<(u32, u8, usize), WireError>((t, w, (pos + n) as usize)),
            Err(e) => r == Err::<(u32, u8, usize), WireError>(e),
        },
{
    proof {
        lemma_read_varint_bounds(s@.skip(pos as int));
    }
    match read_varint(s, pos) {
        None => Err(WireError::of(Fault::InvalidVarint)),
        Some((k, rest)) => {
            if k > 0xFFFF_FFFFu64 {
                Err(WireError::of(Fault::InvalidKey(k)))
            } else if k % 8 > 5 {
                Err(WireError::of(Fault::InvalidWireType(k % 8)))
            } else if k / 8 < 1 {
                Err(WireError::of(Fault::ZeroTag))
            } else {
                Ok(((k / 8) as u32, (k % 8) as u8, s.len() - rest))
            }
        },
    }
}

/// Reads a payload of wire type `wt` at `pos`; gives the payload and the
/// offset just past it.
pub fn read_value(s: &[u8], pos: usize, wt: u8) -> (r: Result<(WireValue, usize), WireError>)
    requires
        pos <= s@.len(),
    ensures
        match read_value_spec(s@.skip(pos as int), wt) {
            Ok((v, n)) => r matches Ok((w, p)) && p == pos + n && value_view(s@, w) == v
                && value_in_bounds(s@.len(), w) && (w matches WireValue::Bytes(a, b) ==> b == p),
            Err(e) => r == Err::<(WireValue, usize), WireError>(e),
        },
{
    let ghost r0 = s@.skip(pos as int);
    proof {
        lemma_read_varint_bounds(r0);
    }
    let avail: usize = s.len() - pos;
    if wt == 0 {
        match read_varint(s, pos) {
            None => Err(WireError::of(Fault::InvalidVarint)),
            Some((v, rest)) => Ok((WireValue::Varint(v), s.len() - rest)),
        }
    } else if wt == 1 {
        if avail < 8 {
            Err(WireError::of(Fault::BufferUnderflow))
        } else {
            Ok((WireValue::Skipped, pos + 8))
        }
    } else if wt == 2 {
        match read_varint(s, pos) {
            None => Err(WireError::of(Fault::InvalidVarint)),
            Some((len, rest)) => {
                let start: usize = s.len() - rest;
                if len > rest as u64 {
                    Err(WireError::of(Fault::BufferUnderflow))
                } else {
                    let end: usize = start + len as usize;
                    proof {
                        let n = start - pos;
                        assert(r0.subrange(n as int, n + len) =~= s@.subrange(
                            start as int,
                            end as int,
                        ));
                    }
                    Ok((WireValue::Bytes(start, end), end))
                }
            },
        }
    } else if wt == 5 {
        if avail < 4 {
            Err(WireError::of(Fault::BufferUnderflow))
        } else {
            let b0 = s[pos] as u32;
            let b1 = s[pos + 1] as u32;
            let b2 = s[pos + 2] as u32;
            let b3 = s[pos + 3] as u32;
            let x: u32 = b0 + b1 * 256 + b2 * 65536 + b3 * 16777216;
            assert(r0[0] == b0 && r0[1] == b1 && r0[2] == b2 && r0[3] == b3);
            Ok((WireValue::Fixed32(x), pos + 4))
        }
    } else {
        Err(WireError::of(Fault::UnexpectedEndGroup))
    }
}

/// How many levels of nesting the decoder still allows inside `kind`.
pub fn nesting_budget_of(kind: MessageKind) -> (r: u32)
    ensures
        r == nesting_budget(kind),
{
    match kind {
        MessageKind::Vector3 | MessageKind::TaskNode | MessageKind::ThoughtNode => 99,
        _ => 100,
    }
}

/// Steps over the payload of an unknown field at `pos`; gives the offset
/// just past it.
fn skip_field(s: &[u8], pos: usize, wt: u8, tag: u32, depth: u32) -> (r: Result<usize, WireError>)
    requires
        pos <= s@.len(),
    ensures
        match skip_spec(s@.skip(pos as int), wt, tag, depth as nat) {
            Ok(k) => r == Ok::<usize, WireError>((pos + k) as usize) && pos + k <= s@.len(),
            Err(e) => r == Err::<usize, WireError>(e),
        },
    decreases s@.len() - pos, 1nat,
{
    proof {
        lemma_skip_bounds(s@.skip(pos as int), wt, tag, depth as nat);
    }
    if depth == 0 {
        Err(WireError::of(Fault::RecursionLimit))
    } else if wt == 3 {
        skip_group(s, pos, tag, depth)
    } else if wt == 4 {
        Err(WireError::of(Fault::UnexpectedEndGroup))
    } else {
        match read_value(s, pos, wt) {
            Ok((_, p)) => Ok(p),
            Err(e) => Err(e),
        }
    }
}

/// Steps over the rest of a group opened by field `tag`, starting at `pos`;
/// gives the offset just past its end key.
fn skip_group(s: &[u8], pos: usize, tag: u32, depth: u32) -> (r: Result<usize, WireError>)
    requires
        pos <= s@.len(),
    ensures
        match group_spec(s@.skip(pos as int), tag, depth as nat) {
            Ok(k) => r == Ok::<usize, WireError>((pos + k) as usize) && pos + k <= s@.len(),
            Err(e) => r == Err::<usize, WireError>(e),
        },
    decreases s@.len() - pos, 0nat,
{
    let ghost cur = s@.skip(pos as int);
    proof {
        lemma_group_bounds(cur, tag, depth as nat);
        lemma_read_key_bounds(cur);
    }
    let total = s.len();
    assert(cur.len() == total - pos);
    let (t, wt, p1) = match read_key(s, pos) {
        Ok(k) => k,
        Err(e) => return Err(e),
    };
    assert(read_key_spec(cur) matches Ok((t0, w0, n0)) && p1 == pos + n0 && 1 <= n0 <= cur.len());
    if p1 == pos || depth == 0 {
        return Err(WireError::of(Fault::InvalidVarint));
    }
    if wt == 4 {
        if t == tag {
            Ok(p1)
        } else {
            Err(WireError::of(Fault::UnexpectedEndGroup))
        }
    } else {
        assert(cur.skip((p1 - pos) as int) =~= s@.skip(p1 as int));
        let p2 = match skip_field(s, p1, wt, t, depth - 1) {
            Ok(p) => p,
            Err(e) => return Err(e),
        };
        assert(cur.skip((p2 - pos) as int) =~= s@.skip(p2 as int));
        match skip_group(s, p2, tag, depth) {
            Ok(p3) => Ok(p3),
            Err(e) => Err(e),
        }
    }
}

/// Reads one field at `pos`, checked against the field table of `kind`;
/// gives field number, payload and the offset just past the field.
pub fn read_field(kind: MessageKind, s: &[u8], pos: usize) -> (r: Result<(u32, WireValue, usize), WireError>)
    requires
        pos <= s@.len(),
    ensures
        match read_field_spec(kind, s@.skip(pos as int)) {
            Ok((t, v, n)) => r matches Ok((t2, w, p)) && t2 == t && p == pos + n && value_view(s@, w)
                == v && value_in_bounds(s@.len(), w) && (w matches WireValue::Bytes(a, b) ==> b == p),
            Err(e) => r == Err::<(u32, WireValue, usize), WireError>(e),
        },
{
    let total: usize = s.len();
    proof {
        lemma_read_varint_bounds(s@.skip(pos as int));
    }
    let (tag, wt, p1) = match read_key(s, pos) {
        Ok(k) => k,
        Err(e) => return Err(e),
    };
    match expected_wire_type_of(kind, tag) {
        Some(w) => {
            if w != wt {
                return Err(WireError::of(Fault::WrongWireType { found: wt, expected: w }).push(kind, tag));
            }
        },
        None => {},
    }
    proof {
        let cur = s@.skip(pos as int);
        if let Ok((t0, w0, n0)) = read_key_spec(cur) {
            assert(read_varint_spec(cur) is Some);
            assert(n0 <= cur.len());
            assert(p1 == pos + n0);
            assert(cur.skip(n0 as int) =~= s@.skip(p1 as int));
        }
    }
    if wt == 3 || wt == 4 {
        match skip_field(s, p1, wt, tag, nesting_budget_of(kind)) {
            Ok(p2) => Ok((tag, WireValue::Skipped, p2)),
            Err(e) => Err(e),
        }
    } else {
        match read_value(s, p1, wt) {
            Ok((v, p2)) => Ok((tag, v, p2)),
            Err(e) => match expected_wire_type_of(kind, tag) {
                Some(_) => Err(e.push(kind, tag)),
                None => Err(e),
            },
        }
    }
}

/// The located fields read against the input `s`.
pub open spec fn fields_view(s: Seq<u8>, fs: Seq<(u32, WireValue)>) -> Seq<(u32, FieldValue)> {
    fs.map_values(|f: (u32, WireValue)| (f.0, value_view(s, f.1)))
}

/// Reads every field of `s` against the field table of `kind`.
pub fn read_fields(kind: MessageKind, s: &[u8]) -> (r: Result<Vec<(u32, WireValue)>, WireError>)
    ensures
        match parse_fields(kind, s@) {
            Ok(fs) => r matches Ok(v) && fields_view(s@, v@) == fs && forall|i: int|
                0 <= i < v@.len() ==> value_in_bounds(s@.len(), #[trigger] v@[i].1),
            Err(e) => r == Err::<Vec<(u32, WireValue)>, WireError>(e),
        },
{
    let mut out: Vec<(u32, WireValue)> = Vec::new();
    let mut pos: usize = 0;
    assert(s@.skip(0) =~= s@);
    while pos < s.len()
        invariant
            pos <= s@.len(),
            forall|i: int| 0 <= i < out@.len() ==> value_in_bounds(s@.len(), #[trigger] out@[i].1),
            parse_fields(kind, s@) == (match parse_fields(kind, s@.skip(pos as int)) {
                Ok(rest) => Ok(fields_view(s@, out@) + rest),
                Err(e) => Err(e),
            }),
        decreases s@.len() - pos,
    {
        let ghost cur = s@.skip(pos as int);
        proof {
            lemma_read_field_bounds(kind, cur);
        }
        match read_field(kind, s, pos) {
            Ok((t, w, p)) => {
                proof {
                    let n = p - pos;
                    assert(cur.skip(n as int) =~= s@.skip(p as int));
                    assert(fields_view(s@, out@.push((t, w))) =~= fields_view(s@, out@) + seq![
                        (t, value_view(s@, w)),
                    ]);
                    if let Ok(rest) = parse_fields(kind, s@.skip(p as int)) {
                        assert(fields_view(s@, out@) + (seq![(t, value_view(s@, w))] + rest)
                            =~= fields_view(s@, out@.push((t, w))) + rest);
                    }
                }
                out.push((t, w));
                pos = p;
            },
            Err(e) => {
                return Err(e);
            },
        }
    }
    assert(s@.skip(pos as int) =~= Seq::<u8>::empty());
    assert(fields_view(s@, out@) + seq![] =~= fields_view(s@, out@));
    Ok(out)
}

} // verus!

verus! {

/// The bytes of one field carrying payload `v`.
pub open spec fn field_bytes(t: u32, v: FieldValue) -> Seq<u8> {
    match v {
        FieldValue::Varint(x) => key_bytes(t as nat, 0) + varint(x as nat),
        FieldValue::Skipped => key_bytes(t as nat, 1) + Seq::new(8, |i: int| 0u8),
        FieldValue::Bytes(b) => len_field(t, b),
        FieldValue::Fixed32(x) => fixed32_field(t, x),
    }
}

/// The bytes of a sequence of fields, written in order.
pub open spec fn encode_fields(fs: Seq<(u32, FieldValue)>) -> Seq<u8>
    decreases fs.len(),
{
    if fs.len() == 0 {
        seq![]
    } else {
        encode_fields(fs.drop_last()) + field_bytes(fs.last().0, fs.last().1)
    }
}

/// A field that the encoder writes and the field table of `kind` accepts.
pub open spec fn field_ok(kind: MessageKind, t: u32, v: FieldValue) -> bool {
    &&& 1 <= t <= MAX_TAG
    &&& v !is Skipped
    &&& (v matches FieldValue::Bytes(b) ==> b.len() < 0x1_0000_0000_0000_0000)
    &&& (expected_wire_type(kind, t) is Some ==> expected_wire_type(kind, t)->0 == wire_type_of(v))
}

proof fn lemma_varint_at_prefix(a: Seq<u8>, b: Seq<u8>, k: nat)
    ensures
        varint_at(a, k) is Some ==> varint_at(a + b, k) == varint_at(a, k),
    decreases 10 - k,
{
    if k < 10 && k < a.len() {
        assert((a + b)[k as int] == a[k as int]);
        lemma_varint_at_prefix(a, b, k + 1);
    }
}

proof fn lemma_read_key_prefix(a: Seq<u8>, b: Seq<u8>)
    ensures
        read_key_spec(a) is Ok ==> read_key_spec(a + b) == read_key_spec(a),
{
    lemma_varint_at_prefix(a, b, 0);
}

proof fn lemma_read_value_prefix(r: Seq<u8>, b: Seq<u8>, wt: u8)
    ensures
        read_value_spec(r, wt) is Ok ==> read_value_spec(r + b, wt) == read_value_spec(r, wt),
{
    let rb = r + b;
    lemma_varint_at_prefix(r, b, 0);
    lemma_read_varint_bounds(r);
    if let Ok((v, k)) = read_value_spec(r, wt) {
        if wt == 2 {
            let (len, m) = read_varint_spec(r)->0;
            assert(rb.subrange(m as int, m + len) =~= r.subrange(m as int, m + len));
        }
        if wt == 5 {
            assert(rb[0] == r[0] && rb[1] == r[1] && rb[2] == r[2] && rb[3] == r[3]);
        }
    }
}

proof fn lemma_skip_prefix(r: Seq<u8>, b: Seq<u8>, wt: u8, tag: u32, depth: nat)
    ensures
        skip_spec(r, wt, tag, depth) is Ok ==> skip_spec(r + b, wt, tag, depth) == skip_spec(
            r,
            wt,
            tag,
            depth,
        ),
    decreases r.len(), 1nat,
{
    if depth > 0 {
        if wt == 3 {
            lemma_group_prefix(r, b, tag, depth);
        } else {
            lemma_read_value_prefix(r, b, wt);
        }
    }
}

proof fn lemma_group_prefix(r: Seq<u8>, b: Seq<u8>, tag: u32, depth: nat)
    ensures
        group_spec(r, tag, depth) is Ok ==> group_spec(r + b, tag, depth) == group_spec(r, tag, depth),
    decreases r.len(), 0nat,
{
    lemma_read_key_prefix(r, b);
    lemma_read_key_bounds(r);
    if let Ok((t, wt, n)) = read_key_spec(r) {
        if n >= 1 && n <= r.len() && depth > 0 && wt != 4 {
            let r1 = r.skip(n as int);
            assert((r + b).skip(n as int) =~= r1 + b);
            lemma_skip_prefix(r1, b, wt, t, (depth - 1) as nat);
            lemma_skip_bounds(r1, wt, t, (depth - 1) as nat);
            if let Ok(k) = skip_spec(r1, wt, t, (depth - 1) as nat) {
                if k <= r.len() - n {
                    assert((r + b).skip((n + k) as int) =~= r.skip((n + k) as int) + b);
                    lemma_group_prefix(r.skip((n + k) as int), b, tag, depth);
                }
            }
        }
    }
}

proof fn lemma_read_field_prefix(kind: MessageKind, a: Seq<u8>, b: Seq<u8>)
    ensures
        read_field_spec(kind, a) is Ok ==> read_field_spec(kind, a + b) == read_field_spec(kind, a),
{
    lemma_read_key_prefix(a, b);
    lemma_read_key_bounds(a);
    if let Ok((t, wt, n)) = read_key_spec(a) {
        let ra = a.skip(n as int);
        assert((a + b).skip(n as int) =~= ra + b);
        lemma_read_value_prefix(ra, b, wt);
        lemma_skip_prefix(ra, b, wt, t, nesting_budget(kind));
    }
}

/// Reading the fields of `a + b`, where `a` holds whole fields, gives the
/// fields of `a` followed by those of `b`.
pub proof fn lemma_parse_fields_concat(kind: MessageKind, a: Seq<u8>, b: Seq<u8>)
    requires
        parse_fields(kind, a) is Ok,
    ensures
        parse_fields(kind, a + b) == (match parse_fields(kind, b) {
            Ok(fb) => Ok(parse_fields(kind, a)->Ok_0 + fb),
            Err(e) => Err(e),
        }),
    decreases a.len(),
{
    if a.len() == 0 {
        assert(a + b =~= b);
        assert(parse_fields(kind, a)->Ok_0 =~= Seq::<(u32, FieldValue)>::empty());
        if let Ok(fb) = parse_fields(kind, b) {
            assert(Seq::<(u32, FieldValue)>::empty() + fb =~= fb);
        }
    } else {
        lemma_read_field_bounds(kind, a);
        lemma_read_field_prefix(kind, a, b);
        let (t, v, n) = read_field_spec(kind, a)->Ok_0;
        assert((a + b).skip(n as int) =~= a.skip(n as int) + b);
        lemma_parse_fields_concat(kind, a.skip(n as int), b);
        assert((a + b).len() > 0);
        lemma_read_field_bounds(kind, a + b);
        if let Ok(fb) = parse_fields(kind, b) {
            let rest = parse_fields(kind, a.skip(n as int))->Ok_0;
            assert(seq![(t, v)] + (rest + fb) =~= (seq![(t, v)] + rest) + fb);
        }
    }
}

/// Four little-endian bytes read back as the value they were written from.
pub proof fn lemma_le32_roundtrip(x: u32, rest: Seq<u8>)
    ensures
        le32_value(le32(x) + rest) == x,
{
    let s = le32(x) + rest;
    assert(s[0] == (x % 256) as u8);
    assert(s[1] == ((x / 256) % 256) as u8);
    assert(s[2] == ((x / 65536) % 256) as u8);
    assert(s[3] == ((x / 16777216) % 256) as u8);
    let xi = x as int;
    assert(xi % 256 + ((xi / 256) % 256) * 256 + ((xi / 65536) % 256) * 65536 + ((xi / 16777216)
        % 256) * 16777216 == xi) by (nonlinear_arith)
        requires
            0 <= xi < 0x1_0000_0000,
    {
        assert(xi == (xi / 256) * 256 + xi % 256);
        assert(xi / 256 == ((xi / 256) / 256) * 256 + (xi / 256) % 256);
        assert((xi / 256) / 256 == xi / 65536);
        assert(xi / 65536 == ((xi / 65536) / 256) * 256 + (xi / 65536) % 256);
        assert((xi / 65536) / 256 == xi / 16777216);
        assert(xi / 16777216 < 256);
    }
}

/// A field written by the encoder is read back as the same field.
pub proof fn lemma_read_field_written(kind: MessageKind, t: u32, v: FieldValue, rest: Seq<u8>)
    requires
        field_ok(kind, t, v),
    ensures
        read_field_spec(kind, field_bytes(t, v) + rest) == Ok::<(u32, FieldValue, nat), WireError>(
            (t, v, field_bytes(t, v).len()),
        ),
{
    let wt = wire_type_of(v);
    let key = t as nat * 8 + wt as nat;
    let kb = key_bytes(t as nat, wt as nat);
    let s = field_bytes(t, v) + rest;
    let payload = match v {
        FieldValue::Varint(x) => varint(x as nat),
        FieldValue::Skipped => Seq::new(8, |i: int| 0u8),
        FieldValue::Bytes(b) => varint(b.len()) + b,
        FieldValue::Fixed32(x) => le32(x),
    };
    assert(field_bytes(t, v) =~= kb + payload);
    assert(s =~= kb + (payload + rest));
    assert(key < 0x1_0000_0000);
    lemma_read_varint(key, payload + rest);
    assert(key % 8 == wt as nat);
    assert(key / 8 == t as nat);
    assert(read_key_spec(s) == Ok::<(u32, u8, nat), WireError>((t, wt, kb.len())));
    let r = s.skip(kb.len() as int);
    assert(r =~= payload + rest);
    match v {
        FieldValue::Varint(x) => {
            lemma_read_varint(x as nat, rest);
        },
        FieldValue::Skipped => {},
        FieldValue::Bytes(b) => {
            assert(r =~= varint(b.len()) + (b + rest));
            lemma_read_varint(b.len(), b + rest);
            let m = varint(b.len()).len();
            assert(r.subrange(m as int, m as int + b.len()) =~= b);
        },
        FieldValue::Fixed32(x) => {
            lemma_le32_roundtrip(x, rest);
        },
    }
}

/// Splitting a field sequence splits its bytes.
pub proof fn lemma_encode_fields_concat(a: Seq<(u32, FieldValue)>, b: Seq<(u32, FieldValue)>)
    ensures
        encode_fields(a + b) == encode_fields(a) + encode_fields(b),
    decreases b.len(),
{
    if b.len() == 0 {
        assert(a + b =~= a);
        assert(encode_fields(a) + seq![] =~= encode_fields(a));
    } else {
        assert((a + b).drop_last() =~= a + b.drop_last());
        assert((a + b).last() == b.last());
        lemma_encode_fields_concat(a, b.drop_last());
        assert(encode_fields(a) + encode_fields(b.drop_last()) + field_bytes(b.last().0, b.last().1)
            =~= encode_fields(a) + (encode_fields(b.drop_last()) + field_bytes(
            b.last().0,
            b.last().1,
        )));
    }
}

/// Fields written by the encoder are read back, in order, as written.
pub proof fn lemma_parse_encode_fields(kind: MessageKind, fs: Seq<(u32, FieldValue)>)
    requires
        forall|i: int| 0 <= i < fs.len() ==> field_ok(kind, #[trigger] fs[i].0, fs[i].1),
    ensures
        parse_fields(kind, encode_fields(fs)) == Ok::<Seq<(u32, FieldValue)>, WireError>(fs),
    decreases fs.len(),
{
    if fs.len() == 0 {
        assert(parse_fields(kind, Seq::<u8>::empty()) == Ok::<Seq<(u32, FieldValue)>, WireError>(
            seq![],
        ));
        assert(fs =~= seq![]);
    } else {
        let init = fs.drop_last();
        let (t, v) = fs.last();
        assert forall|i: int| 0 <= i < init.len() implies field_ok(kind, #[trigger] init[i].0, init[i].1) by {
            assert(init[i] == fs[i]);
        }
        assert(field_ok(kind, fs[fs.len() - 1].0, fs[fs.len() - 1].1));
        lemma_parse_encode_fields(kind, init);
        let fb = field_bytes(t, v);
        lemma_read_field_written(kind, t, v, seq![]);
        assert(fb + seq![] =~= fb);
        lemma_read_field_bounds(kind, fb);
        assert(fb.skip(fb.len() as int) =~= Seq::<u8>::empty());
        assert(parse_fields(kind, fb) == Ok::<Seq<(u32, FieldValue)>, WireError>(
            seq![(t, v)] + seq![],
        ));
        assert(seq![(t, v)] + seq![] =~= seq![(t, v)]);
        lemma_parse_fields_concat(kind, encode_fields(init), fb);
        assert(init + seq![(t, v)] =~= fs);
    }
}

} // verus!

verus! {

/// Applies `apply` to each field in order, stopping at the first error.
pub open spec fn fold_fields<M>(
    m: M,
    fs: Seq<(u32, FieldValue)>,
    apply: spec_fn(M, u32, FieldValue) -> Result<M, WireError>,
) -> Result<M, WireError>
    decreases fs.len(),
{
    if fs.len() == 0 {
        Ok(m)
    } else {
        match apply(m, fs[0].0, fs[0].1) {
            Ok(m2) => fold_fields(m2, fs.drop_first(), apply),
            Err(e) => Err(e),
        }
    }
}

/// Decoding a message of `kind` into `m` the way `prost` does: field after
/// field, each read and then applied before the next is read, the first
/// error ending the decode; an error in applying a field names that field.
/// `apply` also sees the bytes after the field, which an embedded message
/// may read into.
pub open spec fn stream_decode<M>(
    kind: MessageKind,
    m: M,
    s: Seq<u8>,
    apply: spec_fn(M, u32, FieldValue, Seq<u8>) -> Result<M, WireError>,
) -> Result<M, WireError>
    decreases s.len(),
{
    if s.len() == 0 {
        Ok(m)
    } else {
        match read_field_spec(kind, s) {
            Err(e) => Err(e),
            Ok((t, v, n)) => {
                proof {
                    lemma_read_field_bounds(kind, s);
                }
                if n == 0 {
                    Err(fault(Fault::InvalidVarint))
                } else {
                    match apply(m, t, v, s.skip(n as int)) {
                        Err(e) => Err(pushed(e, kind, t)),
                        Ok(m2) => stream_decode(kind, m2, s.skip(n as int), apply),
                    }
                }
            },
        }
    }
}

/// Decoding an embedded message of `kind` into `m` in place, as `prost`
/// does: fields are read from `r`, all that follows the length prefix,
/// while fewer than `limit` bytes have been read; a field that ends past
/// the limit makes the length exceeded.
pub open spec fn stream_limited<M>(
    kind: MessageKind,
    m: M,
    r: Seq<u8>,
    limit: int,
    apply: spec_fn(M, u32, FieldValue, Seq<u8>) -> Result<M, WireError>,
) -> Result<M, WireError>
    decreases r.len(),
{
    if limit <= 0 {
        if limit == 0 {
            Ok(m)
        } else {
            Err(fault(Fault::DelimitedLengthExceeded))
        }
    } else if r.len() == 0 {
        Err(fault(Fault::InvalidVarint))
    } else {
        match read_field_spec(kind, r) {
            Err(e) => Err(e),
            Ok((t, v, n)) => {
                proof {
                    lemma_read_field_bounds(kind, r);
                }
                if n == 0 {
                    Err(fault(Fault::InvalidVarint))
                } else {
                    match apply(m, t, v, r.skip(n as int)) {
                        Err(e) => Err(pushed(e, kind, t)),
                        Ok(m2) => stream_limited(kind, m2, r.skip(n as int), limit - n, apply),
                    }
                }
            },
        }
    }
}

/// Where the fields of `s` all read and all apply, decoding field by field
/// applies them in order, provided `apply` agrees with `fold` wherever the
/// latter succeeds.
pub proof fn lemma_stream_is_fold<M>(
    kind: MessageKind,
    m: M,
    s: Seq<u8>,
    apply: spec_fn(M, u32, FieldValue, Seq<u8>) -> Result<M, WireError>,
    fold: spec_fn(M, u32, FieldValue) -> Result<M, WireError>,
)
    requires
        parse_fields(kind, s) is Ok,
        fold_fields(m, parse_fields(kind, s)->Ok_0, fold) is Ok,
        forall|m2: M, t: u32, v: FieldValue, tail: Seq<u8>|
            fold(m2, t, v) is Ok ==> #[trigger] apply(m2, t, v, tail) == fold(m2, t, v),
    ensures
        stream_decode(kind, m, s, apply) == fold_fields(m, parse_fields(kind, s)->Ok_0, fold),
    decreases s.len(),
{
    if s.len() > 0 {
        lemma_read_field_bounds(kind, s);
        let (t, v, n) = read_field_spec(kind, s)->Ok_0;
        let fs = parse_fields(kind, s)->Ok_0;
        let rest = parse_fields(kind, s.skip(n as int))->Ok_0;
        assert(fs == seq![(t, v)] + rest);
        assert(fs[0] == (t, v));
        assert(fs.drop_first() =~= rest);
        let m2 = fold(m, t, v)->Ok_0;
        assert(apply(m, t, v, s.skip(n as int)) == fold(m, t, v));
        lemma_stream_is_fold(kind, m2, s.skip(n as int), apply, fold);
    }
}

/// An embedded message that decodes on its own bytes decodes the same in
/// place, whatever follows it, when `apply` does not look past the field.
pub proof fn lemma_limited_prefix<M>(
    kind: MessageKind,
    m: M,
    p: Seq<u8>,
    tail: Seq<u8>,
    apply: spec_fn(M, u32, FieldValue, Seq<u8>) -> Result<M, WireError>,
)
    requires
        stream_decode(kind, m, p, apply) is Ok,
        forall|m2: M, t: u32, v: FieldValue, t1: Seq<u8>, t2: Seq<u8>|
            #[trigger] apply(m2, t, v, t1) == #[trigger] apply(m2, t, v, t2),
    ensures
        stream_limited(kind, m, p + tail, p.len() as int, apply) == stream_decode(kind, m, p, apply),
    decreases p.len(),
{
    if p.len() > 0 {
        lemma_read_field_prefix(kind, p, tail);
        lemma_read_field_bounds(kind, p);
        let (t, v, n) = read_field_spec(kind, p)->Ok_0;
        assert((p + tail).skip(n as int) =~= p.skip(n as int) + tail);
        assert(apply(m, t, v, (p + tail).skip(n as int)) == apply(m, t, v, p.skip(n as int)));
        let m2 = apply(m, t, v, p.skip(n as int))->Ok_0;
        lemma_limited_prefix(kind, m2, p.skip(n as int), tail, apply);
    } else {
        assert(p + tail =~= tail);
    }
}

/// Folding over `a + b` folds over `a`, then over `b`.
pub proof fn lemma_fold_concat<M>(
    m: M,
    a: Seq<(u32, FieldValue)>,
    b: Seq<(u32, FieldValue)>,
    apply: spec_fn(M, u32, FieldValue) -> Result<M, WireError>,
)
    ensures
        fold_fields(m, a + b, apply) == (match fold_fields(m, a, apply) {
            Ok(m1) => fold_fields(m1, b, apply),
            Err(e) => Err(e),
        }),
    decreases a.len(),
{
    if a.len() == 0 {
        assert(a + b =~= b);
    } else {
        assert((a + b)[0] == a[0]);
        assert((a + b).drop_first() =~= a.drop_first() + b);
        if let Ok(m2) = apply(m, a[0].0, a[0].1) {
            lemma_fold_concat(m2, a.drop_first(), b, apply);
        }
    }
}

/// Folding over one field applies it.
pub proof fn lemma_fold_single<M>(
    m: M,
    t: u32,
    v: FieldValue,
    apply: spec_fn(M, u32, FieldValue) -> Result<M, WireError>,
)
    ensures
        fold_fields(m, seq![(t, v)], apply) == apply(m, t, v),
{
    let s = seq![(t, v)];
    assert(s.drop_first() =~= Seq::<(u32, FieldValue)>::empty());
    assert(s[0] == (t, v));
    reveal_with_fuel(fold_fields, 2);
}

/// An `int32` field, left out when it holds the default 0.
pub open spec fn opt_int32(t: u32, x: i32) -> Seq<(u32, FieldValue)> {
    if x == 0 {
        seq![]
    } else {
        seq![(t, FieldValue::Varint(int32_wire(x) as u64))]
    }
}

/// What `prost` treats as a default `float`: positive or negative zero
/// (`0.0 != value` is false for both).
pub open spec fn float_is_zero(bits: u32) -> bool {
    bits == 0 || bits == 0x8000_0000
}

/// A `float` field given by its bit pattern, left out when it is zero.
pub open spec fn opt_float(t: u32, bits: u32) -> Seq<(u32, FieldValue)> {
    if float_is_zero(bits) {
        seq![]
    } else {
        seq![(t, FieldValue::Fixed32(bits))]
    }
}

/// A `bool` field, left out when false.
pub open spec fn opt_bool(t: u32, b: bool) -> Seq<(u32, FieldValue)> {
    if b {
        seq![(t, FieldValue::Varint(1))]
    } else {
        seq![]
    }
}

/// A `string` field, left out when empty.
pub open spec fn opt_string(t: u32, s: Seq<char>) -> Seq<(u32, FieldValue)> {
    if s.len() == 0 {
        seq![]
    } else {
        seq![(t, FieldValue::Bytes(vstd::utf8::encode_utf8(s)))]
    }
}

/// The `int32` that the low 32 bits of a decoded varint stand for.
pub open spec fn int32_of(x: u64) -> i32 {
    let low = x % 0x1_0000_0000;
    if low >= 0x8000_0000 {
        (low - 0x1_0000_0000) as i32
    } else {
        low as i32
    }
}

/// Executable form of [`int32_of`].
pub fn int32_from_wire(x: u64) -> (r: i32)
    ensures
        r == int32_of(x),
{
    let low: u64 = x % 0x1_0000_0000u64;
    if low >= 0x8000_0000u64 {
        ((low as i64) - 0x1_0000_0000i64) as i32
    } else {
        low as i32
    }
}

/// An `int32` reads back as itself.
pub proof fn lemma_int32_roundtrip(x: i32)
    ensures
        int32_wire(x) < 0x1_0000_0000_0000_0000,
        int32_of(int32_wire(x) as u64) == x,
{
}

proof fn lemma_encode_single(t: u32, v: FieldValue)
    ensures
        encode_fields(seq![(t, v)]) == field_bytes(t, v),
{
    let s = seq![(t, v)];
    assert(s.drop_last() =~= Seq::<(u32, FieldValue)>::empty());
    assert(s.last() == (t, v));
    reveal_with_fuel(encode_fields, 2);
    assert(Seq::<u8>::empty() + field_bytes(t, v) =~= field_bytes(t, v));
}

/// Writes an `int32` field unless it holds 0.
pub fn put_opt_int32(t: u32, x: i32, buf: &mut Vec<u8>)
    requires
        1 <= t <= MAX_TAG,
    ensures
        final(buf)@ == old(buf)@ + encode_fields(opt_int32(t, x)),
{
    if x != 0 {
        put_int32(t, x, buf);
        proof {
            lemma_encode_single(t, FieldValue::Varint(int32_wire(x) as u64));
            lemma_int32_roundtrip(x);
        }
    } else {
        assert(final(buf)@ =~= old(buf)@ + Seq::<u8>::empty());
    }
}

/// Writes a `float` field given by its bit pattern unless it is zero.
pub fn put_opt_float(t: u32, bits: u32, buf: &mut Vec<u8>)
    requires
        1 <= t <= MAX_TAG,
    ensures
        final(buf)@ == old(buf)@ + encode_fields(opt_float(t, bits)),
{
    if bits != 0 && bits != 0x8000_0000u32 {
        put_fixed32(t, bits, buf);
        proof {
            lemma_encode_single(t, FieldValue::Fixed32(bits));
        }
    } else {
        assert(final(buf)@ =~= old(buf)@ + Seq::<u8>::empty());
    }
}

/// Writes a `bool` field when it is true.
pub fn put_opt_bool(t: u32, b: bool, buf: &mut Vec<u8>)
    requires
        1 <= t <= MAX_TAG,
    ensures
        final(buf)@ == old(buf)@ + encode_fields(opt_bool(t, b)),
{
    if b {
        put_bool(t, b, buf);
        proof {
            lemma_encode_single(t, FieldValue::Varint(1));
        }
    } else {
        assert(final(buf)@ =~= old(buf)@ + Seq::<u8>::empty());
    }
}

/// Writes a `string` field unless it is empty.
pub fn put_opt_string(t: u32, s: &String, buf: &mut Vec<u8>)
    requires
        1 <= t <= MAX_TAG,
    ensures
        final(buf)@ == old(buf)@ + encode_fields(opt_string(t, s@)),
{
    let empty = s.as_str().is_empty();
    if !empty {
        put_string(t, s, buf);
        proof {
            lemma_encode_single(t, FieldValue::Bytes(vstd::utf8::encode_utf8(s@)));
        }
    } else {
        assert(final(buf)@ =~= old(buf)@ + Seq::<u8>::empty());
    }
}

/// Writes a `string` field even when it is empty, as repeated strings are written.
pub fn put_string_always(t: u32, s: &String, buf: &mut Vec<u8>)
    requires
        1 <= t <= MAX_TAG,
    ensures
        final(buf)@ == old(buf)@ + encode_fields(seq![(t, FieldValue::Bytes(vstd::utf8::encode_utf8(s@)))]),
{
    put_string(t, s, buf);
    proof {
        lemma_encode_single(t, FieldValue::Bytes(vstd::utf8::encode_utf8(s@)));
    }
}

/// Writes an embedded message field from its encoded bytes.
pub fn put_message(t: u32, body: &Vec<u8>, buf: &mut Vec<u8>)
    requires
        1 <= t <= MAX_TAG,
    ensures
        final(buf)@ == old(buf)@ + encode_fields(seq![(t, FieldValue::Bytes(body@))]),
{
    put_bytes(t, body, buf);
    proof {
        lemma_encode_single(t, FieldValue::Bytes(body@));
    }
}

/// Copies bytes `a..b` of `s`.
pub fn copy_bytes(s: &[u8], a: usize, b: usize) -> (v: Vec<u8>)
    requires
        a <= b <= s@.len(),
    ensures
        v@ == s@.subrange(a as int, b as int),
{
    let mut v: Vec<u8> = Vec::new();
    let mut i: usize = a;
    while i < b
        invariant
            a <= i <= b <= s@.len(),
            v@ == s@.subrange(a as int, i as int),
        decreases b - i,
    {
        v.push(s[i]);
        i = i + 1;
        assert(v@ =~= s@.subrange(a as int, i as int));
    }
    v
}

/// Calls `String::from_utf8`, which accepts exactly the well-formed UTF-8
/// byte sequences and keeps their characters.
#[verifier::external_body]
pub(crate) fn string_from_utf8(bytes: Vec<u8>) -> (r: Option<String>)
    ensures
        r is Some <==> vstd::utf8::valid_utf8(bytes@),
        r matches Some(s) ==> s@ == vstd::utf8::decode_utf8(bytes@),
{
    String::from_utf8(bytes).ok()
}

/// A string payload, checked to be UTF-8.
pub open spec fn utf8_payload(b: Seq<u8>) -> Result<Seq<char>, WireError> {
    if vstd::utf8::valid_utf8(b) {
        Ok(vstd::utf8::decode_utf8(b))
    } else {
        Err(fault(Fault::InvalidUtf8))
    }
}

/// Reads bytes `a..b` of `s` as a UTF-8 string.
pub fn read_string(s: &[u8], a: usize, b: usize) -> (r: Result<String, WireError>)
    requires
        a <= b <= s@.len(),
    ensures
        match utf8_payload(s@.subrange(a as int, b as int)) {
            Ok(cs) => r matches Ok(st) && st@ == cs,
            Err(e) => r == Err::<String, WireError>(e),
        },
{
    let bytes = copy_bytes(s, a, b);
    match string_from_utf8(bytes) {
        Some(st) => Ok(st),
        None => Err(WireError::of(Fault::InvalidUtf8)),
    }
}

/// A string written as a field payload reads back as itself.
pub proof fn lemma_utf8_payload_roundtrip(cs: Seq<char>)
    ensures
        utf8_payload(vstd::utf8::encode_utf8(cs)) == Ok::<Seq<char>, WireError>(cs),
{
    vstd::utf8::encode_utf8_valid_utf8(cs);
    vstd::utf8::encode_utf8_decode_utf8(cs);
}

} // verus!

verus! {

/// Every field of `fs` is one the encoder writes and `kind` accepts.
pub open spec fn fields_ok(kind: MessageKind, fs: Seq<(u32, FieldValue)>) -> bool {
    forall|i: int| 0 <= i < fs.len() ==> field_ok(kind, #[trigger] fs[i].0, fs[i].1)
}

pub proof fn lemma_fields_ok_concat(kind: MessageKind, a: Seq<(u32, FieldValue)>, b: Seq<(u32, FieldValue)>)
    requires
        fields_ok(kind, a),
        fields_ok(kind, b),
    ensures
        fields_ok(kind, a + b),
{
    assert forall|i: int| 0 <= i < (a + b).len() implies field_ok(kind, #[trigger] (a + b)[i].0, (a + b)[i].1) by {
        if i < a.len() {
            assert((a + b)[i] == a[i]);
        } else {
            assert((a + b)[i] == b[i - a.len()]);
        }
    }
}

pub proof fn lemma_single_ok(kind: MessageKind, t: u32, v: FieldValue)
    requires
        field_ok(kind, t, v),
    ensures
        fields_ok(kind, seq![(t, v)]),
{
    assert(seq![(t, v)][0] == (t, v));
}

pub proof fn lemma_opt_int32_ok(kind: MessageKind, t: u32, x: i32)
    requires
        1 <= t <= MAX_TAG,
        expected_wire_type(kind, t) == Some(0u8),
    ensures
        fields_ok(kind, opt_int32(t, x)),
{
    if x != 0 {
        lemma_single_ok(kind, t, FieldValue::Varint(int32_wire(x) as u64));
    }
}

pub proof fn lemma_opt_float_ok(kind: MessageKind, t: u32, x: u32)
    requires
        1 <= t <= MAX_TAG,
        expected_wire_type(kind, t) == Some(5u8),
    ensures
        fields_ok(kind, opt_float(t, x)),
{
    if !float_is_zero(x) {
        lemma_single_ok(kind, t, FieldValue::Fixed32(x));
    }
}

pub proof fn lemma_opt_bool_ok(kind: MessageKind, t: u32, b: bool)
    requires
        1 <= t <= MAX_TAG,
        expected_wire_type(kind, t) == Some(0u8),
    ensures
        fields_ok(kind, opt_bool(t, b)),
{
    if b {
        lemma_single_ok(kind, t, FieldValue::Varint(1));
    }
}

pub proof fn lemma_opt_string_ok(kind: MessageKind, t: u32, s: Seq<char>)
    requires
        1 <= t <= MAX_TAG,
        expected_wire_type(kind, t) == Some(2u8),
        vstd::utf8::encode_utf8(s).len() < 0x1_0000_0000_0000_0000,
    ensures
        fields_ok(kind, opt_string(t, s)),
{
    if s.len() != 0 {
        lemma_single_ok(kind, t, FieldValue::Bytes(vstd::utf8::encode_utf8(s)));
    }
}

/// Folding over an `int32` field piece sets the field to the value written.
pub proof fn lemma_fold_opt_int32<M>(
    m: M,
    t: u32,
    x: i32,
    apply: spec_fn(M, u32, FieldValue) -> Result<M, WireError>,
)
    ensures
        fold_fields(m, opt_int32(t, x), apply) == (if x == 0 {
            Ok(m)
        } else {
            apply(m, t, FieldValue::Varint(int32_wire(x) as u64))
        }),
{
    if x != 0 {
        lemma_fold_single(m, t, FieldValue::Varint(int32_wire(x) as u64), apply);
    }
}

/// Folding over a `float` field piece.
pub proof fn lemma_fold_opt_float<M>(
    m: M,
    t: u32,
    x: u32,
    apply: spec_fn(M, u32, FieldValue) -> Result<M, WireError>,
)
    ensures
        fold_fields(m, opt_float(t, x), apply) == (if float_is_zero(x) {
            Ok(m)
        } else {
            apply(m, t, FieldValue::Fixed32(x))
        }),
{
    if !float_is_zero(x) {
        lemma_fold_single(m, t, FieldValue::Fixed32(x), apply);
    }
}

/// Folding over a `bool` field piece.
pub proof fn lemma_fold_opt_bool<M>(
    m: M,
    t: u32,
    b: bool,
    apply: spec_fn(M, u32, FieldValue) -> Result<M, WireError>,
)
    ensures
        fold_fields(m, opt_bool(t, b), apply) == (if b {
            apply(m, t, FieldValue::Varint(1))
        } else {
            Ok(m)
        }),
{
    if b {
        lemma_fold_single(m, t, FieldValue::Varint(1), apply);
    }
}

/// Folding over a `string` field piece.
pub proof fn lemma_fold_opt_string<M>(
    m: M,
    t: u32,
    s: Seq<char>,
    apply: spec_fn(M, u32, FieldValue) -> Result<M, WireError>,
)
    ensures
        fold_fields(m, opt_string(t, s), apply) == (if s.len() == 0 {
            Ok(m)
        } else {
            apply(m, t, FieldValue::Bytes(vstd::utf8::encode_utf8(s)))
        }),
{
    if s.len() != 0 {
        lemma_fold_single(m, t, FieldValue::Bytes(vstd::utf8::encode_utf8(s)), apply);
    }
}

} // verus!

verus! {

/// A `float` field piece with a small field number takes at most five bytes.
pub proof fn lemma_opt_float_len(t: u32, x: u32)
    requires
        1 <= t < 16,
    ensures
        encode_fields(opt_float(t, x)).len() <= 5,
{
    if !float_is_zero(x) {
        lemma_encode_single(t, FieldValue::Fixed32(x));
        lemma_varint_len(t as nat * 8 + 5);
    } else {
        assert(encode_fields(opt_float(t, x)) == Seq::<u8>::empty());
    }
}

} // verus!

verus! {

/// The characters of each string.
pub open spec fn strings_view(v: Seq<String>) -> Seq<Seq<char>> {
    v.map_values(|s: String| s@)
}

/// A repeated `string` field: one field per element, empty ones included.
pub open spec fn string_list(t: u32, xs: Seq<Seq<char>>) -> Seq<(u32, FieldValue)> {
    Seq::new(xs.len(), |i: int| (t, FieldValue::Bytes(vstd::utf8::encode_utf8(xs[i]))))
}

/// A string whose UTF-8 length fits the wire's 64-bit length prefix.
pub open spec fn fits(s: Seq<char>) -> bool {
    vstd::utf8::encode_utf8(s).len() < 0x1_0000_0000_0000_0000
}

pub proof fn lemma_string_list_ok(kind: MessageKind, t: u32, xs: Seq<Seq<char>>)
    requires
        1 <= t <= MAX_TAG,
        expected_wire_type(kind, t) == Some(2u8),
        forall|i: int| 0 <= i < xs.len() ==> fits(#[trigger] xs[i]),
    ensures
        fields_ok(kind, string_list(t, xs)),
{
    assert forall|i: int| 0 <= i < string_list(t, xs).len() implies field_ok(
        kind,
        #[trigger] string_list(t, xs)[i].0,
        string_list(t, xs)[i].1,
    ) by {
        assert(fits(xs[i]));
    }
}

} // verus!

verus! {

/// Start of the text of every decode error.
pub const DECODE_ERROR_PREFIX: &'static str = "failed to decode Protobuf message: ";

/// The name of a message, as errors show it.
pub open spec fn message_name(kind: MessageKind) -> Seq<char> {
    match kind {
        MessageKind::Vector3 => "Vector3"@,
        MessageKind::GestureCommand => "GestureCommand"@,
        MessageKind::TaskNode => "TaskNode"@,
        MessageKind::ExecutionPlan => "ExecutionPlan"@,
        MessageKind::ThoughtNode => "ThoughtNode"@,
        MessageKind::InferencePacket => "InferencePacket"@,
    }
}

fn message_name_of(kind: MessageKind) -> (r: &'static str)
    ensures
        r@ == message_name(kind),
{
    match kind {
        MessageKind::Vector3 => "Vector3",
        MessageKind::GestureCommand => "GestureCommand",
        MessageKind::TaskNode => "TaskNode",
        MessageKind::ExecutionPlan => "ExecutionPlan",
        MessageKind::ThoughtNode => "ThoughtNode",
        MessageKind::InferencePacket => "InferencePacket",
    }
}

/// The name of field `t` of `kind`, as errors show it.
pub open spec fn field_name(kind: MessageKind, t: u32) -> Seq<char> {
    match kind {
        MessageKind::Vector3 => {
        if t == 1 {
                "x"@
            } else if t == 2 {
                "y"@
            } else if t == 3 {
                "z"@
            } else {
                ""@
            }
        },
        MessageKind::GestureCommand => {
        if t == 1 {
                "action"@
            } else if t == 2 {
                "intensity"@
            } else if t == 3 {
                "duration_ms"@
            } else if t == 4 {
                "direction"@
            } else if t == 5 {
                "compiler_verified"@
            } else if t == 6 {
                "speed_multiplier"@
            } else if t == 7 {
                "loop_count"@
            } else if t == 8 {
                "blend_mode"@
            } else if t == 9 {
                "priority"@
            } else if t == 10 {
                "easing"@
            } else if t == 11 {
                "target_bone"@
            } else if t == 12 {
                "emotion_tag"@
            } else {
                ""@
            }
        },
        MessageKind::TaskNode => {
        if t == 1 {
                "task_id"@
            } else if t == 2 {
                "tool_name"@
            } else if t == 3 {
                "parameters_json"@
            } else if t == 4 {
                "dependencies"@
            } else {
                ""@
            }
        },
        MessageKind::ExecutionPlan => {
        if t == 1 {
                "plan_id"@
            } else if t == 2 {
                "objective"@
            } else if t == 3 {
                "priority_level"@
            } else if t == 4 {
                "max_retries"@
            } else if t == 5 {
                "timeout_ms"@
            } else if t == 6 {
                "requires_confirmation"@
            } else if t == 7 {
                "parallel_allowed"@
            } else if t == 8 {
                "nodes"@
            } else if t == 9 {
                "estimated_cost_units"@
            } else if t == 10 {
                "compiler_verified"@
            } else {
                ""@
            }
        },
        MessageKind::ThoughtNode => {
        if t == 1 {
                "step_id"@
            } else if t == 2 {
                "reasoning"@
            } else if t == 3 {
                "confidence"@
            } else if t == 4 {
                "evidence_refs"@
            } else {
                ""@
            }
        },
        MessageKind::InferencePacket => {
        if t == 1 {
                "session_id"@
            } else if t == 2 {
                "query_type"@
            } else if t == 3 {
                "confidence_threshold"@
            } else if t == 4 {
                "chain_of_thought"@
            } else if t == 5 {
                "final_answer"@
            } else if t == 6 {
                "overall_confidence"@
            } else if t == 7 {
                "requires_clarification"@
            } else if t == 8 {
                "context_window_used"@
            } else if t == 9 {
                "compiler_verified"@
            } else {
                ""@
            }
        },
    }
}

fn field_name_of(kind: MessageKind, t: u32) -> (r: &'static str)
    ensures
        r@ == field_name(kind, t),
{
    match kind {
        MessageKind::Vector3 => {
        if t == 1 {
                "x"
            } else if t == 2 {
                "y"
            } else if t == 3 {
                "z"
            } else {
                ""
            }
        },
        MessageKind::GestureCommand => {
        if t == 1 {
                "action"
            } else if t == 2 {
                "intensity"
            } else if t == 3 {
                "duration_ms"
            } else if t == 4 {
                "direction"
            } else if t == 5 {
                "compiler_verified"
            } else if t == 6 {
                "speed_multiplier"
            } else if t == 7 {
                "loop_count"
            } else if t == 8 {
                "blend_mode"
            } else if t == 9 {
                "priority"
            } else if t == 10 {
                "easing"
            } else if t == 11 {
                "target_bone"
            } else if t == 12 {
                "emotion_tag"
            } else {
                ""
            }
        },
        MessageKind::TaskNode => {
        if t == 1 {
                "task_id"
            } else if t == 2 {
                "tool_name"
            } else if t == 3 {
                "parameters_json"
            } else if t == 4 {
                "dependencies"
            } else {
                ""
            }
        },
        MessageKind::ExecutionPlan => {
        if t == 1 {
                "plan_id"
            } else if t == 2 {
                "objective"
            } else if t == 3 {
                "priority_level"
            } else if t == 4 {
                "max_retries"
            } else if t == 5 {
                "timeout_ms"
            } else if t == 6 {
                "requires_confirmation"
            } else if t == 7 {
                "parallel_allowed"
            } else if t == 8 {
                "nodes"
            } else if t == 9 {
                "estimated_cost_units"
            } else if t == 10 {
                "compiler_verified"
            } else {
                ""
            }
        },
        MessageKind::ThoughtNode => {
        if t == 1 {
                "step_id"
            } else if t == 2 {
                "reasoning"
            } else if t == 3 {
                "confidence"
            } else if t == 4 {
                "evidence_refs"
            } else {
                ""
            }
        },
        MessageKind::InferencePacket => {
        if t == 1 {
                "session_id"
            } else if t == 2 {
                "query_type"
            } else if t == 3 {
                "confidence_threshold"
            } else if t == 4 {
                "chain_of_thought"
            } else if t == 5 {
                "final_answer"
            } else if t == 6 {
                "overall_confidence"
            } else if t == 7 {
                "requires_clarification"
            } else if t == 8 {
                "context_window_used"
            } else if t == 9 {
                "compiler_verified"
            } else {
                ""
            }
        },
    }
}

/// `<Message>.<field>: `, one field of an error's path.
pub open spec fn step_text(kind: MessageKind, t: u32) -> Seq<char> {
    message_name(kind) + seq!['.'] + field_name(kind, t) + seq![':', ' ']
}

/// The fields an error passed through, innermost first.
pub open spec fn path_text(p: FieldPath) -> Seq<char> {
    match p {
        FieldPath::Empty => seq![],
        FieldPath::One(k, t) => step_text(k, t),
        FieldPath::Two(k1, t1, k2, t2) => step_text(k1, t1) + step_text(k2, t2),
    }
}

/// How a wire type is named in errors.
pub open spec fn wire_type_name(wt: u8) -> Seq<char> {
    if wt == 0 {
        "Varint"@
    } else if wt == 1 {
        "SixtyFourBit"@
    } else if wt == 2 {
        "LengthDelimited"@
    } else if wt == 3 {
        "StartGroup"@
    } else if wt == 4 {
        "EndGroup"@
    } else {
        "ThirtyTwoBit"@
    }
}

fn wire_type_name_of(wt: u8) -> (r: &'static str)
    ensures
        r@ == wire_type_name(wt),
{
    if wt == 0 {
        "Varint"
    } else if wt == 1 {
        "SixtyFourBit"
    } else if wt == 2 {
        "LengthDelimited"
    } else if wt == 3 {
        "StartGroup"
    } else if wt == 4 {
        "EndGroup"
    } else {
        "ThirtyTwoBit"
    }
}

/// What a fault says.
pub open spec fn fault_text(f: Fault) -> Seq<char> {
    match f {
        Fault::InvalidVarint => "invalid varint"@,
        Fault::InvalidKey(k) => "invalid key value: "@ + decimal(k as nat),
        Fault::InvalidWireType(v) => "invalid wire type value: "@ + decimal(v as nat),
        Fault::ZeroTag => "invalid tag value: 0"@,
        Fault::UnexpectedEndGroup => "unexpected end group tag"@,
        Fault::RecursionLimit => "recursion limit reached"@,
        Fault::BufferUnderflow => "buffer underflow"@,
        Fault::WrongWireType { found, expected } => "invalid wire type: "@ + wire_type_name(found)
            + " (expected "@ + wire_type_name(expected) + seq![')'],
        Fault::InvalidUtf8 => "invalid string value: data is not UTF-8 encoded"@,
        Fault::DelimitedLengthExceeded => "delimited length exceeded"@,
    }
}

/// What a decode error says: the fields it passed through, then its fault.
pub open spec fn wire_error_text(e: WireError) -> Seq<char> {
    DECODE_ERROR_PREFIX@ + path_text(e.path) + fault_text(e.fault)
}

fn push_step(out: &mut String, kind: MessageKind, t: u32)
    ensures
        final(out)@ == old(out)@ + step_text(kind, t),
{
    out.append(message_name_of(kind));
    crate::text::push_char(out, '.');
    out.append(field_name_of(kind, t));
    crate::text::push_char(out, ':');
    crate::text::push_char(out, ' ');
    assert(final(out)@ =~= old(out)@ + step_text(kind, t));
}

impl WireError {
    /// The text of this error.
    pub fn message(&self) -> (r: String)
        ensures
            r@ == wire_error_text(*self),
    {
        let mut out = String::from_str(DECODE_ERROR_PREFIX);
        match self.path {
            FieldPath::Empty => {},
            FieldPath::One(k, t) => push_step(&mut out, k, t),
            FieldPath::Two(k1, t1, k2, t2) => {
                push_step(&mut out, k1, t1);
                push_step(&mut out, k2, t2);
            },
        }
        let ghost before = out@;
        match self.fault {
            Fault::InvalidVarint => out.append("invalid varint"),
            Fault::InvalidKey(k) => {
                out.append("invalid key value: ");
                crate::text::push_decimal_u64(&mut out, k);
            },
            Fault::InvalidWireType(v) => {
                out.append("invalid wire type value: ");
                crate::text::push_decimal_u64(&mut out, v);
            },
            Fault::ZeroTag => out.append("invalid tag value: 0"),
            Fault::UnexpectedEndGroup => out.append("unexpected end group tag"),
            Fault::RecursionLimit => out.append("recursion limit reached"),
            Fault::BufferUnderflow => out.append("buffer underflow"),
            Fault::WrongWireType { found, expected } => {
                out.append("invalid wire type: ");
                out.append(wire_type_name_of(found));
                out.append(" (expected ");
                out.append(wire_type_name_of(expected));
                crate::text::push_char(&mut out, ')');
            },
            Fault::InvalidUtf8 => out.append("invalid string value: data is not UTF-8 encoded"),
            Fault::DelimitedLengthExceeded => out.append("delimited length exceeded"),
        }
        assert(out@ =~= DECODE_ERROR_PREFIX@ + path_text(self.path) + fault_text(self.fault));
        out
    }
}

} // verus!
