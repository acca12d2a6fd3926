//! The framing used by the local broadcast bridge: a 12-byte header
//! (`GLPH` magic, schema id, payload length, both little-endian `u32`)
//! followed by the raw Protobuf payload.

use vstd::prelude::*;
use crate::text::str_eq;

verus! {

/// The TCP port the broadcast bridge listens on.
pub const SOCKET_PORT: u16 = 7432;

/// The four magic bytes `GLPH` that open every frame.
pub open spec fn magic() -> Seq<u8> {
    seq![0x47u8, 0x4Cu8, 0x50u8, 0x48u8]
}

/// Numeric id of a schema name on the wire; unknown names map to 0.
pub open spec fn spec_schema_id(schema: Seq<char>) -> u32 {
    if schema == "GestureCommand"@ {
        0
    } else if schema == "ExecutionPlan"@ {
        1
    } else if schema == "InferencePacket"@ {
        2
    } else {
        0
    }
}

/// Little-endian bytes of a 32-bit value.
pub open spec fn le32(x: u32) -> Seq<u8> {
    seq![
        (x % 256) as u8,
        ((x / 256) % 256) as u8,
        ((x / 65536) % 256) as u8,
        ((x / 16777216) % 256) as u8,
    ]
}

/// The payload length as the header stores it: reduced modulo 2^32.
pub open spec fn header_len(n: nat) -> u32 {
    (n % 0x1_0000_0000) as u32
}

/// The complete frame for `payload` under `schema`.
pub open spec fn spec_frame(schema: Seq<char>, payload: Seq<u8>) -> Seq<u8> {
    magic() + le32(spec_schema_id(schema)) + le32(header_len(payload.len())) + payload
}

/// Maps a schema name to its numeric id on the wire.
pub fn schema_id(schema: &str) -> (id: u32)
    ensures
        id == spec_schema_id(schema@),
{
    if str_eq(schema, "GestureCommand") {
        0
    } else if str_eq(schema, "ExecutionPlan") {
        1
    } else if str_eq(schema, "InferencePacket") {
        2
    } else {
        0
    }
}

/// Appends the little-endian bytes of `x` to `out`.
pub fn push_le32(out: &mut Vec<u8>, x: u32)
    ensures
        final(out)@ == old(out)@ + le32(x),
{
    out.push((x % 256) as u8);
    out.push(((x / 256) % 256) as u8);
    out.push(((x / 65536) % 256) as u8);
    out.push(((x / 16777216) % 256) as u8);
    assert(final(out)@ =~= old(out)@ + le32(x));
}

/// Frames a binary payload with the `GLPH` header.
pub fn frame_packet(schema: &str, payload: &[u8]) -> (frame: Vec<u8>)
    ensures
        frame@ == spec_frame(schema@, payload@),
        frame@.len() == 12 + payload@.len(),
{
    let mut frame: Vec<u8> = Vec::new();
    frame.push(0x47u8);
    frame.push(0x4Cu8);
    frame.push(0x50u8);
    frame.push(0x48u8);
    push_le32(&mut frame, schema_id(schema));
    let n: usize = payload.len();
    let len32: u32 = ((n as u64) % 0x1_0000_0000u64) as u32;
    push_le32(&mut frame, len32);
    frame.extend_from_slice(payload);
    assert(frame@ =~= spec_frame(schema@, payload@));
    frame
}

} // verus!

verus! {

/// The control frame a client receives on connecting: the magic, schema id
/// `0xFFFFFFFF` and an empty payload.
pub open spec fn spec_welcome_frame() -> Seq<u8> {
    magic() + seq![0xFFu8, 0xFFu8, 0xFFu8, 0xFFu8] + seq![0u8, 0u8, 0u8, 0u8]
}

/// The control frame sent to each newly connected client.
pub fn welcome_frame() -> (frame: Vec<u8>)
    ensures
        frame@ == spec_welcome_frame(),
{
    let mut frame: Vec<u8> = Vec::new();
    frame.push(0x47u8);
    frame.push(0x4Cu8);
    frame.push(0x50u8);
    frame.push(0x48u8);
    push_le32(&mut frame, 0xFFFF_FFFFu32);
    push_le32(&mut frame, 0u32);
    assert(frame@ =~= spec_welcome_frame());
    frame
}

/// The client count after a client leaves: one less, never below zero.
pub open spec fn count_after_leave(count: nat) -> nat {
    if count == 0 {
        0
    } else {
        (count - 1) as nat
    }
}

/// The client count after a client connects.
pub fn client_joined(count: usize) -> (r: usize)
    requires
        count < usize::MAX,
    ensures
        r == count + 1,
{
    count + 1
}

/// The client count after a client leaves.
pub fn client_left(count: usize) -> (r: usize)
    ensures
        r == count_after_leave(count as nat),
{
    count.saturating_sub(1)
}

/// A client that connects and then leaves leaves the count as it was.
pub proof fn lemma_join_then_leave(count: nat)
    ensures
        count_after_leave(count + 1) == count,
{
}

} // verus!

verus! {

/// What a client reads from the bridge's byte stream: frame after frame,
/// each the `GLPH` magic, a schema id, a payload length and that many
/// payload bytes; nothing when the stream does not split into whole frames.
pub open spec fn read_frames(buf: Seq<u8>) -> Option<Seq<(u32, Seq<u8>)>>
    decreases buf.len(),
{
    if buf.len() == 0 {
        Some(seq![])
    } else if buf.len() < 12 || buf.subrange(0, 4) != magic() {
        None
    } else {
        let id = crate::wire::le32_value(buf.subrange(4, 8));
        let n = crate::wire::le32_value(buf.subrange(8, 12)) as int;
        if buf.len() < 12 + n {
            None
        } else {
            match read_frames(buf.skip(12 + n)) {
                Some(rest) => Some(seq![(id, buf.subrange(12, 12 + n))] + rest),
                None => None,
            }
        }
    }
}

/// Frames are self-delimiting: a frame followed by more of the stream
/// reads as its schema id and payload, then whatever the rest reads as.
pub proof fn lemma_read_frame(schema: Seq<char>, payload: Seq<u8>, rest: Seq<u8>)
    requires
        payload.len() < 0x1_0000_0000,
    ensures
        read_frames(spec_frame(schema, payload) + rest) == match read_frames(rest) {
            Some(fs) => Some(seq![(spec_schema_id(schema), payload)] + fs),
            None => None::<Seq<(u32, Seq<u8>)>>,
        },
{
    let f = spec_frame(schema, payload);
    let buf = f + rest;
    let id = spec_schema_id(schema);
    let n = header_len(payload.len());
    assert(n == payload.len());
    assert(buf.subrange(0, 4) =~= magic());
    assert(buf.subrange(4, 8) =~= le32(id));
    assert(buf.subrange(8, 12) =~= le32(n));
    crate::wire::lemma_le32_roundtrip(id, seq![]);
    crate::wire::lemma_le32_roundtrip(n, seq![]);
    assert(le32(id) + seq![] =~= le32(id));
    assert(le32(n) + seq![] =~= le32(n));
    assert(buf.subrange(12, 12 + n) =~= payload);
    assert(buf.skip(12 + n) =~= rest);
}

/// Two frames sent one after the other read back as their two payloads,
/// with nothing left over.
pub proof fn lemma_two_frames(s1: Seq<char>, p1: Seq<u8>, s2: Seq<char>, p2: Seq<u8>)
    requires
        p1.len() < 0x1_0000_0000,
        p2.len() < 0x1_0000_0000,
    ensures
        read_frames(spec_frame(s1, p1) + spec_frame(s2, p2)) == Some(
            seq![(spec_schema_id(s1), p1), (spec_schema_id(s2), p2)],
        ),
{
    lemma_read_frame(s2, p2, seq![]);
    assert(spec_frame(s2, p2) + seq![] =~= spec_frame(s2, p2));
    assert(read_frames(Seq::<u8>::empty()) == Some(Seq::<(u32, Seq<u8>)>::empty()));
    lemma_read_frame(s1, p1, spec_frame(s2, p2));
    assert(seq![(spec_schema_id(s1), p1)] + (seq![(spec_schema_id(s2), p2)] + Seq::<(u32, Seq<u8>)>::empty())
        =~= seq![(spec_schema_id(s1), p1), (spec_schema_id(s2), p2)]);
}

} // verus!
