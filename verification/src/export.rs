//! What an export writes: the file names, the xxd-style dump and the
//! annotated hex report. The files themselves are written by the caller.

use vstd::prelude::*;
use vstd::string::StringExecFns;
use crate::hex::{format_hex, hex_digit, hex_string};
use crate::text::{decimal, lowercase_of, push_char, push_decimal, to_lowercase};
use crate::wire::copy_bytes;

verus! {

/// The characters that the first eight bytes of a session id encode.
pub open spec fn id_prefix(id: Seq<char>) -> Seq<char> {
    vstd::utf8::decode_utf8(vstd::utf8::encode_utf8(id).subrange(0, 8))
}

/// The session id can be cut after its eighth byte: it has at least eight
/// bytes and the eighth ends a character.
pub open spec fn id_cut_ok(id: Seq<char>) -> bool {
    vstd::utf8::is_char_boundary(vstd::utf8::encode_utf8(id), 8)
}

/// The first eight bytes of a session id.
pub fn session_prefix(id: &str) -> (r: &str)
    requires
        id_cut_ok(id@),
    ensures
        r@ == id_prefix(id@),
{
    let (head, _tail) = id.split_at(8);
    proof {
        vstd::utf8::encode_utf8_decode_utf8(head@);
    }
    head
}

/// `<stamp>_<schema in lower case>_`, the start of every export's name.
pub open spec fn name_stem(stamp: Seq<char>, schema: Seq<char>) -> Seq<char> {
    stamp + seq!['_'] + lowercase_of(schema) + seq!['_']
}

/// `<stamp>_<schema>_<id prefix>_<byte count>.bin`.
pub open spec fn binary_file_name_of(stamp: Seq<char>, schema: Seq<char>, id: Seq<char>, size: nat) -> Seq<char> {
    name_stem(stamp, schema) + id_prefix(id) + seq!['_'] + decimal(size) + seq!['.', 'b', 'i', 'n']
}

/// `<stamp>_<schema>_<id prefix>_<payload length in bytes>.json`.
pub open spec fn json_file_name_of(stamp: Seq<char>, schema: Seq<char>, id: Seq<char>, payload: Seq<char>) -> Seq<char> {
    name_stem(stamp, schema) + id_prefix(id) + seq!['_'] + decimal(
        vstd::utf8::encode_utf8(payload).len(),
    ) + seq!['.', 'j', 's', 'o', 'n']
}

/// `<stamp>_<schema>_hexreport_<id prefix>.txt`.
pub open spec fn report_file_name_of(stamp: Seq<char>, schema: Seq<char>, id: Seq<char>) -> Seq<char> {
    name_stem(stamp, schema) + seq!['h', 'e', 'x', 'r', 'e', 'p', 'o', 'r', 't', '_'] + id_prefix(id)
        + seq!['.', 't', 'x', 't']
}

fn push_stem(out: &mut String, stamp: &str, schema: &str)
    ensures
        final(out)@ == old(out)@ + name_stem(stamp@, schema@),
{
    out.append(stamp);
    push_char(out, '_');
    let lower = to_lowercase(schema);
    out.append(lower.as_str());
    push_char(out, '_');
    assert(final(out)@ =~= old(out)@ + name_stem(stamp@, schema@));
}

fn push_chars(out: &mut String, cs: &[char])
    ensures
        final(out)@ == old(out)@ + cs@,
{
    let mut i: usize = 0;
    while i < cs.len()
        invariant
            i <= cs@.len(),
            out@ == old(out)@ + cs@.take(i as int),
        decreases cs@.len() - i,
    {
        push_char(out, cs[i]);
        i = i + 1;
        assert(out@ =~= old(out)@ + cs@.take(i as int));
    }
    assert(cs@.take(i as int) =~= cs@);
}

/// The name of a binary export.
pub fn binary_file_name(stamp: &str, schema: &str, session_id: &str, size: usize) -> (r: String)
    requires
        id_cut_ok(session_id@),
    ensures
        r@ == binary_file_name_of(stamp@, schema@, session_id@, size as nat),
{
    let mut out = String::new();
    push_stem(&mut out, stamp, schema);
    out.append(session_prefix(session_id));
    push_char(&mut out, '_');
    push_decimal(&mut out, size);
    push_chars(&mut out, &['.', 'b', 'i', 'n']);
    assert(out@ =~= binary_file_name_of(stamp@, schema@, session_id@, size as nat));
    out
}

/// The name of a JSON export.
pub fn json_file_name(stamp: &str, schema: &str, session_id: &str, payload: &str) -> (r: String)
    requires
        id_cut_ok(session_id@),
        vstd::utf8::encode_utf8(payload@).len() <= usize::MAX,
    ensures
        r@ == json_file_name_of(stamp@, schema@, session_id@, payload@),
{
    let mut out = String::new();
    push_stem(&mut out, stamp, schema);
    out.append(session_prefix(session_id));
    push_char(&mut out, '_');
    push_decimal(&mut out, payload.len());
    push_chars(&mut out, &['.', 'j', 's', 'o', 'n']);
    assert(out@ =~= json_file_name_of(stamp@, schema@, session_id@, payload@));
    out
}

/// The name of a hex report.
pub fn report_file_name(stamp: &str, schema: &str, session_id: &str) -> (r: String)
    requires
        id_cut_ok(session_id@),
    ensures
        r@ == report_file_name_of(stamp@, schema@, session_id@),
{
    let mut out = String::new();
    push_stem(&mut out, stamp, schema);
    push_chars(&mut out, &['h', 'e', 'x', 'r', 'e', 'p', 'o', 'r', 't', '_']);
    out.append(session_prefix(session_id));
    push_chars(&mut out, &['.', 't', 'x', 't']);
    assert(out@ =~= report_file_name_of(stamp@, schema@, session_id@));
    out
}

} // verus!

verus! {

/// Upper-case hex digits of `n`, with no leading zeros.
pub open spec fn hex_upper(n: nat) -> Seq<char>
    decreases n,
{
    if n < 16 {
        seq![hex_digit(n)]
    } else {
        hex_upper(n / 16).push(hex_digit(n % 16))
    }
}

/// `s` with zeros in front up to `w` characters, as `{:0w}` pads.
pub open spec fn zero_padded(s: Seq<char>, w: nat) -> Seq<char> {
    if s.len() >= w {
        s
    } else {
        Seq::new((w - s.len()) as nat, |i: int| '0') + s
    }
}

/// `s` with spaces after it up to `w` characters, as `{:<w}` pads.
pub open spec fn space_padded(s: Seq<char>, w: nat) -> Seq<char> {
    if s.len() >= w {
        s
    } else {
        s + Seq::new((w - s.len()) as nat, |i: int| ' ')
    }
}

/// A byte as shown in the ASCII column: printable ASCII as itself, any
/// other byte as `.`.
pub open spec fn ascii_or_dot(b: u8) -> char {
    if 0x20 <= b < 0x7F {
        b as char
    } else {
        '.'
    }
}

/// One dump row: the offset in eight hex digits, the bytes in hex padded to
/// the width of sixteen, and their ASCII between bars.
pub open spec fn xxd_row(offset: nat, chunk: Seq<u8>) -> Seq<char> {
    zero_padded(hex_upper(offset), 8) + seq![' ', ' '] + space_padded(hex_string(chunk), 47) + seq![
        ' ',
        ' ',
        '|',
    ] + chunk.map_values(|b: u8| ascii_or_dot(b)) + seq!['|', '\n']
}

/// The rows of `b`, sixteen bytes each, the first at `offset`.
pub open spec fn xxd_rows(b: Seq<u8>, offset: nat) -> Seq<char>
    decreases b.len(),
{
    if b.len() == 0 {
        seq![]
    } else if b.len() <= 16 {
        xxd_row(offset, b)
    } else {
        xxd_row(offset, b.take(16)) + xxd_rows(b.skip(16), offset + 16)
    }
}

fn push_hex_upper(out: &mut String, n: usize)
    ensures
        final(out)@ == old(out)@ + hex_upper(n as nat),
    decreases n,
{
    if n >= 16 {
        push_hex_upper(out, n / 16);
    }
    let d: u8 = (n % 16) as u8;
    push_char(out, crate::hex::hex_digit_char(d));
    assert(final(out)@ =~= old(out)@ + hex_upper(n as nat));
}

fn hex_width(n: usize) -> (r: usize)
    ensures
        r == hex_upper(n as nat).len(),
        r <= n + 1,
    decreases n,
{
    if n < 16 {
        1
    } else {
        let k = hex_width(n / 16);
        k + 1
    }
}


proof fn lemma_hex_string_len(b: Seq<u8>)
    requires
        b.len() >= 1,
    ensures
        hex_string(b).len() == 3 * b.len() - 1,
    decreases b.len(),
{
    if b.len() > 1 {
        lemma_hex_string_len(b.drop_first());
    }
}

fn push_repeat(out: &mut String, c: char, k: usize)
    ensures
        final(out)@ == old(out)@ + Seq::new(k as nat, |i: int| c),
{
    let mut j: usize = 0;
    while j < k
        invariant
            j <= k,
            out@ == old(out)@ + Seq::new(j as nat, |i: int| c),
        decreases k - j,
    {
        push_char(out, c);
        j = j + 1;
        assert(out@ =~= old(out)@ + Seq::new(j as nat, |i: int| c));
    }
}

fn push_offset(out: &mut String, offset: usize)
    ensures
        final(out)@ == old(out)@ + zero_padded(hex_upper(offset as nat), 8),
{
    let w = hex_width(offset);
    if w < 8 {
        push_repeat(out, '0', 8 - w);
    }
    let ghost mid = out@;
    push_hex_upper(out, offset);
    assert(final(out)@ =~= old(out)@ + zero_padded(hex_upper(offset as nat), 8));
}

fn push_ascii(out: &mut String, chunk: &[u8])
    ensures
        final(out)@ == old(out)@ + chunk@.map_values(|b: u8| ascii_or_dot(b)),
{
    let mut i: usize = 0;
    while i < chunk.len()
        invariant
            i <= chunk@.len(),
            out@ == old(out)@ + chunk@.take(i as int).map_values(|b: u8| ascii_or_dot(b)),
        decreases chunk@.len() - i,
    {
        let b = chunk[i];
        let c = if b >= 0x20 && b < 0x7F {
            b as char
        } else {
            '.'
        };
        push_char(out, c);
        i = i + 1;
        assert(out@ =~= old(out)@ + chunk@.take(i as int).map_values(|b: u8| ascii_or_dot(b)));
    }
    assert(chunk@.take(i as int) =~= chunk@);
}

fn push_xxd_row(out: &mut String, offset: usize, chunk: &[u8])
    requires
        1 <= chunk@.len() <= 16,
    ensures
        final(out)@ == old(out)@ + xxd_row(offset as nat, chunk@),
{
    push_offset(out, offset);
    push_char(out, ' ');
    push_char(out, ' ');
    let hex = format_hex(chunk);
    proof {
        lemma_hex_string_len(chunk@);
    }
    out.append(hex.as_str());
    let k = chunk.len();
    push_repeat(out, ' ', 48 - 3 * k);
    push_char(out, ' ');
    push_char(out, ' ');
    push_char(out, '|');
    push_ascii(out, chunk);
    push_char(out, '|');
    push_char(out, '\n');
    assert(final(out)@ =~= old(out)@ + xxd_row(offset as nat, chunk@));
}

/// The xxd-style dump of `binary`: sixteen bytes a row.
pub fn hex_dump(binary: &[u8]) -> (r: String)
    ensures
        r@ == xxd_rows(binary@, 0),
{
    let mut out = String::new();
    let mut pos: usize = 0;
    let n = binary.len();
    assert(binary@.skip(0) =~= binary@);
    while pos < n
        invariant
            pos <= n,
            n == binary@.len(),
            xxd_rows(binary@, 0) == out@ + xxd_rows(binary@.skip(pos as int), pos as nat),
        decreases n - pos,
    {
        let end = if n - pos > 16 {
            pos + 16
        } else {
            n
        };
        let chunk = copy_bytes(binary, pos, end);
        let ghost before = out@;
        push_xxd_row(&mut out, pos, chunk.as_slice());
        let ghost rest = binary@.skip(pos as int);
        assert(binary@.subrange(pos as int, end as int) == chunk@);
        if n - pos > 16 {
            assert(rest.take(16) =~= chunk@);
            assert(rest.skip(16) =~= binary@.skip(end as int));
        } else {
            assert(rest =~= chunk@);
            assert(binary@.skip(end as int) =~= Seq::<u8>::empty());
        }
        assert(before + xxd_row(pos as nat, chunk@) + xxd_rows(binary@.skip(end as int), end as nat)
            =~= out@ + xxd_rows(binary@.skip(end as int), end as nat));
        pos = end;
    }
    assert(binary@.skip(pos as int) =~= Seq::<u8>::empty());
    assert(out@ + Seq::<char>::empty() =~= out@);
    out
}


/// The report's title block, up to the session id.
pub const REPORT_HEAD: &'static str = "═══════════════════════════════════════════════════════════════════════\n  GLYPHERIS COMPILER — HEX DUMP REPORT\n  Session ID : ";

/// Before the time of the report.
pub const REPORT_TIMESTAMP: &'static str = "\n  Timestamp  : ";

/// Before the schema name.
pub const REPORT_SCHEMA: &'static str = "\n  Schema     : ";

/// Before the byte count.
pub const REPORT_BYTE_COUNT: &'static str = "\n  Byte Count : ";

/// After the byte count, before the generation speed.
pub const REPORT_TPS: &'static str = " bytes\n  TPS        : ";

/// Closes the title block and opens the intent section.
pub const REPORT_INTENT: &'static str = "\n═══════════════════════════════════════════════════════════════════════\n\n[ ORIGINAL INTENT ]\n";

/// Opens the JSON payload section.
pub const REPORT_PAYLOAD: &'static str = "\n\n[ GBNF-VALIDATED JSON PAYLOAD ]\n";

/// Opens the inline hex section.
pub const REPORT_HEX_INLINE: &'static str = "\n\n[ PROTOBUF BINARY — HEX INLINE ]\n";

/// Opens the dump section.
pub const REPORT_XXD: &'static str = "\n\n[ PROTOBUF BINARY — xxd DUMP ]\n";

/// Closes the report.
pub const REPORT_FOOT: &'static str = "\n═══════════════════════════════════════════════════════════════════════\n";

/// The text of a hex report: title block, intent, payload, inline hex and
/// dump, `tps` being the speed already written with two decimals.
pub open spec fn report_text(
    session_id: Seq<char>,
    now: Seq<char>,
    schema: Seq<char>,
    byte_count: nat,
    tps: Seq<char>,
    intent: Seq<char>,
    json_payload: Seq<char>,
    hex_text: Seq<char>,
    dump: Seq<char>,
) -> Seq<char> {
    REPORT_HEAD@ + session_id + REPORT_TIMESTAMP@ + now + REPORT_SCHEMA@ + schema + REPORT_BYTE_COUNT@
        + decimal(byte_count) + REPORT_TPS@ + tps + REPORT_INTENT@ + intent + REPORT_PAYLOAD@
        + json_payload + REPORT_HEX_INLINE@ + hex_text + REPORT_XXD@ + dump + REPORT_FOOT@
}

/// Writes the hex report of a packet.
pub fn hex_report(
    binary: &[u8],
    json_payload: &str,
    hex_text: &str,
    schema: &str,
    intent: &str,
    session_id: &str,
    now: &str,
    tps: &str,
) -> (r: String)
    ensures
        r@ == report_text(
            session_id@,
            now@,
            schema@,
            binary@.len(),
            tps@,
            intent@,
            json_payload@,
            hex_text@,
            xxd_rows(binary@, 0),
        ),
{
    let dump = hex_dump(binary);
    let mut out = String::from_str(REPORT_HEAD);
    out.append(session_id);
    out.append(REPORT_TIMESTAMP);
    out.append(now);
    out.append(REPORT_SCHEMA);
    out.append(schema);
    out.append(REPORT_BYTE_COUNT);
    push_decimal(&mut out, binary.len());
    out.append(REPORT_TPS);
    out.append(tps);
    out.append(REPORT_INTENT);
    out.append(intent);
    out.append(REPORT_PAYLOAD);
    out.append(json_payload);
    out.append(REPORT_HEX_INLINE);
    out.append(hex_text);
    out.append(REPORT_XXD);
    out.append(dump.as_str());
    out.append(REPORT_FOOT);
    out
}

} // verus!
