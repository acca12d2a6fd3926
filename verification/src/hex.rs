//! Hex text of packets: the space-separated form kept in the session log,
//! read back when a session is executed or exported.

use vstd::prelude::*;
use crate::text::{chars_of, is_whitespace, push_char, unicode_white_space};

verus! {

/// The upper-case hex digit for `d` (below 16).
pub open spec fn hex_digit(d: nat) -> char {
    if d < 10 {
        (d + 48) as char
    } else {
        (d + 55) as char
    }
}

/// The two upper-case hex digits of a byte, as `{:02X}` writes them.
pub open spec fn byte_hex(b: u8) -> Seq<char> {
    seq![hex_digit(b as nat / 16), hex_digit(b as nat % 16)]
}

/// The bytes as two-digit upper-case hex, separated by single spaces.
pub open spec fn hex_string(b: Seq<u8>) -> Seq<char>
    decreases b.len(),
{
    if b.len() == 0 {
        seq![]
    } else if b.len() == 1 {
        byte_hex(b[0])
    } else {
        byte_hex(b[0]) + seq![' '] + hex_string(b.drop_first())
    }
}

/// The digit character for `d`.
pub fn hex_digit_char(d: u8) -> (c: char)
    requires
        d < 16,
    ensures
        c == hex_digit(d as nat),
{
    if d < 10 {
        (d + 48) as char
    } else {
        (d + 55) as char
    }
}

/// Appends the two hex digits of `b`.
pub fn push_byte_hex(out: &mut String, b: u8)
    ensures
        final(out)@ == old(out)@ + byte_hex(b),
{
    push_char(out, hex_digit_char(b / 16));
    push_char(out, hex_digit_char(b % 16));
    assert(final(out)@ =~= old(out)@ + byte_hex(b));
}

proof fn lemma_hex_string_snoc(b: Seq<u8>)
    requires
        b.len() >= 2,
    ensures
        hex_string(b) == hex_string(b.drop_last()) + seq![' '] + byte_hex(b.last()),
    decreases b.len(),
{
    if b.len() == 2 {
        assert(b.drop_first() =~= seq![b[1]]);
        assert(b.drop_last() =~= seq![b[0]]);
        assert(hex_string(seq![b[1]]) == byte_hex(b[1]));
        assert(hex_string(seq![b[0]]) == byte_hex(b[0]));
        assert(b.last() == b[1]);
    } else {
        lemma_hex_string_snoc(b.drop_first());
        let mid = b.drop_first().drop_last();
        assert(mid =~= b.drop_last().drop_first());
        assert(b.drop_last()[0] == b[0]);
        assert(b.drop_first().last() == b.last());
        assert(hex_string(b.drop_last()) == byte_hex(b[0]) + seq![' '] + hex_string(mid));
        assert(hex_string(b) == byte_hex(b[0]) + seq![' '] + (hex_string(mid) + seq![' '] + byte_hex(
            b.last(),
        )));
        assert(byte_hex(b[0]) + seq![' '] + (hex_string(mid) + seq![' '] + byte_hex(b.last()))
            =~= byte_hex(b[0]) + seq![' '] + hex_string(mid) + seq![' '] + byte_hex(b.last()));
    }
}

/// Formats bytes as space-separated two-digit upper-case hex.
pub fn format_hex(bytes: &[u8]) -> (r: String)
    ensures
        r@ == hex_string(bytes@),
{
    let mut out = String::new();
    let mut i: usize = 0;
    while i < bytes.len()
        invariant
            i <= bytes@.len(),
            out@ == hex_string(bytes@.take(i as int)),
        decreases bytes@.len() - i,
    {
        if i > 0 {
            push_char(&mut out, ' ');
        }
        push_byte_hex(&mut out, bytes[i]);
        proof {
            let t = bytes@.take(i + 1);
            assert(t.drop_last() =~= bytes@.take(i as int));
            assert(t.last() == bytes@[i as int]);
            if i > 0 {
                lemma_hex_string_snoc(t);
            } else {
                assert(t =~= seq![bytes@[0]]);
            }
        }
        i = i + 1;
    }
    assert(bytes@.take(i as int) =~= bytes@);
    out
}

/// The whitespace-separated words of `s`, `cur` being the word in progress.
pub open spec fn split_words(s: Seq<char>, cur: Seq<char>) -> Seq<Seq<char>>
    decreases s.len(),
{
    if s.len() == 0 {
        if cur.len() > 0 {
            seq![cur]
        } else {
            seq![]
        }
    } else if unicode_white_space(s[0]) {
        (if cur.len() > 0 {
            seq![cur]
        } else {
            seq![]
        }) + split_words(s.drop_first(), seq![])
    } else {
        split_words(s.drop_first(), cur.push(s[0]))
    }
}

/// The value of a hex digit character, if it is one.
pub open spec fn hex_value(c: char) -> Option<nat> {
    let u = c as u32;
    if 48 <= u <= 57 {
        Some((u - 48) as nat)
    } else if 65 <= u <= 70 {
        Some((u - 55) as nat)
    } else if 97 <= u <= 102 {
        Some((u - 87) as nat)
    } else {
        None
    }
}

/// Every character of `ds` is a hex digit.
pub open spec fn all_hex(ds: Seq<char>) -> bool {
    forall|i: int| 0 <= i < ds.len() ==> hex_value(#[trigger] ds[i]) is Some
}

/// The number the hex digits `ds` spell.
pub open spec fn digits_value(ds: Seq<char>) -> nat
    decreases ds.len(),
{
    if ds.len() == 0 {
        0
    } else {
        digits_value(ds.drop_last()) * 16 + hex_value(ds.last())->0
    }
}

/// What `u8::from_str_radix(word, 16)` gives: an optional `+` followed by
/// at least one hex digit, and a value that fits in a byte.
pub open spec fn parse_hex_byte(word: Seq<char>) -> Option<u8> {
    let ds = if word.len() > 1 && word[0] == '+' {
        word.drop_first()
    } else {
        word
    };
    if ds.len() > 0 && all_hex(ds) && digits_value(ds) <= 255 {
        Some(digits_value(ds) as u8)
    } else {
        None
    }
}

/// The bytes a hex text stands for: each whitespace-separated word read as
/// a hex byte, and 0 for a word that is not one.
pub open spec fn hex_bytes(text: Seq<char>) -> Seq<u8> {
    split_words(text, seq![]).map_values(|w: Seq<char>| word_byte(w))
}

/// The byte a word stands for, or 0.
pub open spec fn word_byte(w: Seq<char>) -> u8 {
    match parse_hex_byte(w) {
        Some(b) => b,
        None => 0u8,
    }
}

/// Reads one word as a hex byte, or 0 when it is not one.
pub fn word_to_byte(w: &Vec<char>) -> (r: u8)
    ensures
        r == word_byte(w@),
{
    let n = w.len();
    let mut start: usize = 0;
    if n > 1 && w[0] == '+' {
        start = 1;
    }
    let ghost ds = if w@.len() > 1 && w@[0] == '+' {
        w@.drop_first()
    } else {
        w@
    };
    assert(ds =~= w@.skip(start as int));
    if start >= n {
        return 0;
    }
    let mut v: u32 = 0;
    let mut over = false;
    let mut i: usize = start;
    assert(w@.subrange(start as int, start as int) =~= Seq::<char>::empty());
    while i < n
        invariant
            start <= i <= n,
            n == w@.len(),
            ds == w@.skip(start as int),
            ds == (if w@.len() > 1 && w@[0] == '+' {
                w@.drop_first()
            } else {
                w@
            }),
            all_hex(w@.subrange(start as int, i as int)),
            !over ==> v as nat == digits_value(w@.subrange(start as int, i as int)) && v <= 255,
            over ==> digits_value(w@.subrange(start as int, i as int)) > 255,
        decreases n - i,
    {
        let c = w[i];
        let u = c as u32;
        let d: u32 = if 48 <= u && u <= 57 {
            u - 48
        } else if 65 <= u && u <= 70 {
            u - 55
        } else if 97 <= u && u <= 102 {
            u - 87
        } else {
            assert(!all_hex(ds)) by {
                assert(ds[i - start] == c);
                assert(hex_value(ds[i - start]) is None);
            }
            return 0;
        };
        let ghost pre = w@.subrange(start as int, i as int);
        let ghost next = w@.subrange(start as int, i + 1);
        assert(next.drop_last() =~= pre);
        assert(next.last() == c);
        assert(all_hex(next)) by {
            assert forall|j: int| 0 <= j < next.len() implies hex_value(#[trigger] next[j]) is Some by {
                if j < pre.len() {
                    assert(next[j] == pre[j]);
                }
            }
        }
        if !over {
            let nv: u32 = v * 16 + d;
            if nv > 255 {
                over = true;
            } else {
                v = nv;
            }
        } else {
            assert(digits_value(next) >= digits_value(pre)) by (nonlinear_arith)
                requires
                    digits_value(next) == digits_value(pre) * 16 + hex_value(c)->0,
            ;
        }
        i = i + 1;
    }
    assert(w@.subrange(start as int, n as int) =~= ds);
    if over {
        0
    } else {
        v as u8
    }
}

/// Reads a hex text back into bytes: whitespace-separated words, each a
/// hex byte, and 0 for a word that is not one.
pub fn parse_hex(text: &str) -> (r: Vec<u8>)
    ensures
        r@ == hex_bytes(text@),
{
    let cs = chars_of(text);
    let mut out: Vec<u8> = Vec::new();
    let mut cur: Vec<char> = Vec::new();
    let mut i: usize = 0;
    let ghost f = |w: Seq<char>| word_byte(w);
    assert(cs@.skip(0) =~= cs@);
    assert(hex_bytes(text@) =~= split_words(cs@, seq![]).map_values(f));
    while i < cs.len()
        invariant
            i <= cs@.len(),
            hex_bytes(text@) == out@ + split_words(cs@.skip(i as int), cur@).map_values(f),
            f == (|w: Seq<char>| word_byte(w)),
        decreases cs@.len() - i,
    {
        let c = cs[i];
        let ghost rest = cs@.skip(i as int);
        assert(rest[0] == c);
        assert(rest.drop_first() =~= cs@.skip(i + 1));
        if is_whitespace(c) {
            let ghost tail = split_words(cs@.skip(i + 1), seq![]);
            if cur.len() > 0 {
                let b = word_to_byte(&cur);
                let ghost before = out@;
                out.push(b);
                assert((seq![cur@] + tail).map_values(f) =~= seq![b] + tail.map_values(f));
                assert(before + (seq![b] + tail.map_values(f)) =~= out@ + tail.map_values(f));
            } else {
                assert(Seq::<Seq<char>>::empty() + tail =~= tail);
            }
            cur = Vec::new();
            assert(cur@ =~= Seq::<char>::empty());
        } else {
            cur.push(c);
        }
        i = i + 1;
    }
    assert(cs@.skip(i as int) =~= Seq::<char>::empty());
    if cur.len() > 0 {
        let b = word_to_byte(&cur);
        let ghost before = out@;
        out.push(b);
        assert(seq![cur@].map_values(f) =~= seq![b]);
        assert(before + seq![b] =~= out@);
    } else {
        assert(Seq::<Seq<char>>::empty().map_values(f) =~= Seq::<u8>::empty());
        assert(out@ + Seq::<u8>::empty() =~= out@);
    }
    out
}

} // verus!

verus! {

proof fn lemma_byte_hex_digits(x: u8)
    ensures
        byte_hex(x).len() == 2,
        !unicode_white_space(byte_hex(x)[0]),
        !unicode_white_space(byte_hex(x)[1]),
        byte_hex(x)[0] != '+',
        parse_hex_byte(byte_hex(x)) == Some(x),
{
    let hi = x as nat / 16;
    let lo = x as nat % 16;
    let w = byte_hex(x);
    assert(hi < 16 && lo < 16);
    assert(hex_value(hex_digit(hi)) == Some(hi));
    assert(hex_value(hex_digit(lo)) == Some(lo));
    assert(all_hex(w));
    assert(w.drop_last() =~= seq![hex_digit(hi)]);
    assert(seq![hex_digit(hi)].drop_last() =~= Seq::<char>::empty());
    assert(seq![hex_digit(hi)].last() == hex_digit(hi));
    assert(digits_value(Seq::<char>::empty()) == 0);
    assert(digits_value(seq![hex_digit(hi)]) == hi);
    assert(digits_value(w) == hi * 16 + lo);
    assert(hi * 16 + lo == x as nat);
}

proof fn lemma_split_word_prefix(w: Seq<char>, s: Seq<char>, cur: Seq<char>)
    requires
        forall|i: int| 0 <= i < w.len() ==> !unicode_white_space(#[trigger] w[i]),
    ensures
        split_words(w + s, cur) == split_words(s, cur + w),
    decreases w.len(),
{
    if w.len() == 0 {
        assert(w + s =~= s);
        assert(cur + w =~= cur);
    } else {
        assert((w + s)[0] == w[0]);
        assert((w + s).drop_first() =~= w.drop_first() + s);
        lemma_split_word_prefix(w.drop_first(), s, cur.push(w[0]));
        assert(cur.push(w[0]) + w.drop_first() =~= cur + w);
    }
}

proof fn lemma_split_hex_string(b: Seq<u8>)
    ensures
        split_words(hex_string(b), seq![]) == b.map_values(|x: u8| byte_hex(x)),
    decreases b.len(),
{
    if b.len() == 0 {
        assert(b.map_values(|x: u8| byte_hex(x)) =~= Seq::<Seq<char>>::empty());
    } else {
        lemma_byte_hex_digits(b[0]);
        let w = byte_hex(b[0]);
        assert(Seq::<char>::empty() + w =~= w);
        if b.len() == 1 {
            lemma_split_word_prefix(w, seq![], seq![]);
            assert(w + Seq::<char>::empty() =~= w);
            assert(b.map_values(|x: u8| byte_hex(x)) =~= seq![w]);
        } else {
            let rest = hex_string(b.drop_first());
            lemma_split_word_prefix(w, seq![' '] + rest, seq![]);
            assert(w + seq![' '] + rest =~= w + (seq![' '] + rest));
            assert((seq![' '] + rest).drop_first() =~= rest);
            assert(unicode_white_space(' '));
            assert(split_words(seq![' '] + rest, w) == seq![w] + split_words(rest, seq![]));
            lemma_split_hex_string(b.drop_first());
            assert(b.map_values(|x: u8| byte_hex(x)) =~= seq![w] + b.drop_first().map_values(
                |x: u8| byte_hex(x),
            ));
        }
    }
}

/// Reading back the hex text of a packet gives the packet: the bytes that
/// `parse_hex` finds in what `format_hex` wrote are the bytes it was given.
pub proof fn lemma_hex_roundtrip(b: Seq<u8>)
    ensures
        hex_bytes(hex_string(b)) == b,
{
    lemma_split_hex_string(b);
    let words = b.map_values(|x: u8| byte_hex(x));
    assert forall|i: int| 0 <= i < b.len() implies #[trigger] word_byte(words[i]) == b[i] by {
        lemma_byte_hex_digits(b[i]);
    }
    let got = hex_bytes(hex_string(b));
    assert(got.len() == b.len());
    assert forall|i: int| 0 <= i < b.len() implies got[i] == b[i] by {
        assert(got[i] == word_byte(words[i]));
    }
    assert(got =~= b);
}

} // verus!
