//! Escaping of query values: a value is written so that nothing in it can end
//! the value or start another parameter.

use vstd::prelude::*;
use crate::text::{chars_of, digit_char, push_char};

verus! {

/// Characters that a query value carries as they are (RFC 3986 unreserved).
pub open spec fn is_unreserved(c: char) -> bool {
    ('A' <= c && c <= 'Z') || ('a' <= c && c <= 'z') || ('0' <= c && c <= '9') || c == '-'
        || c == '.' || c == '_' || c == '~'
}

/// The upper-case hexadecimal digit for `d`.
pub open spec fn hex_char(d: nat) -> char {
    if d < 10 {
        digit_char(d)
    } else if d == 10 {
        'A'
    } else if d == 11 {
        'B'
    } else if d == 12 {
        'C'
    } else if d == 13 {
        'D'
    } else if d == 14 {
        'E'
    } else {
        'F'
    }
}

/// One byte written as `%` and two hexadecimal digits.
pub open spec fn pct(b: nat) -> Seq<char> {
    seq!['%', hex_char(b / 16), hex_char(b % 16)]
}

/// The UTF-8 bytes of the code point `n`, each percent-escaped.
pub open spec fn pct_utf8(n: nat) -> Seq<char> {
    if n < 0x80 {
        pct(n)
    } else if n < 0x800 {
        pct(0xC0 + n / 64) + pct(0x80 + n % 64)
    } else if n < 0x10000 {
        pct(0xE0 + n / 4096) + pct(0x80 + (n / 64) % 64) + pct(0x80 + n % 64)
    } else {
        pct(0xF0 + n / 262144) + pct(0x80 + (n / 4096) % 64) + pct(0x80 + (n / 64) % 64) + pct(
            0x80 + n % 64,
        )
    }
}

/// How one character is written in a query value.
pub open spec fn escape_char(c: char) -> Seq<char> {
    if is_unreserved(c) {
        seq![c]
    } else {
        pct_utf8(c as nat)
    }
}

/// A text written as a query value: unreserved characters as they are, every
/// other character as its percent-escaped UTF-8 bytes.
pub open spec fn query_escape(s: Seq<char>) -> Seq<char>
    decreases s.len(),
{
    if s.len() == 0 {
        Seq::empty()
    } else {
        query_escape(s.drop_last()) + escape_char(s.last())
    }
}

/// A character that may stand in an escaped query value.
pub open spec fn is_escaped_char(c: char) -> bool {
    is_unreserved(c) || c == '%'
}

fn hex_to_char(d: u32) -> (c: char)
    requires
        d < 16,
    ensures
        c == hex_char(d as nat),
        is_unreserved(c),
{
    if d < 10 {
        crate::text::digit_to_char(d as u64)
    } else if d == 10 {
        'A'
    } else if d == 11 {
        'B'
    } else if d == 12 {
        'C'
    } else if d == 13 {
        'D'
    } else if d == 14 {
        'E'
    } else {
        'F'
    }
}

fn push_pct(out: &mut String, b: u32)
    requires
        b < 256,
    ensures
        final(out)@ == old(out)@ + pct(b as nat),
{
    push_char(out, '%');
    let h = hex_to_char(b / 16);
    push_char(out, h);
    let l = hex_to_char(b % 16);
    push_char(out, l);
    assert(out@ =~= old(out)@ + pct(b as nat));
}

fn is_unreserved_char(c: char) -> (r: bool)
    ensures
        r == is_unreserved(c),
{
    ('A' <= c && c <= 'Z') || ('a' <= c && c <= 'z') || ('0' <= c && c <= '9') || c == '-' || c
        == '.' || c == '_' || c == '~'
}

fn push_escaped_char(out: &mut String, c: char)
    ensures
        final(out)@ == old(out)@ + escape_char(c),
{
    if is_unreserved_char(c) {
        push_char(out, c);
        assert(out@ =~= old(out)@ + escape_char(c));
        return;
    }
    let n = c as u32;
    let ghost start = out@;
    if n < 0x80 {
        push_pct(out, n);
    } else if n < 0x800 {
        push_pct(out, 0xC0 + n / 64);
        push_pct(out, 0x80 + n % 64);
        assert(out@ =~= start + pct_utf8(n as nat));
    } else if n < 0x10000 {
        push_pct(out, 0xE0 + n / 4096);
        push_pct(out, 0x80 + (n / 64) % 64);
        push_pct(out, 0x80 + n % 64);
        assert(out@ =~= start + pct_utf8(n as nat));
    } else {
        assert(n < 0x110000);
        push_pct(out, 0xF0 + n / 262144);
        push_pct(out, 0x80 + (n / 4096) % 64);
        push_pct(out, 0x80 + (n / 64) % 64);
        push_pct(out, 0x80 + n % 64);
        assert(out@ =~= start + pct_utf8(n as nat));
    }
}

/// Appends `s` written as a query value.
pub fn push_query_escaped(out: &mut String, s: &str)
    ensures
        final(out)@ == old(out)@ + query_escape(s@),
{
    let cs = chars_of(s);
    let ghost start = out@;
    let mut i: usize = 0;
    assert(cs@.subrange(0, 0) =~= Seq::<char>::empty());
    assert(start + Seq::<char>::empty() =~= start);
    while i < cs.len()
        invariant
            i <= cs@.len(),
            cs@ == s@,
            out@ == start + query_escape(cs@.subrange(0, i as int)),
        decreases cs@.len() - i,
    {
        assert(cs@.subrange(0, i + 1).drop_last() =~= cs@.subrange(0, i as int));
        push_escaped_char(out, cs[i]);
        assert(out@ =~= start + query_escape(cs@.subrange(0, i + 1)));
        i = i + 1;
    }
    assert(cs@.subrange(0, cs@.len() as int) =~= cs@);
}

/// `s` written as a query value.
pub fn escape_query_value(s: &str) -> (r: String)
    ensures
        r@ == query_escape(s@),
{
    let mut out = String::new();
    push_query_escaped(&mut out, s);
    assert(out@ =~= query_escape(s@));
    out
}

proof fn lemma_pct_escaped(b: nat)
    ensures
        forall|i: int| 0 <= i < pct(b).len() ==> is_escaped_char(#[trigger] pct(b)[i]),
{
    assert(is_unreserved(hex_char(b / 16)));
    assert(is_unreserved(hex_char(b % 16)));
}

proof fn lemma_concat_escaped(a: Seq<char>, b: Seq<char>)
    requires
        forall|i: int| 0 <= i < a.len() ==> is_escaped_char(#[trigger] a[i]),
        forall|i: int| 0 <= i < b.len() ==> is_escaped_char(#[trigger] b[i]),
    ensures
        forall|i: int| 0 <= i < (a + b).len() ==> is_escaped_char(#[trigger] (a + b)[i]),
{
    assert forall|i: int| 0 <= i < (a + b).len() implies is_escaped_char(#[trigger] (a + b)[i]) by {
        if i >= a.len() {
            assert((a + b)[i] == b[i - a.len()]);
        }
    }
}

/// An escaped query value holds only unreserved characters and `%`: no `&`,
/// `=` or `#` that could end the value or add a parameter.
pub proof fn escaped_value_adds_no_parameter(s: Seq<char>)
    ensures
        forall|i: int|
            0 <= i < query_escape(s).len() ==> is_escaped_char(#[trigger] query_escape(s)[i]),
    decreases s.len(),
{
    if s.len() > 0 {
        escaped_value_adds_no_parameter(s.drop_last());
        let c = s.last();
        let n = c as nat;
        if !is_unreserved(c) {
            if n < 0x80 {
                lemma_pct_escaped(n);
            } else if n < 0x800 {
                lemma_pct_escaped(0xC0 + n / 64);
                lemma_pct_escaped(0x80 + n % 64);
                lemma_concat_escaped(pct(0xC0 + n / 64), pct(0x80 + n % 64));
            } else if n < 0x10000 {
                lemma_pct_escaped(0xE0 + n / 4096);
                lemma_pct_escaped(0x80 + (n / 64) % 64);
                lemma_pct_escaped(0x80 + n % 64);
                lemma_concat_escaped(pct(0xE0 + n / 4096), pct(0x80 + (n / 64) % 64));
                lemma_concat_escaped(pct(0xE0 + n / 4096) + pct(0x80 + (n / 64) % 64), pct(0x80 + n % 64));
            } else {
                lemma_pct_escaped(0xF0 + n / 262144);
                lemma_pct_escaped(0x80 + (n / 4096) % 64);
                lemma_pct_escaped(0x80 + (n / 64) % 64);
                lemma_pct_escaped(0x80 + n % 64);
                let a = pct(0xF0 + n / 262144);
                let b = pct(0x80 + (n / 4096) % 64);
                let c2 = pct(0x80 + (n / 64) % 64);
                lemma_concat_escaped(a, b);
                lemma_concat_escaped(a + b, c2);
                lemma_concat_escaped(a + b + c2, pct(0x80 + n % 64));
            }
        }
        lemma_concat_escaped(query_escape(s.drop_last()), escape_char(c));
    }
}

} // verus!
