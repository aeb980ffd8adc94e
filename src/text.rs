//! Decimal digits: rendering of integers and of fixed-point tenths, and
//! reading of the digit runs that a JSON number is written with.

use vstd::prelude::*;

verus! {

/// Whether `c` is an ASCII decimal digit.
pub open spec fn is_digit(c: char) -> bool {
    '0' <= c && c <= '9'
}

/// The value of a decimal digit.
pub open spec fn digit_value(c: char) -> nat {
    (c as u32 - '0' as u32) as nat
}

/// The character that writes the digit `d`.
pub open spec fn digit_char(d: nat) -> char {
    if d == 0 {
        '0'
    } else if d == 1 {
        '1'
    } else if d == 2 {
        '2'
    } else if d == 3 {
        '3'
    } else if d == 4 {
        '4'
    } else if d == 5 {
        '5'
    } else if d == 6 {
        '6'
    } else if d == 7 {
        '7'
    } else if d == 8 {
        '8'
    } else {
        '9'
    }
}

pub open spec fn all_digits(s: Seq<char>) -> bool {
    forall|i: int| 0 <= i < s.len() ==> is_digit(#[trigger] s[i])
}

/// The number that a run of digits denotes (most significant first).
pub open spec fn digits_value(s: Seq<char>) -> nat
    decreases s.len(),
{
    if s.len() == 0 {
        0
    } else {
        digits_value(s.drop_last()) * 10 + digit_value(s.last())
    }
}

/// How many digits `s` starts with.
pub open spec fn leading_digits(s: Seq<char>) -> nat
    decreases s.len(),
{
    if s.len() > 0 && is_digit(s[0]) {
        1 + leading_digits(s.drop_first())
    } else {
        0
    }
}

/// The shortest decimal writing of `n`.
pub open spec fn nat_text(n: nat) -> Seq<char>
    decreases n,
{
    if n < 10 {
        seq![digit_char(n)]
    } else {
        nat_text(n / 10).push(digit_char(n % 10))
    }
}

/// A count of tenths written with exactly one digit after the point:
/// `225` is `22.5`, `-3` is `-0.3`, `220` is `22.0`.
pub open spec fn tenths_text(t: int) -> Seq<char> {
    let m: nat = if t < 0 {
        (-t) as nat
    } else {
        t as nat
    };
    let body = nat_text(m / 10).push('.').push(digit_char(m % 10));
    if t < 0 {
        seq!['-'] + body
    } else {
        body
    }
}

/// Relies on `String::push`: the character is added at the end.
#[verifier::external_body]
pub(crate) fn push_char(s: &mut String, c: char)
    ensures
        final(s)@ == old(s)@.push(c),
{
    s.push(c);
}

/// Relies on `str::chars`: the characters of the text, in order.
#[verifier::external_body]
pub(crate) fn chars_of(s: &str) -> (r: Vec<char>)
    ensures
        r@ == s@,
{
    s.chars().collect()
}

pub fn digit_to_char(d: u64) -> (c: char)
    requires
        d < 10,
    ensures
        c == digit_char(d as nat),
        is_digit(c),
        digit_value(c) == d,
{
    if d == 0 {
        '0'
    } else if d == 1 {
        '1'
    } else if d == 2 {
        '2'
    } else if d == 3 {
        '3'
    } else if d == 4 {
        '4'
    } else if d == 5 {
        '5'
    } else if d == 6 {
        '6'
    } else if d == 7 {
        '7'
    } else if d == 8 {
        '8'
    } else {
        '9'
    }
}

/// Appends the decimal writing of `n` to `out`.
pub fn push_nat(out: &mut String, n: u64)
    ensures
        final(out)@ == old(out)@ + nat_text(n as nat),
    decreases n,
{
    if n >= 10 {
        push_nat(out, n / 10);
    }
    let c = digit_to_char(n % 10);
    push_char(out, c);
    assert(out@ =~= old(out)@ + nat_text(n as nat));
}

/// Appends `t` tenths written with one digit after the point.
pub fn push_tenths(out: &mut String, t: i64)
    ensures
        final(out)@ == old(out)@ + tenths_text(t as int),
{
    let m: u64 = if t < 0 {
        (0i128 - t as i128) as u64
    } else {
        t as u64
    };
    let ghost start = out@;
    if t < 0 {
        push_char(out, '-');
    }
    let ghost mid = out@;
    push_nat(out, m / 10);
    push_char(out, '.');
    let c = digit_to_char(m % 10);
    push_char(out, c);
    proof {
        let body = nat_text((m / 10) as nat).push('.').push(digit_char((m % 10) as nat));
        assert(out@ =~= mid + body);
        if t < 0 {
            assert(mid == start + seq!['-']);
            assert(out@ =~= start + (seq!['-'] + body));
        }
    }
}

/// `t` tenths written with one digit after the point (`22.5`, `-0.3`).
pub fn format_tenths(t: i64) -> (r: String)
    ensures
        r@ == tenths_text(t as int),
{
    let mut s = String::new();
    push_tenths(&mut s, t);
    proof {
        assert(s@ =~= tenths_text(t as int));
    }
    s
}

pub proof fn lemma_digits_value_step(s: Seq<char>, i: int)
    requires
        0 <= i < s.len(),
    ensures
        digits_value(s.subrange(0, i + 1)) == digits_value(s.subrange(0, i)) * 10
            + digit_value(s[i]),
{
    assert(s.subrange(0, i + 1).drop_last() =~= s.subrange(0, i));
}

/// A longer run of digits is worth at least as much as its prefix.
pub proof fn lemma_digits_value_grows(s: Seq<char>, i: int, k: int)
    requires
        0 <= i <= k <= s.len(),
    ensures
        digits_value(s.subrange(0, i)) <= digits_value(s.subrange(0, k)),
    decreases k - i,
{
    if i < k {
        lemma_digits_value_grows(s, i, k - 1);
        lemma_digits_value_step(s, k - 1);
    }
}

/// The count of leading digits is the first place that holds no digit.
pub proof fn lemma_leading_digits(s: Seq<char>, i: int)
    requires
        0 <= i <= s.len(),
        all_digits(s.subrange(0, i)),
        i == s.len() || !is_digit(s[i]),
    ensures
        leading_digits(s) == i,
    decreases i,
{
    if i > 0 {
        assert(is_digit(s.subrange(0, i)[0]));
        let t = s.drop_first();
        assert forall|j: int| 0 <= j < i - 1 implies is_digit(#[trigger] t.subrange(0, i - 1)[j]) by {
            assert(is_digit(s.subrange(0, i)[j + 1]));
        }
        lemma_leading_digits(t, i - 1);
    }
}

/// Reads the run of digits that starts at `start`. The first result is where
/// the run ends; the second is its value, or `None` where it exceeds `bound`.
pub fn scan_digits(cs: &Vec<char>, start: usize, bound: u64) -> (r: (usize, Option<u64>))
    requires
        start <= cs@.len(),
        bound <= u64::MAX / 16,
    ensures
        ({
            let run = cs@.subrange(start as int, cs@.len() as int);
            let k = leading_digits(run);
            &&& r.1 is Some ==> r.0 == start + k && r.1->0 == digits_value(run.subrange(0, k as int))
            &&& r.1 is Some <==> digits_value(run.subrange(0, k as int)) <= bound
        }),
{
    let ghost run = cs@.subrange(start as int, cs@.len() as int);
    let mut i: usize = start;
    let mut acc: u64 = 0;
    while i < cs.len() && '0' <= cs[i] && cs[i] <= '9'
        invariant
            start <= i <= cs@.len(),
            run == cs@.subrange(start as int, cs@.len() as int),
            all_digits(run.subrange(0, i - start)),
            acc == digits_value(run.subrange(0, i - start)),
            acc <= bound,
            bound <= u64::MAX / 16,
        decreases cs@.len() - i,
    {
        let d = (cs[i] as u32 - '0' as u32) as u64;
        proof {
            lemma_digits_value_step(run, i - start);
            assert forall|j: int| 0 <= j < i + 1 - start implies is_digit(
                #[trigger] run.subrange(0, i + 1 - start)[j],
            ) by {
                if j < i - start {
                    assert(is_digit(run.subrange(0, i - start)[j]));
                }
            }
        }
        acc = acc * 10 + d;
        i = i + 1;
        if acc > bound {
            proof {
                let k = leading_digits(run);
                lemma_leading_digits_at_least(run, i - start);
                lemma_digits_value_grows(run, i - start, k as int);
            }
            return (i, None);
        }
    }
    proof {
        lemma_leading_digits(run, i - start);
    }
    (i, Some(acc))
}

/// At least as many leading digits as a run of digits at the front.
pub proof fn lemma_leading_digits_at_least(s: Seq<char>, i: int)
    requires
        0 <= i <= s.len(),
        all_digits(s.subrange(0, i)),
    ensures
        leading_digits(s) >= i,
        leading_digits(s) <= s.len(),
    decreases s.len(),
{
    if s.len() > 0 && is_digit(s[0]) {
        let t = s.drop_first();
        let j = if i > 0 { i - 1 } else { 0 };
        assert forall|x: int| 0 <= x < j implies is_digit(#[trigger] t.subrange(0, j)[x]) by {
            assert(is_digit(s.subrange(0, i)[x + 1]));
        }
        lemma_leading_digits_at_least(t, j);
    } else if i > 0 {
        assert(is_digit(s.subrange(0, i)[0]));
    }
}

proof fn lemma_nat_text_digits(n: nat)
    ensures
        nat_text(n).len() >= 1,
        all_digits(nat_text(n)),
    decreases n,
{
    if n >= 10 {
        lemma_nat_text_digits(n / 10);
        let s = nat_text(n);
        assert forall|i: int| 0 <= i < s.len() implies is_digit(#[trigger] s[i]) by {
            if i < s.len() - 1 {
                assert(s[i] == nat_text(n / 10)[i]);
            }
        }
    }
}

/// A count of tenths is written with exactly one digit after the point, and
/// the point is the only one in the text.
pub proof fn tenths_have_one_decimal(t: int)
    ensures
        ({
            let s = tenths_text(t);
            &&& s.len() >= 3
            &&& s[s.len() - 2] == '.'
            &&& is_digit(s[s.len() - 1])
            &&& forall|i: int| 0 <= i < s.len() - 2 ==> #[trigger] s[i] != '.'
        }),
{
    let m: nat = if t < 0 {
        (-t) as nat
    } else {
        t as nat
    };
    lemma_nat_text_digits(m / 10);
    let w = nat_text(m / 10);
    let body = w.push('.').push(digit_char(m % 10));
    let s = tenths_text(t);
    assert forall|i: int| 0 <= i < s.len() - 2 implies #[trigger] s[i] != '.' by {
        if t < 0 {
            if i > 0 {
                assert(s[i] == w[i - 1]);
                assert(is_digit(w[i - 1]));
            }
        } else {
            assert(s[i] == w[i]);
            assert(is_digit(w[i]));
        }
    }
}

} // verus!
