//! The sensor reading and its rendering as one log line.
//!
//! A reading stores pressure and temperature in hundredths of a unit, so a
//! line can be rendered with exactly two fraction digits without any
//! floating-point arithmetic. A line holds two or three space-separated
//! fields: pressure, temperature, and optionally a timestamp token.

use vstd::prelude::*;

verus! {

/// One sensor sample: pressure and temperature in hundredths of a unit
/// (e.g. a pressure of 1013.25 is stored as 101325).
#[derive(Clone, Copy, PartialEq, Eq, Structural, Debug)]
pub struct Reading {
    pub pressure_centi: i32,
    pub temperature_centi: i32,
}

/// The decimal digits of `n`, most significant first, as ASCII bytes.
pub open spec fn spec_digits(n: nat) -> Seq<u8>
    decreases n,
{
    if n < 10 {
        seq![(48 + n) as u8]
    } else {
        spec_digits(n / 10).push((48 + n % 10) as u8)
    }
}

/// `c` hundredths rendered as a decimal with exactly two fraction digits,
/// e.g. 101325 becomes `1013.25` and 50 becomes `0.50`.
pub open spec fn spec_fixed_magnitude(c: nat) -> Seq<u8> {
    spec_digits(c / 100) + seq![46u8, (48 + (c % 100) / 10) as u8, (48 + c % 10) as u8]
}

/// Signed fixed-point rendering of `centi` hundredths: a leading `-` for
/// negative values, then the magnitude with two fraction digits.
pub open spec fn spec_fixed(centi: int) -> Seq<u8> {
    if centi < 0 {
        seq![45u8] + spec_fixed_magnitude((-centi) as nat)
    } else {
        spec_fixed_magnitude(centi as nat)
    }
}

/// The log line for reading `r`: pressure, one space, temperature, and, when
/// a timestamp is recorded, one more space and the timestamp token. The line
/// terminator is not part of the line.
pub open spec fn spec_record_line(r: Reading, ts: Option<Seq<u8>>) -> Seq<u8> {
    let base = spec_fixed(r.pressure_centi as int) + seq![32u8] + spec_fixed(
        r.temperature_centi as int,
    );
    match ts {
        None => base,
        Some(t) => base + seq![32u8] + t,
    }
}

/// Whether `s` can stand as a single whitespace-delimited field of a log
/// line: it holds no line feed and no space.
pub open spec fn field_clean(s: Seq<u8>) -> bool {
    forall|i: int| 0 <= i < s.len() ==> s[i] != 10 && s[i] != 32
}

/// Whether `l` can stand as one line of the log: it holds no line feed.
pub open spec fn line_clean(l: Seq<u8>) -> bool {
    forall|i: int| 0 <= i < l.len() ==> l[i] != 10
}

/// Number of whitespace-delimited fields in `l`, where a field starting at
/// the first byte is counted only when `at_gap` is true (that is, when the
/// byte before `l` was a space or `l` starts the line).
pub open spec fn tokens_from(l: Seq<u8>, at_gap: bool) -> nat
    decreases l.len(),
{
    if l.len() == 0 {
        0
    } else {
        (if at_gap && l[0] != 32 {
            1nat
        } else {
            0nat
        }) + tokens_from(l.skip(1), l[0] == 32)
    }
}

/// Number of whitespace-delimited fields in `l`: the number of maximal runs
/// of non-space bytes.
pub open spec fn token_count(l: Seq<u8>) -> nat {
    tokens_from(l, true)
}

/// Token counting distributes over concatenation: the right half starts at a
/// gap exactly when the left half is empty before an initial gap, or ends in
/// a space.
pub proof fn lemma_tokens_concat(a: Seq<u8>, b: Seq<u8>, at_gap: bool)
    ensures
        tokens_from(a + b, at_gap) == tokens_from(a, at_gap) + tokens_from(
            b,
            if a.len() == 0 {
                at_gap
            } else {
                a.last() == 32
            },
        ),
    decreases a.len(),
{
    if a.len() == 0 {
        assert(a + b =~= b);
    } else {
        assert((a + b).skip(1) =~= a.skip(1) + b);
        lemma_tokens_concat(a.skip(1), b, a[0] == 32);
    }
}

/// A nonempty run of non-space bytes is one field when it starts at a gap,
/// and extends the previous field otherwise.
pub proof fn lemma_tokens_solid(a: Seq<u8>)
    requires
        a.len() > 0,
        forall|i: int| 0 <= i < a.len() ==> a[i] != 32,
    ensures
        tokens_from(a, true) == 1,
        tokens_from(a, false) == 0,
    decreases a.len(),
{
    assert(a[0] != 32);
    if a.len() == 1 {
        assert(a.skip(1).len() == 0);
        assert(tokens_from(a.skip(1), false) == 0);
    } else {
        lemma_tokens_solid(a.skip(1));
    }
}

/// Every rendered digit is an ASCII digit, and at least one is rendered.
pub proof fn lemma_digits_shape(n: nat)
    ensures
        spec_digits(n).len() >= 1,
        forall|i: int| 0 <= i < spec_digits(n).len() ==> 48 <= #[trigger] spec_digits(n)[i] <= 57,
    decreases n,
{
    if n >= 10 {
        lemma_digits_shape(n / 10);
    }
}

/// A fixed-point rendering is a nonempty field: only digits, `.` and a
/// leading `-` occur in it, never a space or a line feed.
pub proof fn lemma_fixed_shape(centi: int)
    ensures
        spec_fixed(centi).len() >= 1,
        field_clean(spec_fixed(centi)),
{
    if centi < 0 {
        lemma_digits_shape(((-centi) as nat) / 100);
    } else {
        lemma_digits_shape((centi as nat) / 100);
    }
}

/// The shape of every rendered record line: it holds no line feed, and it
/// parses back into exactly two whitespace-delimited fields, or three when a
/// timestamp field is recorded.
pub proof fn lemma_record_line_shape(r: Reading, ts: Option<Seq<u8>>)
    requires
        ts matches Some(tok) ==> tok.len() > 0 && field_clean(tok),
    ensures
        line_clean(spec_record_line(r, ts)),
        token_count(spec_record_line(r, ts)) == if ts is None {
            2nat
        } else {
            3nat
        },
{
    let p = spec_fixed(r.pressure_centi as int);
    let t = spec_fixed(r.temperature_centi as int);
    let sp = seq![32u8];
    lemma_fixed_shape(r.pressure_centi as int);
    lemma_fixed_shape(r.temperature_centi as int);
    lemma_tokens_solid(p);
    lemma_tokens_solid(t);
    lemma_tokens_concat(p, sp, true);
    assert(sp.skip(1).len() == 0);
    assert(tokens_from(sp.skip(1), true) == 0);
    assert(tokens_from(sp, false) == 0);
    assert(tokens_from(p + sp, true) == 1);
    lemma_tokens_concat(p + sp, t, true);
    assert((p + sp).last() == 32);
    assert(tokens_from(p + sp + t, true) == 2);
    match ts {
        None => {
            assert(line_clean(p + sp + t));
        },
        Some(tok) => {
            lemma_tokens_concat(p + sp + t, sp, true);
            assert((p + sp + t).last() == t.last());
            assert(t.last() != 32);
            assert(tokens_from(p + sp + t + sp, true) == 2);
            lemma_tokens_concat(p + sp + t + sp, tok, true);
            assert((p + sp + t + sp).last() == 32);
            lemma_tokens_solid(tok);
            assert(tokens_from(p + sp + t + sp + tok, true) == 3);
            assert(line_clean(p + sp + t + sp + tok));
        },
    }
}

/// Formatting is pure: the rendered line is a function of the reading and
/// the timestamp alone, so equal inputs always render equal lines.
pub proof fn lemma_format_deterministic(r: Reading, ts: Option<Seq<u8>>, l1: Seq<u8>, l2: Seq<u8>)
    requires
        l1 == spec_record_line(r, ts),
        l2 == spec_record_line(r, ts),
    ensures
        l1 == l2,
{
}

/// Appends the decimal digits of `n` to `out`.
fn push_digits(out: &mut Vec<u8>, n: u64)
    ensures
        final(out)@ == old(out)@ + spec_digits(n as nat),
    decreases n,
{
    if n < 10 {
        out.push(48 + (n as u8));
        assert(out@ =~= old(out)@ + spec_digits(n as nat));
    } else {
        push_digits(out, n / 10);
        out.push(48 + ((n % 10) as u8));
        assert(out@ =~= old(out)@ + spec_digits(n as nat));
    }
}

/// Renders `centi` hundredths as fixed-point decimal text with two fraction
/// digits, sign included.
pub fn render_fixed(centi: i32) -> (out: Vec<u8>)
    ensures
        out@ == spec_fixed(centi as int),
{
    let mut out: Vec<u8> = Vec::new();
    let mag: u64 = if centi < 0 {
        out.push(45);
        (-(centi as i64)) as u64
    } else {
        centi as u64
    };
    assert(mag as int == if centi < 0 { -(centi as int) } else { centi as int });
    push_digits(&mut out, mag / 100);
    out.push(46);
    out.push(48 + (((mag % 100) / 10) as u8));
    out.push(48 + ((mag % 10) as u8));
    proof {
        assert((mag as nat) % 100 / 10 == (mag % 100) / 10);
        if centi < 0 {
            assert(out@ =~= seq![45u8] + spec_fixed_magnitude(mag as nat));
        } else {
            assert(out@ =~= spec_fixed_magnitude(mag as nat));
        }
    }
    out
}

/// Renders reading `r` as one log line, fields separated by single spaces:
/// pressure first, temperature second, then the timestamp if one is given.
pub fn format_record(r: &Reading, timestamp: Option<&Vec<u8>>) -> (line: Vec<u8>)
    ensures
        line@ == spec_record_line(
            *r,
            match timestamp {
                None => None,
                Some(t) => Some(t@),
            },
        ),
{
    let mut line = render_fixed(r.pressure_centi);
    line.push(32);
    let mut temp = render_fixed(r.temperature_centi);
    line.append(&mut temp);
    match timestamp {
        None => {
            proof {
                assert(line@ =~= spec_record_line(*r, None));
            }
        },
        Some(t) => {
            line.push(32);
            let mut i: usize = 0;
            proof {
                assert(line@ =~= spec_fixed(r.pressure_centi as int) + seq![32u8] + spec_fixed(
                    r.temperature_centi as int,
                ) + seq![32u8] + t@.take(0));
            }
            while i < t.len()
                invariant
                    i <= t@.len(),
                    line@ == spec_fixed(r.pressure_centi as int) + seq![32u8] + spec_fixed(
                        r.temperature_centi as int,
                    ) + seq![32u8] + t@.take(i as int),
                decreases t@.len() - i,
            {
                line.push(t[i]);
                i = i + 1;
                proof {
                    assert(t@.take(i as int) =~= t@.take(i as int - 1).push(t@[i as int - 1]));
                    assert(line@ =~= spec_fixed(r.pressure_centi as int) + seq![32u8] + spec_fixed(
                        r.temperature_centi as int,
                    ) + seq![32u8] + t@.take(i as int));
                }
            }
            proof {
                assert(t@.take(t@.len() as int) =~= t@);
                assert(line@ =~= spec_record_line(*r, Some(t@)));
            }
        },
    }
    line
}

} // verus!
