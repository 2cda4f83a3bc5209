//! The literal rule: single-quoted string literals (with `\'` and `\\`
//! escapes, unescaped into an owned copy) and decimal integer literals.

use vstd::prelude::*;

use crate::ast::Literal;
use crate::internal::{Error, ErrorKind};
use crate::lexical::{digit, is_digit, BACKSLASH, QUOTE};
use crate::model::{
    bytes_res, digit_end, digits_value, int_res, lemma_digit_end_bounds, lemma_digit_end_digits,
    lemma_digits_value_mono, lemma_digits_value_nonneg, lit_res, sp_integer, sp_literal,
    sp_string, sp_string_body, Parsed,
};

verus! {

/// The body of a single-quoted string, from right after the opening quote,
/// with the bytes unescaped so far in `out`.
fn string_tail(input: &[u8], pos: usize, out: Vec<u8>) -> (r: Result<(Vec<u8>, usize), Error>)
    requires
        pos <= input@.len(),
    ensures
        bytes_res(sp_string_body(input@, pos as int, out@), r),
        (r matches Ok(t) ==> pos < t.1 <= input@.len()),
    decreases input@.len() - pos,
{
    if pos >= input.len() {
        return Err(Error { kind: ErrorKind::Tag, at: pos });
    }
    let b: u8 = input[pos];
    if b == QUOTE {
        return Ok((out, pos + 1));
    }
    let mut out2 = out;
    if b == BACKSLASH && input.len() - pos >= 2 {
        let c: u8 = input[pos + 1];
        if c == QUOTE || c == BACKSLASH {
            out2.push(c);
            return string_tail(input, pos + 2, out2);
        }
    }
    out2.push(b);
    string_tail(input, pos + 1, out2)
}

/// The string-literal rule: a single-quoted, escapable body, returned as an
/// owned unescaped copy.
fn string_literal(input: &[u8], pos: usize) -> (r: Result<(Vec<u8>, usize), Error>)
    requires
        pos <= input@.len(),
    ensures
        bytes_res(sp_string(input@, pos as int), r),
        (r matches Ok(t) ==> pos < t.1 <= input@.len()),
{
    if pos >= input.len() || input[pos] != QUOTE {
        return Err(Error { kind: ErrorKind::Tag, at: pos });
    }
    let out: Vec<u8> = Vec::new();
    string_tail(input, pos + 1, out)
}

/// The digits of an integer literal after the first `pos0..k`, accumulated
/// into `acc`. Fails when the full run's value cannot fit a 64-bit signed
/// integer.
fn integer_tail(input: &[u8], pos0: usize, k: usize, acc: i64) -> (r: Result<(i64, usize), Error>)
    requires
        pos0 <= k <= input@.len(),
        pos0 < input@.len(),
        is_digit(input@[pos0 as int]),
        forall|i: int| pos0 <= i < k ==> is_digit(#[trigger] input@[i]),
        acc >= 0,
        acc as int == digits_value(input@, pos0 as int, k as int),
        digit_end(input@, pos0 as int) == digit_end(input@, k as int),
    ensures
        int_res(sp_integer(input@, pos0 as int), r),
        (r matches Ok(t) ==> pos0 < t.1 <= input@.len()),
    decreases input@.len() - k,
{
    let ghost s = input@;
    if k >= input.len() || !digit(input[k]) {
        proof {
            assert(digit_end(s, k as int) == k as int);
            lemma_digit_end_bounds(s, pos0 as int);
        }
        return Ok((acc, k));
    }
    let d: i64 = (input[k] - 48) as i64;
    if acc > 922_337_203_685_477_580 || (acc == 922_337_203_685_477_580 && d > 7) {
        proof {
            let e = digit_end(s, pos0 as int);
            assert(digit_end(s, k as int) == digit_end(s, k as int + 1));
            assert(digits_value(s, pos0 as int, k as int + 1) == acc * 10 + d);
            lemma_digit_end_digits(s, pos0 as int);
            lemma_digit_end_bounds(s, k as int + 1);
            assert(e >= k as int + 1);
            lemma_digits_value_mono(s, pos0 as int, k as int + 1, e);
            assert(digits_value(s, pos0 as int, e) > i64::MAX);
        }
        return Err(Error { kind: ErrorKind::Tag, at: pos0 });
    }
    let acc2: i64 = acc * 10 + d;
    proof {
        assert(digits_value(s, pos0 as int, k as int + 1) == acc2 as int);
        assert(digit_end(s, k as int) == digit_end(s, k as int + 1));
    }
    integer_tail(input, pos0, k + 1, acc2)
}

/// The integer-literal rule: a non-empty run of decimal digits.
fn integer_literal(input: &[u8], pos: usize) -> (r: Result<(i64, usize), Error>)
    requires
        pos <= input@.len(),
    ensures
        int_res(sp_integer(input@, pos as int), r),
        (r matches Ok(t) ==> pos < t.1 <= input@.len()),
{
    if pos >= input.len() || !digit(input[pos]) {
        return Err(Error { kind: ErrorKind::Tag, at: pos });
    }
    integer_tail(input, pos, pos, 0)
}

/// The literal rule: an ordered alternation over string and integer
/// literals, collapsing to an alternation failure at its entry offset when
/// both reject.
pub fn literal(input: &[u8], pos: usize) -> (r: Result<(Literal, usize), Error>)
    requires
        pos <= input@.len(),
    ensures
        lit_res(sp_literal(input@, pos as int), r),
        (r matches Ok(t) ==> pos < t.1 <= input@.len()),
{
    match string_literal(input, pos) {
        Ok((b, n)) => return Ok((Literal::String(b), n)),
        Err(_) => {},
    }
    match integer_literal(input, pos) {
        Ok((v, n)) => Ok((Literal::Integer(v), n)),
        Err(_) => Err(Error { kind: ErrorKind::Alt, at: pos }),
    }
}

} // verus!
