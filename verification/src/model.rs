//! The mathematical model of the grammar.
//!
//! Each rule of the grammar is a spec function from the input byte sequence
//! and a start offset to a [`Parsed`] outcome: either `Done` with the offset
//! of the unconsumed remainder and the recognized value, or `Fail` with a
//! positioned failure. The executable rules are proved to return exactly
//! these outcomes.
//!
//! Ordered alternation is encoded directly: a rule tries its candidates in
//! a fixed order and keeps the first success; when every candidate fails,
//! the alternation reports an [`ErrorKind::Alt`] failure at its own entry
//! offset, collapsing the positions of the failed branches. A sequence rule
//! passes the failure of a mandatory part through unchanged, which is how a
//! deep [`ErrorKind::Tag`] position survives until the nearest enclosing
//! alternation.

use vstd::prelude::*;

use crate::ast::{
    expr_view, exprs_view, lit_view, span_view, spans_view, vars_view, ExprV, Expression, LitV,
    Literal, Name, Span, SpanV, Variable,
};
use crate::internal::{Error, ErrorKind};
use crate::lexical::{
    echo_kw_at, empty_kw_at, ident_end, is_digit, is_ident_start, lemma_ident_end_bounds,
    lemma_trivia_end_bounds, span_is_keyword, trivia_end, unset_kw_at, BACKSLASH, COMMA, DOLLAR,
    LEFT_PARENTHESIS, QUOTE, RIGHT_PARENTHESIS,
};

verus! {

/// The outcome of one grammar rule applied at one offset: the offset of the
/// remainder and the recognized value, or a positioned failure.
pub enum Parsed<V> {
    Done { next: int, val: V },
    Fail { kind: ErrorKind, at: int },
}

/// The failure that an executable rule returned is the one the model
/// prescribes.
pub open spec fn fail_res<V>(p: Parsed<V>, e: Error) -> bool {
    p == (Parsed::<V>::Fail { kind: e.kind, at: e.at as int })
}

/// An executable rule returning a variable agrees with the model.
pub open spec fn var_res(p: Parsed<SpanV>, r: Result<(Variable, usize), Error>) -> bool {
    match r {
        Ok((v, n)) => p == (Parsed::Done { next: n as int, val: span_view(v.name) }),
        Err(e) => fail_res(p, e),
    }
}

/// An executable rule returning a name segment agrees with the model.
pub open spec fn seg_res(p: Parsed<SpanV>, r: Result<(Span, usize), Error>) -> bool {
    match r {
        Ok((sp, n)) => p == (Parsed::Done { next: n as int, val: span_view(sp) }),
        Err(e) => fail_res(p, e),
    }
}

/// An executable rule returning a list of name segments agrees with the
/// model.
pub open spec fn spans_res(p: Parsed<Seq<SpanV>>, r: Result<(Vec<Span>, usize), Error>) -> bool {
    match r {
        Ok((sps, n)) => p == (Parsed::Done { next: n as int, val: spans_view(sps@) }),
        Err(e) => fail_res(p, e),
    }
}

/// An executable rule returning a qualified name agrees with the model.
pub open spec fn name_res(p: Parsed<Seq<SpanV>>, r: Result<(Name, usize), Error>) -> bool {
    match r {
        Ok((Name::Qualified(sps), n)) => p == (Parsed::Done {
            next: n as int,
            val: spans_view(sps@),
        }),
        Err(e) => fail_res(p, e),
    }
}

/// An executable rule returning unescaped string bytes agrees with the
/// model.
pub open spec fn bytes_res(p: Parsed<Seq<u8>>, r: Result<(Vec<u8>, usize), Error>) -> bool {
    match r {
        Ok((b, n)) => p == (Parsed::Done { next: n as int, val: b@ }),
        Err(e) => fail_res(p, e),
    }
}

/// An executable rule returning an integer agrees with the model.
pub open spec fn int_res(p: Parsed<i64>, r: Result<(i64, usize), Error>) -> bool {
    match r {
        Ok((v, n)) => p == (Parsed::Done { next: n as int, val: v }),
        Err(e) => fail_res(p, e),
    }
}

/// An executable rule returning a literal agrees with the model.
pub open spec fn lit_res(p: Parsed<LitV>, r: Result<(Literal, usize), Error>) -> bool {
    match r {
        Ok((l, n)) => p == (Parsed::Done { next: n as int, val: lit_view(l) }),
        Err(e) => fail_res(p, e),
    }
}

/// An executable rule returning an expression agrees with the model.
pub open spec fn expr_res(p: Parsed<ExprV>, r: Result<(Expression, usize), Error>) -> bool {
    match r {
        Ok((e, n)) => p == (Parsed::Done { next: n as int, val: expr_view(e) }),
        Err(e) => fail_res(p, e),
    }
}

/// An executable rule returning a list of expressions agrees with the model.
pub open spec fn exprs_res(p: Parsed<Seq<ExprV>>, r: Result<(Vec<Expression>, usize), Error>) -> bool {
    match r {
        Ok((es, n)) => p == (Parsed::Done { next: n as int, val: exprs_view(es@) }),
        Err(e) => fail_res(p, e),
    }
}

/// An executable rule returning a list of variables agrees with the model.
pub open spec fn vars_res(p: Parsed<Seq<SpanV>>, r: Result<(Vec<Variable>, usize), Error>) -> bool {
    match r {
        Ok((vs, n)) => p == (Parsed::Done { next: n as int, val: vars_view(vs@) }),
        Err(e) => fail_res(p, e),
    }
}

/// The variable rule: a `$` sigil followed by an identifier. The span it
/// returns covers exactly the identifier, without the sigil.
pub open spec fn sp_variable(s: Seq<u8>, pos: int) -> Parsed<SpanV> {
    if !(0 <= pos && pos < s.len() && s[pos] == DOLLAR) {
        Parsed::Fail { kind: ErrorKind::Tag, at: pos }
    } else if !(pos + 1 < s.len() && is_ident_start(s[pos + 1])) {
        Parsed::Fail { kind: ErrorKind::Tag, at: pos + 1 }
    } else {
        let e = ident_end(s, pos + 2);
        Parsed::Done { next: e, val: SpanV { start: pos + 1, len: e - (pos + 1) } }
    }
}

pub proof fn lemma_sp_variable_bounds(s: Seq<u8>, pos: int)
    ensures
        (sp_variable(s, pos) matches Parsed::Done { next, .. } ==> pos < next <= s.len()),
{
    if 0 <= pos && pos < s.len() && s[pos] == DOLLAR && pos + 1 < s.len() && is_ident_start(
        s[pos + 1],
    ) {
        lemma_ident_end_bounds(s, pos + 2);
    }
}

/// One segment of a qualified name: an identifier that does not spell a
/// keyword.
pub open spec fn sp_name_segment(s: Seq<u8>, pos: int) -> Parsed<SpanV> {
    if !(0 <= pos && pos < s.len() && is_ident_start(s[pos])) {
        Parsed::Fail { kind: ErrorKind::Tag, at: pos }
    } else {
        let e = ident_end(s, pos + 1);
        if span_is_keyword(s, pos, e) {
            Parsed::Fail { kind: ErrorKind::Tag, at: pos }
        } else {
            Parsed::Done { next: e, val: SpanV { start: pos, len: e - pos } }
        }
    }
}

pub proof fn lemma_sp_name_segment_bounds(s: Seq<u8>, pos: int)
    ensures
        (sp_name_segment(s, pos) matches Parsed::Done { next, .. } ==> pos < next <= s.len()),
{
    if 0 <= pos && pos < s.len() && is_ident_start(s[pos]) {
        lemma_ident_end_bounds(s, pos + 1);
    }
}

/// The repetition of a qualified name: zero or more `\`-prefixed further
/// segments, folded onto `acc`. A backslash commits the repetition to one
/// more segment: a backslash not followed by a segment fails the whole rule.
pub open spec fn sp_name_rest(s: Seq<u8>, pos: int, acc: Seq<SpanV>) -> Parsed<Seq<SpanV>>
    decreases s.len() - pos,
        via sp_name_rest_decreases
{
    if !(0 <= pos && pos < s.len() && s[pos] == BACKSLASH) {
        Parsed::Done { next: pos, val: acc }
    } else {
        match sp_name_segment(s, pos + 1) {
            Parsed::Fail { kind, at } => Parsed::Fail { kind, at },
            Parsed::Done { next, val } => sp_name_rest(s, next, acc.push(val)),
        }
    }
}

#[via_fn]
proof fn sp_name_rest_decreases(s: Seq<u8>, pos: int, acc: Seq<SpanV>) {
    lemma_sp_name_segment_bounds(s, pos + 1);
}

/// The qualified-name rule: one segment, then the repetition.
pub open spec fn sp_qualified_name(s: Seq<u8>, pos: int) -> Parsed<Seq<SpanV>> {
    match sp_name_segment(s, pos) {
        Parsed::Fail { kind, at } => Parsed::Fail { kind, at },
        Parsed::Done { next, val } => sp_name_rest(s, next, seq![val]),
    }
}

/// The body of a single-quoted string literal, from right after the opening
/// quote: bytes accumulate onto `acc` until the closing quote, with `\'` and
/// `\\` unescaped and any other byte (a lone backslash included) kept as it
/// is. A buffer that ends before the closing quote fails at its end.
pub open spec fn sp_string_body(s: Seq<u8>, pos: int, acc: Seq<u8>) -> Parsed<Seq<u8>>
    decreases s.len() - pos,
{
    if !(0 <= pos && pos < s.len()) {
        Parsed::Fail { kind: ErrorKind::Tag, at: pos }
    } else if s[pos] == QUOTE {
        Parsed::Done { next: pos + 1, val: acc }
    } else if s[pos] == BACKSLASH && pos + 1 < s.len() && (s[pos + 1] == QUOTE || s[pos + 1]
        == BACKSLASH) {
        sp_string_body(s, pos + 2, acc.push(s[pos + 1]))
    } else {
        sp_string_body(s, pos + 1, acc.push(s[pos]))
    }
}

/// The string-literal rule: a single-quoted, escapable body.
pub open spec fn sp_string(s: Seq<u8>, pos: int) -> Parsed<Seq<u8>> {
    if !(0 <= pos && pos < s.len() && s[pos] == QUOTE) {
        Parsed::Fail { kind: ErrorKind::Tag, at: pos }
    } else {
        sp_string_body(s, pos + 1, Seq::empty())
    }
}

/// The offset of the first byte at or after `pos` that is not a decimal
/// digit.
pub open spec fn digit_end(s: Seq<u8>, pos: int) -> int
    decreases s.len() - pos,
{
    if 0 <= pos && pos < s.len() && is_digit(s[pos]) {
        digit_end(s, pos + 1)
    } else {
        pos
    }
}

/// The value of the decimal digits in `[lo, hi)`.
pub open spec fn digits_value(s: Seq<u8>, lo: int, hi: int) -> int
    decreases hi - lo,
{
    if lo >= hi {
        0
    } else {
        digits_value(s, lo, hi - 1) * 10 + (s[hi - 1] - 48)
    }
}

pub proof fn lemma_digit_end_bounds(s: Seq<u8>, pos: int)
    ensures
        digit_end(s, pos) >= pos,
        pos <= s.len() ==> digit_end(s, pos) <= s.len(),
    decreases s.len() - pos,
{
    if 0 <= pos && pos < s.len() && is_digit(s[pos]) {
        lemma_digit_end_bounds(s, pos + 1);
    }
}

pub proof fn lemma_digit_end_digits(s: Seq<u8>, pos: int)
    ensures
        forall|i: int| pos <= i < digit_end(s, pos) ==> is_digit(#[trigger] s[i]),
    decreases s.len() - pos,
{
    if 0 <= pos && pos < s.len() && is_digit(s[pos]) {
        lemma_digit_end_digits(s, pos + 1);
    }
}

pub proof fn lemma_digits_value_nonneg(s: Seq<u8>, lo: int, hi: int)
    requires
        forall|i: int| lo <= i < hi ==> is_digit(#[trigger] s[i]),
    ensures
        digits_value(s, lo, hi) >= 0,
    decreases hi - lo,
{
    if lo < hi {
        lemma_digits_value_nonneg(s, lo, hi - 1);
    }
}

/// Appending further digits to a digit run never shrinks its value.
pub proof fn lemma_digits_value_mono(s: Seq<u8>, lo: int, mid: int, hi: int)
    requires
        lo <= mid <= hi,
        forall|i: int| lo <= i < hi ==> is_digit(#[trigger] s[i]),
    ensures
        digits_value(s, lo, hi) >= digits_value(s, lo, mid),
    decreases hi - mid,
{
    if mid < hi {
        lemma_digits_value_mono(s, lo, mid, hi - 1);
        lemma_digits_value_nonneg(s, lo, hi - 1);
    }
}

/// The integer-literal rule: a non-empty run of decimal digits, read as a
/// base-ten value. A value that does not fit a 64-bit signed integer fails
/// the rule.
pub open spec fn sp_integer(s: Seq<u8>, pos: int) -> Parsed<i64> {
    if !(0 <= pos && pos < s.len() && is_digit(s[pos])) {
        Parsed::Fail { kind: ErrorKind::Tag, at: pos }
    } else {
        let e = digit_end(s, pos);
        let v = digits_value(s, pos, e);
        if v <= i64::MAX {
            Parsed::Done { next: e, val: v as i64 }
        } else {
            Parsed::Fail { kind: ErrorKind::Tag, at: pos }
        }
    }
}

/// The literal rule: an ordered alternation over string and integer
/// literals.
pub open spec fn sp_literal(s: Seq<u8>, pos: int) -> Parsed<LitV> {
    match sp_string(s, pos) {
        Parsed::Done { next, val } => Parsed::Done { next, val: LitV::Str(val) },
        Parsed::Fail { .. } => match sp_integer(s, pos) {
            Parsed::Done { next, val } => Parsed::Done { next, val: LitV::Int(val) },
            Parsed::Fail { .. } => Parsed::Fail { kind: ErrorKind::Alt, at: pos },
        },
    }
}

/// The repetition of the `unset` list: zero or more of (trivia, `,`, trivia,
/// variable), folded onto `acc`. When no comma follows, the repetition stops
/// before the trivia it probed; a comma commits it to one more variable.
pub open spec fn sp_unset_rest(s: Seq<u8>, pos: int, acc: Seq<SpanV>) -> Parsed<Seq<SpanV>>
    decreases s.len() - pos,
        via sp_unset_rest_decreases
{
    let t = trivia_end(s, pos);
    if !(t < s.len() && s[t] == COMMA) {
        Parsed::Done { next: pos, val: acc }
    } else {
        let t2 = trivia_end(s, t + 1);
        match sp_variable(s, t2) {
            Parsed::Fail { kind, at } => Parsed::Fail { kind, at },
            Parsed::Done { next, val } => sp_unset_rest(s, next, acc.push(val)),
        }
    }
}

#[via_fn]
proof fn sp_unset_rest_decreases(s: Seq<u8>, pos: int, acc: Seq<SpanV>) {
    lemma_trivia_end_bounds(s, pos);
    lemma_trivia_end_bounds(s, trivia_end(s, pos) + 1);
    lemma_sp_variable_bounds(s, trivia_end(s, trivia_end(s, pos) + 1));
}

/// The `unset` rule: the keyword, `(`, a mandatory first variable, the
/// comma repetition, and a mandatory `)`.
pub open spec fn sp_unset(s: Seq<u8>, pos: int) -> Parsed<ExprV> {
    if !unset_kw_at(s, pos) {
        Parsed::Fail { kind: ErrorKind::Tag, at: pos }
    } else {
        let t1 = trivia_end(s, pos + 5);
        if !(t1 < s.len() && s[t1] == LEFT_PARENTHESIS) {
            Parsed::Fail { kind: ErrorKind::Tag, at: t1 }
        } else {
            let t2 = trivia_end(s, t1 + 1);
            match sp_variable(s, t2) {
                Parsed::Fail { kind, at } => Parsed::Fail { kind, at },
                Parsed::Done { next, val } => match sp_unset_rest(s, next, seq![val]) {
                    Parsed::Fail { kind, at } => Parsed::Fail { kind, at },
                    Parsed::Done { next: n2, val: vs } => {
                        let t3 = trivia_end(s, n2);
                        if t3 < s.len() && s[t3] == RIGHT_PARENTHESIS {
                            Parsed::Done { next: t3 + 1, val: ExprV::Unset(vs) }
                        } else {
                            Parsed::Fail { kind: ErrorKind::Tag, at: t3 }
                        }
                    },
                },
            }
        }
    }
}

/// The general expression rule. The operator tiers of the full language are
/// built elsewhere on top of primaries; here the rule is its base case, so
/// it recognizes exactly a primary expression.
pub open spec fn sp_expression(s: Seq<u8>, pos: int) -> Parsed<ExprV>
    decreases s.len() - pos, 6int,
{
    sp_primary(s, pos)
}

/// The primary rule: an ordered alternation over variable, qualified name,
/// literal and intrinsic. When every alternative fails, the failure is an
/// `Alt` at the offset where the alternation was entered.
pub open spec fn sp_primary(s: Seq<u8>, pos: int) -> Parsed<ExprV>
    decreases s.len() - pos, 5int,
{
    match sp_variable(s, pos) {
        Parsed::Done { next, val } => Parsed::Done { next, val: ExprV::Variable(val) },
        Parsed::Fail { .. } => match sp_qualified_name(s, pos) {
            Parsed::Done { next, val } => Parsed::Done { next, val: ExprV::Name(val) },
            Parsed::Fail { .. } => match sp_literal(s, pos) {
                Parsed::Done { next, val } => Parsed::Done { next, val: ExprV::Literal(val) },
                Parsed::Fail { .. } => match sp_intrinsic(s, pos) {
                    Parsed::Done { next, val } => Parsed::Done { next, val },
                    Parsed::Fail { .. } => Parsed::Fail { kind: ErrorKind::Alt, at: pos },
                },
            },
        },
    }
}

/// The intrinsic rule: an ordered alternation over the construct and
/// operator tiers.
pub open spec fn sp_intrinsic(s: Seq<u8>, pos: int) -> Parsed<ExprV>
    decreases s.len() - pos, 4int,
{
    match sp_intrinsic_construct(s, pos) {
        Parsed::Done { next, val } => Parsed::Done { next, val },
        Parsed::Fail { .. } => match sp_intrinsic_operator(s, pos) {
            Parsed::Done { next, val } => Parsed::Done { next, val },
            Parsed::Fail { .. } => Parsed::Fail { kind: ErrorKind::Alt, at: pos },
        },
    }
}

/// The intrinsic-construct tier: an ordered alternation over `echo` and
/// `unset`.
pub open spec fn sp_intrinsic_construct(s: Seq<u8>, pos: int) -> Parsed<ExprV>
    decreases s.len() - pos, 3int,
{
    match sp_echo(s, pos) {
        Parsed::Done { next, val } => Parsed::Done { next, val },
        Parsed::Fail { .. } => match sp_unset(s, pos) {
            Parsed::Done { next, val } => Parsed::Done { next, val },
            Parsed::Fail { .. } => Parsed::Fail { kind: ErrorKind::Alt, at: pos },
        },
    }
}

/// The intrinsic-operator tier: today exactly the `empty` rule, whose
/// outcome — its failure position included — passes through unchanged.
pub open spec fn sp_intrinsic_operator(s: Seq<u8>, pos: int) -> Parsed<ExprV>
    decreases s.len() - pos, 2int,
{
    sp_empty(s, pos)
}

/// The `echo` rule: the keyword, a mandatory first expression, then the
/// comma repetition. The list is seeded with the first expression, so it is
/// never empty.
pub open spec fn sp_echo(s: Seq<u8>, pos: int) -> Parsed<ExprV>
    decreases s.len() - pos, 1int,
        via sp_echo_decreases
{
    if !echo_kw_at(s, pos) {
        Parsed::Fail { kind: ErrorKind::Tag, at: pos }
    } else {
        let t = trivia_end(s, pos + 4);
        match sp_expression(s, t) {
            Parsed::Fail { kind, at } => Parsed::Fail { kind, at },
            // the bounds test always passes (see the progress laws); it
            // keeps the recursion visibly well-founded
            Parsed::Done { next, val } => if pos <= next <= s.len() {
                match sp_echo_rest(s, next, seq![val]) {
                    Parsed::Fail { kind, at } => Parsed::Fail { kind, at },
                    Parsed::Done { next: n2, val: vs } => Parsed::Done {
                        next: n2,
                        val: ExprV::Echo(vs),
                    },
                }
            } else {
                Parsed::Fail { kind: ErrorKind::Tag, at: next }
            },
        }
    }
}

#[via_fn]
proof fn sp_echo_decreases(s: Seq<u8>, pos: int) {
    lemma_trivia_end_bounds(s, pos + 4);
}

/// The repetition of the `echo` list: zero or more of (trivia, `,`, trivia,
/// expression), folded onto `acc`. When no comma follows, the repetition
/// stops before the trivia it probed; a comma commits it to one more
/// expression, so a dangling comma fails the whole rule with the failure of
/// the expression that did not follow it.
pub open spec fn sp_echo_rest(s: Seq<u8>, pos: int, acc: Seq<ExprV>) -> Parsed<Seq<ExprV>>
    decreases s.len() - pos, 0int,
        via sp_echo_rest_decreases
{
    let t = trivia_end(s, pos);
    if !(t < s.len() && s[t] == COMMA) {
        Parsed::Done { next: pos, val: acc }
    } else {
        let t2 = trivia_end(s, t + 1);
        match sp_expression(s, t2) {
            Parsed::Fail { kind, at } => Parsed::Fail { kind, at },
            // the bounds test always passes (see the progress laws); it
            // keeps the recursion visibly well-founded
            Parsed::Done { next, val } => if pos < next <= s.len() {
                sp_echo_rest(s, next, acc.push(val))
            } else {
                Parsed::Fail { kind: ErrorKind::Tag, at: next }
            },
        }
    }
}

#[via_fn]
proof fn sp_echo_rest_decreases(s: Seq<u8>, pos: int, acc: Seq<ExprV>) {
    lemma_trivia_end_bounds(s, pos);
    lemma_trivia_end_bounds(s, trivia_end(s, pos) + 1);
}

/// The `empty` rule: the keyword, `(`, exactly one expression, `)`. Its
/// operand position is an expression position — an alternation — so a
/// missing operand surfaces as an `Alt` failure right after the `(`, where
/// `unset` in the same place reports a missing-token failure.
pub open spec fn sp_empty(s: Seq<u8>, pos: int) -> Parsed<ExprV>
    decreases s.len() - pos, 1int,
        via sp_empty_decreases
{
    if !empty_kw_at(s, pos) {
        Parsed::Fail { kind: ErrorKind::Tag, at: pos }
    } else {
        let t1 = trivia_end(s, pos + 5);
        if !(t1 < s.len() && s[t1] == LEFT_PARENTHESIS) {
            Parsed::Fail { kind: ErrorKind::Tag, at: t1 }
        } else {
            let t2 = trivia_end(s, t1 + 1);
            match sp_expression(s, t2) {
                Parsed::Fail { kind, at } => Parsed::Fail { kind, at },
                Parsed::Done { next, val } => {
                    let t3 = trivia_end(s, next);
                    if t3 < s.len() && s[t3] == RIGHT_PARENTHESIS {
                        Parsed::Done { next: t3 + 1, val: ExprV::Empty(seq![val]) }
                    } else {
                        Parsed::Fail { kind: ErrorKind::Tag, at: t3 }
                    }
                },
            }
        }
    }
}

#[via_fn]
proof fn sp_empty_decreases(s: Seq<u8>, pos: int) {
    lemma_trivia_end_bounds(s, pos + 5);
    lemma_trivia_end_bounds(s, trivia_end(s, pos + 5) + 1);
}

} // verus!
