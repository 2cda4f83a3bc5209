//! Proven laws of the grammar: how failures collapse, that parsing only
//! consumes forward within bounds, that the fold rules keep source order,
//! the non-emptiness invariants of the intrinsic lists, and the zero-copy
//! shape of the borrowed leaves.

use vstd::prelude::*;

use crate::ast::{ExprV, SpanV};
use crate::internal::ErrorKind;
use crate::lexical::{
    echo_kw_at, empty_kw_at, ident_end, is_ident_cont, is_ident_start, lemma_ident_end_bounds,
    lemma_trivia_end_bounds, span_is_keyword, trivia_end, unset_kw_at, BACKSLASH, COMMA, DOLLAR,
    LEFT_PARENTHESIS, QUOTE,
};
use crate::model::{
    lemma_digit_end_bounds, lemma_sp_name_segment_bounds, lemma_sp_variable_bounds, sp_echo,
    sp_echo_rest, sp_empty, sp_expression, sp_intrinsic, sp_intrinsic_construct,
    sp_intrinsic_operator, sp_literal, sp_name_rest, sp_name_segment, sp_primary,
    sp_qualified_name, sp_string_body, sp_unset, sp_unset_rest, sp_variable, Parsed,
};

verus! {

pub proof fn lemma_sp_name_rest_bounds(s: Seq<u8>, pos: int, acc: Seq<SpanV>)
    requires
        0 <= pos <= s.len(),
    ensures
        (sp_name_rest(s, pos, acc) matches Parsed::Done { next, .. } ==> pos <= next <= s.len()),
    decreases s.len() - pos,
{
    if 0 <= pos && pos < s.len() && s[pos] == BACKSLASH {
        lemma_sp_name_segment_bounds(s, pos + 1);
        match sp_name_segment(s, pos + 1) {
            Parsed::Done { next, val } => {
                lemma_sp_name_rest_bounds(s, next, acc.push(val));
            },
            Parsed::Fail { .. } => {},
        }
    }
}

pub proof fn lemma_sp_qualified_name_bounds(s: Seq<u8>, pos: int)
    requires
        0 <= pos <= s.len(),
    ensures
        (sp_qualified_name(s, pos) matches Parsed::Done { next, .. } ==> pos < next <= s.len()),
{
    lemma_sp_name_segment_bounds(s, pos);
    match sp_name_segment(s, pos) {
        Parsed::Done { next, val } => {
            lemma_sp_name_rest_bounds(s, next, seq![val]);
        },
        Parsed::Fail { .. } => {},
    }
}

pub proof fn lemma_sp_string_body_bounds(s: Seq<u8>, pos: int, acc: Seq<u8>)
    requires
        0 <= pos <= s.len(),
    ensures
        (sp_string_body(s, pos, acc) matches Parsed::Done { next, .. } ==> pos < next <= s.len()),
    decreases s.len() - pos,
{
    if 0 <= pos && pos < s.len() {
        if s[pos] == QUOTE {
        } else if s[pos] == BACKSLASH && pos + 1 < s.len() && (s[pos + 1] == QUOTE || s[pos + 1]
            == BACKSLASH) {
            lemma_sp_string_body_bounds(s, pos + 2, acc.push(s[pos + 1]));
        } else {
            lemma_sp_string_body_bounds(s, pos + 1, acc.push(s[pos]));
        }
    }
}

pub proof fn lemma_sp_literal_bounds(s: Seq<u8>, pos: int)
    requires
        0 <= pos <= s.len(),
    ensures
        (sp_literal(s, pos) matches Parsed::Done { next, .. } ==> pos < next <= s.len()),
{
    if 0 <= pos && pos < s.len() && s[pos] == QUOTE {
        lemma_sp_string_body_bounds(s, pos + 1, Seq::empty());
    }
    lemma_digit_end_bounds(s, pos);
    lemma_digit_end_bounds(s, pos + 1);
}

pub proof fn lemma_sp_unset_rest_bounds(s: Seq<u8>, pos: int, acc: Seq<SpanV>)
    requires
        0 <= pos <= s.len(),
    ensures
        (sp_unset_rest(s, pos, acc) matches Parsed::Done { next, .. } ==> pos <= next <= s.len()),
    decreases s.len() - pos,
{
    lemma_trivia_end_bounds(s, pos);
    let t = trivia_end(s, pos);
    if t < s.len() && s[t] == COMMA {
        let t2 = trivia_end(s, t + 1);
        lemma_trivia_end_bounds(s, t + 1);
        lemma_sp_variable_bounds(s, t2);
        match sp_variable(s, t2) {
            Parsed::Done { next, val } => {
                lemma_sp_unset_rest_bounds(s, next, acc.push(val));
            },
            Parsed::Fail { .. } => {},
        }
    }
}

pub proof fn lemma_sp_unset_bounds(s: Seq<u8>, pos: int)
    requires
        0 <= pos <= s.len(),
    ensures
        (sp_unset(s, pos) matches Parsed::Done { next, .. } ==> pos < next <= s.len()),
{
    if unset_kw_at(s, pos) {
        let t1 = trivia_end(s, pos + 5);
        lemma_trivia_end_bounds(s, pos + 5);
        if t1 < s.len() && s[t1] == LEFT_PARENTHESIS {
            let t2 = trivia_end(s, t1 + 1);
            lemma_trivia_end_bounds(s, t1 + 1);
            lemma_sp_variable_bounds(s, t2);
            match sp_variable(s, t2) {
                Parsed::Done { next, val } => {
                    lemma_sp_unset_rest_bounds(s, next, seq![val]);
                    match sp_unset_rest(s, next, seq![val]) {
                        Parsed::Done { next: n2, .. } => {
                            lemma_trivia_end_bounds(s, n2);
                        },
                        Parsed::Fail { .. } => {},
                    }
                },
                Parsed::Fail { .. } => {},
            }
        }
    }
}

/// Parsing an expression never consumes backwards and never consumes past
/// the end of the buffer: a success starting at `pos` leaves the remainder
/// at an offset strictly after `pos` and at most the buffer's length.
pub proof fn lemma_sp_expression_progress(s: Seq<u8>, pos: int)
    requires
        0 <= pos <= s.len(),
    ensures
        (sp_expression(s, pos) matches Parsed::Done { next, .. } ==> pos < next <= s.len()),
    decreases s.len() - pos, 6int,
{
    lemma_sp_primary_progress(s, pos);
}

pub proof fn lemma_sp_primary_progress(s: Seq<u8>, pos: int)
    requires
        0 <= pos <= s.len(),
    ensures
        (sp_primary(s, pos) matches Parsed::Done { next, .. } ==> pos < next <= s.len()),
    decreases s.len() - pos, 5int,
{
    lemma_sp_variable_bounds(s, pos);
    lemma_sp_qualified_name_bounds(s, pos);
    lemma_sp_literal_bounds(s, pos);
    lemma_sp_intrinsic_progress(s, pos);
}

pub proof fn lemma_sp_intrinsic_progress(s: Seq<u8>, pos: int)
    requires
        0 <= pos <= s.len(),
    ensures
        (sp_intrinsic(s, pos) matches Parsed::Done { next, .. } ==> pos < next <= s.len()),
    decreases s.len() - pos, 4int,
{
    lemma_sp_intrinsic_construct_progress(s, pos);
    lemma_sp_intrinsic_operator_progress(s, pos);
}

pub proof fn lemma_sp_intrinsic_construct_progress(s: Seq<u8>, pos: int)
    requires
        0 <= pos <= s.len(),
    ensures
        (sp_intrinsic_construct(s, pos) matches Parsed::Done { next, .. } ==> pos < next
            <= s.len()),
    decreases s.len() - pos, 3int,
{
    lemma_sp_echo_progress(s, pos);
    lemma_sp_unset_bounds(s, pos);
}

pub proof fn lemma_sp_intrinsic_operator_progress(s: Seq<u8>, pos: int)
    requires
        0 <= pos <= s.len(),
    ensures
        (sp_intrinsic_operator(s, pos) matches Parsed::Done { next, .. } ==> pos < next
            <= s.len()),
    decreases s.len() - pos, 2int,
{
    lemma_sp_empty_progress(s, pos);
}

pub proof fn lemma_sp_echo_progress(s: Seq<u8>, pos: int)
    requires
        0 <= pos <= s.len(),
    ensures
        (sp_echo(s, pos) matches Parsed::Done { next, .. } ==> pos < next <= s.len()),
    decreases s.len() - pos, 1int,
{
    if echo_kw_at(s, pos) {
        let t = trivia_end(s, pos + 4);
        lemma_trivia_end_bounds(s, pos + 4);
        lemma_sp_expression_progress(s, t);
        match sp_expression(s, t) {
            Parsed::Done { next, val } => {
                lemma_sp_echo_rest_bounds(s, next, seq![val]);
            },
            Parsed::Fail { .. } => {},
        }
    }
}

pub proof fn lemma_sp_echo_rest_bounds(s: Seq<u8>, pos: int, acc: Seq<ExprV>)
    requires
        0 <= pos <= s.len(),
    ensures
        (sp_echo_rest(s, pos, acc) matches Parsed::Done { next, .. } ==> pos <= next <= s.len()),
    decreases s.len() - pos, 0int,
{
    lemma_trivia_end_bounds(s, pos);
    let t = trivia_end(s, pos);
    if t < s.len() && s[t] == COMMA {
        let t2 = trivia_end(s, t + 1);
        lemma_trivia_end_bounds(s, t + 1);
        lemma_sp_expression_progress(s, t2);
        match sp_expression(s, t2) {
            Parsed::Done { next, val } => {
                if pos < next <= s.len() {
                    lemma_sp_echo_rest_bounds(s, next, acc.push(val));
                }
            },
            Parsed::Fail { .. } => {},
        }
    }
}

pub proof fn lemma_sp_empty_progress(s: Seq<u8>, pos: int)
    requires
        0 <= pos <= s.len(),
    ensures
        (sp_empty(s, pos) matches Parsed::Done { next, .. } ==> pos < next <= s.len()),
    decreases s.len() - pos, 1int,
{
    if empty_kw_at(s, pos) {
        let t1 = trivia_end(s, pos + 5);
        lemma_trivia_end_bounds(s, pos + 5);
        if t1 < s.len() && s[t1] == LEFT_PARENTHESIS {
            let t2 = trivia_end(s, t1 + 1);
            lemma_trivia_end_bounds(s, t1 + 1);
            lemma_sp_expression_progress(s, t2);
            match sp_expression(s, t2) {
                Parsed::Done { next, .. } => {
                    lemma_trivia_end_bounds(s, next);
                },
                Parsed::Fail { .. } => {},
            }
        }
    }
}

/// No double consumption: a successful parse at `pos` consumes only the
/// bytes of `(pos, next]`, and re-parsing the unconsumed remainder from the
/// returned offset can only consume bytes strictly after it — the two
/// parses touch disjoint spans of the buffer.
pub proof fn lemma_no_double_consumption(s: Seq<u8>, pos: int)
    requires
        0 <= pos <= s.len(),
    ensures
        (sp_primary(s, pos) matches Parsed::Done { next: n1, .. } ==> pos < n1 <= s.len() && (
        sp_primary(s, n1) matches Parsed::Done { next: n2, .. } ==> n1 < n2 <= s.len())),
{
    lemma_sp_primary_progress(s, pos);
    match sp_primary(s, pos) {
        Parsed::Done { next: n1, .. } => {
            lemma_sp_primary_progress(s, n1);
        },
        Parsed::Fail { .. } => {},
    }
}

/// The primary rule collapses every failure to an alternation failure at
/// the offset where the alternation was entered: whatever went wrong in
/// whichever branch, a failed primary parse reports `Alt` at its own entry.
pub proof fn lemma_primary_failure_collapses(s: Seq<u8>, pos: int)
    ensures
        (sp_primary(s, pos) matches Parsed::Fail { kind, at } ==> kind == ErrorKind::Alt && at
            == pos),
        (sp_expression(s, pos) matches Parsed::Fail { kind, at } ==> kind == ErrorKind::Alt && at
            == pos),
        (sp_intrinsic(s, pos) matches Parsed::Fail { kind, at } ==> kind == ErrorKind::Alt && at
            == pos),
        (sp_intrinsic_construct(s, pos) matches Parsed::Fail { kind, at } ==> kind
            == ErrorKind::Alt && at == pos),
{
}

pub proof fn lemma_ident_end_stops(s: Seq<u8>, i: int, j: int)
    requires
        0 <= i <= j <= s.len(),
        forall|k: int| i <= k < j ==> is_ident_cont(#[trigger] s[k]),
        j == s.len() || !is_ident_cont(s[j]),
    ensures
        ident_end(s, i) == j,
    decreases j - i,
{
    if i < j {
        lemma_ident_end_stops(s, i + 1, j);
    }
}

pub proof fn lemma_ident_end_chars(s: Seq<u8>, pos: int)
    ensures
        forall|i: int| pos <= i < ident_end(s, pos) ==> is_ident_cont(#[trigger] s[i]),
    decreases s.len() - pos,
{
    if 0 <= pos && pos < s.len() && is_ident_cont(s[pos]) {
        lemma_ident_end_chars(s, pos + 1);
    }
}

/// Zero-copy shape of a parsed variable: the span it stores starts right
/// after the `$` sigil and ends exactly where the parse stopped, so the
/// text it denotes is byte-identical to — and aliases — that span of the
/// original buffer: an identifier-shaped run of at least one byte.
pub proof fn lemma_variable_zero_copy(s: Seq<u8>, pos: int)
    requires
        0 <= pos <= s.len(),
    ensures
        (sp_variable(s, pos) matches Parsed::Done { next, val } ==> val.start == pos + 1
            && val.len >= 1 && val.start + val.len == next && next <= s.len() && is_ident_start(
            s[val.start],
        ) && (forall|i: int| val.start <= i < val.start + val.len ==> is_ident_cont(
            #[trigger] s[i],
        ))),
{
    lemma_sp_variable_bounds(s, pos);
    if 0 <= pos && pos < s.len() && s[pos] == DOLLAR && pos + 1 < s.len() && is_ident_start(
        s[pos + 1],
    ) {
        lemma_ident_end_chars(s, pos + 2);
        lemma_ident_end_bounds(s, pos + 2);
        let e = ident_end(s, pos + 2);
        assert forall|i: int| pos + 1 <= i < e implies is_ident_cont(s[i]) by {
            if i == pos + 1 {
                assert(is_ident_start(s[i]));
            }
        }
    }
}

pub proof fn lemma_name_rest_spans(s: Seq<u8>, pos: int, acc: Seq<SpanV>, lo: int)
    requires
        0 <= lo <= pos <= s.len(),
        forall|j: int|
            0 <= j < acc.len() ==> lo <= (#[trigger] acc[j]).start && acc[j].start + acc[j].len
                <= pos && acc[j].len >= 1,
    ensures
        (sp_name_rest(s, pos, acc) matches Parsed::Done { next, val } ==> val.len() >= acc.len()
            && (forall|j: int| 0 <= j < acc.len() ==> val[j] == acc[j]) && (forall|j: int|
            0 <= j < val.len() ==> lo <= (#[trigger] val[j]).start && val[j].start + val[j].len
                <= next && val[j].len >= 1)),
    decreases s.len() - pos,
{
    if 0 <= pos && pos < s.len() && s[pos] == BACKSLASH {
        lemma_sp_name_segment_bounds(s, pos + 1);
        match sp_name_segment(s, pos + 1) {
            Parsed::Done { next, val } => {
                lemma_name_rest_spans(s, next, acc.push(val), lo);
            },
            Parsed::Fail { .. } => {},
        }
    }
}

/// Zero-copy shape of a parsed qualified name: every segment span lies
/// inside the consumed region of the buffer, holds at least one byte, and
/// the first segment starts exactly where the parse began — the segments
/// alias the source text in source order rather than copying it.
pub proof fn lemma_name_zero_copy(s: Seq<u8>, pos: int)
    requires
        0 <= pos <= s.len(),
    ensures
        (sp_qualified_name(s, pos) matches Parsed::Done { next, val } ==> val.len() >= 1
            && val[0].start == pos && (forall|j: int|
            0 <= j < val.len() ==> pos <= (#[trigger] val[j]).start && val[j].start + val[j].len
                <= next && val[j].len >= 1)),
{
    lemma_sp_name_segment_bounds(s, pos);
    match sp_name_segment(s, pos) {
        Parsed::Done { next, val } => {
            lemma_name_rest_spans(s, next, seq![val], pos);
        },
        Parsed::Fail { .. } => {},
    }
}

/// Parsing a buffer that is one whole well-formed variable — a `$` sigil,
/// then an identifier that runs to the end — yields that variable with an
/// empty remainder: the primary rule stops exactly at the end of the
/// buffer and the stored span covers the whole name.
pub proof fn lemma_primary_whole_variable(s: Seq<u8>)
    requires
        s.len() >= 2,
        s[0] == DOLLAR,
        is_ident_start(s[1]),
        forall|i: int| 2 <= i < s.len() ==> is_ident_cont(#[trigger] s[i]),
    ensures
        sp_primary(s, 0) == (Parsed::Done {
            next: s.len() as int,
            val: ExprV::Variable(SpanV { start: 1, len: s.len() - 1 }),
        }),
{
    lemma_ident_end_stops(s, 2, s.len() as int);
}

/// Parsing a buffer that is one whole well-formed qualified name of three
/// `\`-separated segments, none of them a keyword, yields exactly those
/// three segments, in source order, each aliasing its span of the buffer,
/// with an empty remainder.
pub proof fn lemma_primary_whole_qualified_name(s: Seq<u8>, l1: int, l2: int, l3: int)
    requires
        l1 >= 1 && l2 >= 1 && l3 >= 1,
        s.len() == l1 + 1 + l2 + 1 + l3,
        s[l1] == BACKSLASH,
        s[l1 + 1 + l2] == BACKSLASH,
        is_ident_start(s[0]),
        forall|i: int| 0 <= i < l1 ==> is_ident_cont(#[trigger] s[i]),
        is_ident_start(s[l1 + 1]),
        forall|i: int| l1 + 1 <= i < l1 + 1 + l2 ==> is_ident_cont(#[trigger] s[i]),
        is_ident_start(s[l1 + 2 + l2]),
        forall|i: int| l1 + 2 + l2 <= i < s.len() ==> is_ident_cont(#[trigger] s[i]),
        !span_is_keyword(s, 0, l1),
        !span_is_keyword(s, l1 + 1, l1 + 1 + l2),
        !span_is_keyword(s, l1 + 2 + l2, s.len() as int),
    ensures
        sp_primary(s, 0) == (Parsed::Done {
            next: s.len() as int,
            val: ExprV::Name(
                seq![
                    SpanV { start: 0, len: l1 },
                    SpanV { start: l1 + 1, len: l2 },
                    SpanV { start: l1 + 2 + l2, len: l3 },
                ],
            ),
        }),
{
    let n = s.len() as int;
    assert(!is_ident_cont(BACKSLASH));
    assert(!(s[0] == DOLLAR));
    lemma_ident_end_stops(s, 1, l1);
    let sp1 = SpanV { start: 0, len: l1 };
    assert(sp_name_segment(s, 0) == (Parsed::Done { next: l1, val: sp1 }));
    lemma_ident_end_stops(s, l1 + 2, l1 + 1 + l2);
    let sp2 = SpanV { start: l1 + 1, len: l2 };
    assert(sp_name_segment(s, l1 + 1) == (Parsed::Done { next: l1 + 1 + l2, val: sp2 }));
    lemma_ident_end_stops(s, l1 + 3 + l2, n);
    let sp3 = SpanV { start: l1 + 2 + l2, len: l3 };
    assert(sp_name_segment(s, l1 + 2 + l2) == (Parsed::Done { next: n, val: sp3 }));
    assert(sp_name_rest(s, n, seq![sp1, sp2, sp3]) == (Parsed::Done {
        next: n,
        val: seq![sp1, sp2, sp3],
    }));
    assert(seq![sp1, sp2].push(sp3) =~= seq![sp1, sp2, sp3]);
    assert(sp_name_rest(s, l1 + 1 + l2, seq![sp1, sp2]) == (Parsed::Done {
        next: n,
        val: seq![sp1, sp2, sp3],
    }));
    assert(seq![sp1].push(sp2) =~= seq![sp1, sp2]);
    assert(sp_name_rest(s, l1, seq![sp1]) == (Parsed::Done { next: n, val: seq![sp1, sp2, sp3] }));
    assert(sp_qualified_name(s, 0) == (Parsed::Done { next: n, val: seq![sp1, sp2, sp3] }));
    assert(sp_variable(s, 0) matches Parsed::Fail { .. });
}

/// The repetition rules preserve their accumulator as a prefix: whatever a
/// fold has already collected stays, unchanged and in order, in front of
/// the matches that follow. Applied to the seeded lists of `echo`, this is
/// the left-to-right source order of the operand list.
pub proof fn lemma_echo_rest_prefix(s: Seq<u8>, pos: int, acc: Seq<ExprV>)
    requires
        0 <= pos <= s.len(),
    ensures
        (sp_echo_rest(s, pos, acc) matches Parsed::Done { next, val } ==> val.len() >= acc.len()
            && (forall|j: int| 0 <= j < acc.len() ==> val[j] == acc[j])),
    decreases s.len() - pos,
{
    lemma_trivia_end_bounds(s, pos);
    let t = trivia_end(s, pos);
    if t < s.len() && s[t] == COMMA {
        let t2 = trivia_end(s, t + 1);
        lemma_trivia_end_bounds(s, t + 1);
        match sp_expression(s, t2) {
            Parsed::Done { next, val } => {
                if pos < next <= s.len() {
                    lemma_echo_rest_prefix(s, next, acc.push(val));
                }
            },
            Parsed::Fail { .. } => {},
        }
    }
}

/// The same prefix preservation for the variable list of `unset`.
pub proof fn lemma_unset_rest_prefix(s: Seq<u8>, pos: int, acc: Seq<SpanV>)
    requires
        0 <= pos <= s.len(),
    ensures
        (sp_unset_rest(s, pos, acc) matches Parsed::Done { next, val } ==> val.len() >= acc.len()
            && (forall|j: int| 0 <= j < acc.len() ==> val[j] == acc[j])),
    decreases s.len() - pos,
{
    lemma_trivia_end_bounds(s, pos);
    let t = trivia_end(s, pos);
    if t < s.len() && s[t] == COMMA {
        let t2 = trivia_end(s, t + 1);
        lemma_trivia_end_bounds(s, t + 1);
        lemma_sp_variable_bounds(s, t2);
        match sp_variable(s, t2) {
            Parsed::Done { next, val } => {
                lemma_unset_rest_prefix(s, next, acc.push(val));
            },
            Parsed::Fail { .. } => {},
        }
    }
}

/// A successful `echo` always yields an `Echo` node over a non-empty list
/// whose first element is the mandatory expression parsed right after the
/// keyword: the seed of the fold stays first, so the list keeps source
/// order.
pub proof fn lemma_echo_shape(s: Seq<u8>, pos: int)
    requires
        0 <= pos <= s.len(),
    ensures
        (sp_echo(s, pos) matches Parsed::Done { val: v, .. } ==> v matches ExprV::Echo(vs)
            && vs.len() >= 1 && (sp_expression(s, trivia_end(s, pos + 4)) matches Parsed::Done {
            val: e1,
            ..
        } && vs[0] == e1)),
{
    if echo_kw_at(s, pos) {
        let t = trivia_end(s, pos + 4);
        lemma_trivia_end_bounds(s, pos + 4);
        lemma_sp_expression_progress(s, t);
        match sp_expression(s, t) {
            Parsed::Done { next, val } => {
                lemma_echo_rest_prefix(s, next, seq![val]);
            },
            Parsed::Fail { .. } => {},
        }
    }
}

/// A successful `unset` always yields an `Unset` node over a non-empty
/// variable list whose first element is the mandatory variable parsed right
/// after the opening parenthesis.
pub proof fn lemma_unset_shape(s: Seq<u8>, pos: int)
    requires
        0 <= pos <= s.len(),
    ensures
        (sp_unset(s, pos) matches Parsed::Done { val: v, .. } ==> v matches ExprV::Unset(vs)
            && vs.len() >= 1 && (sp_variable(
            s,
            trivia_end(s, trivia_end(s, pos + 5) + 1),
        ) matches Parsed::Done { val: v1, .. } && vs[0] == v1)),
{
    if unset_kw_at(s, pos) {
        let t1 = trivia_end(s, pos + 5);
        lemma_trivia_end_bounds(s, pos + 5);
        if t1 < s.len() && s[t1] == LEFT_PARENTHESIS {
            let t2 = trivia_end(s, t1 + 1);
            lemma_trivia_end_bounds(s, t1 + 1);
            lemma_sp_variable_bounds(s, t2);
            match sp_variable(s, t2) {
                Parsed::Done { next, val } => {
                    lemma_unset_rest_prefix(s, next, seq![val]);
                },
                Parsed::Fail { .. } => {},
            }
        }
    }
}

/// A successful `empty` always wraps exactly one operand: the expression
/// parsed between its parentheses.
pub proof fn lemma_empty_shape(s: Seq<u8>, pos: int)
    requires
        0 <= pos <= s.len(),
    ensures
        (sp_empty(s, pos) matches Parsed::Done { val: v, .. } ==> v matches ExprV::Empty(es)
            && es.len() == 1 && (sp_expression(
            s,
            trivia_end(s, trivia_end(s, pos + 5) + 1),
        ) matches Parsed::Done { val: e1, .. } && es[0] == e1)),
{
}

/// A missing `echo` operand: when nothing that follows the keyword (and its
/// trivia) parses as an expression, the whole rule fails with an alternation
/// failure positioned immediately after the keyword and trivia.
pub proof fn lemma_echo_missing_operand(s: Seq<u8>, pos: int)
    requires
        echo_kw_at(s, pos),
        (sp_expression(s, trivia_end(s, pos + 4)) matches Parsed::Fail { .. }),
    ensures
        sp_echo(s, pos) == (Parsed::<ExprV>::Fail {
            kind: ErrorKind::Alt,
            at: trivia_end(s, pos + 4),
        }),
{
    lemma_primary_failure_collapses(s, trivia_end(s, pos + 4));
}

/// A missing `unset` variable: when the byte after `unset(` and trivia does
/// not open a variable, the rule fails with a token-expectation failure
/// positioned exactly there — a single concrete production was expected, so
/// the failure is `Tag`, not `Alt`.
pub proof fn lemma_unset_missing_variable(s: Seq<u8>, pos: int)
    requires
        unset_kw_at(s, pos),
        trivia_end(s, pos + 5) < s.len(),
        s[trivia_end(s, pos + 5)] == LEFT_PARENTHESIS,
        !(trivia_end(s, trivia_end(s, pos + 5) + 1) < s.len() && s[trivia_end(
            s,
            trivia_end(s, pos + 5) + 1,
        )] == DOLLAR),
    ensures
        sp_unset(s, pos) == (Parsed::<ExprV>::Fail {
            kind: ErrorKind::Tag,
            at: trivia_end(s, trivia_end(s, pos + 5) + 1),
        }),
{
    lemma_trivia_end_bounds(s, pos + 5);
    lemma_trivia_end_bounds(s, trivia_end(s, pos + 5) + 1);
}

/// A missing `empty` operand: the operand position is an expression
/// position — an alternation — so when nothing after `empty(` and trivia
/// parses as an expression, the rule fails with an `Alt` failure right
/// after the `(` and trivia, in contrast to `unset`'s `Tag` in the same
/// place.
pub proof fn lemma_empty_missing_operand(s: Seq<u8>, pos: int)
    requires
        empty_kw_at(s, pos),
        trivia_end(s, pos + 5) < s.len(),
        s[trivia_end(s, pos + 5)] == LEFT_PARENTHESIS,
        (sp_expression(s, trivia_end(s, trivia_end(s, pos + 5) + 1)) matches Parsed::Fail { .. }),
    ensures
        sp_empty(s, pos) == (Parsed::<ExprV>::Fail {
            kind: ErrorKind::Alt,
            at: trivia_end(s, trivia_end(s, pos + 5) + 1),
        }),
{
    lemma_primary_failure_collapses(s, trivia_end(s, trivia_end(s, pos + 5) + 1));
}

} // verus!
