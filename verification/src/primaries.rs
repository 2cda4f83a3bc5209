//! Group of primary expression rules: the ordered alternation over
//! variables, qualified names, literals and intrinsics, and the grammar of
//! the three intrinsic constructs `echo`, `unset` and `empty`.
//!
//! Each rule is proved to return exactly what the corresponding spec
//! function of [`crate::model`] prescribes — the recognized node, the offset
//! of the unconsumed remainder, and positioned failures included.

use vstd::prelude::*;

use crate::ast::{
    expr_view, exprs_view, lemma_exprs_view_push, lemma_exprs_view_singleton, span_view,
    spans_view, vars_view, ExprV, Expression, Literal, Name, Variable,
};
use crate::internal::{fold_into_vector, Error, ErrorKind};
use crate::lexical::{
    echo_keyword, empty_keyword, skip_trivia, unset_keyword, COMMA, LEFT_PARENTHESIS,
    RIGHT_PARENTHESIS,
};
use crate::literals::literal;
use crate::model::{
    expr_res, exprs_res, sp_echo, sp_echo_rest, sp_empty, sp_expression, sp_intrinsic,
    sp_intrinsic_construct, sp_intrinsic_operator, sp_primary, sp_unset, sp_unset_rest, vars_res,
    Parsed,
};
use crate::tokens::{qualified_name, variable};

verus! {

/// Maps a matched variable reference into the unified expression type.
#[inline(always)]
pub fn variable_mapper(variable: Variable) -> (r: Expression)
    ensures
        expr_view(r) == ExprV::Variable(span_view(variable.name)),
{
    Expression::Variable(variable)
}

/// Maps a matched qualified name into the unified expression type.
#[inline(always)]
pub fn qualified_name_mapper(name: Name) -> (r: Expression)
    ensures
        (match name {
            Name::Qualified(segs) => expr_view(r) == ExprV::Name(spans_view(segs@)),
        }),
{
    Expression::Name(name)
}

/// Maps a matched literal into the unified expression type.
#[inline(always)]
pub fn literal_mapper(literal: Literal) -> (r: Expression)
    ensures
        expr_view(r) == ExprV::Literal(crate::ast::lit_view(literal)),
{
    Expression::Literal(literal)
}

/// Seeds the ordered list that a repetition folds into with its mandatory
/// first match.
#[inline(always)]
pub fn into_vector_mapper<T>(item: T) -> (r: Result<Vec<T>, ()>)
    ensures
        (r matches Ok(v) && v@ == seq![item]),
{
    let mut v: Vec<T> = Vec::new();
    v.push(item);
    proof {
        assert(v@ =~= seq![item]);
    }
    Ok(v)
}

/// Maps the folded operand list of `echo` into the unified expression type.
#[inline(always)]
pub fn echo_mapper(expressions: Vec<Expression>) -> (r: Expression)
    ensures
        expr_view(r) == ExprV::Echo(exprs_view(expressions@)),
{
    Expression::Echo(expressions)
}

/// Maps the folded variable list of `unset` into the unified expression
/// type.
#[inline(always)]
pub fn unset_mapper(variables: Vec<Variable>) -> (r: Expression)
    ensures
        expr_view(r) == ExprV::Unset(vars_view(variables@)),
{
    Expression::Unset(variables)
}

/// Maps the single operand of `empty` into the unified expression type,
/// wrapping it in an exclusively-owned box.
#[inline(always)]
pub fn empty_mapper(expression: Expression) -> (r: Result<Expression, ()>)
    ensures
        (r matches Ok(e) && expr_view(e) == ExprV::Empty(seq![expr_view(expression)])),
{
    Ok(Expression::Empty(Box::new(expression)))
}

/// The general expression rule. The operator tiers of the full language sit
/// elsewhere, above this crate; the primary rule is their base case, so
/// here an expression is exactly a primary expression.
pub fn expression(input: &[u8], pos: usize) -> (r: Result<(Expression, usize), Error>)
    requires
        pos <= input@.len(),
    ensures
        expr_res(sp_expression(input@, pos as int), r),
        (r matches Ok(t) ==> pos < t.1 <= input@.len()),
    decreases input@.len() - pos, 6int,
{
    primary(input, pos)
}

/// The primary rule: ordered alternation over variable, qualified name,
/// literal and intrinsic. When every alternative fails, the failure is an
/// alternation failure at the offset where this rule was entered.
pub fn primary(input: &[u8], pos: usize) -> (r: Result<(Expression, usize), Error>)
    requires
        pos <= input@.len(),
    ensures
        expr_res(sp_primary(input@, pos as int), r),
        (r matches Ok(t) ==> pos < t.1 <= input@.len()),
    decreases input@.len() - pos, 5int,
{
    match variable(input, pos) {
        Ok((v, n)) => return Ok((variable_mapper(v), n)),
        Err(_) => {},
    }
    match qualified_name(input, pos) {
        Ok((nm, n)) => return Ok((qualified_name_mapper(nm), n)),
        Err(_) => {},
    }
    match literal(input, pos) {
        Ok((l, n)) => return Ok((literal_mapper(l), n)),
        Err(_) => {},
    }
    match intrinsic(input, pos) {
        Ok(t) => Ok(t),
        Err(_) => Err(Error { kind: ErrorKind::Alt, at: pos }),
    }
}

/// The intrinsic rule: ordered alternation over the construct and operator
/// tiers.
pub fn intrinsic(input: &[u8], pos: usize) -> (r: Result<(Expression, usize), Error>)
    requires
        pos <= input@.len(),
    ensures
        expr_res(sp_intrinsic(input@, pos as int), r),
        (r matches Ok(t) ==> pos < t.1 <= input@.len()),
    decreases input@.len() - pos, 4int,
{
    match intrinsic_construct(input, pos) {
        Ok(t) => return Ok(t),
        Err(_) => {},
    }
    match intrinsic_operator(input, pos) {
        Ok(t) => Ok(t),
        Err(_) => Err(Error { kind: ErrorKind::Alt, at: pos }),
    }
}

/// The intrinsic-construct tier: ordered alternation over `echo` and
/// `unset`.
pub fn intrinsic_construct(input: &[u8], pos: usize) -> (r: Result<(Expression, usize), Error>)
    requires
        pos <= input@.len(),
    ensures
        expr_res(sp_intrinsic_construct(input@, pos as int), r),
        (r matches Ok(t) ==> pos < t.1 <= input@.len()),
    decreases input@.len() - pos, 3int,
{
    match intrinsic_echo(input, pos) {
        Ok(t) => return Ok(t),
        Err(_) => {},
    }
    match intrinsic_unset(input, pos) {
        Ok(t) => Ok(t),
        Err(_) => Err(Error { kind: ErrorKind::Alt, at: pos }),
    }
}

/// The intrinsic-operator tier: today exactly the `empty` rule, whose
/// outcome passes through unchanged. It is kept as a tier of its own as the
/// extension point for future single-operand intrinsics.
pub fn intrinsic_operator(input: &[u8], pos: usize) -> (r: Result<(Expression, usize), Error>)
    requires
        pos <= input@.len(),
    ensures
        expr_res(sp_intrinsic_operator(input@, pos as int), r),
        (r matches Ok(t) ==> pos < t.1 <= input@.len()),
    decreases input@.len() - pos, 2int,
{
    intrinsic_empty(input, pos)
}

/// The repetition of the `echo` list: zero or more of (trivia, comma,
/// trivia, expression), folded onto `acc`.
fn echo_rest(input: &[u8], pos: usize, acc: Vec<Expression>) -> (r: Result<
    (Vec<Expression>, usize),
    Error,
>)
    requires
        pos <= input@.len(),
    ensures
        exprs_res(sp_echo_rest(input@, pos as int, exprs_view(acc@)), r),
        (r matches Ok(t) ==> pos <= t.1 <= input@.len()),
    decreases input@.len() - pos, 1int,
{
    let t: usize = skip_trivia(input, pos);
    if t >= input.len() || input[t] != COMMA {
        return Ok((acc, pos));
    }
    let t2: usize = skip_trivia(input, t + 1);
    match expression(input, t2) {
        Err(e) => Err(e),
        Ok((e1, n1)) => {
            let acc2: Vec<Expression> = fold_into_vector(acc, e1);
            proof {
                lemma_exprs_view_push(acc@, e1);
            }
            echo_rest(input, n1, acc2)
        },
    }
}

/// The `echo` rule: the keyword, a mandatory first expression, then the
/// comma-separated repetition, folded left-to-right into a list seeded with
/// the first expression.
pub fn intrinsic_echo(input: &[u8], pos: usize) -> (r: Result<(Expression, usize), Error>)
    requires
        pos <= input@.len(),
    ensures
        expr_res(sp_echo(input@, pos as int), r),
        (r matches Ok(t) ==> pos < t.1 <= input@.len()),
    decreases input@.len() - pos, 1int,
{
    if !echo_keyword(input, pos) {
        return Err(Error { kind: ErrorKind::Tag, at: pos });
    }
    proof {
        assert(input@.len() == vstd::slice::spec_slice_len(input));
        assert(pos + 4 <= input@.len());
    }
    let t: usize = skip_trivia(input, pos + 4);
    match expression(input, t) {
        Err(e) => Err(e),
        Ok((e1, n1)) => {
            proof {
                lemma_exprs_view_singleton(e1);
            }
            let acc: Vec<Expression> = match into_vector_mapper(e1) {
                Ok(v) => v,
                Err(_) => Vec::new(),
            };
            match echo_rest(input, n1, acc) {
                Err(e) => Err(e),
                Ok((es, n2)) => Ok((echo_mapper(es), n2)),
            }
        },
    }
}

/// The repetition of the `unset` list: zero or more of (trivia, comma,
/// trivia, variable), folded onto `acc`.
fn unset_rest(input: &[u8], pos: usize, acc: Vec<Variable>) -> (r: Result<
    (Vec<Variable>, usize),
    Error,
>)
    requires
        pos <= input@.len(),
    ensures
        vars_res(sp_unset_rest(input@, pos as int, vars_view(acc@)), r),
        (r matches Ok(t) ==> pos <= t.1 <= input@.len()),
    decreases input@.len() - pos,
{
    let t: usize = skip_trivia(input, pos);
    if t >= input.len() || input[t] != COMMA {
        return Ok((acc, pos));
    }
    let t2: usize = skip_trivia(input, t + 1);
    match variable(input, t2) {
        Err(e) => Err(e),
        Ok((v, n1)) => {
            let acc2: Vec<Variable> = fold_into_vector(acc, v);
            proof {
                assert(vars_view(acc2@) =~= vars_view(acc@).push(span_view(v.name)));
            }
            unset_rest(input, n1, acc2)
        },
    }
}

/// The `unset` rule: the keyword, `(`, a mandatory first variable, the
/// comma-separated repetition, and a mandatory closing `)`.
pub fn intrinsic_unset(input: &[u8], pos: usize) -> (r: Result<(Expression, usize), Error>)
    requires
        pos <= input@.len(),
    ensures
        expr_res(sp_unset(input@, pos as int), r),
        (r matches Ok(t) ==> pos < t.1 <= input@.len()),
{
    if !unset_keyword(input, pos) {
        return Err(Error { kind: ErrorKind::Tag, at: pos });
    }
    proof {
        assert(input@.len() == vstd::slice::spec_slice_len(input));
        assert(pos + 5 <= input@.len());
    }
    let t1: usize = skip_trivia(input, pos + 5);
    if t1 >= input.len() || input[t1] != LEFT_PARENTHESIS {
        return Err(Error { kind: ErrorKind::Tag, at: t1 });
    }
    let t2: usize = skip_trivia(input, t1 + 1);
    match variable(input, t2) {
        Err(e) => Err(e),
        Ok((v, n1)) => {
            proof {
                assert(vars_view(seq![v]) =~= seq![span_view(v.name)]);
            }
            let acc: Vec<Variable> = match into_vector_mapper(v) {
                Ok(vs) => vs,
                Err(_) => Vec::new(),
            };
            match unset_rest(input, n1, acc) {
                Err(e) => Err(e),
                Ok((vs, n2)) => {
                    let t3: usize = skip_trivia(input, n2);
                    if t3 >= input.len() || input[t3] != RIGHT_PARENTHESIS {
                        return Err(Error { kind: ErrorKind::Tag, at: t3 });
                    }
                    Ok((unset_mapper(vs), t3 + 1))
                },
            }
        },
    }
}

/// The `empty` rule: the keyword, `(`, exactly one expression, and `)`. The
/// operand is wrapped in an exclusively-owned box.
pub fn intrinsic_empty(input: &[u8], pos: usize) -> (r: Result<(Expression, usize), Error>)
    requires
        pos <= input@.len(),
    ensures
        expr_res(sp_empty(input@, pos as int), r),
        (r matches Ok(t) ==> pos < t.1 <= input@.len()),
    decreases input@.len() - pos, 1int,
{
    if !empty_keyword(input, pos) {
        return Err(Error { kind: ErrorKind::Tag, at: pos });
    }
    proof {
        assert(input@.len() == vstd::slice::spec_slice_len(input));
        assert(pos + 5 <= input@.len());
    }
    let t1: usize = skip_trivia(input, pos + 5);
    if t1 >= input.len() || input[t1] != LEFT_PARENTHESIS {
        return Err(Error { kind: ErrorKind::Tag, at: t1 });
    }
    let t2: usize = skip_trivia(input, t1 + 1);
    match expression(input, t2) {
        Err(e) => Err(e),
        Ok((e1, n1)) => {
            let t3: usize = skip_trivia(input, n1);
            if t3 >= input.len() || input[t3] != RIGHT_PARENTHESIS {
                return Err(Error { kind: ErrorKind::Tag, at: t3 });
            }
            match empty_mapper(e1) {
                Ok(e2) => Ok((e2, t3 + 1)),
                Err(_) => Err(Error { kind: ErrorKind::Tag, at: pos }),
            }
        },
    }
}

} // verus!
