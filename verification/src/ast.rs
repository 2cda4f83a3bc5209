//! The abstract syntax tree that the grammar produces, and its mathematical
//! model.
//!
//! Borrowed leaves (variables, name segments) do not copy text out of the
//! source buffer: they hold a [`Span`], a start offset and length into the
//! immutable buffer the parse ran over, so their text is exactly the aliased
//! bytes of that buffer. String literals are the one exception: unescaping
//! makes them owned copies.

use vstd::prelude::*;

verus! {

/// A half-open range `[start, start + len)` of byte offsets into the source
/// buffer: the borrowed view that a zero-copy leaf stores instead of the
/// text itself.
#[derive(Debug, Clone, Copy, PartialEq, Eq, Structural)]
pub struct Span {
    pub start: usize,
    pub len: usize,
}

/// A variable reference: the name, without the leading `$` sigil, as a span
/// of the source buffer.
#[derive(Debug, PartialEq)]
pub struct Variable {
    pub name: Span,
}

/// A qualified name: its segments, in source order, each a span of the
/// source buffer.
#[derive(Debug, PartialEq)]
pub enum Name {
    Qualified(Vec<Span>),
}

/// A scalar literal. String literals own their unescaped bytes.
#[derive(Debug, PartialEq)]
pub enum Literal {
    String(Vec<u8>),
    Integer(i64),
}

/// A primary expression. `Echo` and `Unset` hold non-empty lists in source
/// order; `Empty` exclusively owns its single operand.
#[derive(Debug, PartialEq)]
pub enum Expression {
    Variable(Variable),
    Name(Name),
    Literal(Literal),
    Echo(Vec<Expression>),
    Unset(Vec<Variable>),
    Empty(Box<Expression>),
}

/// Mathematical model of a span: the same offsets, as unbounded integers.
pub struct SpanV {
    pub start: int,
    pub len: int,
}

/// Mathematical model of a literal.
pub enum LitV {
    Str(Seq<u8>),
    Int(i64),
}

/// Mathematical model of an expression. `Empty` is modelled as a singleton
/// sequence holding its one operand.
pub enum ExprV {
    Variable(SpanV),
    Name(Seq<SpanV>),
    Literal(LitV),
    Echo(Seq<ExprV>),
    Unset(Seq<SpanV>),
    Empty(Seq<ExprV>),
}

pub open spec fn span_view(sp: Span) -> SpanV {
    SpanV { start: sp.start as int, len: sp.len as int }
}

pub open spec fn spans_view(s: Seq<Span>) -> Seq<SpanV> {
    s.map(|i: int, sp: Span| span_view(sp))
}

pub open spec fn vars_view(s: Seq<Variable>) -> Seq<SpanV> {
    s.map(|i: int, v: Variable| span_view(v.name))
}

pub open spec fn lit_view(l: Literal) -> LitV {
    match l {
        Literal::String(b) => LitV::Str(b@),
        Literal::Integer(i) => LitV::Int(i),
    }
}

pub open spec fn expr_view(e: Expression) -> ExprV
    decreases e,
{
    match e {
        Expression::Variable(v) => ExprV::Variable(span_view(v.name)),
        Expression::Name(Name::Qualified(segs)) => ExprV::Name(spans_view(segs@)),
        Expression::Literal(l) => ExprV::Literal(lit_view(l)),
        Expression::Echo(es) => ExprV::Echo(exprs_view(es@)),
        Expression::Unset(vs) => ExprV::Unset(vars_view(vs@)),
        Expression::Empty(b) => ExprV::Empty(seq![expr_view(*b)]),
    }
}

pub open spec fn exprs_view(s: Seq<Expression>) -> Seq<ExprV>
    decreases s,
{
    if s.len() == 0 {
        Seq::empty()
    } else {
        seq![expr_view(s[0])] + exprs_view(s.subrange(1, s.len() as int))
    }
}

pub proof fn lemma_exprs_view_push(s: Seq<Expression>, e: Expression)
    ensures
        exprs_view(s.push(e)) == exprs_view(s).push(expr_view(e)),
    decreases s.len(),
{
    reveal_with_fuel(exprs_view, 2);
    let t = s.push(e);
    if s.len() == 0 {
        assert(t.subrange(1, t.len() as int) =~= Seq::<Expression>::empty());
        assert(t[0] == e);
        assert(exprs_view(t) =~= exprs_view(s).push(expr_view(e)));
    } else {
        assert(t.subrange(1, t.len() as int) =~= s.subrange(1, s.len() as int).push(e));
        lemma_exprs_view_push(s.subrange(1, s.len() as int), e);
        assert(exprs_view(t) =~= exprs_view(s).push(expr_view(e)));
    }
}

pub proof fn lemma_exprs_view_singleton(e: Expression)
    ensures
        exprs_view(seq![e]) == seq![expr_view(e)],
{
    reveal_with_fuel(exprs_view, 2);
    assert(seq![e].subrange(1, 1) =~= Seq::<Expression>::empty());
    assert(seq![e][0] == e);
    assert(exprs_view(seq![e]) =~= seq![expr_view(e)]);
}

pub proof fn lemma_exprs_view_len(s: Seq<Expression>)
    ensures
        exprs_view(s).len() == s.len(),
    decreases s,
{
    if s.len() > 0 {
        lemma_exprs_view_len(s.subrange(1, s.len() as int));
    }
}

} // verus!
