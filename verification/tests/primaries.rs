//! Tests of the primary-expression grammar: each rule's successes, its
//! positioned failures, and the error-kind distinctions between the
//! alternation tiers.

use primaries::ast::{Expression, Literal, Name, Span, Variable};
use primaries::internal::{Error, ErrorKind};
use primaries::literals::literal;
use primaries::primaries::{
    expression, intrinsic, intrinsic_construct, intrinsic_echo, intrinsic_empty,
    intrinsic_operator, intrinsic_unset, primary,
};

fn span(start: usize, len: usize) -> Span {
    Span { start, len }
}

fn var(start: usize, len: usize) -> Variable {
    Variable { name: span(start, len) }
}

#[test]
fn case_primary_variable() {
    let input = b"$foo";
    let output = Ok((Expression::Variable(var(1, 3)), 4));

    assert_eq!(primary(input, 0), output);
    assert_eq!(expression(input, 0), output);
    // the span aliases the source buffer: its bytes are the name itself
    assert_eq!(&input[1..4], b"foo");
}

#[test]
fn case_primary_qualified_name() {
    let input = b"Foo\\Bar";
    let output = Ok((Expression::Name(Name::Qualified(vec![span(0, 3), span(4, 3)])), 7));

    assert_eq!(primary(input, 0), output);
    assert_eq!(expression(input, 0), output);
    assert_eq!(&input[0..3], b"Foo");
    assert_eq!(&input[4..7], b"Bar");
}

#[test]
fn case_primary_literal() {
    let input = b"'Hello, World!'";
    let output = Ok((Expression::Literal(Literal::String(b"Hello, World!".to_vec())), 15));

    assert_eq!(primary(input, 0), output);
    assert_eq!(expression(input, 0), output);
}

#[test]
fn case_intrinsic_echo_one_expression() {
    let input = b"echo /* baz */ 'foobar'";
    let output = Ok((
        Expression::Echo(vec![Expression::Literal(Literal::String(b"foobar".to_vec()))]),
        23,
    ));

    assert_eq!(intrinsic_echo(input, 0), output);
    assert_eq!(intrinsic_construct(input, 0), output);
    assert_eq!(intrinsic(input, 0), output);
    assert_eq!(expression(input, 0), output);
}

#[test]
fn case_intrinsic_echo_many_expressions() {
    let input = b"echo /* baz */ 'foobar',\t $bazqux, \n  42";
    let output = Ok((
        Expression::Echo(vec![
            Expression::Literal(Literal::String(b"foobar".to_vec())),
            Expression::Variable(var(27, 6)),
            Expression::Literal(Literal::Integer(42i64)),
        ]),
        40,
    ));

    assert_eq!(intrinsic_echo(input, 0), output);
    assert_eq!(intrinsic_construct(input, 0), output);
    assert_eq!(intrinsic(input, 0), output);
    assert_eq!(expression(input, 0), output);
    assert_eq!(&input[27..33], b"bazqux");
}

#[test]
fn case_invalid_intrinsic_echo_expression_missing() {
    let input = b"echo;";
    let output = Err(Error { kind: ErrorKind::Alt, at: 0 });

    // the echo rule itself fails right after the keyword, at `;`
    assert_eq!(intrinsic_echo(input, 0), Err(Error { kind: ErrorKind::Alt, at: 4 }));
    assert_eq!(intrinsic_construct(input, 0), output);
    assert_eq!(intrinsic(input, 0), output);
    assert_eq!(expression(input, 0), output);
}

#[test]
fn case_intrinsic_unset_one_variable() {
    let input = b"unset($foo)";
    let output = Ok((Expression::Unset(vec![var(7, 3)]), 11));

    assert_eq!(intrinsic_unset(input, 0), output);
    assert_eq!(intrinsic_construct(input, 0), output);
    assert_eq!(intrinsic(input, 0), output);
    assert_eq!(expression(input, 0), output);
}

#[test]
fn case_intrinsic_unset_many_variables() {
    let input = b"unset($foo, $bar)";
    let output = Ok((Expression::Unset(vec![var(7, 3), var(13, 3)]), 17));

    assert_eq!(intrinsic_unset(input, 0), output);
    assert_eq!(intrinsic_construct(input, 0), output);
    assert_eq!(intrinsic(input, 0), output);
    assert_eq!(expression(input, 0), output);
    assert_eq!(&input[7..10], b"foo");
    assert_eq!(&input[13..16], b"bar");
}

#[test]
fn case_invalid_intrinsic_unset_zero_variable() {
    let input = b"unset()";
    let output = Err(Error { kind: ErrorKind::Alt, at: 0 });

    // a variable was expected and `)` found: a token-expectation failure at 6
    assert_eq!(intrinsic_unset(input, 0), Err(Error { kind: ErrorKind::Tag, at: 6 }));
    assert_eq!(intrinsic_construct(input, 0), output);
    assert_eq!(intrinsic(input, 0), output);
    assert_eq!(expression(input, 0), output);
}

#[test]
fn case_intrinsic_empty_string() {
    let input = b"empty('foo')";
    let output = Ok((
        Expression::Empty(Box::new(Expression::Literal(Literal::String(b"foo".to_vec())))),
        12,
    ));

    assert_eq!(intrinsic_empty(input, 0), output);
    assert_eq!(intrinsic_operator(input, 0), output);
    assert_eq!(intrinsic(input, 0), output);
    assert_eq!(expression(input, 0), output);
}

#[test]
fn case_intrinsic_empty_integer() {
    let input = b"empty(42)";
    let output = Ok((
        Expression::Empty(Box::new(Expression::Literal(Literal::Integer(42i64)))),
        9,
    ));

    assert_eq!(intrinsic_empty(input, 0), output);
    assert_eq!(intrinsic_operator(input, 0), output);
    assert_eq!(intrinsic(input, 0), output);
    assert_eq!(expression(input, 0), output);
}

#[test]
fn case_invalid_intrinsic_empty_expression_missing() {
    let input = b"empty()";
    // an expression position is an alternation, so the failure right after
    // `(` is an alternation failure, unlike unset's missing-token failure
    let output_a = Err(Error { kind: ErrorKind::Alt, at: 6 });
    let output_b = Err(Error { kind: ErrorKind::Alt, at: 0 });

    assert_eq!(intrinsic_empty(input, 0), output_a);
    assert_eq!(intrinsic_operator(input, 0), output_a);
    assert_eq!(intrinsic(input, 0), output_b);
    assert_eq!(expression(input, 0), output_b);
}

#[test]
fn case_echo_dangling_comma_fails() {
    // a comma commits the repetition to one more expression: the failure
    // sits right after the comma and its trivia, and the echo as a whole
    // fails instead of stopping at a partial list
    let input = b"echo 42, ;";
    assert_eq!(intrinsic_echo(input, 0), Err(Error { kind: ErrorKind::Alt, at: 9 }));
    assert_eq!(expression(input, 0), Err(Error { kind: ErrorKind::Alt, at: 0 }));
}

#[test]
fn case_unset_dangling_comma_fails() {
    let input = b"unset($a,)";
    assert_eq!(intrinsic_unset(input, 0), Err(Error { kind: ErrorKind::Tag, at: 9 }));
}

#[test]
fn case_unset_unterminated_list_fails() {
    let input = b"unset($a";
    assert_eq!(intrinsic_unset(input, 0), Err(Error { kind: ErrorKind::Tag, at: 8 }));
}

#[test]
fn case_unset_non_variable_operand_fails() {
    let input = b"unset(42)";
    assert_eq!(intrinsic_unset(input, 0), Err(Error { kind: ErrorKind::Tag, at: 6 }));
}

#[test]
fn case_integer_literal_at_signed_64_bit_bound() {
    let input = b"9223372036854775807";
    assert_eq!(literal(input, 0), Ok((Literal::Integer(i64::MAX), 19)));
}

#[test]
fn case_integer_literal_overflow_fails() {
    let input = b"9223372036854775808";
    assert_eq!(literal(input, 0), Err(Error { kind: ErrorKind::Alt, at: 0 }));
    assert_eq!(primary(input, 0), Err(Error { kind: ErrorKind::Alt, at: 0 }));
}

#[test]
fn case_string_literal_escapes() {
    // '\'' unescapes to a quote and '\\' to one backslash; a lone
    // backslash before any other byte stays as it is
    let input = b"'a\\'b\\\\c'";
    assert_eq!(literal(input, 0), Ok((Literal::String(b"a'b\\c".to_vec()), 9)));
}

#[test]
fn case_string_literal_unterminated_fails() {
    let input = b"'abc";
    assert_eq!(literal(input, 0), Err(Error { kind: ErrorKind::Alt, at: 0 }));
}

#[test]
fn case_remainder_reparse_consumes_forward_only() {
    // a successful parse hands back the offset of its remainder; parsing
    // again from there touches only bytes after it
    let input = b"42 'x'";
    assert_eq!(primary(input, 0), Ok((Expression::Literal(Literal::Integer(42i64)), 2)));
    assert_eq!(primary(input, 2), Err(Error { kind: ErrorKind::Alt, at: 2 }));
    assert_eq!(primary(input, 3), Ok((Expression::Literal(Literal::String(b"x".to_vec())), 6)));
}

#[test]
fn case_keyword_alone_is_no_name() {
    // `echo` does not parse as a qualified name, and without an operand the
    // whole primary alternation fails at its entry
    let input = b"echo";
    assert_eq!(primary(input, 0), Err(Error { kind: ErrorKind::Alt, at: 0 }));
}

#[test]
fn case_intrinsic_nested_in_empty() {
    // echo and empty call back into the general expression rule, so an
    // intrinsic can carry another intrinsic as its operand
    let input = b"empty(echo 42)";
    let output = Ok((
        Expression::Empty(Box::new(Expression::Echo(vec![Expression::Literal(
            Literal::Integer(42i64),
        )]))),
        14,
    ));
    assert_eq!(intrinsic_empty(input, 0), output);
    assert_eq!(expression(input, 0), output);
}

#[test]
fn case_empty_with_trivia_around_operand() {
    let input = b"empty ( 42 )";
    let output = Ok((
        Expression::Empty(Box::new(Expression::Literal(Literal::Integer(42i64)))),
        12,
    ));
    assert_eq!(intrinsic_empty(input, 0), output);
    assert_eq!(expression(input, 0), output);
}

#[test]
fn case_variable_stops_at_non_identifier() {
    let input = b"$foo+1";
    assert_eq!(primary(input, 0), Ok((Expression::Variable(var(1, 3)), 4)));
    assert_eq!(&input[1..4], b"foo");
}
