//! The token layer: trivia (whitespace and block comments), identifiers, and
//! the fixed tokens of the grammar.
//!
//! Every rule that the grammar applies after another token first skips the
//! trivia in between. The spec functions here define, as plain functions on
//! byte sequences and offsets, where trivia and identifiers end and where the
//! fixed tokens match; the executable functions are proved to compute exactly
//! those offsets.

use vstd::prelude::*;

verus! {

/// The byte `$`, the sigil that opens a variable.
pub const DOLLAR: u8 = 36;

/// The byte `'`, the delimiter of a string literal.
pub const QUOTE: u8 = 39;

/// The byte `\`, both the separator of qualified names and the escape byte
/// inside string literals.
pub const BACKSLASH: u8 = 92;

/// The byte `,`.
pub const COMMA: u8 = 44;

/// The byte `(`.
pub const LEFT_PARENTHESIS: u8 = 40;

/// The byte `)`.
pub const RIGHT_PARENTHESIS: u8 = 41;

/// The byte `/`.
pub const SLASH: u8 = 47;

/// The byte `*`.
pub const STAR: u8 = 42;

/// The bytes treated as whitespace between tokens: space, tab, line feed,
/// carriage return.
pub open spec fn is_trivia_space(b: u8) -> bool {
    b == 32 || b == 9 || b == 10 || b == 13
}

/// A byte that can open an identifier: an ASCII letter or `_`.
pub open spec fn is_ident_start(b: u8) -> bool {
    (97 <= b && b <= 122) || (65 <= b && b <= 90) || b == 95
}

/// A decimal digit byte, `0` through `9`.
pub open spec fn is_digit(b: u8) -> bool {
    48 <= b && b <= 57
}

/// A byte that can continue an identifier.
pub open spec fn is_ident_cont(b: u8) -> bool {
    is_ident_start(b) || is_digit(b)
}

/// The offset right after the first `*/` at or after `i`, or the end of the
/// buffer when the comment never closes.
pub open spec fn comment_close(s: Seq<u8>, i: int) -> int
    decreases s.len() - i,
{
    if i + 1 >= s.len() {
        if i <= s.len() {
            s.len() as int
        } else {
            i
        }
    } else if s[i] == STAR && s[i + 1] == SLASH {
        i + 2
    } else {
        comment_close(s, i + 1)
    }
}

pub proof fn lemma_comment_close_bounds(s: Seq<u8>, i: int)
    ensures
        comment_close(s, i) >= i,
        i <= s.len() ==> comment_close(s, i) <= s.len(),
    decreases s.len() - i,
{
    if i + 1 >= s.len() {
    } else if s[i] == STAR && s[i + 1] == SLASH {
    } else {
        lemma_comment_close_bounds(s, i + 1);
    }
}

/// The offset of the first byte at or after `pos` that does not belong to
/// trivia, where trivia is a run of whitespace bytes and `/* ... */` block
/// comments. An unterminated block comment counts as trivia up to the end of
/// the buffer.
pub open spec fn trivia_end(s: Seq<u8>, pos: int) -> int
    decreases s.len() - pos,
        via trivia_end_decreases
{
    if pos < 0 || pos >= s.len() {
        pos
    } else if is_trivia_space(s[pos]) {
        trivia_end(s, pos + 1)
    } else if pos + 1 < s.len() && s[pos] == SLASH && s[pos + 1] == STAR {
        trivia_end(s, comment_close(s, pos + 2))
    } else {
        pos
    }
}

#[via_fn]
proof fn trivia_end_decreases(s: Seq<u8>, pos: int) {
    lemma_comment_close_bounds(s, pos + 2);
}

pub proof fn lemma_trivia_end_bounds(s: Seq<u8>, pos: int)
    ensures
        trivia_end(s, pos) >= pos,
        pos <= s.len() ==> trivia_end(s, pos) <= s.len(),
    decreases s.len() - pos,
{
    if pos < 0 || pos >= s.len() {
    } else if is_trivia_space(s[pos]) {
        lemma_trivia_end_bounds(s, pos + 1);
    } else if pos + 1 < s.len() && s[pos] == SLASH && s[pos + 1] == STAR {
        lemma_comment_close_bounds(s, pos + 2);
        lemma_trivia_end_bounds(s, comment_close(s, pos + 2));
    } else {
    }
}

/// The offset of the first byte at or after `pos` that cannot continue an
/// identifier.
pub open spec fn ident_end(s: Seq<u8>, pos: int) -> int
    decreases s.len() - pos,
{
    if 0 <= pos && pos < s.len() && is_ident_cont(s[pos]) {
        ident_end(s, pos + 1)
    } else {
        pos
    }
}

pub proof fn lemma_ident_end_bounds(s: Seq<u8>, pos: int)
    ensures
        ident_end(s, pos) >= pos,
        pos <= s.len() ==> ident_end(s, pos) <= s.len(),
    decreases s.len() - pos,
{
    if 0 <= pos && pos < s.len() && is_ident_cont(s[pos]) {
        lemma_ident_end_bounds(s, pos + 1);
    }
}

/// The keyword `echo` (bytes `e`, `c`, `h`, `o`) matches at `pos`.
pub open spec fn echo_kw_at(s: Seq<u8>, pos: int) -> bool {
    0 <= pos && pos + 4 <= s.len() && s[pos] == 101 && s[pos + 1] == 99 && s[pos + 2] == 104
        && s[pos + 3] == 111
}

/// The keyword `unset` (bytes `u`, `n`, `s`, `e`, `t`) matches at `pos`.
pub open spec fn unset_kw_at(s: Seq<u8>, pos: int) -> bool {
    0 <= pos && pos + 5 <= s.len() && s[pos] == 117 && s[pos + 1] == 110 && s[pos + 2] == 115
        && s[pos + 3] == 101 && s[pos + 4] == 116
}

/// The keyword `empty` (bytes `e`, `m`, `p`, `t`, `y`) matches at `pos`.
pub open spec fn empty_kw_at(s: Seq<u8>, pos: int) -> bool {
    0 <= pos && pos + 5 <= s.len() && s[pos] == 101 && s[pos + 1] == 109 && s[pos + 2] == 112
        && s[pos + 3] == 116 && s[pos + 4] == 121
}

/// The bytes of `[lo, hi)` spell one of the grammar's keywords. A name
/// segment must not be such a word.
pub open spec fn span_is_keyword(s: Seq<u8>, lo: int, hi: int) -> bool {
    (hi - lo == 4 && echo_kw_at(s, lo)) || (hi - lo == 5 && unset_kw_at(s, lo)) || (hi - lo == 5
        && empty_kw_at(s, lo))
}

pub fn trivia_space(b: u8) -> (r: bool)
    ensures
        r == is_trivia_space(b),
{
    b == 32 || b == 9 || b == 10 || b == 13
}

pub fn ident_start(b: u8) -> (r: bool)
    ensures
        r == is_ident_start(b),
{
    (97 <= b && b <= 122) || (65 <= b && b <= 90) || b == 95
}

pub fn digit(b: u8) -> (r: bool)
    ensures
        r == is_digit(b),
{
    48 <= b && b <= 57
}

pub fn ident_cont(b: u8) -> (r: bool)
    ensures
        r == is_ident_cont(b),
{
    ident_start(b) || digit(b)
}

fn comment_end(input: &[u8], i: usize) -> (r: usize)
    requires
        i <= input@.len(),
    ensures
        r as int == comment_close(input@, i as int),
        i <= r <= input@.len(),
    decreases input@.len() - i,
{
    if input.len() - i < 2 {
        input.len()
    } else if input[i] == STAR && input[i + 1] == SLASH {
        i + 2
    } else {
        comment_end(input, i + 1)
    }
}

/// Skips the trivia that starts at `pos` and returns the offset of the first
/// byte that is not trivia.
pub fn skip_trivia(input: &[u8], pos: usize) -> (r: usize)
    requires
        pos <= input@.len(),
    ensures
        r as int == trivia_end(input@, pos as int),
        pos <= r <= input@.len(),
    decreases input@.len() - pos,
{
    if pos >= input.len() {
        pos
    } else if trivia_space(input[pos]) {
        skip_trivia(input, pos + 1)
    } else if input.len() - pos >= 2 && input[pos] == SLASH && input[pos + 1] == STAR {
        let c: usize = comment_end(input, pos + 2);
        skip_trivia(input, c)
    } else {
        pos
    }
}

/// Returns the offset of the first byte at or after `pos` that cannot
/// continue an identifier.
pub fn ident_stop(input: &[u8], pos: usize) -> (r: usize)
    requires
        pos <= input@.len(),
    ensures
        r as int == ident_end(input@, pos as int),
        pos <= r <= input@.len(),
    decreases input@.len() - pos,
{
    if pos < input.len() && ident_cont(input[pos]) {
        ident_stop(input, pos + 1)
    } else {
        pos
    }
}

/// Recognizes the `echo` keyword at `pos`.
pub fn echo_keyword(input: &[u8], pos: usize) -> (r: bool)
    requires
        pos <= input@.len(),
    ensures
        r == echo_kw_at(input@, pos as int),
{
    input.len() - pos >= 4 && input[pos] == 101 && input[pos + 1] == 99 && input[pos + 2] == 104
        && input[pos + 3] == 111
}

/// Recognizes the `unset` keyword at `pos`.
pub fn unset_keyword(input: &[u8], pos: usize) -> (r: bool)
    requires
        pos <= input@.len(),
    ensures
        r == unset_kw_at(input@, pos as int),
{
    input.len() - pos >= 5 && input[pos] == 117 && input[pos + 1] == 110 && input[pos + 2] == 115
        && input[pos + 3] == 101 && input[pos + 4] == 116
}

/// Recognizes the `empty` keyword at `pos`.
pub fn empty_keyword(input: &[u8], pos: usize) -> (r: bool)
    requires
        pos <= input@.len(),
    ensures
        r == empty_kw_at(input@, pos as int),
{
    input.len() - pos >= 5 && input[pos] == 101 && input[pos + 1] == 109 && input[pos + 2] == 112
        && input[pos + 3] == 116 && input[pos + 4] == 121
}

/// Tests whether the bytes of `[lo, hi)` spell a keyword.
pub fn keyword_span(input: &[u8], lo: usize, hi: usize) -> (r: bool)
    requires
        lo <= hi <= input@.len(),
    ensures
        r == span_is_keyword(input@, lo as int, hi as int),
{
    if hi - lo == 4 {
        echo_keyword(input, lo)
    } else if hi - lo == 5 {
        unset_keyword(input, lo) || empty_keyword(input, lo)
    } else {
        false
    }
}

} // verus!
