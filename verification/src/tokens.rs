//! The leaf rules over identifiers: variable references and qualified
//! names. Both are zero-copy: they return spans of the source buffer, never
//! copies of its text.

use vstd::prelude::*;

use crate::ast::{Name, Span, Variable};
use crate::internal::{Error, ErrorKind};
use crate::lexical::{ident_start, ident_stop, keyword_span, BACKSLASH, DOLLAR};
use crate::model::{
    name_res, seg_res, sp_name_rest, sp_name_segment, sp_qualified_name, sp_variable, spans_res,
    var_res, Parsed,
};

verus! {

/// The variable rule: `$` followed by an identifier. The returned
/// [`Variable`] holds the identifier's span, without the sigil.
pub fn variable(input: &[u8], pos: usize) -> (r: Result<(Variable, usize), Error>)
    requires
        pos <= input@.len(),
    ensures
        var_res(sp_variable(input@, pos as int), r),
        (r matches Ok(t) ==> pos < t.1 <= input@.len()),
{
    if pos >= input.len() || input[pos] != DOLLAR {
        return Err(Error { kind: ErrorKind::Tag, at: pos });
    }
    if pos + 1 >= input.len() || !ident_start(input[pos + 1]) {
        return Err(Error { kind: ErrorKind::Tag, at: pos + 1 });
    }
    let e: usize = ident_stop(input, pos + 2);
    Ok((Variable { name: Span { start: pos + 1, len: e - (pos + 1) } }, e))
}

/// One segment of a qualified name: an identifier that does not spell a
/// keyword.
fn name_segment(input: &[u8], pos: usize) -> (r: Result<(Span, usize), Error>)
    requires
        pos <= input@.len(),
    ensures
        seg_res(sp_name_segment(input@, pos as int), r),
        (r matches Ok(t) ==> pos < t.1 <= input@.len()),
{
    if pos >= input.len() || !ident_start(input[pos]) {
        return Err(Error { kind: ErrorKind::Tag, at: pos });
    }
    let e: usize = ident_stop(input, pos + 1);
    if keyword_span(input, pos, e) {
        return Err(Error { kind: ErrorKind::Tag, at: pos });
    }
    Ok((Span { start: pos, len: e - pos }, e))
}

/// The repetition of a qualified name: further `\`-prefixed segments folded
/// onto `acc`.
fn name_rest(input: &[u8], pos: usize, acc: Vec<Span>) -> (r: Result<(Vec<Span>, usize), Error>)
    requires
        pos <= input@.len(),
    ensures
        spans_res(sp_name_rest(input@, pos as int, crate::ast::spans_view(acc@)), r),
        (r matches Ok(t) ==> pos <= t.1 <= input@.len()),
    decreases input@.len() - pos,
{
    if pos >= input.len() || input[pos] != BACKSLASH {
        return Ok((acc, pos));
    }
    match name_segment(input, pos + 1) {
        Err(e) => Err(e),
        Ok((sp, next)) => {
            let acc2: Vec<Span> = crate::internal::fold_into_vector(acc, sp);
            proof {
                assert(crate::ast::spans_view(acc2@) =~= crate::ast::spans_view(acc@).push(
                    crate::ast::span_view(sp),
                ));
            }
            name_rest(input, next, acc2)
        },
    }
}

/// The qualified-name rule: one segment, then zero or more `\`-prefixed
/// further segments, in source order.
pub fn qualified_name(input: &[u8], pos: usize) -> (r: Result<(Name, usize), Error>)
    requires
        pos <= input@.len(),
    ensures
        name_res(sp_qualified_name(input@, pos as int), r),
        (r matches Ok(t) ==> pos < t.1 <= input@.len()),
{
    match name_segment(input, pos) {
        Err(e) => Err(e),
        Ok((sp, next)) => {
            let mut segs: Vec<Span> = Vec::new();
            segs.push(sp);
            proof {
                assert(crate::ast::spans_view(segs@) =~= seq![crate::ast::span_view(sp)]);
            }
            match name_rest(input, next, segs) {
                Err(e) => Err(e),
                Ok((sps, n2)) => Ok((Name::Qualified(sps), n2)),
            }
        },
    }
}

} // verus!
