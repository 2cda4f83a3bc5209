use vstd::prelude::*;

verus! {

/// The two failure kinds of the grammar.
///
/// `Alt` reports that none of several candidate productions matched; it is
/// positioned where the alternation was entered. `Tag` reports that one
/// specific token (a keyword, a sigil, a punctuation byte) was expected and
/// absent; it is positioned exactly where the mismatch occurred.
#[derive(Debug, Clone, Copy, PartialEq, Eq, Structural)]
pub enum ErrorKind {
    Alt,
    Tag,
}

/// A positioned parse failure: the kind, and the byte offset into the input
/// buffer of the remaining input at which the rule failed.
#[derive(Debug, Clone, Copy, PartialEq, Eq, Structural)]
pub struct Error {
    pub kind: ErrorKind,
    pub at: usize,
}

/// Appends one parsed item to the ordered list that a repetition rule folds
/// its matches into.
pub fn fold_into_vector<T>(acc: Vec<T>, item: T) -> (r: Vec<T>)
    ensures
        r@ == acc@.push(item),
{
    let mut r = acc;
    r.push(item);
    r
}

} // verus!
