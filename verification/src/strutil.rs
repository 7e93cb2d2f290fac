use vstd::prelude::*;

verus! {

/// Relies on `String`'s `FromIterator<char>` implementation: collecting the
/// characters of `v` yields the string of exactly those characters.
#[verifier::external_body]
pub fn chars_to_string(v: &Vec<char>) -> (r: String)
    ensures
        r@ == v@,
{
    v.iter().collect()
}

/// Increment that stops at the largest representable value; positions in
/// any real source text never reach it.
pub open spec fn spec_bump(x: int) -> int {
    if x < usize::MAX as int {
        x + 1
    } else {
        x
    }
}

pub fn bump(x: usize) -> (r: usize)
    ensures
        r as int == spec_bump(x as int),
{
    if x < usize::MAX {
        x + 1
    } else {
        x
    }
}

} // verus!
