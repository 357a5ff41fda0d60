//! Contracts for the few standard-library operations the buffers rely on
//! that vstd does not specify.

use vstd::prelude::*;
use vstd::utf8::is_scalar;

verus! {

/// Relies on char::from_u32: it returns the character with the given
/// scalar value, and `None` exactly when the value is a surrogate or
/// exceeds the greatest code point.
pub assume_specification[ char::from_u32 ](i: u32) -> (r: Option<char>)
    ensures
        r is Some <==> is_scalar(i),
        r is Some ==> r->0 as u32 == i,
;

/// Relies on Vec::shrink_to_fit: it may release spare allocation but
/// never changes the stored elements.
#[verifier::external_body]
pub(crate) fn vec_shrink_to_fit<T>(v: &mut Vec<T>)
    ensures
        final(v)@ == old(v)@,
{
    v.shrink_to_fit()
}

/// Relies on String's FromIterator<char> impl: collecting characters
/// yields the string holding exactly those characters in order.
#[verifier::external_body]
pub(crate) fn chars_to_string(v: &Vec<char>) -> (r: String)
    ensures
        r@ == v@,
{
    v.iter().collect()
}

} // verus!
