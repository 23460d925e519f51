//! Small trusted extensions over std's strings and characters, used where
//! vstd gives std no specification.

use vstd::prelude::*;

verus! {

/// Relies on `String::push`: appends the given character to the end of the
/// string.
#[verifier::external_body]
pub fn push_char(s: &mut String, c: char)
    ensures
        final(s)@ == old(s)@.push(c),
{
    s.push(c)
}

/// Relies on `char::from_u32`: returns the character with scalar value `v`,
/// or `None` when `v` is a surrogate or lies above the Unicode range.
#[verifier::external_body]
pub fn char_from_u32(v: u32) -> (r: Option<char>)
    ensures
        r matches Some(c) ==> c as u32 == v,
        r is Some <==> vstd::utf8::is_scalar(v),
{
    char::from_u32(v)
}

} // verus!
