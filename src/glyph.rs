use vstd::prelude::*;

verus! {

/// Relies on rltk's `to_cp437`: every printable ASCII character, space to
/// tilde, has its own code in code page 437.
#[verifier::external_body]
pub(crate) fn cp437_of(c: char) -> (r: u16)
    ensures
        32 <= c as u32 <= 126 ==> r as u32 == c as u32,
{
    rltk::to_cp437(c)
}

} // verus!
