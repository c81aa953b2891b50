use vstd::prelude::*;

verus! {

/// The greeting served at the root path.
pub const GREETING: &'static str = "Hello, world!";

/// The body of the root page.
pub fn home() -> (r: &'static str)
    ensures
        r@ == GREETING@,
{
    GREETING
}

} // verus!
