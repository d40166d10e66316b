//! The crate's greeting.

use vstd::prelude::*;

verus! {

/// The fixed greeting text.
pub fn hello() -> (greeting: &'static str)
    ensures
        greeting@ == "Hello, World!"@,
{
    "Hello, World!"
}

} // verus!
