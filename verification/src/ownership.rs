use vstd::prelude::*;

verus! {

/// A freshly made string whose ownership passes to the caller.
pub fn gives_ownership() -> (s: String)
    ensures
        s@ == "I am new"@,
{
    let some_string = String::from_str("I am new");
    some_string
}

} // verus!
