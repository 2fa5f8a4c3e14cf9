use vstd::prelude::*;

verus! {

/// Two numbers and a text.
pub struct MyStruct {
    pub a: i32,
    pub b: i32,
    pub c: String,
}

impl MyStruct {
    /// Both numbers zero and the text `"hello"`.
    pub fn new() -> (s: Self)
        ensures
            s.a == 0,
            s.b == 0,
            s.c@ == "hello"@,
    {
        Self { a: 0, b: 0, c: String::from_str("hello") }
    }
}

} // verus!
