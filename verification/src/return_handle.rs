use vstd::prelude::*;

verus! {

/// `Some(i)` when `i` is positive, `None` otherwise.
pub fn opt_demo(i: i32) -> (r: Option<i32>)
    ensures
        r == (if i > 0 {
            Some(i)
        } else {
            None
        }),
{
    if i > 0 {
        Some(i)
    } else {
        None
    }
}

/// `Ok(i)` when `i` is positive, otherwise an error saying that `i` is
/// negative (zero included).
pub fn result_demo(i: i32) -> (r: Result<i32, String>)
    ensures
        i > 0 ==> r == Ok::<i32, String>(i),
        i <= 0 ==> (r matches Err(e) && e@ == "i is negative"@),
{
    if i > 0 {
        Ok(i)
    } else {
        Err(String::from_str("i is negative"))
    }
}

} // verus!
