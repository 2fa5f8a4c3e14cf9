use crate::text::{decimal_text, i32_to_string};
use vstd::prelude::*;

verus! {

/// Hands `i`, written in decimal, to `callback` and returns what the
/// callback returns.
pub fn callback_func_1<F: Fn(String) -> Option<String>>(i: i32, callback: F) -> (res: Option<
    String,
>)
    requires
        forall|s: String| s@ == decimal_text(i as int) ==> callback.requires((s,)),
    ensures
        exists|s: String| s@ == decimal_text(i as int) && callback.ensures((s,), res),
{
    let text = i32_to_string(i);
    let res = callback(text);
    res
}

/// Calls `f` once.
pub fn callback_func_2<F: Fn()>(f: F)
    requires
        f.requires(()),
    ensures
        f.ensures((), ()),
{
    f();
}

/// Adds one to a per-thread counter.
pub fn increment_tls(count: &mut u32)
    requires
        *old(count) < u32::MAX,
    ensures
        *final(count) == *old(count) + 1,
{
    *count += 1;
}

} // verus!
