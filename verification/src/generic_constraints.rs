use vstd::prelude::*;

verus! {

/// Something that can do two things.
pub trait MyTrait {
    /// The first action.
    fn foo(&self);

    /// The second action.
    fn bar(&self);
}

/// Does both actions of `t`, first `foo` and then `bar`.
pub fn func<T: MyTrait>(t: &T) {
    t.foo();
    t.bar();
}

} // verus!
