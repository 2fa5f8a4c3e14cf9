use vstd::prelude::*;

verus! {

/// A value of any type.
pub struct Data<T> {
    pub value: T,
}

/// Read access to a held value.
pub trait MyTrait<T> {
    /// The held value.
    fn get(&self) -> &T;
}

impl<T> MyTrait<T> for Data<T> {
    fn get(&self) -> (r: &T)
        ensures
            *r == self.value,
    {
        &self.value
    }
}

} // verus!
