//! A smart pointer that owns a vector and dereferences to it.

use vstd::prelude::*;

verus! {

pub struct CustomSP<T> {
    data: Vec<T>,
}

impl<T> View for CustomSP<T> {
    type V = Seq<T>;

    closed spec fn view(&self) -> Seq<T> {
        self.data@
    }
}

impl<T> CustomSP<T> {
    /// A pointer to an empty vector.
    pub fn new() -> (r: CustomSP<T>)
        ensures
            r@ == Seq::<T>::empty(),
    {
        CustomSP { data: Vec::new() }
    }
}

impl<T> std::ops::Deref for CustomSP<T> {
    type Target = Vec<T>;

    fn deref(&self) -> &Vec<T> {
        &self.data
    }
}

impl<T> std::ops::DerefMut for CustomSP<T> {
    fn deref_mut(&mut self) -> &mut Vec<T> {
        &mut self.data
    }
}

} // verus!
