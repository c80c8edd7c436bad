//! A pair of two values of one `Copy` type.

use vstd::prelude::*;

verus! {

pub struct Pair<T: Copy> {
    first: T,
    second: T,
}

impl<T: Copy> View for Pair<T> {
    type V = (T, T);

    closed spec fn view(&self) -> (T, T) {
        (self.first, self.second)
    }
}

impl<T: Copy> Pair<T> {
    pub fn new(first: T, second: T) -> (r: Pair<T>)
        ensures
            r@ == (first, second),
    {
        Pair { first, second }
    }

    pub fn first(&self) -> (r: T)
        ensures
            r == self@.0,
    {
        self.first
    }

    pub fn second(&self) -> (r: T)
        ensures
            r == self@.1,
    {
        self.second
    }

    /// Exchanges the two values.
    pub fn swap(&mut self)
        ensures
            final(self)@ == (old(self)@.1, old(self)@.0),
    {
        let temp = self.first;
        self.first = self.second;
        self.second = temp;
    }
}

} // verus!
