use vstd::prelude::*;

verus! {

/// Moves a value onto the heap.
pub trait Boxable: Sized {
    fn wrap(self) -> (r: Box<Self>)
        ensures
            *r == self,
    ;
}

impl<T> Boxable for T {
    fn wrap(self) -> (r: Box<Self>) {
        Box::new(self)
    }
}

} // verus!
