use vstd::prelude::*;

verus! {

/// A width and a height of the same unit.
pub struct Size<T> {
    pub width: T,
    pub height: T,
}

impl<T: Copy> Clone for Size<T> {
    fn clone(&self) -> (copy: Self)
        ensures
            copy == *self,
    {
        *self
    }
}

impl<T: Copy> Copy for Size<T> {

}

} // verus!
