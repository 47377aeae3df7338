//! A fixed-size value array, used for colour triples.
use vstd::prelude::*;

verus! {

/// `N` values of type `T`, stored inline.
#[derive(Copy, Clone)]
pub struct Array<T, const N: usize> {
    pub data: [T; N],
}

impl<T: Copy + Default, const N: usize> Array<T, N> {
    /// An array with every slot holding `T`'s default value.
    pub fn new() -> (r: Self)
        ensures
            forall|i: int| 0 <= i < N ==> call_ensures(T::default, (), #[trigger] r.data@[i]),
    {
        let d = T::default();
        Array { data: [d; N] }
    }
}

} // verus!
