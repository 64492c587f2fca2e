use vstd::prelude::*;

verus! {

/// A block of 505 bytes.
pub struct Matrix {
    pub data: [u8; 505],
}

impl Default for Matrix {
    /// All bytes zero.
    fn default() -> (r: Self)
        ensures
            forall|i: int| 0 <= i < 505 ==> #[trigger] r.data@[i] == 0,
    {
        Self { data: [0u8; 505] }
    }
}

} // verus!
