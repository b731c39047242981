//! The two named 4x4 matrices, over any element type that holds the small
//! integers.
use vstd::prelude::*;
use vstd::std_specs::convert::FromSpec;

verus! {

/// The entry at row `r`, column `c` of the identity (`unit`) or of the zero
/// matrix.
pub open spec fn named_entry<T: From<u8>>(unit: bool, r: int, c: int) -> T {
    T::from_spec(
        if unit && r == c {
            1u8
        } else {
            0u8
        },
    )
}

/// A row of four zeros with a one at position `k`, or none where `k` is 4.
fn unit_row<T: From<u8>>(k: usize) -> (row: [T; 4])
    requires
        k <= 4,
    ensures
        T::obeys_from_spec() ==> forall|c: int|
            0 <= c < 4 ==> #[trigger] row@[c] == T::from_spec(
                if c == k {
                    1u8
                } else {
                    0u8
                },
            ),
{
    let row = [
        T::from(if k == 0 { 1u8 } else { 0u8 }),
        T::from(if k == 1 { 1u8 } else { 0u8 }),
        T::from(if k == 2 { 1u8 } else { 0u8 }),
        T::from(if k == 3 { 1u8 } else { 0u8 }),
    ];
    proof {
        assert(row@.len() == 4);
    }
    row
}

pub struct Matrix4x4 {}

impl Matrix4x4 {
    /// The matrix of zeros.
    pub fn zero<T: From<u8>>() -> (m: [[T; 4]; 4])
        ensures
            T::obeys_from_spec() ==> forall|r: int, c: int|
                0 <= r < 4 && 0 <= c < 4 ==> #[trigger] m@[r]@[c] == named_entry::<T>(false, r, c),
    {
        [unit_row(4), unit_row(4), unit_row(4), unit_row(4)]
    }

    /// The identity matrix: ones on the diagonal, zeros elsewhere.
    pub fn identity<T: From<u8>>() -> (m: [[T; 4]; 4])
        ensures
            T::obeys_from_spec() ==> forall|r: int, c: int|
                0 <= r < 4 && 0 <= c < 4 ==> #[trigger] m@[r]@[c] == named_entry::<T>(true, r, c),
    {
        [unit_row(0), unit_row(1), unit_row(2), unit_row(3)]
    }
}

} // verus!
