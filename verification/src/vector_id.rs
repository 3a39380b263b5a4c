//! Vector ids: `u32` or `u64`.

use crate::byte_image;
use crate::byte_image::{Castable, Word};
use vstd::prelude::*;

verus! {

/// The type of a vector id.
pub trait VectorId: Castable {
    /// The id as a number.
    fn number(self) -> (n: u64)
        ensures
            n == self.bits(),
    ;

    /// The id of the given number, if there is one.
    fn try_from_number(n: usize) -> (id: Option<Self>)
        ensures
            match id {
                Some(i) => i.bits() == n,
                None => n >= byte_image::byte_range(Self::width()),
            },
    ;
}

impl VectorId for u32 {
    fn number(self) -> (n: u64) {
        self as u64
    }

    fn try_from_number(n: usize) -> (id: Option<Self>) {
        proof {
            reveal_with_fuel(byte_image::byte_range, 5);
        }
        if n as u64 <= u32::MAX as u64 {
            Some(n as u32)
        } else {
            None
        }
    }
}

impl VectorId for u64 {
    fn number(self) -> (n: u64) {
        self
    }

    fn try_from_number(n: usize) -> (id: Option<Self>) {
        Some(n as u64)
    }
}

} // verus!
