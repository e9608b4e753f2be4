//! Fixed-capacity containers: a bounded sequence, a stable-index arena and a
//! byte cursor with fixed-layout value encoding.
use vstd::prelude::*;

pub mod cursor;
pub mod iterable_slab;
pub mod plain;
pub mod slab;
pub mod string;
pub mod traits;
pub mod vec;

pub use cursor::{Cursor, CursorView, StreamError};
pub use iterable_slab::{IterableSlab, SlabIter, SlabIterMut};
pub use plain::Plain;
pub use slab::Slab;
pub use string::String;
pub use traits::{
    AddWithIndex, ByteCells, Cap, Clear, CursorRead, CursorReadTransmute, GenericRead, Get,
    GetTransmute, GetTransmuteUnchecked, GetUnchecked, Index, Items, Pop, Push, PushTransmute,
    PushTransmuteUnchecked, Remove, RemoveUnchecked, SetTransmute, Slots, Valid,
};
pub use vec::{Vec, VecIter, VecIterMut};

verus! {

/// The smaller of two integers.
pub open spec fn min_spec(a: int, b: int) -> int {
    if a < b { a } else { b }
}

pub(crate) fn min(value: usize, value2: usize) -> (r: usize)
    ensures
        r == min_spec(value as int, value2 as int),
{
    if value < value2 {
        value
    } else {
        value2
    }
}

} // verus!
