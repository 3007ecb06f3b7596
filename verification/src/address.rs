//! Addresses of memory cells and the values a cell can hold.

use vstd::prelude::*;
use crate::felt::Felt;

verus! {

/// The address of one memory cell: a segment and an offset inside it.
/// Segments with a negative index are temporary.
#[derive(Clone, Copy, Debug, PartialEq, Eq, Structural, Hash)]
pub struct Relocatable {
    pub segment_index: isize,
    pub offset: usize,
}

impl Relocatable {
    /// The address `n` cells further on in the same segment, in the model.
    pub open spec fn plus(self, n: int) -> Relocatable {
        Relocatable { segment_index: self.segment_index, offset: (self.offset + n) as usize }
    }

    /// The address as one number: the segment index counted in units of
    /// 2^64, and the offset.
    pub open spec fn spec_key(self) -> int {
        self.segment_index * 0x1_0000_0000_0000_0000 + self.offset
    }

    /// The address as one number. No two addresses have the same.
    pub fn key(self) -> (r: i128)
        ensures
            r == self.spec_key(),
    {
        (self.segment_index as i128) * 0x1_0000_0000_0000_0000i128 + (self.offset as i128)
    }

    /// The address `n` cells further on; `None` when the offset would leave `usize`.
    pub fn add_usize(self, n: usize) -> (r: Option<Relocatable>)
        ensures
            r == (if self.offset + n <= usize::MAX {
                Some(self.plus(n as int))
            } else {
                None
            }),
    {
        match self.offset.checked_add(n) {
            Some(offset) => Some(Relocatable { segment_index: self.segment_index, offset }),
            None => None,
        }
    }

    /// The address `n` cells back; `None` when the offset would fall below zero.
    pub fn sub_usize(self, n: usize) -> (r: Option<Relocatable>)
        ensures
            r == (if n <= self.offset {
                Some(self.plus(-(n as int)))
            } else {
                None
            }),
    {
        if self.offset < n {
            None
        } else {
            Some(Relocatable { segment_index: self.segment_index, offset: self.offset - n })
        }
    }
}

/// Addresses with the same key are the same address.
pub proof fn lemma_key_injective(a: Relocatable, b: Relocatable)
    requires
        a.spec_key() == b.spec_key(),
    ensures
        a == b,
{
}

/// What a memory cell holds: a field element or an address.
#[derive(Clone, Copy, Debug, PartialEq, Eq, Structural, Hash)]
pub enum MaybeRelocatable {
    Int(Felt),
    RelocatableValue(Relocatable),
}

} // verus!
