//! Info tables: the immutable per-template metadata that describes a
//! closure's shape.

use crate::stg_closures::ObjectReference;
use crate::types::{StgClosureType, StgFunType, StgSmallBitmap, BITS_PER_WORD};
use vstd::prelude::*;

verus! {

/// The part that every info table has.
#[derive(Clone, Copy, Debug, PartialEq, Eq, Hash)]
pub struct StgInfoTable {
    /// Identity of the table: two closures built from one template carry
    /// the same identity.
    pub id: usize,
    /// Closure kind.
    pub type_: StgClosureType,
    /// Number of payload words that hold references.
    pub ptrs: u32,
    /// Number of payload words that hold no reference.
    pub nptrs: u32,
}

/// Info table of a thunk.
#[derive(Clone, Copy, Debug, PartialEq, Eq, Hash)]
pub struct StgThunkInfoTable {
    pub i: StgInfoTable,
    /// The static reference table of the template, where it has one.
    pub srt: Option<ObjectReference>,
}

impl StgThunkInfoTable {
    /// The static reference table, where the template has one.
    pub fn get_srt(&self) -> (srt: Option<ObjectReference>)
        ensures
            srt == self.srt,
    {
        self.srt
    }
}

/// Info table of a return address, found at the head of a stack frame.
#[derive(Clone, Copy, Debug, PartialEq, Eq, Hash)]
pub struct StgRetInfoTable {
    pub i: StgInfoTable,
    /// The static reference table of the template, where it has one.
    pub srt: Option<ObjectReference>,
}

impl StgRetInfoTable {
    /// The static reference table, where the template has one.
    pub fn get_srt(&self) -> (srt: Option<ObjectReference>)
        ensures
            srt == self.srt,
    {
        self.srt
    }
}

/// A bitmap of more than one word: `size` fields, bit `k % 64` of word
/// `k / 64` for field `k`. A zero bit marks a field that holds a reference.
#[derive(Clone, Debug, PartialEq, Eq)]
pub struct StgLargeBitmap {
    pub size: usize,
    pub bitmap: Vec<usize>,
}

impl StgLargeBitmap {
    /// The words cover the stated size.
    pub open spec fn wf(&self) -> bool {
        self.size <= self.bitmap@.len() * BITS_PER_WORD
    }

    /// Whether the words cover the stated size.
    pub fn is_wf(&self) -> (b: bool)
        ensures
            b == self.wf(),
    {
        self.size / BITS_PER_WORD < self.bitmap.len() || (self.size / BITS_PER_WORD
            == self.bitmap.len() && self.size % BITS_PER_WORD == 0)
    }
}

/// What a function's info table adds to the common part.
#[derive(Clone, Copy, Debug, PartialEq, Eq, Hash)]
pub struct StgFunInfoExtraRev {
    /// Argument layout.
    pub fun_type: StgFunType,
    /// The static reference table of the template, where it has one.
    pub srt: Option<ObjectReference>,
    /// The one-word bitmap, read for [`StgFunType::ArgGen`].
    pub small_bitmap: StgSmallBitmap,
    /// Where the multi-word bitmap is found among the multi-word bitmaps of
    /// the heap; read for [`StgFunType::ArgGenBig`].
    pub large_bitmap_ref: usize,
}

/// Info table of a function.
#[derive(Clone, Copy, Debug, PartialEq, Eq, Hash)]
pub struct StgFunInfoTable {
    pub i: StgInfoTable,
    pub f: StgFunInfoExtraRev,
}

impl StgFunInfoTable {
    /// The static reference table, where the template has one.
    pub fn get_srt(&self) -> (srt: Option<ObjectReference>)
        ensures
            srt == self.f.srt,
    {
        self.f.srt
    }
}

} // verus!
