//! Edges: the locations that hold, or stand for, a reference.

use crate::memory::{Memory, MemoryView};
use crate::stg_closures::{ObjectReference, TaggedClosureRef};
use crate::stg_info_table::{StgFunInfoTable, StgRetInfoTable, StgThunkInfoTable};
use vstd::prelude::*;

verus! {

/// A location that holds one word: the index of that word in the memory.
#[derive(Clone, Copy, Debug, PartialEq, Eq, Hash, Structural)]
pub struct Slot(pub usize);

/// A location that holds a reference, or the static reference table of an
/// info table.
#[derive(Clone, Copy, Debug, PartialEq, Eq, Hash)]
pub enum GHCEdge {
    /// A field of a closure.
    ClosureRef(Slot),
    /// The static reference table of a thunk's info table, which must have
    /// one.
    ThunkSrtRef(StgThunkInfoTable),
    /// The static reference table of a return address's info table, which
    /// must have one.
    RetSrtRef(StgRetInfoTable),
    /// The static reference table of a function's info table, which must
    /// have one.
    FunSrtRef(StgFunInfoTable),
}

impl GHCEdge {
    /// The edge of the field at `cref`.
    pub fn from_closure_ref(cref: Slot) -> (r: GHCEdge)
        ensures
            r == GHCEdge::ClosureRef(cref),
    {
        GHCEdge::ClosureRef(cref)
    }

    /// Whether the edge can be loaded: a field always, a static reference
    /// table only where the info table has one.
    pub open spec fn spec_is_loadable(&self) -> bool {
        match *self {
            GHCEdge::ClosureRef(_) => true,
            GHCEdge::ThunkSrtRef(t) => t.srt.is_some(),
            GHCEdge::RetSrtRef(t) => t.srt.is_some(),
            GHCEdge::FunSrtRef(t) => t.f.srt.is_some(),
        }
    }

    /// Whether the edge is a field, which alone can be stored into.
    pub open spec fn spec_is_field(&self) -> bool {
        *self is ClosureRef
    }

    /// The object that the edge refers to: for a field, the address in the
    /// word it holds, free of the tag; for a static reference table, the
    /// table.
    pub open spec fn spec_load(&self, mem: MemoryView) -> ObjectReference {
        match *self {
            GHCEdge::ClosureRef(slot) => TaggedClosureRef(mem.load(slot)).spec_to_object_reference(),
            GHCEdge::ThunkSrtRef(t) => t.srt.unwrap(),
            GHCEdge::RetSrtRef(t) => t.srt.unwrap(),
            GHCEdge::FunSrtRef(t) => t.f.srt.unwrap(),
        }
    }

    /// Whether the edge can be loaded.
    #[verifier::when_used_as_spec(spec_is_loadable)]
    pub fn is_loadable(&self) -> (b: bool)
        ensures
            b == self.spec_is_loadable(),
    {
        match self {
            GHCEdge::ClosureRef(_) => true,
            GHCEdge::ThunkSrtRef(t) => t.srt.is_some(),
            GHCEdge::RetSrtRef(t) => t.srt.is_some(),
            GHCEdge::FunSrtRef(t) => t.f.srt.is_some(),
        }
    }

    /// Whether the edge is a field.
    #[verifier::when_used_as_spec(spec_is_field)]
    pub fn is_field(&self) -> (b: bool)
        ensures
            b == self.spec_is_field(),
    {
        match self {
            GHCEdge::ClosureRef(_) => true,
            _ => false,
        }
    }

    /// Loads the object that the edge refers to.
    pub fn load(&self, mem: &Memory) -> (obj: ObjectReference)
        requires
            self.spec_is_loadable(),
        ensures
            obj == self.spec_load(mem@),
    {
        match self {
            GHCEdge::ClosureRef(slot) => TaggedClosureRef(mem.load(*slot)).to_object_reference(),
            GHCEdge::ThunkSrtRef(t) => t.srt.unwrap(),
            GHCEdge::RetSrtRef(t) => t.srt.unwrap(),
            GHCEdge::FunSrtRef(t) => t.f.srt.unwrap(),
        }
    }

    /// The word that a store of `object` writes to the field at `slot`:
    /// the address of `object` under the tag that the field carries.
    pub open spec fn stored_word(mem: MemoryView, slot: Slot, object: ObjectReference) -> usize {
        TaggedClosureRef(object.0).spec_set_tag(TaggedClosureRef(mem.load(slot)).spec_get_tag()).0
    }

    /// Stores the reference to `object` into the field, under the tag that
    /// the field carries. A static reference table is a constant and takes
    /// no store.
    pub fn store(&self, mem: &mut Memory, object: ObjectReference)
        requires
            self.spec_is_field(),
        ensures
            final(mem)@ == old(mem)@.store(
                self->ClosureRef_0,
                Self::stored_word(old(mem)@, self->ClosureRef_0, object),
            ),
    {
        match self {
            GHCEdge::ClosureRef(slot) => {
                let tag = TaggedClosureRef(mem.load(*slot)).get_tag();
                mem.store(*slot, TaggedClosureRef::from_object_reference(object).set_tag(tag).0);
            },
            _ => {},
        }
    }
}

/// A run of `len` adjacent words of the memory, the first at `start`.
#[derive(Clone, Debug, PartialEq, Eq, Hash)]
pub struct GHCVMMemorySlice {
    pub start: usize,
    pub len: usize,
}

/// The memory after the first `n` words of `src`, as `from` holds them,
/// have been written over the first `n` words of `tgt`.
pub open spec fn copied(
    from: MemoryView,
    mem: MemoryView,
    src: GHCVMMemorySlice,
    tgt: GHCVMMemorySlice,
    n: nat,
) -> MemoryView
    decreases n,
{
    if n == 0 {
        mem
    } else {
        copied(from, mem, src, tgt, (n - 1) as nat).store(
            Slot((tgt.start + n - 1) as usize),
            from.load(Slot((src.start + n - 1) as usize)),
        )
    }
}

impl GHCVMMemorySlice {
    /// The slice and its size in bytes lie within the address space.
    pub open spec fn wf(&self) -> bool {
        self.start + self.len <= usize::MAX && 8 * self.len <= usize::MAX
    }

    /// Whether the slice and its size in bytes lie within the address
    /// space.
    pub fn is_wf(&self) -> (b: bool)
        ensures
            b == self.wf(),
    {
        self.len <= usize::MAX - self.start && self.len <= usize::MAX / 8
    }

    /// An iterator over the edges of the slice.
    pub fn iter_edges(&self) -> (it: GHCVMMemorySliceIterator)
        requires
            self.wf(),
        ensures
            it.cursor == self.start,
            it.limit == self.start + self.len,
    {
        GHCVMMemorySliceIterator { cursor: self.start, limit: self.start + self.len }
    }

    /// The location of the first word.
    pub fn start(&self) -> (slot: Slot)
        ensures
            slot == Slot(self.start),
    {
        Slot(self.start)
    }

    /// The size of the slice in bytes.
    pub fn bytes(&self) -> (n: usize)
        requires
            self.wf(),
        ensures
            n == 8 * self.len,
    {
        self.len * 8
    }

    /// Copies the words of `src` over those of `tgt`, which has the same
    /// size. The slices may overlap: the words written are those that `src`
    /// held before the copy.
    pub fn copy(src: &GHCVMMemorySlice, tgt: &GHCVMMemorySlice, mem: &mut Memory)
        requires
            src.wf(),
            tgt.wf(),
            src.len == tgt.len,
        ensures
            final(mem)@ == copied(old(mem)@, old(mem)@, *src, *tgt, src.len as nat),
    {
        let mut words: Vec<usize> = Vec::new();
        let mut i: usize = 0;
        while i < src.len
            invariant
                i <= src.len,
                src.wf(),
                words@.len() == i,
                forall|k: int|
                    0 <= k < i ==> #[trigger] words@[k] == mem@.load(
                        Slot((src.start + k) as usize),
                    ),
            decreases src.len - i,
        {
            words.push(mem.load(Slot(src.start + i)));
            i = i + 1;
        }
        let mut j: usize = 0;
        while j < tgt.len
            invariant
                j <= tgt.len,
                tgt.wf(),
                src.len == tgt.len,
                words@.len() == src.len,
                forall|k: int|
                    0 <= k < src.len ==> #[trigger] words@[k] == old(mem)@.load(
                        Slot((src.start + k) as usize),
                    ),
                mem@ == copied(old(mem)@, old(mem)@, *src, *tgt, j as nat),
            decreases tgt.len - j,
        {
            mem.store(Slot(tgt.start + j), words[j]);
            j = j + 1;
        }
    }
}

/// An iterator over the edges of a slice of memory. It yields no edge: the
/// collector is not handed the words of a slice one by one.
#[derive(Clone, Copy, Debug, PartialEq, Eq)]
pub struct GHCVMMemorySliceIterator {
    pub cursor: usize,
    pub limit: usize,
}

impl GHCVMMemorySliceIterator {
    /// The next edge: none, whatever is left of the slice.
    pub fn next(&mut self) -> (edge: Option<GHCEdge>)
        ensures
            edge.is_none(),
            *final(self) == *old(self),
    {
        None
    }
}

} // verus!
