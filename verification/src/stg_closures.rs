//! Closures: tagged references, payloads and the closed set of closure
//! kinds, with the table of objects that references resolve in.

use crate::edges::Slot;
use crate::stg_info_table::{
    StgFunInfoTable, StgInfoTable, StgLargeBitmap, StgRetInfoTable, StgThunkInfoTable,
};
use crate::types::{StgClosureType, StgSmallBitmap, StgTSOBlocked, StgWord};
use vstd::prelude::*;

verus! {

/// Number of distinct tags: a tag is below it.
pub const TAG_RANGE: usize = 8;

/// The collector's identity of an object: its address, free of any tag.
#[derive(Clone, Copy, Debug, PartialEq, Eq, Hash, Structural)]
pub struct ObjectReference(pub usize);

impl ObjectReference {
    /// The reference to no object.
    pub fn null() -> (obj: ObjectReference)
        ensures
            obj.0 == 0,
    {
        ObjectReference(0)
    }

    pub open spec fn spec_is_null(self) -> bool {
        self.0 == 0
    }

    /// Whether this is the reference to no object.
    #[verifier::when_used_as_spec(spec_is_null)]
    pub fn is_null(self) -> (b: bool)
        ensures
            b == self.spec_is_null(),
    {
        self.0 == 0
    }
}

/// A word that holds an object's address and, in its three low bits, a tag.
#[derive(Clone, Copy, Debug, PartialEq, Eq, Hash, Structural)]
pub struct TaggedClosureRef(pub StgWord);

impl TaggedClosureRef {
    /// The tag: the three low bits.
    pub open spec fn spec_get_tag(self) -> usize {
        self.0 % TAG_RANGE
    }

    /// The address: the word with its three low bits cleared.
    pub open spec fn spec_to_address(self) -> usize {
        (self.0 - self.0 % TAG_RANGE) as usize
    }

    pub open spec fn spec_to_object_reference(self) -> ObjectReference {
        ObjectReference(self.spec_to_address())
    }

    pub open spec fn spec_set_tag(self, tag: usize) -> TaggedClosureRef {
        TaggedClosureRef((self.spec_to_address() + tag % TAG_RANGE) as usize)
    }

    pub open spec fn spec_is_null(self) -> bool {
        self.spec_to_address() == 0
    }

    /// The reference that holds `addr` as it is.
    pub fn from_address(addr: usize) -> (r: TaggedClosureRef)
        ensures
            r.0 == addr,
    {
        TaggedClosureRef(addr)
    }

    /// The untagged reference to `obj`.
    pub fn from_object_reference(obj: ObjectReference) -> (r: TaggedClosureRef)
        ensures
            r.0 == obj.0,
    {
        TaggedClosureRef(obj.0)
    }

    /// The tag of the reference.
    #[verifier::when_used_as_spec(spec_get_tag)]
    pub fn get_tag(self) -> (tag: usize)
        ensures
            tag == self.spec_get_tag(),
            tag < 8,
    {
        self.0 % TAG_RANGE
    }

    /// The address of the object, free of the tag.
    #[verifier::when_used_as_spec(spec_to_address)]
    pub fn to_address(self) -> (addr: usize)
        ensures
            addr == self.spec_to_address(),
            addr % 8 == 0,
    {
        self.0 - self.0 % TAG_RANGE
    }

    /// The collector's identity of the object, free of the tag.
    #[verifier::when_used_as_spec(spec_to_object_reference)]
    pub fn to_object_reference(self) -> (obj: ObjectReference)
        ensures
            obj == self.spec_to_object_reference(),
    {
        ObjectReference(self.to_address())
    }

    /// The same address under the tag `tag % 8`.
    #[verifier::when_used_as_spec(spec_set_tag)]
    pub fn set_tag(self, tag: usize) -> (r: TaggedClosureRef)
        ensures
            r == self.spec_set_tag(tag),
            r.spec_get_tag() == tag % 8,
            r.spec_to_address() == self.spec_to_address(),
    {
        let addr = self.to_address();
        let t = tag % TAG_RANGE;
        proof {
            lemma_aligned_room(addr);
        }
        TaggedClosureRef(addr + t)
    }

    /// Whether the address is zero.
    #[verifier::when_used_as_spec(spec_is_null)]
    pub fn is_null(self) -> (b: bool)
        ensures
            b == self.spec_is_null(),
    {
        self.to_address() == 0
    }
}

/// An address that is a multiple of eight leaves room for a tag below the
/// top of the address space.
pub proof fn lemma_aligned_room(addr: usize)
    requires
        addr % 8 == 0,
    ensures
        addr + 7 <= usize::MAX,
{
    assert(usize::MAX == 0xffff_ffff || usize::MAX == 0xffff_ffff_ffff_ffff);
}

/// Tagging and untagging round-trip: a reference rebuilt from its address
/// and its tag is the reference itself, and a tag below eight reads back.
pub proof fn lemma_tag_round_trip(r: TaggedClosureRef, tag: usize)
    ensures
        r.spec_set_tag(r.spec_get_tag()) == r,
        r.spec_set_tag(tag).spec_get_tag() == tag % 8,
        r.spec_set_tag(tag).spec_to_address() == r.spec_to_address(),
        r.spec_to_address() % 8 == 0,
{
    lemma_aligned_room(r.spec_to_address());
}

/// Where the payload of a closure begins: the location of its first word.
#[derive(Clone, Copy, Debug, PartialEq, Eq, Structural)]
pub struct ClosurePayload {
    pub start: usize,
}

impl ClosurePayload {
    /// The first `n` words of the payload lie within the address space.
    pub open spec fn fits(&self, n: int) -> bool {
        self.start + n <= usize::MAX
    }

    /// The location of word `i` of the payload.
    pub open spec fn spec_get_ref(&self, i: int) -> Slot {
        Slot((self.start + i) as usize)
    }

    /// The locations of the first `n` words of the payload, in order.
    pub open spec fn slots(&self, n: int) -> Seq<Slot> {
        Seq::new(n as nat, |i: int| self.spec_get_ref(i))
    }

    /// Whether the first `n` words of the payload lie within the address
    /// space.
    pub fn check_fits(&self, n: u64) -> (b: bool)
        ensures
            b == self.fits(n as int),
    {
        n <= (usize::MAX - self.start) as u64
    }

    /// The location of word `i` of the payload.
    pub fn get_ref(&self, i: usize) -> (slot: Slot)
        requires
            self.fits(i as int),
        ensures
            slot == self.spec_get_ref(i as int),
    {
        Slot(self.start + i)
    }
}

/// A data constructor.
#[derive(Clone, Copy, Debug, PartialEq, Eq)]
pub struct StgConstr {
    pub info: StgInfoTable,
    pub payload: ClosurePayload,
}

/// A suspended computation.
#[derive(Clone, Copy, Debug, PartialEq, Eq)]
pub struct StgThunk {
    pub info: StgThunkInfoTable,
    pub payload: ClosurePayload,
}

/// A function, heap-allocated or static. The static link of a static
/// function is the payload word after its fields.
#[derive(Clone, Copy, Debug, PartialEq, Eq)]
pub struct StgFun {
    pub info: StgFunInfoTable,
    pub payload: ClosurePayload,
}

/// A static thunk.
#[derive(Clone, Copy, Debug, PartialEq, Eq)]
pub struct StgThunkStatic {
    pub info: StgThunkInfoTable,
    pub static_link: Slot,
}

/// An indirection, or a placeholder of a computation under evaluation.
#[derive(Clone, Copy, Debug, PartialEq, Eq)]
pub struct StgInd {
    pub info: StgInfoTable,
    pub indirectee: Slot,
}

/// A static indirection.
#[derive(Clone, Copy, Debug, PartialEq, Eq)]
pub struct StgIndStatic {
    pub indirectee: Slot,
    pub static_link: Slot,
}

/// A synchronising variable.
#[derive(Clone, Copy, Debug, PartialEq, Eq)]
pub struct StgMVar {
    pub head: Slot,
    pub tail: Slot,
    pub value: Slot,
}

/// A transactional variable.
#[derive(Clone, Copy, Debug, PartialEq, Eq)]
pub struct StgTVar {
    pub current_value: Slot,
    pub first_watch_queue_entry: Slot,
}

/// A mutable variable.
#[derive(Clone, Copy, Debug, PartialEq, Eq)]
pub struct StgMutVar {
    pub var: Slot,
}

/// The queue of threads blocked on one placeholder.
#[derive(Clone, Copy, Debug, PartialEq, Eq)]
pub struct StgBlockingQueue {
    pub bh: Slot,
    pub owner: Slot,
    pub queue: Slot,
    pub link: Slot,
}

/// A thunk that selects one field of a constructor.
#[derive(Clone, Copy, Debug, PartialEq, Eq)]
pub struct StgSelector {
    pub selectee: Slot,
}

/// A partial application: a function and `n_args` argument words.
#[derive(Clone, Copy, Debug, PartialEq, Eq)]
pub struct StgPAP {
    pub fun: Slot,
    pub n_args: u32,
    pub payload: ClosurePayload,
}

/// A full application: a function and `n_args` argument words.
#[derive(Clone, Copy, Debug, PartialEq, Eq)]
pub struct StgAP {
    pub fun: Slot,
    pub n_args: u32,
    pub payload: ClosurePayload,
}

/// A frame that updates a thunk with a result.
#[derive(Clone, Copy, Debug, PartialEq, Eq)]
pub struct StgUpdateFrame {
    pub updatee: Slot,
}

/// A return frame: the return address's info table and the frame's words.
#[derive(Clone, Copy, Debug, PartialEq, Eq)]
pub struct StgRetFrame {
    pub info: StgRetInfoTable,
    pub payload: ClosurePayload,
}

/// A frame that returns into a function: as a return frame, with the
/// function that is called.
#[derive(Clone, Copy, Debug, PartialEq, Eq)]
pub struct StgRetFun {
    pub info: StgRetInfoTable,
    pub fun: Slot,
    pub payload: ClosurePayload,
}

/// The closed set of stack frames.
#[derive(Clone, Debug, PartialEq, Eq)]
pub enum StackFrame {
    UpdFrame(StgUpdateFrame),
    RetSmall(StgRetFrame, StgSmallBitmap),
    RetBig(StgRetFrame, StgLargeBitmap),
    RetFunSmall(StgRetFun, StgSmallBitmap),
    RetFunLarge(StgRetFun, StgLargeBitmap),
}

impl StackFrame {
    /// The frame's words lie within the address space and a multi-word
    /// bitmap covers its size.
    pub open spec fn wf(&self) -> bool {
        match *self {
            StackFrame::UpdFrame(_) => true,
            StackFrame::RetSmall(frame, bitmap) => frame.payload.fits(bitmap.spec_size() as int),
            StackFrame::RetBig(frame, bitmap) => bitmap.wf() && frame.payload.fits(
                bitmap.size as int,
            ),
            StackFrame::RetFunSmall(frame, bitmap) => frame.payload.fits(
                bitmap.spec_size() as int,
            ),
            StackFrame::RetFunLarge(frame, bitmap) => bitmap.wf() && frame.payload.fits(
                bitmap.size as int,
            ),
        }
    }
}

/// Every frame of `frames` is well formed.
pub open spec fn frames_wf(frames: Seq<StackFrame>) -> bool {
    forall|i: int| 0 <= i < frames.len() ==> (#[trigger] frames[i]).wf()
}

impl StackFrame {
    /// Whether the frame is well formed.
    pub fn is_wf(&self) -> (b: bool)
        ensures
            b == self.wf(),
    {
        match self {
            StackFrame::UpdFrame(_) => true,
            StackFrame::RetSmall(frame, bitmap) => frame.payload.check_fits(bitmap.size() as u64),
            StackFrame::RetBig(frame, bitmap) => bitmap.is_wf() && frame.payload.check_fits(
                bitmap.size as u64,
            ),
            StackFrame::RetFunSmall(frame, bitmap) => frame.payload.check_fits(
                bitmap.size() as u64,
            ),
            StackFrame::RetFunLarge(frame, bitmap) => bitmap.is_wf() && frame.payload.check_fits(
                bitmap.size as u64,
            ),
        }
    }
}

/// Whether every frame of `frames` is well formed.
pub fn check_frames_wf(frames: &Vec<StackFrame>) -> (b: bool)
    ensures
        b == frames_wf(frames@),
{
    let mut i: usize = 0;
    while i < frames.len()
        invariant
            i <= frames@.len(),
            forall|k: int| 0 <= k < i ==> (#[trigger] frames@[k]).wf(),
        decreases frames@.len() - i,
    {
        if !frames[i].is_wf() {
            return false;
        }
        i = i + 1;
    }
    true
}

/// A suspended application: a function and a chunk of stack.
#[derive(Clone, Debug, PartialEq, Eq)]
pub struct StgAPStack {
    pub fun: Slot,
    pub frames: Vec<StackFrame>,
}

/// An array of references with one card mark per 128 elements.
#[derive(Clone, Copy, Debug, PartialEq, Eq)]
pub struct StgMutArrPtrs {
    /// Number of elements.
    pub n_ptrs: usize,
    /// The elements.
    pub payload: ClosurePayload,
    /// Index of the mark of the first card.
    pub card_table: usize,
}

/// A small array of references, without card marks.
#[derive(Clone, Copy, Debug, PartialEq, Eq)]
pub struct StgSmallMutArrPtrs {
    pub ptrs: u32,
    pub payload: ClosurePayload,
}

/// A thread.
#[derive(Clone, Copy, Debug, PartialEq, Eq)]
pub struct StgTSO {
    /// The thread field of the foreign call that the thread is bound to,
    /// where it is bound.
    pub bound: Option<Slot>,
    pub blocked_exceptions: Slot,
    pub blocking_queue: Slot,
    pub trec: Slot,
    pub stackobj: Slot,
    pub link: Slot,
    pub why_blocked: StgTSOBlocked,
    pub block_info: Slot,
    pub global_link: Slot,
    pub tso_link_prev: Slot,
    pub tso_link_next: Slot,
}

/// An execution stack: its frames from the top down.
#[derive(Clone, Debug, PartialEq, Eq)]
pub struct StgStack {
    pub frames: Vec<StackFrame>,
}

/// One entry of a transaction log.
#[derive(Clone, Copy, Debug, PartialEq, Eq)]
pub struct StgTRecEntry {
    pub tvar: Slot,
    pub expected_value: Slot,
    pub new_value: Slot,
}

/// A chunk of a transaction log; the first `next_entry_idx` entries are in
/// use.
#[derive(Clone, Debug, PartialEq, Eq)]
pub struct StgTRecChunk {
    pub prev_chunk: Slot,
    pub next_entry_idx: usize,
    pub entries: Vec<StgTRecEntry>,
}

/// A weak reference record.
#[derive(Clone, Copy, Debug, PartialEq, Eq)]
pub struct StgWeak {
    pub cfinalizers: Slot,
    pub key: Slot,
    pub value: Slot,
    pub finalizer: Slot,
    pub link: Slot,
}

/// The closed set of closure kinds.
#[derive(Clone, Debug, PartialEq, Eq)]
pub enum Closure {
    Constr(StgConstr),
    Thunk(StgThunk),
    Fun(StgFun),
    ThunkStatic(StgThunkStatic),
    FunStatic(StgFun),
    Indirect(StgInd),
    IndirectStatic(StgIndStatic),
    MVar(StgMVar),
    TVar(StgTVar),
    MutVar(StgMutVar),
    BlockingQueue(StgBlockingQueue),
    ThunkSelector(StgSelector),
    PartialAP(StgPAP),
    AP(StgAP),
    ApStack(StgAPStack),
    ArrBytes,
    ArrMutPtr(StgMutArrPtrs),
    ArrMutPtrSmall(StgSmallMutArrPtrs),
    TSO(StgTSO),
    Stack(StgStack),
    TRecChunk(StgTRecChunk),
    Weak(StgWeak),
}

/// Number of elements that share one card mark.
pub const CARD_SIZE: usize = 128;

/// Number of cards of an array of `n` elements.
pub open spec fn card_count(n: int) -> int {
    (n + 127) / 128
}

impl Closure {
    /// The kind that the closure's info table states.
    pub open spec fn spec_closure_type(&self) -> StgClosureType {
        match *self {
            Closure::Constr(c) => c.info.type_,
            Closure::Thunk(t) => t.info.i.type_,
            Closure::Fun(f) => f.info.i.type_,
            Closure::ThunkStatic(t) => t.info.i.type_,
            Closure::FunStatic(f) => f.info.i.type_,
            Closure::Indirect(i) => i.info.type_,
            Closure::IndirectStatic(_) => StgClosureType::IndStatic,
            Closure::MVar(_) => StgClosureType::MVar,
            Closure::TVar(_) => StgClosureType::TVar,
            Closure::MutVar(_) => StgClosureType::MutVar,
            Closure::BlockingQueue(_) => StgClosureType::BlockingQueue,
            Closure::ThunkSelector(_) => StgClosureType::ThunkSelector,
            Closure::PartialAP(_) => StgClosureType::Pap,
            Closure::AP(_) => StgClosureType::Ap,
            Closure::ApStack(_) => StgClosureType::ApStack,
            Closure::ArrBytes => StgClosureType::ArrWords,
            Closure::ArrMutPtr(_) => StgClosureType::MutArrPtrs,
            Closure::ArrMutPtrSmall(_) => StgClosureType::SmallMutArrPtrs,
            Closure::TSO(_) => StgClosureType::Tso,
            Closure::Stack(_) => StgClosureType::Stack,
            Closure::TRecChunk(_) => StgClosureType::TRecChunk,
            Closure::Weak(_) => StgClosureType::Weak,
        }
    }

    /// The kind that the closure's info table states.
    #[verifier::when_used_as_spec(spec_closure_type)]
    pub fn closure_type(&self) -> (t: StgClosureType)
        ensures
            t == self.spec_closure_type(),
    {
        match self {
            Closure::Constr(c) => c.info.type_,
            Closure::Thunk(t) => t.info.i.type_,
            Closure::Fun(f) => f.info.i.type_,
            Closure::ThunkStatic(t) => t.info.i.type_,
            Closure::FunStatic(f) => f.info.i.type_,
            Closure::Indirect(i) => i.info.type_,
            Closure::IndirectStatic(_) => StgClosureType::IndStatic,
            Closure::MVar(_) => StgClosureType::MVar,
            Closure::TVar(_) => StgClosureType::TVar,
            Closure::MutVar(_) => StgClosureType::MutVar,
            Closure::BlockingQueue(_) => StgClosureType::BlockingQueue,
            Closure::ThunkSelector(_) => StgClosureType::ThunkSelector,
            Closure::PartialAP(_) => StgClosureType::Pap,
            Closure::AP(_) => StgClosureType::Ap,
            Closure::ApStack(_) => StgClosureType::ApStack,
            Closure::ArrBytes => StgClosureType::ArrWords,
            Closure::ArrMutPtr(_) => StgClosureType::MutArrPtrs,
            Closure::ArrMutPtrSmall(_) => StgClosureType::SmallMutArrPtrs,
            Closure::TSO(_) => StgClosureType::Tso,
            Closure::Stack(_) => StgClosureType::Stack,
            Closure::TRecChunk(_) => StgClosureType::TRecChunk,
            Closure::Weak(_) => StgClosureType::Weak,
        }
    }

    /// The closure's words, with a static link after its fields, lie within
    /// the address space, and its counts agree with what it holds.
    pub open spec fn wf(&self) -> bool {
        match *self {
            Closure::Constr(c) => c.payload.fits(c.info.ptrs + c.info.nptrs),
            Closure::Thunk(t) => t.payload.fits(t.info.i.ptrs as int),
            Closure::Fun(f) => f.payload.fits(f.info.i.ptrs + f.info.i.nptrs),
            Closure::FunStatic(f) => f.payload.fits(f.info.i.ptrs + f.info.i.nptrs),
            Closure::PartialAP(p) => p.payload.fits(p.n_args as int),
            Closure::AP(a) => a.payload.fits(a.n_args as int),
            Closure::ApStack(a) => frames_wf(a.frames@),
            Closure::ArrMutPtr(a) => a.payload.fits(a.n_ptrs as int) && a.card_table + card_count(
                a.n_ptrs as int,
            ) <= usize::MAX,
            Closure::ArrMutPtrSmall(a) => a.payload.fits(a.ptrs as int),
            Closure::Stack(s) => frames_wf(s.frames@),
            Closure::TRecChunk(c) => c.next_entry_idx <= c.entries@.len(),
            _ => true,
        }
    }
}

impl Closure {
    /// Whether the closure is well formed.
    pub fn is_wf(&self) -> (b: bool)
        ensures
            b == self.wf(),
    {
        match self {
            Closure::Constr(c) => c.payload.check_fits(c.info.ptrs as u64 + c.info.nptrs as u64),
            Closure::Thunk(t) => t.payload.check_fits(t.info.i.ptrs as u64),
            Closure::Fun(f) => f.payload.check_fits(f.info.i.ptrs as u64 + f.info.i.nptrs as u64),
            Closure::FunStatic(f) => f.payload.check_fits(
                f.info.i.ptrs as u64 + f.info.i.nptrs as u64,
            ),
            Closure::PartialAP(p) => p.payload.check_fits(p.n_args as u64),
            Closure::AP(a) => a.payload.check_fits(a.n_args as u64),
            Closure::ApStack(a) => check_frames_wf(&a.frames),
            Closure::ArrMutPtr(a) => {
                let n_cards: usize = if a.n_ptrs % CARD_SIZE == 0 {
                    a.n_ptrs / CARD_SIZE
                } else {
                    a.n_ptrs / CARD_SIZE + 1
                };
                a.payload.check_fits(a.n_ptrs as u64) && n_cards <= usize::MAX - a.card_table
            },
            Closure::ArrMutPtrSmall(a) => a.payload.check_fits(a.ptrs as u64),
            Closure::Stack(s) => check_frames_wf(&s.frames),
            Closure::TRecChunk(c) => c.next_entry_idx <= c.entries.len(),
            _ => true,
        }
    }
}

/// Which of the two optional fast paths of edge visitation are switched on.
#[derive(Clone, Copy, Debug, PartialEq, Eq)]
pub struct ScanOptions {
    /// Follow a chain of evaluated placeholders and rewrite the field to
    /// the chain's end.
    pub indirection_shortcutting: bool,
    /// Rewrite a field that refers to a small boxed integer or character to
    /// the shared static instance.
    pub small_obj_optimisation: bool,
}

/// The objects that references resolve in, with the runtime's constants.
/// Object `k` of the table has the address `8 * (k + 1)`.
pub struct Heap {
    pub objects: Vec<Closure>,
    pub options: ScanOptions,
    /// Identity of the info table of boxed integers.
    pub izh_con_info: usize,
    /// Identity of the info table of boxed characters.
    pub czh_con_info: usize,
    /// The shared static integers, the one for `MIN_INTLIKE` first.
    pub intlike: Vec<TaggedClosureRef>,
    /// The shared static characters, the one for `MIN_CHARLIKE` first.
    pub charlike: Vec<TaggedClosureRef>,
    /// The closure that ends every queue of threads.
    pub end_tso_queue: ObjectReference,
    /// The multi-word bitmaps that the info tables of functions refer to.
    pub large_bitmaps: Vec<StgLargeBitmap>,
}

impl Heap {
    /// Every object of the table is well formed.
    pub open spec fn wf(&self) -> bool {
        forall|k: int| 0 <= k < self.objects@.len() ==> (#[trigger] self.objects@[k]).wf()
    }

    /// Whether an object lives at `addr`.
    pub open spec fn has_object(&self, addr: usize) -> bool {
        addr % 8 == 0 && 1 <= addr / 8 <= self.objects@.len()
    }

    /// The object at `addr`, which must hold one.
    pub open spec fn object_at(&self, addr: usize) -> Closure {
        self.objects@[addr / 8 - 1]
    }

    /// The object that `r` refers to, if there is one.
    pub open spec fn spec_get(&self, r: TaggedClosureRef) -> Option<Closure> {
        if self.has_object(r.spec_to_address()) {
            Some(self.object_at(r.spec_to_address()))
        } else {
            None
        }
    }

    /// The kind of the object that `r` refers to, if there is one.
    pub open spec fn spec_type_of(&self, r: TaggedClosureRef) -> Option<StgClosureType> {
        match self.spec_get(r) {
            Some(c) => Some(c.spec_closure_type()),
            None => None,
        }
    }

    /// Whether every object of the table is well formed.
    pub fn is_wf(&self) -> (b: bool)
        ensures
            b == self.wf(),
    {
        let mut k: usize = 0;
        while k < self.objects.len()
            invariant
                k <= self.objects@.len(),
                forall|i: int| 0 <= i < k ==> (#[trigger] self.objects@[i]).wf(),
            decreases self.objects@.len() - k,
        {
            if !self.objects[k].is_wf() {
                return false;
            }
            k = k + 1;
        }
        true
    }

    /// The object that `r` refers to, if there is one.
    pub fn get(&self, r: TaggedClosureRef) -> (c: Option<&Closure>)
        ensures
            c.is_some() == self.spec_get(r).is_some(),
            c.is_some() ==> *c.unwrap() == self.spec_get(r).unwrap(),
    {
        let addr = r.to_address();
        let k = addr / 8;
        if 1 <= k && k <= self.objects.len() {
            Some(&self.objects[k - 1])
        } else {
            None
        }
    }

    /// The kind of the object that `r` refers to, if there is one.
    pub fn type_of(&self, r: TaggedClosureRef) -> (t: Option<StgClosureType>)
        ensures
            t == self.spec_type_of(r),
    {
        match self.get(r) {
            Some(c) => Some(c.closure_type()),
            None => None,
        }
    }

    /// The multi-word bitmap at `large_bitmap_ref`, if there is one.
    pub open spec fn spec_large_bitmap(&self, large_bitmap_ref: usize) -> Option<StgLargeBitmap> {
        if large_bitmap_ref < self.large_bitmaps@.len() {
            Some(self.large_bitmaps@[large_bitmap_ref as int])
        } else {
            None
        }
    }

    /// The multi-word bitmap at `large_bitmap_ref`, if there is one.
    pub fn large_bitmap(&self, large_bitmap_ref: usize) -> (b: Option<&StgLargeBitmap>)
        ensures
            b.is_some() == self.spec_large_bitmap(large_bitmap_ref).is_some(),
            b.is_some() ==> *b.unwrap() == self.spec_large_bitmap(large_bitmap_ref).unwrap(),
    {
        if large_bitmap_ref < self.large_bitmaps.len() {
            Some(&self.large_bitmaps[large_bitmap_ref])
        } else {
            None
        }
    }

    /// The reference, with tag zero, to object `k` of the table.
    pub fn reference_to(&self, k: usize) -> (r: TaggedClosureRef)
        requires
            k < self.objects@.len(),
            8 * (k + 1) <= usize::MAX,
        ensures
            r.0 == 8 * (k + 1),
            self.spec_get(r) == Some(self.objects@[k as int]),
    {
        TaggedClosureRef(8 * (k + 1))
    }
}

} // verus!
