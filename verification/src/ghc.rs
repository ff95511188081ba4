//! What the tracing layer reads of the runtime: the shared small integers
//! and characters, capabilities, thread queues and the stable-pointer table.

use crate::edges::Slot;
use crate::memory::{Memory, MemoryView};
use crate::stg_closures::{Closure, ClosurePayload, Heap, TaggedClosureRef};
use vstd::prelude::*;

verus! {

/// Least integer that has a shared static instance.
pub const MIN_INTLIKE: i64 = -16;

/// Greatest integer that has a shared static instance.
pub const MAX_INTLIKE: i64 = 255;

/// Least character code that has a shared static instance.
pub const MIN_CHARLIKE: i64 = 0;

/// Greatest character code that has a shared static instance.
pub const MAX_CHARLIKE: i64 = 255;

/// The number that a word holds when it is read in two's complement.
pub open spec fn signed_value(word: usize) -> int {
    if word <= usize::MAX / 2 {
        word as int
    } else {
        word - usize::MAX - 1
    }
}

/// The first payload word of the constructor that `obj` refers to, with the
/// identity of its info table; `None` where `obj` refers to no constructor.
pub open spec fn boxed_word(heap: &Heap, mem: MemoryView, obj: TaggedClosureRef) -> Option<
    (usize, usize),
> {
    match heap.spec_get(obj) {
        Some(Closure::Constr(c)) => Some((c.info.id, mem.load(c.payload.spec_get_ref(0)))),
        _ => None,
    }
}

/// The shared static integer that can stand for `obj`: `obj` is a boxed
/// integer whose value `n` lies between `MIN_INTLIKE` and `MAX_INTLIKE`, and
/// the table of shared integers holds entry `n - MIN_INTLIKE`.
pub open spec fn spec_is_intlike_closure(
    heap: &Heap,
    mem: MemoryView,
    obj: TaggedClosureRef,
) -> Option<TaggedClosureRef> {
    match boxed_word(heap, mem, obj) {
        Some((id, word)) => {
            let n = signed_value(word);
            if id == heap.izh_con_info && MIN_INTLIKE <= n <= MAX_INTLIKE && n - MIN_INTLIKE
                < heap.intlike@.len() {
                Some(heap.intlike@[n - MIN_INTLIKE])
            } else {
                None
            }
        },
        None => None,
    }
}

/// The shared static character that can stand for `obj`: `obj` is a boxed
/// character whose code `n` lies between `MIN_CHARLIKE` and `MAX_CHARLIKE`,
/// and the table of shared characters holds entry `n - MIN_CHARLIKE`.
pub open spec fn spec_is_charlike_closure(
    heap: &Heap,
    mem: MemoryView,
    obj: TaggedClosureRef,
) -> Option<TaggedClosureRef> {
    match boxed_word(heap, mem, obj) {
        Some((id, word)) => {
            let n = signed_value(word);
            if id == heap.czh_con_info && MIN_CHARLIKE <= n <= MAX_CHARLIKE && n - MIN_CHARLIKE
                < heap.charlike@.len() {
                Some(heap.charlike@[n - MIN_CHARLIKE])
            } else {
                None
            }
        },
        None => None,
    }
}

/// Reads the first payload word of the constructor that `obj` refers to,
/// with the identity of its info table.
fn read_boxed_word(heap: &Heap, mem: &Memory, obj: TaggedClosureRef) -> (r: Option<(usize, usize)>)
    ensures
        r == boxed_word(heap, mem@, obj),
{
    match heap.get(obj) {
        Some(Closure::Constr(c)) => {
            let slot = c.payload.get_ref(0);
            Some((c.info.id, mem.load(slot)))
        },
        _ => None,
    }
}

/// Is `obj` a small boxed integer? If so, returns the shared static integer
/// of the same value.
pub fn is_intlike_closure(heap: &Heap, mem: &Memory, obj: TaggedClosureRef) -> (r: Option<
    TaggedClosureRef,
>)
    ensures
        r == spec_is_intlike_closure(heap, mem@, obj),
{
    match read_boxed_word(heap, mem, obj) {
        Some((id, word)) => {
            if id != heap.izh_con_info {
                return None;
            }
            let index: usize = if word <= 255 {
                word + 16
            } else if word >= usize::MAX - 15 {
                word - (usize::MAX - 15)
            } else {
                return None;
            };
            if index < heap.intlike.len() {
                Some(heap.intlike[index])
            } else {
                None
            }
        },
        None => None,
    }
}

/// Is `obj` a small boxed character? If so, returns the shared static
/// character of the same code.
pub fn is_charlike_closure(heap: &Heap, mem: &Memory, obj: TaggedClosureRef) -> (r: Option<
    TaggedClosureRef,
>)
    ensures
        r == spec_is_charlike_closure(heap, mem@, obj),
{
    match read_boxed_word(heap, mem, obj) {
        Some((id, word)) => {
            if id == heap.czh_con_info && word <= 255 && word < heap.charlike.len() {
                Some(heap.charlike[word])
            } else {
                None
            }
        },
        None => None,
    }
}

/// One unit of parallel execution of the runtime, as far as the tracing
/// layer reads it.
#[derive(Clone, Debug, PartialEq, Eq)]
pub struct Capability {
    /// Head of the run queue.
    pub run_queue_hd: Slot,
    /// Tail of the run queue.
    pub run_queue_tl: Slot,
    /// Inbound messages.
    pub inbox: Slot,
    /// The suspended-thread field of each pending foreign call, in the
    /// order of the capability's list.
    pub suspended_ccalls: Vec<Slot>,
    /// Head of the capability's list of weak references.
    pub weak_ptr_list_hd: Slot,
    /// Tail of the capability's list of weak references.
    pub weak_ptr_list_tl: Slot,
}

impl Capability {
    /// An iterator over the capability's run queue.
    pub fn iter_run_queue(&self, mem: &Memory) -> (it: TSOIter)
        ensures
            it.0 == TaggedClosureRef(mem@.load(self.run_queue_hd)),
    {
        TSOIter(TaggedClosureRef(mem.load(self.run_queue_hd)))
    }
}

/// The memory after the weak-reference lists of the first `n` capabilities
/// have been emptied: tail and head hold the null reference.
pub open spec fn reset_weak_lists(mem: MemoryView, caps: Seq<Capability>, n: nat) -> MemoryView
    decreases n,
{
    if n == 0 {
        mem
    } else {
        reset_weak_lists(mem, caps, (n - 1) as nat).store(caps[n - 1].weak_ptr_list_tl, 0).store(
            caps[n - 1].weak_ptr_list_hd,
            0,
        )
    }
}

/// Empties the weak-reference list of every capability.
pub fn reset_weak_ptr_lists(mem: &mut Memory, caps: &Vec<Capability>)
    ensures
        final(mem)@ == reset_weak_lists(old(mem)@, caps@, caps@.len()),
{
    let mut k: usize = 0;
    while k < caps.len()
        invariant
            k <= caps@.len(),
            mem@ == reset_weak_lists(old(mem)@, caps@, k as nat),
        decreases caps@.len() - k,
    {
        mem.store(caps[k].weak_ptr_list_tl, 0);
        mem.store(caps[k].weak_ptr_list_hd, 0);
        k = k + 1;
    }
}

/// An iterator over a queue of threads, linked by their queue links. It
/// holds the thread before the one that it yields next.
#[derive(Clone, Copy, Debug, PartialEq, Eq)]
pub struct TSOIter(pub TaggedClosureRef);

/// The thread that follows `cur` in its queue: `cur` is a thread, not the
/// end of the queue, and its queue link is not the end of the queue.
pub open spec fn next_in_queue(heap: &Heap, mem: MemoryView, cur: TaggedClosureRef) -> Option<
    TaggedClosureRef,
> {
    if cur.spec_to_object_reference() == heap.end_tso_queue {
        None
    } else {
        match heap.spec_get(cur) {
            Some(Closure::TSO(tso)) => {
                let link = TaggedClosureRef(mem.load(tso.link));
                if link.spec_to_object_reference() == heap.end_tso_queue {
                    None
                } else {
                    Some(link)
                }
            },
            _ => None,
        }
    }
}

impl TSOIter {
    /// Steps to the next thread of the queue and returns it; `None`, and no
    /// step, at the end of the queue.
    pub fn next(&mut self, heap: &Heap, mem: &Memory) -> (r: Option<TaggedClosureRef>)
        ensures
            r == next_in_queue(heap, mem@, old(self).0),
            r.is_some() ==> final(self).0 == r.unwrap(),
            r.is_none() ==> final(self).0 == old(self).0,
    {
        if self.0.to_object_reference().0 == heap.end_tso_queue.0 {
            return None;
        }
        match heap.get(self.0) {
            Some(Closure::TSO(tso)) => {
                let link = TaggedClosureRef(mem.load(tso.link));
                if link.to_object_reference().0 == heap.end_tso_queue.0 {
                    None
                } else {
                    self.0 = link;
                    Some(link)
                }
            },
            _ => None,
        }
    }
}

/// One entry of the stable-pointer table: an object's address, or, for a
/// free entry, the address of another entry of the table.
#[allow(non_camel_case_types)]
#[derive(Clone, Copy, Debug, PartialEq, Eq)]
pub struct spEntry {
    pub addr: usize,
}

/// The stable-pointer table: `size` entries of one word each.
#[derive(Clone, Copy, Debug, PartialEq, Eq)]
pub struct StablePtrTable {
    /// Address of the table's first entry.
    pub base: usize,
    /// Number of entries.
    pub size: usize,
    /// Location of the first entry.
    pub entries: ClosurePayload,
}

impl StablePtrTable {
    /// The table lies within the address space.
    pub open spec fn wf(&self) -> bool {
        self.base + 8 * self.size <= usize::MAX && self.entries.fits(self.size as int)
    }

    /// Whether the table lies within the address space.
    pub fn is_wf(&self) -> (b: bool)
        ensures
            b == self.wf(),
    {
        self.size <= (usize::MAX - self.base) / 8 && self.entries.check_fits(self.size as u64)
    }

    /// Whether `addr` lies inside the table's own storage.
    pub open spec fn holds_address(&self, addr: usize) -> bool {
        self.base <= addr < self.base + 8 * self.size
    }
}

/// The entries of the stable-pointer table, in order.
pub fn iter_stable_ptr_table(mem: &Memory, table: &StablePtrTable) -> (entries: Vec<spEntry>)
    requires
        table.wf(),
    ensures
        entries@ == Seq::new(
            table.size as nat,
            |i: int| spEntry { addr: mem@.load(table.entries.spec_get_ref(i)) },
        ),
{
    let mut entries: Vec<spEntry> = Vec::new();
    let mut i: usize = 0;
    while i < table.size
        invariant
            i <= table.size,
            table.wf(),
            entries@ == Seq::new(
                i as nat,
                |k: int| spEntry { addr: mem@.load(table.entries.spec_get_ref(k)) },
            ),
        decreases table.size - i,
    {
        let addr = mem.load(table.entries.get_ref(i));
        entries.push(spEntry { addr });
        i = i + 1;
        assert(entries@ =~= Seq::new(
            i as nat,
            |k: int| spEntry { addr: mem@.load(table.entries.spec_get_ref(k)) },
        ));
    }
    entries
}

/// A task of the runtime: its two allocation contexts and the task that
/// follows it in the list of all tasks.
#[derive(Clone, Copy, Debug, PartialEq, Eq)]
pub struct Task {
    pub mmutator: usize,
    pub rts_mutator: usize,
    /// Index of the next task, if there is one.
    pub all_next: Option<usize>,
}

} // verus!
