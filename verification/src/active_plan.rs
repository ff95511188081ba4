//! What the collector asks of the running program: its allocation
//! contexts, and the evacuation of static objects.

use crate::edges::Slot;
use crate::ghc::Task;
use crate::memory::{Memory, MemoryView};
use crate::scanning::ScanError;
use crate::stg_closures::{Closure, Heap, ObjectReference, TaggedClosureRef};
use crate::stg_info_table::StgInfoTable;
use crate::types::StgClosureType;
use vstd::prelude::*;

verus! {

/// An iterator over the allocation contexts of all tasks: of each task
/// first its own context, then that of the runtime.
#[derive(Clone, Copy, Debug, PartialEq, Eq)]
pub struct MutatorIterator {
    /// Index of the task that is next, if one is.
    pub task: Option<usize>,
    /// Whether the task's own context is next, or that of the runtime.
    pub which: bool,
}

/// What a step of the iterator yields from the state `it`, and the state
/// it leaves.
pub open spec fn mutator_step(it: MutatorIterator, tasks: Seq<Task>) -> (
    Option<usize>,
    MutatorIterator,
) {
    match it.task {
        Some(t) => if t < tasks.len() {
            if it.which {
                (Some(tasks[t as int].mmutator), MutatorIterator { task: it.task, which: false })
            } else {
                (
                    Some(tasks[t as int].rts_mutator),
                    MutatorIterator { task: tasks[t as int].all_next, which: true },
                )
            }
        } else {
            (None, it)
        },
        None => (None, it),
    }
}

impl MutatorIterator {
    /// An iterator that starts at the task `all_tasks`, the head of the
    /// list of all tasks.
    pub fn new(all_tasks: Option<usize>) -> (it: MutatorIterator)
        ensures
            it.task == all_tasks,
            it.which,
    {
        MutatorIterator { task: all_tasks, which: true }
    }

    /// The next allocation context, or `None` at the end of the list.
    pub fn next(&mut self, tasks: &Vec<Task>) -> (r: Option<usize>)
        ensures
            r == mutator_step(*old(self), tasks@).0,
            *final(self) == mutator_step(*old(self), tasks@).1,
    {
        match self.task {
            Some(t) => {
                if t < tasks.len() {
                    let result = if self.which {
                        tasks[t].mmutator
                    } else {
                        tasks[t].rts_mutator
                    };
                    if !self.which {
                        self.task = tasks[t].all_next;
                        self.which = true;
                    } else {
                        self.which = false;
                    }
                    Some(result)
                } else {
                    None
                }
            },
            None => None,
        }
    }
}

/// The tag that a static link carries once its object has been visited in
/// the epoch `flag`.
pub open spec fn static_flag_tag(flag: bool) -> usize {
    if flag {
        2
    } else {
        1
    }
}

/// Whether a static link that holds `link` says "visited in the epoch
/// `flag`": its tag is the tag of the epoch, or the tag of both epochs.
pub open spec fn static_visited(link: TaggedClosureRef, flag: bool) -> bool {
    link.spec_get_tag() == static_flag_tag(flag) || link.spec_get_tag() == 3
}

/// Whether a constructor is a leaf of static evacuation: its kind is one
/// without pointer fields or one flagged free of static references, or its
/// layout has no field at all.
pub open spec fn is_static_leaf(info: StgInfoTable) -> bool {
    info.type_ == StgClosureType::Constr01 || info.type_ == StgClosureType::Constr02
        || info.type_ == StgClosureType::ConstrNoCaf || (info.ptrs == 0 && info.nptrs == 0)
}

/// The static link of a static object, where its kind and layout give it
/// one to follow: a static thunk with a static reference table; a static
/// function with a static reference table or with references; a static
/// indirection; a constructor that is no leaf. The link of a function or a
/// constructor is the payload word after its fields.
pub open spec fn static_link_of(c: Closure) -> Option<Slot> {
    match c {
        Closure::ThunkStatic(thunk) => if thunk.info.srt.is_some() {
            Some(thunk.static_link)
        } else {
            None
        },
        Closure::FunStatic(fun) => if fun.info.f.srt.is_some() || fun.info.i.ptrs != 0 {
            Some(fun.payload.spec_get_ref(fun.info.i.ptrs + fun.info.i.nptrs))
        } else {
            None
        },
        Closure::IndirectStatic(ind) => Some(ind.static_link),
        Closure::Constr(constr) => if !is_static_leaf(constr.info) {
            Some(constr.payload.spec_get_ref(constr.info.ptrs + constr.info.nptrs))
        } else {
            None
        },
        _ => None,
    }
}

/// Whether `c` is of a kind that a static object can have.
pub open spec fn is_static_kind(c: Closure) -> bool {
    c is ThunkStatic || c is FunStatic || c is IndirectStatic || c is Constr
}

/// What tracing the static object `object` answers.
pub open spec fn trace_static_result(heap: &Heap, object: ObjectReference) -> Result<
    ObjectReference,
    ScanError,
> {
    match heap.spec_get(TaggedClosureRef(object.0)) {
        None => Err(ScanError::NoSuchObject),
        Some(c) => if is_static_kind(c) {
            Ok(object)
        } else {
            Err(ScanError::InvalidStaticClosure)
        },
    }
}

/// The static link that tracing `object` looks at, if it looks at one.
pub open spec fn trace_static_link(heap: &Heap, object: ObjectReference) -> Option<Slot> {
    match heap.spec_get(TaggedClosureRef(object.0)) {
        None => None,
        Some(c) => static_link_of(c),
    }
}

/// Whether tracing `object` in the epoch `flag` enqueues it as a root: it
/// has a static link to follow, and the link does not say "visited in this
/// epoch".
pub open spec fn trace_static_enqueues(
    heap: &Heap,
    mem: MemoryView,
    flag: bool,
    object: ObjectReference,
) -> bool {
    match trace_static_link(heap, object) {
        Some(link) => !static_visited(TaggedClosureRef(mem.load(link)), flag),
        None => false,
    }
}

/// The memory after tracing `object` in the epoch `flag`: where the object
/// is enqueued, its static link holds the null address under the tag of
/// the epoch.
pub open spec fn trace_static_mem(
    heap: &Heap,
    mem: MemoryView,
    flag: bool,
    object: ObjectReference,
) -> MemoryView {
    if trace_static_enqueues(heap, mem, flag, object) {
        mem.store(trace_static_link(heap, object).unwrap(), static_flag_tag(flag))
    } else {
        mem
    }
}

/// Appends `object` to the queue of roots.
pub fn enqueue_roots(queue: &mut Vec<ObjectReference>, object: ObjectReference)
    ensures
        final(queue)@ == old(queue)@.push(object),
{
    queue.push(object);
}

/// Visits the static link at `static_link` in the epoch `static_flag`:
/// where it does not say "visited in this epoch", it is stamped with the
/// tag of the epoch and `object` is enqueued. Returns whether this is the
/// first visit of the epoch.
fn evacuate_static(
    mem: &mut Memory,
    static_flag: bool,
    queue: &mut Vec<ObjectReference>,
    object: ObjectReference,
    static_link: Slot,
) -> (first: bool)
    ensures
        first == !static_visited(TaggedClosureRef(old(mem)@.load(static_link)), static_flag),
        first ==> final(mem)@ == old(mem)@.store(static_link, static_flag_tag(static_flag))
            && final(queue)@ == old(queue)@.push(object),
        !first ==> final(mem)@ == old(mem)@ && final(queue)@ == old(queue)@,
{
    let cur_static_flag: usize = if static_flag {
        2
    } else {
        1
    };
    let prev_static_flag: usize = if static_flag {
        1
    } else {
        2
    };
    let tag: usize = TaggedClosureRef(mem.load(static_link)).get_tag();
    assert(tag < 8 ==> (((tag | 1) == 3) <==> (tag == 2 || tag == 3))) by (bit_vector);
    assert(tag < 8 ==> (((tag | 2) == 3) <==> (tag == 1 || tag == 3))) by (bit_vector);
    let object_visited: bool = (tag | prev_static_flag) == 3;
    if !object_visited {
        // No list of static objects is kept, so the link holds the null
        // address under the tag.
        let stamp = TaggedClosureRef::from_address(0).set_tag(cur_static_flag);
        mem.store(static_link, stamp.0);
        enqueue_roots(queue, object);
    }
    !object_visited
}

/// What the collector asks of the running program.
pub struct VMActivePlan {}

impl VMActivePlan {
    /// Number of allocation contexts: one per capability.
    pub fn number_of_mutators(n_capabilities: u32) -> (n: usize)
        ensures
            n == n_capabilities,
    {
        n_capabilities as usize
    }

    /// An iterator over the allocation contexts of all tasks.
    pub fn mutators(all_tasks: Option<usize>) -> (it: MutatorIterator)
        ensures
            it.task == all_tasks,
            it.which,
    {
        MutatorIterator::new(all_tasks)
    }

    /// Traces the static object `object` in the epoch `static_flag`. An
    /// object that has a static link to follow is enqueued as a root on
    /// its first trace of the epoch, and its link is stamped with the tag
    /// of the epoch; every later trace of the epoch does nothing. An
    /// object without such a link is never enqueued. Returns `object`, or
    /// an error where `object` is no object or is of no kind that a static
    /// object can have.
    pub fn vm_trace_object(
        heap: &Heap,
        mem: &mut Memory,
        static_flag: bool,
        queue: &mut Vec<ObjectReference>,
        object: ObjectReference,
    ) -> (res: Result<ObjectReference, ScanError>)
        requires
            heap.wf(),
        ensures
            res == trace_static_result(heap, object),
            final(mem)@ == trace_static_mem(heap, old(mem)@, static_flag, object),
            final(queue)@ == (if trace_static_enqueues(heap, old(mem)@, static_flag, object) {
                old(queue)@.push(object)
            } else {
                old(queue)@
            }),
    {
        let tagged_ref = TaggedClosureRef::from_object_reference(object);
        let closure = match heap.get(tagged_ref) {
            Some(c) => c,
            None => {
                return Err(ScanError::NoSuchObject);
            },
        };
        proof {
            assert(heap.has_object(tagged_ref.spec_to_address()));
            assert(heap.objects@[tagged_ref.spec_to_address() / 8 - 1].wf());
        }
        match closure {
            Closure::ThunkStatic(thunk) => {
                if thunk.info.get_srt().is_some() {
                    evacuate_static(mem, static_flag, queue, object, thunk.static_link);
                }
            },
            Closure::FunStatic(fun) => {
                let srt = fun.info.get_srt();
                let ptrs: u32 = fun.info.i.ptrs;
                if srt.is_some() || ptrs != 0 {
                    let offset: usize = ptrs as usize + fun.info.i.nptrs as usize;
                    let static_link_ref = fun.payload.get_ref(offset);
                    evacuate_static(mem, static_flag, queue, object, static_link_ref);
                }
            },
            Closure::IndirectStatic(ind) => {
                evacuate_static(mem, static_flag, queue, object, ind.static_link);
            },
            Closure::Constr(constr) => {
                let leaf = match constr.info.type_ {
                    StgClosureType::Constr01 => true,
                    StgClosureType::Constr02 => true,
                    StgClosureType::ConstrNoCaf => true,
                    _ => constr.info.ptrs == 0 && constr.info.nptrs == 0,
                };
                if !leaf {
                    let offset: usize = constr.info.ptrs as usize + constr.info.nptrs as usize;
                    let static_link_ref = constr.payload.get_ref(offset);
                    evacuate_static(mem, static_flag, queue, object, static_link_ref);
                }
            },
            _ => {
                return Err(ScanError::InvalidStaticClosure);
            },
        }
        Ok(object)
    }
}

/// Idempotence of static evacuation. Of an object with a static link in
/// the memory: a second trace in the same epoch enqueues nothing and
/// changes nothing, whatever the first did, so two traces of one epoch
/// enqueue the object at most once.
pub proof fn lemma_static_evacuation_idempotent(
    heap: &Heap,
    mem: MemoryView,
    flag: bool,
    object: ObjectReference,
)
    requires
        trace_static_link(heap, object).is_some(),
        trace_static_link(heap, object).unwrap().0 < mem.words.len(),
    ensures
        !trace_static_enqueues(heap, trace_static_mem(heap, mem, flag, object), flag, object),
        trace_static_mem(heap, trace_static_mem(heap, mem, flag, object), flag, object)
            == trace_static_mem(heap, mem, flag, object),
{
    let once = trace_static_mem(heap, mem, flag, object);
    let link = trace_static_link(heap, object).unwrap();
    if trace_static_enqueues(heap, mem, flag, object) {
        assert(once.load(link) == static_flag_tag(flag));
    }
}

/// Static evacuation across epochs. An object with a static link in the
/// memory that has not been visited in the epoch `flag` is enqueued by the
/// first trace of that epoch and by no second one; once the epoch is
/// flipped, the first trace enqueues it again, and no second one does.
pub proof fn lemma_static_evacuation_epochs(
    heap: &Heap,
    mem: MemoryView,
    flag: bool,
    object: ObjectReference,
)
    requires
        trace_static_link(heap, object).is_some(),
        trace_static_link(heap, object).unwrap().0 < mem.words.len(),
        !static_visited(
            TaggedClosureRef(mem.load(trace_static_link(heap, object).unwrap())),
            flag,
        ),
    ensures
        trace_static_enqueues(heap, mem, flag, object),
        !trace_static_enqueues(heap, trace_static_mem(heap, mem, flag, object), flag, object),
        trace_static_enqueues(heap, trace_static_mem(heap, mem, flag, object), !flag, object),
        !trace_static_enqueues(
            heap,
            trace_static_mem(heap, trace_static_mem(heap, mem, flag, object), !flag, object),
            !flag,
            object,
        ),
{
    let link = trace_static_link(heap, object).unwrap();
    let once = trace_static_mem(heap, mem, flag, object);
    assert(once.load(link) == static_flag_tag(flag));
    let flipped = trace_static_mem(heap, once, !flag, object);
    assert(flipped.load(link) == static_flag_tag(!flag));
}

} // verus!
