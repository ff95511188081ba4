//! The scanning engine: which locations of an object are visited, in what
//! order, and what visiting one does.

use crate::edges::{GHCEdge, Slot};
use crate::ghc::{
    is_charlike_closure, is_intlike_closure, iter_stable_ptr_table, spec_is_charlike_closure,
    spec_is_intlike_closure, StablePtrTable,
};
use crate::memory::{Memory, MemoryView};
use crate::selection::{lemma_set_indices, lemma_set_indices_take, set_indices};
use crate::stg_closures::{
    card_count, frames_wf, Closure, ClosurePayload, Heap, StackFrame, StgMutArrPtrs, StgTSO,
    TaggedClosureRef, CARD_SIZE,
};
use crate::stg_info_table::{
    StgFunInfoTable, StgLargeBitmap, StgRetInfoTable, StgThunkInfoTable,
};
use crate::types::{
    bit_is_clear, shifted, StgClosureType, StgFunType, StgSmallBitmap, BITS_PER_WORD,
};
use crate::util::push_root;
use vstd::prelude::*;

verus! {

/// What a scan has done so far: the memory as it has left it, and the edges
/// it has handed to the collector, in order.
pub struct ScanState {
    pub mem: MemoryView,
    pub edges: Seq<GHCEdge>,
}

/// One step of a scan.
pub enum ScanStep {
    /// Visit the field at a location.
    Visit(Slot),
    /// Hand an edge to the collector as it is.
    Emit(GHCEdge),
    /// Clear the card mark at an index.
    ClearCard(usize),
}

/// Whether `r` refers to an object that stands for a computation still
/// under evaluation: a thread, a locked closure or a blocking queue.
pub open spec fn is_pending(heap: &Heap, r: TaggedClosureRef) -> bool {
    let t = heap.spec_type_of(r);
    t == Some(StgClosureType::Tso) || t == Some(StgClosureType::WhiteHole) || t == Some(
        StgClosureType::BlockingQueue,
    )
}

/// The value that the placeholder `r` has been updated with: `r` refers to
/// a placeholder whose field holds a tagged reference, or an untagged one
/// to an object that is not pending. `None` where the chain ends at `r`.
pub open spec fn next_link(heap: &Heap, mem: MemoryView, r: TaggedClosureRef) -> Option<
    TaggedClosureRef,
> {
    match heap.spec_get(r) {
        Some(Closure::Indirect(ind)) => {
            let indir = TaggedClosureRef(mem.load(ind.indirectee));
            if ind.info.type_ == StgClosureType::BlackHole && (indir.spec_get_tag() != 0
                || !is_pending(heap, indir)) {
                Some(indir)
            } else {
                None
            }
        },
        _ => None,
    }
}

/// The end of the chain of updated placeholders that starts at `r`,
/// following at most `fuel` links.
pub open spec fn chain_end(heap: &Heap, mem: MemoryView, r: TaggedClosureRef, fuel: nat) ->
    TaggedClosureRef
    decreases fuel,
{
    if fuel == 0 {
        r
    } else {
        match next_link(heap, mem, r) {
            Some(indir) => chain_end(heap, mem, indir, (fuel - 1) as nat),
            None => r,
        }
    }
}

/// The reference that the field at `slot` resolves to: the end of the chain
/// of updated placeholders that starts at what the field holds. A chain
/// without a cycle passes through each object at most once, so the number
/// of objects bounds the links that are followed.
pub open spec fn resolved(heap: &Heap, mem: MemoryView, slot: Slot) -> TaggedClosureRef {
    chain_end(heap, mem, TaggedClosureRef(mem.load(slot)), heap.objects@.len())
}

/// The memory after the field at `slot` has been rewritten to what it
/// resolves to.
pub open spec fn shortcut_mem(heap: &Heap, mem: MemoryView, slot: Slot) -> MemoryView {
    let end = resolved(heap, mem, slot);
    if end.0 != mem.load(slot) {
        mem.store(slot, end.0)
    } else {
        mem
    }
}

/// The shared static instance that can stand for `r`, if there is one.
pub open spec fn canonical_small(heap: &Heap, mem: MemoryView, r: TaggedClosureRef) -> Option<
    TaggedClosureRef,
> {
    match spec_is_intlike_closure(heap, mem, r) {
        Some(c) => Some(c),
        None => spec_is_charlike_closure(heap, mem, r),
    }
}

/// The reference that a visit of `slot` looks at: what the field resolves
/// to where placeholders are followed, else what the field holds.
pub open spec fn visit_target(heap: &Heap, mem: MemoryView, slot: Slot) -> TaggedClosureRef {
    if heap.options.indirection_shortcutting {
        resolved(heap, mem, slot)
    } else {
        TaggedClosureRef(mem.load(slot))
    }
}

/// The memory after the first fast path of a visit of `slot`.
pub open spec fn visit_mem(heap: &Heap, mem: MemoryView, slot: Slot) -> MemoryView {
    if heap.options.indirection_shortcutting {
        shortcut_mem(heap, mem, slot)
    } else {
        mem
    }
}

/// The shared static instance that a visit of `slot` rewrites the field to,
/// if it does: small objects are canonicalised, and the field refers to a
/// one-word constructor that has a shared instance.
pub open spec fn visit_canonical(heap: &Heap, mem: MemoryView, slot: Slot) -> Option<
    TaggedClosureRef,
> {
    let target = visit_target(heap, mem, slot);
    if heap.options.small_obj_optimisation && heap.spec_type_of(target) == Some(
        StgClosureType::Constr01,
    ) {
        canonical_small(heap, visit_mem(heap, mem, slot), target)
    } else {
        None
    }
}

/// What visiting the field at `slot` does: the field is rewritten to a
/// shared static instance and no edge is handed on, or else the field is
/// left as the first fast path left it and its edge is handed on.
pub open spec fn visit_spec(heap: &Heap, st: ScanState, slot: Slot) -> ScanState {
    match visit_canonical(heap, st.mem, slot) {
        Some(c) => ScanState { mem: visit_mem(heap, st.mem, slot).store(slot, c.0), edges: st.edges },
        None => ScanState {
            mem: visit_mem(heap, st.mem, slot),
            edges: st.edges.push(GHCEdge::ClosureRef(slot)),
        },
    }
}

/// What one step does to the state of a scan.
pub open spec fn step_spec(heap: &Heap, st: ScanState, step: ScanStep) -> ScanState {
    match step {
        ScanStep::Visit(slot) => visit_spec(heap, st, slot),
        ScanStep::Emit(edge) => ScanState { mem: st.mem, edges: st.edges.push(edge) },
        ScanStep::ClearCard(card) => ScanState { mem: st.mem.clear_card(card), edges: st.edges },
    }
}

/// The state after the steps of `steps`, taken in order from `st`.
pub open spec fn run(heap: &Heap, st: ScanState, steps: Seq<ScanStep>) -> ScanState
    decreases steps.len(),
{
    if steps.len() == 0 {
        st
    } else {
        step_spec(heap, run(heap, st, steps.drop_last()), steps.last())
    }
}

/// Running one more step is running the steps, then the step.
pub proof fn lemma_run_push(heap: &Heap, st: ScanState, steps: Seq<ScanStep>, step: ScanStep)
    ensures
        run(heap, st, steps.push(step)) == step_spec(heap, run(heap, st, steps), step),
{
    assert(steps.push(step).drop_last() =~= steps);
}

/// Running two sequences one after the other is running their
/// concatenation.
pub proof fn lemma_run_concat(heap: &Heap, st: ScanState, a: Seq<ScanStep>, b: Seq<ScanStep>)
    ensures
        run(heap, st, a + b) == run(heap, run(heap, st, a), b),
    decreases b.len(),
{
    if b.len() == 0 {
        assert(a + b =~= a);
    } else {
        lemma_run_concat(heap, st, a, b.drop_last());
        assert((a + b).drop_last() =~= a + b.drop_last());
        assert((a + b).last() == b.last());
    }
}

/// Running a single step.
pub proof fn lemma_run_one(heap: &Heap, st: ScanState, step: ScanStep)
    ensures
        run(heap, st, seq![step]) == step_spec(heap, st, step),
{
    lemma_run_push(heap, st, Seq::empty(), step);
    assert(Seq::<ScanStep>::empty().push(step) =~= seq![step]);
}

/// The state of a scan that has left the memory as `mem` and has handed on
/// `edges`.
pub open spec fn state_of(mem: MemoryView, edges: Seq<GHCEdge>) -> ScanState {
    ScanState { mem, edges }
}

/// Reads the value that the placeholder `r` has been updated with.
fn read_next_link(heap: &Heap, mem: &Memory, r: TaggedClosureRef) -> (n: Option<TaggedClosureRef>)
    ensures
        n == next_link(heap, mem@, r),
{
    match heap.get(r) {
        Some(Closure::Indirect(ind)) => {
            if ind.info.type_ != StgClosureType::BlackHole {
                return None;
            }
            let indir = TaggedClosureRef(mem.load(ind.indirectee));
            if indir.get_tag() != 0 {
                return Some(indir);
            }
            let pending = match heap.type_of(indir) {
                Some(StgClosureType::Tso) => true,
                Some(StgClosureType::WhiteHole) => true,
                Some(StgClosureType::BlockingQueue) => true,
                _ => false,
            };
            if pending {
                None
            } else {
                Some(indir)
            }
        },
        _ => None,
    }
}

/// Follows the chain of updated placeholders that starts at the field at
/// `slot`, rewrites the field to the chain's end and returns that end.
pub fn indirection_shortcutting(heap: &Heap, mem: &mut Memory, slot: Slot) -> (r: TaggedClosureRef)
    ensures
        r == resolved(heap, old(mem)@, slot),
        final(mem)@ == shortcut_mem(heap, old(mem)@, slot),
{
    let first = TaggedClosureRef(mem.load(slot));
    let mut closure_ref = first;
    let mut fuel: usize = heap.objects.len();
    let mut at_end = false;
    while fuel > 0 && !at_end
        invariant
            mem@ == old(mem)@,
            chain_end(heap, mem@, closure_ref, fuel as nat) == resolved(heap, mem@, slot),
            at_end ==> next_link(heap, mem@, closure_ref).is_none(),
        decreases fuel + (if at_end { 0int } else { 1int }),
    {
        match read_next_link(heap, mem, closure_ref) {
            Some(indir) => {
                closure_ref = indir;
                fuel = fuel - 1;
            },
            None => {
                at_end = true;
            },
        }
    }
    if closure_ref.0 != first.0 {
        mem.store(slot, closure_ref.0);
    }
    closure_ref
}

/// Rewrites the field at `slot`, which refers to `closure_ref`, to the
/// shared static instance that can stand for `closure_ref`. Returns whether
/// it has done so; if not, the field is unchanged and its edge is still to
/// be handed on.
pub fn small_obj_optimisation(
    heap: &Heap,
    mem: &mut Memory,
    slot: Slot,
    closure_ref: TaggedClosureRef,
) -> (applied: bool)
    ensures
        applied == canonical_small(heap, old(mem)@, closure_ref).is_some(),
        applied ==> final(mem)@ == old(mem)@.store(
            slot,
            canonical_small(heap, old(mem)@, closure_ref).unwrap().0,
        ),
        !applied ==> final(mem)@ == old(mem)@,
{
    if let Some(c) = is_intlike_closure(heap, mem, closure_ref) {
        mem.store(slot, c.0);
        return true;
    } else if let Some(c) = is_charlike_closure(heap, mem, closure_ref) {
        mem.store(slot, c.0);
        return true;
    }
    false
}

/// Visits the field at `slot`: applies the fast paths that are switched on
/// and, unless the field was rewritten to a shared static instance, hands
/// the field's edge to `ev`.
pub fn visit(heap: &Heap, mem: &mut Memory, ev: &mut Vec<GHCEdge>, slot: Slot)
    ensures
        state_of(final(mem)@, final(ev)@) == visit_spec(heap, state_of(old(mem)@, old(ev)@), slot),
{
    let closure_ref = if heap.options.indirection_shortcutting {
        indirection_shortcutting(heap, mem, slot)
    } else {
        TaggedClosureRef(mem.load(slot))
    };
    if heap.options.small_obj_optimisation {
        match heap.type_of(closure_ref) {
            Some(StgClosureType::Constr01) => {
                if small_obj_optimisation(heap, mem, slot, closure_ref) {
                    return ;
                }
            },
            _ => {},
        }
    }
    ev.push(GHCEdge::from_closure_ref(slot));
}

/// Running the first `i + 1` steps is running the first `i`, then step `i`.
pub proof fn lemma_run_take(heap: &Heap, st: ScanState, steps: Seq<ScanStep>, i: int)
    requires
        0 <= i < steps.len(),
    ensures
        run(heap, st, steps.take(i + 1)) == step_spec(heap, run(heap, st, steps.take(i)), steps[i]),
{
    assert(steps.take(i + 1).drop_last() =~= steps.take(i));
}

/// The steps that visit the first `n` words of `payload`, in order.
pub open spec fn payload_plan(payload: ClosurePayload, n: int) -> Seq<ScanStep> {
    Seq::new(n as nat, |i: int| ScanStep::Visit(payload.spec_get_ref(i)))
}

/// The steps that visit the words of `payload` at the indices of `fields`,
/// in order.
pub open spec fn fields_plan(payload: ClosurePayload, fields: Seq<int>) -> Seq<ScanStep> {
    Seq::new(fields.len(), |j: int| ScanStep::Visit(payload.spec_get_ref(fields[j])))
}

/// For each of the first `size` fields, whether its bit in the one-word
/// bitmap `bits` is zero.
pub open spec fn small_flags(bits: usize, size: nat) -> Seq<bool> {
    Seq::new(size, |i: int| bit_is_clear(bits, i as nat))
}

/// For each of the first `size` fields, whether its bit in the multi-word
/// bitmap `words` is zero: bit `k % 64` of word `k / 64` for field `k`.
pub open spec fn large_flags(words: Seq<usize>, size: nat) -> Seq<bool> {
    Seq::new(size, |k: int| bit_is_clear(words[k / 64], (k % 64) as nat))
}

/// The steps of a scan of `size` fields under a one-word bitmap: the fields
/// whose bit is zero are visited, the first field first.
pub open spec fn small_bitmap_plan(payload: ClosurePayload, bitmap: StgSmallBitmap, size: nat) -> Seq<
    ScanStep,
> {
    fields_plan(payload, set_indices(small_flags(bitmap.spec_bits(), size)))
}

/// The steps of a scan of `size` fields under a multi-word bitmap.
pub open spec fn large_bitmap_plan(payload: ClosurePayload, words: Seq<usize>, size: nat) -> Seq<
    ScanStep,
> {
    fields_plan(payload, set_indices(large_flags(words, size)))
}

/// With the words of `payload` inside the address space, the plan of a
/// scan under flags visits the location of field `i` exactly when `i` is
/// below the length and its flag is set, and visits no location twice.
pub proof fn lemma_fields_plan_visits(payload: ClosurePayload, flags: Seq<bool>)
    requires
        payload.fits(flags.len() as int),
    ensures
        forall|i: int|
            0 <= i < flags.len() ==> (#[trigger] fields_plan(
                payload,
                set_indices(flags),
            ).contains(ScanStep::Visit(payload.spec_get_ref(i))) <==> flags[i]),
        fields_plan(payload, set_indices(flags)).no_duplicates(),
{
    let pf = set_indices(flags);
    let plan = fields_plan(payload, pf);
    lemma_set_indices(flags);
    assert forall|i: int| 0 <= i < flags.len() implies (#[trigger] plan.contains(
        ScanStep::Visit(payload.spec_get_ref(i)),
    ) <==> flags[i]) by {
        if plan.contains(ScanStep::Visit(payload.spec_get_ref(i))) {
            let j = choose|j: int|
                0 <= j < plan.len() && plan[j] == ScanStep::Visit(payload.spec_get_ref(i));
            assert(payload.spec_get_ref(pf[j]) == payload.spec_get_ref(i));
            assert(pf[j] == i);
            assert(pf.contains(i));
        }
        if flags[i] {
            assert(pf.contains(i));
            let j = choose|j: int| 0 <= j < pf.len() && pf[j] == i;
            assert(plan[j] == ScanStep::Visit(payload.spec_get_ref(i)));
        }
    }
    assert forall|a: int, b: int| 0 <= a < plan.len() && 0 <= b < plan.len() && a != b implies plan[a]
        != plan[b] by {
        if a < b {
            assert(pf[a] < pf[b]);
        } else {
            assert(pf[b] < pf[a]);
        }
    }
}

/// Taking one more flag into account adds its field to the plan where the
/// flag is set, and changes nothing where it is not.
proof fn lemma_fields_step(heap: &Heap, st: ScanState, payload: ClosurePayload, flags: Seq<bool>, i: int)
    requires
        0 <= i < flags.len(),
    ensures
        flags[i] ==> run(heap, st, fields_plan(payload, set_indices(flags.take(i + 1))))
            == visit_spec(
            heap,
            run(heap, st, fields_plan(payload, set_indices(flags.take(i)))),
            payload.spec_get_ref(i),
        ),
        !flags[i] ==> run(heap, st, fields_plan(payload, set_indices(flags.take(i + 1))))
            == run(heap, st, fields_plan(payload, set_indices(flags.take(i)))),
{
    lemma_set_indices_take(flags, i);
    let before = set_indices(flags.take(i));
    if flags[i] {
        assert(fields_plan(payload, before.push(i)) =~= fields_plan(payload, before).push(
            ScanStep::Visit(payload.spec_get_ref(i)),
        ));
        lemma_run_push(
            heap,
            st,
            fields_plan(payload, before),
            ScanStep::Visit(payload.spec_get_ref(i)),
        );
    }
}

/// Visits the first `n_ptrs` words of `payload`, in order.
pub fn scan_closure_payload(
    heap: &Heap,
    mem: &mut Memory,
    payload: &ClosurePayload,
    n_ptrs: u32,
    ev: &mut Vec<GHCEdge>,
)
    requires
        payload.fits(n_ptrs as int),
    ensures
        state_of(final(mem)@, final(ev)@) == run(
            heap,
            state_of(old(mem)@, old(ev)@),
            payload_plan(*payload, n_ptrs as int),
        ),
{
    let ghost st0 = state_of(mem@, ev@);
    let ghost plan = payload_plan(*payload, n_ptrs as int);
    let mut n: u32 = 0;
    while n < n_ptrs
        invariant
            n <= n_ptrs,
            payload.fits(n_ptrs as int),
            plan == payload_plan(*payload, n_ptrs as int),
            state_of(mem@, ev@) == run(heap, st0, plan.take(n as int)),
        decreases n_ptrs - n,
    {
        let edge = payload.get_ref(n as usize);
        visit(heap, mem, ev, edge);
        proof {
            lemma_run_take(heap, st0, plan, n as int);
        }
        n = n + 1;
    }
    proof {
        assert(plan.take(n_ptrs as int) =~= plan);
    }
}

/// Scans `size` fields of `payload` under a one-word bitmap: field `i` is
/// visited exactly when bit `i` of the bitmap is zero, the first field
/// first.
pub fn scan_small_bitmap(
    heap: &Heap,
    mem: &mut Memory,
    payload: &ClosurePayload,
    small_bitmap: StgSmallBitmap,
    size: usize,
    ev: &mut Vec<GHCEdge>,
)
    requires
        payload.fits(size as int),
    ensures
        state_of(final(mem)@, final(ev)@) == run(
            heap,
            state_of(old(mem)@, old(ev)@),
            small_bitmap_plan(*payload, small_bitmap, size as nat),
        ),
{
    let ghost st0 = state_of(mem@, ev@);
    let ghost flags = small_flags(small_bitmap.spec_bits(), size as nat);
    let mut bitmap: usize = small_bitmap.bits();
    let mut i: usize = 0;
    while i < size
        invariant
            i <= size,
            payload.fits(size as int),
            flags == small_flags(small_bitmap.spec_bits(), size as nat),
            bitmap == shifted(small_bitmap.spec_bits(), i as nat),
            state_of(mem@, ev@) == run(
                heap,
                st0,
                fields_plan(*payload, set_indices(flags.take(i as int))),
            ),
        decreases size - i,
    {
        if bitmap % 2 == 0 {
            visit(heap, mem, ev, payload.get_ref(i));
        }
        proof {
            lemma_fields_step(heap, st0, *payload, flags, i as int);
        }
        bitmap = bitmap / 2;
        i = i + 1;
    }
    proof {
        assert(flags.take(size as int) =~= flags);
    }
}

/// Scans `size` fields of `payload` under a multi-word bitmap: each word of
/// the bitmap is read for up to 64 fields, then the next word; field `k` is
/// visited exactly when its bit is zero.
pub fn scan_large_bitmap(
    heap: &Heap,
    mem: &mut Memory,
    payload: &ClosurePayload,
    large_bitmap: &StgLargeBitmap,
    size: usize,
    ev: &mut Vec<GHCEdge>,
)
    requires
        size <= large_bitmap.size,
        large_bitmap.wf(),
        payload.fits(size as int),
    ensures
        state_of(final(mem)@, final(ev)@) == run(
            heap,
            state_of(old(mem)@, old(ev)@),
            large_bitmap_plan(*payload, large_bitmap.bitmap@, size as nat),
        ),
{
    let ghost st0 = state_of(mem@, ev@);
    let ghost flags = large_flags(large_bitmap.bitmap@, size as nat);
    let mut b: usize = 0;
    let mut i: usize = 0;
    while i < size
        invariant
            i <= size,
            size <= large_bitmap.size,
            large_bitmap.wf(),
            i == 64 * b || i == size,
            payload.fits(size as int),
            flags == large_flags(large_bitmap.bitmap@, size as nat),
            state_of(mem@, ev@) == run(
                heap,
                st0,
                fields_plan(*payload, set_indices(flags.take(i as int))),
            ),
        decreases size - i,
    {
        let mut bitmap: usize = large_bitmap.bitmap[b];
        let word_len: usize = if size - i < BITS_PER_WORD {
            size - i
        } else {
            BITS_PER_WORD
        };
        let mut j: usize = 0;
        while j < word_len
            invariant
                j <= word_len,
                word_len <= 64,
                i + word_len <= size,
                i == 64 * b,
                b < large_bitmap.bitmap@.len(),
                payload.fits(size as int),
                flags == large_flags(large_bitmap.bitmap@, size as nat),
                bitmap == shifted(large_bitmap.bitmap@[b as int], j as nat),
                state_of(mem@, ev@) == run(
                    heap,
                    st0,
                    fields_plan(*payload, set_indices(flags.take(i + j))),
                ),
            decreases word_len - j,
        {
            if bitmap % 2 == 0 {
                let edge = payload.get_ref(i + j);
                visit(heap, mem, ev, edge);
            }
            proof {
                assert((i + j) / 64 == b as int && (i + j) % 64 == j as int);
                lemma_fields_step(heap, st0, *payload, flags, i + j);
            }
            bitmap = bitmap / 2;
            j = j + 1;
        }
        i = i + word_len;
        b = b + 1;
    }
    proof {
        assert(flags.take(size as int) =~= flags);
    }
}

/// A scan of `size` fields under a one-word bitmap visits the location of
/// field `i` exactly when bit `i` of the bitmap is zero, whatever the bits
/// and the size, and visits no location twice.
pub proof fn lemma_small_bitmap_semantics(payload: ClosurePayload, bitmap: StgSmallBitmap, size: nat)
    requires
        payload.fits(size as int),
    ensures
        forall|i: int|
            0 <= i < size ==> (#[trigger] small_bitmap_plan(payload, bitmap, size).contains(
                ScanStep::Visit(payload.spec_get_ref(i)),
            ) <==> bit_is_clear(bitmap.spec_bits(), i as nat)),
        small_bitmap_plan(payload, bitmap, size).no_duplicates(),
        forall|j: int|
            0 <= j < small_bitmap_plan(payload, bitmap, size).len() ==> ({
                let i = set_indices(small_flags(bitmap.spec_bits(), size))[j];
                0 <= i < size && bit_is_clear(bitmap.spec_bits(), i as nat) && #[trigger] small_bitmap_plan(
                    payload,
                    bitmap,
                    size,
                )[j] == ScanStep::Visit(payload.spec_get_ref(i))
            }),
{
    let flags = small_flags(bitmap.spec_bits(), size);
    lemma_fields_plan_visits(payload, flags);
    lemma_set_indices(flags);
    let plan = small_bitmap_plan(payload, bitmap, size);
    assert forall|j: int| 0 <= j < plan.len() implies ({
        let i = set_indices(flags)[j];
        0 <= i < size && bit_is_clear(bitmap.spec_bits(), i as nat) && #[trigger] plan[j]
            == ScanStep::Visit(payload.spec_get_ref(i))
    }) by {
        let i = set_indices(flags)[j];
        assert(set_indices(flags).contains(i));
    }
}

/// A scan of `size` fields under a multi-word bitmap visits the location of
/// field `k` exactly when bit `k % 64` of word `k / 64` is zero, and visits
/// no location twice.
pub proof fn lemma_large_bitmap_semantics(payload: ClosurePayload, words: Seq<usize>, size: nat)
    requires
        payload.fits(size as int),
    ensures
        forall|k: int|
            0 <= k < size ==> (#[trigger] large_bitmap_plan(payload, words, size).contains(
                ScanStep::Visit(payload.spec_get_ref(k)),
            ) <==> bit_is_clear(words[k / 64], (k % 64) as nat)),
        large_bitmap_plan(payload, words, size).no_duplicates(),
{
    lemma_fields_plan_visits(payload, large_flags(words, size));
}

/// The edges that the steps hand on where no fast path is switched on: the
/// edge of each visited field and each edge handed on as it is, in order.
pub open spec fn plain_edges(steps: Seq<ScanStep>) -> Seq<GHCEdge>
    decreases steps.len(),
{
    if steps.len() == 0 {
        Seq::empty()
    } else {
        let prev = plain_edges(steps.drop_last());
        match steps.last() {
            ScanStep::Visit(slot) => prev.push(GHCEdge::ClosureRef(slot)),
            ScanStep::Emit(edge) => prev.push(edge),
            ScanStep::ClearCard(_) => prev,
        }
    }
}

/// The locations that the steps visit, in order.
pub open spec fn visited(steps: Seq<ScanStep>) -> Seq<Slot>
    decreases steps.len(),
{
    if steps.len() == 0 {
        Seq::empty()
    } else {
        let prev = visited(steps.drop_last());
        match steps.last() {
            ScanStep::Visit(slot) => prev.push(slot),
            _ => prev,
        }
    }
}

/// The card marks that the steps clear, in order.
pub open spec fn cleared(steps: Seq<ScanStep>) -> Seq<usize>
    decreases steps.len(),
{
    if steps.len() == 0 {
        Seq::empty()
    } else {
        let prev = cleared(steps.drop_last());
        match steps.last() {
            ScanStep::ClearCard(card) => prev.push(card),
            _ => prev,
        }
    }
}

/// With both fast paths switched off, a scan hands on the edge of every
/// field it visits, in order, and leaves every word of the memory as it
/// was.
pub proof fn lemma_run_plain(heap: &Heap, st: ScanState, steps: Seq<ScanStep>)
    requires
        !heap.options.indirection_shortcutting,
        !heap.options.small_obj_optimisation,
    ensures
        run(heap, st, steps).edges == st.edges + plain_edges(steps),
        run(heap, st, steps).mem.words == st.mem.words,
        run(heap, st, steps).mem.cards.len() == st.mem.cards.len(),
    decreases steps.len(),
{
    if steps.len() == 0 {
        assert(st.edges + plain_edges(steps) =~= st.edges);
    } else {
        lemma_run_plain(heap, st, steps.drop_last());
        let before = run(heap, st, steps.drop_last());
        match steps.last() {
            ScanStep::Visit(slot) => {
                assert(run(heap, st, steps).edges =~= st.edges + plain_edges(steps));
            },
            ScanStep::Emit(edge) => {
                assert(run(heap, st, steps).edges =~= st.edges + plain_edges(steps));
            },
            ScanStep::ClearCard(card) => {},
        }
    }
}

/// With any fast paths, a scan never changes a card mark but by clearing
/// it, never changes the size of the memory, and hands on no more edges
/// than it visits fields and hands on edges as they are.
pub proof fn lemma_run_bounds(heap: &Heap, st: ScanState, steps: Seq<ScanStep>)
    ensures
        run(heap, st, steps).mem.words.len() == st.mem.words.len(),
        run(heap, st, steps).mem.cards.len() == st.mem.cards.len(),
        st.edges.len() <= run(heap, st, steps).edges.len() <= st.edges.len() + plain_edges(
            steps,
        ).len(),
        st.edges.is_prefix_of(run(heap, st, steps).edges),
    decreases steps.len(),
{
    if steps.len() == 0 {
    } else {
        lemma_run_bounds(heap, st, steps.drop_last());
    }
}

/// A visit writes no word but that of the field it visits, and no card
/// mark.
pub proof fn lemma_visit_frame(heap: &Heap, st: ScanState, slot: Slot, other: Slot)
    requires
        other != slot,
    ensures
        visit_spec(heap, st, slot).mem.load(other) == st.mem.load(other),
        visit_spec(heap, st, slot).mem.cards == st.mem.cards,
        visit_spec(heap, st, slot).mem.words.len() == st.mem.words.len(),
{
}

/// A scan writes no word but those of the fields it visits.
pub proof fn lemma_run_frame(heap: &Heap, st: ScanState, steps: Seq<ScanStep>, other: Slot)
    requires
        !visited(steps).contains(other),
    ensures
        run(heap, st, steps).mem.load(other) == st.mem.load(other),
    decreases steps.len(),
{
    if steps.len() > 0 {
        let before = steps.drop_last();
        let mid = run(heap, st, before);
        if visited(before).contains(other) {
            let j = choose|j: int| 0 <= j < visited(before).len() && visited(before)[j] == other;
            match steps.last() {
                ScanStep::Visit(slot) => {
                    assert(visited(steps) == visited(before).push(slot));
                    assert(visited(steps)[j] == other);
                },
                _ => {
                    assert(visited(steps) == visited(before));
                },
            }
            assert(false);
        }
        lemma_run_frame(heap, st, before, other);
        match steps.last() {
            ScanStep::Visit(slot) => {
                assert(visited(steps) == visited(before).push(slot));
                if slot == other {
                    assert(visited(steps)[visited(before).len() as int] == other);
                    assert(false);
                }
                lemma_visit_frame(heap, mid, slot, other);
            },
            ScanStep::Emit(edge) => {},
            ScanStep::ClearCard(card) => {},
        }
    }
}

/// A scan changes no card mark but those it clears, which it leaves at
/// zero.
pub proof fn lemma_run_cards(heap: &Heap, st: ScanState, steps: Seq<ScanStep>, card: usize)
    ensures
        run(heap, st, steps).mem.card(card) == (if cleared(steps).contains(card) {
            0
        } else {
            st.mem.card(card)
        }),
    decreases steps.len(),
{
    if steps.len() > 0 {
        let before = steps.drop_last();
        let mid = run(heap, st, before);
        lemma_run_cards(heap, st, before, card);
        match steps.last() {
            ScanStep::ClearCard(c) => {
                assert(cleared(steps) == cleared(before).push(c));
                if c == card {
                    assert(cleared(steps)[cleared(before).len() as int] == card);
                } else {
                    if cleared(before).contains(card) {
                        let j = choose|j: int|
                            0 <= j < cleared(before).len() && cleared(before)[j] == card;
                        assert(cleared(steps)[j] == card);
                    }
                    if cleared(steps).contains(card) {
                        let j = choose|j: int|
                            0 <= j < cleared(steps).len() && cleared(steps)[j] == card;
                        assert(cleared(before)[j] == card);
                    }
                }
            },
            ScanStep::Visit(slot) => {
                assert(cleared(steps) == cleared(before));
                assert(run(heap, st, steps).mem.cards == mid.mem.cards);
            },
            ScanStep::Emit(edge) => {
                assert(cleared(steps) == cleared(before));
            },
        }
    }
}

/// Whatever fast paths are switched on, every edge that a scan hands on is
/// the edge of a field it visits or an edge it hands on as it is: the fast
/// paths take edges away and add none.
pub proof fn lemma_run_edges(heap: &Heap, st: ScanState, steps: Seq<ScanStep>)
    ensures
        st.edges.is_prefix_of(run(heap, st, steps).edges),
        forall|k: int|
            st.edges.len() <= k < run(heap, st, steps).edges.len() ==> plain_edges(steps).contains(
                #[trigger] run(heap, st, steps).edges[k],
            ),
    decreases steps.len(),
{
    lemma_run_bounds(heap, st, steps);
    if steps.len() > 0 {
        let before = steps.drop_last();
        lemma_run_edges(heap, st, before);
        lemma_run_bounds(heap, st, before);
        let mid = run(heap, st, before);
        let end = run(heap, st, steps);
        assert forall|k: int| st.edges.len() <= k < end.edges.len() implies plain_edges(
            steps,
        ).contains(#[trigger] end.edges[k]) by {
            if k < mid.edges.len() {
                assert(end.edges[k] == mid.edges[k]);
                let j = choose|j: int|
                    0 <= j < plain_edges(before).len() && plain_edges(before)[j] == mid.edges[k];
                assert(plain_edges(steps)[j] == mid.edges[k]);
            } else {
                assert(plain_edges(steps)[plain_edges(before).len() as int] == end.edges[k]);
            }
        }
    }
}

/// The steps that hand on the static reference table of a return address,
/// where its info table has one.
pub open spec fn ret_srt_plan(t: StgRetInfoTable) -> Seq<ScanStep> {
    match t.srt {
        Some(_) => seq![ScanStep::Emit(GHCEdge::RetSrtRef(t))],
        None => Seq::empty(),
    }
}

/// The steps that hand on the static reference table of a thunk, where its
/// info table has one.
pub open spec fn thunk_srt_plan(t: StgThunkInfoTable) -> Seq<ScanStep> {
    match t.srt {
        Some(_) => seq![ScanStep::Emit(GHCEdge::ThunkSrtRef(t))],
        None => Seq::empty(),
    }
}

/// The steps that hand on the static reference table of a function, where
/// its info table has one.
pub open spec fn fun_srt_plan(t: StgFunInfoTable) -> Seq<ScanStep> {
    match t.f.srt {
        Some(_) => seq![ScanStep::Emit(GHCEdge::FunSrtRef(t))],
        None => Seq::empty(),
    }
}

/// Hands on the static reference table of a return address, where its info
/// table has one.
pub fn scan_srt(ret_info_table: &StgRetInfoTable, ev: &mut Vec<GHCEdge>)
    ensures
        ret_info_table.srt.is_some() ==> final(ev)@ == old(ev)@.push(
            GHCEdge::RetSrtRef(*ret_info_table),
        ),
        ret_info_table.srt.is_none() ==> final(ev)@ == old(ev)@,
{
    match ret_info_table.get_srt() {
        None => (),
        Some(_srt) => {
            ev.push(GHCEdge::RetSrtRef(*ret_info_table));
        },
    }
}

/// Hands on the static reference table of a thunk, where its info table has
/// one.
pub fn scan_srt_thunk(thunk_info_table: &StgThunkInfoTable, ev: &mut Vec<GHCEdge>)
    ensures
        thunk_info_table.srt.is_some() ==> final(ev)@ == old(ev)@.push(
            GHCEdge::ThunkSrtRef(*thunk_info_table),
        ),
        thunk_info_table.srt.is_none() ==> final(ev)@ == old(ev)@,
{
    match thunk_info_table.get_srt() {
        None => (),
        Some(_srt) => {
            ev.push(GHCEdge::ThunkSrtRef(*thunk_info_table));
        },
    }
}

/// Hands on the static reference table of a function, where its info table
/// has one.
pub fn scan_srt_fun(fun_info_table: &StgFunInfoTable, ev: &mut Vec<GHCEdge>)
    ensures
        fun_info_table.f.srt.is_some() ==> final(ev)@ == old(ev)@.push(
            GHCEdge::FunSrtRef(*fun_info_table),
        ),
        fun_info_table.f.srt.is_none() ==> final(ev)@ == old(ev)@,
{
    match fun_info_table.get_srt() {
        None => (),
        Some(_srt) => {
            ev.push(GHCEdge::FunSrtRef(*fun_info_table));
        },
    }
}

/// Visits the field at `slot` in a scan that has taken the steps `done`
/// from `st0`.
pub(crate) fn visit_logged(
    heap: &Heap,
    mem: &mut Memory,
    ev: &mut Vec<GHCEdge>,
    slot: Slot,
    Ghost(st0): Ghost<ScanState>,
    Ghost(done): Ghost<Seq<ScanStep>>,
)
    requires
        state_of(old(mem)@, old(ev)@) == run(heap, st0, done),
    ensures
        state_of(final(mem)@, final(ev)@) == run(heap, st0, done.push(ScanStep::Visit(slot))),
{
    visit(heap, mem, ev, slot);
    proof {
        lemma_run_push(heap, st0, done, ScanStep::Visit(slot));
    }
}

/// The steps of a scan of a thread: the thread of the foreign call it is
/// bound to, where it is bound; its queue of blocked exceptions, blocking
/// queue, transaction log, stack and queue link; the closure it is blocked
/// on, where its block reason has one; its link in the list of all threads
/// and both links of its second list.
pub open spec fn tso_plan(tso: StgTSO) -> Seq<ScanStep> {
    let bound = match tso.bound {
        Some(slot) => seq![ScanStep::Visit(slot)],
        None => Seq::empty(),
    };
    let block_info = if tso.why_blocked.spec_has_block_info_closure() {
        seq![ScanStep::Visit(tso.block_info)]
    } else {
        Seq::empty()
    };
    bound + seq![
        ScanStep::Visit(tso.blocked_exceptions),
        ScanStep::Visit(tso.blocking_queue),
        ScanStep::Visit(tso.trec),
        ScanStep::Visit(tso.stackobj),
        ScanStep::Visit(tso.link),
    ] + block_info + seq![
        ScanStep::Visit(tso.global_link),
        ScanStep::Visit(tso.tso_link_prev),
        ScanStep::Visit(tso.tso_link_next),
    ]
}

/// Scans a thread.
#[allow(non_snake_case)]
pub fn scan_TSO(heap: &Heap, mem: &mut Memory, tso: &StgTSO, ev: &mut Vec<GHCEdge>)
    ensures
        state_of(final(mem)@, final(ev)@) == run(
            heap,
            state_of(old(mem)@, old(ev)@),
            tso_plan(*tso),
        ),
{
    let ghost st0 = state_of(mem@, ev@);
    let ghost mut done: Seq<ScanStep> = Seq::empty();
    match tso.bound {
        Some(slot) => {
            visit_logged(heap, mem, ev, slot, Ghost(st0), Ghost(done));
            proof {
                done = done.push(ScanStep::Visit(slot));
            }
        },
        None => {},
    }
    visit_logged(heap, mem, ev, tso.blocked_exceptions, Ghost(st0), Ghost(done));
    proof {
        done = done.push(ScanStep::Visit(tso.blocked_exceptions));
    }
    visit_logged(heap, mem, ev, tso.blocking_queue, Ghost(st0), Ghost(done));
    proof {
        done = done.push(ScanStep::Visit(tso.blocking_queue));
    }
    visit_logged(heap, mem, ev, tso.trec, Ghost(st0), Ghost(done));
    proof {
        done = done.push(ScanStep::Visit(tso.trec));
    }
    visit_logged(heap, mem, ev, tso.stackobj, Ghost(st0), Ghost(done));
    proof {
        done = done.push(ScanStep::Visit(tso.stackobj));
    }
    visit_logged(heap, mem, ev, tso.link, Ghost(st0), Ghost(done));
    proof {
        done = done.push(ScanStep::Visit(tso.link));
    }
    if tso.why_blocked.has_block_info_closure() {
        visit_logged(heap, mem, ev, tso.block_info, Ghost(st0), Ghost(done));
        proof {
            done = done.push(ScanStep::Visit(tso.block_info));
        }
    }
    visit_logged(heap, mem, ev, tso.global_link, Ghost(st0), Ghost(done));
    proof {
        done = done.push(ScanStep::Visit(tso.global_link));
    }
    visit_logged(heap, mem, ev, tso.tso_link_prev, Ghost(st0), Ghost(done));
    proof {
        done = done.push(ScanStep::Visit(tso.tso_link_prev));
    }
    visit_logged(heap, mem, ev, tso.tso_link_next, Ghost(st0), Ghost(done));
    proof {
        done = done.push(ScanStep::Visit(tso.tso_link_next));
        assert(done =~= tso_plan(*tso));
    }
}

/// Whether the arguments of an application of `size` words can be scanned
/// under the info table of its function: the function is no partial
/// application, and a multi-word bitmap is found in the heap and covers
/// its own size and `size`.
pub open spec fn pap_payload_ready(heap: &Heap, fun_info: &StgFunInfoTable, size: nat) -> bool {
    &&& fun_info.i.type_ != StgClosureType::Pap
    &&& fun_info.f.fun_type == StgFunType::ArgGenBig ==> match heap.spec_large_bitmap(
        fun_info.f.large_bitmap_ref,
    ) {
        Some(bitmap) => size <= bitmap.size && bitmap.wf(),
        None => false,
    }
}

/// The steps of a scan of the `size` argument words of an application: the
/// bitmap is the one-word or the multi-word bitmap of the function's info
/// table for the generic layouts, and that of the pattern for the others.
pub open spec fn pap_payload_plan(
    heap: &Heap,
    fun_info: &StgFunInfoTable,
    payload: ClosurePayload,
    size: nat,
) -> Seq<ScanStep> {
    match fun_info.f.fun_type {
        StgFunType::ArgGen => small_bitmap_plan(payload, fun_info.f.small_bitmap, size),
        StgFunType::ArgGenBig => large_bitmap_plan(
            payload,
            heap.spec_large_bitmap(fun_info.f.large_bitmap_ref).unwrap().bitmap@,
            size,
        ),
        _ => small_bitmap_plan(payload, fun_info.f.fun_type.spec_get_small_bitmap(), size),
    }
}

/// Whether `fun_info` can describe `size` arguments.
pub fn check_pap_payload_ready(heap: &Heap, fun_info: &StgFunInfoTable, size: usize) -> (ready: bool)
    ensures
        ready == pap_payload_ready(heap, fun_info, size as nat),
{
    if fun_info.i.type_ == StgClosureType::Pap {
        return false;
    }
    match fun_info.f.fun_type {
        StgFunType::ArgGenBig => match heap.large_bitmap(fun_info.f.large_bitmap_ref) {
            Some(bitmap) => size <= bitmap.size && bitmap.is_wf(),
            None => false,
        },
        _ => true,
    }
}

/// Scans the `size` argument words of an application under the info table
/// of its function.
#[allow(non_snake_case)]
pub fn scan_PAP_payload(
    heap: &Heap,
    mem: &mut Memory,
    fun_info: &StgFunInfoTable,
    payload: &ClosurePayload,
    size: usize,
    ev: &mut Vec<GHCEdge>,
)
    requires
        pap_payload_ready(heap, fun_info, size as nat),
        payload.fits(size as int),
    ensures
        state_of(final(mem)@, final(ev)@) == run(
            heap,
            state_of(old(mem)@, old(ev)@),
            pap_payload_plan(heap, fun_info, *payload, size as nat),
        ),
{
    match fun_info.f.fun_type {
        StgFunType::ArgGen => {
            let small_bitmap: StgSmallBitmap = fun_info.f.small_bitmap;
            scan_small_bitmap(heap, mem, payload, small_bitmap, size, ev);
        },
        StgFunType::ArgGenBig => {
            let large_bitmap = heap.large_bitmap(fun_info.f.large_bitmap_ref).unwrap();
            scan_large_bitmap(heap, mem, payload, large_bitmap, size, ev);
        },
        _ => {
            let small_bitmap = fun_info.f.fun_type.get_small_bitmap();
            scan_small_bitmap(heap, mem, payload, small_bitmap, size, ev);
        },
    }
}

/// Number of elements of card `m` of an array of `n` elements: 128 for a
/// full card, what is left for the last one.
pub open spec fn card_len(n: int, m: int) -> int {
    if 128 * (m + 1) <= n {
        128
    } else {
        n - 128 * m
    }
}

/// The steps of a scan of card `m` of `array`: its elements are visited in
/// order, then its mark is cleared.
pub open spec fn card_plan(array: StgMutArrPtrs, m: int) -> Seq<ScanStep> {
    Seq::new(
        card_len(array.n_ptrs as int, m) as nat,
        |j: int| ScanStep::Visit(array.payload.spec_get_ref(128 * m + j)),
    ).push(ScanStep::ClearCard((array.card_table + m) as usize))
}

/// The steps of a scan of the first `k` cards of `array`.
pub open spec fn cards_plan(array: StgMutArrPtrs, k: nat) -> Seq<ScanStep>
    decreases k,
{
    if k == 0 {
        Seq::empty()
    } else {
        cards_plan(array, (k - 1) as nat) + card_plan(array, k - 1)
    }
}

/// The steps of a scan of a card-marked array: card after card.
pub open spec fn mut_arr_plan(array: StgMutArrPtrs) -> Seq<ScanStep> {
    cards_plan(array, card_count(array.n_ptrs as int) as nat)
}

/// The array's elements and card marks lie within the address space.
pub open spec fn mut_arr_wf(array: StgMutArrPtrs) -> bool {
    array.payload.fits(array.n_ptrs as int) && array.card_table + card_count(array.n_ptrs as int)
        <= usize::MAX
}

/// Whether the array's elements and card marks lie within the address
/// space.
pub fn check_mut_arr_wf(array: &StgMutArrPtrs) -> (b: bool)
    ensures
        b == mut_arr_wf(*array),
{
    let n_cards: usize = if array.n_ptrs % CARD_SIZE == 0 {
        array.n_ptrs / CARD_SIZE
    } else {
        array.n_ptrs / CARD_SIZE + 1
    };
    array.payload.check_fits(array.n_ptrs as u64) && n_cards <= usize::MAX - array.card_table
}

/// Scans a card-marked array of references: every element is visited once,
/// card by card, and the mark of each card is cleared after its elements.
pub fn scan_mut_arr_ptrs(heap: &Heap, mem: &mut Memory, array: &StgMutArrPtrs, ev: &mut Vec<GHCEdge>)
    requires
        mut_arr_wf(*array),
    ensures
        state_of(final(mem)@, final(ev)@) == run(
            heap,
            state_of(old(mem)@, old(ev)@),
            mut_arr_plan(*array),
        ),
{
    let ghost st0 = state_of(mem@, ev@);
    let n_ptrs = array.n_ptrs;
    let n_cards: usize = if n_ptrs % CARD_SIZE == 0 {
        n_ptrs / CARD_SIZE
    } else {
        n_ptrs / CARD_SIZE + 1
    };
    assert(n_cards == card_count(n_ptrs as int));
    let mut m: usize = 0;
    while m < n_cards
        invariant
            m <= n_cards,
            n_ptrs == array.n_ptrs,
            n_cards == card_count(n_ptrs as int),
            mut_arr_wf(*array),
            state_of(mem@, ev@) == run(heap, st0, cards_plan(*array, m as nat)),
        decreases n_cards - m,
    {
        let ghost st1 = state_of(mem@, ev@);
        let first: usize = m * CARD_SIZE;
        let end: usize = if n_ptrs - first < CARD_SIZE {
            n_ptrs
        } else {
            first + CARD_SIZE
        };
        let ghost elements = Seq::new(
            card_len(n_ptrs as int, m as int) as nat,
            |j: int| ScanStep::Visit(array.payload.spec_get_ref(128 * m + j)),
        );
        assert(end - first == card_len(n_ptrs as int, m as int));
        let mut p: usize = first;
        while p < end
            invariant
                first <= p <= end <= n_ptrs,
                first == 128 * m,
                n_ptrs == array.n_ptrs,
                mut_arr_wf(*array),
                elements.len() == end - first,
                forall|j: int|
                    0 <= j < elements.len() ==> #[trigger] elements[j] == ScanStep::Visit(
                        array.payload.spec_get_ref(128 * m + j),
                    ),
                state_of(mem@, ev@) == run(heap, st1, elements.take(p - first)),
            decreases end - p,
        {
            let edge = array.payload.get_ref(p);
            visit(heap, mem, ev, edge);
            proof {
                lemma_run_take(heap, st1, elements, p - first);
            }
            p = p + 1;
        }
        mem.clear_card(array.card_table + m);
        proof {
            let card = ScanStep::ClearCard((array.card_table + m) as usize);
            assert(elements.take(end - first) =~= elements);
            lemma_run_push(heap, st1, elements, card);
            assert(elements.push(card) == card_plan(*array, m as int));
            lemma_run_concat(heap, st0, cards_plan(*array, m as nat), card_plan(*array, m as int));
        }
        m = m + 1;
    }
}

/// Visiting and clearing distribute over concatenation.
pub proof fn lemma_visited_concat(a: Seq<ScanStep>, b: Seq<ScanStep>)
    ensures
        visited(a + b) == visited(a) + visited(b),
        cleared(a + b) == cleared(a) + cleared(b),
    decreases b.len(),
{
    if b.len() == 0 {
        assert(a + b =~= a);
        assert(visited(a) + visited(b) =~= visited(a));
        assert(cleared(a) + cleared(b) =~= cleared(a));
    } else {
        lemma_visited_concat(a, b.drop_last());
        assert((a + b).drop_last() =~= a + b.drop_last());
        assert((a + b).last() == b.last());
        assert(visited(a + b) =~= visited(a) + visited(b));
        assert(cleared(a + b) =~= cleared(a) + cleared(b));
    }
}

/// What the steps of one card visit and clear: the card's elements in
/// order, and the card's mark.
proof fn lemma_card_plan(array: StgMutArrPtrs, m: int)
    requires
        0 <= m < card_count(array.n_ptrs as int),
    ensures
        visited(card_plan(array, m)) == Seq::new(
            card_len(array.n_ptrs as int, m) as nat,
            |j: int| array.payload.spec_get_ref(128 * m + j),
        ),
        cleared(card_plan(array, m)) == seq![(array.card_table + m) as usize],
{
    let n = card_len(array.n_ptrs as int, m);
    let elements = Seq::new(
        n as nat,
        |j: int| ScanStep::Visit(array.payload.spec_get_ref(128 * m + j)),
    );
    lemma_visits_only(elements);
    let plan = card_plan(array, m);
    assert(plan.drop_last() =~= elements);
    assert(visited(plan) == visited(elements));
    assert(visited(elements) =~= Seq::new(
        n as nat,
        |j: int| array.payload.spec_get_ref(128 * m + j),
    ));
    assert(cleared(plan) =~= seq![(array.card_table + m) as usize]);
}

/// Steps that are all visits visit their locations in order and clear
/// nothing.
proof fn lemma_visits_only(steps: Seq<ScanStep>)
    requires
        forall|j: int| 0 <= j < steps.len() ==> #[trigger] steps[j] is Visit,
    ensures
        visited(steps).len() == steps.len(),
        forall|j: int|
            0 <= j < steps.len() ==> ScanStep::Visit(#[trigger] visited(steps)[j]) == steps[j],
        cleared(steps).len() == 0,
    decreases steps.len(),
{
    if steps.len() > 0 {
        lemma_visits_only(steps.drop_last());
    }
}

/// What the steps of the first `k` cards visit and clear.
proof fn lemma_cards_plan(array: StgMutArrPtrs, k: nat)
    requires
        k <= card_count(array.n_ptrs as int),
    ensures
        visited(cards_plan(array, k)) == array.payload.slots(
            if 128 * k <= array.n_ptrs {
                (128 * k) as int
            } else {
                array.n_ptrs as int
            },
        ),
        cleared(cards_plan(array, k)) == Seq::new(k, |m: int| (array.card_table + m) as usize),
    decreases k,
{
    if k == 0 {
        assert(visited(cards_plan(array, k)) =~= array.payload.slots(0));
        assert(cleared(cards_plan(array, k)) =~= Seq::new(
            k,
            |m: int| (array.card_table + m) as usize,
        ));
    } else {
        lemma_cards_plan(array, (k - 1) as nat);
        lemma_card_plan(array, k - 1);
        lemma_visited_concat(cards_plan(array, (k - 1) as nat), card_plan(array, k - 1));
        let upto: int = if 128 * k <= array.n_ptrs {
            (128 * k) as int
        } else {
            array.n_ptrs as int
        };
        assert(visited(cards_plan(array, k)) =~= array.payload.slots(upto));
        assert(cleared(cards_plan(array, k)) =~= Seq::new(
            k,
            |m: int| (array.card_table + m) as usize,
        ));
    }
}

/// Card coverage. A scan of a card-marked array of `n` elements visits the
/// elements `0` to `n - 1` in order, each once. The elements fall into
/// `ceil(n / 128)` cards: every card but the last holds 128 elements, the
/// last holds `n % 128`, or 128 where that is zero. The mark of every card
/// is cleared, in the order of the cards.
pub proof fn lemma_card_coverage(array: StgMutArrPtrs)
    ensures
        visited(mut_arr_plan(array)) == array.payload.slots(array.n_ptrs as int),
        cleared(mut_arr_plan(array)) == Seq::new(
            card_count(array.n_ptrs as int) as nat,
            |m: int| (array.card_table + m) as usize,
        ),
        card_count(array.n_ptrs as int) * 128 >= array.n_ptrs > (card_count(array.n_ptrs as int)
            - 1) * 128,
        forall|m: int|
            0 <= m < card_count(array.n_ptrs as int) - 1 ==> #[trigger] card_len(
                array.n_ptrs as int,
                m,
            ) == 128,
        array.n_ptrs > 0 ==> card_len(
            array.n_ptrs as int,
            card_count(array.n_ptrs as int) - 1,
        ) == (if array.n_ptrs % 128 == 0 {
            128
        } else {
            array.n_ptrs % 128
        }),
{
    lemma_cards_plan(array, card_count(array.n_ptrs as int) as nat);
}

/// After the scan of a card-marked array the mark of each of its cards is
/// zero, and every other card mark is what it was.
pub proof fn lemma_mut_arr_scan_clears(heap: &Heap, st: ScanState, array: StgMutArrPtrs, card: usize)
    requires
        mut_arr_wf(array),
    ensures
        run(heap, st, mut_arr_plan(array)).mem.card(card) == (if array.card_table <= card
            < array.card_table + card_count(array.n_ptrs as int) {
            0
        } else {
            st.mem.card(card)
        }),
{
    let plan = mut_arr_plan(array);
    lemma_card_coverage(array);
    lemma_run_cards(heap, st, plan, card);
    if array.card_table <= card < array.card_table + card_count(array.n_ptrs as int) {
        assert(cleared(plan)[card - array.card_table] == card);
    }
}

/// The steps of a scan of one stack frame. An update frame: its updatee. A
/// return frame: its words under its bitmap, then the static reference
/// table of its return address. A frame that returns into a function: the
/// function first, then as a return frame.
pub open spec fn frame_plan(frame: StackFrame) -> Seq<ScanStep> {
    match frame {
        StackFrame::UpdFrame(f) => seq![ScanStep::Visit(f.updatee)],
        StackFrame::RetSmall(f, bitmap) => small_bitmap_plan(
            f.payload,
            bitmap,
            bitmap.spec_size() as nat,
        ) + ret_srt_plan(f.info),
        StackFrame::RetBig(f, bitmap) => large_bitmap_plan(
            f.payload,
            bitmap.bitmap@,
            bitmap.size as nat,
        ) + ret_srt_plan(f.info),
        StackFrame::RetFunSmall(f, bitmap) => seq![ScanStep::Visit(f.fun)] + small_bitmap_plan(
            f.payload,
            bitmap,
            bitmap.spec_size() as nat,
        ) + ret_srt_plan(f.info),
        StackFrame::RetFunLarge(f, bitmap) => seq![ScanStep::Visit(f.fun)] + large_bitmap_plan(
            f.payload,
            bitmap.bitmap@,
            bitmap.size as nat,
        ) + ret_srt_plan(f.info),
    }
}

/// The steps of a scan of a stack: frame after frame, from the top.
pub open spec fn frames_plan(frames: Seq<StackFrame>) -> Seq<ScanStep>
    decreases frames.len(),
{
    if frames.len() == 0 {
        Seq::empty()
    } else {
        frames_plan(frames.drop_last()) + frame_plan(frames.last())
    }
}

/// Hands on the static reference table of a return address in a scan that
/// has taken the steps `done` from `st0`.
fn scan_srt_logged(
    heap: &Heap,
    mem: &Memory,
    ret_info_table: &StgRetInfoTable,
    ev: &mut Vec<GHCEdge>,
    Ghost(st0): Ghost<ScanState>,
    Ghost(done): Ghost<Seq<ScanStep>>,
)
    requires
        state_of(mem@, old(ev)@) == run(heap, st0, done),
    ensures
        state_of(mem@, final(ev)@) == run(heap, st0, done + ret_srt_plan(*ret_info_table)),
{
    scan_srt(ret_info_table, ev);
    proof {
        match ret_info_table.srt {
            Some(_) => {
                let step = ScanStep::Emit(GHCEdge::RetSrtRef(*ret_info_table));
                lemma_run_push(heap, st0, done, step);
                assert(done + ret_srt_plan(*ret_info_table) =~= done.push(step));
            },
            None => {
                assert(done + ret_srt_plan(*ret_info_table) =~= done);
            },
        }
    }
}

/// Scans one stack frame.
fn scan_frame(heap: &Heap, mem: &mut Memory, frame: &StackFrame, ev: &mut Vec<GHCEdge>)
    requires
        frame.wf(),
    ensures
        state_of(final(mem)@, final(ev)@) == run(
            heap,
            state_of(old(mem)@, old(ev)@),
            frame_plan(*frame),
        ),
{
    let ghost st0 = state_of(mem@, ev@);
    match frame {
        StackFrame::UpdFrame(f) => {
            visit(heap, mem, ev, f.updatee);
            proof {
                lemma_run_one(heap, st0, ScanStep::Visit(f.updatee));
            }
        },
        StackFrame::RetSmall(f, bitmap) => {
            scan_small_bitmap(heap, mem, &f.payload, *bitmap, bitmap.size(), ev);
            let ghost fields = small_bitmap_plan(f.payload, *bitmap, bitmap.spec_size() as nat);
            scan_srt_logged(heap, mem, &f.info, ev, Ghost(st0), Ghost(fields));
        },
        StackFrame::RetBig(f, bitmap) => {
            let size: usize = bitmap.size;
            scan_large_bitmap(heap, mem, &f.payload, bitmap, size, ev);
            let ghost fields = large_bitmap_plan(f.payload, bitmap.bitmap@, bitmap.size as nat);
            scan_srt_logged(heap, mem, &f.info, ev, Ghost(st0), Ghost(fields));
        },
        StackFrame::RetFunSmall(f, bitmap) => {
            visit(heap, mem, ev, f.fun);
            let ghost st1 = state_of(mem@, ev@);
            scan_small_bitmap(heap, mem, &f.payload, *bitmap, bitmap.size(), ev);
            let ghost fields = small_bitmap_plan(f.payload, *bitmap, bitmap.spec_size() as nat);
            proof {
                lemma_run_one(heap, st0, ScanStep::Visit(f.fun));
                lemma_run_concat(heap, st0, seq![ScanStep::Visit(f.fun)], fields);
            }
            scan_srt_logged(
                heap,
                mem,
                &f.info,
                ev,
                Ghost(st0),
                Ghost(seq![ScanStep::Visit(f.fun)] + fields),
            );
        },
        StackFrame::RetFunLarge(f, bitmap) => {
            visit(heap, mem, ev, f.fun);
            let size: usize = bitmap.size;
            scan_large_bitmap(heap, mem, &f.payload, bitmap, size, ev);
            let ghost fields = large_bitmap_plan(f.payload, bitmap.bitmap@, bitmap.size as nat);
            proof {
                lemma_run_one(heap, st0, ScanStep::Visit(f.fun));
                lemma_run_concat(heap, st0, seq![ScanStep::Visit(f.fun)], fields);
            }
            scan_srt_logged(
                heap,
                mem,
                &f.info,
                ev,
                Ghost(st0),
                Ghost(seq![ScanStep::Visit(f.fun)] + fields),
            );
        },
    }
}

/// Scans the frames of a stack, from the top.
pub fn scan_stack(heap: &Heap, mem: &mut Memory, stack: &Vec<StackFrame>, ev: &mut Vec<GHCEdge>)
    requires
        frames_wf(stack@),
    ensures
        state_of(final(mem)@, final(ev)@) == run(
            heap,
            state_of(old(mem)@, old(ev)@),
            frames_plan(stack@),
        ),
{
    let ghost st0 = state_of(mem@, ev@);
    let mut k: usize = 0;
    while k < stack.len()
        invariant
            k <= stack@.len(),
            frames_wf(stack@),
            state_of(mem@, ev@) == run(heap, st0, frames_plan(stack@.take(k as int))),
        decreases stack@.len() - k,
    {
        scan_frame(heap, mem, &stack[k], ev);
        proof {
            assert(stack@.take(k + 1).drop_last() =~= stack@.take(k as int));
            lemma_run_concat(
                heap,
                st0,
                frames_plan(stack@.take(k as int)),
                frame_plan(stack@[k as int]),
            );
        }
        k = k + 1;
    }
    proof {
        assert(stack@.take(stack@.len() as int) =~= stack@);
    }
}

/// For each entry of the stable-pointer table, whether it is a root: it
/// holds an address that is not null and lies outside the table's own
/// storage. An entry that points into the table is a free entry.
pub open spec fn stable_root_flags(mem: MemoryView, table: StablePtrTable) -> Seq<bool> {
    Seq::new(
        table.size as nat,
        |i: int|
            mem.load(table.entries.spec_get_ref(i)) != 0 && !table.holds_address(
                mem.load(table.entries.spec_get_ref(i)),
            ),
    )
}

/// The edges of the entries of the stable-pointer table at the positions
/// `indices`.
pub open spec fn entry_edges(table: StablePtrTable, indices: Seq<int>) -> Seq<GHCEdge> {
    Seq::new(indices.len(), |j: int| GHCEdge::ClosureRef(table.entries.spec_get_ref(indices[j])))
}

/// The roots of the stable-pointer table: the edge of every entry that is
/// a root, in the order of the table.
pub open spec fn stable_ptr_table_roots(mem: MemoryView, table: StablePtrTable) -> Seq<GHCEdge> {
    entry_edges(table, set_indices(stable_root_flags(mem, table)))
}

/// The roots of the stable-pointer table.
pub fn get_stable_ptr_table_roots(mem: &Memory, table: &StablePtrTable) -> (roots: Vec<GHCEdge>)
    requires
        table.wf(),
    ensures
        roots@ == stable_ptr_table_roots(mem@, *table),
{
    let mut roots: Vec<GHCEdge> = Vec::new();
    let end: usize = table.base + 8 * table.size;
    let entries = iter_stable_ptr_table(mem, table);
    let ghost flags = stable_root_flags(mem@, *table);
    let mut i: usize = 0;
    while i < table.size
        invariant
            i <= table.size,
            table.wf(),
            end == table.base + 8 * table.size,
            entries@.len() == table.size,
            forall|k: int|
                0 <= k < table.size ==> (#[trigger] entries@[k]).addr == mem@.load(
                    table.entries.spec_get_ref(k),
                ),
            flags == stable_root_flags(mem@, *table),
            roots@ == entry_edges(*table, set_indices(flags.take(i as int))),
        decreases table.size - i,
    {
        let addr = entries[i].addr;
        proof {
            lemma_set_indices_take(flags, i as int);
        }
        if addr != 0 && (addr < table.base || addr >= end) {
            push_root(&mut roots, table.entries.get_ref(i));
            proof {
                assert(roots@ =~= entry_edges(*table, set_indices(flags.take(i + 1))));
            }
        }
        i = i + 1;
    }
    proof {
        assert(flags.take(table.size as int) =~= flags);
    }
    roots
}

} // verus!
