//! The weak-reference processor: classifies the weak references of a cycle
//! as live or dead, round by round, and hands the dead ones to the
//! runtime at the end of the cycle.

use crate::collector::{Liveness, LivenessView};
use crate::ghc::{reset_weak_lists, reset_weak_ptr_lists, Capability};
use crate::memory::{Memory, MemoryView};
use crate::selection::{
    lemma_set_indices, lemma_set_indices_all, lemma_set_indices_split, lemma_set_indices_take,
    set_indices,
};
use crate::stg_closures::{ObjectReference, StgWeak, TaggedClosureRef};
use crate::util::is_held_alive;
use vstd::prelude::*;

verus! {

/// A weak reference: the address of its record, which is its identity, and
/// the locations of the record's fields.
#[derive(Clone, Copy, Debug, PartialEq, Eq)]
pub struct WeakRef {
    pub addr: ObjectReference,
    pub weak: StgWeak,
}

/// The object that the key field of `w` refers to.
pub open spec fn key_of(w: WeakRef, mem: MemoryView) -> ObjectReference {
    TaggedClosureRef(mem.load(w.weak.key)).spec_to_object_reference()
}

/// The object that the value field of `w` refers to.
pub open spec fn value_of(w: WeakRef, mem: MemoryView) -> ObjectReference {
    TaggedClosureRef(mem.load(w.weak.value)).spec_to_object_reference()
}

/// The object that the finalizer field of `w` refers to.
pub open spec fn finalizer_of(w: WeakRef, mem: MemoryView) -> ObjectReference {
    TaggedClosureRef(mem.load(w.weak.finalizer)).spec_to_object_reference()
}

/// The object that the native-finalizer field of `w` refers to.
pub open spec fn cfinalizers_of(w: WeakRef, mem: MemoryView) -> ObjectReference {
    TaggedClosureRef(mem.load(w.weak.cfinalizers)).spec_to_object_reference()
}

/// Whether some reference of `refs` has the identity `addr`.
pub open spec fn has_addr(refs: Seq<WeakRef>, addr: ObjectReference) -> bool {
    exists|i: int| 0 <= i < refs.len() && (#[trigger] refs[i]).addr == addr
}

/// No two references of `refs` have the same identity.
pub open spec fn distinct_addrs(refs: Seq<WeakRef>) -> bool {
    forall|i: int, j: int|
        0 <= i < j < refs.len() ==> (#[trigger] refs[i]).addr != (#[trigger] refs[j]).addr
}

/// No reference of `a` has the identity of one of `b`.
pub open spec fn disjoint_addrs(a: Seq<WeakRef>, b: Seq<WeakRef>) -> bool {
    forall|i: int, j: int|
        0 <= i < a.len() && 0 <= j < b.len() ==> (#[trigger] a[i]).addr != (#[trigger] b[j]).addr
}

/// For each reference, whether the trace has reached its key.
pub open spec fn reached_flags(refs: Seq<WeakRef>, mem: MemoryView, lv: LivenessView) -> Seq<bool> {
    Seq::new(refs.len(), |i: int| lv.is_reachable(key_of(refs[i], mem)))
}

/// For each reference, whether the trace has not reached its key.
pub open spec fn unreached_flags(refs: Seq<WeakRef>, mem: MemoryView, lv: LivenessView) -> Seq<
    bool,
> {
    Seq::new(refs.len(), |i: int| !lv.is_reachable(key_of(refs[i], mem)))
}

/// The references of `refs` at the positions `indices`, in that order.
pub open spec fn select(refs: Seq<WeakRef>, indices: Seq<int>) -> Seq<WeakRef> {
    Seq::new(indices.len(), |j: int| refs[indices[j]])
}

/// The references of `refs` whose key the trace has reached, in the order
/// of `refs`.
pub open spec fn promoted(refs: Seq<WeakRef>, mem: MemoryView, lv: LivenessView) -> Seq<WeakRef> {
    select(refs, set_indices(reached_flags(refs, mem, lv)))
}

/// The references of `refs` whose key the trace has not reached, in the
/// order of `refs`.
pub open spec fn remaining(refs: Seq<WeakRef>, mem: MemoryView, lv: LivenessView) -> Seq<WeakRef> {
    select(refs, set_indices(unreached_flags(refs, mem, lv)))
}

/// The objects that are kept alive for `refs`: for each reference in
/// order, its value, its finalizer and its native finalizers.
pub open spec fn kept_alive(refs: Seq<WeakRef>, mem: MemoryView) -> Seq<ObjectReference>
    decreases refs.len(),
{
    if refs.len() == 0 {
        Seq::empty()
    } else {
        kept_alive(refs.drop_last(), mem).push(value_of(refs.last(), mem)).push(
            finalizer_of(refs.last(), mem),
        ).push(cfinalizers_of(refs.last(), mem))
    }
}

/// The memory after the first `n` references of `dead` have been linked
/// into a list: the link field of each holds the address of the one before
/// it, that of the first the null reference.
pub open spec fn linked(mem: MemoryView, dead: Seq<WeakRef>, n: nat) -> MemoryView
    decreases n,
{
    if n == 0 {
        mem
    } else {
        linked(mem, dead, (n - 1) as nat).store(
            dead[n - 1].weak.link,
            if n == 1 {
                0
            } else {
                dead[n - 2].addr.0
            },
        )
    }
}

/// The three sets of the processor, each in the order in which its
/// references came.
pub struct WeakStateView {
    /// References not yet classified: their keys may be live.
    pub weak_refs: Seq<WeakRef>,
    /// References classified live: their keys are reached.
    pub live_weak_refs: Seq<WeakRef>,
    /// References classified dead: they are to be finalized.
    pub dead_weak_refs: Seq<WeakRef>,
}

impl WeakStateView {
    /// Each set holds a reference once, and no reference is both
    /// unclassified and live.
    pub open spec fn wf(self) -> bool {
        &&& distinct_addrs(self.weak_refs)
        &&& distinct_addrs(self.live_weak_refs)
        &&& distinct_addrs(self.dead_weak_refs)
        &&& disjoint_addrs(self.weak_refs, self.live_weak_refs)
    }

    /// The sets after `w` has been registered: it joins the unclassified
    /// references unless it is among them or is live already.
    pub open spec fn add_weak(self, w: WeakRef) -> WeakStateView {
        if has_addr(self.weak_refs, w.addr) || has_addr(self.live_weak_refs, w.addr) {
            self
        } else {
            WeakStateView { weak_refs: self.weak_refs.push(w), ..self }
        }
    }

    /// Whether a round of classification promotes a reference.
    pub open spec fn round_promotes(self, mem: MemoryView, lv: LivenessView) -> bool {
        promoted(self.weak_refs, mem, lv).len() > 0
    }

    /// The sets after a round of classification: the unclassified
    /// references whose key is reached become live, the others stay.
    pub open spec fn classify_round(self, mem: MemoryView, lv: LivenessView) -> WeakStateView {
        WeakStateView {
            weak_refs: remaining(self.weak_refs, mem, lv),
            live_weak_refs: self.live_weak_refs + promoted(self.weak_refs, mem, lv),
            dead_weak_refs: self.dead_weak_refs,
        }
    }

    /// The objects that a round of classification asks the collector to
    /// keep alive: value, finalizer and native finalizers of each promoted
    /// reference and, in a round that promotes none, of each reference that
    /// stays unclassified, which the end of the cycle makes dead.
    pub open spec fn round_traces(self, mem: MemoryView, lv: LivenessView) -> Seq<
        ObjectReference,
    > {
        if self.round_promotes(mem, lv) {
            kept_alive(promoted(self.weak_refs, mem, lv), mem)
        } else {
            kept_alive(remaining(self.weak_refs, mem, lv), mem)
        }
    }

    /// The sets after the end of a cycle: what stayed unclassified is dead,
    /// what was live is unclassified for the next cycle.
    pub open spec fn finish_cycle(self) -> WeakStateView {
        WeakStateView {
            weak_refs: self.live_weak_refs,
            live_weak_refs: Seq::empty(),
            dead_weak_refs: self.weak_refs,
        }
    }

    /// The check at the end of a cycle: value, finalizer and native
    /// finalizers of every reference, unclassified or live, lie in no space
    /// of the collector or have been reached.
    pub open spec fn finalization_ready(self, mem: MemoryView, lv: LivenessView) -> bool {
        &&& all_held_alive(self.weak_refs, mem, lv)
        &&& all_held_alive(self.live_weak_refs, mem, lv)
    }
}

/// Value, finalizer and native finalizers of every reference of `refs` lie
/// in no space of the collector or have been reached.
pub open spec fn all_held_alive(refs: Seq<WeakRef>, mem: MemoryView, lv: LivenessView) -> bool {
    forall|i: int|
        0 <= i < refs.len() ==> {
            &&& lv.holds_alive(value_of(#[trigger] refs[i], mem))
            &&& lv.holds_alive(finalizer_of(refs[i], mem))
            &&& lv.holds_alive(cfinalizers_of(refs[i], mem))
        }
}

/// The references that `select` takes at strictly increasing positions of
/// distinct references are distinct, and each is one of `refs`.
proof fn lemma_select_distinct(refs: Seq<WeakRef>, flags: Seq<bool>)
    requires
        distinct_addrs(refs),
        flags.len() == refs.len(),
    ensures
        distinct_addrs(select(refs, set_indices(flags))),
        select(refs, set_indices(flags)).len() <= refs.len(),
        forall|j: int|
            0 <= j < set_indices(flags).len() ==> 0 <= #[trigger] set_indices(flags)[j]
                < refs.len() && flags[set_indices(flags)[j]],
{
    lemma_set_indices(flags);
    let idx = set_indices(flags);
    let sel = select(refs, idx);
    assert forall|j: int| 0 <= j < idx.len() implies 0 <= #[trigger] idx[j] < refs.len()
        && flags[idx[j]] by {
        assert(idx.contains(idx[j]));
    }
    assert forall|i: int, j: int| 0 <= i < j < sel.len() implies (#[trigger] sel[i]).addr != (
    #[trigger] sel[j]).addr by {
        assert(idx[i] < idx[j]);
        assert(idx.contains(idx[i]));
        assert(idx.contains(idx[j]));
    }
}

/// A round of classification keeps the sets well formed.
pub proof fn lemma_round_wf(s: WeakStateView, mem: MemoryView, lv: LivenessView)
    requires
        s.wf(),
    ensures
        s.classify_round(mem, lv).wf(),
{
    let refs = s.weak_refs;
    let up = reached_flags(refs, mem, lv);
    let down = unreached_flags(refs, mem, lv);
    lemma_select_distinct(refs, up);
    lemma_select_distinct(refs, down);
    let pro = promoted(refs, mem, lv);
    let rem = remaining(refs, mem, lv);
    let live = s.live_weak_refs + pro;
    assert forall|i: int, j: int| 0 <= i < j < live.len() implies (#[trigger] live[i]).addr != (
    #[trigger] live[j]).addr by {
        if j < s.live_weak_refs.len() {
        } else if i < s.live_weak_refs.len() {
            let k = j - s.live_weak_refs.len();
            assert(pro[k] == refs[set_indices(up)[k]]);
        } else {
            let a = i - s.live_weak_refs.len();
            let b = j - s.live_weak_refs.len();
            assert(pro[a].addr != pro[b].addr);
        }
    }
    assert forall|i: int, j: int| 0 <= i < rem.len() && 0 <= j < live.len() implies (
    #[trigger] rem[i]).addr != (#[trigger] live[j]).addr by {
        assert(rem[i] == refs[set_indices(down)[i]]);
        if j < s.live_weak_refs.len() {
        } else {
            let k = j - s.live_weak_refs.len();
            assert(pro[k] == refs[set_indices(up)[k]]);
            let x = set_indices(down)[i];
            let y = set_indices(up)[k];
            assert(down[x] && up[y]);
            assert(x != y);
            if x < y {
                assert(refs[x].addr != refs[y].addr);
            } else {
                assert(refs[y].addr != refs[x].addr);
            }
        }
    }
}

/// Whether a reference of `refs` has the identity `addr`.
fn find_addr(refs: &Vec<WeakRef>, addr: ObjectReference) -> (found: bool)
    ensures
        found == has_addr(refs@, addr),
{
    let mut i: usize = 0;
    while i < refs.len()
        invariant
            i <= refs@.len(),
            forall|k: int| 0 <= k < i ==> (#[trigger] refs@[k]).addr != addr,
        decreases refs@.len() - i,
    {
        if refs[i].addr.0 == addr.0 {
            return true;
        }
        i = i + 1;
    }
    false
}

/// Asks the collector to keep alive the value, the finalizer and the
/// native finalizers of `w`.
fn keep_alive(w: &WeakRef, mem: &Memory, traced: &mut Vec<ObjectReference>)
    ensures
        final(traced)@ == old(traced)@.push(value_of(*w, mem@)).push(finalizer_of(*w, mem@)).push(
            cfinalizers_of(*w, mem@),
        ),
{
    traced.push(TaggedClosureRef(mem.load(w.weak.value)).to_object_reference());
    traced.push(TaggedClosureRef(mem.load(w.weak.finalizer)).to_object_reference());
    traced.push(TaggedClosureRef(mem.load(w.weak.cfinalizers)).to_object_reference());
}

/// Whether value, finalizer and native finalizers of every reference of
/// `refs` pass the finalization check.
fn check_held_alive(refs: &Vec<WeakRef>, mem: &Memory, liveness: &Liveness) -> (ok: bool)
    ensures
        ok == all_held_alive(refs@, mem@, liveness@),
{
    let mut i: usize = 0;
    while i < refs.len()
        invariant
            i <= refs@.len(),
            all_held_alive(refs@.take(i as int), mem@, liveness@),
        decreases refs@.len() - i,
    {
        let w = refs[i];
        let value = TaggedClosureRef(mem.load(w.weak.value)).to_object_reference();
        let finalizer = TaggedClosureRef(mem.load(w.weak.finalizer)).to_object_reference();
        let cfinalizers = TaggedClosureRef(mem.load(w.weak.cfinalizers)).to_object_reference();
        if !(is_held_alive(liveness, value) && is_held_alive(liveness, finalizer) && is_held_alive(
            liveness,
            cfinalizers,
        )) {
            assert(refs@[i as int] == w);
            return false;
        }
        proof {
            assert forall|k: int| 0 <= k < i + 1 implies {
                &&& liveness@.holds_alive(value_of(#[trigger] refs@.take(i + 1)[k], mem@))
                &&& liveness@.holds_alive(finalizer_of(refs@.take(i + 1)[k], mem@))
                &&& liveness@.holds_alive(cfinalizers_of(refs@.take(i + 1)[k], mem@))
            } by {
                if k < i {
                    assert(refs@.take(i as int)[k] == refs@.take(i + 1)[k]);
                }
            }
        }
        i = i + 1;
    }
    proof {
        assert(refs@.take(refs@.len() as int) =~= refs@);
    }
    true
}

/// The state of the weak-reference processor.
pub struct WeakState {
    /// Weak references whose keys may be live.
    weak_refs: Vec<WeakRef>,
    /// Weak references which are known to have live keys.
    live_weak_refs: Vec<WeakRef>,
    /// Weak references which are to be finalized.
    dead_weak_refs: Vec<WeakRef>,
}

impl View for WeakState {
    type V = WeakStateView;

    closed spec fn view(&self) -> WeakStateView {
        WeakStateView {
            weak_refs: self.weak_refs@,
            live_weak_refs: self.live_weak_refs@,
            dead_weak_refs: self.dead_weak_refs@,
        }
    }
}

impl WeakState {
    /// The sets are well formed.
    pub open spec fn wf(&self) -> bool {
        self@.wf()
    }

    /// A processor that knows no weak reference.
    pub fn new() -> (s: WeakState)
        ensures
            s.wf(),
            s@.weak_refs.len() == 0,
            s@.live_weak_refs.len() == 0,
            s@.dead_weak_refs.len() == 0,
    {
        WeakState { weak_refs: Vec::new(), live_weak_refs: Vec::new(), dead_weak_refs: Vec::new() }
    }

    /// Registers `weak`: it joins the unclassified references unless it is
    /// among them or has been classified live in this cycle.
    pub fn add_weak(&mut self, weak: WeakRef)
        requires
            old(self).wf(),
        ensures
            final(self).wf(),
            final(self)@ == old(self)@.add_weak(weak),
    {
        if !find_addr(&self.weak_refs, weak.addr) && !find_addr(&self.live_weak_refs, weak.addr) {
            self.weak_refs.push(weak);
        }
    }

    /// The unclassified references, in the order in which they came.
    pub fn unclassified(&self) -> (refs: Vec<WeakRef>)
        ensures
            refs@ == self@.weak_refs,
    {
        copy_refs(&self.weak_refs)
    }

    /// The live references, in the order in which they were promoted.
    pub fn live(&self) -> (refs: Vec<WeakRef>)
        ensures
            refs@ == self@.live_weak_refs,
    {
        copy_refs(&self.live_weak_refs)
    }

    /// The dead references, in the order in which they came.
    pub fn dead(&self) -> (refs: Vec<WeakRef>)
        ensures
            refs@ == self@.dead_weak_refs,
    {
        copy_refs(&self.dead_weak_refs)
    }

    /// Links the dead references into a list through their link fields, the
    /// last one first, forgets them, and returns the head of the list: the
    /// null reference where there is none.
    pub fn get_dead_weaks(&mut self, mem: &mut Memory) -> (head: ObjectReference)
        requires
            old(self).wf(),
        ensures
            final(self).wf(),
            final(self)@.dead_weak_refs.len() == 0,
            final(self)@.weak_refs == old(self)@.weak_refs,
            final(self)@.live_weak_refs == old(self)@.live_weak_refs,
            final(mem)@ == linked(
                old(mem)@,
                old(self)@.dead_weak_refs,
                old(self)@.dead_weak_refs.len(),
            ),
            head == (if old(self)@.dead_weak_refs.len() == 0 {
                ObjectReference(0)
            } else {
                old(self)@.dead_weak_refs.last().addr
            }),
    {
        let mut last = ObjectReference(0);
        let mut i: usize = 0;
        while i < self.dead_weak_refs.len()
            invariant
                i <= self.dead_weak_refs@.len(),
                *self == *old(self),
                mem@ == linked(old(mem)@, self.dead_weak_refs@, i as nat),
                last == (if i == 0 {
                    ObjectReference(0)
                } else {
                    self.dead_weak_refs@[i - 1].addr
                }),
            decreases self.dead_weak_refs@.len() - i,
        {
            let weak = self.dead_weak_refs[i];
            mem.store(weak.weak.link, last.0);
            last = weak.addr;
            i = i + 1;
        }
        self.dead_weak_refs.clear();
        last
    }

    /// One round of classification. Every unclassified reference whose key
    /// the trace has reached becomes live, and its value, finalizer and
    /// native finalizers are handed to `traced` to be kept alive. Returns
    /// whether a reference was promoted. A round that promotes none hands
    /// value, finalizer and native finalizers of the references that stay
    /// unclassified to `traced`: the end of the cycle makes them dead.
    pub fn process_weak_refs(
        &mut self,
        mem: &Memory,
        liveness: &Liveness,
        traced: &mut Vec<ObjectReference>,
    ) -> (again: bool)
        requires
            old(self).wf(),
        ensures
            final(self).wf(),
            final(self)@ == old(self)@.classify_round(mem@, liveness@),
            again == old(self)@.round_promotes(mem@, liveness@),
            final(traced)@ == old(traced)@ + old(self)@.round_traces(mem@, liveness@),
    {
        let ghost refs = self.weak_refs@;
        let ghost up = reached_flags(refs, mem@, liveness@);
        let ghost down = unreached_flags(refs, mem@, liveness@);
        let mut remaining_weak_refs: Vec<WeakRef> = Vec::new();
        let mut done = true;
        let mut i: usize = 0;
        while i < self.weak_refs.len()
            invariant
                i <= refs.len(),
                self.weak_refs@ == refs,
                self.dead_weak_refs@ == old(self).dead_weak_refs@,
                up == reached_flags(refs, mem@, liveness@),
                down == unreached_flags(refs, mem@, liveness@),
                remaining_weak_refs@ == select(refs, set_indices(down.take(i as int))),
                self.live_weak_refs@ == old(self).live_weak_refs@ + select(
                    refs,
                    set_indices(up.take(i as int)),
                ),
                traced@ == old(traced)@ + kept_alive(
                    select(refs, set_indices(up.take(i as int))),
                    mem@,
                ),
                done == (select(refs, set_indices(up.take(i as int))).len() == 0),
            decreases refs.len() - i,
        {
            let weak = self.weak_refs[i];
            let key_ref = TaggedClosureRef(mem.load(weak.weak.key)).to_object_reference();
            proof {
                lemma_set_indices_take(up, i as int);
                lemma_set_indices_take(down, i as int);
            }
            let ghost before = select(refs, set_indices(up.take(i as int)));
            let ghost stay = select(refs, set_indices(down.take(i as int)));
            if liveness.is_reachable(key_ref) {
                self.live_weak_refs.push(weak);
                keep_alive(&weak, mem, traced);
                done = false;
                proof {
                    let after = select(refs, set_indices(up.take(i + 1)));
                    assert(after =~= before.push(weak));
                    assert(after.drop_last() =~= before);
                    assert(self.live_weak_refs@ =~= old(self).live_weak_refs@ + after);
                    assert(traced@ =~= old(traced)@ + kept_alive(after, mem@));
                }
            } else {
                remaining_weak_refs.push(weak);
                proof {
                    assert(select(refs, set_indices(down.take(i + 1))) =~= stay.push(weak));
                }
            }
            i = i + 1;
        }
        proof {
            assert(up.take(refs.len() as int) =~= up);
            assert(down.take(refs.len() as int) =~= down);
            lemma_round_wf(old(self)@, mem@, liveness@);
        }
        self.weak_refs = remaining_weak_refs;
        if done {
            let ghost base = traced@;
            let mut j: usize = 0;
            while j < self.weak_refs.len()
                invariant
                    j <= self.weak_refs@.len(),
                    self.weak_refs@ == remaining(refs, mem@, liveness@),
                    traced@ == base + kept_alive(self.weak_refs@.take(j as int), mem@),
                decreases self.weak_refs@.len() - j,
            {
                let weak = self.weak_refs[j];
                keep_alive(&weak, mem, traced);
                proof {
                    assert(self.weak_refs@.take(j + 1).drop_last() =~= self.weak_refs@.take(
                        j as int,
                    ));
                    assert(traced@ =~= base + kept_alive(self.weak_refs@.take(j + 1), mem@));
                }
                j = j + 1;
            }
            proof {
                assert(self.weak_refs@.take(self.weak_refs@.len() as int) =~= self.weak_refs@);
                assert(kept_alive(promoted(refs, mem@, liveness@), mem@) =~= Seq::empty());
                assert(traced@ =~= old(traced)@ + old(self)@.round_traces(mem@, liveness@));
            }
        }
        !done
    }

    /// Whether the check at the end of a cycle passes in the memory `mem`.
    pub fn finalization_ready(&self, mem: &Memory, liveness: &Liveness) -> (ok: bool)
        ensures
            ok == self@.finalization_ready(mem@, liveness@),
    {
        check_held_alive(&self.weak_refs, mem, liveness) && check_held_alive(
            &self.live_weak_refs,
            mem,
            liveness,
        )
    }

    /// Ends the cycle. What stayed unclassified is dead, what was live is
    /// unclassified for the next cycle, and the weak-reference list of
    /// every capability is emptied. Returns the native finalizers of the
    /// dead references, in their order, for the runtime to run.
    ///
    /// The dead references of the cycle before must have been taken, and
    /// the check at the end of the cycle must pass in the memory that the
    /// emptied lists leave: a failure of either is an error of the
    /// collector's integration.
    pub fn finish_gc_cycle(
        &mut self,
        mem: &mut Memory,
        caps: &Vec<Capability>,
        liveness: &Liveness,
    ) -> (native: Vec<ObjectReference>)
        requires
            old(self).wf(),
            old(self)@.dead_weak_refs.len() == 0,
            old(self)@.finalization_ready(
                reset_weak_lists(old(mem)@, caps@, caps@.len()),
                liveness@,
            ),
        ensures
            final(self).wf(),
            final(self)@ == old(self)@.finish_cycle(),
            final(mem)@ == reset_weak_lists(old(mem)@, caps@, caps@.len()),
            native@ == Seq::new(
                old(self)@.weak_refs.len(),
                |i: int| cfinalizers_of(old(self)@.weak_refs[i], final(mem)@),
            ),
            all_held_alive(final(self)@.dead_weak_refs, final(mem)@, liveness@),
            all_held_alive(final(self)@.weak_refs, final(mem)@, liveness@),
    {
        // What remains unclassified at this point has an unreachable key.
        std::mem::swap(&mut self.weak_refs, &mut self.dead_weak_refs);
        // Prepare for the next cycle.
        std::mem::swap(&mut self.live_weak_refs, &mut self.weak_refs);
        reset_weak_ptr_lists(mem, caps);
        self.live_weak_refs.clear();
        let mut native: Vec<ObjectReference> = Vec::new();
        let mut i: usize = 0;
        while i < self.dead_weak_refs.len()
            invariant
                i <= self.dead_weak_refs@.len(),
                native@ == Seq::new(
                    i as nat,
                    |k: int| cfinalizers_of(self.dead_weak_refs@[k], mem@),
                ),
            decreases self.dead_weak_refs@.len() - i,
        {
            let weak = self.dead_weak_refs[i];
            native.push(TaggedClosureRef(mem.load(weak.weak.cfinalizers)).to_object_reference());
            i = i + 1;
            assert(native@ =~= Seq::new(
                i as nat,
                |k: int| cfinalizers_of(self.dead_weak_refs@[k], mem@),
            ));
        }
        native
    }
}

/// A copy of `refs`.
fn copy_refs(refs: &Vec<WeakRef>) -> (copy: Vec<WeakRef>)
    ensures
        copy@ == refs@,
{
    let mut copy: Vec<WeakRef> = Vec::new();
    let mut i: usize = 0;
    while i < refs.len()
        invariant
            i <= refs@.len(),
            copy@ == refs@.take(i as int),
        decreases refs@.len() - i,
    {
        copy.push(refs[i]);
        i = i + 1;
        assert(copy@ =~= refs@.take(i as int));
    }
    assert(refs@.take(refs@.len() as int) =~= refs@);
    copy
}

/// What is kept alive for `refs` holds value, finalizer and native
/// finalizers of each of them.
pub proof fn lemma_kept_alive_covers(refs: Seq<WeakRef>, mem: MemoryView, i: int)
    requires
        0 <= i < refs.len(),
    ensures
        kept_alive(refs, mem).contains(value_of(refs[i], mem)),
        kept_alive(refs, mem).contains(finalizer_of(refs[i], mem)),
        kept_alive(refs, mem).contains(cfinalizers_of(refs[i], mem)),
        kept_alive(refs, mem).len() == 3 * refs.len(),
    decreases refs.len(),
{
    let all = kept_alive(refs, mem);
    let n = kept_alive(refs.drop_last(), mem).len() as int;
    if refs.len() > 1 {
        lemma_kept_alive_covers(refs.drop_last(), mem, 0);
    }
    assert(n == 3 * (refs.len() - 1));
    if i == refs.len() - 1 {
        assert(all[n] == value_of(refs[i], mem));
        assert(all[n + 1] == finalizer_of(refs[i], mem));
        assert(all[n + 2] == cfinalizers_of(refs[i], mem));
    } else {
        lemma_kept_alive_covers(refs.drop_last(), mem, i);
        let before = kept_alive(refs.drop_last(), mem);
        let a = choose|a: int| 0 <= a < before.len() && before[a] == value_of(refs[i], mem);
        assert(all[a] == value_of(refs[i], mem));
        let b = choose|b: int| 0 <= b < before.len() && before[b] == finalizer_of(refs[i], mem);
        assert(all[b] == finalizer_of(refs[i], mem));
        let c = choose|c: int| 0 <= c < before.len() && before[c] == cfinalizers_of(refs[i], mem);
        assert(all[c] == cfinalizers_of(refs[i], mem));
    }
}

/// Monotonicity of a round. A round of classification, whatever the
/// collector answers, keeps every live reference live and makes none dead;
/// it never adds an unclassified reference, takes at least one away where
/// it promotes, and leaves the unclassified references as they were where
/// it promotes none. No live reference is made dead by ending the cycle
/// after the round.
pub proof fn lemma_round_monotone(s: WeakStateView, mem: MemoryView, lv: LivenessView)
    requires
        s.wf(),
    ensures
        s.classify_round(mem, lv).wf(),
        s.live_weak_refs.is_prefix_of(s.classify_round(mem, lv).live_weak_refs),
        s.classify_round(mem, lv).dead_weak_refs == s.dead_weak_refs,
        s.classify_round(mem, lv).weak_refs.len() + promoted(s.weak_refs, mem, lv).len()
            == s.weak_refs.len(),
        s.round_promotes(mem, lv) ==> s.classify_round(mem, lv).weak_refs.len()
            < s.weak_refs.len(),
        !s.round_promotes(mem, lv) ==> s.classify_round(mem, lv).weak_refs == s.weak_refs,
        forall|i: int|
            0 <= i < s.classify_round(mem, lv).live_weak_refs.len() ==> !has_addr(
                s.classify_round(mem, lv).finish_cycle().dead_weak_refs,
                (#[trigger] s.classify_round(mem, lv).live_weak_refs[i]).addr,
            ),
{
    lemma_round_wf(s, mem, lv);
    let t = s.classify_round(mem, lv);
    let up = reached_flags(s.weak_refs, mem, lv);
    let down = unreached_flags(s.weak_refs, mem, lv);
    lemma_set_indices_split(up, down);
    if !s.round_promotes(mem, lv) {
        assert forall|i: int| 0 <= i < down.len() implies down[i] by {
            if up[i] {
                lemma_set_indices(up);
                assert(set_indices(up).contains(i));
            }
        }
        lemma_set_indices_all(down);
        assert(t.weak_refs =~= s.weak_refs);
    }
    assert forall|i: int| 0 <= i < t.live_weak_refs.len() implies !has_addr(
        t.finish_cycle().dead_weak_refs,
        (#[trigger] t.live_weak_refs[i]).addr,
    ) by {
        if has_addr(t.finish_cycle().dead_weak_refs, t.live_weak_refs[i].addr) {
            let j = choose|j: int|
                0 <= j < t.weak_refs.len() && (#[trigger] t.weak_refs[j]).addr
                    == t.live_weak_refs[i].addr;
            assert(t.weak_refs[j].addr != t.live_weak_refs[i].addr);
        }
    }
}

/// The sets after a round of classification for each answer of `oracles`,
/// in order.
pub open spec fn after_rounds(s: WeakStateView, oracles: Seq<(MemoryView, LivenessView)>) ->
    WeakStateView
    decreases oracles.len(),
{
    if oracles.len() == 0 {
        s
    } else {
        after_rounds(s, oracles.drop_last()).classify_round(oracles.last().0, oracles.last().1)
    }
}

/// How many of those rounds promote a reference.
pub open spec fn promoting_rounds(s: WeakStateView, oracles: Seq<(MemoryView, LivenessView)>) -> nat
    decreases oracles.len(),
{
    if oracles.len() == 0 {
        0
    } else {
        let before = after_rounds(s, oracles.drop_last());
        let this: nat = if before.round_promotes(oracles.last().0, oracles.last().1) {
            1
        } else {
            0
        };
        promoting_rounds(s, oracles.drop_last()) + this
    }
}

/// Monotonicity of the fixpoint. Over any number of rounds, whatever the
/// collector answers in each: a reference that is live stays live and is
/// not made dead by ending the cycle; no round makes a reference dead; the
/// number of unclassified references never grows; and the rounds that
/// promote are at most as many as the references that were unclassified at
/// the start, so that after finitely many rounds none is left or what is
/// left stays.
pub proof fn lemma_fixpoint_monotone(s: WeakStateView, oracles: Seq<(MemoryView, LivenessView)>)
    requires
        s.wf(),
    ensures
        after_rounds(s, oracles).wf(),
        s.live_weak_refs.is_prefix_of(after_rounds(s, oracles).live_weak_refs),
        after_rounds(s, oracles).dead_weak_refs == s.dead_weak_refs,
        after_rounds(s, oracles).weak_refs.len() + promoting_rounds(s, oracles)
            <= s.weak_refs.len(),
        forall|i: int|
            0 <= i < after_rounds(s, oracles).live_weak_refs.len() ==> !has_addr(
                after_rounds(s, oracles).finish_cycle().dead_weak_refs,
                (#[trigger] after_rounds(s, oracles).live_weak_refs[i]).addr,
            ),
    decreases oracles.len(),
{
    if oracles.len() == 0 {
        assert forall|i: int| 0 <= i < s.live_weak_refs.len() implies !has_addr(
            s.finish_cycle().dead_weak_refs,
            (#[trigger] s.live_weak_refs[i]).addr,
        ) by {
            if has_addr(s.weak_refs, s.live_weak_refs[i].addr) {
                let j = choose|j: int|
                    0 <= j < s.weak_refs.len() && (#[trigger] s.weak_refs[j]).addr
                        == s.live_weak_refs[i].addr;
                assert(s.weak_refs[j].addr != s.live_weak_refs[i].addr);
            }
        }
    } else {
        lemma_fixpoint_monotone(s, oracles.drop_last());
        let before = after_rounds(s, oracles.drop_last());
        lemma_round_monotone(before, oracles.last().0, oracles.last().1);
    }
}

/// Completeness of finalization. A round that promotes no reference hands
/// to the collector, to be kept alive, the value, the finalizer and the
/// native finalizers of every reference that the end of the cycle then
/// makes dead.
pub proof fn lemma_finalization_complete(s: WeakStateView, mem: MemoryView, lv: LivenessView, i: int)
    requires
        s.wf(),
        !s.round_promotes(mem, lv),
        0 <= i < s.classify_round(mem, lv).finish_cycle().dead_weak_refs.len(),
    ensures
        s.classify_round(mem, lv).finish_cycle().dead_weak_refs == s.weak_refs,
        s.round_traces(mem, lv).contains(
            value_of(s.classify_round(mem, lv).finish_cycle().dead_weak_refs[i], mem),
        ),
        s.round_traces(mem, lv).contains(
            finalizer_of(s.classify_round(mem, lv).finish_cycle().dead_weak_refs[i], mem),
        ),
        s.round_traces(mem, lv).contains(
            cfinalizers_of(s.classify_round(mem, lv).finish_cycle().dead_weak_refs[i], mem),
        ),
{
    lemma_round_monotone(s, mem, lv);
    lemma_kept_alive_covers(s.weak_refs, mem, i);
}

/// The list of the dead. Where the link fields of the dead references are
/// distinct locations of the memory, linking them leaves in the link field
/// of each the address of the one before it, and the null reference in
/// that of the first: from the last one, the links pass through every dead
/// reference once and end.
pub proof fn lemma_linked_list(mem: MemoryView, dead: Seq<WeakRef>, n: nat, i: int)
    requires
        n <= dead.len(),
        0 <= i < n,
        forall|a: int| 0 <= a < dead.len() ==> (#[trigger] dead[a]).weak.link.0 < mem.words.len(),
        forall|a: int, b: int|
            0 <= a < b < dead.len() ==> (#[trigger] dead[a]).weak.link != (
            #[trigger] dead[b]).weak.link,
    ensures
        linked(mem, dead, n).words.len() == mem.words.len(),
        linked(mem, dead, n).load(dead[i].weak.link) == (if i == 0 {
            0
        } else {
            dead[i - 1].addr.0
        }),
    decreases n,
{
    lemma_linked_size(mem, dead, (n - 1) as nat);
    if i < n - 1 {
        lemma_linked_list(mem, dead, (n - 1) as nat, i);
        assert(dead[i].weak.link != dead[n - 1].weak.link);
    }
}

/// Linking changes neither the size of the memory nor a card mark.
pub proof fn lemma_linked_size(mem: MemoryView, dead: Seq<WeakRef>, n: nat)
    ensures
        linked(mem, dead, n).words.len() == mem.words.len(),
        linked(mem, dead, n).cards == mem.cards,
    decreases n,
{
    if n > 0 {
        lemma_linked_size(mem, dead, (n - 1) as nat);
    }
}

/// The weak-reference processor of a binding: one state, which the owner
/// of the processor has to itself for the length of a call.
pub struct WeakProcessor {
    weak_state: WeakState,
}

impl View for WeakProcessor {
    type V = WeakStateView;

    closed spec fn view(&self) -> WeakStateView {
        self.weak_state@
    }
}

impl WeakProcessor {
    /// The sets are well formed.
    pub open spec fn wf(&self) -> bool {
        self@.wf()
    }

    /// A processor that knows no weak reference.
    pub fn new() -> (p: WeakProcessor)
        ensures
            p.wf(),
            p@.weak_refs.len() == 0,
            p@.live_weak_refs.len() == 0,
            p@.dead_weak_refs.len() == 0,
    {
        WeakProcessor { weak_state: WeakState::new() }
    }

    /// Registers `weak`: it joins the unclassified references unless it is
    /// among them or has been classified live in this cycle.
    pub fn add_weak(&mut self, weak: WeakRef)
        requires
            old(self).wf(),
        ensures
            final(self).wf(),
            final(self)@ == old(self)@.add_weak(weak),
    {
        self.weak_state.add_weak(weak);
    }

    /// One round of classification; returns whether another is needed.
    pub fn process_weak_refs(
        &mut self,
        mem: &Memory,
        liveness: &Liveness,
        traced: &mut Vec<ObjectReference>,
    ) -> (again: bool)
        requires
            old(self).wf(),
        ensures
            final(self).wf(),
            final(self)@ == old(self)@.classify_round(mem@, liveness@),
            again == old(self)@.round_promotes(mem@, liveness@),
            final(traced)@ == old(traced)@ + old(self)@.round_traces(mem@, liveness@),
    {
        self.weak_state.process_weak_refs(mem, liveness, traced)
    }

    /// Links the dead references into a list, forgets them, and returns
    /// the head of the list.
    pub fn get_dead_weaks(&mut self, mem: &mut Memory) -> (head: ObjectReference)
        requires
            old(self).wf(),
        ensures
            final(self).wf(),
            final(self)@.dead_weak_refs.len() == 0,
            final(self)@.weak_refs == old(self)@.weak_refs,
            final(self)@.live_weak_refs == old(self)@.live_weak_refs,
            final(mem)@ == linked(
                old(mem)@,
                old(self)@.dead_weak_refs,
                old(self)@.dead_weak_refs.len(),
            ),
            head == (if old(self)@.dead_weak_refs.len() == 0 {
                ObjectReference(0)
            } else {
                old(self)@.dead_weak_refs.last().addr
            }),
    {
        self.weak_state.get_dead_weaks(mem)
    }

    /// Whether the check at the end of a cycle passes in the memory `mem`.
    pub fn finalization_ready(&self, mem: &Memory, liveness: &Liveness) -> (ok: bool)
        ensures
            ok == self@.finalization_ready(mem@, liveness@),
    {
        self.weak_state.finalization_ready(mem, liveness)
    }

    /// Ends the cycle; returns the native finalizers of the dead
    /// references for the runtime to run.
    pub fn finish_gc_cycle(
        &mut self,
        mem: &mut Memory,
        caps: &Vec<Capability>,
        liveness: &Liveness,
    ) -> (native: Vec<ObjectReference>)
        requires
            old(self).wf(),
            old(self)@.dead_weak_refs.len() == 0,
            old(self)@.finalization_ready(
                reset_weak_lists(old(mem)@, caps@, caps@.len()),
                liveness@,
            ),
        ensures
            final(self).wf(),
            final(self)@ == old(self)@.finish_cycle(),
            final(mem)@ == reset_weak_lists(old(mem)@, caps@, caps@.len()),
            native@ == Seq::new(
                old(self)@.weak_refs.len(),
                |i: int| cfinalizers_of(old(self)@.weak_refs[i], final(mem)@),
            ),
            all_held_alive(final(self)@.dead_weak_refs, final(mem)@, liveness@),
            all_held_alive(final(self)@.weak_refs, final(mem)@, liveness@),
    {
        self.weak_state.finish_gc_cycle(mem, caps, liveness)
    }

    /// The state of the processor.
    pub fn state(&self) -> (s: &WeakState)
        ensures
            s@ == self@,
    {
        &self.weak_state
    }
}

} // verus!
