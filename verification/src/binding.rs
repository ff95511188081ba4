//! The state that the binding keeps between calls of the collector.

use crate::memory::Memory;
use crate::stg_closures::ObjectReference;
use crate::weak_proc::{linked, WeakProcessor};
use vstd::prelude::*;

verus! {

/// The state of the binding: the epoch of static-object scanning and the
/// weak-reference processor.
pub struct GHCBinding {
    /// The epoch flag: it tells which of the two tags of a static link
    /// means "visited in this cycle".
    pub static_flag: bool,
    pub weak_proc: WeakProcessor,
}

impl GHCBinding {
    /// A binding in the first epoch, with no weak reference known.
    pub fn new() -> (b: GHCBinding)
        ensures
            !b.static_flag,
            b.weak_proc.wf(),
            b.weak_proc@.weak_refs.len() == 0,
            b.weak_proc@.live_weak_refs.len() == 0,
            b.weak_proc@.dead_weak_refs.len() == 0,
    {
        GHCBinding { static_flag: false, weak_proc: WeakProcessor::new() }
    }

    /// Flips the epoch flag: once per cycle, before roots are scanned.
    pub fn bump_static_flag(&mut self)
        ensures
            final(self).static_flag == !old(self).static_flag,
            final(self).weak_proc == old(self).weak_proc,
    {
        let current_value = self.static_flag;
        self.static_flag = !current_value;
    }

    /// The epoch flag.
    pub fn get_static_flag(&self) -> (flag: bool)
        ensures
            flag == self.static_flag,
    {
        self.static_flag
    }

    /// Links the dead weak references into a list, forgets them, and
    /// returns the head of the list.
    pub fn get_dead_weaks(&mut self, mem: &mut Memory) -> (head: ObjectReference)
        requires
            old(self).weak_proc.wf(),
        ensures
            final(self).weak_proc.wf(),
            final(self).static_flag == old(self).static_flag,
            final(self).weak_proc@.dead_weak_refs.len() == 0,
            final(self).weak_proc@.weak_refs == old(self).weak_proc@.weak_refs,
            final(self).weak_proc@.live_weak_refs == old(self).weak_proc@.live_weak_refs,
            final(mem)@ == linked(
                old(mem)@,
                old(self).weak_proc@.dead_weak_refs,
                old(self).weak_proc@.dead_weak_refs.len(),
            ),
            head == (if old(self).weak_proc@.dead_weak_refs.len() == 0 {
                ObjectReference(0)
            } else {
                old(self).weak_proc@.dead_weak_refs.last().addr
            }),
    {
        self.weak_proc.get_dead_weaks(mem)
    }
}

} // verus!
