//! What the collector tells the tracing layer about objects: whether one
//! lies in a space that the collector manages, and whether the trace has
//! reached it.

use crate::stg_closures::ObjectReference;
use vstd::prelude::*;

verus! {

/// Mathematical content of a [`Liveness`].
pub struct LivenessView {
    pub in_space: Seq<bool>,
    pub reachable: Seq<bool>,
}

/// The index under which an object is recorded: one per eight bytes of
/// address.
pub open spec fn record_index(obj: ObjectReference) -> int {
    obj.0 as int / 8
}

impl LivenessView {
    /// Whether `obj` lies in a space that the collector manages.
    pub open spec fn is_in_any_space(self, obj: ObjectReference) -> bool {
        record_index(obj) < self.in_space.len() && self.in_space[record_index(obj)]
    }

    /// Whether the trace has reached `obj`.
    pub open spec fn is_reachable(self, obj: ObjectReference) -> bool {
        record_index(obj) < self.reachable.len() && self.reachable[record_index(obj)]
    }

    /// `obj` lies in no space of the collector, or the trace has reached it.
    pub open spec fn holds_alive(self, obj: ObjectReference) -> bool {
        self.is_in_any_space(obj) ==> self.is_reachable(obj)
    }
}

/// A snapshot of the collector's answers, one record per eight bytes of
/// address. An object beyond the records lies in no space and is not
/// reached.
pub struct Liveness {
    pub in_space: Vec<bool>,
    pub reachable: Vec<bool>,
}

impl View for Liveness {
    type V = LivenessView;

    open spec fn view(&self) -> LivenessView {
        LivenessView { in_space: self.in_space@, reachable: self.reachable@ }
    }
}

impl Liveness {
    /// Whether `obj` lies in a space that the collector manages.
    pub fn is_in_any_space(&self, obj: ObjectReference) -> (b: bool)
        ensures
            b == self@.is_in_any_space(obj),
    {
        let k = obj.0 / 8;
        k < self.in_space.len() && self.in_space[k]
    }

    /// Whether the trace has reached `obj`.
    pub fn is_reachable(&self, obj: ObjectReference) -> (b: bool)
        ensures
            b == self@.is_reachable(obj),
    {
        let k = obj.0 / 8;
        k < self.reachable.len() && self.reachable[k]
    }
}

} // verus!
