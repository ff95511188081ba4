//! Small helpers of the root enumerator and of the finalization check.

use crate::collector::Liveness;
use crate::edges::{GHCEdge, Slot};
use crate::stg_closures::ObjectReference;
use vstd::prelude::*;

verus! {

/// Appends the edge of the field at `slot` to the roots.
pub fn push_root(roots: &mut Vec<GHCEdge>, slot: Slot)
    ensures
        final(roots)@ == old(roots)@.push(GHCEdge::ClosureRef(slot)),
{
    roots.push(GHCEdge::from_closure_ref(slot))
}

/// Whether `obj` passes the finalization check: it lies in no space of the
/// collector, or the trace has reached it.
pub fn is_held_alive(liveness: &Liveness, obj: ObjectReference) -> (b: bool)
    ensures
        b == liveness@.holds_alive(obj),
{
    !liveness.is_in_any_space(obj) || liveness.is_reachable(obj)
}

/// States that `obj`, where it lies in a space of the collector, has been
/// reached by the trace. An object that fails this is an error of the
/// collector's integration, and no caller may pass one.
pub fn assert_reachable(liveness: &Liveness, obj: ObjectReference)
    requires
        liveness@.holds_alive(obj),
    ensures
        liveness@.is_in_any_space(obj) ==> liveness@.is_reachable(obj),
{
}

/// Number of bytes of a word.
pub const WORD_BYTES: usize = 8;

/// The address `n` bytes after `addr`, or before it where `n` is negative.
pub fn offset_bytes(addr: usize, n: isize) -> (r: usize)
    requires
        0 <= addr + n <= usize::MAX,
    ensures
        r == addr + n,
{
    if n >= 0 {
        addr + n as usize
    } else {
        addr - (-(n + 1)) as usize - 1
    }
}

/// The address `n` words after `addr`, or before it where `n` is negative.
pub fn offset_words(addr: usize, n: isize) -> (r: usize)
    requires
        0 <= addr + 8 * n <= usize::MAX,
    ensures
        r == addr + 8 * n,
{
    if n >= 0 {
        addr + WORD_BYTES * n as usize
    } else {
        addr - WORD_BYTES * (-(n + 1)) as usize - WORD_BYTES
    }
}

/// The address at `offset` bytes from the end of a structure of `size`
/// bytes at `addr`.
pub fn offset_from_end(addr: usize, size: usize, offset: isize) -> (r: usize)
    requires
        addr + size <= usize::MAX,
        0 <= addr + size + offset <= usize::MAX,
    ensures
        r == addr + size + offset,
{
    let end = addr + size;
    offset_bytes(end, offset)
}

} // verus!
