//! Scanning of one object by its kind, and the enumeration of roots.

use crate::edges::{GHCEdge, Slot};
use crate::binding::GHCBinding;
use crate::collector::Liveness;
use crate::ghc::{Capability, StablePtrTable};
use crate::memory::{Memory, MemoryView};
use crate::object_scanning::{
    frames_plan, fun_srt_plan, lemma_run_concat, lemma_run_one, mut_arr_plan, pap_payload_plan,
    pap_payload_ready, payload_plan, check_pap_payload_ready, run, scan_PAP_payload, scan_TSO, scan_closure_payload,
    scan_mut_arr_ptrs, scan_srt_fun, scan_srt_thunk, scan_stack, state_of, thunk_srt_plan, tso_plan,
    visit, visit_logged, visit_spec, ScanStep, get_stable_ptr_table_roots, stable_ptr_table_roots,
};
use crate::stg_closures::{
    Closure, ClosurePayload, Heap, ObjectReference, StgTRecEntry, TaggedClosureRef,
};
use crate::stg_info_table::StgFunInfoTable;
use crate::util::push_root;
use crate::weak_proc::{WeakProcessor, WeakRef, WeakStateView};
use vstd::prelude::*;

verus! {

/// Why an object cannot be scanned: the heap or its metadata is not what
/// the tracing layer was built for.
#[derive(Clone, Copy, Debug, PartialEq, Eq, Structural)]
pub enum ScanError {
    /// The reference resolves to no object.
    NoSuchObject,
    /// The function of an application is no function, or its info table
    /// cannot describe the application's arguments.
    NoFunctionInfo,
    /// The object is of no kind that a static object can have.
    InvalidStaticClosure,
}

/// The info table of the function that `r` refers to, if it refers to one.
pub open spec fn fun_info_of(heap: &Heap, r: TaggedClosureRef) -> Option<StgFunInfoTable> {
    match heap.spec_get(r) {
        Some(Closure::Fun(f)) => Some(f.info),
        Some(Closure::FunStatic(f)) => Some(f.info),
        _ => None,
    }
}

/// The info table of the function of an application, read through the
/// function field at `fun` once that field has been visited.
pub open spec fn application_fun(heap: &Heap, mem: MemoryView, fun: Slot) -> Option<
    StgFunInfoTable,
> {
    fun_info_of(
        heap,
        TaggedClosureRef(visit_spec(heap, state_of(mem, Seq::empty()), fun).mem.load(fun)),
    )
}

/// Whether the arguments of an application can be scanned: its function is
/// a function whose info table can describe `n_args` arguments.
pub open spec fn application_ready(heap: &Heap, mem: MemoryView, fun: Slot, n_args: nat) -> bool {
    match application_fun(heap, mem, fun) {
        Some(info) => pap_payload_ready(heap, &info, n_args),
        None => false,
    }
}

/// The steps of a scan of an application: the function field, then the
/// arguments under the bitmap of the function's own info table.
pub open spec fn application_plan(
    heap: &Heap,
    mem: MemoryView,
    fun: Slot,
    n_args: nat,
    payload: ClosurePayload,
) -> Seq<ScanStep> {
    if application_ready(heap, mem, fun, n_args) {
        seq![ScanStep::Visit(fun)] + pap_payload_plan(
            heap,
            &application_fun(heap, mem, fun).unwrap(),
            payload,
            n_args,
        )
    } else {
        seq![ScanStep::Visit(fun)]
    }
}

/// The steps of a scan of the first `n` entries of a transaction log: of
/// each entry the variable, the expected value and the new value.
pub open spec fn trec_entries_plan(entries: Seq<StgTRecEntry>, n: nat) -> Seq<ScanStep>
    decreases n,
{
    if n == 0 {
        Seq::empty()
    } else {
        trec_entries_plan(entries, (n - 1) as nat) + seq![
            ScanStep::Visit(entries[n - 1].tvar),
            ScanStep::Visit(entries[n - 1].expected_value),
            ScanStep::Visit(entries[n - 1].new_value),
        ]
    }
}

/// The steps of a scan of a closure, by its kind.
pub open spec fn closure_plan(heap: &Heap, mem: MemoryView, c: Closure) -> Seq<ScanStep> {
    match c {
        Closure::MVar(mvar) => seq![
            ScanStep::Visit(mvar.head),
            ScanStep::Visit(mvar.tail),
            ScanStep::Visit(mvar.value),
        ],
        Closure::TVar(tvar) => seq![
            ScanStep::Visit(tvar.current_value),
            ScanStep::Visit(tvar.first_watch_queue_entry),
        ],
        Closure::Thunk(thunk) => thunk_srt_plan(thunk.info) + payload_plan(
            thunk.payload,
            thunk.info.i.ptrs as int,
        ),
        Closure::Constr(closure) => payload_plan(closure.payload, closure.info.ptrs as int),
        Closure::Fun(fun) => fun_srt_plan(fun.info) + payload_plan(
            fun.payload,
            fun.info.i.ptrs as int,
        ),
        Closure::Weak(weak) => if TaggedClosureRef(mem.load(weak.link)).spec_is_null() {
            Seq::empty()
        } else {
            seq![ScanStep::Visit(weak.link)]
        },
        Closure::MutVar(mut_var) => seq![ScanStep::Visit(mut_var.var)],
        Closure::BlockingQueue(bq) => seq![
            ScanStep::Visit(bq.bh),
            ScanStep::Visit(bq.owner),
            ScanStep::Visit(bq.queue),
            ScanStep::Visit(bq.link),
        ],
        Closure::ThunkSelector(selector) => seq![ScanStep::Visit(selector.selectee)],
        Closure::ApStack(ap) => seq![ScanStep::Visit(ap.fun)] + frames_plan(ap.frames@),
        Closure::PartialAP(pap) => application_plan(
            heap,
            mem,
            pap.fun,
            pap.n_args as nat,
            pap.payload,
        ),
        Closure::AP(ap) => application_plan(heap, mem, ap.fun, ap.n_args as nat, ap.payload),
        Closure::ArrBytes => Seq::empty(),
        Closure::ArrMutPtr(array) => mut_arr_plan(array),
        Closure::ArrMutPtrSmall(array) => payload_plan(array.payload, array.ptrs as int),
        Closure::TSO(tso) => tso_plan(tso),
        Closure::Stack(stack) => frames_plan(stack.frames@),
        Closure::TRecChunk(chunk) => seq![ScanStep::Visit(chunk.prev_chunk)] + trec_entries_plan(
            chunk.entries@,
            chunk.next_entry_idx as nat,
        ),
        Closure::Indirect(ind) => seq![ScanStep::Visit(ind.indirectee)],
        Closure::IndirectStatic(ind) => seq![ScanStep::Visit(ind.indirectee)],
        Closure::ThunkStatic(thunk) => thunk_srt_plan(thunk.info),
        Closure::FunStatic(fun) => fun_srt_plan(fun.info) + payload_plan(
            fun.payload,
            fun.info.i.ptrs as int,
        ),
    }
}

/// What a scan of the object that `closure_ref` refers to answers: an error
/// where there is no object, or where the object is an application whose
/// arguments cannot be scanned.
pub open spec fn visit_closure_result(heap: &Heap, mem: MemoryView, closure_ref: TaggedClosureRef) ->
    Result<(), ScanError> {
    match heap.spec_get(closure_ref) {
        None => Err(ScanError::NoSuchObject),
        Some(Closure::PartialAP(pap)) => if application_ready(
            heap,
            mem,
            pap.fun,
            pap.n_args as nat,
        ) {
            Ok(())
        } else {
            Err(ScanError::NoFunctionInfo)
        },
        Some(Closure::AP(ap)) => if application_ready(heap, mem, ap.fun, ap.n_args as nat) {
            Ok(())
        } else {
            Err(ScanError::NoFunctionInfo)
        },
        Some(_) => Ok(()),
    }
}

/// The steps of a scan of the object that `closure_ref` refers to; none
/// where there is no object.
pub open spec fn visit_closure_plan(heap: &Heap, mem: MemoryView, closure_ref: TaggedClosureRef) ->
    Seq<ScanStep> {
    match heap.spec_get(closure_ref) {
        Some(c) => closure_plan(heap, mem, c),
        None => Seq::empty(),
    }
}

/// The sets of the weak-reference processor after a scan of the object
/// that `closure_ref` refers to: a weak reference is registered.
pub open spec fn visit_closure_weaks(
    heap: &Heap,
    weaks: WeakStateView,
    closure_ref: TaggedClosureRef,
) -> WeakStateView {
    match heap.spec_get(closure_ref) {
        Some(Closure::Weak(weak)) => weaks.add_weak(
            WeakRef { addr: closure_ref.spec_to_object_reference(), weak },
        ),
        _ => weaks,
    }
}

/// Reads the info table of the function that `r` refers to.
fn read_fun_info(heap: &Heap, r: TaggedClosureRef) -> (info: Option<&StgFunInfoTable>)
    ensures
        info.is_some() == fun_info_of(heap, r).is_some(),
        info.is_some() ==> *info.unwrap() == fun_info_of(heap, r).unwrap(),
{
    match heap.get(r) {
        Some(Closure::Fun(f)) => Some(&f.info),
        Some(Closure::FunStatic(f)) => Some(&f.info),
        _ => None,
    }
}

/// Scans an application: the function field, then the arguments.
fn scan_application(
    heap: &Heap,
    mem: &mut Memory,
    fun: Slot,
    n_args: u32,
    payload: &ClosurePayload,
    ev: &mut Vec<GHCEdge>,
) -> (res: Result<(), ScanError>)
    requires
        payload.fits(n_args as int),
    ensures
        res == (if application_ready(heap, old(mem)@, fun, n_args as nat) {
            Ok::<(), ScanError>(())
        } else {
            Err::<(), ScanError>(ScanError::NoFunctionInfo)
        }),
        state_of(final(mem)@, final(ev)@) == run(
            heap,
            state_of(old(mem)@, old(ev)@),
            application_plan(heap, old(mem)@, fun, n_args as nat, *payload),
        ),
{
    let ghost st0 = state_of(mem@, ev@);
    visit(heap, mem, ev, fun);
    proof {
        lemma_run_one(heap, st0, ScanStep::Visit(fun));
    }
    let size: usize = n_args as usize;
    let target = TaggedClosureRef(mem.load(fun));
    match read_fun_info(heap, target) {
        Some(fun_info) => {
            if check_pap_payload_ready(heap, fun_info, size) {
                scan_PAP_payload(heap, mem, fun_info, payload, size, ev);
                proof {
                    lemma_run_concat(
                        heap,
                        st0,
                        seq![ScanStep::Visit(fun)],
                        pap_payload_plan(heap, fun_info, *payload, size as nat),
                    );
                }
                Ok(())
            } else {
                Err(ScanError::NoFunctionInfo)
            }
        },
        None => Err(ScanError::NoFunctionInfo),
    }
}

/// Scans the first `n` entries of a transaction log.
fn scan_trec_entries(
    heap: &Heap,
    mem: &mut Memory,
    entries: &Vec<StgTRecEntry>,
    n: usize,
    ev: &mut Vec<GHCEdge>,
)
    requires
        n <= entries@.len(),
    ensures
        state_of(final(mem)@, final(ev)@) == run(
            heap,
            state_of(old(mem)@, old(ev)@),
            trec_entries_plan(entries@, n as nat),
        ),
{
    let ghost st0 = state_of(mem@, ev@);
    let mut k: usize = 0;
    while k < n
        invariant
            k <= n <= entries@.len(),
            state_of(mem@, ev@) == run(heap, st0, trec_entries_plan(entries@, k as nat)),
        decreases n - k,
    {
        let ghost done = trec_entries_plan(entries@, k as nat);
        let entry = entries[k];
        visit_logged(heap, mem, ev, entry.tvar, Ghost(st0), Ghost(done));
        visit_logged(
            heap,
            mem,
            ev,
            entry.expected_value,
            Ghost(st0),
            Ghost(done.push(ScanStep::Visit(entry.tvar))),
        );
        visit_logged(
            heap,
            mem,
            ev,
            entry.new_value,
            Ghost(st0),
            Ghost(done.push(ScanStep::Visit(entry.tvar)).push(ScanStep::Visit(entry.expected_value))),
        );
        proof {
            assert(done.push(ScanStep::Visit(entry.tvar)).push(
                ScanStep::Visit(entry.expected_value),
            ).push(ScanStep::Visit(entry.new_value)) =~= trec_entries_plan(
                entries@,
                (k + 1) as nat,
            ));
        }
        k = k + 1;
    }
}

/// Visits the references inside the object that `closure_ref` refers to,
/// by the object's kind, in the order that the kind fixes. A weak
/// reference is registered with `weak_proc`, and its key, value and
/// finalizers are not visited. Answers with an error, and visits nothing,
/// where `closure_ref` resolves to no object; answers with an error after
/// the visit of the function field where the arguments of an application
/// cannot be scanned.
pub fn visit_closure(
    heap: &Heap,
    mem: &mut Memory,
    weak_proc: &mut WeakProcessor,
    closure_ref: TaggedClosureRef,
    ev: &mut Vec<GHCEdge>,
) -> (res: Result<(), ScanError>)
    requires
        heap.wf(),
        old(weak_proc).wf(),
    ensures
        res == visit_closure_result(heap, old(mem)@, closure_ref),
        state_of(final(mem)@, final(ev)@) == run(
            heap,
            state_of(old(mem)@, old(ev)@),
            visit_closure_plan(heap, old(mem)@, closure_ref),
        ),
        final(weak_proc).wf(),
        final(weak_proc)@ == visit_closure_weaks(heap, old(weak_proc)@, closure_ref),
{
    let ghost st0 = state_of(mem@, ev@);
    let ghost mut done: Seq<ScanStep> = Seq::empty();
    let closure = match heap.get(closure_ref) {
        Some(c) => c,
        None => {
            return Err(ScanError::NoSuchObject);
        },
    };
    proof {
        assert(heap.has_object(closure_ref.spec_to_address()));
        assert(heap.objects@[closure_ref.spec_to_address() / 8 - 1].wf());
    }
    match closure {
        Closure::MVar(mvar) => {
            visit_logged(heap, mem, ev, mvar.head, Ghost(st0), Ghost(done));
            proof {
                done = done.push(ScanStep::Visit(mvar.head));
            }
            visit_logged(heap, mem, ev, mvar.tail, Ghost(st0), Ghost(done));
            proof {
                done = done.push(ScanStep::Visit(mvar.tail));
            }
            visit_logged(heap, mem, ev, mvar.value, Ghost(st0), Ghost(done));
            proof {
                done = done.push(ScanStep::Visit(mvar.value));
                assert(done =~= closure_plan(heap, old(mem)@, *closure));
            }
        },
        Closure::TVar(tvar) => {
            visit_logged(heap, mem, ev, tvar.current_value, Ghost(st0), Ghost(done));
            proof {
                done = done.push(ScanStep::Visit(tvar.current_value));
            }
            visit_logged(heap, mem, ev, tvar.first_watch_queue_entry, Ghost(st0), Ghost(done));
            proof {
                done = done.push(ScanStep::Visit(tvar.first_watch_queue_entry));
                assert(done =~= closure_plan(heap, old(mem)@, *closure));
            }
        },
        Closure::Thunk(thunk) => {
            if thunk.info.get_srt().is_some() {
                scan_srt_thunk(&thunk.info, ev);
                proof {
                    lemma_run_one(heap, st0, ScanStep::Emit(GHCEdge::ThunkSrtRef(thunk.info)));
                }
            }
            let n_ptrs: u32 = thunk.info.i.ptrs;
            scan_closure_payload(heap, mem, &thunk.payload, n_ptrs, ev);
            proof {
                lemma_run_concat(
                    heap,
                    st0,
                    thunk_srt_plan(thunk.info),
                    payload_plan(thunk.payload, n_ptrs as int),
                );
            }
        },
        Closure::Constr(constr) => {
            let n_ptrs: u32 = constr.info.ptrs;
            scan_closure_payload(heap, mem, &constr.payload, n_ptrs, ev);
        },
        Closure::Fun(fun) => {
            if fun.info.get_srt().is_some() {
                scan_srt_fun(&fun.info, ev);
                proof {
                    lemma_run_one(heap, st0, ScanStep::Emit(GHCEdge::FunSrtRef(fun.info)));
                }
            }
            let n_ptrs: u32 = fun.info.i.ptrs;
            scan_closure_payload(heap, mem, &fun.payload, n_ptrs, ev);
            proof {
                lemma_run_concat(
                    heap,
                    st0,
                    fun_srt_plan(fun.info),
                    payload_plan(fun.payload, n_ptrs as int),
                );
            }
        },
        Closure::Weak(weak) => {
            // One weak reference can be met more than once.
            weak_proc.add_weak(WeakRef { addr: closure_ref.to_object_reference(), weak: *weak });
            if !TaggedClosureRef(mem.load(weak.link)).is_null() {
                visit(heap, mem, ev, weak.link);
                proof {
                    lemma_run_one(heap, st0, ScanStep::Visit(weak.link));
                }
            }
        },
        Closure::MutVar(mut_var) => {
            visit(heap, mem, ev, mut_var.var);
            proof {
                lemma_run_one(heap, st0, ScanStep::Visit(mut_var.var));
            }
        },
        Closure::BlockingQueue(bq) => {
            visit_logged(heap, mem, ev, bq.bh, Ghost(st0), Ghost(done));
            proof {
                done = done.push(ScanStep::Visit(bq.bh));
            }
            visit_logged(heap, mem, ev, bq.owner, Ghost(st0), Ghost(done));
            proof {
                done = done.push(ScanStep::Visit(bq.owner));
            }
            visit_logged(heap, mem, ev, bq.queue, Ghost(st0), Ghost(done));
            proof {
                done = done.push(ScanStep::Visit(bq.queue));
            }
            visit_logged(heap, mem, ev, bq.link, Ghost(st0), Ghost(done));
            proof {
                done = done.push(ScanStep::Visit(bq.link));
                assert(done =~= closure_plan(heap, old(mem)@, *closure));
            }
        },
        Closure::ThunkSelector(selector) => {
            visit(heap, mem, ev, selector.selectee);
            proof {
                lemma_run_one(heap, st0, ScanStep::Visit(selector.selectee));
            }
        },
        Closure::ApStack(ap) => {
            visit(heap, mem, ev, ap.fun);
            scan_stack(heap, mem, &ap.frames, ev);
            proof {
                lemma_run_one(heap, st0, ScanStep::Visit(ap.fun));
                lemma_run_concat(heap, st0, seq![ScanStep::Visit(ap.fun)], frames_plan(ap.frames@));
            }
        },
        Closure::PartialAP(pap) => {
            return scan_application(heap, mem, pap.fun, pap.n_args, &pap.payload, ev);
        },
        Closure::AP(ap) => {
            return scan_application(heap, mem, ap.fun, ap.n_args, &ap.payload, ev);
        },
        Closure::ArrBytes => (),
        Closure::ArrMutPtr(array) => {
            scan_mut_arr_ptrs(heap, mem, array, ev);
        },
        Closure::ArrMutPtrSmall(array) => {
            scan_closure_payload(heap, mem, &array.payload, array.ptrs, ev);
        },
        Closure::TSO(tso) => {
            scan_TSO(heap, mem, tso, ev);
        },
        Closure::Stack(stack) => {
            scan_stack(heap, mem, &stack.frames, ev);
        },
        Closure::TRecChunk(trec_chunk) => {
            visit(heap, mem, ev, trec_chunk.prev_chunk);
            scan_trec_entries(heap, mem, &trec_chunk.entries, trec_chunk.next_entry_idx, ev);
            proof {
                lemma_run_one(heap, st0, ScanStep::Visit(trec_chunk.prev_chunk));
                lemma_run_concat(
                    heap,
                    st0,
                    seq![ScanStep::Visit(trec_chunk.prev_chunk)],
                    trec_entries_plan(trec_chunk.entries@, trec_chunk.next_entry_idx as nat),
                );
            }
        },
        Closure::Indirect(ind) => {
            visit(heap, mem, ev, ind.indirectee);
            proof {
                lemma_run_one(heap, st0, ScanStep::Visit(ind.indirectee));
            }
        },
        Closure::IndirectStatic(ind) => {
            visit(heap, mem, ev, ind.indirectee);
            proof {
                lemma_run_one(heap, st0, ScanStep::Visit(ind.indirectee));
            }
        },
        Closure::ThunkStatic(thunk) => {
            scan_srt_thunk(&thunk.info, ev);
            proof {
                lemma_run_one(heap, st0, ScanStep::Emit(GHCEdge::ThunkSrtRef(thunk.info)));
            }
        },
        Closure::FunStatic(fun) => {
            scan_srt_fun(&fun.info, ev);
            proof {
                lemma_run_one(heap, st0, ScanStep::Emit(GHCEdge::FunSrtRef(fun.info)));
            }
            let n_ptrs: u32 = fun.info.i.ptrs;
            scan_closure_payload(heap, mem, &fun.payload, n_ptrs, ev);
            proof {
                lemma_run_concat(
                    heap,
                    st0,
                    fun_srt_plan(fun.info),
                    payload_plan(fun.payload, n_ptrs as int),
                );
            }
        },
    }
    Ok(())
}

/// The roots of one capability: head and tail of its run queue, its inbox,
/// the suspended thread of each pending foreign call, and the head of its
/// list of weak references.
pub open spec fn capability_roots(cap: Capability) -> Seq<GHCEdge> {
    seq![
        GHCEdge::ClosureRef(cap.run_queue_hd),
        GHCEdge::ClosureRef(cap.run_queue_tl),
        GHCEdge::ClosureRef(cap.inbox),
    ] + Seq::new(
        cap.suspended_ccalls@.len(),
        |i: int| GHCEdge::ClosureRef(cap.suspended_ccalls@[i]),
    ) + seq![GHCEdge::ClosureRef(cap.weak_ptr_list_hd)]
}

/// The roots of the first `n` capabilities, capability after capability.
pub open spec fn capabilities_roots(caps: Seq<Capability>, n: nat) -> Seq<GHCEdge>
    decreases n,
{
    if n == 0 {
        Seq::empty()
    } else {
        capabilities_roots(caps, (n - 1) as nat) + capability_roots(caps[n - 1])
    }
}

/// The roots that the runtime itself holds: those of the stable-pointer
/// table, the head of the list of all threads, and the static roots that
/// the caller has gathered.
pub open spec fn vm_specific_roots(
    mem: MemoryView,
    table: StablePtrTable,
    global_tsos: Slot,
    cafs: Seq<GHCEdge>,
) -> Seq<GHCEdge> {
    stable_ptr_table_roots(mem, table).push(GHCEdge::ClosureRef(global_tsos)) + cafs
}

/// The entry points that the collector calls to scan objects and to
/// enumerate roots.
pub struct VMScanning {}

impl VMScanning {
    /// The roots of all capabilities. No root is left out; one location may
    /// occur more than once.
    pub fn scan_roots_in_all_mutator_threads(caps: &Vec<Capability>) -> (roots: Vec<GHCEdge>)
        ensures
            roots@ == capabilities_roots(caps@, caps@.len()),
    {
        let mut roots: Vec<GHCEdge> = Vec::new();
        let mut k: usize = 0;
        while k < caps.len()
            invariant
                k <= caps@.len(),
                roots@ == capabilities_roots(caps@, k as nat),
            decreases caps@.len() - k,
        {
            let cap = &caps[k];
            let ghost before = roots@;
            push_root(&mut roots, cap.run_queue_hd);
            push_root(&mut roots, cap.run_queue_tl);
            push_root(&mut roots, cap.inbox);
            let mut j: usize = 0;
            while j < cap.suspended_ccalls.len()
                invariant
                    j <= cap.suspended_ccalls@.len(),
                    roots@ == before + seq![
                        GHCEdge::ClosureRef(cap.run_queue_hd),
                        GHCEdge::ClosureRef(cap.run_queue_tl),
                        GHCEdge::ClosureRef(cap.inbox),
                    ] + Seq::new(j as nat, |i: int| GHCEdge::ClosureRef(cap.suspended_ccalls@[i])),
                decreases cap.suspended_ccalls@.len() - j,
            {
                push_root(&mut roots, cap.suspended_ccalls[j]);
                j = j + 1;
            }
            // The capability's list of weak references.
            push_root(&mut roots, cap.weak_ptr_list_hd);
            proof {
                assert(roots@ =~= before + capability_roots(caps@[k as int]));
            }
            k = k + 1;
        }
        roots
    }

    /// The roots that the runtime itself holds.
    pub fn scan_vm_specific_roots(
        mem: &Memory,
        table: &StablePtrTable,
        global_tsos: Slot,
        cafs: &Vec<GHCEdge>,
    ) -> (roots: Vec<GHCEdge>)
        requires
            table.wf(),
        ensures
            roots@ == vm_specific_roots(mem@, *table, global_tsos, cafs@),
    {
        let mut roots = get_stable_ptr_table_roots(mem, table);
        roots.push(GHCEdge::from_closure_ref(global_tsos));
        let ghost head = roots@;
        let mut k: usize = 0;
        while k < cafs.len()
            invariant
                k <= cafs@.len(),
                roots@ == head + cafs@.take(k as int),
            decreases cafs@.len() - k,
        {
            roots.push(cafs[k]);
            k = k + 1;
            assert(roots@ =~= head + cafs@.take(k as int));
        }
        proof {
            assert(cafs@.take(cafs@.len() as int) =~= cafs@);
        }
        roots
    }

    /// Scans the object `obj`.
    pub fn scan_object(
        heap: &Heap,
        mem: &mut Memory,
        weak_proc: &mut WeakProcessor,
        obj: ObjectReference,
        ev: &mut Vec<GHCEdge>,
    ) -> (res: Result<(), ScanError>)
        requires
            heap.wf(),
            old(weak_proc).wf(),
        ensures
            res == visit_closure_result(heap, old(mem)@, TaggedClosureRef(obj.0)),
            state_of(final(mem)@, final(ev)@) == run(
                heap,
                state_of(old(mem)@, old(ev)@),
                visit_closure_plan(heap, old(mem)@, TaggedClosureRef(obj.0)),
            ),
            final(weak_proc).wf(),
            final(weak_proc)@ == visit_closure_weaks(
                heap,
                old(weak_proc)@,
                TaggedClosureRef(obj.0),
            ),
    {
        let closure_ref = TaggedClosureRef::from_object_reference(obj);
        visit_closure(heap, mem, weak_proc, closure_ref, ev)
    }

    /// One round of weak-reference classification on the processor of
    /// `binding`; returns whether another round is needed.
    pub fn process_weak_refs(
        binding: &mut GHCBinding,
        mem: &Memory,
        liveness: &Liveness,
        traced: &mut Vec<ObjectReference>,
    ) -> (again: bool)
        requires
            old(binding).weak_proc.wf(),
        ensures
            final(binding).weak_proc.wf(),
            final(binding).static_flag == old(binding).static_flag,
            final(binding).weak_proc@ == old(binding).weak_proc@.classify_round(mem@, liveness@),
            again == old(binding).weak_proc@.round_promotes(mem@, liveness@),
            final(traced)@ == old(traced)@ + old(binding).weak_proc@.round_traces(
                mem@,
                liveness@,
            ),
    {
        binding.weak_proc.process_weak_refs(mem, liveness, traced)
    }
}

} // verus!
