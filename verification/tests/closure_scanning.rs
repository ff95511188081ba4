use mmtk_ghc::edges::{GHCEdge, Slot};
use mmtk_ghc::memory::Memory;
use mmtk_ghc::object_scanning::{
    check_mut_arr_wf, check_pap_payload_ready, scan_PAP_payload, scan_TSO, scan_mut_arr_ptrs,
    scan_stack,
};
use mmtk_ghc::scanning::{visit_closure, ScanError, VMScanning};
use mmtk_ghc::stg_closures::{
    Closure, ClosurePayload, Heap, ObjectReference, ScanOptions, StackFrame, StgAP, StgAPStack,
    StgBlockingQueue, StgConstr, StgFun, StgInd, StgIndStatic, StgMVar, StgMutArrPtrs, StgMutVar,
    StgPAP, StgRetFrame, StgRetFun, StgSelector, StgSmallMutArrPtrs, StgStack, StgTRecChunk,
    StgTRecEntry, StgTSO, StgTVar, StgThunk, StgThunkStatic, StgUpdateFrame, StgWeak,
    TaggedClosureRef,
};
use mmtk_ghc::stg_info_table::{
    StgFunInfoExtraRev, StgFunInfoTable, StgInfoTable, StgLargeBitmap, StgRetInfoTable,
    StgThunkInfoTable,
};
use mmtk_ghc::types::{StgClosureType, StgFunType, StgSmallBitmap, StgTSOBlocked};
use mmtk_ghc::weak_proc::{WeakProcessor, WeakRef};

fn scan_heap(objects: Vec<Closure>) -> Heap {
    Heap {
        objects,
        options: ScanOptions { indirection_shortcutting: false, small_obj_optimisation: false },
        izh_con_info: 1000,
        czh_con_info: 1001,
        intlike: vec![],
        charlike: vec![],
        end_tso_queue: ObjectReference(0),
        large_bitmaps: vec![],
    }
}

fn at(k: usize) -> TaggedClosureRef {
    TaggedClosureRef(8 * (k + 1))
}

fn slots(indices: &[usize]) -> Vec<GHCEdge> {
    indices.iter().map(|i| GHCEdge::ClosureRef(Slot(*i))).collect()
}

fn itbl(id: usize, type_: StgClosureType, ptrs: u32, nptrs: u32) -> StgInfoTable {
    StgInfoTable { id, type_, ptrs, nptrs }
}

fn thunk_table(i: StgInfoTable, srt: Option<usize>) -> StgThunkInfoTable {
    StgThunkInfoTable { i, srt: srt.map(ObjectReference) }
}

fn ret_table(id: usize, srt: Option<usize>) -> StgRetInfoTable {
    StgRetInfoTable { i: itbl(id, StgClosureType::Fun, 0, 0), srt: srt.map(ObjectReference) }
}

fn fun_table(
    i: StgInfoTable,
    fun_type: StgFunType,
    srt: Option<usize>,
    small: usize,
    large_bitmap_ref: usize,
) -> StgFunInfoTable {
    StgFunInfoTable {
        i,
        f: StgFunInfoExtraRev {
            fun_type,
            srt: srt.map(ObjectReference),
            small_bitmap: StgSmallBitmap(small),
            large_bitmap_ref,
        },
    }
}

fn scan(heap: &Heap, mem: &mut Memory, r: TaggedClosureRef) -> (Result<(), ScanError>, Vec<GHCEdge>) {
    let mut weak_proc = WeakProcessor::new();
    let mut ev = Vec::new();
    let res = visit_closure(heap, mem, &mut weak_proc, r, &mut ev);
    (res, ev)
}

fn a_thread(bound: Option<usize>, why_blocked: StgTSOBlocked) -> StgTSO {
    StgTSO {
        bound: bound.map(Slot),
        blocked_exceptions: Slot(40),
        blocking_queue: Slot(41),
        trec: Slot(42),
        stackobj: Slot(43),
        link: Slot(44),
        why_blocked,
        block_info: Slot(45),
        global_link: Slot(46),
        tso_link_prev: Slot(47),
        tso_link_next: Slot(48),
    }
}

#[test]
fn constructor_visits_its_pointer_fields_only() {
    let heap = scan_heap(vec![Closure::Constr(StgConstr {
        info: itbl(1, StgClosureType::Constr, 3, 2),
        payload: ClosurePayload { start: 20 },
    })]);
    let mut mem = Memory::new(64, 0);
    let (res, ev) = scan(&heap, &mut mem, at(0));
    assert_eq!(res, Ok(()));
    assert_eq!(ev, slots(&[20, 21, 22]));
}

#[test]
fn thunk_hands_on_its_srt_before_its_fields() {
    let info = thunk_table(itbl(2, StgClosureType::Thunk, 2, 1), Some(0x700));
    let bare = thunk_table(itbl(3, StgClosureType::Thunk, 1, 0), None);
    let heap = scan_heap(vec![
        Closure::Thunk(StgThunk { info, payload: ClosurePayload { start: 20 } }),
        Closure::Thunk(StgThunk { info: bare, payload: ClosurePayload { start: 30 } }),
    ]);
    let mut mem = Memory::new(64, 0);
    let (res, ev) = scan(&heap, &mut mem, at(0));
    assert_eq!(res, Ok(()));
    assert_eq!(
        ev,
        vec![GHCEdge::ThunkSrtRef(info), GHCEdge::ClosureRef(Slot(20)), GHCEdge::ClosureRef(Slot(21))]
    );
    let (_, ev) = scan(&heap, &mut mem, at(1));
    assert_eq!(ev, slots(&[30]));
}

#[test]
fn thunk_with_srt_and_no_fields_hands_on_the_srt_alone() {
    let info = thunk_table(itbl(2, StgClosureType::Thunk, 0, 0), Some(0x700));
    let heap = scan_heap(vec![Closure::Thunk(StgThunk { info, payload: ClosurePayload { start: 20 } })]);
    let mut mem = Memory::new(64, 0);
    let (res, ev) = scan(&heap, &mut mem, at(0));
    assert_eq!(res, Ok(()));
    assert_eq!(ev, vec![GHCEdge::ThunkSrtRef(info)]);
}

#[test]
fn function_hands_on_its_srt_before_its_fields() {
    let info = fun_table(itbl(4, StgClosureType::Fun, 1, 0), StgFunType::ArgGen, Some(0x708), 0, 0);
    let heap = scan_heap(vec![
        Closure::Fun(StgFun { info, payload: ClosurePayload { start: 5 } }),
        Closure::FunStatic(StgFun { info, payload: ClosurePayload { start: 9 } }),
        Closure::FunStatic(StgFun {
            info: fun_table(itbl(5, StgClosureType::FunStatic, 2, 0), StgFunType::ArgGen, None, 0, 0),
            payload: ClosurePayload { start: 12 },
        }),
    ]);
    let mut mem = Memory::new(64, 0);
    assert_eq!(scan(&heap, &mut mem, at(0)).1, vec![GHCEdge::FunSrtRef(info), GHCEdge::ClosureRef(Slot(5))]);
    assert_eq!(scan(&heap, &mut mem, at(1)).1, vec![GHCEdge::FunSrtRef(info), GHCEdge::ClosureRef(Slot(9))]);
    assert_eq!(scan(&heap, &mut mem, at(2)).1, slots(&[12, 13]));
}

#[test]
fn static_thunk_has_only_its_srt() {
    let info = thunk_table(itbl(6, StgClosureType::ThunkStatic, 0, 0), Some(0x710));
    let heap = scan_heap(vec![
        Closure::ThunkStatic(StgThunkStatic { info, static_link: Slot(3) }),
        Closure::ThunkStatic(StgThunkStatic {
            info: thunk_table(itbl(7, StgClosureType::ThunkStatic, 0, 0), None),
            static_link: Slot(4),
        }),
    ]);
    let mut mem = Memory::new(64, 0);
    assert_eq!(scan(&heap, &mut mem, at(0)).1, vec![GHCEdge::ThunkSrtRef(info)]);
    assert_eq!(scan(&heap, &mut mem, at(1)).1, Vec::new());
}

#[test]
fn fixed_layout_kinds_visit_their_fields_in_order() {
    let heap = scan_heap(vec![
        Closure::MVar(StgMVar { head: Slot(1), tail: Slot(2), value: Slot(3) }),
        Closure::TVar(StgTVar { current_value: Slot(4), first_watch_queue_entry: Slot(5) }),
        Closure::MutVar(StgMutVar { var: Slot(6) }),
        Closure::BlockingQueue(StgBlockingQueue { bh: Slot(10), owner: Slot(9), queue: Slot(8), link: Slot(7) }),
        Closure::ThunkSelector(StgSelector { selectee: Slot(11) }),
        Closure::Indirect(StgInd { info: itbl(8, StgClosureType::Ind, 1, 0), indirectee: Slot(12) }),
        Closure::IndirectStatic(StgIndStatic { indirectee: Slot(13), static_link: Slot(14) }),
        Closure::ArrBytes,
        Closure::ArrMutPtrSmall(StgSmallMutArrPtrs { ptrs: 3, payload: ClosurePayload { start: 30 } }),
    ]);
    let mut mem = Memory::new(64, 0);
    assert_eq!(scan(&heap, &mut mem, at(0)).1, slots(&[1, 2, 3]));
    assert_eq!(scan(&heap, &mut mem, at(1)).1, slots(&[4, 5]));
    assert_eq!(scan(&heap, &mut mem, at(2)).1, slots(&[6]));
    assert_eq!(scan(&heap, &mut mem, at(3)).1, slots(&[10, 9, 8, 7]));
    assert_eq!(scan(&heap, &mut mem, at(4)).1, slots(&[11]));
    assert_eq!(scan(&heap, &mut mem, at(5)).1, slots(&[12]));
    assert_eq!(scan(&heap, &mut mem, at(6)).1, slots(&[13]));
    assert_eq!(scan(&heap, &mut mem, at(7)), (Ok(()), Vec::new()));
    assert_eq!(scan(&heap, &mut mem, at(8)).1, slots(&[30, 31, 32]));
}

#[test]
fn closure_kind_follows_the_info_table() {
    let heap = scan_heap(vec![
        Closure::MVar(StgMVar { head: Slot(1), tail: Slot(2), value: Slot(3) }),
        Closure::Indirect(StgInd { info: itbl(8, StgClosureType::BlackHole, 1, 0), indirectee: Slot(12) }),
        Closure::ArrBytes,
    ]);
    assert_eq!(heap.objects[0].closure_type(), StgClosureType::MVar);
    assert_eq!(heap.objects[1].closure_type(), StgClosureType::BlackHole);
    assert_eq!(heap.objects[2].closure_type(), StgClosureType::ArrWords);
}

#[test]
fn a_reference_to_no_object_is_an_error_and_visits_nothing() {
    let heap = scan_heap(vec![Closure::ArrBytes]);
    let mut mem = Memory::new(8, 0);
    assert_eq!(scan(&heap, &mut mem, TaggedClosureRef(0)), (Err(ScanError::NoSuchObject), Vec::new()));
    assert_eq!(scan(&heap, &mut mem, at(1)), (Err(ScanError::NoSuchObject), Vec::new()));
    assert_eq!(scan(&heap, &mut mem, TaggedClosureRef(8 + 5)), (Ok(()), Vec::new()));
    let mut weak_proc = WeakProcessor::new();
    let mut ev = Vec::new();
    assert_eq!(
        VMScanning::scan_object(&heap, &mut mem, &mut weak_proc, ObjectReference(16), &mut ev),
        Err(ScanError::NoSuchObject)
    );
    assert_eq!(
        VMScanning::scan_object(&heap, &mut mem, &mut weak_proc, ObjectReference(8), &mut ev),
        Ok(())
    );
}

#[test]
fn weak_reference_is_registered_and_its_key_is_not_visited() {
    let weak = StgWeak { cfinalizers: Slot(1), key: Slot(2), value: Slot(3), finalizer: Slot(4), link: Slot(5) };
    let heap = scan_heap(vec![Closure::Weak(weak)]);
    let mut mem = Memory::new(8, 0);
    mem.store(Slot(2), 0x100);
    let mut weak_proc = WeakProcessor::new();
    let mut ev = Vec::new();
    assert_eq!(visit_closure(&heap, &mut mem, &mut weak_proc, at(0), &mut ev), Ok(()));
    assert_eq!(ev, Vec::new());
    let expected = WeakRef { addr: ObjectReference(8), weak };
    assert_eq!(weak_proc.state().unclassified(), vec![expected]);
    // met again through a tagged reference: still one registration
    assert_eq!(
        visit_closure(&heap, &mut mem, &mut weak_proc, TaggedClosureRef(8 + 1), &mut ev),
        Ok(())
    );
    assert_eq!(weak_proc.state().unclassified(), vec![expected]);
    assert_eq!(ev, Vec::new());
}

#[test]
fn weak_reference_link_is_visited_where_it_is_not_null() {
    let weak = StgWeak { cfinalizers: Slot(1), key: Slot(2), value: Slot(3), finalizer: Slot(4), link: Slot(5) };
    let heap = scan_heap(vec![Closure::Weak(weak)]);
    let mut mem = Memory::new(8, 0);
    mem.store(Slot(5), 0x200);
    let (res, ev) = scan(&heap, &mut mem, at(0));
    assert_eq!(res, Ok(()));
    assert_eq!(ev, slots(&[5]));
}

#[test]
fn thread_visits_block_info_only_for_some_block_reasons() {
    let heap = scan_heap(vec![]);
    let with_block_info = [
        StgTSOBlocked::NotBlocked,
        StgTSOBlocked::BlockedOnMVar,
        StgTSOBlocked::BlockedOnMVarRead,
        StgTSOBlocked::BlockedOnBlackHole,
        StgTSOBlocked::BlockedOnMsgThrowTo,
    ];
    let without_block_info = [
        StgTSOBlocked::BlockedOnRead,
        StgTSOBlocked::BlockedOnWrite,
        StgTSOBlocked::BlockedOnDelay,
        StgTSOBlocked::BlockedOnSTM,
        StgTSOBlocked::BlockedOnDoProc,
        StgTSOBlocked::BlockedOnCCall,
        StgTSOBlocked::BlockedOnCCallInterruptible,
        StgTSOBlocked::ThreadMigrating,
    ];
    for why in with_block_info {
        assert!(why.has_block_info_closure());
        let mut mem = Memory::new(64, 0);
        let mut ev = Vec::new();
        scan_TSO(&heap, &mut mem, &a_thread(None, why), &mut ev);
        assert_eq!(ev, slots(&[40, 41, 42, 43, 44, 45, 46, 47, 48]));
    }
    for why in without_block_info {
        assert!(!why.has_block_info_closure());
        let mut mem = Memory::new(64, 0);
        let mut ev = Vec::new();
        scan_TSO(&heap, &mut mem, &a_thread(None, why), &mut ev);
        assert_eq!(ev, slots(&[40, 41, 42, 43, 44, 46, 47, 48]));
    }
}

#[test]
fn bound_thread_visits_the_thread_of_its_call_first() {
    let heap = scan_heap(vec![Closure::TSO(a_thread(Some(60), StgTSOBlocked::BlockedOnSTM))]);
    let mut mem = Memory::new(64, 0);
    let (res, ev) = scan(&heap, &mut mem, at(0));
    assert_eq!(res, Ok(()));
    assert_eq!(ev, slots(&[60, 40, 41, 42, 43, 44, 46, 47, 48]));
}

#[test]
fn pointer_array_of_three_hundred_elements() {
    let array = StgMutArrPtrs { n_ptrs: 300, payload: ClosurePayload { start: 100 }, card_table: 2 };
    assert!(check_mut_arr_wf(&array));
    let heap = scan_heap(vec![Closure::ArrMutPtr(array)]);
    let mut mem = Memory::new(512, 8);
    for c in 0..8 {
        mem.mark_card(c, 1);
    }
    let (res, ev) = scan(&heap, &mut mem, at(0));
    assert_eq!(res, Ok(()));
    let expected: Vec<usize> = (100..400).collect();
    assert_eq!(ev, slots(&expected));
    assert_eq!(ev.len(), 300);
    // cards 0 and 1 hold 128 elements each, the last one the 44 that are left
    assert_eq!(ev[256..].len(), 44);
    assert_eq!(mem.cards, vec![1, 1, 0, 0, 0, 1, 1, 1]);
}

#[test]
fn pointer_array_cards_for_other_lengths() {
    let heap = scan_heap(vec![]);
    let cases: Vec<(usize, usize)> = vec![(0, 0), (1, 1), (127, 1), (128, 1), (129, 2), (256, 2), (257, 3)];
    for (n_ptrs, n_cards) in cases {
        let array = StgMutArrPtrs { n_ptrs, payload: ClosurePayload { start: 0 }, card_table: 1 };
        let mut mem = Memory::new(300, 5);
        for c in 0..5 {
            mem.mark_card(c, 1);
        }
        let mut ev = Vec::new();
        scan_mut_arr_ptrs(&heap, &mut mem, &array, &mut ev);
        let expected: Vec<usize> = (0..n_ptrs).collect();
        assert_eq!(ev, slots(&expected));
        let cards: Vec<u8> = (0..5).map(|c| if c >= 1 && c < 1 + n_cards { 0 } else { 1 }).collect();
        assert_eq!(mem.cards, cards);
    }
}

#[test]
fn pointer_array_validity() {
    assert!(!check_mut_arr_wf(&StgMutArrPtrs {
        n_ptrs: 2,
        payload: ClosurePayload { start: usize::MAX - 1 },
        card_table: 0
    }));
    assert!(!check_mut_arr_wf(&StgMutArrPtrs {
        n_ptrs: 1,
        payload: ClosurePayload { start: 0 },
        card_table: usize::MAX
    }));
    assert!(check_mut_arr_wf(&StgMutArrPtrs {
        n_ptrs: 0,
        payload: ClosurePayload { start: usize::MAX },
        card_table: usize::MAX
    }));
}

#[test]
fn stack_frames_by_kind_from_the_top() {
    let ret = ret_table(20, Some(0x900));
    let ret_bare = ret_table(21, None);
    let frames = vec![
        StackFrame::UpdFrame(StgUpdateFrame { updatee: Slot(1) }),
        StackFrame::RetSmall(
            StgRetFrame { info: ret, payload: ClosurePayload { start: 10 } },
            StgSmallBitmap::new(3, 0b010),
        ),
        StackFrame::RetBig(
            StgRetFrame { info: ret_bare, payload: ClosurePayload { start: 100 } },
            StgLargeBitmap { size: 66, bitmap: vec![usize::MAX, 0b01] },
        ),
        StackFrame::RetFunSmall(
            StgRetFun { info: ret_bare, fun: Slot(30), payload: ClosurePayload { start: 31 } },
            StgSmallBitmap::new(2, 0b01),
        ),
        StackFrame::RetFunLarge(
            StgRetFun { info: ret, fun: Slot(50), payload: ClosurePayload { start: 200 } },
            StgLargeBitmap { size: 2, bitmap: vec![0b10] },
        ),
    ];
    for f in frames.iter() {
        assert!(f.is_wf());
    }
    let heap = scan_heap(vec![
        Closure::Stack(StgStack { frames: frames.clone() }),
        Closure::ApStack(StgAPStack { fun: Slot(7), frames: frames[..2].to_vec() }),
    ]);
    assert!(heap.is_wf());
    let mut mem = Memory::new(512, 0);
    let expected = vec![
        GHCEdge::ClosureRef(Slot(1)),
        GHCEdge::ClosureRef(Slot(10)),
        GHCEdge::ClosureRef(Slot(12)),
        GHCEdge::RetSrtRef(ret),
        GHCEdge::ClosureRef(Slot(165)),
        GHCEdge::ClosureRef(Slot(30)),
        GHCEdge::ClosureRef(Slot(32)),
        GHCEdge::ClosureRef(Slot(50)),
        GHCEdge::ClosureRef(Slot(200)),
        GHCEdge::RetSrtRef(ret),
    ];
    let mut ev = Vec::new();
    scan_stack(&heap, &mut mem, &frames, &mut ev);
    assert_eq!(ev, expected);
    assert_eq!(scan(&heap, &mut mem, at(0)).1, expected);
    assert_eq!(
        scan(&heap, &mut mem, at(1)).1,
        vec![
            GHCEdge::ClosureRef(Slot(7)),
            GHCEdge::ClosureRef(Slot(1)),
            GHCEdge::ClosureRef(Slot(10)),
            GHCEdge::ClosureRef(Slot(12)),
            GHCEdge::RetSrtRef(ret),
        ]
    );
    let mut ev = Vec::new();
    scan_stack(&heap, &mut mem, &Vec::new(), &mut ev);
    assert_eq!(ev, Vec::new());
}

#[test]
fn frame_validity() {
    let ret = ret_table(20, None);
    let short = StackFrame::RetBig(
        StgRetFrame { info: ret, payload: ClosurePayload { start: 0 } },
        StgLargeBitmap { size: 65, bitmap: vec![0] },
    );
    assert!(!short.is_wf());
    let far = StackFrame::RetSmall(
        StgRetFrame { info: ret, payload: ClosurePayload { start: usize::MAX } },
        StgSmallBitmap::new(1, 0),
    );
    assert!(!far.is_wf());
    let heap = scan_heap(vec![Closure::Stack(StgStack { frames: vec![short] })]);
    assert!(!heap.is_wf());
}

#[test]
fn application_scans_arguments_under_the_bitmap_of_its_function() {
    let f_small = fun_table(
        itbl(30, StgClosureType::Fun, 0, 0),
        StgFunType::ArgGen,
        None,
        StgSmallBitmap::new(4, 0b0101).0,
        0,
    );
    let f_large = fun_table(itbl(31, StgClosureType::Fun, 0, 0), StgFunType::ArgGenBig, None, 0, 1);
    let f_pattern = fun_table(
        itbl(32, StgClosureType::FunStatic, 0, 0),
        StgFunType::ArgPattern(StgSmallBitmap::new(2, 0b10)),
        None,
        // the table's own bitmap is not read for a pattern
        StgSmallBitmap::new(2, 0b01).0,
        0,
    );
    let mut heap = scan_heap(vec![
        Closure::Fun(StgFun { info: f_small, payload: ClosurePayload { start: 0 } }),
        Closure::Fun(StgFun { info: f_large, payload: ClosurePayload { start: 0 } }),
        Closure::FunStatic(StgFun { info: f_pattern, payload: ClosurePayload { start: 0 } }),
        Closure::PartialAP(StgPAP { fun: Slot(1), n_args: 3, payload: ClosurePayload { start: 20 } }),
        Closure::AP(StgAP { fun: Slot(2), n_args: 3, payload: ClosurePayload { start: 30 } }),
        Closure::PartialAP(StgPAP { fun: Slot(3), n_args: 2, payload: ClosurePayload { start: 40 } }),
    ]);
    heap.large_bitmaps = vec![
        StgLargeBitmap { size: 3, bitmap: vec![0] },
        StgLargeBitmap { size: 3, bitmap: vec![0b110] },
    ];
    let mut mem = Memory::new(64, 0);
    mem.store(Slot(1), at(0).0);
    mem.store(Slot(2), at(1).0 + 2);
    mem.store(Slot(3), at(2).0);
    assert_eq!(scan(&heap, &mut mem, at(3)), (Ok(()), slots(&[1, 21])));
    assert_eq!(scan(&heap, &mut mem, at(4)), (Ok(()), slots(&[2, 30])));
    assert_eq!(scan(&heap, &mut mem, at(5)), (Ok(()), slots(&[3, 40])));
    assert!(check_pap_payload_ready(&heap, &f_small, 4));
    let mut ev = Vec::new();
    scan_PAP_payload(&heap, &mut mem, &f_small, &ClosurePayload { start: 50 }, 4, &mut ev);
    assert_eq!(ev, slots(&[51, 53]));
    assert!(check_pap_payload_ready(&heap, &f_large, 3));
    assert!(!check_pap_payload_ready(&heap, &f_large, 4));
    let mut ev = Vec::new();
    scan_PAP_payload(&heap, &mut mem, &f_large, &ClosurePayload { start: 50 }, 2, &mut ev);
    assert_eq!(ev, slots(&[50]));
}

#[test]
fn application_without_a_usable_function_is_an_error_after_the_function_field() {
    // a multi-word bitmap that is too small, one that is missing, and a
    // function that is itself a partial application
    let f_short = fun_table(itbl(31, StgClosureType::Fun, 0, 0), StgFunType::ArgGenBig, None, 0, 0);
    let f_missing = fun_table(itbl(34, StgClosureType::Fun, 0, 0), StgFunType::ArgGenBig, None, 0, 7);
    let f_broken = fun_table(itbl(35, StgClosureType::Fun, 0, 0), StgFunType::ArgGenBig, None, 0, 1);
    let f_pap = fun_table(itbl(33, StgClosureType::Pap, 0, 0), StgFunType::ArgGen, None, 0, 0);
    let mut heap = scan_heap(vec![
        Closure::ArrBytes,
        Closure::Fun(StgFun { info: f_short, payload: ClosurePayload { start: 0 } }),
        Closure::Fun(StgFun { info: f_pap, payload: ClosurePayload { start: 0 } }),
        Closure::PartialAP(StgPAP { fun: Slot(1), n_args: 3, payload: ClosurePayload { start: 20 } }),
        Closure::AP(StgAP { fun: Slot(2), n_args: 3, payload: ClosurePayload { start: 20 } }),
        Closure::AP(StgAP { fun: Slot(3), n_args: 1, payload: ClosurePayload { start: 20 } }),
        Closure::AP(StgAP { fun: Slot(4), n_args: 1, payload: ClosurePayload { start: 20 } }),
        Closure::Fun(StgFun { info: f_missing, payload: ClosurePayload { start: 0 } }),
        Closure::AP(StgAP { fun: Slot(5), n_args: 1, payload: ClosurePayload { start: 20 } }),
        Closure::Fun(StgFun { info: f_broken, payload: ClosurePayload { start: 0 } }),
        Closure::AP(StgAP { fun: Slot(6), n_args: 1, payload: ClosurePayload { start: 20 } }),
    ]);
    heap.large_bitmaps = vec![
        StgLargeBitmap { size: 2, bitmap: vec![0] },
        StgLargeBitmap { size: 65, bitmap: vec![0] },
    ];
    let mut mem = Memory::new(64, 0);
    mem.store(Slot(1), at(0).0);
    mem.store(Slot(2), at(1).0);
    mem.store(Slot(3), at(2).0);
    mem.store(Slot(5), at(7).0);
    mem.store(Slot(6), at(9).0);
    assert_eq!(scan(&heap, &mut mem, at(3)), (Err(ScanError::NoFunctionInfo), slots(&[1])));
    assert_eq!(scan(&heap, &mut mem, at(4)), (Err(ScanError::NoFunctionInfo), slots(&[2])));
    assert_eq!(scan(&heap, &mut mem, at(5)), (Err(ScanError::NoFunctionInfo), slots(&[3])));
    assert_eq!(scan(&heap, &mut mem, at(6)), (Err(ScanError::NoFunctionInfo), slots(&[4])));
    assert_eq!(scan(&heap, &mut mem, at(8)), (Err(ScanError::NoFunctionInfo), slots(&[5])));
    assert_eq!(scan(&heap, &mut mem, at(10)), (Err(ScanError::NoFunctionInfo), slots(&[6])));
    assert!(!check_pap_payload_ready(&heap, &f_pap, 0));
    assert!(!check_pap_payload_ready(&heap, &f_missing, 0));
    assert!(check_pap_payload_ready(&heap, &f_short, 2));
}

#[test]
fn application_reads_its_function_after_the_field_was_shortcut() {
    let f_small = fun_table(
        itbl(30, StgClosureType::Fun, 0, 0),
        StgFunType::ArgGen,
        None,
        StgSmallBitmap::new(2, 0b10).0,
        0,
    );
    let mut heap = scan_heap(vec![
        Closure::Indirect(StgInd { info: itbl(8, StgClosureType::BlackHole, 1, 0), indirectee: Slot(5) }),
        Closure::Fun(StgFun { info: f_small, payload: ClosurePayload { start: 0 } }),
        Closure::AP(StgAP { fun: Slot(1), n_args: 2, payload: ClosurePayload { start: 20 } }),
    ]);
    let mut mem = Memory::new(64, 0);
    mem.store(Slot(1), at(0).0);
    mem.store(Slot(5), at(1).0 + 1);
    assert_eq!(scan(&heap, &mut mem, at(2)), (Err(ScanError::NoFunctionInfo), slots(&[1])));
    heap.options.indirection_shortcutting = true;
    assert_eq!(scan(&heap, &mut mem, at(2)), (Ok(()), slots(&[1, 20])));
    assert_eq!(mem.load(Slot(1)), at(1).0 + 1);
}

#[test]
fn transaction_log_visits_the_entries_in_use() {
    let entry = |base: usize| StgTRecEntry {
        tvar: Slot(base),
        expected_value: Slot(base + 1),
        new_value: Slot(base + 2),
    };
    let heap = scan_heap(vec![
        Closure::TRecChunk(StgTRecChunk {
            prev_chunk: Slot(9),
            next_entry_idx: 2,
            entries: vec![entry(10), entry(20), entry(30)],
        }),
        Closure::TRecChunk(StgTRecChunk { prev_chunk: Slot(8), next_entry_idx: 0, entries: vec![entry(10)] }),
        Closure::TRecChunk(StgTRecChunk { prev_chunk: Slot(8), next_entry_idx: 2, entries: vec![entry(10)] }),
    ]);
    let mut mem = Memory::new(64, 0);
    assert_eq!(scan(&heap, &mut mem, at(0)).1, slots(&[9, 10, 11, 12, 20, 21, 22]));
    assert_eq!(scan(&heap, &mut mem, at(1)).1, slots(&[8]));
    assert!(heap.objects[0].is_wf());
    assert!(!heap.objects[2].is_wf());
    assert!(!heap.is_wf());
}

#[test]
fn closure_validity_checks_the_extent_of_the_payload() {
    let far = ClosurePayload { start: usize::MAX - 1 };
    let constr = |ptrs: u32, nptrs: u32| {
        Closure::Constr(StgConstr { info: itbl(1, StgClosureType::Constr, ptrs, nptrs), payload: far })
    };
    assert!(constr(1, 0).is_wf());
    assert!(constr(0, 1).is_wf());
    assert!(!constr(1, 1).is_wf());
    assert!(!constr(u32::MAX, u32::MAX).is_wf());
    assert!(Closure::PartialAP(StgPAP { fun: Slot(0), n_args: 1, payload: far }).is_wf());
    assert!(!Closure::PartialAP(StgPAP { fun: Slot(0), n_args: 2, payload: far }).is_wf());
    assert!(!Closure::ArrMutPtrSmall(StgSmallMutArrPtrs { ptrs: 2, payload: far }).is_wf());
    assert!(Closure::ArrBytes.is_wf());
}
