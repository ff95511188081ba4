use mmtk_ghc::edges::{GHCEdge, Slot};
use mmtk_ghc::ghc::{is_charlike_closure, is_intlike_closure};
use mmtk_ghc::memory::Memory;
use mmtk_ghc::object_scanning::{indirection_shortcutting, small_obj_optimisation, visit};
use mmtk_ghc::stg_closures::{
    Closure, ClosurePayload, Heap, ObjectReference, ScanOptions, StgConstr, StgInd, StgTSO,
    TaggedClosureRef,
};
use mmtk_ghc::stg_info_table::StgInfoTable;
use mmtk_ghc::types::{StgClosureType, StgTSOBlocked};

const IZH: usize = 1000;
const CZH: usize = 1001;
const INTLIKE_BASE: usize = 0x10000;
const CHARLIKE_BASE: usize = 0x20000;

fn fast_heap(objects: Vec<Closure>, shortcut: bool, small: bool) -> Heap {
    Heap {
        objects,
        options: ScanOptions { indirection_shortcutting: shortcut, small_obj_optimisation: small },
        izh_con_info: IZH,
        czh_con_info: CZH,
        intlike: (0..272).map(|i| TaggedClosureRef(INTLIKE_BASE + 16 * i)).collect(),
        charlike: (0..256).map(|i| TaggedClosureRef(CHARLIKE_BASE + 16 * i)).collect(),
        end_tso_queue: ObjectReference(0),
        large_bitmaps: vec![],
    }
}

fn addr_of(k: usize) -> usize {
    8 * (k + 1)
}

fn boxed(id: usize, type_: StgClosureType, start: usize) -> Closure {
    Closure::Constr(StgConstr {
        info: StgInfoTable { id, type_, ptrs: 0, nptrs: 1 },
        payload: ClosurePayload { start },
    })
}

fn placeholder(type_: StgClosureType, indirectee: usize) -> Closure {
    Closure::Indirect(StgInd {
        info: StgInfoTable { id: 5, type_, ptrs: 1, nptrs: 0 },
        indirectee: Slot(indirectee),
    })
}

fn thread() -> Closure {
    Closure::TSO(StgTSO {
        bound: None,
        blocked_exceptions: Slot(40),
        blocking_queue: Slot(41),
        trec: Slot(42),
        stackobj: Slot(43),
        link: Slot(44),
        why_blocked: StgTSOBlocked::NotBlocked,
        block_info: Slot(45),
        global_link: Slot(46),
        tso_link_prev: Slot(47),
        tso_link_next: Slot(48),
    })
}

#[test]
fn tagged_reference_splits_address_and_tag() {
    let r = TaggedClosureRef(0x1003);
    assert_eq!(r.get_tag(), 3);
    assert_eq!(r.to_address(), 0x1000);
    assert_eq!(r.to_object_reference(), ObjectReference(0x1000));
    assert_eq!(r.set_tag(5), TaggedClosureRef(0x1005));
    assert_eq!(r.set_tag(13), TaggedClosureRef(0x1005));
    assert_eq!(r.set_tag(0), TaggedClosureRef(0x1000));
    assert_eq!(r.set_tag(r.get_tag()), r);
    assert_eq!(TaggedClosureRef::from_address(0x2000), TaggedClosureRef(0x2000));
    assert_eq!(TaggedClosureRef::from_address(0).set_tag(2), TaggedClosureRef(2));
    assert_eq!(
        TaggedClosureRef::from_object_reference(ObjectReference(0x48)),
        TaggedClosureRef(0x48)
    );
}

#[test]
fn tagged_reference_null_ignores_the_tag() {
    assert!(TaggedClosureRef(0).is_null());
    assert!(TaggedClosureRef(7).is_null());
    assert!(!TaggedClosureRef(8).is_null());
    assert!(ObjectReference(0).is_null());
    assert!(ObjectReference::null().is_null());
    assert!(!ObjectReference(8).is_null());
    let top = TaggedClosureRef(usize::MAX);
    assert_eq!(top.get_tag(), 7);
    assert_eq!(top.to_address(), usize::MAX - 7);
    assert_eq!(top.set_tag(7), top);
}

#[test]
fn heap_resolves_references_by_address() {
    let heap = fast_heap(vec![thread(), boxed(IZH, StgClosureType::Constr01, 3)], false, false);
    assert!(heap.get(TaggedClosureRef(0)).is_none());
    assert!(heap.get(TaggedClosureRef(7)).is_none());
    assert_eq!(heap.get(TaggedClosureRef(8)), Some(&heap.objects[0]));
    assert_eq!(heap.get(TaggedClosureRef(8 + 3)), Some(&heap.objects[0]));
    assert_eq!(heap.get(TaggedClosureRef(16)), Some(&heap.objects[1]));
    assert!(heap.get(TaggedClosureRef(24)).is_none());
    assert_eq!(heap.type_of(TaggedClosureRef(8)), Some(StgClosureType::Tso));
    assert_eq!(heap.type_of(TaggedClosureRef(17)), Some(StgClosureType::Constr01));
    assert_eq!(heap.type_of(TaggedClosureRef(24)), None);
    assert_eq!(heap.reference_to(1), TaggedClosureRef(16));
    assert!(heap.is_wf());
}

#[test]
fn intlike_covers_minus_sixteen_to_two_hundred_fifty_five() {
    let heap = fast_heap(vec![boxed(IZH, StgClosureType::Constr01, 3)], false, true);
    let obj = TaggedClosureRef(addr_of(0) + 1);
    let mut mem = Memory::new(8, 0);
    let cases: Vec<(usize, Option<usize>)> = vec![
        (0, Some(16)),
        (5, Some(21)),
        (255, Some(271)),
        (256, None),
        (usize::MAX, Some(15)),
        (usize::MAX - 15, Some(0)),
        (usize::MAX - 16, None),
        (usize::MAX / 2, None),
    ];
    for (word, index) in cases {
        mem.store(Slot(3), word);
        let expected = index.map(|i| TaggedClosureRef(INTLIKE_BASE + 16 * i));
        assert_eq!(is_intlike_closure(&heap, &mem, obj), expected);
        assert_eq!(is_charlike_closure(&heap, &mem, obj), None);
    }
}

#[test]
fn charlike_covers_zero_to_two_hundred_fifty_five() {
    let heap = fast_heap(vec![boxed(CZH, StgClosureType::Constr01, 3)], false, true);
    let obj = TaggedClosureRef(addr_of(0));
    let mut mem = Memory::new(8, 0);
    let cases: Vec<(usize, Option<usize>)> =
        vec![(0, Some(0)), (65, Some(65)), (255, Some(255)), (256, None), (usize::MAX, None)];
    for (word, index) in cases {
        mem.store(Slot(3), word);
        let expected = index.map(|i| TaggedClosureRef(CHARLIKE_BASE + 16 * i));
        assert_eq!(is_charlike_closure(&heap, &mem, obj), expected);
        assert_eq!(is_intlike_closure(&heap, &mem, obj), None);
    }
}

#[test]
fn intlike_needs_a_boxed_integer_and_a_table_entry() {
    let mut heap = fast_heap(
        vec![boxed(77, StgClosureType::Constr01, 3), thread(), boxed(IZH, StgClosureType::Constr01, 3)],
        false,
        true,
    );
    let mut mem = Memory::new(8, 0);
    mem.store(Slot(3), 5);
    assert_eq!(is_intlike_closure(&heap, &mem, TaggedClosureRef(addr_of(0))), None);
    assert_eq!(is_intlike_closure(&heap, &mem, TaggedClosureRef(addr_of(1))), None);
    assert_eq!(is_intlike_closure(&heap, &mem, TaggedClosureRef(0)), None);
    assert_eq!(
        is_intlike_closure(&heap, &mem, TaggedClosureRef(addr_of(2))),
        Some(TaggedClosureRef(INTLIKE_BASE + 16 * 21))
    );
    heap.intlike.truncate(21);
    assert_eq!(is_intlike_closure(&heap, &mem, TaggedClosureRef(addr_of(2))), None);
}

#[test]
fn shortcutting_follows_updated_placeholders_to_the_value() {
    let heap = fast_heap(
        vec![
            placeholder(StgClosureType::BlackHole, 10),
            placeholder(StgClosureType::BlackHole, 11),
            boxed(9, StgClosureType::Constr, 12),
        ],
        true,
        false,
    );
    let mut mem = Memory::new(16, 0);
    mem.store(Slot(0), addr_of(0));
    mem.store(Slot(10), addr_of(1));
    mem.store(Slot(11), addr_of(2) + 1);
    let end = indirection_shortcutting(&heap, &mut mem, Slot(0));
    assert_eq!(end, TaggedClosureRef(addr_of(2) + 1));
    assert_eq!(mem.load(Slot(0)), addr_of(2) + 1);
    assert_eq!(mem.load(Slot(10)), addr_of(1));
    assert_eq!(mem.load(Slot(11)), addr_of(2) + 1);
}

#[test]
fn shortcutting_stops_at_a_placeholder_still_under_evaluation() {
    let heap = fast_heap(
        vec![placeholder(StgClosureType::BlackHole, 10), thread()],
        true,
        false,
    );
    let mut mem = Memory::new(16, 0);
    mem.store(Slot(0), addr_of(0));
    mem.store(Slot(10), addr_of(1));
    let end = indirection_shortcutting(&heap, &mut mem, Slot(0));
    assert_eq!(end, TaggedClosureRef(addr_of(0)));
    assert_eq!(mem.load(Slot(0)), addr_of(0));
}

#[test]
fn shortcutting_follows_a_tagged_value_without_looking_at_it() {
    // a tagged field is a value even if it names a thread
    let heap = fast_heap(
        vec![placeholder(StgClosureType::BlackHole, 10), thread()],
        true,
        false,
    );
    let mut mem = Memory::new(16, 0);
    mem.store(Slot(0), addr_of(0));
    mem.store(Slot(10), addr_of(1) + 2);
    let end = indirection_shortcutting(&heap, &mut mem, Slot(0));
    assert_eq!(end, TaggedClosureRef(addr_of(1) + 2));
    assert_eq!(mem.load(Slot(0)), addr_of(1) + 2);
}

#[test]
fn shortcutting_leaves_plain_indirections_and_values_alone() {
    let heap = fast_heap(
        vec![placeholder(StgClosureType::Ind, 10), boxed(9, StgClosureType::Constr, 12)],
        true,
        false,
    );
    let mut mem = Memory::new(16, 0);
    mem.store(Slot(0), addr_of(0));
    mem.store(Slot(1), addr_of(1) + 1);
    mem.store(Slot(10), addr_of(1));
    assert_eq!(indirection_shortcutting(&heap, &mut mem, Slot(0)), TaggedClosureRef(addr_of(0)));
    assert_eq!(indirection_shortcutting(&heap, &mut mem, Slot(1)), TaggedClosureRef(addr_of(1) + 1));
    assert_eq!(indirection_shortcutting(&heap, &mut mem, Slot(2)), TaggedClosureRef(0));
    assert_eq!(mem.load(Slot(0)), addr_of(0));
    assert_eq!(mem.load(Slot(1)), addr_of(1) + 1);
}

#[test]
fn shortcutting_ends_on_a_cycle_of_placeholders() {
    let heap = fast_heap(
        vec![
            placeholder(StgClosureType::BlackHole, 10),
            placeholder(StgClosureType::BlackHole, 11),
            placeholder(StgClosureType::BlackHole, 12),
        ],
        true,
        false,
    );
    let mut mem = Memory::new(16, 0);
    mem.store(Slot(0), addr_of(0));
    mem.store(Slot(10), addr_of(1));
    mem.store(Slot(11), addr_of(2));
    mem.store(Slot(12), addr_of(0));
    // three objects bound the walk to three links: back at the start
    let end = indirection_shortcutting(&heap, &mut mem, Slot(0));
    assert_eq!(end, TaggedClosureRef(addr_of(0)));
    assert_eq!(mem.load(Slot(0)), addr_of(0));
}

#[test]
fn visit_without_fast_paths_hands_on_the_edge_and_leaves_memory() {
    let heap = fast_heap(
        vec![placeholder(StgClosureType::BlackHole, 10), boxed(IZH, StgClosureType::Constr01, 12)],
        false,
        false,
    );
    let mut mem = Memory::new(16, 0);
    mem.store(Slot(0), addr_of(0));
    mem.store(Slot(1), addr_of(1) + 1);
    mem.store(Slot(10), addr_of(1) + 1);
    mem.store(Slot(12), 7);
    let before = mem.words.clone();
    let mut ev = Vec::new();
    visit(&heap, &mut mem, &mut ev, Slot(0));
    visit(&heap, &mut mem, &mut ev, Slot(1));
    visit(&heap, &mut mem, &mut ev, Slot(500));
    assert_eq!(
        ev,
        vec![
            GHCEdge::ClosureRef(Slot(0)),
            GHCEdge::ClosureRef(Slot(1)),
            GHCEdge::ClosureRef(Slot(500))
        ]
    );
    assert_eq!(mem.words, before);
}

#[test]
fn visit_rewrites_a_small_integer_to_the_shared_instance() {
    let heap = fast_heap(vec![boxed(IZH, StgClosureType::Constr01, 12)], false, true);
    let mut mem = Memory::new(16, 0);
    mem.store(Slot(1), addr_of(0) + 1);
    mem.store(Slot(12), 7);
    let mut ev = Vec::new();
    visit(&heap, &mut mem, &mut ev, Slot(1));
    assert_eq!(ev, Vec::new());
    assert_eq!(mem.load(Slot(1)), INTLIKE_BASE + 16 * 23);
    assert_eq!(mem.load(Slot(12)), 7);
}

#[test]
fn visit_rewrites_a_small_character_to_the_shared_instance() {
    let heap = fast_heap(vec![boxed(CZH, StgClosureType::Constr01, 12)], false, true);
    let mut mem = Memory::new(16, 0);
    mem.store(Slot(1), addr_of(0) + 1);
    mem.store(Slot(12), 97);
    let mut ev = Vec::new();
    visit(&heap, &mut mem, &mut ev, Slot(1));
    assert_eq!(ev, Vec::new());
    assert_eq!(mem.load(Slot(1)), CHARLIKE_BASE + 16 * 97);
}

#[test]
fn visit_keeps_the_edge_of_what_has_no_shared_instance() {
    let heap = fast_heap(
        vec![
            boxed(IZH, StgClosureType::Constr01, 12),
            boxed(IZH, StgClosureType::Constr, 13),
            boxed(55, StgClosureType::Constr01, 13),
        ],
        false,
        true,
    );
    let mut mem = Memory::new(16, 0);
    mem.store(Slot(1), addr_of(0) + 1);
    mem.store(Slot(2), addr_of(1) + 1);
    mem.store(Slot(3), addr_of(2) + 1);
    mem.store(Slot(12), 1000);
    mem.store(Slot(13), 7);
    let before = mem.words.clone();
    let mut ev = Vec::new();
    visit(&heap, &mut mem, &mut ev, Slot(1));
    visit(&heap, &mut mem, &mut ev, Slot(2));
    visit(&heap, &mut mem, &mut ev, Slot(3));
    assert_eq!(
        ev,
        vec![
            GHCEdge::ClosureRef(Slot(1)),
            GHCEdge::ClosureRef(Slot(2)),
            GHCEdge::ClosureRef(Slot(3))
        ]
    );
    assert_eq!(mem.words, before);
}

#[test]
fn visit_applies_both_fast_paths_in_turn() {
    let heap = fast_heap(
        vec![placeholder(StgClosureType::BlackHole, 10), boxed(IZH, StgClosureType::Constr01, 12)],
        true,
        true,
    );
    let mut mem = Memory::new(16, 0);
    mem.store(Slot(0), addr_of(0));
    mem.store(Slot(10), addr_of(1) + 1);
    mem.store(Slot(12), usize::MAX);
    let mut ev = Vec::new();
    visit(&heap, &mut mem, &mut ev, Slot(0));
    assert_eq!(ev, Vec::new());
    assert_eq!(mem.load(Slot(0)), INTLIKE_BASE + 16 * 15);
}

#[test]
fn visit_with_shortcutting_rewrites_and_hands_on_the_edge() {
    let heap = fast_heap(
        vec![placeholder(StgClosureType::BlackHole, 10), boxed(9, StgClosureType::Constr, 12)],
        true,
        false,
    );
    let mut mem = Memory::new(16, 0);
    mem.store(Slot(0), addr_of(0));
    mem.store(Slot(10), addr_of(1) + 1);
    let mut ev = Vec::new();
    visit(&heap, &mut mem, &mut ev, Slot(0));
    assert_eq!(ev, vec![GHCEdge::ClosureRef(Slot(0))]);
    assert_eq!(mem.load(Slot(0)), addr_of(1) + 1);
}

#[test]
fn small_obj_optimisation_reports_whether_it_rewrote() {
    let heap = fast_heap(vec![boxed(IZH, StgClosureType::Constr01, 12)], false, true);
    let mut mem = Memory::new(16, 0);
    mem.store(Slot(12), 255);
    assert!(small_obj_optimisation(&heap, &mut mem, Slot(1), TaggedClosureRef(addr_of(0))));
    assert_eq!(mem.load(Slot(1)), INTLIKE_BASE + 16 * 271);
    mem.store(Slot(12), 256);
    mem.store(Slot(1), 123);
    assert!(!small_obj_optimisation(&heap, &mut mem, Slot(1), TaggedClosureRef(addr_of(0))));
    assert_eq!(mem.load(Slot(1)), 123);
}
