use mmtk_ghc::edges::{GHCEdge, Slot};
use mmtk_ghc::memory::Memory;
use mmtk_ghc::object_scanning::{
    scan_closure_payload, scan_large_bitmap, scan_small_bitmap, scan_srt, scan_srt_fun,
    scan_srt_thunk,
};
use mmtk_ghc::stg_closures::{ClosurePayload, Heap, ObjectReference, ScanOptions};
use mmtk_ghc::stg_info_table::{
    StgFunInfoExtraRev, StgFunInfoTable, StgInfoTable, StgLargeBitmap, StgRetInfoTable,
    StgThunkInfoTable,
};
use mmtk_ghc::types::{StgClosureType, StgFunType, StgSmallBitmap};

fn plain_heap() -> Heap {
    Heap {
        objects: vec![],
        options: ScanOptions { indirection_shortcutting: false, small_obj_optimisation: false },
        izh_con_info: 1000,
        czh_con_info: 1001,
        intlike: vec![],
        charlike: vec![],
        end_tso_queue: ObjectReference(0),
        large_bitmaps: vec![],
    }
}

fn field_edges(start: usize, fields: &[usize]) -> Vec<GHCEdge> {
    fields.iter().map(|i| GHCEdge::ClosureRef(Slot(start + i))).collect()
}

fn table(id: usize) -> StgInfoTable {
    StgInfoTable { id, type_: StgClosureType::Fun, ptrs: 0, nptrs: 0 }
}

#[test]
fn small_bitmap_accessors_split_size_and_bits() {
    let b = StgSmallBitmap::new(5, 0b10110);
    assert_eq!(b.0, 0b10110 * 64 + 5);
    assert_eq!(b.size(), 5);
    assert_eq!(b.bits(), 0b10110);
    assert_eq!(StgSmallBitmap(0).size(), 0);
    assert_eq!(StgSmallBitmap(63).size(), 63);
    assert_eq!(StgSmallBitmap(64).bits(), 1);
}

#[test]
fn small_bitmap_visits_fields_with_zero_bits() {
    let heap = plain_heap();
    let mut mem = Memory::new(64, 0);
    let mut ev = Vec::new();
    let payload = ClosurePayload { start: 10 };
    // bits 1, 2 and 4 are set: fields 0 and 3 hold references
    scan_small_bitmap(&heap, &mut mem, &payload, StgSmallBitmap::new(5, 0b10110), 5, &mut ev);
    assert_eq!(ev, field_edges(10, &[0, 3]));
}

#[test]
fn small_bitmap_every_pattern_of_eight_fields() {
    let heap = plain_heap();
    let payload = ClosurePayload { start: 3 };
    for size in 0..=8usize {
        for bits in 0..256usize {
            let mut mem = Memory::new(16, 0);
            let mut ev = Vec::new();
            scan_small_bitmap(&heap, &mut mem, &payload, StgSmallBitmap::new(8, bits), size, &mut ev);
            let expected: Vec<usize> = (0..size).filter(|i| (bits >> i) & 1 == 0).collect();
            assert_eq!(ev, field_edges(3, &expected));
        }
    }
}

#[test]
fn small_bitmap_all_zero_visits_all_and_all_one_visits_none() {
    let heap = plain_heap();
    let payload = ClosurePayload { start: 0 };
    let mut mem = Memory::new(64, 0);
    let mut ev = Vec::new();
    scan_small_bitmap(&heap, &mut mem, &payload, StgSmallBitmap::new(6, 0), 6, &mut ev);
    assert_eq!(ev, field_edges(0, &[0, 1, 2, 3, 4, 5]));
    let mut ev = Vec::new();
    scan_small_bitmap(&heap, &mut mem, &payload, StgSmallBitmap::new(6, 0b111111), 6, &mut ev);
    assert_eq!(ev, Vec::new());
    let mut ev = Vec::new();
    scan_small_bitmap(&heap, &mut mem, &payload, StgSmallBitmap::new(0, 0), 0, &mut ev);
    assert_eq!(ev, Vec::new());
}

#[test]
fn small_bitmap_size_beyond_the_bits_reads_zero_bits() {
    let heap = plain_heap();
    let payload = ClosurePayload { start: 0 };
    let mut mem = Memory::new(128, 0);
    let mut ev = Vec::new();
    // the word's bits are all set below bit 58; fields from 58 on read zero
    let bits = usize::MAX / 64;
    scan_small_bitmap(&heap, &mut mem, &payload, StgSmallBitmap::new(0, bits), 60, &mut ev);
    assert_eq!(ev, field_edges(0, &[58, 59]));
}

#[test]
fn small_bitmap_appends_to_the_edges_already_there() {
    let heap = plain_heap();
    let payload = ClosurePayload { start: 4 };
    let mut mem = Memory::new(16, 0);
    let mut ev = vec![GHCEdge::ClosureRef(Slot(99))];
    scan_small_bitmap(&heap, &mut mem, &payload, StgSmallBitmap::new(2, 0b10), 2, &mut ev);
    assert_eq!(ev, vec![GHCEdge::ClosureRef(Slot(99)), GHCEdge::ClosureRef(Slot(4))]);
}

#[test]
fn large_bitmap_walks_word_after_word() {
    let heap = plain_heap();
    let payload = ClosurePayload { start: 100 };
    let mut mem = Memory::new(300, 0);
    let mut ev = Vec::new();
    // word 0: only bit 1 is zero; word 1: bits 0 and 5 are zero
    let w0 = !(1usize << 1);
    let w1 = !((1usize << 0) | (1usize << 5));
    let bitmap = StgLargeBitmap { size: 70, bitmap: vec![w0, w1] };
    assert!(bitmap.is_wf());
    scan_large_bitmap(&heap, &mut mem, &payload, &bitmap, 70, &mut ev);
    assert_eq!(ev, field_edges(100, &[1, 64, 69]));
}

#[test]
fn large_bitmap_scans_fewer_fields_than_it_describes() {
    let heap = plain_heap();
    let payload = ClosurePayload { start: 0 };
    let mut mem = Memory::new(300, 0);
    let mut ev = Vec::new();
    let bitmap = StgLargeBitmap { size: 128, bitmap: vec![usize::MAX, 0] };
    scan_large_bitmap(&heap, &mut mem, &payload, &bitmap, 66, &mut ev);
    assert_eq!(ev, field_edges(0, &[64, 65]));
    let mut ev = Vec::new();
    scan_large_bitmap(&heap, &mut mem, &payload, &bitmap, 64, &mut ev);
    assert_eq!(ev, Vec::new());
    let mut ev = Vec::new();
    scan_large_bitmap(&heap, &mut mem, &payload, &bitmap, 0, &mut ev);
    assert_eq!(ev, Vec::new());
}

#[test]
fn large_bitmap_validity() {
    assert!(StgLargeBitmap { size: 0, bitmap: vec![] }.is_wf());
    assert!(StgLargeBitmap { size: 64, bitmap: vec![0] }.is_wf());
    assert!(!StgLargeBitmap { size: 65, bitmap: vec![0] }.is_wf());
    assert!(StgLargeBitmap { size: 65, bitmap: vec![0, 0] }.is_wf());
}

#[test]
fn closure_payload_visits_the_first_words_in_order() {
    let heap = plain_heap();
    let payload = ClosurePayload { start: 7 };
    let mut mem = Memory::new(16, 0);
    let mut ev = Vec::new();
    scan_closure_payload(&heap, &mut mem, &payload, 3, &mut ev);
    assert_eq!(ev, field_edges(7, &[0, 1, 2]));
    let mut ev = Vec::new();
    scan_closure_payload(&heap, &mut mem, &payload, 0, &mut ev);
    assert_eq!(ev, Vec::new());
    assert_eq!(payload.get_ref(2), Slot(9));
    assert!(payload.check_fits(5));
    assert!(!ClosurePayload { start: usize::MAX }.check_fits(1));
}

#[test]
fn srt_edge_only_where_the_table_has_one() {
    let srt = Some(ObjectReference(800));
    let ret = StgRetInfoTable { i: table(7), srt };
    let thunk = StgThunkInfoTable { i: table(8), srt };
    let extra = StgFunInfoExtraRev {
        fun_type: StgFunType::ArgGen,
        srt,
        small_bitmap: StgSmallBitmap(0),
        large_bitmap_ref: 0,
    };
    let fun = StgFunInfoTable { i: table(9), f: extra };
    let mut ev = Vec::new();
    scan_srt(&ret, &mut ev);
    scan_srt(&StgRetInfoTable { srt: None, ..ret }, &mut ev);
    scan_srt_thunk(&thunk, &mut ev);
    scan_srt_thunk(&StgThunkInfoTable { srt: None, ..thunk }, &mut ev);
    scan_srt_fun(&fun, &mut ev);
    scan_srt_fun(&StgFunInfoTable { i: table(9), f: StgFunInfoExtraRev { srt: None, ..extra } }, &mut ev);
    assert_eq!(ev, vec![GHCEdge::RetSrtRef(ret), GHCEdge::ThunkSrtRef(thunk), GHCEdge::FunSrtRef(fun)]);
    assert_eq!(ret.get_srt(), srt);
    assert_eq!(thunk.get_srt(), srt);
    assert_eq!(fun.get_srt(), srt);
}

#[test]
fn fun_type_bitmap_of_a_pattern() {
    assert_eq!(StgFunType::ArgPattern(StgSmallBitmap(130)).get_small_bitmap(), StgSmallBitmap(130));
    assert_eq!(StgFunType::ArgGen.get_small_bitmap(), StgSmallBitmap(0));
    assert_eq!(StgFunType::ArgBco.get_small_bitmap(), StgSmallBitmap(0));
}
