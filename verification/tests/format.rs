use fmapvec::error::{AllocationError, OpenError};
use fmapvec::file::BackingFile;
use fmapvec::growth::{plan_growth, plan_push, GrowthPlan, PushPlan};
use fmapvec::header::{
    carries_magic, decode_header, encode_header, magic_bytes, read_len, LEN_OFFSET,
    RESERVED_OFFSET,
};
use fmapvec::layout::{
    capacity_for, checked_file_len, is_well_sized, HEADER_SIZE, INITIAL_SLOTS, MAPPING_CEILING,
};
use fmapvec::open::{plan_open, plan_open_hints, validate_header, OpenHints, OpenPlan};
use fmapvec::paging::{Advice, Hint};

#[test]
fn layout_constants() {
    assert_eq!(HEADER_SIZE, 4096);
    assert_eq!(INITIAL_SLOTS, 32);
    assert_eq!(MAPPING_CEILING, 1u64 << 40);
    assert_eq!(LEN_OFFSET, 8);
    assert_eq!(RESERVED_OFFSET, 16);
    assert_eq!(&magic_bytes(), b"FMAPVEC\0");
}

#[test]
fn file_length_for_a_capacity() {
    assert_eq!(checked_file_len(32, 8, MAPPING_CEILING), Some(4352));
    assert_eq!(checked_file_len(0, 8, MAPPING_CEILING), Some(4096));
    assert_eq!(checked_file_len(10, 3, 4126), Some(4126));
    assert_eq!(checked_file_len(10, 3, 4125), None);
    assert_eq!(checked_file_len(usize::MAX, 2, u64::MAX), None);
    assert_eq!(checked_file_len(usize::MAX, 1, u64::MAX), None);
    assert_eq!(checked_file_len((1 << 37) - 512, 8, MAPPING_CEILING), Some(1 << 40));
    assert_eq!(checked_file_len((1 << 37) - 511, 8, MAPPING_CEILING), None);
}

#[test]
fn well_sized_files() {
    assert!(is_well_sized(4096, 8));
    assert!(is_well_sized(4352, 8));
    assert!(is_well_sized(4099, 3));
    assert!(!is_well_sized(4100, 3));
    assert!(!is_well_sized(4095, 1));
    assert!(!is_well_sized(0, 8));
    assert!(!is_well_sized(4096, 0));
}

#[test]
fn capacity_of_a_file() {
    assert_eq!(capacity_for(4096, 8), 0);
    assert_eq!(capacity_for(4352, 8), 32);
    assert_eq!(capacity_for(4096 + 21, 7), 3);
}

#[test]
fn header_page_bytes() {
    let page = encode_header(0x0807_0605_0403_0201);
    assert_eq!(page.len(), 4096);
    assert_eq!(&page[0..8], b"FMAPVEC\0");
    assert_eq!(&page[8..16], &[1, 2, 3, 4, 5, 6, 7, 8]);
    assert!(page[16..].iter().all(|b| *b == 0));
}

#[test]
fn header_round_trip() {
    for len in [0u64, 1, 255, 256, 10000, u64::MAX] {
        let page = encode_header(len);
        assert!(carries_magic(&page));
        assert_eq!(read_len(&page), len);
        assert_eq!(decode_header(&page), Ok(len));
        assert_eq!(decode_header(&page[..16]), Ok(len));
    }
}

#[test]
fn header_without_the_signature_is_corrupt() {
    for i in 0..8 {
        let mut page = encode_header(4);
        page[i] = page[i].wrapping_add(1);
        assert!(!carries_magic(&page));
        assert_eq!(decode_header(&page), Err(OpenError::CorruptHeader));
    }
    let mut page = encode_header(4);
    page[20] = 1;
    assert_eq!(decode_header(&page), Ok(4));
}

#[test]
fn short_headers_are_corrupt() {
    let page = encode_header(4);
    assert!(!carries_magic(&page[..7]));
    assert!(carries_magic(&page[..8]));
    assert_eq!(decode_header(&page[..0]), Err(OpenError::CorruptHeader));
    assert_eq!(decode_header(&page[..8]), Err(OpenError::CorruptHeader));
    assert_eq!(decode_header(&page[..15]), Err(OpenError::CorruptHeader));
}

#[test]
fn header_is_validated_against_the_capacity() {
    let page = encode_header(32);
    assert_eq!(validate_header(&page, 32), Ok(32));
    assert_eq!(validate_header(&page, 64), Ok(32));
    assert_eq!(validate_header(&page, 31), Err(OpenError::CorruptHeader));
    assert_eq!(validate_header(&page[..15], 64), Err(OpenError::CorruptHeader));
    let mut bad = encode_header(0);
    bad[7] = 1;
    assert_eq!(validate_header(&bad, 64), Err(OpenError::CorruptHeader));
}

#[test]
fn growth_plan_doubles_in_place() {
    let plan = plan_growth(32, 8, MAPPING_CEILING);
    assert_eq!(
        plan,
        Ok(GrowthPlan {
            new_capacity: 64,
            offset: 4352,
            len: 256,
            cold: Hint { offset: 4096, len: 256, advice: Advice::Random },
            frontier: Hint { offset: 4352, len: 256, advice: Advice::Sequential },
        })
    );
    let plan = plan_growth(3, 5, 4096 + 30).unwrap();
    assert_eq!(plan.new_capacity, 6);
    assert_eq!(plan.offset, 4096 + 15);
    assert_eq!(plan.len, 15);
}

#[test]
fn growth_plan_refusals() {
    assert_eq!(plan_growth(0, 8, MAPPING_CEILING), Err(AllocationError::EmptyRange));
    assert_eq!(plan_growth(32, 0, MAPPING_CEILING), Err(AllocationError::EmptyRange));
    assert_eq!(plan_growth(3, 5, 4096 + 29), Err(AllocationError::CeilingReached));
    assert_eq!(plan_growth(usize::MAX / 2 + 1, 1, u64::MAX), Err(AllocationError::CeilingReached));
    assert_eq!(plan_growth(usize::MAX / 4, 8, u64::MAX), Err(AllocationError::CeilingReached));
    assert_eq!(plan_growth(1 << 36, 8, MAPPING_CEILING), Err(AllocationError::CeilingReached));
}

#[test]
fn push_plan_with_room() {
    assert_eq!(
        plan_push(5, 32, 8, MAPPING_CEILING),
        Ok(PushPlan { growth: None, offset: 4096 + 40, new_len: 6 })
    );
    assert_eq!(
        plan_push(0, 1, 3, 0),
        Ok(PushPlan { growth: None, offset: 4096, new_len: 1 })
    );
}

#[test]
fn push_plan_when_full() {
    let plan = plan_push(32, 32, 8, MAPPING_CEILING).unwrap();
    assert_eq!(plan.growth, plan_growth(32, 8, MAPPING_CEILING).ok());
    assert_eq!(plan.offset, 4352);
    assert_eq!(plan.new_len, 33);
    assert_eq!(plan_push(32, 32, 8, 4096 + 511), Err(AllocationError::CeilingReached));
    assert_eq!(plan_push(0, 0, 8, MAPPING_CEILING), Err(AllocationError::EmptyRange));
}

#[test]
fn open_plan_outcomes() {
    assert_eq!(plan_open(false, 0, 8, MAPPING_CEILING), Err(OpenError::Permission));
    assert_eq!(plan_open(false, 17, 0, MAPPING_CEILING), Err(OpenError::Permission));
    assert_eq!(
        plan_open(true, 0, 8, MAPPING_CEILING),
        Ok(OpenPlan::Initialize { len: 4352, capacity: 32 })
    );
    assert_eq!(
        plan_open(true, 0, 16, MAPPING_CEILING),
        Ok(OpenPlan::Initialize { len: 4608, capacity: 32 })
    );
    assert_eq!(plan_open(true, 0, 8, 4351), Err(OpenError::Mapping));
    assert_eq!(plan_open(true, 4096, 8, MAPPING_CEILING), Ok(OpenPlan::Attach { capacity: 0 }));
    assert_eq!(plan_open(true, 4096 + 80, 8, 4096 + 80), Ok(OpenPlan::Attach { capacity: 10 }));
    assert_eq!(plan_open(true, 4096 + 80, 8, 4096 + 79), Err(OpenError::Mapping));
}

#[test]
fn open_hints_cover_the_mapping() {
    assert_eq!(
        plan_open_hints(32, 8, MAPPING_CEILING),
        OpenHints {
            header: Hint { offset: 0, len: 4096, advice: Advice::WillNeed },
            records: Hint { offset: 4096, len: 256, advice: Advice::WillNeed },
            reserve: Hint { offset: 4352, len: (1 << 40) - 4352, advice: Advice::DontNeed },
        }
    );
    let hints = plan_open_hints(0, 8, 4096);
    assert_eq!(hints.records, Hint { offset: 4096, len: 0, advice: Advice::WillNeed });
    assert_eq!(hints.reserve, Hint { offset: 4096, len: 0, advice: Advice::DontNeed });
    let hints = plan_open_hints(10, 3, 5000);
    assert_eq!(hints.records.len, 30);
    assert_eq!(hints.reserve, Hint { offset: 4126, len: 874, advice: Advice::DontNeed });
}

#[test]
fn allocation_extends_with_zeros_and_keeps_the_bytes() {
    let mut file = BackingFile { bytes: vec![1, 2, 3], writable: true, limit: 10 };
    assert_eq!(file.allocate(3, 4), Ok(()));
    assert_eq!(file.bytes, vec![1, 2, 3, 0, 0, 0, 0]);
    assert_eq!(file.allocate(0, 5), Ok(()));
    assert_eq!(file.bytes, vec![1, 2, 3, 0, 0, 0, 0]);
    assert_eq!(file.allocate(5, 5), Ok(()));
    assert_eq!(file.bytes, vec![1, 2, 3, 0, 0, 0, 0, 0, 0, 0]);
    assert!(file.writable);
    assert_eq!(file.limit, 10);
}

#[test]
fn allocation_refusals_change_nothing() {
    let mut file = BackingFile { bytes: vec![1, 2, 3], writable: true, limit: 10 };
    assert_eq!(file.allocate(3, 0), Err(AllocationError::EmptyRange));
    assert_eq!(file.allocate(3, 8), Err(AllocationError::StoreFull));
    assert_eq!(file.allocate(11, 1), Err(AllocationError::StoreFull));
    assert_eq!(file.allocate(usize::MAX, 1), Err(AllocationError::StoreFull));
    assert_eq!(file.allocate(usize::MAX, usize::MAX), Err(AllocationError::StoreFull));
    assert_eq!(file, BackingFile { bytes: vec![1, 2, 3], writable: true, limit: 10 });
}

#[test]
fn write_and_read_bytes() {
    let mut file = BackingFile { bytes: vec![0; 8], writable: true, limit: 8 };
    file.write(2, &[7, 8, 9]);
    assert_eq!(file.bytes, vec![0, 0, 7, 8, 9, 0, 0, 0]);
    file.write(8, &[]);
    file.write(5, &[1, 2, 3]);
    assert_eq!(file.bytes, vec![0, 0, 7, 8, 9, 1, 2, 3]);
    assert_eq!(file.read::<3>(2), [7, 8, 9]);
    assert_eq!(file.read::<0>(8), []);
    assert_eq!(file.read::<8>(0), [0, 0, 7, 8, 9, 1, 2, 3]);
}

#[test]
fn created_file_is_empty_and_writable() {
    let file = BackingFile::create(77);
    assert_eq!(file, BackingFile { bytes: Vec::new(), writable: true, limit: 77 });
}
