use xbpatch_core::memory_mapping::{MemoryMap, MemoryMapping};
use xbpatch_core::xbe::{XBEHeader, XBESectionHeader};
use xbpatch_core::PatchError;

fn get_mem_map() -> MemoryMap {
    MemoryMap::new(vec![
        MemoryMapping {
            file_start: 0x0,
            virtual_start: 0x00010000,
            size: 0xf60,
        },
        MemoryMapping {
            file_start: 0x1000,
            virtual_start: 0x00011000,
            size: 0x160020,
        },
    ])
}

#[test]
fn get_raw_address_tests() -> Result<(), String> {
    let mem = get_mem_map();

    assert_eq!(mem.get_raw_offset(0x4d5ac).unwrap(), 0x3d5ac);
    Ok(())
}

#[test]
fn resolve_fixture_address() {
    let mem = get_mem_map();
    assert_eq!(mem.get_raw_offset(0x00011900).unwrap(), 0x1900);
}

#[test]
fn resolve_first_mapping() {
    let mem = get_mem_map();
    // Address inside the first mapping resolves against it.
    assert_eq!(mem.get_raw_offset(0x00010004).unwrap(), 0x4);
    // The inclusive upper bound: exactly virtual_start + size is in range.
    assert_eq!(mem.get_raw_offset(0x00010f60).unwrap(), 0xf60);
}

#[test]
fn resolve_unmapped_address() {
    let mem = get_mem_map();
    assert_eq!(mem.get_raw_offset(0x5), Err(PatchError::NotMapped));
    assert_eq!(mem.get_raw_offset(0xffff_ffff), Err(PatchError::NotMapped));
}

#[test]
fn resolve_first_match_wins() {
    let mem = MemoryMap::new(vec![
        MemoryMapping {
            file_start: 0x100,
            virtual_start: 0x1000,
            size: 0x100,
        },
        MemoryMapping {
            file_start: 0x900,
            virtual_start: 0x1000,
            size: 0x100,
        },
    ]);
    assert_eq!(mem.get_raw_offset(0x1010).unwrap(), 0x110);
}

#[test]
fn resolve_overflowing_offset_is_not_mapped() {
    let mem = MemoryMap::new(vec![MemoryMapping {
        file_start: 0xffff_ff00,
        virtual_start: 0x1000,
        size: 0x1000,
    }]);
    assert_eq!(mem.get_raw_offset(0x1f00), Err(PatchError::NotMapped));
}

#[test]
fn map_from_header_copies_section_fields() {
    let section = XBESectionHeader {
        flags: 7,
        virtual_offset: 0x11000,
        virtual_size: 0x160020,
        file_offset: 0x1000,
        file_size: 0x2000,
        name_ptr: 0,
        reference: 0,
        head_ref_ptr: 0,
        tail_ref_ptr: 0,
    };
    let header = XBEHeader {
        image_base: 0x10000,
        section_count: 1,
        section_header_ptr: 0x10200,
        sections: vec![section],
    };
    let mem = MemoryMap::from_xbe_header(&header);
    assert_eq!(mem.get_raw_offset(0x154919).unwrap(), 0x144919);
}

#[test]
fn contains_block_inside_and_outside() {
    let m = MemoryMapping {
        file_start: 0,
        virtual_start: 0,
        size: 0x100,
    };
    assert!(m.contains_block(0x10, 0x20));
    assert!(!m.contains_block(0x100, 0x1));
    assert!(!m.contains_block(0x10, 0x200));
}
