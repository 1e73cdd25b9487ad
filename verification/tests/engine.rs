use xbpatch_core::param::{Endiannness, ParamType, Parameter};
use xbpatch_core::patching::{Patch, PatchEntry, PatchOffsetType, PatchReplacement};
use xbpatch_core::xbe::{PatchReport, XBEHeader, XBEWriter};
use xbpatch_core::PatchError;

fn put_le32(img: &mut Vec<u8>, off: usize, v: u32) {
    img[off..off + 4].copy_from_slice(&v.to_le_bytes());
}

/// An image whose own header announces the two fixture sections.
fn make_image(len: usize) -> Vec<u8> {
    let image_base: u32 = 0x10000;
    let table_ptr: u32 = image_base + 0x200;
    let mut img = vec![0u8; len];
    put_le32(&mut img, 0x104, image_base);
    put_le32(&mut img, 0x11c, 2); // section count
    put_le32(&mut img, 0x120, table_ptr);
    // Section records: flags, virtual_offset, virtual_size, file_offset,
    // file_size, name_ptr, reference, head_ref_ptr, tail_ref_ptr.
    let t = 0x200;
    put_le32(&mut img, t + 4, 0x10000); // virtual_offset
    put_le32(&mut img, t + 8, 0xf60); // virtual_size
    put_le32(&mut img, t + 12, 0x0); // file_offset
    let t = 0x200 + 36;
    put_le32(&mut img, t + 4, 0x11000);
    put_le32(&mut img, t + 8, 0x160020);
    put_le32(&mut img, t + 12, 0x1000);
    img
}

#[test]
fn header_parses_from_image() {
    let img = make_image(0x1000);
    let header = XBEHeader::from_image(&img).unwrap();
    assert_eq!(header.section_count(), 2);
    assert_eq!(header.sections().len(), 2);
    assert_eq!(header.sections()[1].virtual_offset, 0x11000);
    assert_eq!(header.sections()[1].file_offset, 0x1000);
    assert_eq!(header.image_base, 0x10000);
}

#[test]
fn header_rejects_short_image() {
    let img = vec![0u8; 0x100];
    assert_eq!(
        XBEHeader::from_image(&img),
        Err(PatchError::TruncatedOrInvalidHeader)
    );
}

#[test]
fn header_rejects_pointer_below_base() {
    let mut img = vec![0u8; 0x1000];
    put_le32(&mut img, 0x104, 0x10000);
    put_le32(&mut img, 0x11c, 1);
    put_le32(&mut img, 0x120, 0x100); // below the image base
    assert_eq!(
        XBEHeader::from_image(&img),
        Err(PatchError::TruncatedOrInvalidHeader)
    );
}

#[test]
fn header_rejects_truncated_section_table() {
    let mut img = vec![0u8; 0x210];
    put_le32(&mut img, 0x104, 0x10000);
    put_le32(&mut img, 0x11c, 4); // four records would run past the end
    put_le32(&mut img, 0x120, 0x10200);
    assert_eq!(
        XBEHeader::from_image(&img),
        Err(PatchError::TruncatedOrInvalidHeader)
    );
}

#[test]
fn apply_one_virtual_patch_changes_exactly_two_bytes() {
    let img = make_image(0x150000);
    let expected_off = 0x144919usize; // 0x1000 + (0x154919 - 0x11000)
    let mut before = img.clone();
    let mut writer = XBEWriter::new(img).unwrap();
    let patch = Patch {
        offset: 0x154919,
        offset_type: PatchOffsetType::Virtual,
        replacement: PatchReplacement::Bytes(vec![0xeb, 0x21]),
        original_bytes: None,
    };
    writer.apply_patch(&patch, &Vec::new()).unwrap();
    assert_eq!(writer.image[expected_off], 0xeb);
    assert_eq!(writer.image[expected_off + 1], 0x21);
    // No other byte of the file changed.
    before[expected_off] = 0xeb;
    before[expected_off + 1] = 0x21;
    assert_eq!(writer.image, before);
}

#[test]
fn apply_raw_patch() {
    let img = make_image(0x1000);
    let mut writer = XBEWriter::new(img).unwrap();
    let patch = Patch {
        offset: 0x500,
        offset_type: PatchOffsetType::Raw,
        replacement: PatchReplacement::Bytes(vec![1, 2, 3]),
        original_bytes: Some(vec![0, 0, 0]),
    };
    writer.apply_patch(&patch, &Vec::new()).unwrap();
    assert_eq!(&writer.image[0x500..0x503], &[1, 2, 3]);
}

#[test]
fn apply_unmapped_virtual_patch_fails() {
    let img = make_image(0x1000);
    let mut writer = XBEWriter::new(img).unwrap();
    let patch = Patch {
        offset: 0x5,
        offset_type: PatchOffsetType::Virtual,
        replacement: PatchReplacement::Bytes(vec![1]),
        original_bytes: None,
    };
    assert_eq!(
        writer.apply_patch(&patch, &Vec::new()),
        Err(PatchError::NotMapped)
    );
}

#[test]
fn apply_out_of_bounds_write_fails_and_changes_nothing() {
    let img = make_image(0x1000);
    let before = img.clone();
    let mut writer = XBEWriter::new(img).unwrap();
    let patch = Patch {
        offset: 0xFFE,
        offset_type: PatchOffsetType::Raw,
        replacement: PatchReplacement::Bytes(vec![1, 2, 3]),
        original_bytes: None,
    };
    assert_eq!(
        writer.apply_patch(&patch, &Vec::new()),
        Err(PatchError::IoFailure)
    );
    assert_eq!(writer.image, before);
}

#[test]
fn apply_entry_counts_success_and_failure() {
    let img = make_image(0x1000);
    let mut writer = XBEWriter::new(img).unwrap();
    let good = Patch {
        offset: 0x500,
        offset_type: PatchOffsetType::Raw,
        replacement: PatchReplacement::Bytes(vec![0xaa, 0xbb]),
        original_bytes: None,
    };
    let bad = Patch {
        offset: 0x5, // no mapping covers this virtual address
        offset_type: PatchOffsetType::Virtual,
        replacement: PatchReplacement::Bytes(vec![0xcc]),
        original_bytes: None,
    };
    let entry = PatchEntry::new(
        String::from("mixed"),
        String::from("one good, one bad"),
        None,
        vec![good, bad],
    );
    let report = writer.apply_patches(&entry).unwrap();
    assert_eq!(report.successes(), 1);
    assert_eq!(report.failures(), 1);
    assert!(!report.patch_successful());
    // The successful patch's bytes are present: no rollback happened.
    assert_eq!(&writer.image[0x500..0x502], &[0xaa, 0xbb]);
}

#[test]
fn apply_entry_with_dangling_parameter_reference_is_fatal() {
    let img = make_image(0x1000);
    let mut writer = XBEWriter::new(img).unwrap();
    let patch = Patch {
        offset: 0x500,
        offset_type: PatchOffsetType::Raw,
        replacement: PatchReplacement::Parameter(5),
        original_bytes: None,
    };
    let entry = PatchEntry::new(
        String::from("dangling"),
        String::from("references a parameter that does not exist"),
        None,
        vec![patch],
    );
    assert_eq!(
        writer.apply_patches(&entry),
        Err(PatchError::ParameterIndexOutOfRange)
    );
}

#[test]
fn apply_parameter_patch_writes_materialized_value() {
    let img = make_image(0x1000);
    let mut writer = XBEWriter::new(img).unwrap();
    let param = Parameter {
        name: String::from("speed"),
        param_type: ParamType::U16,
        endianness: Endiannness::Little,
        default: None,
        min: None,
        max: None,
        value: String::from("0x1234"),
    };
    let patch = Patch {
        offset: 0x500,
        offset_type: PatchOffsetType::Raw,
        replacement: PatchReplacement::Parameter(0),
        original_bytes: None,
    };
    writer.apply_patch(&patch, &vec![param]).unwrap();
    assert_eq!(&writer.image[0x500..0x502], &[0x34, 0x12]);
}

#[test]
fn materialize_respects_endianness_and_width() {
    let mut param = Parameter {
        name: String::from("k"),
        param_type: ParamType::U32,
        endianness: Endiannness::Little,
        default: None,
        min: None,
        max: None,
        value: String::from("0xdeadbeef"),
    };
    assert_eq!(param.materialize().unwrap(), vec![0xef, 0xbe, 0xad, 0xde]);
    param.endianness = Endiannness::Big;
    assert_eq!(param.materialize().unwrap(), vec![0xde, 0xad, 0xbe, 0xef]);
    param.param_type = ParamType::F64;
    assert_eq!(
        param.materialize().unwrap(),
        vec![0, 0, 0, 0, 0xde, 0xad, 0xbe, 0xef]
    );
}

#[test]
fn materialize_rejects_oversized_and_malformed_values() {
    let mut param = Parameter {
        name: String::from("k"),
        param_type: ParamType::U8,
        endianness: Endiannness::Little,
        default: None,
        min: None,
        max: None,
        value: String::from("0x1ff"),
    };
    assert_eq!(param.materialize(), Err(PatchError::MalformedHex));
    param.value = String::from("nonsense");
    assert_eq!(param.materialize(), Err(PatchError::MalformedHex));
    param.value = String::from("");
    assert_eq!(param.materialize(), Err(PatchError::MalformedHex));
    param.value = String::from("0xff");
    assert_eq!(param.materialize().unwrap(), vec![0xff]);
}

#[test]
fn report_counts_and_totals() {
    let mut report = PatchReport::default();
    assert!(report.patch_successful());
    report.add_success();
    report.add_success();
    report.add_failure();
    assert_eq!(report.successes(), 2);
    assert_eq!(report.failures(), 1);
    assert_eq!(report.total(), 3);
    assert!(!report.patch_successful());
    report.increment_from_bool(true);
    report.increment_from_bool(false);
    assert_eq!(report.successes(), 3);
    assert_eq!(report.failures(), 2);
}
