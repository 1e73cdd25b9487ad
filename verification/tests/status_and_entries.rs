use xbpatch_core::patching::{HasPatches, Patch, PatchEntry, PatchOffsetType, PatchReplacement};
use xbpatch_core::status::ThreadContext;

fn raw_patch(offset: u32, bytes: Vec<u8>) -> Patch {
    Patch {
        offset,
        offset_type: PatchOffsetType::Raw,
        replacement: PatchReplacement::Bytes(bytes),
        original_bytes: None,
    }
}

#[test]
fn entry_patch_list_edits() {
    let mut entry = PatchEntry::new(
        String::from("e"),
        String::from("d"),
        Some(String::from("other author")),
        vec![raw_patch(1, vec![1])],
    );
    entry.add_patch(raw_patch(2, vec![2]));
    assert_eq!(entry.get_patches().len(), 2);
    assert_eq!(entry.get_patches()[1].offset, 2);
    entry
        .set_patches(vec![raw_patch(9, vec![9, 9])])
        .unwrap();
    assert_eq!(entry.get_patches().len(), 1);
    assert_eq!(entry.get_patches()[0].offset, 9);
}

#[test]
fn status_record_lifecycle() {
    let mut ctx = ThreadContext::default();
    assert!(!ctx.completed());
    assert!(!ctx.error());
    assert_eq!(ctx.log(), "");

    ctx.append_log("extracting");
    ctx.append_log("patching");
    assert_eq!(ctx.log(), "\nextracting\npatching");

    ctx.mark_completed();
    assert!(ctx.completed());
    assert!(!ctx.error());

    ctx.mark_failed();
    assert!(!ctx.completed());
    assert!(ctx.error());
    assert_eq!(ctx.log(), "\nextracting\npatching");

    ctx.reset();
    assert_eq!(ctx.log(), "");
    assert!(!ctx.completed());
    assert!(!ctx.error());
}
