use xbpatch_core::param::{Endiannness, ParamType, Parameter};
use xbpatch_core::patching::{Patch, PatchEntry, PatchOffsetType, PatchReplacement, PatchSet};
use xbpatch_core::version0::{decode_patch_set_v0, PatchEntryV0, PatchSetV0, PatchV0};
use xbpatch_core::version1::{
    decode_patch_set_v1, encode_patch_set_v1, PatchEntryV1, PatchReplacementV1, PatchSetV1,
    PatchV1, SerializedParameter,
};
use xbpatch_core::PatchError;

fn v0_doc() -> PatchSetV0 {
    PatchSetV0 {
        xbpatchset_schema: 0,
        name: String::from("fixture"),
        author: String::from("someone"),
        version_major: 1,
        version_minor: 2,
        game_title: String::from("a game"),
        entries: vec![PatchEntryV0 {
            name: String::from("uncap frame rate"),
            description: String::from("uncaps the frame rate"),
            alt_author: None,
            patches: vec![
                PatchV0 {
                    offset: String::from("0x00154919"),
                    offset_type: PatchOffsetType::Virtual,
                    replacement_bytes: String::from("0xeb21"),
                    original_bytes: None,
                },
                PatchV0 {
                    offset: String::from("0x00081454"),
                    offset_type: PatchOffsetType::Virtual,
                    replacement_bytes: String::from("0x9090909090909090"),
                    original_bytes: Some(String::from("0xf30f103c")),
                },
            ],
        }],
    }
}

#[test]
fn v0_decodes_into_current_model() {
    let doc = v0_doc();
    let set = decode_patch_set_v0(&doc).unwrap();
    assert_eq!(set.xbpatchset_schema, 0);
    assert_eq!(set.name, "fixture");
    assert_eq!(set.entries.len(), 1);
    let entry = &set.entries[0];
    // Every entry of a V0 document gets an empty parameter list.
    assert!(entry.parameters.is_empty());
    assert_eq!(entry.patches.len(), 2);
    // Every literal byte sequence becomes a direct-bytes replacement.
    assert_eq!(entry.patches[0].offset, 0x154919);
    assert_eq!(
        entry.patches[0].replacement,
        PatchReplacement::Bytes(vec![0xeb, 0x21])
    );
    assert_eq!(entry.patches[0].original_bytes, None);
    assert_eq!(
        entry.patches[1].replacement,
        PatchReplacement::Bytes(vec![0x90; 8])
    );
    assert_eq!(
        entry.patches[1].original_bytes,
        Some(vec![0xf3, 0x0f, 0x10, 0x3c])
    );
}

#[test]
fn v0_rejects_wrong_schema() {
    let mut doc = v0_doc();
    doc.xbpatchset_schema = 1;
    assert_eq!(decode_patch_set_v0(&doc), Err(PatchError::SchemaMismatch));
}

#[test]
fn v0_rejects_malformed_hex() {
    let mut doc = v0_doc();
    doc.entries[0].patches[0].offset = String::from("0xnope");
    assert_eq!(decode_patch_set_v0(&doc), Err(PatchError::MalformedHex));

    let mut doc = v0_doc();
    doc.entries[0].patches[1].replacement_bytes = String::from("0x123");
    assert_eq!(decode_patch_set_v0(&doc), Err(PatchError::MalformedHex));

    let mut doc = v0_doc();
    doc.entries[0].patches[1].original_bytes = Some(String::from("0xZZ"));
    assert_eq!(decode_patch_set_v0(&doc), Err(PatchError::MalformedHex));
}

fn v1_model() -> PatchSet {
    PatchSet {
        xbpatchset_schema: 1,
        name: String::from("fixture"),
        author: String::from("someone"),
        version_major: 3,
        version_minor: 4,
        game_title: String::from("a game"),
        entries: vec![PatchEntry {
            name: String::from("tunable"),
            description: String::from("a parameterized entry"),
            alt_author: Some(String::from("someone else")),
            parameters: vec![Parameter {
                name: String::from("speed"),
                param_type: ParamType::F32,
                endianness: Endiannness::Big,
                default: Some(String::from("0x3f800000")),
                min: None,
                max: Some(String::from("0x41200000")),
                value: String::from("0x40000000"),
            }],
            patches: vec![
                Patch {
                    offset: 0x154919,
                    offset_type: PatchOffsetType::Virtual,
                    replacement: PatchReplacement::Bytes(vec![0xeb, 0x21]),
                    original_bytes: Some(vec![0x74, 0x21]),
                },
                Patch {
                    offset: 0x500,
                    offset_type: PatchOffsetType::Raw,
                    replacement: PatchReplacement::Parameter(0),
                    original_bytes: None,
                },
            ],
        }],
    }
}

#[test]
fn v1_round_trip_preserves_all_fields() {
    let set = v1_model();
    let doc = encode_patch_set_v1(&set);
    let decoded = decode_patch_set_v1(&doc).unwrap();
    assert_eq!(decoded, set);
}

#[test]
fn v1_encode_uses_hex_forms() {
    let set = v1_model();
    let doc = encode_patch_set_v1(&set);
    assert_eq!(doc.entries[0].patches[0].offset, "0x00154919");
    assert_eq!(
        doc.entries[0].patches[0].replacement,
        PatchReplacementV1::Bytes(String::from("0xeb21"))
    );
    assert_eq!(
        doc.entries[0].patches[0].original_bytes,
        Some(String::from("0x7421"))
    );
    // An absent original stays absent.
    assert_eq!(doc.entries[0].patches[1].original_bytes, None);
    assert_eq!(
        doc.entries[0].patches[1].replacement,
        PatchReplacementV1::Parameter(0)
    );
    assert_eq!(doc.entries[0].parameters[0].value_type, "f32");
    assert_eq!(doc.entries[0].parameters[0].value, "0x40000000");
}

fn v1_doc() -> PatchSetV1 {
    encode_patch_set_v1(&v1_model())
}

#[test]
fn v1_rejects_wrong_schema() {
    let mut doc = v1_doc();
    doc.xbpatchset_schema = 0;
    assert_eq!(decode_patch_set_v1(&doc), Err(PatchError::SchemaMismatch));
}

#[test]
fn v1_rejects_unknown_parameter_type() {
    let mut doc = v1_doc();
    doc.entries[0].parameters[0].value_type = String::from("f128");
    assert_eq!(decode_patch_set_v1(&doc), Err(PatchError::SchemaMismatch));
}

#[test]
fn v1_rejects_malformed_hex() {
    let mut doc = v1_doc();
    doc.entries[0].patches[0].offset = String::from("");
    assert_eq!(decode_patch_set_v1(&doc), Err(PatchError::MalformedHex));

    let mut doc = v1_doc();
    doc.entries[0].patches[0].replacement = PatchReplacementV1::Bytes(String::from("0x1"));
    assert_eq!(decode_patch_set_v1(&doc), Err(PatchError::MalformedHex));
}

#[test]
fn v1_decodes_every_parameter_type_name() {
    let names = ["f32", "f64", "u8", "i8", "u16", "i16", "u32", "i32"];
    let kinds = [
        ParamType::F32,
        ParamType::F64,
        ParamType::U8,
        ParamType::I8,
        ParamType::U16,
        ParamType::I16,
        ParamType::U32,
        ParamType::I32,
    ];
    for (name, kind) in names.iter().zip(kinds.iter()) {
        let doc = PatchSetV1 {
            xbpatchset_schema: 1,
            name: String::new(),
            author: String::new(),
            version_major: 0,
            version_minor: 0,
            game_title: String::new(),
            entries: vec![PatchEntryV1 {
                name: String::new(),
                description: String::new(),
                alt_author: None,
                parameters: vec![SerializedParameter {
                    name: String::from("p"),
                    value_type: String::from(*name),
                    endianness: Endiannness::Little,
                    default: None,
                    min: None,
                    max: None,
                    value: String::from("0x0"),
                }],
                patches: vec![],
            }],
        };
        let set = decode_patch_set_v1(&doc).unwrap();
        assert_eq!(set.entries[0].parameters[0].param_type, *kind);
    }
}

#[test]
fn model_helpers() {
    let set = v1_model();
    assert_eq!(set.len(), 1);
    assert!(!set.is_empty());
    let entry = PatchEntry::new(
        String::from("n"),
        String::from("d"),
        None,
        vec![],
    );
    assert_eq!(entry.name(), "n");
    assert_eq!(entry.description(), "d");
    assert!(entry.parameters.is_empty());
}

#[test]
fn patch_v1_decode_keeps_parameter_reference_lazy() {
    // A reference beyond the entry's parameter list still decodes: it is
    // resolved at apply time, not at decode time.
    let doc = PatchSetV1 {
        xbpatchset_schema: 1,
        name: String::new(),
        author: String::new(),
        version_major: 0,
        version_minor: 0,
        game_title: String::new(),
        entries: vec![PatchEntryV1 {
            name: String::new(),
            description: String::new(),
            alt_author: None,
            parameters: vec![],
            patches: vec![PatchV1 {
                offset: String::from("0x10"),
                offset_type: PatchOffsetType::Raw,
                replacement: PatchReplacementV1::Parameter(7),
                original_bytes: None,
            }],
        }],
    };
    let set = decode_patch_set_v1(&doc).unwrap();
    assert_eq!(
        set.entries[0].patches[0].replacement,
        PatchReplacement::Parameter(7)
    );
}
