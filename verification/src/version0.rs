//! The first persisted schema generation: patches carry only literal
//! replacement bytes and entries have no parameters. A V0 document decodes
//! losslessly into the current model by synthesizing an empty parameter
//! list per entry and wrapping each literal byte sequence as a
//! direct-bytes replacement.

use vstd::prelude::*;
use vstd::string::*;

use crate::patching::{
    opt_str_view_eq, Patch, PatchEntry, PatchOffsetType, PatchReplacement, PatchSet,
};
use crate::serialization::{
    all_hex_digits, de_hex_to_u32, de_hex_to_vu8, hex_body, hex_bytes_ok, hex_pairs, hex_u32_ok,
    hex_val, lemma_hex_val_nonneg,
};
use crate::PatchError;

verus! {

/// A whole V0 document, with numeric fields still in their hex text form.
#[derive(Debug, Clone, PartialEq)]
pub struct PatchSetV0 {
    pub xbpatchset_schema: u32,
    pub name: String,
    pub author: String,
    pub version_major: u8,
    pub version_minor: u8,
    pub game_title: String,
    pub entries: Vec<PatchEntryV0>,
}

#[derive(Debug, Clone, PartialEq)]
pub struct PatchEntryV0 {
    pub name: String,
    pub description: String,
    /// Specified when another author made this particular entry of a set.
    pub alt_author: Option<String>,
    pub patches: Vec<PatchV0>,
}

#[derive(Debug, Clone, PartialEq)]
pub struct PatchV0 {
    pub offset: String,
    pub offset_type: PatchOffsetType,
    pub replacement_bytes: String,
    pub original_bytes: Option<String>,
}

/// The first fault of a V0 patch in field order: offset, replacement,
/// then the optional original bytes.
pub open spec fn patch_v0_error(p: PatchV0) -> Option<PatchError> {
    if !hex_u32_ok(p.offset@) {
        Some(PatchError::MalformedHex)
    } else if !hex_bytes_ok(p.replacement_bytes@) {
        Some(PatchError::MalformedHex)
    } else if p.original_bytes matches Some(ob) && !hex_bytes_ok(ob@) {
        Some(PatchError::MalformedHex)
    } else {
        None
    }
}

pub open spec fn patches_v0_error_from(patches: Seq<PatchV0>, i: int) -> Option<PatchError>
    decreases patches.len() - i,
{
    if i < 0 || i >= patches.len() {
        None
    } else {
        match patch_v0_error(patches[i]) {
            Some(e) => Some(e),
            None => patches_v0_error_from(patches, i + 1),
        }
    }
}

pub open spec fn entry_v0_error(e: PatchEntryV0) -> Option<PatchError> {
    patches_v0_error_from(e.patches@, 0)
}

pub open spec fn entries_v0_error_from(entries: Seq<PatchEntryV0>, i: int) -> Option<PatchError>
    decreases entries.len() - i,
{
    if i < 0 || i >= entries.len() {
        None
    } else {
        match entry_v0_error(entries[i]) {
            Some(e) => Some(e),
            None => entries_v0_error_from(entries, i + 1),
        }
    }
}

/// The first fault of a whole V0 document: a schema tag other than 0 is a
/// mismatch; after that, entries in order.
pub open spec fn decode_v0_error(doc: PatchSetV0) -> Option<PatchError> {
    if doc.xbpatchset_schema != 0 {
        Some(PatchError::SchemaMismatch)
    } else {
        entries_v0_error_from(doc.entries@, 0)
    }
}

pub open spec fn patch_v0_decodes_to(w: PatchV0, m: Patch) -> bool {
    &&& m.offset == hex_val(hex_body(w.offset@))
    &&& m.offset_type == w.offset_type
    &&& m.replacement matches PatchReplacement::Bytes(b) && b@ == hex_pairs(
        hex_body(w.replacement_bytes@),
    )
    &&& match w.original_bytes {
        Some(ob) => m.original_bytes matches Some(mb) && mb@ == hex_pairs(hex_body(ob@)),
        None => m.original_bytes is None,
    }
}

pub open spec fn entry_v0_decodes_to(w: PatchEntryV0, m: PatchEntry) -> bool {
    &&& m.name@ == w.name@
    &&& m.description@ == w.description@
    &&& opt_str_view_eq(w.alt_author, m.alt_author)
    &&& m.parameters@.len() == 0
    &&& m.patches@.len() == w.patches@.len()
    &&& forall|i: int|
        0 <= i < w.patches@.len() ==> patch_v0_decodes_to(w.patches@[i], #[trigger] m.patches@[i])
}

pub open spec fn set_v0_decodes_to(w: PatchSetV0, m: PatchSet) -> bool {
    &&& m.xbpatchset_schema == w.xbpatchset_schema
    &&& m.name@ == w.name@
    &&& m.author@ == w.author@
    &&& m.version_major == w.version_major
    &&& m.version_minor == w.version_minor
    &&& m.game_title@ == w.game_title@
    &&& m.entries@.len() == w.entries@.len()
    &&& forall|i: int|
        0 <= i < w.entries@.len() ==> entry_v0_decodes_to(w.entries@[i], #[trigger] m.entries@[i])
}

pub(crate) fn clone_opt_string(s: &Option<String>) -> (r: Option<String>)
    ensures
        opt_str_view_eq(*s, r),
{
    match s {
        Some(x) => Some(x.clone()),
        None => None,
    }
}

fn decode_patch_v0(w: &PatchV0) -> (r: Result<Patch, PatchError>)
    ensures
        patch_v0_error(*w) matches Some(e) ==> r == Err::<Patch, PatchError>(e),
        patch_v0_error(*w) is None ==> (r matches Ok(m) && patch_v0_decodes_to(*w, m)),
{
    proof {
        if all_hex_digits(hex_body(w.offset@)) {
            lemma_hex_val_nonneg(hex_body(w.offset@));
        }
    }
    let offset = match de_hex_to_u32(self_str(&w.offset)) {
        Ok(v) => v,
        Err(e) => {
            return Err(e);
        },
    };
    let bytes = match de_hex_to_vu8(self_str(&w.replacement_bytes)) {
        Ok(v) => v,
        Err(e) => {
            return Err(e);
        },
    };
    let original_bytes = match &w.original_bytes {
        Some(ob) => match de_hex_to_vu8(self_str(ob)) {
            Ok(v) => Some(v),
            Err(e) => {
                return Err(e);
            },
        },
        None => None,
    };
    Ok(
        Patch {
            offset,
            offset_type: w.offset_type,
            replacement: PatchReplacement::Bytes(bytes),
            original_bytes,
        },
    )
}

fn self_str(s: &String) -> (r: &str)
    ensures
        r@ == s@,
{
    s.as_str()
}

fn decode_entry_v0(w: &PatchEntryV0) -> (r: Result<PatchEntry, PatchError>)
    ensures
        entry_v0_error(*w) matches Some(e) ==> r == Err::<PatchEntry, PatchError>(e),
        entry_v0_error(*w) is None ==> (r matches Ok(m) && entry_v0_decodes_to(*w, m)),
{
    let mut patches: Vec<Patch> = Vec::new();
    let n = w.patches.len();
    let mut i: usize = 0;
    while i < n
        invariant
            i as int <= n as int,
            n == w.patches@.len(),
            patches@.len() == i as int,
            patches_v0_error_from(w.patches@, 0) == patches_v0_error_from(w.patches@, i as int),
            forall|j: int|
                0 <= j < i as int ==> patch_v0_decodes_to(
                    w.patches@[j],
                    #[trigger] patches@[j],
                ),
        decreases n - i,
    {
        match decode_patch_v0(&w.patches[i]) {
            Ok(p) => {
                patches.push(p);
            },
            Err(e) => {
                return Err(e);
            },
        }
        i = i + 1;
    }
    Ok(
        PatchEntry {
            name: w.name.clone(),
            description: w.description.clone(),
            alt_author: clone_opt_string(&w.alt_author),
            parameters: Vec::new(),
            patches,
        },
    )
}

/// Decodes a V0 document into the current model: hex fields become
/// numbers and bytes, every entry gets an empty parameter list, and every
/// literal byte sequence becomes a direct-bytes replacement.
pub fn decode_patch_set_v0(doc: &PatchSetV0) -> (r: Result<PatchSet, PatchError>)
    ensures
        decode_v0_error(*doc) matches Some(e) ==> r == Err::<PatchSet, PatchError>(e),
        decode_v0_error(*doc) is None ==> (r matches Ok(m) && set_v0_decodes_to(*doc, m)),
{
    if doc.xbpatchset_schema != 0 {
        return Err(PatchError::SchemaMismatch);
    }
    let mut entries: Vec<PatchEntry> = Vec::new();
    let n = doc.entries.len();
    let mut i: usize = 0;
    while i < n
        invariant
            i as int <= n as int,
            n == doc.entries@.len(),
            doc.xbpatchset_schema == 0,
            entries@.len() == i as int,
            entries_v0_error_from(doc.entries@, 0) == entries_v0_error_from(
                doc.entries@,
                i as int,
            ),
            forall|j: int|
                0 <= j < i as int ==> entry_v0_decodes_to(
                    doc.entries@[j],
                    #[trigger] entries@[j],
                ),
        decreases n - i,
    {
        match decode_entry_v0(&doc.entries[i]) {
            Ok(e) => {
                entries.push(e);
            },
            Err(e) => {
                return Err(e);
            },
        }
        i = i + 1;
    }
    Ok(
        PatchSet {
            xbpatchset_schema: doc.xbpatchset_schema,
            name: doc.name.clone(),
            author: doc.author.clone(),
            version_major: doc.version_major,
            version_minor: doc.version_minor,
            game_title: doc.game_title.clone(),
            entries,
        },
    )
}

/// Every entry of a decoded V0 document has an empty parameter list, and
/// every patch of it a direct-bytes replacement.
pub proof fn lemma_v0_decode_shape(w: PatchSetV0, m: PatchSet)
    requires
        set_v0_decodes_to(w, m),
    ensures
        forall|i: int| 0 <= i < m.entries@.len() ==> (#[trigger] m.entries@[i]).parameters@.len()
            == 0,
        forall|i: int, j: int|
            0 <= i < m.entries@.len() && 0 <= j < m.entries@[i].patches@.len()
                ==> (#[trigger] m.entries@[i].patches@[j]).replacement is Bytes,
{
    assert forall|i: int, j: int|
        0 <= i < m.entries@.len() && 0 <= j < m.entries@[i].patches@.len() implies (
    #[trigger] m.entries@[i].patches@[j]).replacement is Bytes by {
        assert(entry_v0_decodes_to(w.entries@[i], m.entries@[i]));
        assert(patch_v0_decodes_to(w.entries@[i].patches@[j], m.entries@[i].patches@[j]));
    }
}

} // verus!
