//! The current persisted schema generation: entries carry a parameter
//! list and a patch may reference a parameter instead of literal bytes.
//! Values of parameters travel as strings, so integer and bit-pattern
//! values round-trip through the same hex textual form the offset fields
//! use; parameter references are resolved lazily at apply time, not at
//! decode time.

use vstd::prelude::*;
use vstd::string::*;

use crate::param::{Endiannness, ParamType, Parameter};
use crate::patching::{
    entry_like, opt_str_view_eq, param_like, patch_like, set_like, Patch, PatchEntry,
    PatchOffsetType, PatchReplacement, PatchSet,
};
use crate::serialization::{
    all_hex_digits, bytes_hex_digits, de_hex_to_u32, de_hex_to_vu8, hex_body, hex_bytes_ok,
    hex_pairs, hex_u32_ok, hex_val, lemma_hex_val_nonneg, lemma_u32_hex_round_trip,
    lemma_vu8_hex_round_trip, se_ovu8_to_hex, se_u32_to_hex, se_vu8_to_hex, u32_hex_digits,
};
use crate::version0::clone_opt_string;
use crate::PatchError;

verus! {

/// A whole V1 document, with numeric fields still in their hex text form.
#[derive(Debug, Clone, PartialEq)]
pub struct PatchSetV1 {
    pub xbpatchset_schema: u32,
    pub name: String,
    pub author: String,
    pub version_major: u8,
    pub version_minor: u8,
    pub game_title: String,
    pub entries: Vec<PatchEntryV1>,
}

#[derive(Debug, Clone, PartialEq)]
pub struct PatchEntryV1 {
    pub name: String,
    pub description: String,
    /// Specified when another author made this particular entry of a set.
    pub alt_author: Option<String>,
    pub parameters: Vec<SerializedParameter>,
    pub patches: Vec<PatchV1>,
}

/// The persisted form of a replacement: literal bytes as a hex string, or
/// the index of a parameter of the entry.
#[derive(Debug, Clone, PartialEq)]
pub enum PatchReplacementV1 {
    Bytes(String),
    Parameter(usize),
}

#[derive(Debug, Clone, PartialEq)]
pub struct PatchV1 {
    pub offset: String,
    pub offset_type: PatchOffsetType,
    pub replacement: PatchReplacementV1,
    pub original_bytes: Option<String>,
}

/// The persisted form of a parameter: its typed value, bounds and default
/// kept textual.
#[derive(Debug, Clone, PartialEq)]
pub struct SerializedParameter {
    pub name: String,
    pub value_type: String,
    pub endianness: Endiannness,
    pub default: Option<String>,
    pub min: Option<String>,
    pub max: Option<String>,
    pub value: String,
}

/// The serialized name of each parameter type.
pub open spec fn kind_name(t: ParamType) -> Seq<char> {
    match t {
        ParamType::F32 => seq!['f', '3', '2'],
        ParamType::F64 => seq!['f', '6', '4'],
        ParamType::U8 => seq!['u', '8'],
        ParamType::I8 => seq!['i', '8'],
        ParamType::U16 => seq!['u', '1', '6'],
        ParamType::I16 => seq!['i', '1', '6'],
        ParamType::U32 => seq!['u', '3', '2'],
        ParamType::I32 => seq!['i', '3', '2'],
    }
}

/// The parameter type a serialized name denotes, if any.
pub open spec fn name_kind(s: Seq<char>) -> Option<ParamType> {
    if s == kind_name(ParamType::F32) {
        Some(ParamType::F32)
    } else if s == kind_name(ParamType::F64) {
        Some(ParamType::F64)
    } else if s == kind_name(ParamType::U8) {
        Some(ParamType::U8)
    } else if s == kind_name(ParamType::I8) {
        Some(ParamType::I8)
    } else if s == kind_name(ParamType::U16) {
        Some(ParamType::U16)
    } else if s == kind_name(ParamType::I16) {
        Some(ParamType::I16)
    } else if s == kind_name(ParamType::U32) {
        Some(ParamType::U32)
    } else if s == kind_name(ParamType::I32) {
        Some(ParamType::I32)
    } else {
        None
    }
}

/// Looking a type's own serialized name back up yields that type.
pub proof fn lemma_name_kind_inverse(t: ParamType)
    ensures
        name_kind(kind_name(t)) == Some(t),
{
    match t {
        ParamType::F32 => {},
        ParamType::F64 => {
            assert(kind_name(ParamType::F64)[1] != kind_name(ParamType::F32)[1]);
        },
        ParamType::U8 => {
            assert(kind_name(ParamType::U8).len() != kind_name(ParamType::F32).len());
        },
        ParamType::I8 => {
            assert(kind_name(ParamType::I8)[0] != kind_name(ParamType::U8)[0]);
            assert(kind_name(ParamType::I8).len() != kind_name(ParamType::F32).len());
        },
        ParamType::U16 => {
            assert(kind_name(ParamType::U16)[0] != kind_name(ParamType::F32)[0]);
            assert(kind_name(ParamType::U16)[1] != kind_name(ParamType::U32)[1]);
            assert(kind_name(ParamType::U16).len() != kind_name(ParamType::U8).len());
        },
        ParamType::I16 => {
            assert(kind_name(ParamType::I16)[0] != kind_name(ParamType::F32)[0]);
            assert(kind_name(ParamType::I16)[0] != kind_name(ParamType::U16)[0]);
            assert(kind_name(ParamType::I16)[1] != kind_name(ParamType::I32)[1]);
            assert(kind_name(ParamType::I16).len() != kind_name(ParamType::U8).len());
        },
        ParamType::U32 => {
            assert(kind_name(ParamType::U32)[0] != kind_name(ParamType::F32)[0]);
            assert(kind_name(ParamType::U32).len() != kind_name(ParamType::U8).len());
        },
        ParamType::I32 => {
            assert(kind_name(ParamType::I32)[0] != kind_name(ParamType::F32)[0]);
            assert(kind_name(ParamType::I32)[0] != kind_name(ParamType::U32)[0]);
            assert(kind_name(ParamType::I32)[1] != kind_name(ParamType::I16)[1]);
            assert(kind_name(ParamType::I32).len() != kind_name(ParamType::U8).len());
        },
    }
}

/// The fault of a serialized parameter: an unknown type name. Values stay
/// textual and are checked only when materialized.
pub open spec fn sparam_error(p: SerializedParameter) -> Option<PatchError> {
    if name_kind(p.value_type@) is None {
        Some(PatchError::SchemaMismatch)
    } else {
        None
    }
}

/// The first fault of a V1 patch in field order.
pub open spec fn patch_v1_error(p: PatchV1) -> Option<PatchError> {
    if !hex_u32_ok(p.offset@) {
        Some(PatchError::MalformedHex)
    } else if p.replacement matches PatchReplacementV1::Bytes(s) && !hex_bytes_ok(s@) {
        Some(PatchError::MalformedHex)
    } else if p.original_bytes matches Some(ob) && !hex_bytes_ok(ob@) {
        Some(PatchError::MalformedHex)
    } else {
        None
    }
}

pub open spec fn params_v1_error_from(params: Seq<SerializedParameter>, i: int) -> Option<
    PatchError,
>
    decreases params.len() - i,
{
    if i < 0 || i >= params.len() {
        None
    } else {
        match sparam_error(params[i]) {
            Some(e) => Some(e),
            None => params_v1_error_from(params, i + 1),
        }
    }
}

pub open spec fn patches_v1_error_from(patches: Seq<PatchV1>, i: int) -> Option<PatchError>
    decreases patches.len() - i,
{
    if i < 0 || i >= patches.len() {
        None
    } else {
        match patch_v1_error(patches[i]) {
            Some(e) => Some(e),
            None => patches_v1_error_from(patches, i + 1),
        }
    }
}

/// The first fault of a V1 entry: parameters in order, then patches.
pub open spec fn entry_v1_error(e: PatchEntryV1) -> Option<PatchError> {
    match params_v1_error_from(e.parameters@, 0) {
        Some(err) => Some(err),
        None => patches_v1_error_from(e.patches@, 0),
    }
}

pub open spec fn entries_v1_error_from(entries: Seq<PatchEntryV1>, i: int) -> Option<PatchError>
    decreases entries.len() - i,
{
    if i < 0 || i >= entries.len() {
        None
    } else {
        match entry_v1_error(entries[i]) {
            Some(e) => Some(e),
            None => entries_v1_error_from(entries, i + 1),
        }
    }
}

/// The first fault of a whole V1 document: a schema tag other than 1 is a
/// mismatch; after that, entries in order.
pub open spec fn decode_v1_error(doc: PatchSetV1) -> Option<PatchError> {
    if doc.xbpatchset_schema != 1 {
        Some(PatchError::SchemaMismatch)
    } else {
        entries_v1_error_from(doc.entries@, 0)
    }
}

pub open spec fn sparam_decodes_to(w: SerializedParameter, m: Parameter) -> bool {
    &&& m.name@ == w.name@
    &&& Some(m.param_type) == name_kind(w.value_type@)
    &&& m.endianness == w.endianness
    &&& opt_str_view_eq(w.default, m.default)
    &&& opt_str_view_eq(w.min, m.min)
    &&& opt_str_view_eq(w.max, m.max)
    &&& m.value@ == w.value@
}

pub open spec fn patch_v1_decodes_to(w: PatchV1, m: Patch) -> bool {
    &&& m.offset == hex_val(hex_body(w.offset@))
    &&& m.offset_type == w.offset_type
    &&& match w.replacement {
        PatchReplacementV1::Bytes(s) => m.replacement matches PatchReplacement::Bytes(b) && b@
            == hex_pairs(hex_body(s@)),
        PatchReplacementV1::Parameter(i) => m.replacement == PatchReplacement::Parameter(i),
    }
    &&& match w.original_bytes {
        Some(ob) => m.original_bytes matches Some(mb) && mb@ == hex_pairs(hex_body(ob@)),
        None => m.original_bytes is None,
    }
}

pub open spec fn entry_v1_decodes_to(w: PatchEntryV1, m: PatchEntry) -> bool {
    &&& m.name@ == w.name@
    &&& m.description@ == w.description@
    &&& opt_str_view_eq(w.alt_author, m.alt_author)
    &&& m.parameters@.len() == w.parameters@.len()
    &&& forall|i: int|
        0 <= i < w.parameters@.len() ==> sparam_decodes_to(
            w.parameters@[i],
            #[trigger] m.parameters@[i],
        )
    &&& m.patches@.len() == w.patches@.len()
    &&& forall|i: int|
        0 <= i < w.patches@.len() ==> patch_v1_decodes_to(w.patches@[i], #[trigger] m.patches@[i])
}

pub open spec fn set_v1_decodes_to(w: PatchSetV1, m: PatchSet) -> bool {
    &&& m.xbpatchset_schema == w.xbpatchset_schema
    &&& m.name@ == w.name@
    &&& m.author@ == w.author@
    &&& m.version_major == w.version_major
    &&& m.version_minor == w.version_minor
    &&& m.game_title@ == w.game_title@
    &&& m.entries@.len() == w.entries@.len()
    &&& forall|i: int|
        0 <= i < w.entries@.len() ==> entry_v1_decodes_to(w.entries@[i], #[trigger] m.entries@[i])
}

fn string_is(s: &String, t: &str) -> (r: bool)
    ensures
        r == (s@ == t@),
{
    let t2 = String::from_str(t);
    s.eq(&t2)
}

fn decode_param_v1(w: &SerializedParameter) -> (r: Result<Parameter, PatchError>)
    ensures
        sparam_error(*w) matches Some(e) ==> r == Err::<Parameter, PatchError>(e),
        sparam_error(*w) is None ==> (r matches Ok(m) && sparam_decodes_to(*w, m)),
{
    proof {
        reveal_strlit("f32");
        reveal_strlit("f64");
        reveal_strlit("u8");
        reveal_strlit("i8");
        reveal_strlit("u16");
        reveal_strlit("i16");
        reveal_strlit("u32");
        reveal_strlit("i32");
        assert("f32"@ =~= kind_name(ParamType::F32));
        assert("f64"@ =~= kind_name(ParamType::F64));
        assert("u8"@ =~= kind_name(ParamType::U8));
        assert("i8"@ =~= kind_name(ParamType::I8));
        assert("u16"@ =~= kind_name(ParamType::U16));
        assert("i16"@ =~= kind_name(ParamType::I16));
        assert("u32"@ =~= kind_name(ParamType::U32));
        assert("i32"@ =~= kind_name(ParamType::I32));
    }
    let param_type = if string_is(&w.value_type, "f32") {
        ParamType::F32
    } else if string_is(&w.value_type, "f64") {
        ParamType::F64
    } else if string_is(&w.value_type, "u8") {
        ParamType::U8
    } else if string_is(&w.value_type, "i8") {
        ParamType::I8
    } else if string_is(&w.value_type, "u16") {
        ParamType::U16
    } else if string_is(&w.value_type, "i16") {
        ParamType::I16
    } else if string_is(&w.value_type, "u32") {
        ParamType::U32
    } else if string_is(&w.value_type, "i32") {
        ParamType::I32
    } else {
        return Err(PatchError::SchemaMismatch);
    };
    Ok(
        Parameter {
            name: w.name.clone(),
            param_type,
            endianness: w.endianness,
            default: clone_opt_string(&w.default),
            min: clone_opt_string(&w.min),
            max: clone_opt_string(&w.max),
            value: w.value.clone(),
        },
    )
}

fn decode_patch_v1(w: &PatchV1) -> (r: Result<Patch, PatchError>)
    ensures
        patch_v1_error(*w) matches Some(e) ==> r == Err::<Patch, PatchError>(e),
        patch_v1_error(*w) is None ==> (r matches Ok(m) && patch_v1_decodes_to(*w, m)),
{
    proof {
        if all_hex_digits(hex_body(w.offset@)) {
            lemma_hex_val_nonneg(hex_body(w.offset@));
        }
    }
    let offset = match de_hex_to_u32(w.offset.as_str()) {
        Ok(v) => v,
        Err(e) => {
            return Err(e);
        },
    };
    let replacement = match &w.replacement {
        PatchReplacementV1::Bytes(s) => match de_hex_to_vu8(s.as_str()) {
            Ok(v) => PatchReplacement::Bytes(v),
            Err(e) => {
                return Err(e);
            },
        },
        PatchReplacementV1::Parameter(i) => PatchReplacement::Parameter(*i),
    };
    let original_bytes = match &w.original_bytes {
        Some(ob) => match de_hex_to_vu8(ob.as_str()) {
            Ok(v) => Some(v),
            Err(e) => {
                return Err(e);
            },
        },
        None => None,
    };
    Ok(Patch { offset, offset_type: w.offset_type, replacement, original_bytes })
}

fn decode_entry_v1(w: &PatchEntryV1) -> (r: Result<PatchEntry, PatchError>)
    ensures
        entry_v1_error(*w) matches Some(e) ==> r == Err::<PatchEntry, PatchError>(e),
        entry_v1_error(*w) is None ==> (r matches Ok(m) && entry_v1_decodes_to(*w, m)),
{
    let mut parameters: Vec<Parameter> = Vec::new();
    let np = w.parameters.len();
    let mut i: usize = 0;
    while i < np
        invariant
            i as int <= np as int,
            np == w.parameters@.len(),
            parameters@.len() == i as int,
            params_v1_error_from(w.parameters@, 0) == params_v1_error_from(
                w.parameters@,
                i as int,
            ),
            forall|j: int|
                0 <= j < i as int ==> sparam_decodes_to(
                    w.parameters@[j],
                    #[trigger] parameters@[j],
                ),
        decreases np - i,
    {
        match decode_param_v1(&w.parameters[i]) {
            Ok(p) => {
                parameters.push(p);
            },
            Err(e) => {
                return Err(e);
            },
        }
        i = i + 1;
    }
    let mut patches: Vec<Patch> = Vec::new();
    let n = w.patches.len();
    let mut k: usize = 0;
    while k < n
        invariant
            k as int <= n as int,
            n == w.patches@.len(),
            params_v1_error_from(w.parameters@, 0) is None,
            patches@.len() == k as int,
            patches_v1_error_from(w.patches@, 0) == patches_v1_error_from(w.patches@, k as int),
            forall|j: int|
                0 <= j < k as int ==> patch_v1_decodes_to(
                    w.patches@[j],
                    #[trigger] patches@[j],
                ),
        decreases n - k,
    {
        match decode_patch_v1(&w.patches[k]) {
            Ok(p) => {
                patches.push(p);
            },
            Err(e) => {
                return Err(e);
            },
        }
        k = k + 1;
    }
    Ok(
        PatchEntry {
            name: w.name.clone(),
            description: w.description.clone(),
            alt_author: clone_opt_string(&w.alt_author),
            parameters,
            patches,
        },
    )
}

/// Decodes a V1 document into the current model: hex fields become
/// numbers and bytes, parameters keep their textual values, and parameter
/// references stay indices, to be resolved at apply time.
pub fn decode_patch_set_v1(doc: &PatchSetV1) -> (r: Result<PatchSet, PatchError>)
    ensures
        decode_v1_error(*doc) matches Some(e) ==> r == Err::<PatchSet, PatchError>(e),
        decode_v1_error(*doc) is None ==> (r matches Ok(m) && set_v1_decodes_to(*doc, m)),
{
    if doc.xbpatchset_schema != 1 {
        return Err(PatchError::SchemaMismatch);
    }
    let mut entries: Vec<PatchEntry> = Vec::new();
    let n = doc.entries.len();
    let mut i: usize = 0;
    while i < n
        invariant
            i as int <= n as int,
            n == doc.entries@.len(),
            doc.xbpatchset_schema == 1,
            entries@.len() == i as int,
            entries_v1_error_from(doc.entries@, 0) == entries_v1_error_from(
                doc.entries@,
                i as int,
            ),
            forall|j: int|
                0 <= j < i as int ==> entry_v1_decodes_to(
                    doc.entries@[j],
                    #[trigger] entries@[j],
                ),
        decreases n - i,
    {
        match decode_entry_v1(&doc.entries[i]) {
            Ok(e) => {
                entries.push(e);
            },
            Err(e) => {
                return Err(e);
            },
        }
        i = i + 1;
    }
    Ok(
        PatchSet {
            xbpatchset_schema: doc.xbpatchset_schema,
            name: doc.name.clone(),
            author: doc.author.clone(),
            version_major: doc.version_major,
            version_minor: doc.version_minor,
            game_title: doc.game_title.clone(),
            entries,
        },
    )
}

pub open spec fn param_encodes_to(m: Parameter, w: SerializedParameter) -> bool {
    &&& w.name@ == m.name@
    &&& w.value_type@ == kind_name(m.param_type)
    &&& w.endianness == m.endianness
    &&& opt_str_view_eq(m.default, w.default)
    &&& opt_str_view_eq(m.min, w.min)
    &&& opt_str_view_eq(m.max, w.max)
    &&& w.value@ == m.value@
}

pub open spec fn patch_encodes_to(m: Patch, w: PatchV1) -> bool {
    &&& w.offset@ == seq!['0', 'x'] + u32_hex_digits(m.offset)
    &&& w.offset_type == m.offset_type
    &&& match m.replacement {
        PatchReplacement::Bytes(b) => w.replacement matches PatchReplacementV1::Bytes(s) && s@
            == seq!['0', 'x'] + bytes_hex_digits(b@),
        PatchReplacement::Parameter(i) => w.replacement == PatchReplacementV1::Parameter(i),
    }
    &&& match m.original_bytes {
        Some(b) => w.original_bytes matches Some(s) && s@ == seq!['0', 'x'] + bytes_hex_digits(b@),
        None => w.original_bytes is None,
    }
}

pub open spec fn entry_encodes_to(m: PatchEntry, w: PatchEntryV1) -> bool {
    &&& w.name@ == m.name@
    &&& w.description@ == m.description@
    &&& opt_str_view_eq(m.alt_author, w.alt_author)
    &&& w.parameters@.len() == m.parameters@.len()
    &&& forall|i: int|
        0 <= i < m.parameters@.len() ==> param_encodes_to(
            m.parameters@[i],
            #[trigger] w.parameters@[i],
        )
    &&& w.patches@.len() == m.patches@.len()
    &&& forall|i: int|
        0 <= i < m.patches@.len() ==> patch_encodes_to(m.patches@[i], #[trigger] w.patches@[i])
}

pub open spec fn set_encodes_to(m: PatchSet, w: PatchSetV1) -> bool {
    &&& w.xbpatchset_schema == m.xbpatchset_schema
    &&& w.name@ == m.name@
    &&& w.author@ == m.author@
    &&& w.version_major == m.version_major
    &&& w.version_minor == m.version_minor
    &&& w.game_title@ == m.game_title@
    &&& w.entries@.len() == m.entries@.len()
    &&& forall|i: int|
        0 <= i < m.entries@.len() ==> entry_encodes_to(m.entries@[i], #[trigger] w.entries@[i])
}

fn encode_param_v1(m: &Parameter) -> (w: SerializedParameter)
    ensures
        param_encodes_to(*m, w),
{
    proof {
        reveal_strlit("f32");
        reveal_strlit("f64");
        reveal_strlit("u8");
        reveal_strlit("i8");
        reveal_strlit("u16");
        reveal_strlit("i16");
        reveal_strlit("u32");
        reveal_strlit("i32");
        assert("f32"@ =~= kind_name(ParamType::F32));
        assert("f64"@ =~= kind_name(ParamType::F64));
        assert("u8"@ =~= kind_name(ParamType::U8));
        assert("i8"@ =~= kind_name(ParamType::I8));
        assert("u16"@ =~= kind_name(ParamType::U16));
        assert("i16"@ =~= kind_name(ParamType::I16));
        assert("u32"@ =~= kind_name(ParamType::U32));
        assert("i32"@ =~= kind_name(ParamType::I32));
    }
    let value_type = match m.param_type {
        ParamType::F32 => String::from_str("f32"),
        ParamType::F64 => String::from_str("f64"),
        ParamType::U8 => String::from_str("u8"),
        ParamType::I8 => String::from_str("i8"),
        ParamType::U16 => String::from_str("u16"),
        ParamType::I16 => String::from_str("i16"),
        ParamType::U32 => String::from_str("u32"),
        ParamType::I32 => String::from_str("i32"),
    };
    SerializedParameter {
        name: m.name.clone(),
        value_type,
        endianness: m.endianness,
        default: clone_opt_string(&m.default),
        min: clone_opt_string(&m.min),
        max: clone_opt_string(&m.max),
        value: m.value.clone(),
    }
}

fn encode_patch_v1(m: &Patch) -> (w: PatchV1)
    ensures
        patch_encodes_to(*m, w),
{
    let replacement = match &m.replacement {
        PatchReplacement::Bytes(b) => PatchReplacementV1::Bytes(se_vu8_to_hex(b)),
        PatchReplacement::Parameter(i) => PatchReplacementV1::Parameter(*i),
    };
    PatchV1 {
        offset: se_u32_to_hex(m.offset),
        offset_type: m.offset_type,
        replacement,
        original_bytes: se_ovu8_to_hex(&m.original_bytes),
    }
}

fn encode_entry_v1(m: &PatchEntry) -> (w: PatchEntryV1)
    ensures
        entry_encodes_to(*m, w),
{
    let mut parameters: Vec<SerializedParameter> = Vec::new();
    let np = m.parameters.len();
    let mut i: usize = 0;
    while i < np
        invariant
            i as int <= np as int,
            np == m.parameters@.len(),
            parameters@.len() == i as int,
            forall|j: int|
                0 <= j < i as int ==> param_encodes_to(
                    m.parameters@[j],
                    #[trigger] parameters@[j],
                ),
        decreases np - i,
    {
        let p = encode_param_v1(&m.parameters[i]);
        parameters.push(p);
        i = i + 1;
    }
    let mut patches: Vec<PatchV1> = Vec::new();
    let n = m.patches.len();
    let mut k: usize = 0;
    while k < n
        invariant
            k as int <= n as int,
            n == m.patches@.len(),
            patches@.len() == k as int,
            forall|j: int|
                0 <= j < k as int ==> patch_encodes_to(m.patches@[j], #[trigger] patches@[j]),
        decreases n - k,
    {
        let p = encode_patch_v1(&m.patches[k]);
        patches.push(p);
        k = k + 1;
    }
    PatchEntryV1 {
        name: m.name.clone(),
        description: m.description.clone(),
        alt_author: clone_opt_string(&m.alt_author),
        parameters,
        patches,
    }
}

/// Encodes the current model as a V1 document: offsets as uppercase
/// 8-digit hex, byte sequences as lowercase hex, parameter values
/// verbatim; an absent `original_bytes` stays absent.
pub fn encode_patch_set_v1(m: &PatchSet) -> (w: PatchSetV1)
    ensures
        set_encodes_to(*m, w),
{
    let mut entries: Vec<PatchEntryV1> = Vec::new();
    let n = m.entries.len();
    let mut i: usize = 0;
    while i < n
        invariant
            i as int <= n as int,
            n == m.entries@.len(),
            entries@.len() == i as int,
            forall|j: int|
                0 <= j < i as int ==> entry_encodes_to(m.entries@[j], #[trigger] entries@[j]),
        decreases n - i,
    {
        let e = encode_entry_v1(&m.entries[i]);
        entries.push(e);
        i = i + 1;
    }
    PatchSetV1 {
        xbpatchset_schema: m.xbpatchset_schema,
        name: m.name.clone(),
        author: m.author.clone(),
        version_major: m.version_major,
        version_minor: m.version_minor,
        game_title: m.game_title.clone(),
        entries,
    }
}

proof fn lemma_params_no_error(ps: Seq<SerializedParameter>, i: int)
    requires
        forall|j: int| i <= j < ps.len() ==> sparam_error(#[trigger] ps[j]) is None,
    ensures
        params_v1_error_from(ps, i) is None,
    decreases ps.len() - i,
{
    if 0 <= i < ps.len() {
        lemma_params_no_error(ps, i + 1);
    }
}

proof fn lemma_patches_no_error(ps: Seq<PatchV1>, i: int)
    requires
        forall|j: int| i <= j < ps.len() ==> patch_v1_error(#[trigger] ps[j]) is None,
    ensures
        patches_v1_error_from(ps, i) is None,
    decreases ps.len() - i,
{
    if 0 <= i < ps.len() {
        lemma_patches_no_error(ps, i + 1);
    }
}

proof fn lemma_entries_no_error(es: Seq<PatchEntryV1>, i: int)
    requires
        forall|j: int| i <= j < es.len() ==> entry_v1_error(#[trigger] es[j]) is None,
    ensures
        entries_v1_error_from(es, i) is None,
    decreases es.len() - i,
{
    if 0 <= i < es.len() {
        lemma_entries_no_error(es, i + 1);
    }
}

proof fn lemma_patch_encode_ok(m: Patch, w: PatchV1)
    requires
        patch_encodes_to(m, w),
    ensures
        patch_v1_error(w) is None,
{
    lemma_u32_hex_round_trip(m.offset);
    match m.replacement {
        PatchReplacement::Bytes(b) => {
            lemma_vu8_hex_round_trip(b@);
        },
        PatchReplacement::Parameter(_) => {},
    }
    match m.original_bytes {
        Some(b) => {
            lemma_vu8_hex_round_trip(b@);
        },
        None => {},
    }
}

proof fn lemma_entry_encode_ok(m: PatchEntry, w: PatchEntryV1)
    requires
        entry_encodes_to(m, w),
    ensures
        entry_v1_error(w) is None,
{
    assert forall|j: int| 0 <= j < w.parameters@.len() implies sparam_error(
        #[trigger] w.parameters@[j],
    ) is None by {
        lemma_name_kind_inverse(m.parameters@[j].param_type);
    }
    lemma_params_no_error(w.parameters@, 0);
    assert forall|j: int| 0 <= j < w.patches@.len() implies patch_v1_error(
        #[trigger] w.patches@[j],
    ) is None by {
        lemma_patch_encode_ok(m.patches@[j], w.patches@[j]);
    }
    lemma_patches_no_error(w.patches@, 0);
}

/// An encoded V1 document always decodes: encoding a patch set whose
/// schema tag is 1 yields a document free of decode faults.
pub proof fn lemma_encode_v1_decodes(m: PatchSet, w: PatchSetV1)
    requires
        m.xbpatchset_schema == 1,
        set_encodes_to(m, w),
    ensures
        decode_v1_error(w) is None,
{
    assert forall|j: int| 0 <= j < w.entries@.len() implies entry_v1_error(
        #[trigger] w.entries@[j],
    ) is None by {
        lemma_entry_encode_ok(m.entries@[j], w.entries@[j]);
    }
    lemma_entries_no_error(w.entries@, 0);
}

proof fn lemma_param_round_trip(a: Parameter, w: SerializedParameter, b: Parameter)
    requires
        param_encodes_to(a, w),
        sparam_decodes_to(w, b),
    ensures
        param_like(a, b),
{
    lemma_name_kind_inverse(a.param_type);
}

proof fn lemma_patch_round_trip(a: Patch, w: PatchV1, b: Patch)
    requires
        patch_encodes_to(a, w),
        patch_v1_decodes_to(w, b),
    ensures
        patch_like(a, b),
{
    lemma_u32_hex_round_trip(a.offset);
    match a.replacement {
        PatchReplacement::Bytes(x) => {
            lemma_vu8_hex_round_trip(x@);
        },
        PatchReplacement::Parameter(_) => {},
    }
    match a.original_bytes {
        Some(x) => {
            lemma_vu8_hex_round_trip(x@);
        },
        None => {},
    }
}

proof fn lemma_entry_round_trip(a: PatchEntry, w: PatchEntryV1, b: PatchEntry)
    requires
        entry_encodes_to(a, w),
        entry_v1_decodes_to(w, b),
    ensures
        entry_like(a, b),
{
    assert forall|j: int| 0 <= j < a.parameters@.len() implies param_like(
        a.parameters@[j],
        #[trigger] b.parameters@[j],
    ) by {
        lemma_param_round_trip(a.parameters@[j], w.parameters@[j], b.parameters@[j]);
    }
    assert forall|j: int| 0 <= j < a.patches@.len() implies patch_like(
        a.patches@[j],
        #[trigger] b.patches@[j],
    ) by {
        lemma_patch_round_trip(a.patches@[j], w.patches@[j], b.patches@[j]);
    }
}

/// Round trip: encoding a patch set in the current schema and decoding
/// the result yields a set equal in all fields — entries, parameter
/// values and parameter reference indices included.
pub proof fn lemma_patch_set_v1_round_trip(a: PatchSet, w: PatchSetV1, b: PatchSet)
    requires
        a.xbpatchset_schema == 1,
        set_encodes_to(a, w),
        set_v1_decodes_to(w, b),
    ensures
        set_like(a, b),
{
    assert forall|j: int| 0 <= j < a.entries@.len() implies entry_like(
        a.entries@[j],
        #[trigger] b.entries@[j],
    ) by {
        lemma_entry_round_trip(a.entries@[j], w.entries@[j], b.entries@[j]);
    }
}

} // verus!
