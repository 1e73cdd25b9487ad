//! The versioned patch-set data model: sets of named, independently
//! toggleable entries, each holding parameters and byte-level patches.

use vstd::prelude::*;

use crate::param::Parameter;
use crate::PatchError;

verus! {

/// Both absent, or both present with the same characters.
pub open spec fn opt_str_view_eq(a: Option<String>, b: Option<String>) -> bool {
    match a {
        Some(x) => b matches Some(y) && y@ == x@,
        None => b is None,
    }
}

/// Both absent, or both present with the same bytes.
pub open spec fn opt_bytes_view_eq(a: Option<Vec<u8>>, b: Option<Vec<u8>>) -> bool {
    match a {
        Some(x) => b matches Some(y) && y@ == x@,
        None => b is None,
    }
}

/// Whether a patch's `offset` is a raw file offset already, or a virtual
/// address that must be translated through the memory map.
#[derive(Debug, Clone, Copy, PartialEq, Eq, Structural)]
pub enum PatchOffsetType {
    Raw,
    Virtual,
}

/// What a patch writes: literal bytes, or the materialized value of the
/// parameter at this index in the entry's parameter list, resolved lazily
/// at apply time.
#[derive(Debug, Clone, PartialEq)]
pub enum PatchReplacement {
    Bytes(Vec<u8>),
    Parameter(usize),
}

/// One byte-level replacement. `original_bytes`, when present, records the
/// pre-patch content; it is advisory and never gates the write.
#[derive(Debug, Clone, PartialEq)]
pub struct Patch {
    pub offset: u32,
    pub offset_type: PatchOffsetType,
    pub replacement: PatchReplacement,
    pub original_bytes: Option<Vec<u8>>,
}

/// Anything that carries an ordered list of patches.
pub trait HasPatches {
    spec fn spec_patches(&self) -> Seq<Patch>;

    fn get_patches(&self) -> (r: &Vec<Patch>)
        ensures
            r@ == self.spec_patches(),
    ;

    fn add_patch(&mut self, patch: Patch)
        ensures
            final(self).spec_patches() == old(self).spec_patches().push(patch),
    ;

    fn set_patches(&mut self, patches: Vec<Patch>) -> (r: Result<(), PatchError>)
        ensures
            r is Ok,
            final(self).spec_patches() == patches@,
    ;
}

/// A named, independently toggleable unit of one or more patches,
/// optionally parameterized.
#[derive(Debug, Clone, PartialEq)]
pub struct PatchEntry {
    pub name: String,
    pub description: String,
    /// Specified when another author made this particular entry of a set.
    pub alt_author: Option<String>,
    pub parameters: Vec<Parameter>,
    pub patches: Vec<Patch>,
}

impl PatchEntry {
    /// A new entry with the given patches and no parameters.
    pub fn new(name: String, description: String, alt_author: Option<String>, patches: Vec<Patch>)
        -> (r: PatchEntry)
        ensures
            r.name@ == name@,
            r.description@ == description@,
            r.alt_author == alt_author,
            r.parameters@ =~= Seq::<Parameter>::empty(),
            r.patches@ == patches@,
    {
        PatchEntry { name, description, alt_author, parameters: Vec::new(), patches }
    }

    pub fn name(&self) -> (r: &String)
        ensures
            r@ == self.name@,
    {
        &self.name
    }

    pub fn description(&self) -> (r: &str)
        ensures
            r@ == self.description@,
    {
        self.description.as_str()
    }
}

impl HasPatches for PatchEntry {
    open spec fn spec_patches(&self) -> Seq<Patch> {
        self.patches@
    }

    fn get_patches(&self) -> (r: &Vec<Patch>) {
        &self.patches
    }

    fn add_patch(&mut self, patch: Patch) {
        self.patches.push(patch);
    }

    fn set_patches(&mut self, patches: Vec<Patch>) -> (r: Result<(), PatchError>) {
        self.patches = patches;
        Ok(())
    }
}

/// The top-level persisted unit: a versioned, named set of patch entries.
#[derive(Debug, Clone, PartialEq)]
pub struct PatchSet {
    pub xbpatchset_schema: u32,
    pub name: String,
    pub author: String,
    pub version_major: u8,
    pub version_minor: u8,
    pub game_title: String,
    pub entries: Vec<PatchEntry>,
}

/// Two parameters equal in all fields (strings compared by contents).
pub open spec fn param_like(a: Parameter, b: Parameter) -> bool {
    &&& b.name@ == a.name@
    &&& b.param_type == a.param_type
    &&& b.endianness == a.endianness
    &&& opt_str_view_eq(a.default, b.default)
    &&& opt_str_view_eq(a.min, b.min)
    &&& opt_str_view_eq(a.max, b.max)
    &&& b.value@ == a.value@
}

/// Two patches equal in all fields (byte sequences compared by contents).
pub open spec fn patch_like(a: Patch, b: Patch) -> bool {
    &&& b.offset == a.offset
    &&& b.offset_type == a.offset_type
    &&& match a.replacement {
        PatchReplacement::Bytes(x) => b.replacement matches PatchReplacement::Bytes(y) && y@
            == x@,
        PatchReplacement::Parameter(i) => b.replacement == PatchReplacement::Parameter(i),
    }
    &&& opt_bytes_view_eq(a.original_bytes, b.original_bytes)
}

/// Two entries equal in all fields, parameters and patches included.
pub open spec fn entry_like(a: PatchEntry, b: PatchEntry) -> bool {
    &&& b.name@ == a.name@
    &&& b.description@ == a.description@
    &&& opt_str_view_eq(a.alt_author, b.alt_author)
    &&& b.parameters@.len() == a.parameters@.len()
    &&& forall|i: int|
        0 <= i < a.parameters@.len() ==> param_like(a.parameters@[i], #[trigger] b.parameters@[i])
    &&& b.patches@.len() == a.patches@.len()
    &&& forall|i: int|
        0 <= i < a.patches@.len() ==> patch_like(a.patches@[i], #[trigger] b.patches@[i])
}

/// Two patch sets equal in all fields, entries included.
pub open spec fn set_like(a: PatchSet, b: PatchSet) -> bool {
    &&& b.xbpatchset_schema == a.xbpatchset_schema
    &&& b.name@ == a.name@
    &&& b.author@ == a.author@
    &&& b.version_major == a.version_major
    &&& b.version_minor == a.version_minor
    &&& b.game_title@ == a.game_title@
    &&& b.entries@.len() == a.entries@.len()
    &&& forall|i: int|
        0 <= i < a.entries@.len() ==> entry_like(a.entries@[i], #[trigger] b.entries@[i])
}

impl PatchSet {
    pub fn is_empty(&self) -> (r: bool)
        ensures
            r == (self.entries@.len() == 0),
    {
        self.len() == 0
    }

    pub fn len(&self) -> (r: usize)
        ensures
            r == self.entries@.len(),
    {
        self.entries.len()
    }
}

} // verus!
