//! Core engine for byte-level patching of XBE images: a section-based memory
//! map that translates virtual addresses to raw file offsets, a patch engine
//! that overwrites byte ranges of an in-memory image, and a versioned,
//! hex-encoded patch-set data model with schema migration.

use vstd::prelude::*;

pub mod memory_mapping;
pub mod param;
pub mod patching;
pub mod serialization;
pub mod status;
pub mod version0;
pub mod version1;
pub mod xbe;

verus! {

/// The error taxonomy of the patching core.
///
/// Header and document decode failures are fatal for a whole run; `NotMapped`
/// and `IoFailure` are per-patch failures that an apply loop records and then
/// continues past; `ParameterIndexOutOfRange` is fatal for the entry whose
/// patch carries the dangling reference.
#[derive(Clone, Copy, Debug, PartialEq, Eq, Structural)]
pub enum PatchError {
    /// The binary header is shorter or more malformed than expected.
    TruncatedOrInvalidHeader,
    /// A virtual address is covered by no mapping of the memory map.
    NotMapped,
    /// A write would fall outside the bounds of the target image.
    IoFailure,
    /// A hex string has a non-hex character, an odd-length byte body, an
    /// empty numeric body, or a value too large for its target width.
    MalformedHex,
    /// A document's schema version or a parameter's type name is not the
    /// one the decoder was asked for.
    SchemaMismatch,
    /// A patch references a parameter index outside its entry's list.
    ParameterIndexOutOfRange,
}

} // verus!
