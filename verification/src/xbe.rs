//! The binary image side of the engine: parsing the fixed-offset header
//! fields and section table of an XBE image, applying byte patches to the
//! in-memory image, and the per-run report of patch outcomes.

use vstd::prelude::*;

use crate::memory_mapping::{resolved, MemoryMap, MemoryMapping};
use crate::param::{param_bytes, param_value_ok, Parameter};
use crate::patching::{Patch, PatchEntry, PatchOffsetType, PatchReplacement};
use crate::PatchError;

verus! {

/// One record of the section table: nine little-endian 32-bit fields in
/// this exact order.
#[derive(Debug, Default, Clone, Copy, PartialEq, Eq, Structural)]
pub struct XBESectionHeader {
    pub flags: u32,
    pub virtual_offset: u32,
    pub virtual_size: u32,
    pub file_offset: u32,
    pub file_size: u32,
    pub name_ptr: u32,
    pub reference: u32,
    pub head_ref_ptr: u32,
    pub tail_ref_ptr: u32,
}

/// The parsed subset of an XBE header: just enough to build a memory map.
#[derive(Debug, Clone, PartialEq)]
pub struct XBEHeader {
    pub image_base: u32,
    /// Number of memory sections.
    pub section_count: u32,
    /// Loader virtual address of the first section record.
    pub section_header_ptr: u32,
    pub sections: Vec<XBESectionHeader>,
}

/// The little-endian 32-bit value at `off` in an image.
pub open spec fn le32_at(img: Seq<u8>, off: int) -> int {
    img[off] + 0x100 * img[off + 1] + 0x1_0000 * img[off + 2] + 0x100_0000 * img[off + 3]
}

/// The section record starting at `off` in an image.
pub open spec fn section_at(img: Seq<u8>, off: int) -> XBESectionHeader {
    XBESectionHeader {
        flags: le32_at(img, off) as u32,
        virtual_offset: le32_at(img, off + 4) as u32,
        virtual_size: le32_at(img, off + 8) as u32,
        file_offset: le32_at(img, off + 12) as u32,
        file_size: le32_at(img, off + 16) as u32,
        name_ptr: le32_at(img, off + 20) as u32,
        reference: le32_at(img, off + 24) as u32,
        head_ref_ptr: le32_at(img, off + 28) as u32,
        tail_ref_ptr: le32_at(img, off + 32) as u32,
    }
}

/// File offset of the section table: the loader pointer converted back to a
/// file offset through the image base itself (the one bootstrap step made
/// before a memory map exists).
pub open spec fn section_table_off(img: Seq<u8>) -> int {
    le32_at(img, 0x120) - le32_at(img, 0x104)
}

/// Whether an image holds the fixed header fields and the whole section
/// table they announce: anything less is a truncated or invalid header.
pub open spec fn header_parse_ok(img: Seq<u8>) -> bool {
    &&& img.len() >= 0x124
    &&& le32_at(img, 0x120) >= le32_at(img, 0x104)
    &&& section_table_off(img) + 36 * le32_at(img, 0x11c) <= img.len()
}

/// Whether `h` holds exactly the fields parsed from `img`: the fixed
/// header fields and one record per announced section.
pub open spec fn parsed_header(img: Seq<u8>, h: XBEHeader) -> bool {
    &&& h.image_base == le32_at(img, 0x104)
    &&& h.section_count == le32_at(img, 0x11c)
    &&& h.section_header_ptr == le32_at(img, 0x120)
    &&& h.sections@.len() == le32_at(img, 0x11c)
    &&& forall|i: int|
        0 <= i < h.sections@.len() ==> #[trigger] h.sections@[i] == section_at(
            img,
            section_table_off(img) + 36 * i,
        )
}

fn read_le_u32(img: &Vec<u8>, off: usize) -> (r: u32)
    requires
        off + 4 <= img@.len(),
    ensures
        r == le32_at(img@, off as int),
{
    proof {
        vstd::std_specs::vec::axiom_spec_len(img);
    }
    let b0 = img[off] as u32;
    let b1 = img[off + 1] as u32;
    let b2 = img[off + 2] as u32;
    let b3 = img[off + 3] as u32;
    b0 + 0x100 * b1 + 0x1_0000 * b2 + 0x100_0000 * b3
}

impl XBEHeader {
    pub fn sections(&self) -> (r: &Vec<XBESectionHeader>)
        ensures
            r@ == self.sections@,
    {
        &self.sections
    }

    pub fn section_count(&self) -> (r: u32)
        ensures
            r == self.section_count,
    {
        self.section_count
    }

    /// Parses the header fields out of a whole image: the image base at
    /// `0x104`, the section count at `0x11c`, the section table pointer
    /// right after it, then `section_count` records of nine little-endian
    /// 32-bit fields each. Any shortfall is `TruncatedOrInvalidHeader`.
    pub fn from_image(img: &Vec<u8>) -> (r: Result<XBEHeader, PatchError>)
        ensures
            header_parse_ok(img@) <==> r is Ok,
            r matches Ok(h) ==> parsed_header(img@, h),
            !header_parse_ok(img@) ==> r == Err::<XBEHeader, PatchError>(
                PatchError::TruncatedOrInvalidHeader,
            ),
    {
        if img.len() < 0x124 {
            return Err(PatchError::TruncatedOrInvalidHeader);
        }
        let image_base = read_le_u32(img, 0x104);
        let section_count = read_le_u32(img, 0x11c);
        let section_header_ptr = read_le_u32(img, 0x120);
        if section_header_ptr < image_base {
            return Err(PatchError::TruncatedOrInvalidHeader);
        }
        let table_off_32 = section_header_ptr - image_base;
        let need: u64 = (table_off_32 as u64) + 36u64 * (section_count as u64);
        if need > (img.len() as u64) {
            return Err(PatchError::TruncatedOrInvalidHeader);
        }
        let table_off = table_off_32 as usize;
        let count = section_count as usize;
        let mut sections: Vec<XBESectionHeader> = Vec::new();
        let mut i: usize = 0;
        while i < count
            invariant
                i as int <= count as int,
                count == le32_at(img@, 0x11c),
                table_off as int == section_table_off(img@),
                table_off + 36 * count <= img@.len(),
                sections@.len() == i as int,
                forall|j: int|
                    0 <= j < i as int ==> #[trigger] sections@[j] == section_at(
                        img@,
                        table_off + 36 * j,
                    ),
            decreases count - i,
        {
            proof {
                vstd::std_specs::vec::axiom_spec_len(img);
                assert(36 * i < 36 * count);
            }
            let off = table_off + 36 * i;
            let record = XBESectionHeader {
                flags: read_le_u32(img, off),
                virtual_offset: read_le_u32(img, off + 4),
                virtual_size: read_le_u32(img, off + 8),
                file_offset: read_le_u32(img, off + 12),
                file_size: read_le_u32(img, off + 16),
                name_ptr: read_le_u32(img, off + 20),
                reference: read_le_u32(img, off + 24),
                head_ref_ptr: read_le_u32(img, off + 28),
                tail_ref_ptr: read_le_u32(img, off + 32),
            };
            sections.push(record);
            i = i + 1;
        }
        Ok(XBEHeader { image_base, section_count, section_header_ptr, sections })
    }
}

/// Per-run counts of patch outcomes. The engine never drops a failure: a
/// caller reads both counts to decide whether a run may proceed.
#[derive(Debug, Clone, Copy, PartialEq, Eq, Structural)]
pub struct PatchReport {
    pub successes: u32,
    pub failures: u32,
}

impl Default for PatchReport {
    /// A fresh report with nothing counted yet.
    fn default() -> (r: PatchReport)
        ensures
            r.successes == 0 && r.failures == 0,
    {
        PatchReport { successes: 0, failures: 0 }
    }
}

impl PatchReport {
    pub fn add_success(&mut self)
        requires
            old(self).successes < u32::MAX,
        ensures
            final(self).successes == old(self).successes + 1,
            final(self).failures == old(self).failures,
    {
        self.successes = self.successes + 1;
    }

    pub fn successes(&self) -> (r: u32)
        ensures
            r == self.successes,
    {
        self.successes
    }

    pub fn add_failure(&mut self)
        requires
            old(self).failures < u32::MAX,
        ensures
            final(self).failures == old(self).failures + 1,
            final(self).successes == old(self).successes,
    {
        self.failures = self.failures + 1;
    }

    pub fn failures(&self) -> (r: u32)
        ensures
            r == self.failures,
    {
        self.failures
    }

    /// How many patches were attempted in all.
    pub fn total(&self) -> (r: u32)
        requires
            self.successes + self.failures <= u32::MAX,
        ensures
            r == self.successes + self.failures,
    {
        self.successes + self.failures
    }

    /// An entry or run counts as successful exactly when nothing failed.
    pub fn patch_successful(&self) -> (r: bool)
        ensures
            r == (self.failures == 0),
    {
        self.failures == 0
    }

    /// Counts one outcome on the side the flag names.
    pub fn increment_from_bool(&mut self, success: bool)
        requires
            success ==> old(self).successes < u32::MAX,
            !success ==> old(self).failures < u32::MAX,
        ensures
            success ==> final(self).successes == old(self).successes + 1 && final(self).failures
                == old(self).failures,
            !success ==> final(self).failures == old(self).failures + 1 && final(self).successes
                == old(self).successes,
    {
        if success {
            self.successes = self.successes + 1;
        } else {
            self.failures = self.failures + 1;
        }
    }
}

/// The raw file offset a patch targets: its own offset when raw, the
/// translated one when virtual; nothing when translation fails.
pub open spec fn patch_target(map: Seq<MemoryMapping>, p: Patch) -> Option<int> {
    match p.offset_type {
        PatchOffsetType::Raw => Some(p.offset as int),
        PatchOffsetType::Virtual => match resolved(map, p.offset) {
            Some(off) => if off <= u32::MAX {
                Some(off)
            } else {
                None
            },
            None => None,
        },
    }
}

/// The byte sequence a patch writes, resolved against an entry's
/// parameter list: literal bytes as they are; a parameter reference only
/// if the index is in bounds and the value materializes.
pub open spec fn replacement_of(p: Patch, params: Seq<Parameter>) -> Result<Seq<u8>, PatchError> {
    match p.replacement {
        PatchReplacement::Bytes(b) => Ok(b@),
        PatchReplacement::Parameter(i) => if i >= params.len() {
            Err(PatchError::ParameterIndexOutOfRange)
        } else if !param_value_ok(params[i as int]) {
            Err(PatchError::MalformedHex)
        } else {
            Ok(param_bytes(params[i as int]))
        },
    }
}

/// An image with `bytes` overwritten starting at `off`; everything
/// outside that range is unchanged.
pub open spec fn splice_bytes(img: Seq<u8>, off: int, bytes: Seq<u8>) -> Seq<u8> {
    img.take(off) + bytes + img.skip(off + bytes.len())
}

/// What one patch does to an image: the spliced image on success, or the
/// error it fails with. The offset is computed first (an unmapped virtual
/// address fails before the replacement is looked at); the replacement is
/// materialized just before writing; a write that would leave the image's
/// bounds changes nothing.
pub open spec fn patch_outcome(
    img: Seq<u8>,
    map: Seq<MemoryMapping>,
    p: Patch,
    params: Seq<Parameter>,
) -> Result<Seq<u8>, PatchError> {
    match patch_target(map, p) {
        None => Err(PatchError::NotMapped),
        Some(off) => match replacement_of(p, params) {
            Err(e) => Err(e),
            Ok(bytes) => if off + bytes.len() <= img.len() {
                Ok(splice_bytes(img, off, bytes))
            } else {
                Err(PatchError::IoFailure)
            },
        },
    }
}

/// What a whole patch sequence (from index `i` on) does to an image:
/// the final image with success and failure counts, or — when a patch's
/// replacement cannot be determined — the image at that point and the
/// fatal error. `NotMapped` and `IoFailure` count as failures and the
/// sequence continues past them.
pub open spec fn apply_from(
    img: Seq<u8>,
    map: Seq<MemoryMapping>,
    patches: Seq<Patch>,
    params: Seq<Parameter>,
    i: int,
) -> Result<(Seq<u8>, int, int), (Seq<u8>, PatchError)>
    decreases patches.len() - i,
{
    if i < 0 || i >= patches.len() {
        Ok((img, 0, 0))
    } else {
        match patch_outcome(img, map, patches[i], params) {
            Ok(img2) => match apply_from(img2, map, patches, params, i + 1) {
                Ok((im, s, f)) => Ok((im, s + 1, f)),
                Err(e) => Err(e),
            },
            Err(PatchError::NotMapped) => match apply_from(img, map, patches, params, i + 1) {
                Ok((im, s, f)) => Ok((im, s, f + 1)),
                Err(e) => Err(e),
            },
            Err(PatchError::IoFailure) => match apply_from(img, map, patches, params, i + 1) {
                Ok((im, s, f)) => Ok((im, s, f + 1)),
                Err(e) => Err(e),
            },
            Err(e) => Err((img, e)),
        }
    }
}

fn write_bytes_at(img: &mut Vec<u8>, off: u32, bytes: &Vec<u8>) -> (r: Result<(), PatchError>)
    ensures
        off + bytes@.len() <= old(img)@.len() ==> r == Ok::<(), PatchError>(()) && final(img)@
            == splice_bytes(old(img)@, off as int, bytes@),
        off + bytes@.len() > old(img)@.len() ==> r == Err::<(), PatchError>(PatchError::IoFailure)
            && final(img)@ == old(img)@,
{
    proof {
        vstd::std_specs::vec::axiom_spec_len(img);
        vstd::std_specs::vec::axiom_spec_len(bytes);
    }
    if (bytes.len() as u64) > (img.len() as u64) || (off as u64) > (img.len() as u64) - (
    bytes.len() as u64) {
        return Err(PatchError::IoFailure);
    }
    let o = off as usize;
    let mut k: usize = 0;
    while k < bytes.len()
        invariant
            k as int <= bytes@.len(),
            o == off,
            o + bytes@.len() <= img@.len(),
            img@.len() == old(img)@.len(),
            img@.len() <= usize::MAX,
            forall|j: int| o <= j < o + k as int ==> #[trigger] img@[j] == bytes@[j - o],
            forall|j: int|
                0 <= j < img@.len() && !(o <= j < o + k as int) ==> #[trigger] img@[j]
                    == old(img)@[j],
        decreases bytes@.len() - k,
    {
        img[o + k] = bytes[k];
        k = k + 1;
    }
    proof {
        assert(img@ =~= splice_bytes(old(img)@, off as int, bytes@));
    }
    Ok(())
}

/// The patch engine: a target image held in memory, the header parsed out
/// of it, and the memory map built from the header's sections. Applying
/// patches mutates the image in place; there is no rollback.
#[derive(Debug)]
pub struct XBEWriter {
    pub image: Vec<u8>,
    pub xbe_header: XBEHeader,
    pub mem_map: MemoryMap,
}

impl XBEWriter {
    /// Builds an engine over a whole image: parses the header once and
    /// caches it, together with the memory map of its sections, for the
    /// engine's lifetime.
    pub fn new(image: Vec<u8>) -> (r: Result<XBEWriter, PatchError>)
        ensures
            header_parse_ok(image@) <==> r is Ok,
            !header_parse_ok(image@) ==> r == Err::<XBEWriter, PatchError>(
                PatchError::TruncatedOrInvalidHeader,
            ),
            r matches Ok(w) ==> {
                &&& w.image@ == image@
                &&& parsed_header(image@, w.xbe_header)
                &&& w.mem_map@.len() == w.xbe_header.sections@.len()
                &&& forall|i: int|
                    0 <= i < w.mem_map@.len() ==> (#[trigger] w.mem_map@[i]).file_start
                        == w.xbe_header.sections@[i].file_offset && w.mem_map@[i].virtual_start
                        == w.xbe_header.sections@[i].virtual_offset && w.mem_map@[i].size
                        == w.xbe_header.sections@[i].virtual_size
            },
    {
        let xbe_header = match XBEHeader::from_image(&image) {
            Ok(h) => h,
            Err(e) => {
                return Err(e);
            },
        };
        let mem_map = MemoryMap::from_xbe_header(&xbe_header);
        Ok(XBEWriter { image, xbe_header, mem_map })
    }

    /// Applies one patch: resolves its target offset, materializes its
    /// replacement, and overwrites that many bytes of the image, exactly
    /// as `patch_outcome` states.
    pub fn apply_patch(&mut self, patch: &Patch, parameters: &Vec<Parameter>) -> (r: Result<
        (),
        PatchError,
    >)
        ensures
            final(self).xbe_header == old(self).xbe_header,
            final(self).mem_map@ == old(self).mem_map@,
            match patch_outcome(old(self).image@, old(self).mem_map@, *patch, parameters@) {
                Ok(img2) => r == Ok::<(), PatchError>(()) && final(self).image@ == img2,
                Err(e) => r == Err::<(), PatchError>(e) && final(self).image@ == old(self).image@,
            },
    {
        let ghost p = *patch;
        let ghost map0 = self.mem_map@;
        let off: u32 = match patch.offset_type {
            PatchOffsetType::Raw => patch.offset,
            PatchOffsetType::Virtual => match self.mem_map.get_raw_offset(patch.offset) {
                Ok(o) => o,
                Err(_) => {
                    return Err(PatchError::NotMapped);
                },
            },
        };
        proof {
            crate::memory_mapping::lemma_resolved_nonneg(map0, p.offset);
            assert(patch_target(map0, p) == Some(off as int));
        }
        match &patch.replacement {
            PatchReplacement::Bytes(b) => {
                proof {
                    assert(replacement_of(p, parameters@) == Ok::<Seq<u8>, PatchError>(b@));
                }
                write_bytes_at(&mut self.image, off, b)
            },
            PatchReplacement::Parameter(idx) => {
                if *idx >= parameters.len() {
                    return Err(PatchError::ParameterIndexOutOfRange);
                }
                let bytes = match parameters[*idx].materialize() {
                    Ok(v) => v,
                    Err(e) => {
                        return Err(e);
                    },
                };
                proof {
                    assert(replacement_of(p, parameters@) == Ok::<Seq<u8>, PatchError>(bytes@));
                }
                write_bytes_at(&mut self.image, off, &bytes)
            },
        }
    }

    /// Applies every patch of an entry in sequence order, continuing past
    /// per-patch failures and counting both outcomes; only a replacement
    /// that cannot be determined (a dangling parameter reference or a
    /// malformed parameter value) aborts the entry.
    pub fn apply_patches(&mut self, entry: &PatchEntry) -> (r: Result<PatchReport, PatchError>)
        requires
            entry.patches@.len() <= u32::MAX,
        ensures
            final(self).xbe_header == old(self).xbe_header,
            final(self).mem_map@ == old(self).mem_map@,
            match apply_from(
                old(self).image@,
                old(self).mem_map@,
                entry.patches@,
                entry.parameters@,
                0,
            ) {
                Ok((img2, s, f)) => r matches Ok(rep) && rep.successes == s && rep.failures == f
                    && final(self).image@ == img2,
                Err((img2, e)) => r == Err::<PatchReport, PatchError>(e) && final(self).image@
                    == img2,
            },
    {
        let ghost map = old(self).mem_map@;
        let ghost img0 = old(self).image@;
        let mut report = PatchReport::default();
        let n = entry.patches.len();
        let mut i: usize = 0;
        while i < n
            invariant
                i as int <= n as int,
                n == entry.patches@.len(),
                n <= u32::MAX,
                report.successes + report.failures <= i,
                self.xbe_header == old(self).xbe_header,
                self.mem_map@ == map,
                map == old(self).mem_map@,
                img0 == old(self).image@,
                ({
                    let full = apply_from(img0, map, entry.patches@, entry.parameters@, 0);
                    let rest = apply_from(
                        self.image@,
                        map,
                        entry.patches@,
                        entry.parameters@,
                        i as int,
                    );
                    match rest {
                        Ok((im, s, f)) => full == Ok::<(Seq<u8>, int, int), (Seq<u8>, PatchError)>(
                            (im, s + report.successes, f + report.failures),
                        ),
                        Err(e) => full == Err::<(Seq<u8>, int, int), (Seq<u8>, PatchError)>(e),
                    }
                }),
            decreases n - i,
        {
            let ghost cur = self.image@;
            let patch = &entry.patches[i];
            match self.apply_patch(patch, &entry.parameters) {
                Ok(()) => {
                    report.add_success();
                },
                Err(e) => {
                    match e {
                        PatchError::NotMapped | PatchError::IoFailure => {
                            report.add_failure();
                        },
                        _ => {
                            proof {
                                let rest = apply_from(
                                    cur,
                                    map,
                                    entry.patches@,
                                    entry.parameters@,
                                    i as int,
                                );
                                assert(rest == Err::<(Seq<u8>, int, int), (Seq<u8>, PatchError)>(
                                    (cur, e),
                                ));
                            }
                            return Err(e);
                        },
                    }
                },
            }
            i = i + 1;
        }
        Ok(report)
    }
}

} // verus!
