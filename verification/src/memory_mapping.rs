//! The memory map: an ordered sequence of ranges that translate a virtual
//! (runtime-loaded) address into a raw (on-disk) file offset, built from the
//! section table of a binary's header or supplied literally.

use vstd::prelude::*;

use crate::xbe::XBEHeader;
use crate::PatchError;

verus! {

/// One translation range: virtual addresses in
/// `virtual_start ..= virtual_start + size` map onto file offsets starting
/// at `file_start`. The upper bound is inclusive, matching the engine this
/// format comes from.
#[derive(Clone, Copy, Debug, PartialEq, Eq, Structural)]
pub struct MemoryMapping {
    pub file_start: u32,
    pub virtual_start: u32,
    pub size: u32,
}

/// An ordered list of mappings; lookups scan in insertion order and the
/// first covering mapping wins.
#[derive(Debug, Clone)]
pub struct MemoryMap {
    mappings: Vec<MemoryMapping>,
}

/// Whether `address` lies in `m`'s (inclusive) virtual range.
pub open spec fn mapping_in_range(m: MemoryMapping, address: u32) -> bool {
    m.virtual_start <= address <= m.virtual_start + m.size
}

/// The raw offset the first covering mapping yields for `address`, if any.
pub open spec fn resolved(mappings: Seq<MemoryMapping>, address: u32) -> Option<int>
    decreases mappings.len(),
{
    if mappings.len() == 0 {
        None
    } else if mapping_in_range(mappings[0], address) {
        Some(mappings[0].file_start + address - mappings[0].virtual_start)
    } else {
        resolved(mappings.skip(1), address)
    }
}

impl View for MemoryMap {
    type V = Seq<MemoryMapping>;

    closed spec fn view(&self) -> Seq<MemoryMapping> {
        self.mappings@
    }
}

impl MemoryMap {
    /// Builds a map from an explicit list of mappings.
    pub fn new(mappings: Vec<MemoryMapping>) -> (r: MemoryMap)
        ensures
            r@ == mappings@,
    {
        MemoryMap { mappings }
    }

    /// Builds one mapping per section of a parsed header, copying the
    /// section's file offset, virtual offset and virtual size.
    pub fn from_xbe_header(header: &XBEHeader) -> (r: MemoryMap)
        ensures
            r@.len() == header.sections@.len(),
            forall|i: int|
                0 <= i < r@.len() ==> (#[trigger] r@[i]).file_start
                    == header.sections@[i].file_offset && r@[i].virtual_start
                    == header.sections@[i].virtual_offset && r@[i].size
                    == header.sections@[i].virtual_size,
    {
        let mut mappings: Vec<MemoryMapping> = Vec::new();
        let mut i: usize = 0;
        while i < header.sections.len()
            invariant
                i as int <= header.sections@.len(),
                mappings@.len() == i as int,
                forall|j: int|
                    0 <= j < i as int ==> (#[trigger] mappings@[j]).file_start
                        == header.sections@[j].file_offset && mappings@[j].virtual_start
                        == header.sections@[j].virtual_offset && mappings@[j].size
                        == header.sections@[j].virtual_size,
            decreases header.sections@.len() - i,
        {
            let section = &header.sections[i];
            mappings.push(MemoryMapping {
                file_start: section.file_offset,
                virtual_start: section.virtual_offset,
                size: section.virtual_size,
            });
            i = i + 1;
        }
        MemoryMap { mappings }
    }

    /// Translates a virtual address to a raw file offset through the first
    /// covering mapping; `NotMapped` when no mapping covers the address, or
    /// when the covering mapping's offset arithmetic leaves `u32`.
    pub fn get_raw_offset(&self, address: u32) -> (r: Result<u32, PatchError>)
        ensures
            resolved(self@, address) is None ==> r == Err::<u32, PatchError>(PatchError::NotMapped),
            resolved(self@, address) matches Some(off) ==> if off <= u32::MAX {
                r == Ok::<u32, PatchError>(off as u32)
            } else {
                r == Err::<u32, PatchError>(PatchError::NotMapped)
            },
    {
        let n = self.mappings.len();
        let mut i: usize = 0;
        proof {
            assert(self@.skip(0) =~= self@);
        }
        while i < n
            invariant
                i as int <= n as int,
                n == self.mappings@.len(),
                self@ == self.mappings@,
                resolved(self@, address) == resolved(self@.skip(i as int), address),
            decreases n - i,
        {
            let m = self.mappings[i];
            proof {
                assert(self@.skip(i as int)[0] == self@[i as int]);
            }
            if m.virtual_start <= address && (address as u64) <= (m.virtual_start as u64)
                + (m.size as u64) {
                let off = (m.file_start as u64) + ((address - m.virtual_start) as u64);
                if off <= u32::MAX as u64 {
                    return Ok(off as u32);
                } else {
                    return Err(PatchError::NotMapped);
                }
            }
            proof {
                assert(self@.skip(i as int).skip(1) =~= self@.skip(i as int + 1));
            }
            i = i + 1;
        }
        proof {
            assert(self@.skip(n as int) =~= Seq::<MemoryMapping>::empty());
        }
        Err(PatchError::NotMapped)
    }
}

/// For every mapping list, index `i` and address covered by mapping `i` but
/// by none before it, resolution yields exactly
/// `file_start + (address - virtual_start)` of that mapping.
pub proof fn lemma_resolve_in_range(mappings: Seq<MemoryMapping>, i: int, address: u32)
    requires
        0 <= i < mappings.len(),
        mapping_in_range(mappings[i], address),
        forall|j: int| 0 <= j < i ==> !mapping_in_range(#[trigger] mappings[j], address),
    ensures
        resolved(mappings, address) == Some(
            mappings[i].file_start + address - mappings[i].virtual_start,
        ),
    decreases i,
{
    if i > 0 {
        assert(mappings.skip(1)[i - 1] == mappings[i]);
        assert(forall|j: int|
            0 <= j < i - 1 ==> #[trigger] mappings.skip(1)[j] == mappings[j + 1]);
        lemma_resolve_in_range(mappings.skip(1), i - 1, address);
    }
}

/// For every address outside every mapping's range, resolution yields
/// nothing, so translation reports `NotMapped`.
pub proof fn lemma_resolve_not_mapped(mappings: Seq<MemoryMapping>, address: u32)
    requires
        forall|j: int| 0 <= j < mappings.len() ==> !mapping_in_range(#[trigger] mappings[j], address),
    ensures
        resolved(mappings, address) is None,
    decreases mappings.len(),
{
    if mappings.len() > 0 {
        assert(forall|j: int|
            0 <= j < mappings.skip(1).len() ==> #[trigger] mappings.skip(1)[j] == mappings[j + 1]);
        lemma_resolve_not_mapped(mappings.skip(1), address);
    }
}

/// A resolved offset is never negative: the covering mapping's range test
/// guarantees the address is at least its virtual start.
pub proof fn lemma_resolved_nonneg(mappings: Seq<MemoryMapping>, address: u32)
    ensures
        resolved(mappings, address) matches Some(off) ==> off >= 0,
    decreases mappings.len(),
{
    if mappings.len() > 0 && !mapping_in_range(mappings[0], address) {
        lemma_resolved_nonneg(mappings.skip(1), address);
    }
}

/// The wrapped difference the block test below computes.
pub open spec fn wrapped_sub_u32(a: u32, b: u32) -> u32 {
    if a - b < 0 {
        (a - b + 0x1_0000_0000) as u32
    } else {
        (a - b) as u32
    }
}

/// Whether a block lies inside this mapping, by a test over wrapped
/// `u32` differences.
pub open spec fn contains_block_spec(m: MemoryMapping, block_start: u32, block_size: u32) -> bool {
    block_start < m.size && wrapped_sub_u32(wrapped_sub_u32(m.size, block_start), block_size)
        < m.size
}

impl MemoryMapping {
    /// Tests whether a block of `block_size` bytes starting `block_start`
    /// bytes into this mapping stays inside it.
    pub fn contains_block(&self, block_start: u32, block_size: u32) -> (r: bool)
        ensures
            r == contains_block_spec(*self, block_start, block_size),
    {
        block_start < self.size && self.size.wrapping_sub(block_start).wrapping_sub(block_size)
            < self.size
    }
}

} // verus!
