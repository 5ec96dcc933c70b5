//! The mapped display memory. What is stated here of `memmap2` is taken on
//! trust: Verus does not read that crate.

use vstd::prelude::*;
use memmap2::MmapMut;

verus! {

/// `memmap2::MmapMut`, a writable memory map. Verus sees nothing inside it.
#[verifier::external_type_specification]
#[verifier::external_body]
pub struct ExMmapMut(memmap2::MmapMut);

/// The bytes of the mapped region, in the order of their addresses.
///
/// It is taken for granted that nothing but this process, through this
/// value, writes to the region while it is mapped.
pub uninterp spec fn mapped_bytes(map: MmapMut) -> Seq<u8>;

/// The length of the slice that `MmapMut` dereferences to: the number of
/// mapped bytes.
#[verifier::external_body]
pub(crate) fn map_len(map: &MmapMut) -> (len: usize)
    ensures
        len == mapped_bytes(*map).len(),
{
    map.len()
}

/// Indexing the slice that `MmapMut` dereferences to: the mapped byte at
/// index `at`. The index has to be inside the region.
#[verifier::external_body]
pub(crate) fn map_read(map: &MmapMut, at: usize) -> (byte: u8)
    requires
        at < mapped_bytes(*map).len(),
    ensures
        byte == mapped_bytes(*map)[at as int],
{
    map[at]
}

/// Assigning through the mutable slice that `MmapMut` dereferences to: the
/// mapped byte at index `at` becomes `byte` and every other byte stays. The
/// index has to be inside the region.
#[verifier::external_body]
pub(crate) fn map_write(map: &mut MmapMut, at: usize, byte: u8)
    requires
        at < mapped_bytes(*old(map)).len(),
    ensures
        mapped_bytes(*final(map)) == mapped_bytes(*old(map)).update(at as int, byte),
{
    map[at] = byte;
}

} // verus!
