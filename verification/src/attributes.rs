//! Access attributes of a mapping.
//!
//! The attributes of a mapping are the flag bits of its translation table
//! descriptor. RAM is mapped as normal cacheable, inner shareable memory;
//! device registers are mapped as device memory that no privilege level may
//! execute from.

use vstd::prelude::*;
use crate::region::MemoryKind;

verus! {

/// The descriptor takes part in translation.
pub const ATTR_VALID: u64 = 0x1;

/// Set by the translation table in descriptors of the last level; never part
/// of the attributes a mapping is asked for.
pub const ATTR_TABLE_OR_PAGE: u64 = 0x2;

/// Position of the memory attribute index in the flag bits.
pub const ATTR_INDEX_SHIFT: u64 = 2;

/// Largest memory attribute index.
pub const ATTR_INDEX_MAX: u64 = 7;

/// Memory attribute index 0, which the indirection register gives to device
/// memory.
pub const ATTR_INDEX_DEVICE: u64 = 0x0;

/// Memory attribute index 4, which the indirection register gives to normal
/// cacheable memory.
pub const ATTR_INDEX_NORMAL: u64 = 0x10;

/// Both shareability bits: inner shareable.
pub const ATTR_INNER_SHAREABLE: u64 = 0x300;

/// Access flag.
pub const ATTR_ACCESSED: u64 = 0x400;

/// Privileged execute-never.
pub const ATTR_PXN: u64 = 0x20_0000_0000_0000;

/// Unprivileged execute-never.
pub const ATTR_UXN: u64 = 0x40_0000_0000_0000;

/// Attributes of a RAM mapping.
pub const NORMAL_MEMORY: u64 = ATTR_INDEX_NORMAL | ATTR_INNER_SHAREABLE | ATTR_VALID
    | ATTR_ACCESSED;

/// Attributes of a device mapping.
pub const DEVICE_MEMORY: u64 = ATTR_INDEX_DEVICE | ATTR_PXN | ATTR_UXN | ATTR_VALID
    | ATTR_ACCESSED;

/// The flag bits of a block or page descriptor.
#[derive(Clone, Copy, Debug, PartialEq, Eq, Structural)]
pub struct PageAttributes {
    pub bits: u64,
}

impl PageAttributes {
    /// Whether the mapping takes part in translation.
    #[verifier::allow_in_spec]
    pub fn is_valid(self) -> bool
        returns
            self.bits & ATTR_VALID != 0,
    {
        self.bits & ATTR_VALID != 0
    }

    /// Whether the access flag is set.
    #[verifier::allow_in_spec]
    pub fn is_accessed(self) -> bool
        returns
            self.bits & ATTR_ACCESSED != 0,
    {
        self.bits & ATTR_ACCESSED != 0
    }

    /// Whether the mapping is inner shareable.
    #[verifier::allow_in_spec]
    pub fn is_inner_shareable(self) -> bool
        returns
            self.bits & ATTR_INNER_SHAREABLE == ATTR_INNER_SHAREABLE,
    {
        self.bits & ATTR_INNER_SHAREABLE == ATTR_INNER_SHAREABLE
    }

    /// Whether execution is forbidden at both privilege levels.
    #[verifier::allow_in_spec]
    pub fn is_execute_never(self) -> bool
        returns
            self.bits & (ATTR_PXN | ATTR_UXN) == ATTR_PXN | ATTR_UXN,
    {
        self.bits & (ATTR_PXN | ATTR_UXN) == ATTR_PXN | ATTR_UXN
    }

    /// The index of the mapping's memory type in the attribute indirection
    /// register.
    #[verifier::allow_in_spec]
    pub fn attribute_index(self) -> (index: u64)
        ensures
            index <= ATTR_INDEX_MAX,
        returns
            (self.bits >> ATTR_INDEX_SHIFT) & ATTR_INDEX_MAX,
    {
        let bits: u64 = self.bits;
        assert((bits >> ATTR_INDEX_SHIFT) & ATTR_INDEX_MAX <= ATTR_INDEX_MAX) by (bit_vector);
        (bits >> ATTR_INDEX_SHIFT) & ATTR_INDEX_MAX
    }
}

/// The attributes a region of the given kind is mapped with.
#[verifier::allow_in_spec]
pub fn attributes_for(kind: MemoryKind) -> PageAttributes
    returns
        (match kind {
            MemoryKind::Ram => PageAttributes { bits: NORMAL_MEMORY },
            MemoryKind::DeviceIo => PageAttributes { bits: DEVICE_MEMORY },
        }),
{
    match kind {
        MemoryKind::Ram => PageAttributes { bits: NORMAL_MEMORY },
        MemoryKind::DeviceIo => PageAttributes { bits: DEVICE_MEMORY },
    }
}

/// What the attributes of each kind of region decode to: both are valid with
/// the access flag set and never carry the page marker; RAM is inner
/// shareable, uses attribute index 4 and may be executed; device memory uses
/// attribute index 0 and is execute-never at both privilege levels.
pub proof fn lemma_region_attributes(kind: MemoryKind)
    ensures
        attributes_for(kind).is_valid(),
        attributes_for(kind).is_accessed(),
        attributes_for(kind).bits & ATTR_TABLE_OR_PAGE == 0,
        kind is Ram ==> attributes_for(kind).bits == 0x711,
        kind is Ram ==> attributes_for(kind).is_inner_shareable(),
        kind is Ram ==> attributes_for(kind).attribute_index() == 4,
        kind is Ram ==> !attributes_for(kind).is_execute_never(),
        kind is DeviceIo ==> attributes_for(kind).bits == 0x60_0000_0000_0401,
        kind is DeviceIo ==> attributes_for(kind).attribute_index() == 0,
        kind is DeviceIo ==> attributes_for(kind).is_execute_never(),
        kind is DeviceIo ==> !attributes_for(kind).is_inner_shareable(),
{
    assert(NORMAL_MEMORY == 0x711) by (bit_vector);
    assert(DEVICE_MEMORY == 0x60_0000_0000_0401) by (bit_vector);
    assert(0x711u64 & ATTR_VALID != 0 && 0x711u64 & ATTR_ACCESSED != 0 && 0x711u64
        & ATTR_TABLE_OR_PAGE == 0 && 0x711u64 & ATTR_INNER_SHAREABLE == ATTR_INNER_SHAREABLE && (
    0x711u64 >> ATTR_INDEX_SHIFT) & ATTR_INDEX_MAX == 4 && 0x711u64 & (ATTR_PXN | ATTR_UXN)
        != ATTR_PXN | ATTR_UXN) by (bit_vector);
    assert(0x60_0000_0000_0401u64 & ATTR_VALID != 0 && 0x60_0000_0000_0401u64 & ATTR_ACCESSED != 0
        && 0x60_0000_0000_0401u64 & ATTR_TABLE_OR_PAGE == 0 && 0x60_0000_0000_0401u64
        & ATTR_INNER_SHAREABLE != ATTR_INNER_SHAREABLE && (0x60_0000_0000_0401u64
        >> ATTR_INDEX_SHIFT) & ATTR_INDEX_MAX == 0 && 0x60_0000_0000_0401u64 & (ATTR_PXN
        | ATTR_UXN) == ATTR_PXN | ATTR_UXN) by (bit_vector);
}

} // verus!
