//! The memory map of the target platform.

use vstd::prelude::*;
use crate::region::{accepted_at, valid_table, MemoryKind, MemoryRegion};

verus! {

/// The physical memory windows of the platform: four windows of RAM and the
/// window of device registers below them.
pub open spec fn platform_table() -> Seq<MemoryRegion> {
    seq![
        MemoryRegion { kind: MemoryKind::Ram, physical_base: 0x8000_0000, size: 0x3a80_0000 },
        MemoryRegion { kind: MemoryKind::Ram, physical_base: 0xc000_0000, size: 0x0180_0000 },
        MemoryRegion { kind: MemoryKind::Ram, physical_base: 0xc340_0000, size: 0x3cc0_0000 },
        MemoryRegion { kind: MemoryKind::Ram, physical_base: 0x1_0000_0000, size: 0x1_0000_0000 },
        MemoryRegion { kind: MemoryKind::DeviceIo, physical_base: 0x1000, size: 0x7fff_f000 },
    ]
}

/// The memory map of the platform is a valid region table.
pub proof fn lemma_platform_table_is_valid()
    ensures
        valid_table(platform_table()),
{
    let table = platform_table();
    assert forall|i: int| 0 <= i < table.len() implies #[trigger] accepted_at(table, i) by {
        assert(table[0].is_sound());
        assert(table[1].is_sound());
        assert(table[2].is_sound());
        assert(table[3].is_sound());
        assert(table[4].is_sound());
    }
}

/// The memory map of the platform, for the identity mapping and for the
/// configuration of the root zone alike.
pub fn platform_regions() -> (regions: Vec<MemoryRegion>)
    ensures
        regions@ == platform_table(),
        valid_table(regions@),
{
    let mut regions: Vec<MemoryRegion> = Vec::new();
    regions.push(MemoryRegion::new(MemoryKind::Ram, 0x8000_0000, 0x3a80_0000));
    regions.push(MemoryRegion::new(MemoryKind::Ram, 0xc000_0000, 0x0180_0000));
    regions.push(MemoryRegion::new(MemoryKind::Ram, 0xc340_0000, 0x3cc0_0000));
    regions.push(MemoryRegion::new(MemoryKind::Ram, 0x1_0000_0000, 0x1_0000_0000));
    regions.push(MemoryRegion::new(MemoryKind::DeviceIo, 0x1000, 0x7fff_f000));
    proof {
        assert(regions@ =~= platform_table());
        lemma_platform_table_is_valid();
    }
    regions
}

} // verus!
