//! Memory region descriptor table.
//!
//! A region is a window of physical memory, either RAM or device registers.
//! The identity mapping is built from a list of such regions; the list is
//! usable only if every region is sound on its own (page aligned and inside
//! the input address space) and no two regions share an address.

use vstd::prelude::*;

verus! {

/// Size in bytes of one translation granule.
pub const PAGE_SIZE: u64 = 0x1000;

/// Number of bits of an input address of the hypervisor's translation regime.
pub const ADDRESS_SPACE_BITS: u64 = 36;

/// First address beyond the input address space, `2^ADDRESS_SPACE_BITS`.
pub const ADDRESS_SPACE_SIZE: u64 = 0x10_0000_0000;

/// What a memory region is backed by.
#[derive(Clone, Copy, Debug, PartialEq, Eq, Structural)]
pub enum MemoryKind {
    /// Ordinary memory.
    Ram,
    /// Memory-mapped device registers.
    DeviceIo,
}

/// A window `[physical_base, physical_base + size)` of physical memory.
#[derive(Clone, Copy, Debug, PartialEq, Eq, Structural)]
pub struct MemoryRegion {
    pub kind: MemoryKind,
    pub physical_base: u64,
    pub size: u64,
}

/// Why a region of a table cannot be mapped.
#[derive(Clone, Copy, Debug, PartialEq, Eq, Structural)]
pub enum RegionFault {
    /// The base or the size is not a multiple of [`PAGE_SIZE`].
    Misaligned,
    /// The region reaches beyond [`ADDRESS_SPACE_SIZE`].
    OutOfRange,
    /// The region shares an address with the region at index `earlier`, the
    /// first such region before it in the table.
    Overlaps { earlier: usize },
}

/// The first defect of a region table: the index of the region and its fault.
#[derive(Clone, Copy, Debug, PartialEq, Eq, Structural)]
pub struct TableError {
    pub index: usize,
    pub fault: RegionFault,
}

impl MemoryRegion {
    /// First address after the region.
    pub open spec fn end(self) -> int {
        self.physical_base + self.size
    }

    /// Whether `address` lies in the region.
    pub open spec fn contains(self, address: int) -> bool {
        self.physical_base <= address < self.end()
    }

    /// Whether base and size are multiples of the page size.
    pub open spec fn is_page_aligned(self) -> bool {
        self.physical_base % PAGE_SIZE == 0 && self.size % PAGE_SIZE == 0
    }

    /// Whether the region ends inside the input address space.
    pub open spec fn fits_address_space(self) -> bool {
        self.end() <= ADDRESS_SPACE_SIZE
    }

    /// Whether the two regions share an address.
    pub open spec fn overlaps(self, other: MemoryRegion) -> bool {
        &&& self.physical_base < other.end()
        &&& other.physical_base < self.end()
        &&& self.size > 0
        &&& other.size > 0
    }

    /// The fault the region has by itself, whatever table it stands in.
    pub open spec fn own_fault(self) -> Option<RegionFault> {
        if !self.is_page_aligned() {
            Some(RegionFault::Misaligned)
        } else if !self.fits_address_space() {
            Some(RegionFault::OutOfRange)
        } else {
            None
        }
    }

    /// Whether the region can be mapped as far as it alone is concerned.
    pub open spec fn is_sound(self) -> bool {
        self.own_fault() is None
    }

    pub fn new(kind: MemoryKind, physical_base: u64, size: u64) -> (region: MemoryRegion)
        ensures
            region == (MemoryRegion { kind, physical_base, size }),
    {
        MemoryRegion { kind, physical_base, size }
    }

    /// Tests the region by itself: alignment first, then range. A region of
    /// size 0 holds no address; it is sound where its base is.
    pub fn check(&self) -> (r: Result<(), RegionFault>)
        ensures
            r is Ok <==> self.is_sound(),
            r matches Err(fault) ==> self.own_fault() == Some(fault),
    {
        if self.physical_base % PAGE_SIZE != 0 || self.size % PAGE_SIZE != 0 {
            Err(RegionFault::Misaligned)
        } else if self.physical_base > ADDRESS_SPACE_SIZE || self.size > ADDRESS_SPACE_SIZE
            - self.physical_base {
            Err(RegionFault::OutOfRange)
        } else {
            Ok(())
        }
    }

    /// Whether the two regions share an address. Either region may be
    /// unsound; the test does not overflow.
    pub fn overlaps_with(&self, other: &MemoryRegion) -> (shared: bool)
        ensures
            shared == self.overlaps(*other),
    {
        if self.size == 0 || other.size == 0 {
            false
        } else if self.physical_base <= other.physical_base {
            other.physical_base - self.physical_base < self.size
        } else {
            self.physical_base - other.physical_base < other.size
        }
    }
}

/// Two regions overlap exactly when some address lies in both.
pub proof fn lemma_overlap_is_shared_address(a: MemoryRegion, b: MemoryRegion)
    ensures
        a.overlaps(b) <==> exists|address: int| #[trigger] a.contains(address) && b.contains(address),
        a.overlaps(b) == b.overlaps(a),
{
    if a.overlaps(b) {
        let witness: int = if a.physical_base <= b.physical_base {
            b.physical_base as int
        } else {
            a.physical_base as int
        };
        assert(a.contains(witness) && b.contains(witness));
    }
}

/// `earlier` is the first region before index `i` that overlaps region `i`.
pub open spec fn first_overlap(regions: Seq<MemoryRegion>, i: int, earlier: int) -> bool {
    &&& 0 <= earlier < i
    &&& regions[earlier].overlaps(regions[i])
    &&& forall|k: int| 0 <= k < earlier ==> !(#[trigger] regions[k]).overlaps(regions[i])
}

/// Region `i` is sound and overlaps no region before it.
pub open spec fn accepted_at(regions: Seq<MemoryRegion>, i: int) -> bool {
    &&& regions[i].is_sound()
    &&& forall|k: int| 0 <= k < i ==> !(#[trigger] regions[k]).overlaps(regions[i])
}

/// `fault` is the fault reported for region `i`: its own fault if it has one,
/// else its first overlap with an earlier region.
pub open spec fn fault_at(regions: Seq<MemoryRegion>, i: int, fault: RegionFault) -> bool {
    match regions[i].own_fault() {
        Some(own) => fault == own,
        None => fault matches RegionFault::Overlaps { earlier } && first_overlap(
            regions,
            i,
            earlier as int,
        ),
    }
}

/// Every region is sound and no two regions overlap.
pub open spec fn valid_table(regions: Seq<MemoryRegion>) -> bool {
    forall|i: int| 0 <= i < regions.len() ==> #[trigger] accepted_at(regions, i)
}

/// `error` names the first region of the table that is not accepted, with
/// the fault reported for it.
pub open spec fn first_fault(regions: Seq<MemoryRegion>, error: TableError) -> bool {
    &&& error.index < regions.len()
    &&& forall|k: int| 0 <= k < error.index ==> #[trigger] accepted_at(regions, k)
    &&& fault_at(regions, error.index as int, error.fault)
}

/// A valid table has no fault, and a table with a fault is not valid.
pub proof fn lemma_fault_excludes_validity(regions: Seq<MemoryRegion>, error: TableError)
    requires
        first_fault(regions, error),
    ensures
        !valid_table(regions),
        !accepted_at(regions, error.index as int),
{
    let i = error.index as int;
    if regions[i].own_fault() is None {
        let earlier = error.fault->earlier as int;
        assert(regions[earlier].overlaps(regions[i]));
    }
    assert(!accepted_at(regions, i));
}

/// The first fault of a table is unique.
pub proof fn lemma_first_fault_unique(regions: Seq<MemoryRegion>, a: TableError, b: TableError)
    requires
        first_fault(regions, a),
        first_fault(regions, b),
    ensures
        a == b,
{
    lemma_fault_excludes_validity(regions, a);
    lemma_fault_excludes_validity(regions, b);
    assert(a.index == b.index) by {
        if a.index < b.index {
            assert(accepted_at(regions, a.index as int));
        } else if b.index < a.index {
            assert(accepted_at(regions, b.index as int));
        }
    }
    let i = a.index as int;
    if regions[i].own_fault() is None {
        let ea = a.fault->earlier as int;
        let eb = b.fault->earlier as int;
        if ea < eb {
            assert(!regions[ea].overlaps(regions[i]));
        } else if eb < ea {
            assert(!regions[eb].overlaps(regions[i]));
        }
    }
}

/// Whether a table is valid does not depend on the order of its regions:
/// if `reordered` holds the regions of `regions` in the order that `order`
/// gives, each once, the one is valid if the other is. The order decides
/// only which region of a table that is not valid is reported.
pub proof fn lemma_validity_ignores_order(
    regions: Seq<MemoryRegion>,
    reordered: Seq<MemoryRegion>,
    order: Seq<int>,
)
    requires
        valid_table(regions),
        order.len() == reordered.len(),
        forall|i: int|
            0 <= i < reordered.len() ==> 0 <= #[trigger] order[i] < regions.len() && reordered[i]
                == regions[order[i]],
        forall|i: int, j: int|
            0 <= i < j < reordered.len() ==> #[trigger] order[i] != #[trigger] order[j],
    ensures
        valid_table(reordered),
{
    assert forall|i: int| 0 <= i < reordered.len() implies #[trigger] accepted_at(reordered, i) by {
        assert(accepted_at(regions, order[i]));
        assert forall|k: int| 0 <= k < i implies !(#[trigger] reordered[k]).overlaps(
            reordered[i],
        ) by {
            assert(accepted_at(regions, order[k]));
            lemma_overlap_is_shared_address(regions[order[k]], regions[order[i]]);
            if order[k] < order[i] {
                assert(!regions[order[k]].overlaps(regions[order[i]]));
            } else {
                assert(!regions[order[i]].overlaps(regions[order[k]]));
            }
        }
    }
}

/// Searches the regions before index `i` for the first that overlaps region `i`.
fn find_overlap(regions: &[MemoryRegion], i: usize) -> (found: Option<usize>)
    requires
        i < regions.len(),
    ensures
        match found {
            Some(earlier) => first_overlap(regions@, i as int, earlier as int),
            None => forall|k: int|
                0 <= k < i ==> !(#[trigger] regions@[k]).overlaps(regions@[i as int]),
        },
{
    let mut k: usize = 0;
    while k < i
        invariant
            k <= i < regions.len(),
            forall|j: int| 0 <= j < k ==> !(#[trigger] regions@[j]).overlaps(regions@[i as int]),
        decreases i - k,
    {
        if regions[k].overlaps_with(&regions[i]) {
            return Some(k);
        }
        k = k + 1;
    }
    None
}

/// Checks region `i` of the table, by itself first and then against the
/// regions before it.
pub fn check_at(regions: &[MemoryRegion], i: usize) -> (r: Result<(), RegionFault>)
    requires
        i < regions.len(),
    ensures
        r is Ok <==> accepted_at(regions@, i as int),
        r matches Err(fault) ==> fault_at(regions@, i as int, fault),
{
    match regions[i].check() {
        Err(fault) => {
            return Err(fault);
        },
        Ok(()) => {},
    }
    match find_overlap(regions, i) {
        Some(earlier) => {
            assert(regions@[earlier as int].overlaps(regions@[i as int]));
            Err(RegionFault::Overlaps { earlier })
        },
        None => Ok(()),
    }
}

/// Checks the region table. Regions are examined in table order, each by
/// itself first and then against the regions before it; the first region that
/// is not accepted is reported.
pub fn validate_regions(regions: &[MemoryRegion]) -> (r: Result<(), TableError>)
    ensures
        r is Ok <==> valid_table(regions@),
        r matches Err(error) ==> first_fault(regions@, error),
{
    let mut i: usize = 0;
    while i < regions.len()
        invariant
            i <= regions.len(),
            forall|k: int| 0 <= k < i ==> #[trigger] accepted_at(regions@, k),
        decreases regions.len() - i,
    {
        match check_at(regions, i) {
            Err(fault) => {
                let error = TableError { index: i, fault };
                proof {
                    lemma_fault_excludes_validity(regions@, error);
                }
                return Err(error);
            },
            Ok(()) => {},
        }
        i = i + 1;
    }
    Ok(())
}

} // verus!
