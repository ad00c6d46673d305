//! Identity mapping builder.
//!
//! The hypervisor runs with virtual addresses equal to physical addresses.
//! Its translation table is an [`IdMap`]; this module fills one from a region
//! table and reads mappings back from it. The table itself is the work of the
//! `aarch64_paging` crate, which this module reaches through a handful of
//! trusted declarations, marked as such below. That crate keeps addresses
//! and flag bits in `usize` and builds for 64-bit targets only, so the
//! `u64` values of this crate pass to it unchanged.

use vstd::prelude::*;
use aarch64_paging::idmap::IdMap;
use aarch64_paging::MapError;
use crate::attributes::{
    attributes_for,
    lemma_region_attributes,
    PageAttributes,
    ATTR_TABLE_OR_PAGE,
    ATTR_VALID,
};
use crate::region::{
    accepted_at,
    check_at,
    first_fault,
    lemma_fault_excludes_validity,
    valid_table,
    MemoryKind,
    MemoryRegion,
    TableError,
    ADDRESS_SPACE_SIZE,
    PAGE_SIZE,
};

verus! {

/// Level of the root of the hypervisor's translation table.
pub const ROOT_LEVEL: usize = 1;

/// The descriptor bits that hold the output address rather than flags.
pub const OUTPUT_ADDRESS_MASK: u64 = 0x0000_ffff_ffff_f000;

/// Trusted: `aarch64_paging::idmap::IdMap`, an identity-mapping translation
/// table, taken as opaque.
#[verifier::external_type_specification]
#[verifier::external_body]
pub struct ExIdMap(IdMap);

/// Trusted: `aarch64_paging::MapError`, taken as opaque.
#[verifier::external_type_specification]
#[verifier::external_body]
pub struct ExMapError(MapError);

/// Trusted name for what an [`IdMap`] holds: the page-aligned addresses whose
/// block or page descriptor has the valid bit set, each with the flag bits of
/// that descriptor, leaving aside [`ATTR_TABLE_OR_PAGE`].
pub uninterp spec fn idmap_pages(table: IdMap) -> Map<u64, u64>;

/// Trusted name for how far an [`IdMap`] reaches: the size in bytes of the
/// address space that its root level covers, from address 0.
pub uninterp spec fn idmap_limit(table: IdMap) -> int;

/// Trusted name for whether an [`IdMap`] is marked as active on some core.
pub uninterp spec fn idmap_live(table: IdMap) -> bool;

/// The pages of `[start, end)`, each with the flag bits `bits`.
pub open spec fn page_run(start: u64, end: u64, bits: u64) -> Map<u64, u64> {
    Map::new(|page: u64| start <= page < end && page % PAGE_SIZE == 0, |page: u64| bits)
}

/// What the raw flag bits `raw` of the descriptor that covers `page` say of
/// `pages`: the page is valid exactly if the valid bit is set, and its flag
/// bits are then the raw ones without the page marker.
pub open spec fn descriptor_shows(raw: u64, pages: Map<u64, u64>, page: u64) -> bool {
    &&& raw & ATTR_VALID != 0 <==> pages.dom().contains(page)
    &&& raw & ATTR_VALID != 0 ==> pages[page] == raw & !ATTR_TABLE_OR_PAGE
}

/// Trusted wrapper of `IdMap::new` for the EL2 translation regime, which has
/// no address space identifier. Claims that the new table has no valid
/// translation, is not active, and with root level 1 covers 512 GiB.
/// `IdMap::new` panics on a root level above 3.
#[verifier::external_body]
fn idmap_new(rootlevel: usize) -> (table: IdMap)
    requires
        rootlevel <= 3,
    ensures
        idmap_pages(table) == (Map::<u64, u64>::empty()),
        rootlevel == 1 ==> idmap_limit(table) == 0x80_0000_0000,
        !idmap_live(table),
{
    IdMap::new(0, rootlevel, aarch64_paging::paging::TranslationRegime::El2)
}

/// Trusted wrapper of `IdMap::map_range`. Claims that on success every page of
/// `[start, end)` is valid with flag bits `bits` and no other page has
/// changed, and that on failure no page has changed; that the call changes
/// neither the reach of the table nor whether it is active; and that on a
/// table that is not active the call succeeds exactly if the table reaches
/// the end of the range, the range starts in the lower half of the address
/// space and the flag bits leave out [`ATTR_TABLE_OR_PAGE`].
#[verifier::external_body]
fn idmap_map_range(table: &mut IdMap, start: u64, end: u64, bits: u64) -> (r: Result<
    (),
    MapError,
>)
    requires
        start < end,
        start % PAGE_SIZE == 0,
        end % PAGE_SIZE == 0,
        bits & ATTR_VALID != 0,
        bits & OUTPUT_ADDRESS_MASK == 0,
    ensures
        r is Ok ==> idmap_pages(*final(table)) == idmap_pages(*old(table)).union_prefer_right(
            page_run(start, end, bits),
        ),
        r is Err ==> idmap_pages(*final(table)) == idmap_pages(*old(table)),
        idmap_limit(*final(table)) == idmap_limit(*old(table)),
        idmap_live(*final(table)) == idmap_live(*old(table)),
        !idmap_live(*old(table)) ==> (r is Ok <==> end <= idmap_limit(*old(table)) && bits
            & ATTR_TABLE_OR_PAGE == 0 && start < 0x8000_0000_0000_0000),
{
    let range = aarch64_paging::paging::MemoryRegion::new(start as usize, end as usize);
    table.map_range(&range, aarch64_paging::descriptor::Attributes::from_bits_retain(bits as usize))
}

/// No page of `[start, end)` is valid in `pages`.
pub open spec fn range_is_free(pages: Map<u64, u64>, start: u64, end: u64) -> bool {
    forall|page: u64|
        start <= page < end && page % PAGE_SIZE == 0 ==> !(#[trigger] pages.dom().contains(page))
}

/// Whether a descriptor with raw flag bits `raw` maps nothing: `Ok` if its
/// valid bit is clear, in the form in which a walk of the table takes the
/// answer of its callback.
pub fn descriptor_is_free(raw: u64) -> (r: Result<(), ()>)
    ensures
        r is Ok <==> raw & ATTR_VALID == 0,
{
    if raw & ATTR_VALID == 0 {
        Ok(())
    } else {
        Err(())
    }
}

/// Trusted wrapper of `IdMap::walk_range` over `[start, end)`. The walk
/// visits the descriptors that cover the range and stops at the first that
/// [`descriptor_is_free`] refuses. The wrapper hands back whether the walk
/// came through, and the page and raw flag bits of the descriptor it visited
/// last. Claims that no page of the range is valid if the walk came through;
/// that the walk came through exactly if the descriptor visited last is
/// free; that the descriptor visited last covers the page handed back, a
/// page of the range; and that the walk visits nothing exactly if the table
/// does not reach the end of the range, whose last page is then not valid.
#[verifier::external_body]
fn idmap_walk(table: &IdMap, start: u64, end: u64) -> (r: (bool, Option<(u64, u64)>))
    requires
        start < end <= ADDRESS_SPACE_SIZE,
        start % PAGE_SIZE == 0,
        end % PAGE_SIZE == 0,
    ensures
        r.0 ==> range_is_free(idmap_pages(*table), start, end),
        r.0 <==> (r.1 matches Some((_, raw)) && raw & ATTR_VALID == 0),
        r.1 is None <==> end > idmap_limit(*table),
        r.1 matches Some((page, raw)) ==> start <= page < end && page % PAGE_SIZE == 0
            && descriptor_shows(raw, idmap_pages(*table), page),
        r.1 is None ==> !idmap_pages(*table).dom().contains((end - PAGE_SIZE) as u64),
{
    let range = aarch64_paging::paging::MemoryRegion::new(start as usize, end as usize);
    let mut last: Option<(u64, u64)> = None;
    let walked = table.walk_range(
        &range,
        &mut |part, descriptor, _| {
            let raw = descriptor.flags().bits() as u64;
            last = Some((part.start().0 as u64, raw));
            descriptor_is_free(raw)
        },
    );
    (walked.is_ok(), last)
}

/// Creates the hypervisor's translation table: nothing mapped, not active,
/// and reaching beyond the input address space.
pub fn new_table() -> (table: IdMap)
    ensures
        idmap_pages(table) == (Map::<u64, u64>::empty()),
        idmap_limit(table) == 0x80_0000_0000,
        !idmap_live(table),
{
    idmap_new(ROOT_LEVEL)
}

/// What became of a region of a valid table.
#[derive(Clone, Copy, Debug, PartialEq, Eq, Structural)]
pub enum RegionOutcome {
    /// The region is mapped.
    Mapped,
    /// The table refused the region, and the region is left unmapped.
    Skipped,
}

/// Why no usable table was built.
#[derive(Clone, Copy, Debug, PartialEq, Eq, Structural)]
pub enum MappingError {
    /// The region at the index of the error is not accepted: it has a fault
    /// of its own or overlaps a region before it. The regions before it
    /// have been inserted.
    InvalidTable(TableError),
    /// The translation table holds a mapping in the region at `index`
    /// already, or does not reach the end of it. The regions before it have
    /// been inserted.
    Occupied { index: usize },
    /// The translation table refused the RAM region at `index`. The regions
    /// before it have been inserted.
    RamUnmapped { index: usize },
}

/// What is done once the translation table has answered for a region:
/// an inserted region is mapped, a refused device region is skipped, and a
/// refused RAM region (`None`) ends the build.
pub fn insertion_verdict(kind: MemoryKind, inserted: bool) -> (verdict: Option<RegionOutcome>)
    ensures
        verdict == (if inserted {
            Some(RegionOutcome::Mapped)
        } else if kind is DeviceIo {
            Some(RegionOutcome::Skipped)
        } else {
            None
        }),
{
    if inserted {
        Some(RegionOutcome::Mapped)
    } else {
        match kind {
            MemoryKind::DeviceIo => Some(RegionOutcome::Skipped),
            MemoryKind::Ram => None,
        }
    }
}

/// `page` is a page of `region`.
pub open spec fn covers_page(region: MemoryRegion, page: u64) -> bool {
    page % PAGE_SIZE == 0 && region.contains(page as int)
}

/// Region `i` is mapped and `page` is one of its pages.
pub open spec fn mapped_by(
    regions: Seq<MemoryRegion>,
    outcomes: Seq<RegionOutcome>,
    i: int,
    page: u64,
) -> bool {
    &&& 0 <= i < outcomes.len()
    &&& i < regions.len()
    &&& outcomes[i] is Mapped
    &&& covers_page(regions[i], page)
}

/// No mapped region has `page` among its pages.
pub open spec fn untouched(
    regions: Seq<MemoryRegion>,
    outcomes: Seq<RegionOutcome>,
    page: u64,
) -> bool {
    forall|i: int| !mapped_by(regions, outcomes, i, page)
}

/// `after` is `before` with the pages of every mapped region set to the
/// attributes of that region's kind, and nothing else changed.
pub open spec fn reflects(
    before: Map<u64, u64>,
    after: Map<u64, u64>,
    regions: Seq<MemoryRegion>,
    outcomes: Seq<RegionOutcome>,
) -> bool {
    &&& forall|i: int, page: u64| #[trigger]
        mapped_by(regions, outcomes, i, page) ==> after.contains_pair(
            page,
            attributes_for(regions[i].kind).bits,
        )
    &&& forall|page: u64| #[trigger]
        untouched(regions, outcomes, page) ==> {
            &&& after.dom().contains(page) == before.dom().contains(page)
            &&& before.dom().contains(page) ==> after[page] == before[page]
        }
}

/// No page of the first `count` regions is valid in `pages`.
pub open spec fn regions_are_free(
    pages: Map<u64, u64>,
    regions: Seq<MemoryRegion>,
    count: int,
) -> bool {
    forall|i: int, page: u64|
        0 <= i < count && #[trigger] covers_page(regions[i], page) ==> !pages.dom().contains(page)
}

/// The translation table holds a mapping in `region` already, or does not
/// reach the end of it.
pub open spec fn region_is_occupied(table: IdMap, region: MemoryRegion) -> bool {
    ||| region.end() > idmap_limit(table)
    ||| exists|page: u64| #[trigger]
        covers_page(region, page) && idmap_pages(table).dom().contains(page)
}

/// The build of `regions` into `table` has nothing in its way: the table is
/// not active and reaches over the input address space, the region table is
/// valid, and the table holds no mapping in any of the regions.
pub open spec fn ready_for(table: IdMap, regions: Seq<MemoryRegion>) -> bool {
    &&& !idmap_live(table)
    &&& idmap_limit(table) >= ADDRESS_SPACE_SIZE
    &&& valid_table(regions)
    &&& regions_are_free(idmap_pages(table), regions, regions.len() as int)
}

/// Every region is mapped.
pub open spec fn all_mapped(outcomes: Seq<RegionOutcome>) -> bool {
    forall|i: int| 0 <= i < outcomes.len() ==> (#[trigger] outcomes[i]) is Mapped
}

/// The first `count` regions have been inserted and `after` is the table
/// that results: there are outcomes for them that `after` reflects, with
/// only device regions skipped, and none skipped unless the table is `live`.
pub open spec fn built_up_to(
    before: Map<u64, u64>,
    after: Map<u64, u64>,
    regions: Seq<MemoryRegion>,
    count: int,
    live: bool,
) -> bool {
    exists|done: Seq<RegionOutcome>|
        {
            &&& done.len() == count
            &&& only_devices_skipped(regions, done)
            &&& !live ==> all_mapped(done)
            &&& #[trigger] reflects(before, after, regions, done)
        }
}

/// Outcomes are recorded for a prefix of the regions, and only device
/// regions are skipped.
pub open spec fn only_devices_skipped(
    regions: Seq<MemoryRegion>,
    outcomes: Seq<RegionOutcome>,
) -> bool {
    &&& outcomes.len() <= regions.len()
    &&& forall|i: int|
        0 <= i < outcomes.len() && #[trigger] outcomes[i] is Skipped ==> regions[i].kind is DeviceIo
}

/// The outcome of every region of a table whose build succeeded.
pub struct MappingReport {
    outcomes: Vec<RegionOutcome>,
}

impl View for MappingReport {
    type V = Seq<RegionOutcome>;

    closed spec fn view(&self) -> Seq<RegionOutcome> {
        self.outcomes@
    }
}

impl MappingReport {
    /// Number of regions reported on.
    pub fn len(&self) -> (n: usize)
        ensures
            n == self@.len(),
    {
        self.outcomes.len()
    }

    /// What became of region `index`; `None` beyond the end of the table.
    pub fn outcome(&self, index: usize) -> (r: Option<RegionOutcome>)
        ensures
            r == (if index < self@.len() {
                Some(self@[index as int])
            } else {
                None
            }),
    {
        if index < self.outcomes.len() {
            Some(self.outcomes[index])
        } else {
            None
        }
    }
}

/// Recording the outcome of the next region keeps the table and the record
/// in step: `now` is the table after the region was inserted or left out.
proof fn lemma_record_outcome(
    before: Map<u64, u64>,
    then: Map<u64, u64>,
    now: Map<u64, u64>,
    regions: Seq<MemoryRegion>,
    outcomes: Seq<RegionOutcome>,
    outcome: RegionOutcome,
)
    requires
        outcomes.len() < regions.len(),
        accepted_at(regions, outcomes.len() as int),
        reflects(before, then, regions, outcomes),
        outcome is Mapped ==> now == then.union_prefer_right(
            page_run(
                regions[outcomes.len() as int].physical_base,
                regions[outcomes.len() as int].end() as u64,
                attributes_for(regions[outcomes.len() as int].kind).bits,
            ),
        ),
        outcome is Skipped ==> now == then,
    ensures
        reflects(before, now, regions, outcomes.push(outcome)),
{
    let next = outcomes.len() as int;
    let region = regions[next];
    let extended = outcomes.push(outcome);
    assert forall|i: int, page: u64| #[trigger]
        mapped_by(regions, extended, i, page) implies now.contains_pair(
        page,
        attributes_for(regions[i].kind).bits,
    ) by {
        if i < next {
            assert(mapped_by(regions, outcomes, i, page));
            assert(!regions[i].overlaps(region));
            assert(!covers_page(region, page));
        }
    }
    assert forall|page: u64| #[trigger] untouched(regions, extended, page) implies {
        &&& now.dom().contains(page) == before.dom().contains(page)
        &&& before.dom().contains(page) ==> now[page] == before[page]
    } by {
        assert forall|i: int| !mapped_by(regions, outcomes, i, page) by {
            assert(!mapped_by(regions, extended, i, page));
        }
        assert(untouched(regions, outcomes, page));
        assert(!mapped_by(regions, extended, next, page));
    }
}

/// A page of the next region that no region before it has mapped is in the
/// table exactly if it was there before the build.
proof fn lemma_next_region_is_untouched(
    before: Map<u64, u64>,
    now: Map<u64, u64>,
    regions: Seq<MemoryRegion>,
    outcomes: Seq<RegionOutcome>,
    page: u64,
)
    requires
        outcomes.len() < regions.len(),
        accepted_at(regions, outcomes.len() as int),
        reflects(before, now, regions, outcomes),
        covers_page(regions[outcomes.len() as int], page),
    ensures
        now.dom().contains(page) == before.dom().contains(page),
{
    let next = outcomes.len() as int;
    assert forall|i: int| !mapped_by(regions, outcomes, i, page) by {
        if mapped_by(regions, outcomes, i, page) {
            assert(!regions[i].overlaps(regions[next]));
        }
    }
    assert(untouched(regions, outcomes, page));
}

/// Maps the regions of `regions` into `idmap`, each onto itself and with the
/// attributes of its kind.
///
/// The regions are taken in table order. Each is checked just before it is
/// inserted: it has to be accepted, by itself and against the regions before
/// it, and the translation table must hold no mapping in it yet. The first
/// region that fails a check ends the build; the regions before it stay
/// inserted. A device region that the translation table refuses to insert
/// is left unmapped and reported as skipped; a refused RAM region ends the
/// build.
///
/// A report is returned only when every insertion has been answered and no
/// RAM region is missing; without one the table must not be activated. On a
/// table with nothing in the way of the build, as a new table is for a valid
/// region table, a report is returned and every region is mapped.
pub fn pagetable_init(idmap: &mut IdMap, regions: &[MemoryRegion]) -> (r: Result<
    MappingReport,
    MappingError,
>)
    ensures
        ready_for(*old(idmap), regions@) ==> (r matches Ok(report) && all_mapped(report@)),
        idmap_limit(*final(idmap)) == idmap_limit(*old(idmap)),
        idmap_live(*final(idmap)) == idmap_live(*old(idmap)),
        match r {
            Ok(report) => {
                &&& valid_table(regions@)
                &&& regions_are_free(idmap_pages(*old(idmap)), regions@, regions@.len() as int)
                &&& report@.len() == regions@.len()
                &&& only_devices_skipped(regions@, report@)
                &&& !idmap_live(*old(idmap)) ==> all_mapped(report@)
                &&& reflects(
                    idmap_pages(*old(idmap)),
                    idmap_pages(*final(idmap)),
                    regions@,
                    report@,
                )
            },
            Err(MappingError::InvalidTable(error)) => {
                &&& first_fault(regions@, error)
                &&& regions_are_free(idmap_pages(*old(idmap)), regions@, error.index as int)
                &&& built_up_to(
                    idmap_pages(*old(idmap)),
                    idmap_pages(*final(idmap)),
                    regions@,
                    error.index as int,
                    idmap_live(*old(idmap)),
                )
            },
            Err(MappingError::Occupied { index }) => {
                &&& index < regions@.len()
                &&& forall|k: int| 0 <= k <= index ==> #[trigger] accepted_at(regions@, k)
                &&& regions_are_free(idmap_pages(*old(idmap)), regions@, index as int)
                &&& region_is_occupied(*old(idmap), regions@[index as int])
                &&& built_up_to(
                    idmap_pages(*old(idmap)),
                    idmap_pages(*final(idmap)),
                    regions@,
                    index as int,
                    idmap_live(*old(idmap)),
                )
            },
            Err(MappingError::RamUnmapped { index }) => {
                &&& index < regions@.len()
                &&& forall|k: int| 0 <= k <= index ==> #[trigger] accepted_at(regions@, k)
                &&& regions_are_free(idmap_pages(*old(idmap)), regions@, index + 1)
                &&& regions@[index as int].kind is Ram
                &&& idmap_live(*old(idmap))
                &&& built_up_to(
                    idmap_pages(*old(idmap)),
                    idmap_pages(*final(idmap)),
                    regions@,
                    index as int,
                    idmap_live(*old(idmap)),
                )
            },
        },
{
    let ghost before = idmap_pages(*idmap);
    let mut outcomes: Vec<RegionOutcome> = Vec::new();
    let mut i: usize = 0;
    while i < regions.len()
        invariant
            i <= regions.len(),
            outcomes@.len() == i,
            before == idmap_pages(*old(idmap)),
            idmap_limit(*idmap) == idmap_limit(*old(idmap)),
            idmap_live(*idmap) == idmap_live(*old(idmap)),
            forall|k: int| 0 <= k < i ==> #[trigger] accepted_at(regions@, k),
            regions_are_free(before, regions@, i as int),
            only_devices_skipped(regions@, outcomes@),
            !idmap_live(*old(idmap)) ==> all_mapped(outcomes@),
            reflects(before, idmap_pages(*idmap), regions@, outcomes@),
        decreases regions.len() - i,
    {
        let region = regions[i];
        match check_at(regions, i) {
            Err(fault) => {
                let error = TableError { index: i, fault };
                proof {
                    lemma_fault_excludes_validity(regions@, error);
                    assert(reflects(before, idmap_pages(*idmap), regions@, outcomes@));
                }
                return Err(MappingError::InvalidTable(error));
            },
            Ok(()) => {},
        }
        let attributes = attributes_for(region.kind);
        let end: u64 = region.physical_base + region.size;
        let ghost then = idmap_pages(*idmap);
        let inserted = if region.size == 0 {
            assert(then.union_prefer_right(page_run(region.physical_base, end, attributes.bits))
                =~= then);
            true
        } else {
            let (free, last) = idmap_walk(idmap, region.physical_base, end);
            proof {
                if last is Some {
                    let seen = last.unwrap();
                    lemma_next_region_is_untouched(before, then, regions@, outcomes@, seen.0);
                }
                assert forall|page: u64| #[trigger] covers_page(region, page) && free implies
                    !before.dom().contains(page) by {
                    lemma_next_region_is_untouched(before, then, regions@, outcomes@, page);
                }
            }
            if !free {
                proof {
                    if last is Some {
                        let seen = last.unwrap();
                        assert(covers_page(region, seen.0) && before.dom().contains(seen.0));
                    }
                    assert(region_is_occupied(*old(idmap), region));
                    assert(reflects(before, then, regions@, outcomes@));
                }
                return Err(MappingError::Occupied { index: i });
            }
            proof {
                lemma_region_attributes(region.kind);
                assert(0x711u64 & OUTPUT_ADDRESS_MASK == 0 && 0x60_0000_0000_0401u64
                    & OUTPUT_ADDRESS_MASK == 0) by (bit_vector);
            }
            idmap_map_range(idmap, region.physical_base, end, attributes.bits).is_ok()
        };
        match insertion_verdict(region.kind, inserted) {
            Some(outcome) => {
                proof {
                    lemma_record_outcome(
                        before,
                        then,
                        idmap_pages(*idmap),
                        regions@,
                        outcomes@,
                        outcome,
                    );
                }
                outcomes.push(outcome);
            },
            None => {
                assert(reflects(before, then, regions@, outcomes@));
                return Err(MappingError::RamUnmapped { index: i });
            },
        }
        i = i + 1;
    }
    Ok(MappingReport { outcomes })
}

/// The page that holds `address`.
pub open spec fn page_of(address: u64) -> u64 {
    (address - address % PAGE_SIZE) as u64
}

/// The attributes under which `pages` translates `address`, if it lies in
/// the input address space and its page is valid.
pub open spec fn lookup(pages: Map<u64, u64>, address: u64) -> Option<PageAttributes> {
    if address < ADDRESS_SPACE_SIZE && pages.dom().contains(page_of(address)) {
        Some(PageAttributes { bits: pages[page_of(address)] })
    } else {
        None
    }
}

/// Reads back the attributes under which the table translates `address`;
/// `None` where the address is not mapped or lies beyond the input address
/// space.
pub fn attributes_at(idmap: &IdMap, address: u64) -> (r: Option<PageAttributes>)
    ensures
        r == lookup(idmap_pages(*idmap), address),
{
    if address >= ADDRESS_SPACE_SIZE {
        return None;
    }
    let page: u64 = address - address % PAGE_SIZE;
    let next: u64 = page + PAGE_SIZE;
    match idmap_walk(idmap, page, next).1 {
        Some((_, raw)) => {
            if raw & ATTR_VALID != 0 {
                Some(PageAttributes { bits: raw & !ATTR_TABLE_OR_PAGE })
            } else {
                None
            }
        },
        None => None,
    }
}

/// Some mapped region of the table is `region`.
pub open spec fn maps_region(
    regions: Seq<MemoryRegion>,
    outcomes: Seq<RegionOutcome>,
    region: MemoryRegion,
) -> bool {
    exists|i: int|
        0 <= i < outcomes.len() && i < regions.len() && outcomes[i] is Mapped && #[trigger] regions[i]
            == region
}

/// Every address of a mapped region reads back with the attributes of the
/// region's kind.
pub proof fn lemma_mapped_region_is_visible(
    before: Map<u64, u64>,
    after: Map<u64, u64>,
    regions: Seq<MemoryRegion>,
    outcomes: Seq<RegionOutcome>,
    i: int,
    address: u64,
)
    requires
        reflects(before, after, regions, outcomes),
        0 <= i < outcomes.len(),
        i < regions.len(),
        outcomes[i] is Mapped,
        regions[i].is_sound(),
        regions[i].contains(address as int),
    ensures
        lookup(after, address) == Some(attributes_for(regions[i].kind)),
{
    assert(mapped_by(regions, outcomes, i, page_of(address)));
}

/// An address whose page belongs to no mapped region reads back as it did
/// before the build.
pub proof fn lemma_other_addresses_are_unchanged(
    before: Map<u64, u64>,
    after: Map<u64, u64>,
    regions: Seq<MemoryRegion>,
    outcomes: Seq<RegionOutcome>,
    address: u64,
)
    requires
        reflects(before, after, regions, outcomes),
        untouched(regions, outcomes, page_of(address)),
    ensures
        lookup(after, address) == lookup(before, address),
{
}

/// A build changes no mapping that was there before it: every page that was
/// valid is valid afterwards, with the attributes it had.
pub proof fn lemma_existing_mappings_are_kept(
    before: Map<u64, u64>,
    after: Map<u64, u64>,
    regions: Seq<MemoryRegion>,
    outcomes: Seq<RegionOutcome>,
    page: u64,
)
    requires
        reflects(before, after, regions, outcomes),
        regions_are_free(before, regions, regions.len() as int),
        before.dom().contains(page),
    ensures
        after.contains_pair(page, before[page]),
{
    assert forall|i: int| !mapped_by(regions, outcomes, i, page) by {
        if mapped_by(regions, outcomes, i, page) {
            assert(covers_page(regions[i], page));
        }
    }
    assert(untouched(regions, outcomes, page));
}

/// The table that results from a build is determined by the table before it,
/// the region table and the outcome of each insertion.
pub proof fn lemma_mapping_is_determined(
    before: Map<u64, u64>,
    first: Map<u64, u64>,
    second: Map<u64, u64>,
    regions: Seq<MemoryRegion>,
    outcomes: Seq<RegionOutcome>,
)
    requires
        reflects(before, first, regions, outcomes),
        reflects(before, second, regions, outcomes),
    ensures
        first == second,
{
    assert forall|page: u64|
        #![trigger first.dom().contains(page)]
        #![trigger second.dom().contains(page)]
        first.dom().contains(page) == second.dom().contains(page) && (first.dom().contains(page)
            ==> first[page] == second[page]) by {
        if untouched(regions, outcomes, page) {
        } else {
            let i = choose|i: int| mapped_by(regions, outcomes, i, page);
            assert(mapped_by(regions, outcomes, i, page));
        }
    }
    assert(first =~= second);
}

/// The table that results from a build does not depend on the order of the
/// region table: two region tables with the same mapped regions lead from
/// the same table to the same table.
pub proof fn lemma_mapping_ignores_order(
    before: Map<u64, u64>,
    after: Map<u64, u64>,
    regions: Seq<MemoryRegion>,
    outcomes: Seq<RegionOutcome>,
    reordered: Seq<MemoryRegion>,
    reordered_outcomes: Seq<RegionOutcome>,
)
    requires
        reflects(before, after, regions, outcomes),
        forall|region: MemoryRegion|
            maps_region(regions, outcomes, region) == maps_region(
                reordered,
                reordered_outcomes,
                region,
            ),
    ensures
        reflects(before, after, reordered, reordered_outcomes),
{
    assert forall|j: int, page: u64| #[trigger]
        mapped_by(reordered, reordered_outcomes, j, page) implies after.contains_pair(
        page,
        attributes_for(reordered[j].kind).bits,
    ) by {
        assert(maps_region(reordered, reordered_outcomes, reordered[j]));
        assert(maps_region(regions, outcomes, reordered[j]));
        let i = choose|i: int|
            0 <= i < outcomes.len() && i < regions.len() && outcomes[i] is Mapped
                && #[trigger] regions[i] == reordered[j];
        assert(mapped_by(regions, outcomes, i, page));
    }
    assert forall|page: u64| #[trigger]
        untouched(reordered, reordered_outcomes, page) implies {
        &&& after.dom().contains(page) == before.dom().contains(page)
        &&& before.dom().contains(page) ==> after[page] == before[page]
    } by {
        assert forall|i: int| !mapped_by(regions, outcomes, i, page) by {
            if mapped_by(regions, outcomes, i, page) {
                assert(maps_region(regions, outcomes, regions[i]));
                assert(maps_region(reordered, reordered_outcomes, regions[i]));
                let j = choose|j: int|
                    0 <= j < reordered_outcomes.len() && j < reordered.len()
                        && reordered_outcomes[j] is Mapped && #[trigger] reordered[j]
                        == regions[i];
                assert(mapped_by(reordered, reordered_outcomes, j, page));
            }
        }
        assert(untouched(regions, outcomes, page));
    }
}

/// Two builds of one region table end alike: if both start from the same
/// table and map every region, they leave the same table behind.
pub proof fn lemma_same_list_same_table(
    before: Map<u64, u64>,
    first: Map<u64, u64>,
    second: Map<u64, u64>,
    regions: Seq<MemoryRegion>,
    first_outcomes: Seq<RegionOutcome>,
    second_outcomes: Seq<RegionOutcome>,
)
    requires
        reflects(before, first, regions, first_outcomes),
        reflects(before, second, regions, second_outcomes),
        first_outcomes.len() == regions.len(),
        second_outcomes.len() == regions.len(),
        all_mapped(first_outcomes),
        all_mapped(second_outcomes),
    ensures
        first_outcomes == second_outcomes,
        first == second,
{
    assert(first_outcomes =~= second_outcomes);
    lemma_mapping_is_determined(before, first, second, regions, first_outcomes);
}

/// The order of the region table does not change the table that a build
/// leaves behind: if `reordered` holds the regions of `regions` in the order
/// that `order` gives, every one of them, and both builds start from the
/// same table and map every region, they leave the same table behind.
pub proof fn lemma_reordered_list_same_table(
    before: Map<u64, u64>,
    first: Map<u64, u64>,
    second: Map<u64, u64>,
    regions: Seq<MemoryRegion>,
    first_outcomes: Seq<RegionOutcome>,
    reordered: Seq<MemoryRegion>,
    second_outcomes: Seq<RegionOutcome>,
    order: Seq<int>,
)
    requires
        reflects(before, first, regions, first_outcomes),
        reflects(before, second, reordered, second_outcomes),
        first_outcomes.len() == regions.len(),
        second_outcomes.len() == reordered.len(),
        all_mapped(first_outcomes),
        all_mapped(second_outcomes),
        order.len() == reordered.len(),
        forall|j: int|
            0 <= j < reordered.len() ==> 0 <= #[trigger] order[j] < regions.len() && reordered[j]
                == regions[order[j]],
        forall|i: int|
            #![trigger regions[i]]
            0 <= i < regions.len() ==> exists|j: int|
                0 <= j < order.len() && #[trigger] order[j] == i,
    ensures
        first == second,
{
    assert forall|region: MemoryRegion|
        maps_region(regions, first_outcomes, region) == maps_region(
            reordered,
            second_outcomes,
            region,
        ) by {
        if maps_region(regions, first_outcomes, region) {
            let i = choose|i: int|
                0 <= i < first_outcomes.len() && i < regions.len() && first_outcomes[i] is Mapped
                    && #[trigger] regions[i] == region;
            assert(regions[i] == region);
            let j = choose|j: int| 0 <= j < order.len() && #[trigger] order[j] == i;
            assert(second_outcomes[j] is Mapped);
            assert(reordered[j] == region);
        }
        if maps_region(reordered, second_outcomes, region) {
            let j = choose|j: int|
                0 <= j < second_outcomes.len() && j < reordered.len() && second_outcomes[j]
                    is Mapped && #[trigger] reordered[j] == region;
            assert(first_outcomes[order[j]] is Mapped);
            assert(regions[order[j]] == region);
        }
    }
    lemma_mapping_ignores_order(
        before,
        first,
        regions,
        first_outcomes,
        reordered,
        second_outcomes,
    );
    lemma_mapping_is_determined(before, first, second, reordered, second_outcomes);
}

} // verus!
