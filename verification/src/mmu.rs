//! Turning address translation on.
//!
//! A core turns translation on once, in two moves that cannot be taken back:
//! it loads the base of the identity mapping into its translation table base
//! register, and it then programs three system registers, in a fixed order.
//! The registers themselves are out of reach of this crate; it keeps the
//! state of the core, admits no move out of turn, and hands out the values
//! to write.

use vstd::prelude::*;
use crate::attributes::{attributes_for, lemma_region_attributes, PageAttributes};
use crate::idmap::MappingReport;
use crate::region::{MemoryKind, ADDRESS_SPACE_BITS};

verus! {

/// Value of the memory attribute indirection register: the memory type of
/// each of the eight attribute indices, one byte per index.
pub const MAIR_FLAG: u64 = 0xff_440c_0400;

/// Value of the translation control register: a 36-bit input address space
/// translated with 4 KiB granules.
pub const TCR_FLAG: u64 = 0x8081_351c;

/// Value of the system control register: translation and both caches on.
pub const SCTLR_FLAG: u64 = 0x30c5_1835;

/// Encoding of device memory without gathering, reordering or early
/// acknowledgement: strongly ordered.
pub const MEMORY_DEVICE: u64 = 0x00;

/// Encoding of normal memory, write-back cacheable, inner and outer.
pub const MEMORY_NORMAL_CACHEABLE: u64 = 0xff;

/// A system register of the hypervisor's exception level.
#[derive(Clone, Copy, Debug, PartialEq, Eq, Structural)]
pub enum SystemRegister {
    /// Memory attribute indirection register.
    Mair,
    /// Translation control register.
    Tcr,
    /// System control register.
    Sctlr,
}

/// One write of a system register.
#[derive(Clone, Copy, Debug, PartialEq, Eq, Structural)]
pub struct RegisterWrite {
    pub register: SystemRegister,
    pub value: u64,
}

/// The kind of memory a mapping is treated as.
#[derive(Clone, Copy, Debug, PartialEq, Eq, Structural)]
pub enum MemoryType {
    /// Strongly ordered device memory.
    Device,
    /// Normal cacheable memory.
    NormalCacheable,
    /// Anything else.
    Other,
}

/// The byte of `mair` that belongs to attribute index `index`.
pub open spec fn mair_byte(mair: u64, index: u64) -> u64 {
    (mair >> (index << 3)) & 0xff
}

/// The memory type that [`MAIR_FLAG`] gives to the attribute index of
/// `attributes`.
pub open spec fn memory_type_of(attributes: PageAttributes) -> MemoryType {
    let encoding = mair_byte(MAIR_FLAG, attributes.attribute_index());
    if encoding == MEMORY_DEVICE {
        MemoryType::Device
    } else if encoding == MEMORY_NORMAL_CACHEABLE {
        MemoryType::NormalCacheable
    } else {
        MemoryType::Other
    }
}

/// Number of input address bits that the translation control value `tcr`
/// selects.
pub open spec fn input_address_bits(tcr: u64) -> int {
    64 - (tcr & 0x3f)
}

/// The kind of memory a mapping with `attributes` is treated as, once the
/// attribute indirection register holds [`MAIR_FLAG`].
pub fn memory_type(attributes: PageAttributes) -> (kind: MemoryType)
    ensures
        kind == memory_type_of(attributes),
{
    let index: u64 = attributes.attribute_index();
    assert((index << 3) < 64) by (bit_vector)
        requires
            index <= 7,
    ;
    let encoding: u64 = (MAIR_FLAG >> (index << 3)) & 0xff;
    if encoding == MEMORY_DEVICE {
        MemoryType::Device
    } else if encoding == MEMORY_NORMAL_CACHEABLE {
        MemoryType::NormalCacheable
    } else {
        MemoryType::Other
    }
}

/// The attribute indices of the region attributes name the memory types the
/// regions are meant to have: RAM is normal cacheable memory, device
/// registers are strongly ordered device memory.
pub proof fn lemma_region_memory_types(kind: MemoryKind)
    ensures
        kind is Ram ==> memory_type_of(attributes_for(kind)) == MemoryType::NormalCacheable,
        kind is DeviceIo ==> memory_type_of(attributes_for(kind)) == MemoryType::Device,
{
    lemma_region_attributes(kind);
    assert(mair_byte(MAIR_FLAG, (0x711u64 >> 2) & 7) == 0xff) by (bit_vector);
    assert(mair_byte(MAIR_FLAG, (0x60_0000_0000_0401u64 >> 2) & 7) == 0x00) by (bit_vector);
}

/// What the control values select: an input address space of
/// [`ADDRESS_SPACE_BITS`] bits, 4 KiB granules, and translation, data cache
/// and instruction cache switched on.
pub proof fn lemma_control_values()
    ensures
        input_address_bits(TCR_FLAG) == ADDRESS_SPACE_BITS,
        (TCR_FLAG >> 14) & 0x3 == 0,
        SCTLR_FLAG & 0x1 == 0x1,
        SCTLR_FLAG & 0x4 == 0x4,
        SCTLR_FLAG & 0x1000 == 0x1000,
{
    assert(TCR_FLAG & 0x3f == 28 && (TCR_FLAG >> 14) & 0x3 == 0) by (bit_vector);
    assert(SCTLR_FLAG & 0x1 == 0x1 && SCTLR_FLAG & 0x4 == 0x4 && SCTLR_FLAG & 0x1000 == 0x1000)
        by (bit_vector);
}

/// How far a core has come in turning translation on.
#[derive(Clone, Copy, Debug, PartialEq, Eq, Structural)]
pub enum TranslationState {
    /// Translation is off and no table is loaded.
    Off,
    /// The table base is loaded; translation is still off.
    TableLoaded,
    /// Translation is on.
    On,
}

/// Why a table was not loaded.
#[derive(Clone, Copy, Debug, PartialEq, Eq, Structural)]
pub enum ActivationError {
    /// The core has loaded a table before.
    AlreadyLoaded,
}

/// The translation state of one core.
pub struct CoreTranslation {
    state: TranslationState,
}

impl View for CoreTranslation {
    type V = TranslationState;

    closed spec fn view(&self) -> TranslationState {
        self.state
    }
}

/// The three register writes that turn translation on, in the order in which
/// they have to be made: the memory types first, then the shape of the
/// address space, and the switch last, so that the first translated access
/// finds both in place.
pub open spec fn enable_sequence() -> Seq<RegisterWrite> {
    seq![
        RegisterWrite { register: SystemRegister::Mair, value: MAIR_FLAG },
        RegisterWrite { register: SystemRegister::Tcr, value: TCR_FLAG },
        RegisterWrite { register: SystemRegister::Sctlr, value: SCTLR_FLAG },
    ]
}

impl CoreTranslation {
    /// A core with translation off.
    pub fn new() -> (core: CoreTranslation)
        ensures
            core@ is Off,
    {
        CoreTranslation { state: TranslationState::Off }
    }

    /// The state of the core.
    pub fn state(&self) -> (state: TranslationState)
        ensures
            state == self@,
    {
        self.state
    }

    /// Records that the core loads the table base. The report of the build
    /// stands for the table: there is one only if the build has ended with
    /// every insertion answered and no RAM region missing. A core loads a
    /// table once; a second call is refused and changes nothing.
    #[allow(unused_variables)]
    pub fn load_table(&mut self, report: &MappingReport) -> (r: Result<(), ActivationError>)
        ensures
            old(self)@ is Off ==> r is Ok && final(self)@ is TableLoaded,
            !(old(self)@ is Off) ==> r == Err::<(), ActivationError>(
                ActivationError::AlreadyLoaded,
            ) && final(self)@ == old(self)@,
    {
        match self.state {
            TranslationState::Off => {
                self.state = TranslationState::TableLoaded;
                Ok(())
            },
            _ => Err(ActivationError::AlreadyLoaded),
        }
    }
}

/// Turns translation on for a core that has its table loaded: records the
/// move and returns the register writes to make, in order.
///
/// The move is made once and cannot be taken back. The call is for a core
/// in the state [`TranslationState::TableLoaded`] and for no other: neither
/// for a core without a table nor for one that has translation on already.
/// A caller that does not know the state asks [`CoreTranslation::state`]
/// first.
pub fn enable_mmu(core: &mut CoreTranslation) -> (program: [RegisterWrite; 3])
    requires
        old(core)@ is TableLoaded,
    ensures
        final(core)@ is On,
        program@ == enable_sequence(),
{
    core.state = TranslationState::On;
    let program: [RegisterWrite; 3] = [
        RegisterWrite { register: SystemRegister::Mair, value: MAIR_FLAG },
        RegisterWrite { register: SystemRegister::Tcr, value: TCR_FLAG },
        RegisterWrite { register: SystemRegister::Sctlr, value: SCTLR_FLAG },
    ];
    assert(program@ =~= enable_sequence());
    program
}

} // verus!
