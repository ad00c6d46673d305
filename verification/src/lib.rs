//! Bring-up core of a type-1 hypervisor for a multi-core ARM64 platform.
//!
//! The crate takes the cores of the machine from reset to a mapped,
//! translation-enabled and mutually synchronised state, up to the point where
//! each core is handed over to the zone runtime:
//!
//! - [`region`]: the table of physical memory windows and its validity rules.
//! - [`platform`]: the memory map of the target platform.
//! - [`attributes`]: the access attributes each kind of window is mapped with.
//! - [`idmap`]: the builder of the hypervisor's identity mapping.
//! - [`mmu`]: the one-way moves by which a core turns translation on.
//! - [`barrier`]: the atomic cells the cores synchronise through, and waiting.
//! - [`boot`]: the boot sequence of one core.
//! - [`protocol`]: the boot of the whole machine, and what holds of it.
//! - [`uart`]: the console transmitter.
//!
//! The crate decides and computes; it does not touch registers, and it calls
//! no hook of the platform. A step of [`boot::CoreBoot`] returns the action
//! that its caller has to carry out.

pub mod attributes;
pub mod barrier;
pub mod boot;
pub mod idmap;
pub mod mmu;
pub mod platform;
pub mod protocol;
pub mod region;
pub mod uart;
