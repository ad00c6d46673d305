//! Boot barrier primitives.
//!
//! Before any scheduler exists the cores synchronise through a few atomic
//! cells and busy-waiting, nothing else. This module holds those cells: the
//! four phase counters, each counting the cores that have crossed one
//! checkpoint, and the election slot that names the primary core.
//!
//! A wait here is a bounded burst of polls that reports whether the awaited
//! condition was seen. A caller that is told `false` has not passed the
//! checkpoint and has to wait again; there is no other way past it.
//!
//! What a cell holds at any moment depends on what the other cores do, so no
//! contract in this module speaks of it. What holds of the cells through the
//! boot is proved in [`crate::protocol`], of the machine as a whole.

use vstd::prelude::*;
use core::sync::atomic::{AtomicI32, AtomicU32, Ordering};

verus! {

/// Trusted: `core::hint::spin_loop`, the processor's hint that the caller is
/// busy-waiting. Nothing is claimed of it.
pub assume_specification[ core::hint::spin_loop ]();

/// Value of the election slot while no core has claimed it.
pub const UNCLAIMED: i32 = -1;

/// Largest number of cores the election slot can tell apart.
pub const MAX_CPUS: usize = 0x7fff_ffff;

/// Polls `condition` until it is seen to be false, at most `max_polls`
/// times, with a spin hint after each poll that found it true. Returns
/// whether it was seen to be false.
pub fn wait_for<F: Fn() -> bool>(condition: F, max_polls: u32) -> (released: bool)
    requires
        condition.requires(()),
    ensures
        released ==> max_polls > 0 && condition.ensures((), false),
        !released ==> max_polls == 0 || condition.ensures((), true),
{
    let mut polls_left: u32 = max_polls;
    let mut released: bool = false;
    while polls_left > 0 && !released
        invariant
            condition.requires(()),
            polls_left <= max_polls,
            released ==> max_polls > 0 && condition.ensures((), false),
            !released ==> polls_left == max_polls || condition.ensures((), true),
        decreases polls_left, (if released { 0int } else { 1int }),
    {
        if condition() {
            core::hint::spin_loop();
            polls_left = polls_left - 1;
        } else {
            released = true;
        }
    }
    released
}

/// Whether a counter that reads `observed` holds back a core that waits for
/// it to reach `max_value`.
#[verifier::allow_in_spec]
pub fn holds_back(observed: u32, max_value: u32) -> bool
    returns
        observed < max_value,
{
    observed < max_value
}

/// Polls `counter` until it is seen to have reached `max_value`, at most
/// `max_polls` times. Returns whether it was seen there. The counter is read
/// with acquire ordering, so that what the cores wrote before they raised it
/// is visible to the caller once this returns `true`.
pub fn wait_for_counter(counter: &AtomicU32, max_value: u32, max_polls: u32) -> (reached: bool)
    ensures
        max_polls == 0 ==> !reached,
        max_polls > 0 && max_value == 0 ==> reached,
{
    let below = || -> (pending: bool)
        ensures
            pending ==> max_value > 0,
        { holds_back(counter.load(Ordering::Acquire), max_value) };
    let released = wait_for(below, max_polls);
    released
}

/// The four checkpoint counters. Each starts at zero and only ever grows.
pub struct BootPhaseCounters {
    /// Cores that have reached the entry point.
    pub entered: AtomicU32,
    /// Raised to 1 by the primary core once early global setup is done.
    pub early_ok: AtomicU32,
    /// Raised to 1 by the primary core once late global setup is done.
    pub late_ok: AtomicU32,
    /// Cores that have finished their per-core setup.
    pub inited: AtomicU32,
}

/// The four counters as read at some moment.
#[derive(Clone, Copy, Debug, PartialEq, Eq, Structural)]
pub struct CounterSnapshot {
    pub entered: u32,
    pub early_ok: u32,
    pub late_ok: u32,
    pub inited: u32,
}

impl BootPhaseCounters {
    /// Four counters at zero.
    pub fn new() -> BootPhaseCounters {
        BootPhaseCounters {
            entered: AtomicU32::new(0),
            early_ok: AtomicU32::new(0),
            late_ok: AtomicU32::new(0),
            inited: AtomicU32::new(0),
        }
    }

    /// Counts the calling core as entered.
    pub(crate) fn count_entered(&self) {
        let _ = self.entered.fetch_add(1, Ordering::SeqCst);
    }

    /// Counts the calling core as initialised.
    pub(crate) fn count_inited(&self) {
        let _ = self.inited.fetch_add(1, Ordering::SeqCst);
    }

    /// Signals that early global setup is done. The store has release
    /// ordering: what the primary core wrote before is visible to every core
    /// that reads the signal.
    pub(crate) fn publish_early(&self) {
        self.early_ok.store(1, Ordering::Release);
    }

    /// Signals that late global setup is done, with release ordering.
    pub(crate) fn publish_late(&self) {
        self.late_ok.store(1, Ordering::Release);
    }

    /// Reads the four counters, each with acquire ordering.
    pub fn snapshot(&self) -> CounterSnapshot {
        CounterSnapshot {
            entered: self.entered.load(Ordering::Acquire),
            early_ok: self.early_ok.load(Ordering::Acquire),
            late_ok: self.late_ok.load(Ordering::Acquire),
            inited: self.inited.load(Ordering::Acquire),
        }
    }
}

/// The slot that names the primary core: unclaimed, or the identifier of the
/// one core whose claim succeeded.
pub struct MasterElection {
    pub slot: AtomicI32,
}

/// What a compare-and-set of the election slot from [`UNCLAIMED`] means for
/// the core that made it: it won if the exchange succeeded.
pub fn claim_succeeded(exchange: Result<i32, i32>) -> (won: bool)
    ensures
        won == exchange is Ok,
{
    exchange.is_ok()
}

impl MasterElection {
    /// An unclaimed slot.
    pub fn new() -> MasterElection {
        MasterElection { slot: AtomicI32::new(UNCLAIMED) }
    }

    /// Tries once to claim the slot for core `cpu`, by compare-and-set from
    /// [`UNCLAIMED`]. Returns whether the claim succeeded. A core whose claim
    /// failed is a secondary core and does not try again.
    pub fn try_claim(&self, cpu: i32) -> (won: bool)
        requires
            cpu != UNCLAIMED,
    {
        claim_succeeded(
            self.slot.compare_exchange(UNCLAIMED, cpu, Ordering::AcqRel, Ordering::Acquire),
        )
    }

    /// What [`holder_of`] makes of the slot, read with acquire ordering.
    pub fn holder(&self) -> (cpu: Option<i32>)
        ensures
            cpu != Some(UNCLAIMED),
    {
        holder_of(self.slot.load(Ordering::Acquire))
    }
}

/// Whom an election slot that reads `value` names: no core while it reads
/// [`UNCLAIMED`], else the core whose identifier it holds.
pub fn holder_of(value: i32) -> (cpu: Option<i32>)
    ensures
        cpu == (if value == UNCLAIMED {
            None
        } else {
            Some(value)
        }),
{
    if value == UNCLAIMED {
        None
    } else {
        Some(value)
    }
}

/// The phase of the boot of the whole machine. The machine passes through
/// the phases in this order and never back.
#[derive(Clone, Copy, Debug, PartialEq, Eq, Structural)]
pub enum BootPhase {
    /// No core has entered.
    BootStart,
    /// Some cores have entered, not all.
    CpusEntering,
    /// All cores have entered; early global setup is not done.
    EarlyInitPending,
    /// Early global setup is done; not all cores have finished their
    /// per-core setup.
    EarlyInitDone,
    /// All cores have finished their per-core setup; late global setup is
    /// not done.
    LateInitPending,
    /// Late global setup is done; not all cores run their zone yet.
    LateInitDone,
    /// Every core has been handed over to the zone runtime.
    Running,
}

impl BootPhase {
    /// Position of the phase in the order of the phases.
    pub open spec fn rank(self) -> int {
        match self {
            BootPhase::BootStart => 0,
            BootPhase::CpusEntering => 1,
            BootPhase::EarlyInitPending => 2,
            BootPhase::EarlyInitDone => 3,
            BootPhase::LateInitPending => 4,
            BootPhase::LateInitDone => 5,
            BootPhase::Running => 6,
        }
    }
}

impl CounterSnapshot {
    /// The phase of a machine of `max_cpus` cores whose counters read as
    /// this snapshot. `all_running` says whether every core has been handed
    /// over to the zone runtime, which no counter shows.
    #[verifier::allow_in_spec]
    pub fn phase(self, max_cpus: u32, all_running: bool) -> BootPhase
        returns
            (if self.entered == 0 {
                BootPhase::BootStart
            } else if self.entered < max_cpus {
                BootPhase::CpusEntering
            } else if self.early_ok == 0 {
                BootPhase::EarlyInitPending
            } else if self.inited < max_cpus {
                BootPhase::EarlyInitDone
            } else if self.late_ok == 0 {
                BootPhase::LateInitPending
            } else if !all_running {
                BootPhase::LateInitDone
            } else {
                BootPhase::Running
            }),
    {
        if self.entered == 0 {
            BootPhase::BootStart
        } else if self.entered < max_cpus {
            BootPhase::CpusEntering
        } else if self.early_ok == 0 {
            BootPhase::EarlyInitPending
        } else if self.inited < max_cpus {
            BootPhase::EarlyInitDone
        } else if self.late_ok == 0 {
            BootPhase::LateInitPending
        } else if !all_running {
            BootPhase::LateInitDone
        } else {
            BootPhase::Running
        }
    }
}

} // verus!
