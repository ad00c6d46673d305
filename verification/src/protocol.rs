//! The boot protocol of the whole machine.
//!
//! The cores of a machine step through [`crate::boot`] in any order, each
//! step performing at most one operation on the shared cells. This module
//! describes the machine as a whole, with the counters as plain numbers and
//! the steps of the cores interleaved at will, and proves what holds of every
//! state the machine can reach: the barriers hold, one core at most is
//! primary, and no counter passes the number of cores.
//!
//! The cores of the machine decide as the cores of [`crate::boot`] do, by
//! [`CoreState::next`]; the cells answer as sequentially consistent atomic
//! cells do, each operation on them taking effect at once and as a whole.

use vstd::prelude::*;
use crate::barrier::{BootPhase, CounterSnapshot, MAX_CPUS};
use crate::boot::{lemma_step_moves_forward, Action, CoreState, Outcome, Role, SharedOp, Stage};

verus! {

/// The state of the machine: the shared cells and every core.
pub struct Machine {
    pub entered: nat,
    pub early_ok: nat,
    pub late_ok: nat,
    pub inited: nat,
    /// The election slot: the core that holds it, if any.
    pub holder: Option<usize>,
    /// The cores, core `i` at index `i`.
    pub cores: Seq<CoreState>,
}

/// One step of an execution: the core that steps, and how the action it was
/// asked for has ended.
pub struct Turn {
    pub cpu: int,
    pub last: Outcome,
}

/// Number of cores whose stage has rank `rank` or more.
pub open spec fn count_reached(cores: Seq<CoreState>, rank: int) -> nat
    decreases cores.len(),
{
    if cores.len() == 0 {
        0
    } else {
        count_reached(cores.drop_last(), rank) + (if cores.last().stage.rank() >= rank {
            1nat
        } else {
            0nat
        })
    }
}

impl Machine {
    /// A machine of `max_cpus` cores at reset.
    pub open spec fn reset(max_cpus: usize) -> Machine {
        Machine {
            entered: 0,
            early_ok: 0,
            late_ok: 0,
            inited: 0,
            holder: None,
            cores: Seq::new(max_cpus as nat, |i: int| CoreState::reset(i as usize, max_cpus)),
        }
    }

    /// What the shared operation of core `cpu`'s next step shows it: at the
    /// election, that the slot is unclaimed; at a checkpoint, that the
    /// awaited value is there.
    pub open spec fn shows(self, cpu: int, last: Outcome) -> bool {
        match self.cores[cpu].shared_op(last) {
            SharedOp::ClaimPrimary => self.holder is None,
            SharedOp::PollEntered => self.entered >= self.cores.len(),
            SharedOp::PollEarly => self.early_ok >= 1,
            SharedOp::PollInited => self.inited >= self.cores.len(),
            SharedOp::PollLate => self.late_ok >= 1,
            _ => false,
        }
    }

    /// The machine after core `cpu` has made its next step: the shared
    /// operation of the step is applied to the cells, and the core moves on
    /// by what the operation has shown.
    pub open spec fn step(self, cpu: int, last: Outcome) -> Machine {
        let core = self.cores[cpu];
        let op = core.shared_op(last);
        Machine {
            entered: if op is CountEntered {
                self.entered + 1
            } else {
                self.entered
            },
            early_ok: if op is PublishEarly {
                1
            } else {
                self.early_ok
            },
            late_ok: if op is PublishLate {
                1
            } else {
                self.late_ok
            },
            inited: if op is CountInited {
                self.inited + 1
            } else {
                self.inited
            },
            holder: if op is ClaimPrimary && self.holder is None {
                Some(core.cpu_id)
            } else {
                self.holder
            },
            cores: self.cores.update(cpu, core.next(last, self.shows(cpu, last)).0),
        }
    }

    /// The machine after the turns of `schedule`, first to last. A turn of a
    /// core the machine does not have changes nothing.
    pub open spec fn run(self, schedule: Seq<Turn>) -> Machine
        decreases schedule.len(),
    {
        if schedule.len() == 0 {
            self
        } else {
            let before = self.run(schedule.drop_last());
            let turn = schedule.last();
            if 0 <= turn.cpu < before.cores.len() {
                before.step(turn.cpu, turn.last)
            } else {
                before
            }
        }
    }

    /// Whether every core has been handed over to the zone runtime.
    pub open spec fn all_running(self) -> bool {
        forall|cpu: int| 0 <= cpu < self.cores.len() ==> (#[trigger] self.cores[cpu]).stage is Running
    }

    /// The counters as a core would read them.
    pub open spec fn snapshot(self) -> CounterSnapshot {
        CounterSnapshot {
            entered: self.entered as u32,
            early_ok: self.early_ok as u32,
            late_ok: self.late_ok as u32,
            inited: self.inited as u32,
        }
    }

    /// The phase of the boot of the machine.
    pub open spec fn phase(self) -> BootPhase {
        self.snapshot().phase(self.cores.len() as u32, self.all_running())
    }

    /// The next step of core `cpu` takes it to a further stage.
    pub open spec fn can_move(self, cpu: int) -> bool {
        self.step(cpu, Outcome::Completed).cores[cpu].stage.rank() > self.cores[cpu].stage.rank()
    }

    /// What core `cpu` and the shared cells have to do with each other.
    pub open spec fn core_in_step(self, cpu: int) -> bool {
        let core = self.cores[cpu];
        let n = self.cores.len();
        &&& core.well_formed()
        &&& core.cpu_id == cpu
        &&& core.max_cpus == n
        &&& core.role == Some(Role::Primary) <==> self.holder == Some(core.cpu_id)
        &&& core.role is Some ==> self.holder is Some
        &&& core.stage.rank() >= 4 ==> self.entered == n
        &&& core.stage.rank() >= 7 ==> self.inited == n
        &&& core.role == Some(Role::Secondary) && core.stage.rank() >= 5 ==> self.early_ok == 1
        &&& core.role == Some(Role::Secondary) && core.stage.rank() >= 8 ==> self.late_ok == 1
        &&& core.role == Some(Role::Primary) ==> (self.early_ok == 1 <==> core.stage.rank() >= 5)
        &&& core.role == Some(Role::Primary) ==> (self.late_ok == 1 <==> core.stage.rank() >= 8)
    }

    /// What holds of every state the machine can reach.
    pub open spec fn sound(self) -> bool {
        &&& self.cores.len() <= MAX_CPUS
        &&& forall|cpu: int| 0 <= cpu < self.cores.len() ==> #[trigger] self.core_in_step(cpu)
        &&& self.entered == count_reached(self.cores, 3)
        &&& self.inited == count_reached(self.cores, 6)
        &&& self.early_ok <= 1
        &&& self.late_ok <= 1
        &&& self.holder matches Some(cpu) ==> cpu < self.cores.len()
        &&& self.holder is None ==> self.early_ok == 0 && self.late_ok == 0
    }
}

/// No more cores have reached a rank than there are cores, and all of them
/// have reached it exactly when the count says so.
pub proof fn lemma_count_reached_bounds(cores: Seq<CoreState>, rank: int)
    ensures
        count_reached(cores, rank) <= cores.len(),
        count_reached(cores, rank) == cores.len() <==> forall|i: int|
            0 <= i < cores.len() ==> (#[trigger] cores[i]).stage.rank() >= rank,
        count_reached(cores, rank) == 0 <==> forall|i: int|
            0 <= i < cores.len() ==> (#[trigger] cores[i]).stage.rank() < rank,
    decreases cores.len(),
{
    if cores.len() > 0 {
        let front = cores.drop_last();
        lemma_count_reached_bounds(front, rank);
        assert forall|i: int| 0 <= i < front.len() implies front[i] == cores[i] by {}
        if count_reached(cores, rank) == cores.len() {
            assert forall|i: int| 0 <= i < cores.len() implies (#[trigger] cores[i]).stage.rank()
                >= rank by {
                if i < front.len() {
                    assert(front[i].stage.rank() >= rank);
                }
            }
        }
        if forall|i: int| 0 <= i < cores.len() ==> (#[trigger] cores[i]).stage.rank() >= rank {
            assert forall|i: int| 0 <= i < front.len() implies (#[trigger] front[i]).stage.rank()
                >= rank by {
                assert(cores[i].stage.rank() >= rank);
            }
            assert(cores[cores.len() - 1].stage.rank() >= rank);
        }
        if count_reached(cores, rank) == 0 {
            assert forall|i: int| 0 <= i < cores.len() implies (#[trigger] cores[i]).stage.rank()
                < rank by {
                if i < front.len() {
                    assert(front[i].stage.rank() < rank);
                }
            }
        }
        if forall|i: int| 0 <= i < cores.len() ==> (#[trigger] cores[i]).stage.rank() < rank {
            assert forall|i: int| 0 <= i < front.len() implies (#[trigger] front[i]).stage.rank()
                < rank by {
                assert(cores[i].stage.rank() < rank);
            }
            assert(cores[cores.len() - 1].stage.rank() < rank);
        }
    }
}

/// A core that changes changes the count by what it alone contributes.
pub proof fn lemma_count_reached_update(cores: Seq<CoreState>, cpu: int, core: CoreState, rank: int)
    requires
        0 <= cpu < cores.len(),
    ensures
        count_reached(cores.update(cpu, core), rank) + (if cores[cpu].stage.rank() >= rank {
            1nat
        } else {
            0nat
        }) == count_reached(cores, rank) + (if core.stage.rank() >= rank {
            1nat
        } else {
            0nat
        }),
    decreases cores.len(),
{
    let updated = cores.update(cpu, core);
    if cpu == cores.len() - 1 {
        assert(updated.drop_last() =~= cores.drop_last());
    } else {
        assert(updated.drop_last() =~= cores.drop_last().update(cpu, core));
        lemma_count_reached_update(cores.drop_last(), cpu, core, rank);
    }
}

/// A machine at reset is sound.
pub proof fn lemma_reset_is_sound(max_cpus: usize)
    requires
        max_cpus <= MAX_CPUS,
    ensures
        Machine::reset(max_cpus).sound(),
        Machine::reset(max_cpus).cores.len() == max_cpus,
{
    let machine = Machine::reset(max_cpus);
    lemma_count_reached_bounds(machine.cores, 3);
    lemma_count_reached_bounds(machine.cores, 6);
    assert forall|cpu: int| 0 <= cpu < machine.cores.len() implies #[trigger] machine.core_in_step(
        cpu,
    ) by {}
}

/// A step of any core, after any outcome, keeps the machine sound.
pub proof fn lemma_step_keeps_sound(machine: Machine, cpu: int, last: Outcome)
    requires
        machine.sound(),
        0 <= cpu < machine.cores.len(),
    ensures
        machine.step(cpu, last).sound(),
        machine.step(cpu, last).cores.len() == machine.cores.len(),
{
    let after = machine.step(cpu, last);
    let core = machine.cores[cpu];
    let moved = core.next(last, machine.shows(cpu, last)).0;
    let n = machine.cores.len();
    assert(machine.core_in_step(cpu));
    lemma_step_moves_forward(core, last, machine.shows(cpu, last));
    lemma_count_reached_update(machine.cores, cpu, moved, 3);
    lemma_count_reached_update(machine.cores, cpu, moved, 6);
    lemma_count_reached_bounds(machine.cores, 3);
    lemma_count_reached_bounds(machine.cores, 6);
    assert forall|other: int| 0 <= other < n implies #[trigger] after.core_in_step(other) by {
        assert(machine.core_in_step(other));
        if machine.holder is Some {
            assert(machine.core_in_step(machine.holder->0 as int));
        }
        if other != cpu {
            assert(after.cores[other] == machine.cores[other]);
        }
    }
}

/// Every state the machine reaches from a sound state is sound.
pub proof fn lemma_run_keeps_sound(machine: Machine, schedule: Seq<Turn>)
    requires
        machine.sound(),
    ensures
        machine.run(schedule).sound(),
        machine.run(schedule).cores.len() == machine.cores.len(),
    decreases schedule.len(),
{
    if schedule.len() > 0 {
        lemma_run_keeps_sound(machine, schedule.drop_last());
        let before = machine.run(schedule.drop_last());
        let turn = schedule.last();
        if 0 <= turn.cpu < before.cores.len() {
            lemma_step_keeps_sound(before, turn.cpu, turn.last);
        }
    }
}

/// Every state that a machine of `max_cpus` cores reaches from reset, by
/// whatever schedule, is sound.
pub proof fn lemma_reachable_is_sound(max_cpus: usize, schedule: Seq<Turn>)
    requires
        max_cpus <= MAX_CPUS,
    ensures
        Machine::reset(max_cpus).run(schedule).sound(),
        Machine::reset(max_cpus).run(schedule).cores.len() == max_cpus,
{
    lemma_reset_is_sound(max_cpus);
    lemma_run_keeps_sound(Machine::reset(max_cpus), schedule);
}

/// No counter is ever lowered, and the election slot once claimed keeps its
/// holder.
pub proof fn lemma_cells_never_fall(machine: Machine, cpu: int, last: Outcome)
    requires
        machine.sound(),
        0 <= cpu < machine.cores.len(),
    ensures
        machine.step(cpu, last).entered >= machine.entered,
        machine.step(cpu, last).early_ok >= machine.early_ok,
        machine.step(cpu, last).late_ok >= machine.late_ok,
        machine.step(cpu, last).inited >= machine.inited,
        machine.holder is Some ==> machine.step(cpu, last).holder == machine.holder,
{
}

/// Each core is counted once: `entered` and `inited` are the numbers of
/// cores that have passed the respective increment, so neither ever exceeds
/// the number of cores; and once every core runs its zone, both equal it.
pub proof fn lemma_each_core_counted_once(machine: Machine)
    requires
        machine.sound(),
    ensures
        machine.entered == count_reached(machine.cores, 3),
        machine.inited == count_reached(machine.cores, 6),
        machine.entered <= machine.cores.len(),
        machine.inited <= machine.cores.len(),
        machine.all_running() ==> machine.entered == machine.cores.len() && machine.inited
            == machine.cores.len(),
        machine.all_running() && machine.cores.len() > 0 ==> machine.early_ok == 1
            && machine.late_ok == 1,
{
    lemma_count_reached_bounds(machine.cores, 3);
    lemma_count_reached_bounds(machine.cores, 6);
    if machine.all_running() {
        assert forall|cpu: int| 0 <= cpu < machine.cores.len() implies (
        #[trigger] machine.cores[cpu]).stage.rank() >= 6 by {}
        assert forall|cpu: int| 0 <= cpu < machine.cores.len() implies (
        #[trigger] machine.cores[cpu]).stage.rank() >= 3 by {}
        if machine.cores.len() > 0 {
            assert(machine.core_in_step(0));
            assert(machine.core_in_step(machine.holder->0 as int));
        }
    }
}

/// At most one core is primary: the holder of the election slot, and no
/// other. Every other core that has held its election is secondary.
pub proof fn lemma_one_primary(machine: Machine, cpu: int)
    requires
        machine.sound(),
        0 <= cpu < machine.cores.len(),
    ensures
        machine.cores[cpu].role == Some(Role::Primary) <==> machine.holder == Some(cpu as usize),
        machine.cores[cpu].role is Some ==> machine.holder is Some
            && machine.cores[machine.holder->0 as int].role == Some(Role::Primary),
        forall|other: int|
            0 <= other < machine.cores.len() && machine.cores[cpu].role == Some(Role::Primary) && (
            #[trigger] machine.cores[other]).role == Some(Role::Primary) ==> other == cpu,
{
    assert(machine.core_in_step(cpu));
    if machine.holder is Some {
        assert(machine.core_in_step(machine.holder->0 as int));
    }
    assert forall|other: int|
        0 <= other < machine.cores.len() && machine.cores[cpu].role == Some(Role::Primary) && (
        #[trigger] machine.cores[other]).role == Some(Role::Primary) implies other == cpu by {
        assert(machine.core_in_step(other));
    }
}

/// A core that holds its election after the slot has been claimed finds it
/// claimed, becomes secondary and leaves the slot to its holder.
pub proof fn lemma_late_claim_loses(machine: Machine, cpu: int)
    requires
        machine.sound(),
        0 <= cpu < machine.cores.len(),
        machine.holder is Some,
        machine.cores[cpu].stage is Electing,
        !machine.cores[cpu].halted,
    ensures
        !machine.shows(cpu, Outcome::Completed),
        machine.step(cpu, Outcome::Completed).cores[cpu].role == Some(Role::Secondary),
        machine.step(cpu, Outcome::Completed).holder == machine.holder,
{
}

/// The barriers hold: a core that is past the first checkpoint finds every
/// core entered, and a core that is past the second finds every core through
/// its per-core setup.
pub proof fn lemma_barriers_hold(machine: Machine, cpu: int, other: int)
    requires
        machine.sound(),
        0 <= cpu < machine.cores.len(),
        0 <= other < machine.cores.len(),
    ensures
        machine.cores[cpu].stage.rank() >= 4 ==> machine.cores[other].stage.rank() >= 3,
        machine.cores[cpu].stage.rank() >= 7 ==> machine.cores[other].stage.rank() >= 6,
{
    assert(machine.core_in_step(cpu));
    lemma_count_reached_bounds(machine.cores, 3);
    lemma_count_reached_bounds(machine.cores, 6);
}

/// An open checkpoint lets a waiting core through at its next step: once
/// every core has entered, or has finished its per-core setup, or once the
/// primary core has published the end of a global setup, the core that waits
/// for it moves on.
pub proof fn lemma_open_checkpoint_lets_through(machine: Machine, cpu: int)
    requires
        machine.sound(),
        0 <= cpu < machine.cores.len(),
        !machine.cores[cpu].halted,
    ensures
        machine.cores[cpu].stage is AwaitingEntered && machine.entered == machine.cores.len()
            ==> machine.step(cpu, Outcome::Completed).cores[cpu].stage.rank() == 4,
        machine.cores[cpu].stage is AwaitingEarly && machine.early_ok == 1 ==> machine.step(
            cpu,
            Outcome::Completed,
        ).cores[cpu].stage is PerCpuInit,
        machine.cores[cpu].stage is AwaitingInited && machine.inited == machine.cores.len()
            ==> machine.step(cpu, Outcome::Completed).cores[cpu].stage.rank() == 7,
        machine.cores[cpu].stage is AwaitingLate && machine.late_ok == 1 ==> machine.step(
            cpu,
            Outcome::Completed,
        ).cores[cpu].stage is Running,
{
}

/// A secondary core does not get past its wait for the early global setup
/// while `early_ok` is 0: it stands at that wait or before it, and a step at
/// the wait leaves it there and asks for nothing but a spin. The action that
/// lets a secondary core touch the identity mapping is asked for only once
/// `early_ok` is 1.
pub proof fn lemma_secondary_waits_for_early_setup(machine: Machine, cpu: int)
    requires
        machine.sound(),
        0 <= cpu < machine.cores.len(),
        machine.cores[cpu].role == Some(Role::Secondary),
        machine.early_ok == 0,
    ensures
        machine.cores[cpu].stage.rank() <= 4,
        !(machine.cores[cpu].next(Outcome::Completed, machine.shows(cpu, Outcome::Completed)).1
            is PerCpuInit),
        machine.cores[cpu].stage is AwaitingEarly && !machine.cores[cpu].halted
            ==> machine.cores[cpu].next(Outcome::Completed, machine.shows(cpu, Outcome::Completed))
            == (machine.cores[cpu], Action::Spin),
{
    assert(machine.core_in_step(cpu));
}

/// The phase of the boot never goes back.
pub proof fn lemma_phase_never_goes_back(machine: Machine, cpu: int, last: Outcome)
    requires
        machine.sound(),
        0 <= cpu < machine.cores.len(),
    ensures
        machine.step(cpu, last).phase().rank() >= machine.phase().rank(),
{
    let after = machine.step(cpu, last);
    lemma_step_keeps_sound(machine, cpu, last);
    lemma_each_core_counted_once(machine);
    lemma_each_core_counted_once(after);
    assert(machine.core_in_step(cpu));
    assert(after.core_in_step(cpu));
    lemma_step_moves_forward(machine.cores[cpu], last, machine.shows(cpu, last));
    if machine.all_running() {
        assert forall|other: int| 0 <= other < after.cores.len() implies (
        #[trigger] after.cores[other]).stage is Running by {
            assert(machine.cores[other].stage is Running);
        }
    }
}

/// The boot does not get stuck: as long as no core has halted and not every
/// core runs its zone, some core can move on. A core that finds its
/// checkpoint closed is never the only one left to move.
pub proof fn lemma_some_core_can_move(machine: Machine)
    requires
        machine.sound(),
        forall|cpu: int| 0 <= cpu < machine.cores.len() ==> !(#[trigger] machine.cores[cpu]).halted,
        !machine.all_running(),
    ensures
        exists|cpu: int| 0 <= cpu < machine.cores.len() && #[trigger] machine.can_move(cpu),
{
    let n = machine.cores.len() as int;
    let cores = machine.cores;
    let waits = |cpu: int|
        cores[cpu].stage is AwaitingEntered || cores[cpu].stage is AwaitingEarly
            || cores[cpu].stage is AwaitingInited || cores[cpu].stage is AwaitingLate;
    lemma_count_reached_bounds(cores, 3);
    lemma_count_reached_bounds(cores, 6);
    if exists|cpu: int| 0 <= cpu < n && !waits(cpu) && !(cores[cpu].stage is Running) {
        let cpu = choose|cpu: int| 0 <= cpu < n && !waits(cpu) && !(cores[cpu].stage is Running);
        assert(machine.can_move(cpu));
    } else if exists|cpu: int| 0 <= cpu < n && cores[cpu].stage is AwaitingEntered {
        let cpu = choose|cpu: int| 0 <= cpu < n && cores[cpu].stage is AwaitingEntered;
        assert forall|other: int| 0 <= other < n implies (#[trigger] cores[other]).stage.rank()
            >= 3 by {
            assert(waits(other) || cores[other].stage is Running);
        }
        assert(machine.can_move(cpu));
    } else if exists|cpu: int| 0 <= cpu < n && cores[cpu].stage is AwaitingEarly {
        let cpu = choose|cpu: int| 0 <= cpu < n && cores[cpu].stage is AwaitingEarly;
        assert(machine.core_in_step(cpu));
        let primary = machine.holder->0 as int;
        assert(machine.core_in_step(primary));
        assert(waits(primary) || cores[primary].stage is Running);
        assert(machine.can_move(cpu));
    } else if exists|cpu: int| 0 <= cpu < n && cores[cpu].stage is AwaitingInited {
        let cpu = choose|cpu: int| 0 <= cpu < n && cores[cpu].stage is AwaitingInited;
        assert forall|other: int| 0 <= other < n implies (#[trigger] cores[other]).stage.rank()
            >= 6 by {
            assert(waits(other) || cores[other].stage is Running);
        }
        assert(machine.can_move(cpu));
    } else if exists|cpu: int| 0 <= cpu < n && cores[cpu].stage is AwaitingLate {
        let cpu = choose|cpu: int| 0 <= cpu < n && cores[cpu].stage is AwaitingLate;
        assert(machine.core_in_step(cpu));
        let primary = machine.holder->0 as int;
        assert(machine.core_in_step(primary));
        assert(waits(primary) || cores[primary].stage is Running);
        assert(machine.can_move(cpu));
    } else {
        assert forall|cpu: int| 0 <= cpu < n implies (#[trigger] cores[cpu]).stage is Running by {
            assert(waits(cpu) || cores[cpu].stage is Running);
        }
    }
}

} // verus!
