use hvisor_boot::barrier::{BootPhase, BootPhaseCounters, CounterSnapshot, MasterElection, MAX_CPUS};
use hvisor_boot::boot::{
    next_secondary, per_cpu_init, primary_init_early, primary_init_late, wakeup_secondary_cpus,
    Action, CoreBoot, CoreState, Outcome, Role, Stage,
};

struct Machine {
    counters: BootPhaseCounters,
    election: MasterElection,
    cores: Vec<CoreBoot>,
}

fn machine(max_cpus: usize) -> Machine {
    Machine {
        counters: BootPhaseCounters::new(),
        election: MasterElection::new(),
        cores: (0..max_cpus).map(|cpu| CoreBoot::new(cpu, max_cpus).unwrap()).collect(),
    }
}

impl Machine {
    fn step(&mut self, cpu: usize) -> Action {
        self.cores[cpu].step(&self.counters, &self.election, Outcome::Completed, 1)
    }

    fn stage(&self, cpu: usize) -> Stage {
        self.cores[cpu].state().stage
    }

    fn role(&self, cpu: usize) -> Option<Role> {
        self.cores[cpu].state().role
    }

    fn primaries(&self) -> usize {
        self.cores.iter().filter(|core| core.state().role == Some(Role::Primary)).count()
    }

    fn all_running(&self) -> bool {
        self.cores.iter().all(|core| core.state().stage == Stage::Running)
    }

    fn phase(&self) -> BootPhase {
        self.counters.snapshot().phase(self.cores.len() as u32, self.all_running())
    }

    /// Steps core `cpu` until it spins or is done; returns the actions.
    fn run(&mut self, cpu: usize) -> Vec<Action> {
        let mut actions = Vec::new();
        loop {
            let action = self.step(cpu);
            actions.push(action);
            if matches!(action, Action::Spin | Action::RunVm | Action::Halt) {
                return actions;
            }
        }
    }

    /// Steps the cores in the order of `schedule`, again and again, until
    /// all run; checks at every step what must hold of every state.
    fn run_all(&mut self, schedule: &[usize]) {
        let max_cpus = self.cores.len() as u32;
        let mut phase = self.phase();
        let mut rounds = 0;
        while !self.all_running() {
            for &cpu in schedule {
                self.step(cpu);
                let counters = self.counters.snapshot();
                assert!(counters.entered <= max_cpus);
                assert!(counters.inited <= max_cpus);
                assert!(counters.early_ok <= 1);
                assert!(counters.late_ok <= 1);
                assert!(self.primaries() <= 1);
                let next = self.phase();
                assert!(phase_rank(next) >= phase_rank(phase));
                phase = next;
            }
            rounds += 1;
            assert!(rounds < 100, "the machine does not come up");
        }
    }
}

fn phase_rank(phase: BootPhase) -> u32 {
    match phase {
        BootPhase::BootStart => 0,
        BootPhase::CpusEntering => 1,
        BootPhase::EarlyInitPending => 2,
        BootPhase::EarlyInitDone => 3,
        BootPhase::LateInitPending => 4,
        BootPhase::LateInitDone => 5,
        BootPhase::Running => 6,
    }
}

fn view(cpu_id: usize, max_cpus: usize, role: Option<Role>, stage: Stage) -> CoreState {
    CoreState { cpu_id, max_cpus, role, stage, halted: false }
}

#[test]
fn core_starts_at_reset() {
    let core = CoreBoot::new(1, 4).unwrap();
    assert_eq!(core.state(), view(1, 4, None, Stage::Reset));
}

#[test]
fn core_outside_the_machine_is_refused() {
    assert!(CoreBoot::new(2, 2).is_none());
    assert!(CoreBoot::new(0, 0).is_none());
    assert!(CoreBoot::new(5, 2).is_none());
    assert!(CoreBoot::new(0, 1).is_some());
}

#[test]
fn machine_larger_than_the_election_slot_is_refused() {
    assert!(CoreBoot::new(0, MAX_CPUS).is_some());
    assert!(CoreBoot::new(MAX_CPUS - 1, MAX_CPUS).is_some());
    assert!(CoreBoot::new(0, MAX_CPUS + 1).is_none());
}

#[test]
fn wakeup_names_every_other_core_once() {
    assert_eq!(wakeup_secondary_cpus(0, 4), vec![1, 2, 3]);
    assert_eq!(wakeup_secondary_cpus(2, 4), vec![0, 1, 3]);
    assert_eq!(wakeup_secondary_cpus(3, 4), vec![0, 1, 2]);
    assert_eq!(wakeup_secondary_cpus(0, 2), vec![1]);
    assert_eq!(wakeup_secondary_cpus(1, 2), vec![0]);
}

#[test]
fn wakeup_of_a_single_core_machine_names_no_core() {
    assert_eq!(wakeup_secondary_cpus(0, 1), Vec::<usize>::new());
    assert_eq!(wakeup_secondary_cpus(0, 0), Vec::<usize>::new());
}

#[test]
fn wakeup_by_a_core_outside_the_machine_names_every_core() {
    assert_eq!(wakeup_secondary_cpus(7, 3), vec![0, 1, 2]);
}

#[test]
fn next_secondary_names_the_cores_one_after_the_other() {
    assert_eq!(next_secondary(0, 4, None), Some(1));
    assert_eq!(next_secondary(0, 4, Some(1)), Some(2));
    assert_eq!(next_secondary(0, 4, Some(2)), Some(3));
    assert_eq!(next_secondary(0, 4, Some(3)), None);
    assert_eq!(next_secondary(2, 4, None), Some(0));
    assert_eq!(next_secondary(2, 4, Some(0)), Some(1));
    assert_eq!(next_secondary(2, 4, Some(1)), Some(3));
    assert_eq!(next_secondary(2, 4, Some(3)), None);
    assert_eq!(next_secondary(3, 4, Some(2)), None);
}

#[test]
fn next_secondary_ends_at_the_edges() {
    assert_eq!(next_secondary(0, 1, None), None);
    assert_eq!(next_secondary(0, 0, None), None);
    assert_eq!(next_secondary(7, 2, None), Some(0));
    assert_eq!(next_secondary(0, 2, Some(5)), None);
    assert_eq!(next_secondary(0, usize::MAX, Some(usize::MAX)), None);
    assert_eq!(next_secondary(usize::MAX, usize::MAX, Some(usize::MAX - 1)), None);
    assert_eq!(next_secondary(usize::MAX - 1, usize::MAX, Some(usize::MAX - 3)), Some(usize::MAX - 2));
    assert_eq!(next_secondary(usize::MAX - 1, usize::MAX, Some(usize::MAX - 2)), None);
}

#[test]
fn next_secondary_walks_the_wakeup_list() {
    for max_cpus in 0..6usize {
        for this_id in 0..7usize {
            let mut named = Vec::new();
            let mut after = None;
            while let Some(cpu) = next_secondary(this_id, max_cpus, after) {
                named.push(cpu);
                after = Some(cpu);
            }
            assert_eq!(named, wakeup_secondary_cpus(this_id, max_cpus));
        }
    }
}

#[test]
fn primary_walks_through_its_sequence() {
    let mut machine = machine(1);
    assert_eq!(machine.step(0), Action::InstallTrapVector);
    assert_eq!(machine.stage(0), Stage::Electing);
    assert_eq!(machine.step(0), Action::WakeSecondaries);
    assert_eq!(machine.role(0), Some(Role::Primary));
    assert_eq!(machine.stage(0), Stage::Entering);
    assert_eq!(machine.step(0), Action::Proceed);
    assert_eq!(machine.stage(0), Stage::AwaitingEntered);
    assert_eq!(machine.step(0), Action::GlobalInitEarly);
    assert_eq!(machine.stage(0), Stage::EarlyInit);
    assert_eq!(machine.counters.snapshot().early_ok, 0);
    assert_eq!(machine.step(0), Action::PerCpuInit { activate_table: false });
    assert_eq!(machine.counters.snapshot().early_ok, 1);
    assert_eq!(machine.stage(0), Stage::PerCpuInit);
    assert_eq!(machine.step(0), Action::Proceed);
    assert_eq!(machine.counters.snapshot().inited, 1);
    assert_eq!(machine.stage(0), Stage::AwaitingInited);
    assert_eq!(machine.step(0), Action::GlobalInitLate);
    assert_eq!(machine.stage(0), Stage::LateInit);
    assert_eq!(machine.counters.snapshot().late_ok, 0);
    assert_eq!(machine.step(0), Action::RunVm);
    assert_eq!(machine.counters.snapshot().late_ok, 1);
    assert_eq!(machine.stage(0), Stage::Running);
    assert_eq!(machine.phase(), BootPhase::Running);
}

#[test]
fn running_core_stays_running() {
    let mut machine = machine(1);
    machine.run_all(&[0]);
    let before = machine.counters.snapshot();
    let state = machine.cores[0].state();
    assert_eq!(machine.step(0), Action::RunVm);
    assert_eq!(
        machine.cores[0].step(&machine.counters, &machine.election, Outcome::Failed, 1),
        Action::RunVm
    );
    assert_eq!(machine.cores[0].state(), state);
    assert_eq!(machine.counters.snapshot(), before);
}

#[test]
fn first_core_spins_until_the_second_has_entered() {
    let mut machine = machine(2);
    assert_eq!(
        machine.run(0),
        vec![Action::InstallTrapVector, Action::WakeSecondaries, Action::Proceed, Action::Spin]
    );
    assert_eq!(machine.counters.snapshot().entered, 1);
    assert_eq!(machine.stage(0), Stage::AwaitingEntered);
    for _ in 0..10 {
        assert_eq!(machine.step(0), Action::Spin);
        assert_eq!(machine.stage(0), Stage::AwaitingEntered);
    }
    assert_eq!(
        machine.cores[0].step(&machine.counters, &machine.election, Outcome::Completed, 1000),
        Action::Spin
    );
    assert_eq!(machine.counters.snapshot().entered, 1);
    assert_eq!(machine.phase(), BootPhase::CpusEntering);

    assert_eq!(machine.step(1), Action::InstallTrapVector);
    assert_eq!(machine.step(1), Action::Proceed);
    assert_eq!(machine.role(1), Some(Role::Secondary));
    assert_eq!(machine.step(0), Action::Spin);
    assert_eq!(machine.step(1), Action::Proceed);
    assert_eq!(machine.counters.snapshot().entered, 2);
    assert_eq!(machine.phase(), BootPhase::EarlyInitPending);

    assert_eq!(machine.step(0), Action::GlobalInitEarly);
    assert_eq!(machine.stage(0), Stage::EarlyInit);
    assert_eq!(machine.step(1), Action::Proceed);
    assert_eq!(machine.stage(1), Stage::AwaitingEarly);
    assert_eq!(machine.counters.snapshot().entered, 2);
}

#[test]
fn secondary_does_not_pass_the_early_wait_before_the_signal() {
    let mut machine = machine(2);
    machine.run(0);
    machine.run(1);
    assert_eq!(machine.stage(1), Stage::AwaitingEarly);
    assert_eq!(machine.step(0), Action::GlobalInitEarly);
    assert_eq!(machine.counters.snapshot().early_ok, 0);
    for polls in [0u32, 1, 2, 50, 1000] {
        let action =
            machine.cores[1].step(&machine.counters, &machine.election, Outcome::Completed, polls);
        assert_eq!(action, Action::Spin);
        assert_eq!(machine.stage(1), Stage::AwaitingEarly);
    }
    assert_eq!(machine.counters.snapshot().inited, 0);

    assert_eq!(machine.step(0), Action::PerCpuInit { activate_table: false });
    assert_eq!(machine.counters.snapshot().early_ok, 1);
    assert_eq!(machine.step(1), Action::PerCpuInit { activate_table: true });
    assert_eq!(machine.stage(1), Stage::PerCpuInit);
}

#[test]
fn secondary_does_not_pass_the_late_wait_before_the_signal() {
    let mut machine = machine(2);
    machine.run(0);
    machine.run(1);
    machine.run(0);
    machine.run(1);
    assert_eq!(machine.stage(0), Stage::AwaitingInited);
    assert_eq!(machine.stage(1), Stage::AwaitingLate);
    assert_eq!(machine.counters.snapshot().inited, 2);
    assert_eq!(machine.step(1), Action::Spin);
    assert_eq!(machine.step(0), Action::GlobalInitLate);
    assert_eq!(machine.step(1), Action::Spin);
    assert_eq!(machine.phase(), BootPhase::LateInitPending);
    assert_eq!(machine.step(0), Action::RunVm);
    assert_eq!(machine.phase(), BootPhase::LateInitDone);
    assert_eq!(machine.step(1), Action::RunVm);
    assert_eq!(machine.phase(), BootPhase::Running);
}

#[test]
fn no_core_passes_the_second_barrier_before_all_are_initialised() {
    let mut machine = machine(3);
    machine.run(2);
    machine.run(0);
    machine.run(1);
    machine.run(2);
    assert_eq!(machine.role(2), Some(Role::Primary));
    assert_eq!(machine.stage(2), Stage::AwaitingInited);
    assert_eq!(machine.counters.snapshot().inited, 1);
    assert_eq!(machine.step(2), Action::Spin);
    machine.run(0);
    assert_eq!(machine.counters.snapshot().inited, 2);
    assert_eq!(machine.step(2), Action::Spin);
    assert_eq!(machine.step(0), Action::Spin);
    machine.run(1);
    assert_eq!(machine.counters.snapshot().inited, 3);
    assert_eq!(machine.step(2), Action::GlobalInitLate);
    assert_eq!(machine.step(0), Action::Proceed);
    assert_eq!(machine.stage(0), Stage::AwaitingLate);
}

#[test]
fn exactly_one_core_becomes_primary() {
    for max_cpus in 1..6usize {
        for first in 0..max_cpus {
            let mut machine = machine(max_cpus);
            let schedule: Vec<usize> = (0..max_cpus).map(|i| (first + i) % max_cpus).collect();
            machine.run_all(&schedule);
            assert_eq!(machine.primaries(), 1);
            assert_eq!(machine.role(first), Some(Role::Primary));
            assert_eq!(machine.election.holder(), Some(first as i32));
            for cpu in 0..max_cpus {
                if cpu != first {
                    assert_eq!(machine.role(cpu), Some(Role::Secondary));
                }
            }
        }
    }
}

#[test]
fn every_core_is_counted_once() {
    for max_cpus in 1..6usize {
        let mut machine = machine(max_cpus);
        let schedule: Vec<usize> = (0..max_cpus).rev().collect();
        machine.run_all(&schedule);
        assert_eq!(
            machine.counters.snapshot(),
            CounterSnapshot {
                entered: max_cpus as u32,
                early_ok: 1,
                late_ok: 1,
                inited: max_cpus as u32
            }
        );
        // Further steps of running cores count nothing more.
        for cpu in 0..max_cpus {
            assert_eq!(machine.step(cpu), Action::RunVm);
        }
        assert_eq!(machine.counters.snapshot().inited, max_cpus as u32);
        assert_eq!(machine.counters.snapshot().entered, max_cpus as u32);
    }
}

#[test]
fn uneven_schedule_reaches_the_same_end() {
    let mut machine = machine(4);
    machine.run_all(&[3, 3, 3, 1, 0, 0, 2, 1, 3, 2, 2, 2, 0]);
    assert_eq!(machine.primaries(), 1);
    assert_eq!(machine.role(3), Some(Role::Primary));
    assert_eq!(machine.counters.snapshot().inited, 4);
    assert_eq!(machine.phase(), BootPhase::Running);
}

#[test]
fn late_core_still_becomes_secondary() {
    let mut machine = machine(2);
    machine.run(1);
    assert_eq!(machine.role(1), Some(Role::Primary));
    for _ in 0..20 {
        assert_eq!(machine.step(1), Action::Spin);
    }
    assert_eq!(
        machine.run(0),
        vec![
            Action::InstallTrapVector,
            Action::Proceed,
            Action::Proceed,
            Action::Proceed,
            Action::Spin
        ]
    );
    assert_eq!(machine.role(0), Some(Role::Secondary));
    assert_eq!(machine.stage(0), Stage::AwaitingEarly);
}

#[test]
fn failed_early_setup_halts_the_primary_and_publishes_nothing() {
    let mut machine = machine(2);
    machine.run(0);
    machine.run(1);
    assert_eq!(machine.step(0), Action::GlobalInitEarly);
    let action = machine.cores[0].step(&machine.counters, &machine.election, Outcome::Failed, 1);
    assert_eq!(action, Action::Halt);
    let state = machine.cores[0].state();
    assert!(state.halted);
    assert_eq!(state.stage, Stage::EarlyInit);
    assert_eq!(machine.counters.snapshot().early_ok, 0);
    // The primary stays halted and the secondary waits for good.
    assert_eq!(machine.step(0), Action::Halt);
    assert_eq!(machine.cores[0].state(), state);
    for _ in 0..10 {
        assert_eq!(machine.step(1), Action::Spin);
    }
    assert_eq!(machine.stage(1), Stage::AwaitingEarly);
    assert_eq!(machine.phase(), BootPhase::EarlyInitPending);
}

#[test]
fn failure_halts_a_core_at_any_stage() {
    let mut machine = machine(2);
    machine.step(1);
    let action = machine.cores[1].step(&machine.counters, &machine.election, Outcome::Failed, 1);
    assert_eq!(action, Action::Halt);
    assert!(machine.cores[1].state().halted);
    assert_eq!(machine.stage(1), Stage::Electing);
    // The halted core has not claimed the slot.
    assert_eq!(machine.election.holder(), None);
    machine.run(0);
    assert_eq!(machine.role(0), Some(Role::Primary));
}

#[test]
fn stage_functions_make_the_step_of_their_stage() {
    let counters = BootPhaseCounters::new();
    let election = MasterElection::new();
    let mut core = CoreBoot::new(0, 1).unwrap();
    for _ in 0..4 {
        core.step(&counters, &election, Outcome::Completed, 1);
    }
    assert_eq!(core.state().stage, Stage::EarlyInit);
    assert_eq!(
        primary_init_early(&mut core, &counters, Outcome::Completed),
        Action::PerCpuInit { activate_table: false }
    );
    assert_eq!(core.state().stage, Stage::PerCpuInit);
    assert_eq!(counters.snapshot().early_ok, 1);
    assert_eq!(per_cpu_init(&mut core, &counters), Action::Proceed);
    assert_eq!(core.state().stage, Stage::AwaitingInited);
    assert_eq!(counters.snapshot().inited, 1);
    assert_eq!(core.step(&counters, &election, Outcome::Completed, 1), Action::GlobalInitLate);
    assert_eq!(primary_init_late(&mut core, &counters), Action::RunVm);
    assert_eq!(core.state().stage, Stage::Running);
    assert_eq!(counters.snapshot().late_ok, 1);
}

#[test]
fn failed_zone_creation_is_fatal() {
    let counters = BootPhaseCounters::new();
    let election = MasterElection::new();
    let mut core = CoreBoot::new(0, 1).unwrap();
    for _ in 0..4 {
        core.step(&counters, &election, Outcome::Completed, 1);
    }
    assert_eq!(primary_init_early(&mut core, &counters, Outcome::Failed), Action::Halt);
    assert!(core.state().halted);
    assert_eq!(counters.snapshot().early_ok, 0);
}

#[test]
fn decision_follows_what_the_cells_show() {
    let waiting = view(1, 2, Some(Role::Secondary), Stage::AwaitingEarly);
    assert_eq!(waiting.advance(Outcome::Completed, false), (waiting, Action::Spin));
    assert_eq!(
        waiting.advance(Outcome::Completed, true),
        (
            view(1, 2, Some(Role::Secondary), Stage::PerCpuInit),
            Action::PerCpuInit { activate_table: true }
        )
    );
    let electing = view(0, 2, None, Stage::Electing);
    assert_eq!(
        electing.advance(Outcome::Completed, true),
        (view(0, 2, Some(Role::Primary), Stage::Entering), Action::WakeSecondaries)
    );
    assert_eq!(
        electing.advance(Outcome::Completed, false),
        (view(0, 2, Some(Role::Secondary), Stage::Entering), Action::Proceed)
    );
    let entered = view(0, 2, Some(Role::Primary), Stage::AwaitingEntered);
    assert_eq!(entered.advance(Outcome::Completed, false), (entered, Action::Spin));
    assert_eq!(
        entered.advance(Outcome::Completed, true),
        (view(0, 2, Some(Role::Primary), Stage::EarlyInit), Action::GlobalInitEarly)
    );
    assert_eq!(
        entered.advance(Outcome::Failed, true),
        (CoreState { halted: true, ..entered }, Action::Halt)
    );
}
