//! Per-core boot sequence.
//!
//! Every core runs the same sequence from reset to the zone runtime. What a
//! core does next depends on its stage, on its role, and at the checkpoints
//! on what it reads from the shared cells. That decision is [`CoreState::next`];
//! [`CoreBoot::step`] makes it against the shared cells of
//! [`crate::barrier`], one shared operation per call, and tells the caller
//! what to carry out before the following call: a hook of the platform, a
//! spin, or nothing.

use vstd::prelude::*;
use crate::barrier::{wait_for_counter, BootPhaseCounters, MasterElection, MAX_CPUS};

verus! {

/// Role of a core in the boot sequence, settled by the election.
#[derive(Clone, Copy, Debug, PartialEq, Eq, Structural)]
pub enum Role {
    /// The one core that performs the global setup.
    Primary,
    /// Any other core.
    Secondary,
}

/// Where a core stands in its boot sequence: what it does at its next step.
#[derive(Clone, Copy, Debug, PartialEq, Eq, Structural)]
pub enum Stage {
    /// Nothing done yet; the trap vector is installed next.
    Reset,
    /// Claims the election slot.
    Electing,
    /// Counts itself as entered.
    Entering,
    /// Waits until every core has entered.
    AwaitingEntered,
    /// Primary only: early global setup is under way; its end is published.
    EarlyInit,
    /// Secondary only: waits for the end of early global setup.
    AwaitingEarly,
    /// Per-core setup is under way; its end is counted.
    PerCpuInit,
    /// Waits until every core has finished its per-core setup.
    AwaitingInited,
    /// Primary only: late global setup is under way; its end is published.
    LateInit,
    /// Secondary only: waits for the end of late global setup.
    AwaitingLate,
    /// Handed over to the zone runtime.
    Running,
}

/// How the action that the previous step asked for has ended.
#[derive(Clone, Copy, Debug, PartialEq, Eq, Structural)]
pub enum Outcome {
    /// It was carried out, or there was none.
    Completed,
    /// It failed. No failure can be recovered from at this point.
    Failed,
}

/// What a core has to carry out before its next step.
#[derive(Clone, Copy, Debug, PartialEq, Eq, Structural)]
pub enum Action {
    /// Install the trap vector of this core.
    InstallTrapVector,
    /// Start every other core, each once; see [`wakeup_secondary_cpus`].
    WakeSecondaries,
    /// Nothing; step again.
    Proceed,
    /// The awaited checkpoint is still closed; step again.
    Spin,
    /// Set up the heap, build and activate the identity mapping, run the
    /// early global hooks and create the root zone.
    GlobalInitEarly,
    /// Run the per-core setup. A secondary core first activates the table
    /// that the primary core has built.
    PerCpuInit { activate_table: bool },
    /// Run the late global hooks.
    GlobalInitLate,
    /// Enter the per-core loop of the zone runtime.
    RunVm,
    /// Stop for good.
    Halt,
}

/// The shared operation a step performs.
#[derive(Clone, Copy, Debug, PartialEq, Eq, Structural)]
pub enum SharedOp {
    /// None.
    Nothing,
    /// Compare-and-set of the election slot from unclaimed to this core.
    ClaimPrimary,
    /// Increment of `entered`.
    CountEntered,
    /// Read of `entered`, awaiting the number of cores.
    PollEntered,
    /// Store of 1 to `early_ok`.
    PublishEarly,
    /// Read of `early_ok`, awaiting 1.
    PollEarly,
    /// Increment of `inited`.
    CountInited,
    /// Read of `inited`, awaiting the number of cores.
    PollInited,
    /// Store of 1 to `late_ok`.
    PublishLate,
    /// Read of `late_ok`, awaiting 1.
    PollLate,
}

impl Stage {
    /// Position of the stage in the sequence. The two stages of a pair that
    /// the roles pass through side by side have the same rank.
    pub open spec fn rank(self) -> int {
        match self {
            Stage::Reset => 0,
            Stage::Electing => 1,
            Stage::Entering => 2,
            Stage::AwaitingEntered => 3,
            Stage::EarlyInit => 4,
            Stage::AwaitingEarly => 4,
            Stage::PerCpuInit => 5,
            Stage::AwaitingInited => 6,
            Stage::LateInit => 7,
            Stage::AwaitingLate => 7,
            Stage::Running => 8,
        }
    }
}

/// The boot state of one core.
#[derive(Clone, Copy, Debug, PartialEq, Eq, Structural)]
pub struct CoreState {
    pub cpu_id: usize,
    pub max_cpus: usize,
    /// `None` until the election has been held.
    pub role: Option<Role>,
    pub stage: Stage,
    /// Set for good by the first failure.
    pub halted: bool,
}

impl CoreState {
    /// The state of core `cpu_id` of `max_cpus` at reset.
    pub open spec fn reset(cpu_id: usize, max_cpus: usize) -> CoreState {
        CoreState { cpu_id, max_cpus, role: None, stage: Stage::Reset, halted: false }
    }

    /// The core is one of its machine's cores, and its role fits its stage:
    /// it has a role once the election is behind it, and the stages of one
    /// role are entered in that role only.
    pub open spec fn well_formed(self) -> bool {
        &&& self.cpu_id < self.max_cpus <= MAX_CPUS
        &&& self.role is None <==> self.stage.rank() <= 1
        &&& self.stage is EarlyInit || self.stage is LateInit ==> self.role == Some(Role::Primary)
        &&& self.stage is AwaitingEarly || self.stage is AwaitingLate ==> self.role == Some(
            Role::Secondary,
        )
    }

    /// The core makes no further step: it has halted or runs its zone.
    pub open spec fn is_done(self) -> bool {
        self.halted || self.stage is Running
    }

    /// The shared operation of the core's next step, given how its last
    /// action ended.
    pub open spec fn shared_op(self, last: Outcome) -> SharedOp {
        if self.is_done() || last is Failed {
            SharedOp::Nothing
        } else {
            match self.stage {
                Stage::Reset => SharedOp::Nothing,
                Stage::Electing => SharedOp::ClaimPrimary,
                Stage::Entering => SharedOp::CountEntered,
                Stage::AwaitingEntered => SharedOp::PollEntered,
                Stage::EarlyInit => SharedOp::PublishEarly,
                Stage::AwaitingEarly => SharedOp::PollEarly,
                Stage::PerCpuInit => SharedOp::CountInited,
                Stage::AwaitingInited => SharedOp::PollInited,
                Stage::LateInit => SharedOp::PublishLate,
                Stage::AwaitingLate => SharedOp::PollLate,
                Stage::Running => SharedOp::Nothing,
            }
        }
    }

    /// The core at `stage`, all else unchanged.
    pub open spec fn at(self, stage: Stage) -> CoreState {
        CoreState { stage, ..self }
    }

    /// The step of the core: its next state and the action it asks for.
    ///
    /// `last` says how the action asked for by the previous step has ended.
    /// `seen` is what the shared operation of this step has shown: at the
    /// election, that the claim succeeded; at a checkpoint, that it is open.
    /// Elsewhere it is not looked at.
    ///
    /// A core that is done stays as it is. A failure halts the core, at any
    /// stage. A closed checkpoint leaves the core where it is.
    pub open spec fn next(self, last: Outcome, seen: bool) -> (CoreState, Action) {
        if self.halted {
            (self, Action::Halt)
        } else if self.stage is Running {
            (self, Action::RunVm)
        } else if last is Failed {
            (CoreState { halted: true, ..self }, Action::Halt)
        } else {
            match self.stage {
                Stage::Reset => (self.at(Stage::Electing), Action::InstallTrapVector),
                Stage::Electing => if seen {
                    (
                        CoreState { role: Some(Role::Primary), stage: Stage::Entering, ..self },
                        Action::WakeSecondaries,
                    )
                } else {
                    (
                        CoreState { role: Some(Role::Secondary), stage: Stage::Entering, ..self },
                        Action::Proceed,
                    )
                },
                Stage::Entering => (self.at(Stage::AwaitingEntered), Action::Proceed),
                Stage::AwaitingEntered => if !seen {
                    (self, Action::Spin)
                } else if self.role == Some(Role::Primary) {
                    (self.at(Stage::EarlyInit), Action::GlobalInitEarly)
                } else {
                    (self.at(Stage::AwaitingEarly), Action::Proceed)
                },
                Stage::EarlyInit => (
                    self.at(Stage::PerCpuInit),
                    Action::PerCpuInit { activate_table: false },
                ),
                Stage::AwaitingEarly => if seen {
                    (self.at(Stage::PerCpuInit), Action::PerCpuInit { activate_table: true })
                } else {
                    (self, Action::Spin)
                },
                Stage::PerCpuInit => (self.at(Stage::AwaitingInited), Action::Proceed),
                Stage::AwaitingInited => if !seen {
                    (self, Action::Spin)
                } else if self.role == Some(Role::Primary) {
                    (self.at(Stage::LateInit), Action::GlobalInitLate)
                } else {
                    (self.at(Stage::AwaitingLate), Action::Proceed)
                },
                Stage::LateInit => (self.at(Stage::Running), Action::RunVm),
                Stage::AwaitingLate => if seen {
                    (self.at(Stage::Running), Action::RunVm)
                } else {
                    (self, Action::Spin)
                },
                Stage::Running => (self, Action::RunVm),
            }
        }
    }

    /// Computes the step of the core; see [`CoreState::next`].
    pub fn advance(self, last: Outcome, seen: bool) -> (step: (CoreState, Action))
        ensures
            step == self.next(last, seen),
    {
        if self.halted {
            return (self, Action::Halt);
        }
        if let Stage::Running = self.stage {
            return (self, Action::RunVm);
        }
        if let Outcome::Failed = last {
            return (CoreState { halted: true, ..self }, Action::Halt);
        }
        let primary: bool = match self.role {
            Some(Role::Primary) => true,
            _ => false,
        };
        match self.stage {
            Stage::Reset => (CoreState { stage: Stage::Electing, ..self }, Action::InstallTrapVector),
            Stage::Electing => {
                if seen {
                    (
                        CoreState { role: Some(Role::Primary), stage: Stage::Entering, ..self },
                        Action::WakeSecondaries,
                    )
                } else {
                    (
                        CoreState { role: Some(Role::Secondary), stage: Stage::Entering, ..self },
                        Action::Proceed,
                    )
                }
            },
            Stage::Entering => (CoreState { stage: Stage::AwaitingEntered, ..self }, Action::Proceed),
            Stage::AwaitingEntered => {
                if !seen {
                    (self, Action::Spin)
                } else if primary {
                    (CoreState { stage: Stage::EarlyInit, ..self }, Action::GlobalInitEarly)
                } else {
                    (CoreState { stage: Stage::AwaitingEarly, ..self }, Action::Proceed)
                }
            },
            Stage::EarlyInit => (
                CoreState { stage: Stage::PerCpuInit, ..self },
                Action::PerCpuInit { activate_table: false },
            ),
            Stage::AwaitingEarly => {
                if seen {
                    (
                        CoreState { stage: Stage::PerCpuInit, ..self },
                        Action::PerCpuInit { activate_table: true },
                    )
                } else {
                    (self, Action::Spin)
                }
            },
            Stage::PerCpuInit => (CoreState { stage: Stage::AwaitingInited, ..self }, Action::Proceed),
            Stage::AwaitingInited => {
                if !seen {
                    (self, Action::Spin)
                } else if primary {
                    (CoreState { stage: Stage::LateInit, ..self }, Action::GlobalInitLate)
                } else {
                    (CoreState { stage: Stage::AwaitingLate, ..self }, Action::Proceed)
                }
            },
            Stage::LateInit => (CoreState { stage: Stage::Running, ..self }, Action::RunVm),
            Stage::AwaitingLate => {
                if seen {
                    (CoreState { stage: Stage::Running, ..self }, Action::RunVm)
                } else {
                    (self, Action::Spin)
                }
            },
            Stage::Running => (self, Action::RunVm),
        }
    }
}

/// A step keeps a core well formed, keeps its identity, and never takes it
/// back: its stage does not fall, its role once settled stays, and a halted
/// core stays halted.
pub proof fn lemma_step_moves_forward(core: CoreState, last: Outcome, seen: bool)
    requires
        core.well_formed(),
    ensures
        core.next(last, seen).0.well_formed(),
        core.next(last, seen).0.cpu_id == core.cpu_id,
        core.next(last, seen).0.max_cpus == core.max_cpus,
        core.next(last, seen).0.stage.rank() >= core.stage.rank(),
        core.next(last, seen).0.stage.rank() <= core.stage.rank() + 1,
        core.role is Some ==> core.next(last, seen).0.role == core.role,
        core.halted ==> core.next(last, seen).0.halted,
{
}

/// A core leaves a checkpoint only when it has seen it open, and asks for no
/// action but to spin while it is closed.
pub proof fn lemma_closed_checkpoint_holds(core: CoreState)
    requires
        !core.is_done(),
        core.stage is AwaitingEntered || core.stage is AwaitingEarly || core.stage
            is AwaitingInited || core.stage is AwaitingLate,
    ensures
        core.next(Outcome::Completed, false) == (core, Action::Spin),
{
}

/// The boot sequence of one core, driven against the shared cells.
pub struct CoreBoot {
    core: CoreState,
    /// `core.max_cpus`, as the counters count.
    threshold: u32,
    /// `core.cpu_id`, as the election slot holds it.
    claim: i32,
}

impl View for CoreBoot {
    type V = CoreState;

    closed spec fn view(&self) -> CoreState {
        self.core
    }
}

impl CoreBoot {
    #[verifier::type_invariant]
    spec fn sound(self) -> bool {
        &&& self.core.well_formed()
        &&& self.threshold == self.core.max_cpus
        &&& self.claim == self.core.cpu_id
    }

    /// The boot sequence of core `cpu_id` of a machine of `max_cpus` cores,
    /// at reset. `None` unless `cpu_id < max_cpus <= MAX_CPUS`.
    pub fn new(cpu_id: usize, max_cpus: usize) -> (r: Option<CoreBoot>)
        ensures
            r is Some <==> cpu_id < max_cpus <= MAX_CPUS,
            r matches Some(boot) ==> boot@ == CoreState::reset(cpu_id, max_cpus),
    {
        if cpu_id < max_cpus && max_cpus <= MAX_CPUS {
            Some(
                CoreBoot {
                    core: CoreState {
                        cpu_id,
                        max_cpus,
                        role: None,
                        stage: Stage::Reset,
                        halted: false,
                    },
                    threshold: max_cpus as u32,
                    claim: cpu_id as i32,
                },
            )
        } else {
            None
        }
    }

    /// The state of the core.
    pub fn state(&self) -> (core: CoreState)
        ensures
            core == self@,
            core.well_formed(),
    {
        proof {
            use_type_invariant(self);
        }
        self.core
    }

    /// Takes the step that `seen` and `last` decide.
    fn apply(&mut self, last: Outcome, seen: bool) -> (action: Action)
        ensures
            (final(self)@, action) == old(self)@.next(last, seen),
    {
        proof {
            use_type_invariant(&*self);
            lemma_step_moves_forward(self.core, last, seen);
        }
        let (core, action) = self.core.advance(last, seen);
        *self = CoreBoot { core, threshold: self.threshold, claim: self.claim };
        action
    }

    /// Makes the next step of the core: performs the shared operation of its
    /// stage, `self@.shared_op(last)`, on the shared cells, moves the core on
    /// by what the operation has shown, and returns the action to carry out
    /// before the following step.
    ///
    /// `last` says how the action returned by the previous step has ended;
    /// pass [`Outcome::Completed`] to the first step. At a checkpoint the
    /// step polls at most `max_polls` times.
    ///
    /// What the shared cells show is not known beforehand, so the step is one
    /// of the two that [`CoreState::next`] allows.
    pub fn step(
        &mut self,
        counters: &BootPhaseCounters,
        election: &MasterElection,
        last: Outcome,
        max_polls: u32,
    ) -> (action: Action)
        ensures
            (final(self)@, action) == old(self)@.next(last, true) || (final(self)@, action) == old(
                self,
            )@.next(last, false),
            max_polls == 0 ==> (final(self)@, action) == old(self)@.next(last, false) || old(
                self,
            )@.stage is Electing,
    {
        proof {
            use_type_invariant(&*self);
        }
        if self.core.halted {
            return self.apply(last, false);
        }
        if let Outcome::Failed = last {
            return self.apply(last, false);
        }
        match self.core.stage {
            Stage::Reset | Stage::Running => self.apply(last, false),
            Stage::Electing => {
                let won = election.try_claim(self.claim);
                self.apply(last, won)
            },
            Stage::Entering => {
                counters.count_entered();
                self.apply(last, false)
            },
            Stage::AwaitingEntered => {
                let open = wait_for_counter(&counters.entered, self.threshold, max_polls);
                self.apply(last, open)
            },
            Stage::EarlyInit => primary_init_early(self, counters, last),
            Stage::AwaitingEarly => {
                let open = wait_for_counter(&counters.early_ok, 1, max_polls);
                self.apply(last, open)
            },
            Stage::PerCpuInit => per_cpu_init(self, counters),
            Stage::AwaitingInited => {
                let open = wait_for_counter(&counters.inited, self.threshold, max_polls);
                self.apply(last, open)
            },
            Stage::LateInit => primary_init_late(self, counters),
            Stage::AwaitingLate => {
                let open = wait_for_counter(&counters.late_ok, 1, max_polls);
                self.apply(last, open)
            },
        }
    }
}

/// Ends the early global setup of the primary core.
///
/// `outcome` says how the setup went: the heap, the identity mapping, the
/// early hooks and the creation of the root zone. If it was completed, its
/// end is published in `early_ok`, which releases the secondary cores, and
/// the core goes on to its per-core setup. If it failed, nothing is
/// published and the core halts; the secondary cores then wait for good.
pub fn primary_init_early(
    core: &mut CoreBoot,
    counters: &BootPhaseCounters,
    outcome: Outcome,
) -> (action: Action)
    requires
        old(core)@.stage is EarlyInit,
        !old(core)@.halted,
    ensures
        (final(core)@, action) == old(core)@.next(outcome, false),
        outcome is Completed ==> final(core)@ == old(core)@.at(Stage::PerCpuInit) && action == (
        Action::PerCpuInit { activate_table: false }),
        outcome is Failed ==> final(core)@ == (CoreState { halted: true, ..old(core)@ }) && action
            is Halt,
{
    match outcome {
        Outcome::Completed => {
            counters.publish_early();
        },
        Outcome::Failed => {},
    }
    core.apply(outcome, false)
}

/// Ends the late global setup of the primary core: publishes its end in
/// `late_ok`, which releases the secondary cores, and hands the core over to
/// the zone runtime.
pub fn primary_init_late(core: &mut CoreBoot, counters: &BootPhaseCounters) -> (action: Action)
    requires
        old(core)@.stage is LateInit,
        !old(core)@.halted,
    ensures
        final(core)@ == old(core)@.at(Stage::Running),
        action is RunVm,
{
    counters.publish_late();
    core.apply(Outcome::Completed, false)
}

/// Ends the per-core setup of a core: counts the core in `inited` and takes
/// it to the checkpoint where it waits for the others. A core passes here
/// once, so it is counted once.
pub fn per_cpu_init(core: &mut CoreBoot, counters: &BootPhaseCounters) -> (action: Action)
    requires
        old(core)@.stage is PerCpuInit,
        !old(core)@.halted,
    ensures
        final(core)@ == old(core)@.at(Stage::AwaitingInited),
        action is Proceed,
{
    counters.count_inited();
    core.apply(Outcome::Completed, false)
}

/// Core `cpu` is a core of the machine other than `this_id`.
pub open spec fn is_secondary(this_id: usize, max_cpus: usize, cpu: usize) -> bool {
    cpu < max_cpus && cpu != this_id
}

/// Core `cpu` is core `after` or comes before it.
pub open spec fn named_before(after: Option<usize>, cpu: usize) -> bool {
    after matches Some(last) && cpu <= last
}

/// `cpu` is the first core after `after` that core `this_id` has to start:
/// a core of the machine other than `this_id`, beyond `after` if there is
/// one, with no such core before it.
pub open spec fn is_next_secondary(
    this_id: usize,
    max_cpus: usize,
    after: Option<usize>,
    cpu: usize,
) -> bool {
    &&& is_secondary(this_id, max_cpus, cpu)
    &&& !named_before(after, cpu)
    &&& forall|other: usize|
        other < cpu && #[trigger] is_secondary(this_id, max_cpus, other) ==> named_before(
            after,
            other,
        )
}

/// The next core that core `this_id` has to start, after core `after` or
/// from the first core on: the cores of the machine but `this_id`, in rising
/// order. `None` once every such core has been named. Starting the cores
/// that this names, each from the one before, starts each of them once.
pub fn next_secondary(this_id: usize, max_cpus: usize, after: Option<usize>) -> (next: Option<
    usize,
>)
    ensures
        next matches Some(cpu) ==> is_next_secondary(this_id, max_cpus, after, cpu),
        next is None ==> forall|other: usize| #[trigger]
            is_secondary(this_id, max_cpus, other) ==> named_before(after, other),
{
    let first: usize = match after {
        None => 0,
        Some(last) => {
            if last >= max_cpus {
                return None;
            }
            last + 1
        },
    };
    let candidate: usize = if first == this_id && first < max_cpus {
        first + 1
    } else {
        first
    };
    if candidate < max_cpus {
        Some(candidate)
    } else {
        None
    }
}

/// The cores that core `this_id` has to start: every core of the machine but
/// itself, in rising order, each once. It is the list of the cores that
/// [`next_secondary`] names one after the other; a caller that has no heap
/// yet asks that function instead.
pub fn wakeup_secondary_cpus(this_id: usize, max_cpus: usize) -> (targets: Vec<usize>)
    ensures
        forall|cpu: usize| targets@.contains(cpu) <==> cpu < max_cpus && cpu != this_id,
        forall|i: int, j: int| 0 <= i < j < targets@.len() ==> targets@[i] < targets@[j],
        targets@.len() == (if this_id < max_cpus {
            max_cpus - 1
        } else {
            max_cpus as int
        }),
        forall|i: int|
            0 <= i < targets@.len() ==> is_next_secondary(
                this_id,
                max_cpus,
                if i == 0 {
                    None
                } else {
                    Some(targets@[i - 1])
                },
                #[trigger] targets@[i],
            ),
{
    let mut targets: Vec<usize> = Vec::new();
    let mut cpu_id: usize = 0;
    while cpu_id < max_cpus
        invariant
            cpu_id <= max_cpus,
            forall|cpu: usize| targets@.contains(cpu) <==> cpu < cpu_id && cpu != this_id,
            forall|i: int, j: int| 0 <= i < j < targets@.len() ==> targets@[i] < targets@[j],
            targets@.len() == (if this_id < cpu_id {
                cpu_id - 1
            } else {
                cpu_id as int
            }),
        decreases max_cpus - cpu_id,
    {
        if cpu_id != this_id {
            let ghost before = targets@;
            targets.push(cpu_id);
            proof {
                assert forall|cpu: usize| targets@.contains(cpu) <==> cpu < cpu_id + 1 && cpu
                    != this_id by {
                    if before.contains(cpu) {
                        let k = choose|k: int| 0 <= k < before.len() && before[k] == cpu;
                        assert(targets@[k] == cpu);
                    }
                    if cpu == cpu_id {
                        assert(targets@[before.len() as int] == cpu);
                    }
                }
                assert forall|i: int, j: int| 0 <= i < j < targets@.len() implies targets@[i]
                    < targets@[j] by {
                    if j == before.len() {
                        assert(before.contains(before[i]));
                    }
                }
            }
        }
        cpu_id = cpu_id + 1;
    }
    proof {
        assert forall|i: int| 0 <= i < targets@.len() implies is_next_secondary(
            this_id,
            max_cpus,
            if i == 0 {
                None
            } else {
                Some(targets@[i - 1])
            },
            #[trigger] targets@[i],
        ) by {
            let after = if i == 0 {
                None
            } else {
                Some(targets@[i - 1])
            };
            assert(targets@.contains(targets@[i]));
            assert forall|other: usize|
                other < targets@[i] && #[trigger] is_secondary(
                    this_id,
                    max_cpus,
                    other,
                ) implies named_before(after, other) by {
                assert(targets@.contains(other));
                let k = choose|k: int| 0 <= k < targets@.len() && targets@[k] == other;
                if k >= i {
                    if k > i {
                        assert(targets@[i] < targets@[k]);
                    }
                } else if k < i - 1 {
                    assert(targets@[k] < targets@[i - 1]);
                }
            }
        }
    }
    targets
}

} // verus!
