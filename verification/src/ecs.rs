//! The typed builder and the built core: error taxonomy, schedule labels,
//! the `EcsBuilder` state machine, plugins, and the runnable `Ecs`.

use vstd::prelude::*;
use crate::schedule::{
    registry_wf, ExecutorKind, Schedule, ScheduleModel, ScheduleRegistry, SystemConfig,
};
use crate::world::{World, WorldModel};

verus! {

/// Every recoverable failure of the configuration and lookup surface.
///
/// Configuration mistakes (duplicate labels, dangling references) surface as
/// values of this type rather than panics, so a long-running host can reject
/// a bad configuration without crashing.
#[derive(Clone, Copy, Debug, PartialEq, Eq, Structural)]
pub enum EcsError {
    /// A schedule was registered under a label that is already taken.
    DuplicateScheduleLabel,
    /// A schedule label was referenced but never registered.
    ScheduleNotFound,
    /// A system was added under a name already used in the same schedule.
    DuplicateSystemName,
    /// A system dependency names no system registered earlier in the schedule.
    UnknownDependency,
    /// A resource key is not present in the world.
    ResourceNotFound,
    /// An entity id does not denote a spawned entity.
    EntityNotFound,
    /// An entity exists but carries no component under the requested key.
    ComponentNotFound,
}

/// A schedule label: a comparable identity under which a schedule is
/// registered. Implementors return a number that is distinct per label.
pub trait ScheduleLabel {
    /// The identity of this label, at the specification level.
    spec fn label_spec(&self) -> u64;

    /// The identity of this label.
    fn label(&self) -> (r: u64)
        ensures
            r == self.label_spec(),
    ;
}

/// Label of the canonical schedule for startup work that must stay on the
/// main thread (window and graphics-context setup).
pub struct StartupSingleThreaded;

/// Label of the canonical schedule for ordinary startup work.
pub struct Startup;

/// Label of the canonical schedule that runs before each update.
pub struct PreUpdate;

/// Label of the canonical per-frame update schedule.
pub struct Update;

/// Label of the canonical render schedule; it stays on the main thread.
pub struct Render;

pub const STARTUP_SINGLE_THREADED_LABEL: u64 = 0;

pub const STARTUP_LABEL: u64 = 1;

pub const PRE_UPDATE_LABEL: u64 = 2;

pub const UPDATE_LABEL: u64 = 3;

pub const RENDER_LABEL: u64 = 4;

impl ScheduleLabel for StartupSingleThreaded {
    open spec fn label_spec(&self) -> u64 {
        STARTUP_SINGLE_THREADED_LABEL
    }

    fn label(&self) -> u64 {
        STARTUP_SINGLE_THREADED_LABEL
    }
}

impl ScheduleLabel for Startup {
    open spec fn label_spec(&self) -> u64 {
        STARTUP_LABEL
    }

    fn label(&self) -> u64 {
        STARTUP_LABEL
    }
}

impl ScheduleLabel for PreUpdate {
    open spec fn label_spec(&self) -> u64 {
        PRE_UPDATE_LABEL
    }

    fn label(&self) -> u64 {
        PRE_UPDATE_LABEL
    }
}

impl ScheduleLabel for Update {
    open spec fn label_spec(&self) -> u64 {
        UPDATE_LABEL
    }

    fn label(&self) -> u64 {
        UPDATE_LABEL
    }
}

impl ScheduleLabel for Render {
    open spec fn label_spec(&self) -> u64 {
        RENDER_LABEL
    }

    fn label(&self) -> u64 {
        RENDER_LABEL
    }
}

/// The model of a built or half-built core: the world and the registered
/// schedules.
#[verifier::ext_equal]
pub ghost struct EcsModel<T, A> {
    pub world: WorldModel<T>,
    pub schedules: Map<u64, ScheduleModel<A>>,
}

/// The schedules every builder starts out with: the five canonical ones,
/// each empty, with the startup-single-threaded and render schedules pinned
/// to the calling thread.
pub open spec fn canonical_schedules<A>() -> Map<u64, ScheduleModel<A>> {
    map![
        STARTUP_SINGLE_THREADED_LABEL => ScheduleModel {
            executor_kind: ExecutorKind::SingleThreaded,
            systems: Seq::<crate::schedule::SystemModel<A>>::empty(),
        },
        STARTUP_LABEL => ScheduleModel {
            executor_kind: ExecutorKind::MultiThreaded,
            systems: Seq::<crate::schedule::SystemModel<A>>::empty(),
        },
        PRE_UPDATE_LABEL => ScheduleModel {
            executor_kind: ExecutorKind::MultiThreaded,
            systems: Seq::<crate::schedule::SystemModel<A>>::empty(),
        },
        UPDATE_LABEL => ScheduleModel {
            executor_kind: ExecutorKind::MultiThreaded,
            systems: Seq::<crate::schedule::SystemModel<A>>::empty(),
        },
        RENDER_LABEL => ScheduleModel {
            executor_kind: ExecutorKind::SingleThreaded,
            systems: Seq::<crate::schedule::SystemModel<A>>::empty(),
        },
    ]
}

/// Marker trait of the two builder phases.
pub trait EcsBuilderState {

}

/// The initial builder phase: resources, schedules, systems and plugins may
/// still be added, and no runner is assigned yet.
pub struct Incomplete;

impl EcsBuilderState for Incomplete {

}

/// The terminal builder phase, holding the assigned runner. No configuration
/// method is defined for a builder in this phase — a further `add_system` or
/// `insert_resource` call is not expressible, rather than merely rejected at
/// run time — so the only moves left are `build` and `run`.
pub struct Complete<RN> {
    runner: RN,
}

impl<RN> EcsBuilderState for Complete<RN> {

}

/// A builder that accumulates resources, schedules, systems and plugins, and
/// transitions exactly once from the `Incomplete` to the `Complete` phase
/// when a runner is assigned. The phase lives in the type, so the protocol —
/// configure, then assign a runner, then build or run — is enforced at
/// compile time.
pub struct EcsBuilder<T, A, E: EcsBuilderState> {
    world: World<T>,
    schedules: ScheduleRegistry<A>,
    state: E,
}

impl<T, A, E: EcsBuilderState> View for EcsBuilder<T, A, E> {
    type V = EcsModel<T, A>;

    closed spec fn view(&self) -> EcsModel<T, A> {
        EcsModel { world: self.world@, schedules: self.schedules@ }
    }
}

impl<T, A> EcsBuilder<T, A, Incomplete> {
    /// A builder over an empty world, with the five canonical schedules
    /// pre-registered and no runner assigned.
    pub fn new() -> (b: EcsBuilder<T, A, Incomplete>)
        ensures
            b@.world.resources == Map::<u64, T>::empty(),
            b@.world.entities == Seq::<Map<u64, T>>::empty(),
            b@.schedules == canonical_schedules::<A>(),
            registry_wf(b@.schedules),
    {
        let mut schedules = ScheduleRegistry::<A>::new();
        let mut startup_st = Schedule::new();
        startup_st.set_executor_kind(ExecutorKind::SingleThreaded);
        let r0 = schedules.add_schedule(STARTUP_SINGLE_THREADED_LABEL, startup_st);
        let r1 = schedules.add_schedule(STARTUP_LABEL, Schedule::new());
        let r2 = schedules.add_schedule(PRE_UPDATE_LABEL, Schedule::new());
        let r3 = schedules.add_schedule(UPDATE_LABEL, Schedule::new());
        let mut render = Schedule::new();
        render.set_executor_kind(ExecutorKind::SingleThreaded);
        let r4 = schedules.add_schedule(RENDER_LABEL, render);
        proof {
            assert(r0 is Ok && r1 is Ok && r2 is Ok && r3 is Ok && r4 is Ok);
            assert(schedules@ =~= canonical_schedules::<A>());
        }
        EcsBuilder { world: World::new(), schedules, state: Incomplete }
    }

    /// Assigns the runner and moves to the `Complete` phase, after which no
    /// further configuration is expressible.
    pub fn set_runner<RN>(self, runner: RN) -> (b: EcsBuilder<T, A, Complete<RN>>)
        ensures
            b@ == self@,
            b.runner_spec() == runner,
    {
        EcsBuilder { world: self.world, schedules: self.schedules, state: Complete { runner } }
    }

    /// Stores `value` as the singleton resource under `key` in the world
    /// being built, silently overwriting any earlier value under the key.
    pub fn insert_resource(self, key: u64, value: T) -> (b: EcsBuilder<T, A, Incomplete>)
        ensures
            b@.world.resources == self@.world.resources.insert(key, value),
            b@.world.entities == self@.world.entities,
            b@.schedules == self@.schedules,
    {
        let mut this = self;
        this.world.insert_resource(key, value);
        this
    }

    /// Stores a resource that must never leave the thread the world is
    /// driven from. This store is owned by a single thread, so such a value
    /// is held exactly like any other resource.
    pub fn insert_non_send_resource(self, key: u64, value: T) -> (b: EcsBuilder<
        T,
        A,
        Incomplete,
    >)
        ensures
            b@.world.resources == self@.world.resources.insert(key, value),
            b@.world.entities == self@.world.entities,
            b@.schedules == self@.schedules,
    {
        let mut this = self;
        this.world.insert_resource(key, value);
        this
    }

    /// Applies `plugin` to this builder: plugin application is ordinary
    /// function composition in declaration order. A plugin receives and
    /// returns an `Incomplete` builder, so it can never assign the runner or
    /// finalize the pipeline. The contract says the result is exactly an
    /// outcome of the plugin's `build` hook on this very builder — nothing is
    /// added, dropped or altered around the hook — so whatever a plugin's
    /// implementation ensures of `build` carries over to `add_plugin`, and a
    /// chain of `add_plugin` calls is the composition of the hooks.
    pub fn add_plugin<P: Plugin<T, A>>(self, plugin: P) -> (r: Result<
        EcsBuilder<T, A, Incomplete>,
        EcsError,
    >)
        ensures
            call_ensures(P::build, (&plugin, self), r),
    {
        plugin.build(self)
    }

    /// Registers `schedule` under `label`. A duplicate label is a detectable
    /// failure; the first registration wins (see
    /// `ScheduleRegistry::add_schedule`).
    pub fn add_schedule<L: ScheduleLabel>(self, schedule: Schedule<A>, label: L) -> (r: Result<
        EcsBuilder<T, A, Incomplete>,
        EcsError,
    >)
        ensures
            match r {
                Ok(b) => {
                    &&& !self@.schedules.contains_key(label.label_spec())
                    &&& b@.schedules == self@.schedules.insert(label.label_spec(), schedule@)
                    &&& b@.world == self@.world
                    &&& (registry_wf(self@.schedules) && schedule@.wf() ==> registry_wf(
                        b@.schedules,
                    ))
                },
                Err(e) => {
                    &&& self@.schedules.contains_key(label.label_spec())
                    &&& e == EcsError::DuplicateScheduleLabel
                },
            },
    {
        let mut this = self;
        let ghost pre = this@;
        match this.schedules.add_schedule(label.label(), schedule) {
            Ok(()) => {
                proof {
                    if registry_wf(pre.schedules) && schedule@.wf() {
                        assert forall|l: u64| this@.schedules.contains_key(l) implies (
                        #[trigger] this@.schedules[l]).wf() by {
                            if l != label.label_spec() {
                                assert(pre.schedules.contains_key(l));
                            }
                        }
                    }
                }
                Ok(this)
            },
            Err(e) => Err(e),
        }
    }

    /// Appends `system` to the schedule registered under `label`.
    /// Referencing an unregistered label, reusing a system name, or naming
    /// an unknown dependency is a detectable failure (see
    /// `ScheduleRegistry::add_system`).
    pub fn add_system<L: ScheduleLabel>(self, system: SystemConfig<A>, label: L) -> (r: Result<
        EcsBuilder<T, A, Incomplete>,
        EcsError,
    >)
        ensures
            match r {
                Ok(b) => {
                    &&& self@.schedules.contains_key(label.label_spec())
                    &&& !self@.schedules[label.label_spec()].has_system(system@.name)
                    &&& (forall|k: int|
                        0 <= k < system@.deps.len()
                            ==> self@.schedules[label.label_spec()].has_system(
                            #[trigger] system@.deps[k],
                        ))
                    &&& b@.schedules == self@.schedules.insert(
                        label.label_spec(),
                        ScheduleModel {
                            executor_kind: self@.schedules[label.label_spec()].executor_kind,
                            systems: self@.schedules[label.label_spec()].systems.push(system@),
                        },
                    )
                    &&& b@.world == self@.world
                    &&& (registry_wf(self@.schedules) ==> registry_wf(b@.schedules))
                },
                Err(e) => {
                    if !self@.schedules.contains_key(label.label_spec()) {
                        e == EcsError::ScheduleNotFound
                    } else if self@.schedules[label.label_spec()].has_system(system@.name) {
                        e == EcsError::DuplicateSystemName
                    } else {
                        &&& e == EcsError::UnknownDependency
                        &&& exists|k: int|
                            0 <= k < system@.deps.len()
                                && !self@.schedules[label.label_spec()].has_system(
                                #[trigger] system@.deps[k],
                            )
                    }
                },
            },
    {
        let mut this = self;
        match this.schedules.add_system(label.label(), system) {
            Ok(()) => Ok(this),
            Err(e) => Err(e),
        }
    }
}

impl<T, A, RN> EcsBuilder<T, A, Complete<RN>> {
    /// The runner assigned by `set_runner`.
    pub closed spec fn runner_spec(&self) -> RN {
        self.state.runner
    }

    /// Materializes the runnable core: the world and the schedule registry
    /// are bundled, irreversibly, with the assigned runner. The builder is
    /// consumed; nothing can be configured afterwards.
    pub fn build(self) -> (e: Ecs<T, A, RN>)
        ensures
            e@ == self@,
            e.runner_spec() == self.runner_spec(),
    {
        Ecs { world: self.world, schedules: self.schedules, runner: self.state.runner }
    }

    /// Builds and immediately hands the world and schedules to the runner.
    pub fn run(self) where RN: Runner<T, A> {
        self.build().run();
    }
}

/// A built, runnable core: a world, the registered schedules, and the runner
/// that owns the event loop and decides when each schedule executes.
pub struct Ecs<T, A, RN> {
    world: World<T>,
    schedules: ScheduleRegistry<A>,
    runner: RN,
}

impl<T, A, RN> View for Ecs<T, A, RN> {
    type V = EcsModel<T, A>;

    closed spec fn view(&self) -> EcsModel<T, A> {
        EcsModel { world: self.world@, schedules: self.schedules@ }
    }
}

impl<T, A, RN> Ecs<T, A, RN> {
    /// The runner this core was built with.
    pub closed spec fn runner_spec(&self) -> RN {
        self.runner
    }

    /// Hands the world and the schedule registry to the runner, consuming
    /// the core. The runner drives the event loop from here on.
    pub fn run(self) where RN: Runner<T, A> {
        let Ecs { world, schedules, runner } = self;
        runner.run(world, schedules);
    }
}

/// The externally supplied entry point that owns the built world: it runs
/// the event loop and invokes `ScheduleRegistry::run_schedule` for each
/// schedule when it sees fit. Library users implement this.
pub trait Runner<T, A>: Sized {
    /// Takes ownership of the world and schedules and drives them.
    fn run(self, world: World<T>, schedules: ScheduleRegistry<A>);
}

/// Two resource insertions under distinct keys yield the same resource map
/// in either order. This and the two lemmas below state the pairwise
/// commutations behind the builder's contracts; `lemma_plugin_ops_commute`
/// lifts them to whole plugins, as sequences of builder operations.
pub proof fn lemma_insert_resource_commutes<T>(m: Map<u64, T>, k1: u64, v1: T, k2: u64, v2: T)
    requires
        k1 != k2,
    ensures
        m.insert(k1, v1).insert(k2, v2) == m.insert(k2, v2).insert(k1, v1),
{
    assert(m.insert(k1, v1).insert(k2, v2) =~= m.insert(k2, v2).insert(k1, v1));
}

/// Two schedule registrations under distinct labels yield the same registry
/// in either order, and registering under one label does not affect whether
/// registration under the other succeeds.
pub proof fn lemma_add_schedule_commutes<A>(
    m: Map<u64, ScheduleModel<A>>,
    l1: u64,
    s1: ScheduleModel<A>,
    l2: u64,
    s2: ScheduleModel<A>,
)
    requires
        l1 != l2,
    ensures
        m.insert(l1, s1).insert(l2, s2) == m.insert(l2, s2).insert(l1, s1),
        m.insert(l1, s1).contains_key(l2) == m.contains_key(l2),
{
    assert(m.insert(l1, s1).insert(l2, s2) =~= m.insert(l2, s2).insert(l1, s1));
}

/// Two system additions into schedules under distinct labels yield the same
/// registry in either order, and adding into one schedule does not affect
/// what the other schedule holds — so the success conditions of the other
/// addition (label known, system name fresh, dependencies resolvable) are
/// unchanged too.
pub proof fn lemma_add_system_commutes<A>(
    m: Map<u64, ScheduleModel<A>>,
    l1: u64,
    s1: crate::schedule::SystemModel<A>,
    l2: u64,
    s2: crate::schedule::SystemModel<A>,
)
    requires
        l1 != l2,
        m.contains_key(l1),
        m.contains_key(l2),
    ensures
        m.insert(l1, ScheduleModel { executor_kind: m[l1].executor_kind, systems: m[l1].systems.push(s1) })[l2] == m[l2],
        ({
            let first = m.insert(
                l1,
                ScheduleModel { executor_kind: m[l1].executor_kind, systems: m[l1].systems.push(s1) },
            );
            let one_then_two = first.insert(
                l2,
                ScheduleModel {
                    executor_kind: first[l2].executor_kind,
                    systems: first[l2].systems.push(s2),
                },
            );
            let second = m.insert(
                l2,
                ScheduleModel { executor_kind: m[l2].executor_kind, systems: m[l2].systems.push(s2) },
            );
            let two_then_one = second.insert(
                l1,
                ScheduleModel {
                    executor_kind: second[l1].executor_kind,
                    systems: second[l1].systems.push(s1),
                },
            );
            one_then_two == two_then_one
        }),
{
    let first = m.insert(
        l1,
        ScheduleModel { executor_kind: m[l1].executor_kind, systems: m[l1].systems.push(s1) },
    );
    let one_then_two = first.insert(
        l2,
        ScheduleModel { executor_kind: first[l2].executor_kind, systems: first[l2].systems.push(s2) },
    );
    let second = m.insert(
        l2,
        ScheduleModel { executor_kind: m[l2].executor_kind, systems: m[l2].systems.push(s2) },
    );
    let two_then_one = second.insert(
        l1,
        ScheduleModel { executor_kind: second[l1].executor_kind, systems: second[l1].systems.push(s1) },
    );
    assert(one_then_two =~= two_then_one);
}

/// One primitive builder mutation, as a plugin's `build` performs them. The
/// interpretation of each operation (`apply_op`) restates, over models, the
/// contracts of `insert_resource`, `add_schedule` and `add_system`.
pub ghost enum BuilderOp<T, A> {
    InsertResource { key: u64, value: T },
    AddSchedule { label: u64, schedule: ScheduleModel<A> },
    AddSystem { label: u64, system: crate::schedule::SystemModel<A> },
}

impl<T, A> BuilderOp<T, A> {
    /// The resource keys this operation touches.
    pub open spec fn resource_keys(self) -> Set<u64> {
        match self {
            BuilderOp::InsertResource { key, .. } => Set::empty().insert(key),
            _ => Set::empty(),
        }
    }

    /// The schedule labels this operation touches.
    pub open spec fn labels(self) -> Set<u64> {
        match self {
            BuilderOp::AddSchedule { label, .. } => Set::empty().insert(label),
            BuilderOp::AddSystem { label, .. } => Set::empty().insert(label),
            _ => Set::empty(),
        }
    }

    /// Whether this operation and `other` touch no common resource key and
    /// no common schedule label.
    pub open spec fn disjoint_with(self, other: BuilderOp<T, A>) -> bool {
        self.resource_keys().disjoint(other.resource_keys()) && self.labels().disjoint(
            other.labels(),
        )
    }
}

/// What one builder operation does to the model, or `None` where the builder
/// reports the corresponding configuration error.
pub open spec fn apply_op<T, A>(m: EcsModel<T, A>, op: BuilderOp<T, A>) -> Option<EcsModel<T, A>> {
    match op {
        BuilderOp::InsertResource { key, value } => Some(
            EcsModel {
                world: WorldModel {
                    resources: m.world.resources.insert(key, value),
                    entities: m.world.entities,
                },
                schedules: m.schedules,
            },
        ),
        BuilderOp::AddSchedule { label, schedule } => if m.schedules.contains_key(label) {
            None
        } else {
            Some(EcsModel { world: m.world, schedules: m.schedules.insert(label, schedule) })
        },
        BuilderOp::AddSystem { label, system } => if !m.schedules.contains_key(label) {
            None
        } else if m.schedules[label].has_system(system.name) {
            None
        } else if exists|k: int|
            0 <= k < system.deps.len() && !m.schedules[label].has_system(
                #[trigger] system.deps[k],
            ) {
            None
        } else {
            Some(
                EcsModel {
                    world: m.world,
                    schedules: m.schedules.insert(
                        label,
                        ScheduleModel {
                            executor_kind: m.schedules[label].executor_kind,
                            systems: m.schedules[label].systems.push(system),
                        },
                    ),
                },
            )
        },
    }
}

/// `apply_op`, lifted over an already-failed configuration.
pub open spec fn apply_op_opt<T, A>(m: Option<EcsModel<T, A>>, op: BuilderOp<T, A>) -> Option<
    EcsModel<T, A>,
> {
    match m {
        None => None,
        Some(m2) => apply_op(m2, op),
    }
}

/// What a sequence of builder operations — a plugin, or several plugins
/// applied in declaration order — does to the model: the operations apply
/// left to right, and the first configuration error is final.
pub open spec fn apply_ops<T, A>(
    m: Option<EcsModel<T, A>>,
    ops: Seq<BuilderOp<T, A>>,
) -> Option<EcsModel<T, A>>
    decreases ops.len(),
{
    if ops.len() <= 0 {
        m
    } else {
        apply_ops(apply_op_opt(m, ops.first()), ops.drop_first())
    }
}

/// Two disjoint operations commute: applied to the same configuration in
/// either order, they succeed in the same cases and yield the same model.
pub proof fn lemma_apply_op_commutes<T, A>(
    m: Option<EcsModel<T, A>>,
    op1: BuilderOp<T, A>,
    op2: BuilderOp<T, A>,
)
    requires
        op1.disjoint_with(op2),
    ensures
        apply_op_opt(apply_op_opt(m, op1), op2) == apply_op_opt(apply_op_opt(m, op2), op1),
{
    if m is Some {
        let m0 = m->Some_0;
        match (op1, op2) {
            (
                BuilderOp::InsertResource { key: k1, .. },
                BuilderOp::InsertResource { key: k2, .. },
            ) => {
                assert(k1 != k2) by {
                    assert(op1.resource_keys().contains(k1));
                }
                assert(apply_op_opt(apply_op_opt(m, op1), op2) =~~= apply_op_opt(
                    apply_op_opt(m, op2),
                    op1,
                ));
            },
            (BuilderOp::AddSchedule { label: l1, .. }, BuilderOp::AddSchedule { label: l2, .. })
                => {
                assert(l1 != l2) by {
                    assert(op1.labels().contains(l1));
                }
                assert(apply_op_opt(apply_op_opt(m, op1), op2) =~~= apply_op_opt(
                    apply_op_opt(m, op2),
                    op1,
                ));
            },
            (BuilderOp::AddSchedule { label: l1, .. }, BuilderOp::AddSystem { label: l2, .. })
                => {
                assert(l1 != l2) by {
                    assert(op1.labels().contains(l1));
                }
                assert(apply_op_opt(apply_op_opt(m, op1), op2) =~~= apply_op_opt(
                    apply_op_opt(m, op2),
                    op1,
                ));
            },
            (BuilderOp::AddSystem { label: l1, .. }, BuilderOp::AddSchedule { label: l2, .. })
                => {
                assert(l1 != l2) by {
                    assert(op1.labels().contains(l1));
                }
                assert(apply_op_opt(apply_op_opt(m, op1), op2) =~~= apply_op_opt(
                    apply_op_opt(m, op2),
                    op1,
                ));
            },
            (BuilderOp::AddSystem { label: l1, .. }, BuilderOp::AddSystem { label: l2, .. }) => {
                assert(l1 != l2) by {
                    assert(op1.labels().contains(l1));
                }
                assert(apply_op_opt(apply_op_opt(m, op1), op2) =~~= apply_op_opt(
                    apply_op_opt(m, op2),
                    op1,
                ));
            },
            _ => {
                assert(apply_op_opt(apply_op_opt(m, op1), op2) =~~= apply_op_opt(
                    apply_op_opt(m, op2),
                    op1,
                ));
            },
        }
    }
}

/// A single operation disjoint from every operation of `ops` commutes past
/// the whole sequence.
pub proof fn lemma_op_commutes_past_ops<T, A>(
    m: Option<EcsModel<T, A>>,
    op: BuilderOp<T, A>,
    ops: Seq<BuilderOp<T, A>>,
)
    requires
        forall|j: int| 0 <= j < ops.len() ==> op.disjoint_with(#[trigger] ops[j]),
    ensures
        apply_ops(apply_op_opt(m, op), ops) == apply_op_opt(apply_ops(m, ops), op),
    decreases ops.len(),
{
    if ops.len() > 0 {
        lemma_apply_op_commutes(m, op, ops.first());
        lemma_op_commutes_past_ops(apply_op_opt(m, ops.first()), op, ops.drop_first());
    }
}

/// Applying a concatenation is applying the parts in turn.
pub proof fn lemma_apply_ops_append<T, A>(
    m: Option<EcsModel<T, A>>,
    s: Seq<BuilderOp<T, A>>,
    t: Seq<BuilderOp<T, A>>,
)
    ensures
        apply_ops(m, s + t) == apply_ops(apply_ops(m, s), t),
    decreases s.len(),
{
    if s.len() == 0 {
        assert(s + t =~= t);
    } else {
        assert((s + t).first() == s.first());
        assert((s + t).drop_first() =~= s.drop_first() + t);
        lemma_apply_ops_append(apply_op_opt(m, s.first()), s.drop_first(), t);
    }
}

/// Plugin composition commutes where the plugins' names are disjoint: if no
/// resource key and no schedule label is touched by operations of both `a`
/// and `b`, then applying `a` then `b` yields exactly the configuration of
/// applying `b` then `a` — the same resources, schedules and systems, and an
/// error in one order exactly when there is one in the other. Within each
/// sequence the order still matters, so each plugin's own internal
/// dependency needs are respected.
pub proof fn lemma_plugin_ops_commute<T, A>(
    m: Option<EcsModel<T, A>>,
    a: Seq<BuilderOp<T, A>>,
    b: Seq<BuilderOp<T, A>>,
)
    requires
        forall|i: int, j: int|
            0 <= i < a.len() && 0 <= j < b.len() ==> (#[trigger] a[i]).disjoint_with(
                #[trigger] b[j],
            ),
    ensures
        apply_ops(m, a + b) == apply_ops(m, b + a),
    decreases a.len(),
{
    if a.len() == 0 {
        assert(a + b =~= b);
        assert(b + a =~= b);
    } else {
        let x = a.first();
        let rest = a.drop_first();
        assert((a + b).first() == x);
        assert((a + b).drop_first() =~= rest + b);
        // Applying `a + b` is applying x, then `rest + b`; by induction the
        // tail commutes, and then x commutes past all of b.
        lemma_plugin_ops_commute(apply_op_opt(m, x), rest, b);
        assert(apply_ops(m, a + b) == apply_ops(apply_op_opt(m, x), b + rest));
        lemma_apply_ops_append(apply_op_opt(m, x), b, rest);
        lemma_op_commutes_past_ops(m, x, b);
        lemma_apply_ops_append(m, b, a);
        assert(apply_ops(apply_ops(m, b), a) == apply_ops(
            apply_op_opt(apply_ops(m, b), x),
            rest,
        ));
    }
}

/// A unit of builder mutation. Applying a plugin is a pure transformation of
/// an `Incomplete` builder, so a plugin can register resources, schedules
/// and systems, but can never assign the runner or finalize the pipeline. A
/// plugin must not assume any schedule exists beyond the canonical
/// pre-registered set unless it registers that schedule itself; adding a
/// system to an undeclared schedule surfaces the registry's missing-label
/// error.
pub trait Plugin<T, A>: Sized {
    /// Configures the core being built.
    fn build(&self, ecs_builder: EcsBuilder<T, A, Incomplete>) -> (r: Result<
        EcsBuilder<T, A, Incomplete>,
        EcsError,
    >);
}

} // verus!
