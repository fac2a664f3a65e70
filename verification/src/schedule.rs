//! Schedules and the schedule registry.
//!
//! A schedule is an ordered collection of named systems. A system may declare
//! dependencies by name; each dependency must already stand in the schedule
//! when the system is added, so declaration order is always a valid execution
//! order: a system runs only after all of its named dependencies have run in
//! the same invocation. The registry maps labels to schedules, one schedule
//! per label, and the first registration under a label wins.

use vstd::prelude::*;
use std::collections::HashMap;
use crate::ecs::EcsError;
use crate::world::{World, WorldModel};

verus! {

broadcast use vstd::std_specs::hash::group_hash_axioms;

/// How a schedule drives its systems. A single-threaded schedule runs its
/// systems strictly sequentially on the calling thread, in declaration
/// order; it is meant for work with thread affinity, such as window and
/// graphics-context setup. A multi-threaded schedule is allowed to fan
/// systems without a dependency between them out to workers, though this
/// implementation runs both kinds sequentially, which satisfies the ordering
/// guarantee of either kind.
#[derive(Clone, Copy, Debug, PartialEq, Eq, Structural)]
pub enum ExecutorKind {
    SingleThreaded,
    MultiThreaded,
}

/// The behavior of a system: a transformation of the world, given both as
/// executable code (`apply`) and as its specification (`apply_spec`). The
/// two must agree; the contract of `apply` demands it of every implementor.
/// This is the extension point through which library users supply what their
/// systems do.
pub trait SystemAction<T>: Sized {
    /// What applying this action does to the world, as a function of models.
    spec fn apply_spec(&self, w: WorldModel<T>) -> WorldModel<T>;

    /// Applies this action to the world.
    fn apply(&self, world: &mut World<T>)
        ensures
            final(world)@ == self.apply_spec(old(world)@),
    ;
}

/// A system action that stores a fixed value as the singleton resource
/// under a fixed key each time it runs — the simplest useful system, and a
/// worked example of the `SystemAction` contract.
pub struct InsertResource<T> {
    pub key: u64,
    pub value: T,
}

impl<T: Copy> SystemAction<T> for InsertResource<T> {
    open spec fn apply_spec(&self, w: WorldModel<T>) -> WorldModel<T> {
        WorldModel { resources: w.resources.insert(self.key, self.value), entities: w.entities }
    }

    fn apply(&self, world: &mut World<T>) {
        world.insert_resource(self.key, self.value);
    }
}

/// A system as registered into a schedule: a unit of behavior with a
/// declared name and the names of the systems it must run after.
pub struct SystemConfig<A> {
    pub name: u64,
    pub deps: Vec<u64>,
    pub action: A,
}

/// The model of a registered system.
#[verifier::ext_equal]
pub ghost struct SystemModel<A> {
    pub name: u64,
    pub deps: Seq<u64>,
    pub action: A,
}

impl<A> View for SystemConfig<A> {
    type V = SystemModel<A>;

    open spec fn view(&self) -> SystemModel<A> {
        SystemModel { name: self.name, deps: self.deps@, action: self.action }
    }
}

/// The model of a schedule: its executor kind and its systems in
/// declaration order.
#[verifier::ext_equal]
pub ghost struct ScheduleModel<A> {
    pub executor_kind: ExecutorKind,
    pub systems: Seq<SystemModel<A>>,
}

impl<A> ScheduleModel<A> {
    /// Whether some system of this schedule bears `name`.
    pub open spec fn has_system(self, name: u64) -> bool {
        exists|j: int| 0 <= j < self.systems.len() && self.systems[j].name == name
    }

    /// Whether some system earlier than position `i` bears `name`.
    pub open spec fn has_system_before(self, name: u64, i: int) -> bool {
        exists|j: int| 0 <= j < i && self.systems[j].name == name
    }

    /// Well-formedness: system names are unique, and every declared
    /// dependency names a system that stands earlier in declaration order.
    pub open spec fn wf(self) -> bool {
        &&& (forall|i: int, j: int|
            0 <= i < j < self.systems.len() ==> (#[trigger] self.systems[i].name)
                != (#[trigger] self.systems[j].name))
        &&& (forall|i: int, k: int|
            0 <= i < self.systems.len() && 0 <= k < self.systems[i].deps.len()
                ==> self.has_system_before(#[trigger] self.systems[i].deps[k], i))
    }
}

/// An ordered collection of named systems, executed together once per
/// invocation.
pub struct Schedule<A> {
    executor_kind: ExecutorKind,
    systems: Vec<SystemConfig<A>>,
}

impl<A> View for Schedule<A> {
    type V = ScheduleModel<A>;

    closed spec fn view(&self) -> ScheduleModel<A> {
        ScheduleModel {
            executor_kind: self.executor_kind,
            systems: self.systems@.map_values(|s: SystemConfig<A>| s@),
        }
    }
}

impl<A> Schedule<A> {
    /// An empty schedule; it may fan independent systems out to workers
    /// unless the executor kind is changed.
    pub fn new() -> (s: Schedule<A>)
        ensures
            s@.executor_kind == ExecutorKind::MultiThreaded,
            s@.systems == Seq::<SystemModel<A>>::empty(),
            s@.wf(),
    {
        let s = Schedule { executor_kind: ExecutorKind::MultiThreaded, systems: Vec::new() };
        proof {
            assert(s@.systems =~= Seq::<SystemModel<A>>::empty());
        }
        s
    }

    /// Fixes how this schedule drives its systems.
    pub fn set_executor_kind(&mut self, kind: ExecutorKind)
        ensures
            final(self)@.executor_kind == kind,
            final(self)@.systems == old(self)@.systems,
    {
        self.executor_kind = kind;
    }

    /// The executor kind this schedule was created or configured with.
    pub fn executor_kind(&self) -> (k: ExecutorKind)
        ensures
            k == self@.executor_kind,
    {
        self.executor_kind
    }

    /// The number of systems registered in this schedule.
    pub fn system_count(&self) -> (n: usize)
        ensures
            n == self@.systems.len(),
    {
        self.systems.len()
    }

    /// Whether some registered system bears `name`.
    fn contains_name(&self, name: u64) -> (r: bool)
        ensures
            r == self@.has_system(name),
    {
        let n = self.systems.len();
        let mut i: usize = 0;
        while i < n
            invariant
                i <= n,
                n == self@.systems.len(),
                forall|j: int| 0 <= j < i ==> self@.systems[j].name != name,
            decreases n - i,
        {
            if self.systems[i].name == name {
                proof {
                    assert(self@.systems[i as int].name == name);
                }
                return true;
            }
            i += 1;
        }
        false
    }

    /// Appends `system` to this schedule. Fails, leaving the schedule
    /// unchanged, when the name is already taken or when some declared
    /// dependency names no system registered so far.
    pub fn add_system(&mut self, system: SystemConfig<A>) -> (r: Result<(), EcsError>)
        ensures
            match r {
                Ok(()) => {
                    &&& !old(self)@.has_system(system@.name)
                    &&& (forall|k: int|
                        0 <= k < system@.deps.len() ==> old(self)@.has_system(
                            #[trigger] system@.deps[k],
                        ))
                    &&& final(self)@.executor_kind == old(self)@.executor_kind
                    &&& final(self)@.systems == old(self)@.systems.push(system@)
                    &&& (old(self)@.wf() ==> final(self)@.wf())
                },
                Err(e) => {
                    &&& final(self)@ == old(self)@
                    &&& if old(self)@.has_system(system@.name) {
                        e == EcsError::DuplicateSystemName
                    } else {
                        &&& e == EcsError::UnknownDependency
                        &&& exists|k: int|
                            0 <= k < system@.deps.len() && !old(self)@.has_system(
                                #[trigger] system@.deps[k],
                            )
                    }
                },
            },
    {
        if self.contains_name(system.name) {
            return Err(EcsError::DuplicateSystemName);
        }
        let nd = system.deps.len();
        let mut k: usize = 0;
        while k < nd
            invariant
                k <= nd,
                nd == system@.deps.len(),
                !self@.has_system(system@.name),
                forall|k2: int| 0 <= k2 < k ==> self@.has_system(#[trigger] system@.deps[k2]),
            decreases nd - k,
        {
            if !self.contains_name(system.deps[k]) {
                return Err(EcsError::UnknownDependency);
            }
            k += 1;
        }
        let ghost pre = self@;
        let ghost sys_model = system@;
        self.systems.push(system);
        proof {
            assert(final(self)@.systems =~= pre.systems.push(sys_model));
            if pre.wf() {
                let post = final(self)@;
                assert forall|i: int, kk: int|
                    0 <= i < post.systems.len() && 0 <= kk < post.systems[i].deps.len() implies post.has_system_before(
                    #[trigger] post.systems[i].deps[kk],
                    i,
                ) by {
                    if i < pre.systems.len() {
                        assert(pre.has_system_before(pre.systems[i].deps[kk], i));
                        let j = choose|j: int|
                            0 <= j < i && pre.systems[j].name == pre.systems[i].deps[kk];
                        assert(post.systems[j].name == post.systems[i].deps[kk]);
                    } else {
                        assert(post.systems[i] == sys_model);
                        assert(pre.has_system(sys_model.deps[kk]));
                        let j = choose|j: int|
                            0 <= j < pre.systems.len() && pre.systems[j].name
                                == sys_model.deps[kk];
                        assert(post.systems[j].name == post.systems[i].deps[kk]);
                    }
                }
            }
        }
        Ok(())
    }
}

/// The result of running a sequence of systems over a world, in order:
/// the left-to-right fold of their `apply_spec` transformations.
pub open spec fn run_systems_model<T, A: SystemAction<T>>(
    systems: Seq<SystemModel<A>>,
    w: WorldModel<T>,
) -> WorldModel<T>
    decreases systems.len(),
{
    if systems.len() <= 0 {
        w
    } else {
        run_systems_model(systems.drop_first(), systems.first().action.apply_spec(w))
    }
}

/// Folding one more system at the end of a run applies its action to the
/// result of running the earlier systems.
pub proof fn lemma_run_systems_push<T, A: SystemAction<T>>(
    systems: Seq<SystemModel<A>>,
    x: SystemModel<A>,
    w: WorldModel<T>,
)
    ensures
        run_systems_model(systems.push(x), w) == x.action.apply_spec(
            run_systems_model(systems, w),
        ),
    decreases systems.len(),
{
    if systems.len() == 0 {
        assert(systems.push(x).first() == x);
        assert(systems.push(x).drop_first() =~= Seq::<SystemModel<A>>::empty());
        assert(run_systems_model(systems.push(x), w) == run_systems_model(
            Seq::<SystemModel<A>>::empty(),
            x.action.apply_spec(w),
        ));
        assert(run_systems_model(Seq::<SystemModel<A>>::empty(), x.action.apply_spec(w))
            == x.action.apply_spec(w));
        assert(run_systems_model(systems, w) == w);
    } else {
        assert(systems.push(x).first() == systems.first());
        assert(systems.push(x).drop_first() =~= systems.drop_first().push(x));
        lemma_run_systems_push(systems.drop_first(), x, systems.first().action.apply_spec(w));
        assert(run_systems_model(systems.push(x), w) == run_systems_model(
            systems.drop_first().push(x),
            systems.first().action.apply_spec(w),
        ));
        assert(run_systems_model(systems, w) == run_systems_model(
            systems.drop_first(),
            systems.first().action.apply_spec(w),
        ));
    }
}

/// In a well-formed schedule, every declared dependency of the system at
/// position `i` resolves to a system that stands strictly earlier in
/// declaration order. Since `ScheduleRegistry::run_schedule` folds the
/// systems over the world in exactly declaration order, the effects of each
/// named dependency are applied before the dependent system runs, however
/// long the dependency chain.
pub proof fn lemma_declaration_order_respects_deps<A>(s: ScheduleModel<A>, i: int, k: int)
    requires
        s.wf(),
        0 <= i < s.systems.len(),
        0 <= k < s.systems[i].deps.len(),
    ensures
        exists|j: int| 0 <= j < i && s.systems[j].name == s.systems[i].deps[k],
{
    assert(s.has_system_before(s.systems[i].deps[k], i));
}

/// Whether every schedule of a registry model is well-formed.
pub open spec fn registry_wf<A>(m: Map<u64, ScheduleModel<A>>) -> bool {
    forall|label: u64| m.contains_key(label) ==> (#[trigger] m[label]).wf()
}

/// A mapping from schedule label to schedule, one schedule per label.
pub struct ScheduleRegistry<A> {
    schedules: HashMap<u64, Schedule<A>>,
}

impl<A> View for ScheduleRegistry<A> {
    type V = Map<u64, ScheduleModel<A>>;

    closed spec fn view(&self) -> Map<u64, ScheduleModel<A>> {
        self.schedules@.map_values(|s: Schedule<A>| s@)
    }
}

impl<A> ScheduleRegistry<A> {
    /// A registry with no schedules.
    pub fn new() -> (r: ScheduleRegistry<A>)
        ensures
            r@ == Map::<u64, ScheduleModel<A>>::empty(),
    {
        let r = ScheduleRegistry { schedules: HashMap::new() };
        proof {
            assert(r@ =~= Map::<u64, ScheduleModel<A>>::empty());
        }
        r
    }

    /// Whether a schedule is registered under `label`.
    pub fn contains(&self, label: u64) -> (r: bool)
        ensures
            r == self@.contains_key(label),
    {
        self.schedules.contains_key(&label)
    }

    /// Registers `schedule` under `label`. A duplicate label is a
    /// detectable failure that leaves the registry unchanged: the first
    /// registration wins, so systems already registered under the label are
    /// never silently discarded.
    pub fn add_schedule(&mut self, label: u64, schedule: Schedule<A>) -> (r: Result<(), EcsError>)
        ensures
            match r {
                Ok(()) => {
                    &&& !old(self)@.contains_key(label)
                    &&& final(self)@ == old(self)@.insert(label, schedule@)
                },
                Err(e) => {
                    &&& old(self)@.contains_key(label)
                    &&& e == EcsError::DuplicateScheduleLabel
                    &&& final(self)@ == old(self)@
                },
            },
    {
        if self.schedules.contains_key(&label) {
            Err(EcsError::DuplicateScheduleLabel)
        } else {
            self.schedules.insert(label, schedule);
            proof {
                assert(final(self)@ =~= old(self)@.insert(label, final(self)@[label]));
            }
            Ok(())
        }
    }

    /// Appends `system` to the schedule registered under `label`. Fails,
    /// leaving the registry unchanged, when the label is unknown, the system
    /// name is already taken in that schedule, or a declared dependency
    /// names no system registered so far in that schedule.
    pub fn add_system(&mut self, label: u64, system: SystemConfig<A>) -> (r: Result<(), EcsError>)
        ensures
            match r {
                Ok(()) => {
                    &&& old(self)@.contains_key(label)
                    &&& !old(self)@[label].has_system(system@.name)
                    &&& (forall|k: int|
                        0 <= k < system@.deps.len() ==> old(self)@[label].has_system(
                            #[trigger] system@.deps[k],
                        ))
                    &&& final(self)@ == old(self)@.insert(
                        label,
                        ScheduleModel {
                            executor_kind: old(self)@[label].executor_kind,
                            systems: old(self)@[label].systems.push(system@),
                        },
                    )
                },
                Err(e) => {
                    &&& final(self)@ == old(self)@
                    &&& if !old(self)@.contains_key(label) {
                        e == EcsError::ScheduleNotFound
                    } else if old(self)@[label].has_system(system@.name) {
                        e == EcsError::DuplicateSystemName
                    } else {
                        &&& e == EcsError::UnknownDependency
                        &&& exists|k: int|
                            0 <= k < system@.deps.len() && !old(self)@[label].has_system(
                                #[trigger] system@.deps[k],
                            )
                    }
                },
            },
            registry_wf(old(self)@) ==> registry_wf(final(self)@),
    {
        let mut schedule = match self.schedules.remove(&label) {
            Some(s) => s,
            None => {
                proof {
                    assert(final(self)@ =~= old(self)@);
                }
                return Err(EcsError::ScheduleNotFound);
            },
        };
        let ghost pre_sched = schedule@;
        let r = schedule.add_system(system);
        self.schedules.insert(label, schedule);
        proof {
            if r is Ok {
                assert(final(self)@ =~= old(self)@.insert(
                    label,
                    ScheduleModel {
                        executor_kind: pre_sched.executor_kind,
                        systems: pre_sched.systems.push(system@),
                    },
                ));
                if registry_wf(old(self)@) {
                    assert(pre_sched.wf());
                    assert forall|l: u64| final(self)@.contains_key(l) implies (
                    #[trigger] final(self)@[l]).wf() by {
                        if l != label {
                            assert(old(self)@.contains_key(l));
                        }
                    }
                }
            } else {
                assert(final(self)@ =~= old(self)@);
            }
        }
        r
    }

    /// Runs every system of the schedule registered under `label` exactly
    /// once, in declaration order, over `world`. Declaration order honors
    /// every declared dependency (see
    /// `lemma_declaration_order_respects_deps`), and in a single-threaded
    /// schedule it is also the deterministic execution order. Fails, leaving
    /// the world untouched, when no schedule is registered under `label`.
    pub fn run_schedule<T>(&self, label: u64, world: &mut World<T>) -> (r: Result<(), EcsError>)
        where A: SystemAction<T>
        ensures
            match r {
                Ok(()) => {
                    &&& self@.contains_key(label)
                    &&& final(world)@ == run_systems_model(self@[label].systems, old(world)@)
                },
                Err(e) => {
                    &&& !self@.contains_key(label)
                    &&& e == EcsError::ScheduleNotFound
                    &&& final(world)@ == old(world)@
                },
            },
    {
        let sched = match self.schedules.get(&label) {
            Some(s) => s,
            None => {
                return Err(EcsError::ScheduleNotFound);
            },
        };
        let ghost w0 = world@;
        let ghost systems = sched@.systems;
        proof {
            assert(sched@ == self@[label]);
        }
        let n = sched.systems.len();
        let mut i: usize = 0;
        while i < n
            invariant
                i <= n,
                n == systems.len(),
                systems == sched@.systems,
                world@ == run_systems_model(systems.take(i as int), w0),
            decreases n - i,
        {
            sched.systems[i].action.apply(world);
            proof {
                assert(systems.take(i + 1) =~= systems.take(i as int).push(systems[i as int]));
                lemma_run_systems_push(systems.take(i as int), systems[i as int], w0);
            }
            i += 1;
        }
        proof {
            assert(systems.take(n as int) =~= systems);
        }
        Ok(())
    }
}

} // verus!
