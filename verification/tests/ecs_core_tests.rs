//! Tests of the builder, the schedule registry, the world and plugin
//! composition.

use ecs_core::ecs::{
    EcsBuilder, EcsError, Incomplete, Plugin, Runner, ScheduleLabel, Startup, Update,
    STARTUP_LABEL, UPDATE_LABEL,
};
use ecs_core::schedule::{
    ExecutorKind, InsertResource, Schedule, ScheduleRegistry, SystemAction, SystemConfig,
};
use ecs_core::world::{World, WorldModel};

#[derive(Clone, Debug, PartialEq)]
enum AppRes {
    Log(Vec<u64>),
    Num(u64),
}

const LOG_KEY: u64 = 100;

/// A system action that appends its mark to the log resource.
struct Mark(u64);

impl SystemAction<AppRes> for Mark {
    // Specification-level item; it is never called at run time.
    fn apply_spec(&self, _w: WorldModel<AppRes>) -> WorldModel<AppRes> {
        unreachable!()
    }

    fn apply(&self, world: &mut World<AppRes>) {
        let mut log = match world.remove_resource(LOG_KEY) {
            Ok(AppRes::Log(v)) => v,
            _ => panic!("log resource missing"),
        };
        log.push(self.0);
        world.insert_resource(LOG_KEY, AppRes::Log(log));
    }
}

fn logged_world() -> World<AppRes> {
    let mut world: World<AppRes> = World::new();
    world.insert_resource(LOG_KEY, AppRes::Log(Vec::new()));
    world
}

fn log_of(world: &World<AppRes>) -> Vec<u64> {
    match world.get_resource(LOG_KEY) {
        Ok(AppRes::Log(v)) => v.clone(),
        _ => panic!("log resource missing"),
    }
}

#[test]
fn resource_overwrite_and_remove() {
    let mut world: World<AppRes> = World::new();
    world.insert_resource(1, AppRes::Num(10));
    world.insert_resource(1, AppRes::Num(20));
    assert_eq!(world.get_resource(1), Ok(&AppRes::Num(20)));
    assert!(world.contains_resource(1));
    assert_eq!(world.remove_resource(1), Ok(AppRes::Num(20)));
    assert_eq!(world.get_resource(1), Err(EcsError::ResourceNotFound));
    assert!(!world.contains_resource(1));
    assert_eq!(world.remove_resource(1), Err(EcsError::ResourceNotFound));
}

#[test]
fn entities_and_components() {
    let mut world: World<AppRes> = World::new();
    assert_eq!(world.entity_count(), 0);
    let e0 = world.spawn();
    let e1 = world.spawn();
    assert_eq!((e0, e1), (0, 1));
    assert_eq!(world.entity_count(), 2);
    world.insert_component(e1, 5, AppRes::Num(7)).unwrap();
    assert_eq!(world.get_component(e1, 5), Ok(&AppRes::Num(7)));
    assert_eq!(world.get_component(e0, 5), Err(EcsError::ComponentNotFound));
    assert_eq!(world.get_component(9, 5), Err(EcsError::EntityNotFound));
    assert_eq!(world.insert_component(9, 5, AppRes::Num(1)), Err(EcsError::EntityNotFound));
}

#[test]
fn duplicate_schedule_label_fails_and_first_registration_wins() {
    let mut reg: ScheduleRegistry<Mark> = ScheduleRegistry::new();
    reg.add_schedule(7, Schedule::new()).unwrap();
    reg.add_system(7, SystemConfig { name: 1, deps: Vec::new(), action: Mark(42) }).unwrap();

    let mut replacement = Schedule::new();
    replacement.set_executor_kind(ExecutorKind::SingleThreaded);
    assert_eq!(reg.add_schedule(7, replacement), Err(EcsError::DuplicateScheduleLabel));

    // The first registration won: its system is still there and still runs.
    let mut world = logged_world();
    reg.run_schedule(7, &mut world).unwrap();
    assert_eq!(log_of(&world), vec![42]);
}

#[test]
fn run_schedule_honors_three_chained_dependencies() {
    let mut reg: ScheduleRegistry<Mark> = ScheduleRegistry::new();
    reg.add_schedule(3, Schedule::new()).unwrap();
    reg.add_system(3, SystemConfig { name: 1, deps: Vec::new(), action: Mark(1) }).unwrap();
    reg.add_system(3, SystemConfig { name: 2, deps: vec![1], action: Mark(2) }).unwrap();
    reg.add_system(3, SystemConfig { name: 3, deps: vec![2], action: Mark(3) }).unwrap();
    reg.add_system(3, SystemConfig { name: 4, deps: vec![3], action: Mark(4) }).unwrap();
    let mut world = logged_world();
    reg.run_schedule(3, &mut world).unwrap();
    assert_eq!(log_of(&world), vec![1, 2, 3, 4]);
}

#[test]
fn schedule_rejects_duplicate_names_and_unknown_dependencies() {
    let mut sched: Schedule<Mark> = Schedule::new();
    assert_eq!(sched.executor_kind(), ExecutorKind::MultiThreaded);
    sched.add_system(SystemConfig { name: 1, deps: Vec::new(), action: Mark(1) }).unwrap();
    assert_eq!(
        sched.add_system(SystemConfig { name: 1, deps: Vec::new(), action: Mark(9) }),
        Err(EcsError::DuplicateSystemName)
    );
    assert_eq!(
        sched.add_system(SystemConfig { name: 2, deps: vec![77], action: Mark(9) }),
        Err(EcsError::UnknownDependency)
    );
    assert_eq!(sched.system_count(), 1);
}

#[test]
fn registry_reports_unknown_labels() {
    let mut reg: ScheduleRegistry<Mark> = ScheduleRegistry::new();
    assert!(!reg.contains(9));
    assert_eq!(
        reg.add_system(9, SystemConfig { name: 1, deps: Vec::new(), action: Mark(1) }),
        Err(EcsError::ScheduleNotFound)
    );
    let mut world = logged_world();
    assert_eq!(reg.run_schedule(9, &mut world), Err(EcsError::ScheduleNotFound));
    assert_eq!(log_of(&world), Vec::<u64>::new());
}

#[test]
fn canonical_labels_are_distinct() {
    let labels = [
        ecs_core::ecs::StartupSingleThreaded.label(),
        Startup.label(),
        ecs_core::ecs::PreUpdate.label(),
        Update.label(),
        ecs_core::ecs::Render.label(),
    ];
    for i in 0..labels.len() {
        for j in 0..labels.len() {
            if i != j {
                assert_ne!(labels[i], labels[j]);
            }
        }
    }
    assert_eq!(Startup.label(), STARTUP_LABEL);
    assert_eq!(Update.label(), UPDATE_LABEL);
}

/// The runner of the end-to-end test: it drives the update schedule once and
/// checks that the two systems ran exactly once, dependency first.
struct OrderCheckRunner;

impl Runner<AppRes, Mark> for OrderCheckRunner {
    fn run(self, mut world: World<AppRes>, schedules: ScheduleRegistry<Mark>) {
        schedules.run_schedule(UPDATE_LABEL, &mut world).unwrap();
        assert_eq!(log_of(&world), vec![1, 2]);
    }
}

#[test]
fn end_to_end_update_schedule_records_order_exactly_once() {
    EcsBuilder::<AppRes, Mark, Incomplete>::new()
        .insert_resource(LOG_KEY, AppRes::Log(Vec::new()))
        .add_system(SystemConfig { name: 1, deps: Vec::new(), action: Mark(1) }, Update)
        .unwrap()
        .add_system(SystemConfig { name: 2, deps: vec![1], action: Mark(2) }, Update)
        .unwrap()
        .set_runner(OrderCheckRunner)
        .run();
}

#[test]
fn builder_rejects_duplicate_canonical_label() {
    let b = EcsBuilder::<AppRes, Mark, Incomplete>::new();
    match b.add_schedule(Schedule::new(), Update) {
        Ok(_) => panic!("duplicate canonical label was accepted"),
        Err(e) => assert_eq!(e, EcsError::DuplicateScheduleLabel),
    }
}

/// A label no builder registers.
struct Nowhere;

impl ScheduleLabel for Nowhere {
    // Specification-level item; it is never called at run time.
    fn label_spec(&self) -> u64 {
        999
    }

    fn label(&self) -> u64 {
        999
    }
}

#[test]
fn builder_add_system_to_unknown_schedule_fails() {
    let b = EcsBuilder::<AppRes, Mark, Incomplete>::new();
    match b.add_system(SystemConfig { name: 1, deps: Vec::new(), action: Mark(1) }, Nowhere) {
        Ok(_) => panic!("unknown label was accepted"),
        Err(e) => assert_eq!(e, EcsError::ScheduleNotFound),
    }
}

/// Registers a number resource and a marking system in the update schedule.
struct PluginA;

impl Plugin<AppRes, Mark> for PluginA {
    fn build(
        &self,
        ecs_builder: EcsBuilder<AppRes, Mark, Incomplete>,
    ) -> Result<EcsBuilder<AppRes, Mark, Incomplete>, EcsError> {
        ecs_builder
            .insert_resource(200, AppRes::Num(1))
            .add_system(SystemConfig { name: 10, deps: Vec::new(), action: Mark(10) }, Update)
    }
}

/// Registers a different number resource and a marking system in the startup
/// schedule; its names are disjoint from `PluginA`'s.
struct PluginB;

impl Plugin<AppRes, Mark> for PluginB {
    fn build(
        &self,
        ecs_builder: EcsBuilder<AppRes, Mark, Incomplete>,
    ) -> Result<EcsBuilder<AppRes, Mark, Incomplete>, EcsError> {
        ecs_builder
            .insert_resource(201, AppRes::Num(2))
            .add_system(SystemConfig { name: 11, deps: Vec::new(), action: Mark(11) }, Startup)
    }
}

/// What a runner can observe of a built core: the two plugin resources, and
/// the logs of the startup and update schedules.
fn observe(mut world: World<AppRes>, schedules: ScheduleRegistry<Mark>) -> (
    Option<AppRes>,
    Option<AppRes>,
    Vec<u64>,
    Vec<u64>,
) {
    let a = world.get_resource(200).ok().cloned();
    let b = world.get_resource(201).ok().cloned();
    world.insert_resource(LOG_KEY, AppRes::Log(Vec::new()));
    schedules.run_schedule(STARTUP_LABEL, &mut world).unwrap();
    let startup_log = log_of(&world);
    world.insert_resource(LOG_KEY, AppRes::Log(Vec::new()));
    schedules.run_schedule(UPDATE_LABEL, &mut world).unwrap();
    let update_log = log_of(&world);
    (a, b, startup_log, update_log)
}

struct ObserveRunner(std::rc::Rc<std::cell::Cell<Option<(Option<AppRes>, Option<AppRes>, Vec<u64>, Vec<u64>)>>>);

impl Runner<AppRes, Mark> for ObserveRunner {
    fn run(self, world: World<AppRes>, schedules: ScheduleRegistry<Mark>) {
        self.0.set(Some(observe(world, schedules)));
    }
}

#[test]
fn plugins_with_disjoint_names_commute() {
    let slot_ab = std::rc::Rc::new(std::cell::Cell::new(None));
    EcsBuilder::<AppRes, Mark, Incomplete>::new()
        .add_plugin(PluginA)
        .unwrap()
        .add_plugin(PluginB)
        .unwrap()
        .set_runner(ObserveRunner(slot_ab.clone()))
        .run();

    let slot_ba = std::rc::Rc::new(std::cell::Cell::new(None));
    EcsBuilder::<AppRes, Mark, Incomplete>::new()
        .add_plugin(PluginB)
        .unwrap()
        .add_plugin(PluginA)
        .unwrap()
        .set_runner(ObserveRunner(slot_ba.clone()))
        .run();

    let ab = slot_ab.take().unwrap();
    let ba = slot_ba.take().unwrap();
    assert_eq!(ab, ba);
    assert_eq!(ab.0, Some(AppRes::Num(1)));
    assert_eq!(ab.1, Some(AppRes::Num(2)));
    assert_eq!(ab.2, vec![11]);
    assert_eq!(ab.3, vec![10]);
}

#[test]
fn insert_resource_action_runs() {
    let mut reg: ScheduleRegistry<InsertResource<u64>> = ScheduleRegistry::new();
    reg.add_schedule(1, Schedule::new()).unwrap();
    reg.add_system(
        1,
        SystemConfig { name: 1, deps: Vec::new(), action: InsertResource { key: 5, value: 77 } },
    )
    .unwrap();
    let mut world: World<u64> = World::new();
    reg.run_schedule(1, &mut world).unwrap();
    assert_eq!(world.get_resource(5), Ok(&77));
}

#[test]
fn every_canonical_schedule_is_preregistered() {
    let b = EcsBuilder::<AppRes, Mark, Incomplete>::new();
    assert!(matches!(
        b.add_schedule(Schedule::new(), Startup),
        Err(EcsError::DuplicateScheduleLabel)
    ));
}
