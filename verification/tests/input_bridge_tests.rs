//! Tests of the input bridge, the event queue, the time resource and the
//! texture bookkeeping.

use ecs_core::common::{get_time, get_window_info, update_time_res, Time, WindowInfo};
use ecs_core::ecs::{EcsBuilder, EcsError, Incomplete, Runner};
use ecs_core::input::{
    bridge_process, get_input_states, process_input_event, take_input_events, Events, Input,
    InputEvent, InputPlugin, InputStates, KeySet, WindowEvent,
};
use ecs_core::schedule::ScheduleRegistry;
use ecs_core::texture::{find_loaded, register_texture, Texture, TextureType};
use ecs_core::world::World;
use ecs_core::{EngineResource, INPUT_EVENTS_KEY, INPUT_STATES_KEY, TIME_KEY, WINDOW_INFO_KEY};

const KEY_W: u32 = 87;
const KEY_A: u32 = 65;

fn input_world() -> World<EngineResource<u64>> {
    let mut world: World<EngineResource<u64>> = World::new();
    world.insert_resource(INPUT_EVENTS_KEY, EngineResource::InputEvents(Events::new()));
    world.insert_resource(INPUT_STATES_KEY, EngineResource::InputStates(InputStates::new()));
    world
}

#[test]
fn key_set_basics() {
    let mut keys = KeySet::new();
    assert_eq!(keys.len(), 0);
    keys.insert(KEY_W);
    keys.insert(KEY_W);
    keys.insert(KEY_A);
    assert_eq!(keys.len(), 2);
    assert!(keys.contains(KEY_W));
    assert!(keys.contains(KEY_A));
    keys.remove(KEY_W);
    assert!(!keys.contains(KEY_W));
    assert_eq!(keys.len(), 1);
    keys.remove(KEY_W);
    assert_eq!(keys.len(), 1);
}

#[test]
fn held_set_after_press_press_release() {
    let mut states = InputStates::new();
    bridge_process(&WindowEvent::KeyboardInput { key: Some(KEY_W), pressed: true }, &mut states);
    bridge_process(&WindowEvent::KeyboardInput { key: Some(KEY_A), pressed: true }, &mut states);
    bridge_process(&WindowEvent::KeyboardInput { key: Some(KEY_W), pressed: false }, &mut states);
    assert!(states.keyholds.contains(KEY_A));
    assert!(!states.keyholds.contains(KEY_W));
    assert_eq!(states.keyholds.len(), 1);
}

#[test]
fn first_move_after_cursor_entered_reports_zero_delta() {
    let mut states = InputStates::new();
    let snap = bridge_process(&WindowEvent::CursorMoved { x: 100, y: 50 }, &mut states).unwrap();
    assert_eq!(snap.mouse_delta(), Some((0, 0)));

    let snap = bridge_process(&WindowEvent::CursorMoved { x: 110, y: 45 }, &mut states).unwrap();
    assert_eq!(snap.mouse_delta(), Some((10, -5)));

    bridge_process(&WindowEvent::CursorEntered, &mut states).unwrap();
    let snap = bridge_process(&WindowEvent::CursorMoved { x: 300, y: 200 }, &mut states).unwrap();
    assert_eq!(snap.mouse_pos, Some((300, 200)));
    assert_eq!(snap.prev_mouse_pos, Some((300, 200)));
    assert_eq!(snap.mouse_delta(), Some((0, 0)));
}

#[test]
fn key_snapshots_carry_pressed_and_released_keys() {
    let mut states = InputStates::new();
    let down = bridge_process(
        &WindowEvent::KeyboardInput { key: Some(KEY_W), pressed: true },
        &mut states,
    )
    .unwrap();
    assert!(down.keydowns.as_ref().unwrap().contains(KEY_W));
    assert!(down.keyups.is_none());
    let up = bridge_process(
        &WindowEvent::KeyboardInput { key: Some(KEY_W), pressed: false },
        &mut states,
    )
    .unwrap();
    assert!(up.keyups.as_ref().unwrap().contains(KEY_W));
    assert!(up.keydowns.is_none());
}

#[test]
fn ignored_events_emit_no_snapshot() {
    let mut states = InputStates::new();
    assert!(bridge_process(&WindowEvent::Other, &mut states).is_none());
    assert!(
        bridge_process(&WindowEvent::KeyboardInput { key: None, pressed: true }, &mut states)
            .is_none()
    );
}

#[test]
fn mouse_wheel_snapshot_carries_delta() {
    let mut states = InputStates::new();
    let snap = bridge_process(&WindowEvent::MouseWheel { delta: -3 }, &mut states).unwrap();
    assert_eq!(snap.mouse_scroll_delta, -3);
    assert_eq!(snap.mouse_pos, None);
}

#[test]
fn default_input_is_empty() {
    let input = Input::default();
    assert_eq!(input.mouse_pos, None);
    assert_eq!(input.prev_mouse_pos, None);
    assert_eq!(input.mouse_scroll_delta, 0);
    assert!(input.keydowns.is_none());
    assert!(input.keyups.is_none());
    assert_eq!(input.mouse_delta(), None);
}

#[test]
fn process_input_event_publishes_snapshots() {
    let mut world = input_world();
    process_input_event(
        &WindowEvent::KeyboardInput { key: Some(KEY_W), pressed: true },
        &mut world,
    )
    .unwrap();
    process_input_event(
        &WindowEvent::KeyboardInput { key: Some(KEY_A), pressed: true },
        &mut world,
    )
    .unwrap();
    process_input_event(
        &WindowEvent::KeyboardInput { key: Some(KEY_W), pressed: false },
        &mut world,
    )
    .unwrap();
    // An event that changes nothing publishes nothing.
    process_input_event(&WindowEvent::Other, &mut world).unwrap();

    let states = get_input_states(&world).unwrap();
    assert!(states.keyholds.contains(KEY_A));
    assert!(!states.keyholds.contains(KEY_W));
    assert_eq!(states.keyholds.len(), 1);

    let events = take_input_events(&mut world).unwrap();
    assert_eq!(events.len(), 3);
    assert!(events[0].0.keydowns.as_ref().unwrap().contains(KEY_W));
    assert!(events[1].0.keydowns.as_ref().unwrap().contains(KEY_A));
    assert!(events[2].0.keyups.as_ref().unwrap().contains(KEY_W));

    // The queue was left empty.
    let events = take_input_events(&mut world).unwrap();
    assert_eq!(events.len(), 0);
}

#[test]
fn process_input_event_needs_its_resources() {
    let mut world: World<EngineResource<u64>> = World::new();
    assert_eq!(
        process_input_event(&WindowEvent::CursorEntered, &mut world),
        Err(EcsError::ResourceNotFound)
    );
    // An ignored event succeeds even without resources.
    assert_eq!(process_input_event(&WindowEvent::Other, &mut world), Ok(()));

    // With only the queue, events that read the bridge state still fail ...
    world.insert_resource(INPUT_EVENTS_KEY, EngineResource::InputEvents(Events::new()));
    assert_eq!(
        process_input_event(&WindowEvent::CursorMoved { x: 1, y: 2 }, &mut world),
        Err(EcsError::ResourceNotFound)
    );
    // ... but a mouse wheel event does not read it.
    assert_eq!(process_input_event(&WindowEvent::MouseWheel { delta: 2 }, &mut world), Ok(()));
    let events = take_input_events(&mut world).unwrap();
    assert_eq!(events.len(), 1);
    assert_eq!(events[0].0.mouse_scroll_delta, 2);
}

#[test]
fn events_queue_basics() {
    let mut queue: Events<InputEvent> = Events::new();
    assert_eq!(queue.len(), 0);
    let mut input = Input::default();
    input.mouse_scroll_delta = 4;
    queue.send(InputEvent(input));
    assert_eq!(queue.len(), 1);
    assert_eq!(queue.get(0).unwrap().0.mouse_scroll_delta, 4);
    assert!(queue.get(1).is_none());
    queue.clear();
    assert_eq!(queue.len(), 0);
    assert!(queue.get(0).is_none());
}

/// The runner of the plugin test: it checks the two input resources exist.
struct InputCheckRunner;

impl Runner<EngineResource<u64>, u64> for InputCheckRunner {
    fn run(self, mut world: World<EngineResource<u64>>, _schedules: ScheduleRegistry<u64>) {
        let states = get_input_states(&world).unwrap();
        assert_eq!(states.keyholds.len(), 0);
        assert!(states.first_mouse);
        assert_eq!(states.curr_mouse_pos, (0, 0));
        let events = take_input_events(&mut world).unwrap();
        assert_eq!(events.len(), 0);
    }
}

#[test]
fn input_plugin_installs_fresh_resources() {
    EcsBuilder::<EngineResource<u64>, u64, Incomplete>::new()
        .add_plugin(InputPlugin)
        .unwrap()
        .set_runner(InputCheckRunner)
        .build()
        .run();
}

#[test]
fn time_resource_updates_exactly() {
    let mut world: World<EngineResource<u64>> = World::new();
    assert_eq!(update_time_res(100, &mut world), Err(EcsError::ResourceNotFound));
    world.insert_resource(TIME_KEY, EngineResource::Time(Time { current: 0, delta: 0 }));
    update_time_res(1000, &mut world).unwrap();
    assert_eq!(get_time(&world).unwrap(), &Time { current: 1000, delta: 1000 });
    update_time_res(1500, &mut world).unwrap();
    assert_eq!(get_time(&world).unwrap(), &Time { current: 1500, delta: 500 });
    // A clock that reports an earlier instant yields a zero delta.
    update_time_res(1400, &mut world).unwrap();
    assert_eq!(get_time(&world).unwrap(), &Time { current: 1400, delta: 0 });
}

#[test]
fn window_info_accessor() {
    let mut world: World<EngineResource<u64>> = World::new();
    assert_eq!(get_window_info(&world), Err(EcsError::ResourceNotFound));
    world.insert_resource(
        WINDOW_INFO_KEY,
        EngineResource::WindowInfo(WindowInfo { width: 800, height: 600 }),
    );
    assert_eq!(get_window_info(&world).unwrap(), &WindowInfo { width: 800, height: 600 });
}

#[test]
fn texture_cache_reuses_loaded_files() {
    let mut loaded: Vec<Texture> = Vec::new();
    let path = String::from("assets/crate_diffuse.png");
    assert!(find_loaded(&loaded, &path).is_none());

    let idx = register_texture(
        &mut loaded,
        Texture { id: 11, tex_type: TextureType::Diffuse, filepath: String::from("assets/crate_diffuse.png") },
    );
    assert_eq!(idx, 0);
    let idx2 = register_texture(
        &mut loaded,
        Texture { id: 12, tex_type: TextureType::Specular, filepath: String::from("assets/crate_specular.png") },
    );
    assert_eq!(idx2, 1);

    assert_eq!(find_loaded(&loaded, &path), Some(0));
    assert_eq!(find_loaded(&loaded, &String::from("assets/crate_specular.png")), Some(1));
    assert!(find_loaded(&loaded, &String::from("assets/other.png")).is_none());
    assert_eq!(loaded[0].id, 11);
    assert!(matches!(loaded[1].tex_type, TextureType::Specular));
}
