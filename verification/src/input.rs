//! The input bridge: it translates raw window events into a structured
//! input snapshot and keeps the persistent held-key state.
//!
//! Per tracked key the bridge is a two-state machine: up, then held after a
//! press event, then up again after a release event. The held-key set
//! persists across frames; each snapshot is transient, one per processed
//! event. A known, deliberate divergence: if the window loses focus while a
//! key is physically held, no release event arrives and the key stays held
//! until an explicit release is observed; callers that want focus loss to
//! release all keys must do so themselves.

use vstd::prelude::*;
use crate::ecs::{EcsBuilder, EcsError, EcsModel, Incomplete, Plugin};
use crate::world::{World, WorldModel};
use crate::{EngineResource, INPUT_EVENTS_KEY, INPUT_STATES_KEY};

verus! {

/// A set of key codes, backed by a duplicate-free vector.
pub struct KeySet {
    keys: Vec<u32>,
}

impl KeySet {
    #[verifier::type_invariant]
    spec fn inv(self) -> bool {
        self.keys@.no_duplicates()
    }
}

impl View for KeySet {
    type V = Set<u32>;

    closed spec fn view(&self) -> Set<u32> {
        self.keys@.to_set()
    }
}

impl KeySet {
    /// The empty key set.
    pub fn new() -> (s: KeySet)
        ensures
            s@ == Set::<u32>::empty(),
    {
        let s = KeySet { keys: Vec::new() };
        proof {
            assert(s@ =~= Set::<u32>::empty());
        }
        s
    }

    /// Position of `key` in the backing vector, if present.
    fn position(&self, key: u32) -> (r: Option<usize>)
        ensures
            match r {
                Some(i) => i < self.keys@.len() && self.keys@[i as int] == key,
                None => !self@.contains(key),
            },
    {
        let n = self.keys.len();
        let mut i: usize = 0;
        while i < n
            invariant
                i <= n,
                n == self.keys@.len(),
                forall|j: int| 0 <= j < i ==> self.keys@[j] != key,
            decreases n - i,
        {
            if self.keys[i] == key {
                return Some(i);
            }
            i += 1;
        }
        None
    }

    /// Whether `key` is in the set.
    pub fn contains(&self, key: u32) -> (r: bool)
        ensures
            r == self@.contains(key),
    {
        match self.position(key) {
            Some(_) => true,
            None => false,
        }
    }

    /// Adds `key` to the set.
    pub fn insert(&mut self, key: u32)
        ensures
            final(self)@ == old(self)@.insert(key),
    {
        proof {
            use_type_invariant(&*self);
        }
        match self.position(key) {
            Some(i) => {
                proof {
                    assert(old(self).keys@.contains(key)) by {
                        assert(old(self).keys@[i as int] == key);
                    }
                    assert(self@ =~= old(self)@.insert(key));
                }
            },
            None => {
                let mut v: Vec<u32> = Vec::new();
                core::mem::swap(&mut v, &mut self.keys);
                v.push(key);
                core::mem::swap(&mut v, &mut self.keys);
                proof {
                    let pre = old(self).keys@;
                    let post = self.keys@;
                    assert(post =~= pre.push(key));
                    assert(!pre.contains(key));
                    assert forall|j1: int, j2: int|
                        0 <= j1 < j2 < post.len() implies post[j1] != post[j2] by {
                        if j2 == pre.len() {
                            assert(post[j1] == pre[j1]);
                            assert(pre[j1] != key);
                        }
                    }
                    assert forall|x: u32| post.contains(x) implies (pre.contains(x) || x
                        == key) by {
                        let j = choose|j: int| 0 <= j < post.len() && post[j] == x;
                        if j < pre.len() {
                            assert(pre[j] == x);
                        }
                    }
                    assert forall|x: u32| pre.contains(x) implies post.contains(x) by {
                        let j = choose|j: int| 0 <= j < pre.len() && pre[j] == x;
                        assert(post[j] == x);
                    }
                    assert(post.contains(key)) by {
                        assert(post[pre.len() as int] == key);
                    }
                    assert(self@ =~= old(self)@.insert(key));
                }
            },
        }
    }

    /// Removes `key` from the set.
    pub fn remove(&mut self, key: u32)
        ensures
            final(self)@ == old(self)@.remove(key),
    {
        proof {
            use_type_invariant(&*self);
        }
        match self.position(key) {
            Some(i) => {
                let mut v: Vec<u32> = Vec::new();
                core::mem::swap(&mut v, &mut self.keys);
                v.remove(i);
                core::mem::swap(&mut v, &mut self.keys);
                proof {
                    let pre = old(self).keys@;
                    let post = self.keys@;
                    assert(post =~= pre.subrange(0, i as int) + pre.subrange(
                        i + 1,
                        pre.len() as int,
                    ));
                    assert forall|j1: int, j2: int|
                        0 <= j1 < j2 < post.len() implies post[j1] != post[j2] by {
                        let m1: int = if j1 < i { j1 } else { j1 + 1 };
                        let m2: int = if j2 < i { j2 } else { j2 + 1 };
                        assert(post[j1] == pre[m1] && post[j2] == pre[m2]);
                    }
                    assert forall|x: u32| self@.contains(x) implies old(self)@.remove(
                        key,
                    ).contains(x) by {
                        let j = choose|j: int| 0 <= j < post.len() && post[j] == x;
                        let m: int = if j < i { j } else { j + 1 };
                        assert(pre[m] == x);
                        assert(m != i);
                    }
                    assert forall|x: u32|
                        old(self)@.remove(key).contains(x) implies self@.contains(x) by {
                        let m = choose|m: int| 0 <= m < pre.len() && pre[m] == x;
                        assert(m != i);
                        let j: int = if m < i { m } else { m - 1 };
                        assert(post[j] == x);
                    }
                    assert(self@ =~= old(self)@.remove(key));
                }
            },
            None => {
                proof {
                    assert(self@ =~= old(self)@.remove(key));
                }
            },
        }
    }

    /// The number of keys in the set.
    pub fn len(&self) -> (n: usize)
        ensures
            n == self@.len(),
    {
        proof {
            use_type_invariant(&*self);
            self.keys@.unique_seq_to_set();
        }
        self.keys.len()
    }
}

/// The model of an input snapshot.
pub ghost struct InputModel {
    pub mouse_pos: Option<(i32, i32)>,
    pub prev_mouse_pos: Option<(i32, i32)>,
    pub mouse_scroll_delta: i64,
    pub keydowns: Option<Set<u32>>,
    pub keyups: Option<Set<u32>>,
}

/// The snapshot in which nothing happened.
pub open spec fn empty_input_model() -> InputModel {
    InputModel {
        mouse_pos: None,
        prev_mouse_pos: None,
        mouse_scroll_delta: 0,
        keydowns: None,
        keyups: None,
    }
}

/// One aggregated input snapshot: cursor position and the position it moved
/// from, scroll delta, and the keys newly pressed and newly released by the
/// processed event. Cursor positions are window pixels; the scroll delta
/// counts scrolled lines.
pub struct Input {
    pub mouse_pos: Option<(i32, i32)>,
    pub prev_mouse_pos: Option<(i32, i32)>,
    pub mouse_scroll_delta: i64,
    pub keydowns: Option<KeySet>,
    pub keyups: Option<KeySet>,
}

impl View for Input {
    type V = InputModel;

    open spec fn view(&self) -> InputModel {
        InputModel {
            mouse_pos: self.mouse_pos,
            prev_mouse_pos: self.prev_mouse_pos,
            mouse_scroll_delta: self.mouse_scroll_delta,
            keydowns: match self.keydowns {
                Some(k) => Some(k@),
                None => None,
            },
            keyups: match self.keyups {
                Some(k) => Some(k@),
                None => None,
            },
        }
    }
}

impl Default for Input {
    /// The snapshot in which nothing happened.
    fn default() -> (r: Input)
        ensures
            r@ == empty_input_model(),
    {
        Input {
            mouse_pos: None,
            prev_mouse_pos: None,
            mouse_scroll_delta: 0,
            keydowns: None,
            keyups: None,
        }
    }
}

impl Input {
    /// The cursor delta reported by this snapshot: current position minus
    /// previous position, when both are known.
    pub fn mouse_delta(&self) -> (d: Option<(i64, i64)>)
        ensures
            match (self.mouse_pos, self.prev_mouse_pos) {
                (Some(p), Some(q)) => d == Some(((p.0 - q.0) as i64, (p.1 - q.1) as i64)),
                _ => d is None,
            },
    {
        match (self.mouse_pos, self.prev_mouse_pos) {
            (Some(p), Some(q)) => Some((p.0 as i64 - q.0 as i64, p.1 as i64 - q.1 as i64)),
            _ => None,
        }
    }
}

/// The event wrapper under which input snapshots are queued.
pub struct InputEvent(pub Input);

impl View for InputEvent {
    type V = InputModel;

    open spec fn view(&self) -> InputModel {
        self.0@
    }
}

/// A queue of events of one kind: produced by senders, read by consumers,
/// and cleared between schedule passes by whoever drains it.
pub struct Events<T> {
    queue: Vec<T>,
}

impl<T: View> View for Events<T> {
    type V = Seq<T::V>;

    closed spec fn view(&self) -> Seq<T::V> {
        self.queue@.map_values(|t: T| t@)
    }
}

impl<T: View> Events<T> {
    /// An empty queue.
    pub fn new() -> (q: Events<T>)
        ensures
            q@ == Seq::<T::V>::empty(),
    {
        let q = Events { queue: Vec::new() };
        proof {
            assert(q@ =~= Seq::<T::V>::empty());
        }
        q
    }

    /// Appends `event` to the queue.
    pub fn send(&mut self, event: T)
        ensures
            final(self)@ == old(self)@.push(event@),
    {
        self.queue.push(event);
        proof {
            assert(final(self)@ =~= old(self)@.push(event@));
        }
    }

    /// The number of queued events.
    pub fn len(&self) -> (n: usize)
        ensures
            n == self@.len(),
    {
        self.queue.len()
    }

    /// Borrows the event at position `i`, oldest first.
    pub fn get(&self, i: usize) -> (r: Option<&T>)
        ensures
            match r {
                Some(e) => i < self@.len() && e@ == self@[i as int],
                None => i >= self@.len(),
            },
    {
        if i < self.queue.len() {
            Some(&self.queue[i])
        } else {
            None
        }
    }

    /// Turns the queue into the vector of its events, oldest first.
    pub fn into_vec(self) -> (v: Vec<T>)
        ensures
            v@.map_values(|t: T| t@) == self@,
    {
        self.queue
    }

    /// Empties the queue, as consumers do between schedule passes.
    pub fn clear(&mut self)
        ensures
            final(self)@ == Seq::<T::V>::empty(),
    {
        self.queue.clear();
        proof {
            assert(final(self)@ =~= Seq::<T::V>::empty());
        }
    }
}

/// The persistent state of the input bridge: whether the next cursor move
/// is the first since the cursor entered the window, the last recorded
/// cursor position, and the set of keys currently held.
pub struct InputStates {
    pub first_mouse: bool,
    pub curr_mouse_pos: (i32, i32),
    pub keyholds: KeySet,
}

/// The model of the bridge state.
pub ghost struct InputStatesModel {
    pub first_mouse: bool,
    pub curr_mouse_pos: (i32, i32),
    pub keyholds: Set<u32>,
}

impl View for InputStates {
    type V = InputStatesModel;

    open spec fn view(&self) -> InputStatesModel {
        InputStatesModel {
            first_mouse: self.first_mouse,
            curr_mouse_pos: self.curr_mouse_pos,
            keyholds: self.keyholds@,
        }
    }
}

/// The bridge state before any event: the next cursor move counts as the
/// first, and no key is held.
pub open spec fn initial_states_model() -> InputStatesModel {
    InputStatesModel { first_mouse: true, curr_mouse_pos: (0, 0), keyholds: Set::empty() }
}

impl InputStates {
    /// The bridge state before any event.
    pub fn new() -> (s: InputStates)
        ensures
            s@ == initial_states_model(),
    {
        InputStates { first_mouse: true, curr_mouse_pos: (0, 0), keyholds: KeySet::new() }
    }
}

/// A raw window event, reduced to the payloads the bridge reads: cursor
/// positions in window pixels, scroll deltas in lines, keys as key codes
/// with their press state. Events the bridge ignores are `Other`.
#[derive(Clone, Copy, Debug, PartialEq, Eq, Structural)]
pub enum WindowEvent {
    CursorMoved { x: i32, y: i32 },
    MouseWheel { delta: i64 },
    CursorEntered,
    KeyboardInput { key: Option<u32>, pressed: bool },
    Other,
}

/// Whether processing `event` changes any input field, and so emits a
/// snapshot.
pub open spec fn event_changes_input(event: WindowEvent) -> bool {
    match event {
        WindowEvent::CursorMoved { .. } => true,
        WindowEvent::MouseWheel { .. } => true,
        WindowEvent::CursorEntered => true,
        WindowEvent::KeyboardInput { key, .. } => key is Some,
        WindowEvent::Other => false,
    }
}

/// Whether processing `event` reads or writes the bridge state.
pub open spec fn event_needs_states(event: WindowEvent) -> bool {
    match event {
        WindowEvent::CursorMoved { .. } => true,
        WindowEvent::MouseWheel { .. } => false,
        WindowEvent::CursorEntered => true,
        WindowEvent::KeyboardInput { key, .. } => key is Some,
        WindowEvent::Other => false,
    }
}

/// The bridge state after processing `event` in state `s`.
pub open spec fn step_states(event: WindowEvent, s: InputStatesModel) -> InputStatesModel {
    match event {
        WindowEvent::CursorMoved { x, y } => InputStatesModel {
            first_mouse: false,
            curr_mouse_pos: (x, y),
            keyholds: s.keyholds,
        },
        WindowEvent::CursorEntered => InputStatesModel { first_mouse: true, ..s },
        WindowEvent::KeyboardInput { key: Some(k), pressed } => InputStatesModel {
            keyholds: if pressed {
                s.keyholds.insert(k)
            } else {
                s.keyholds.remove(k)
            },
            ..s
        },
        _ => s,
    }
}

/// The snapshot emitted for `event` in state `s`. A cursor move right after
/// the cursor entered reports the move's own position as the previous
/// position, so the first reported delta is zero and no snapping artifact
/// arises.
pub open spec fn snapshot(event: WindowEvent, s: InputStatesModel) -> InputModel {
    match event {
        WindowEvent::CursorMoved { x, y } => InputModel {
            mouse_pos: Some((x, y)),
            prev_mouse_pos: Some(
                if s.first_mouse {
                    (x, y)
                } else {
                    s.curr_mouse_pos
                },
            ),
            ..empty_input_model()
        },
        WindowEvent::MouseWheel { delta } => InputModel {
            mouse_scroll_delta: delta,
            ..empty_input_model()
        },
        WindowEvent::KeyboardInput { key: Some(k), pressed } => if pressed {
            InputModel { keydowns: Some(Set::empty().insert(k)), ..empty_input_model() }
        } else {
            InputModel { keyups: Some(Set::empty().insert(k)), ..empty_input_model() }
        },
        _ => empty_input_model(),
    }
}

/// Processes one window event against the bridge state: updates the state
/// as `step_states` says and returns the emitted snapshot exactly when the
/// event changes some input field.
pub fn bridge_process(event: &WindowEvent, states: &mut InputStates) -> (snap: Option<Input>)
    ensures
        final(states)@ == step_states(*event, old(states)@),
        (snap is Some) == event_changes_input(*event),
        snap matches Some(i) ==> i@ == snapshot(*event, old(states)@),
{
    match *event {
        WindowEvent::CursorMoved { x, y } => {
            let mut input = Input::default();
            if states.first_mouse {
                states.first_mouse = false;
                states.curr_mouse_pos = (x, y);
            }
            input.mouse_pos = Some((x, y));
            input.prev_mouse_pos = Some(states.curr_mouse_pos);
            states.curr_mouse_pos = (x, y);
            Some(input)
        },
        WindowEvent::MouseWheel { delta } => {
            let mut input = Input::default();
            input.mouse_scroll_delta = delta;
            Some(input)
        },
        WindowEvent::CursorEntered => {
            states.first_mouse = true;
            Some(Input::default())
        },
        WindowEvent::KeyboardInput { key: Some(k), pressed } => {
            let mut input = Input::default();
            let mut pressed_set = KeySet::new();
            pressed_set.insert(k);
            if pressed {
                input.keydowns = Some(pressed_set);
                states.keyholds.insert(k);
            } else {
                input.keyups = Some(pressed_set);
                states.keyholds.remove(k);
            }
            Some(input)
        },
        _ => None,
    }
}

/// The bridge state resource of a world model, when the reserved key holds
/// one.
pub open spec fn states_res_of<R>(w: WorldModel<EngineResource<R>>) -> Option<InputStates> {
    if w.resources.contains_key(INPUT_STATES_KEY) {
        match w.resources[INPUT_STATES_KEY] {
            EngineResource::InputStates(s) => Some(s),
            _ => None,
        }
    } else {
        None
    }
}

/// The input event queue resource of a world model, when the reserved key
/// holds one.
pub open spec fn events_res_of<R>(w: WorldModel<EngineResource<R>>) -> Option<
    Events<InputEvent>,
> {
    if w.resources.contains_key(INPUT_EVENTS_KEY) {
        match w.resources[INPUT_EVENTS_KEY] {
            EngineResource::InputEvents(q) => Some(q),
            _ => None,
        }
    } else {
        None
    }
}

/// How a successful `process_input_event` call relates the world before
/// (`pre`) and after (`post`): an event that changes no input field leaves
/// the world untouched; otherwise the bridge state resource steps as
/// `step_states` says (when the event reads it), the emitted snapshot is
/// appended to the input event queue resource, and every other resource and
/// all entities stay as they were.
pub open spec fn bridge_ok<R>(
    event: WindowEvent,
    pre: WorldModel<EngineResource<R>>,
    post: WorldModel<EngineResource<R>>,
) -> bool {
    if !event_changes_input(event) {
        post == pre
    } else {
        match events_res_of(pre) {
            None => false,
            Some(q) => if event_needs_states(event) {
                match states_res_of(pre) {
                    None => false,
                    Some(s) => {
                        &&& post.entities == pre.entities
                        &&& post.resources.dom() == pre.resources.dom()
                        &&& (forall|k: u64|
                            pre.resources.contains_key(k) && k != INPUT_STATES_KEY && k
                                != INPUT_EVENTS_KEY ==> (#[trigger] post.resources[k])
                                == pre.resources[k])
                        &&& (match post.resources[INPUT_STATES_KEY] {
                            EngineResource::InputStates(s2) => s2@ == step_states(event, s@),
                            _ => false,
                        })
                        &&& (match post.resources[INPUT_EVENTS_KEY] {
                            EngineResource::InputEvents(q2) => q2@ == q@.push(
                                snapshot(event, s@),
                            ),
                            _ => false,
                        })
                    },
                }
            } else {
                &&& post.entities == pre.entities
                &&& post.resources.dom() == pre.resources.dom()
                &&& (forall|k: u64|
                    pre.resources.contains_key(k) && k != INPUT_EVENTS_KEY ==> (
                    #[trigger] post.resources[k]) == pre.resources[k])
                &&& (match post.resources[INPUT_EVENTS_KEY] {
                    EngineResource::InputEvents(q2) => q2@ == q@.push(
                        snapshot(event, arbitrary()),
                    ),
                    _ => false,
                })
            },
        }
    }
}

/// Redirects one raw window event into the world: steps the bridge state
/// resource and, when some input field changed, publishes the aggregated
/// snapshot on the input event queue resource. Fails, leaving the world
/// untouched, when a resource the event needs — the queue, or the bridge
/// state for events that read it — is not present.
pub fn process_input_event<R>(event: &WindowEvent, world: &mut World<EngineResource<R>>) -> (r:
    Result<(), EcsError>)
    ensures
        match r {
            Ok(()) => bridge_ok(*event, old(world)@, final(world)@),
            Err(e) => {
                &&& e == EcsError::ResourceNotFound
                &&& final(world)@.resources == old(world)@.resources
                &&& final(world)@.entities == old(world)@.entities
                &&& event_changes_input(*event)
                &&& (events_res_of(old(world)@) is None || (event_needs_states(*event)
                    && states_res_of(old(world)@) is None))
            },
        },
{
    let changed = match event {
        WindowEvent::CursorMoved { .. } => true,
        WindowEvent::MouseWheel { .. } => true,
        WindowEvent::CursorEntered => true,
        WindowEvent::KeyboardInput { key, .. } => key.is_some(),
        WindowEvent::Other => false,
    };
    proof {
        assert(changed == event_changes_input(*event));
    }
    if !changed {
        return Ok(());
    }
    let mut queue = match world.remove_resource(INPUT_EVENTS_KEY) {
        Ok(EngineResource::InputEvents(q)) => q,
        Ok(other) => {
            world.insert_resource(INPUT_EVENTS_KEY, other);
            proof {
                assert(world@.resources =~= old(world)@.resources);
            }
            return Err(EcsError::ResourceNotFound);
        },
        Err(_) => {
            return Err(EcsError::ResourceNotFound);
        },
    };
    let needs_states = match event {
        WindowEvent::CursorMoved { .. } => true,
        WindowEvent::CursorEntered => true,
        WindowEvent::KeyboardInput { key, .. } => key.is_some(),
        _ => false,
    };
    proof {
        assert(needs_states == event_needs_states(*event));
    }
    if needs_states {
        let mut states = match world.remove_resource(INPUT_STATES_KEY) {
            Ok(EngineResource::InputStates(s)) => s,
            Ok(other) => {
                world.insert_resource(INPUT_STATES_KEY, other);
                world.insert_resource(INPUT_EVENTS_KEY, EngineResource::InputEvents(queue));
                proof {
                    assert(world@.resources =~= old(world)@.resources);
                }
                return Err(EcsError::ResourceNotFound);
            },
            Err(_) => {
                world.insert_resource(INPUT_EVENTS_KEY, EngineResource::InputEvents(queue));
                proof {
                    assert(world@.resources =~= old(world)@.resources);
                }
                return Err(EcsError::ResourceNotFound);
            },
        };
        let snap = bridge_process(event, &mut states);
        match snap {
            Some(input) => {
                queue.send(InputEvent(input));
            },
            None => {
                proof {
                    assert(false);
                }
            },
        }
        world.insert_resource(INPUT_STATES_KEY, EngineResource::InputStates(states));
        world.insert_resource(INPUT_EVENTS_KEY, EngineResource::InputEvents(queue));
        proof {
            assert(world@.resources.dom() =~= old(world)@.resources.dom());
        }
        Ok(())
    } else {
        let mut input = Input::default();
        match *event {
            WindowEvent::MouseWheel { delta } => {
                input.mouse_scroll_delta = delta;
            },
            _ => {
                proof {
                    assert(false);
                }
            },
        }
        proof {
            assert(input@ == snapshot(*event, arbitrary()));
        }
        queue.send(InputEvent(input));
        world.insert_resource(INPUT_EVENTS_KEY, EngineResource::InputEvents(queue));
        proof {
            assert(world@.resources.dom() =~= old(world)@.resources.dom());
        }
        Ok(())
    }
}

/// Borrows the bridge state resource, or reports that none is present.
pub fn get_input_states<R>(world: &World<EngineResource<R>>) -> (r: Result<&InputStates, EcsError>)
    ensures
        match r {
            Ok(s) => states_res_of(world@) == Some(*s),
            Err(e) => states_res_of(world@) is None && e == EcsError::ResourceNotFound,
        },
{
    match world.get_resource(INPUT_STATES_KEY) {
        Ok(EngineResource::InputStates(s)) => Ok(s),
        Ok(_) => Err(EcsError::ResourceNotFound),
        Err(e) => Err(e),
    }
}

/// Takes every queued input event out of the world, leaving the queue
/// resource empty, as a consumer does once per schedule pass. Fails,
/// leaving the world untouched, when no queue resource is present.
pub fn take_input_events<R>(world: &mut World<EngineResource<R>>) -> (r: Result<
    Vec<InputEvent>,
    EcsError,
>)
    ensures
        match r {
            Ok(evs) => {
                &&& (match events_res_of(old(world)@) {
                    Some(q) => evs@.map_values(|e: InputEvent| e@) == q@,
                    None => false,
                })
                &&& final(world)@.entities == old(world)@.entities
                &&& final(world)@.resources.dom() == old(world)@.resources.dom()
                &&& (forall|k: u64|
                    old(world)@.resources.contains_key(k) && k != INPUT_EVENTS_KEY ==> (
                    #[trigger] final(world)@.resources[k]) == old(world)@.resources[k])
                &&& (match events_res_of(final(world)@) {
                    Some(q2) => q2@ == Seq::<InputModel>::empty(),
                    None => false,
                })
            },
            Err(e) => {
                &&& e == EcsError::ResourceNotFound
                &&& events_res_of(old(world)@) is None
                &&& final(world)@.resources == old(world)@.resources
                &&& final(world)@.entities == old(world)@.entities
            },
        },
{
    match world.remove_resource(INPUT_EVENTS_KEY) {
        Ok(EngineResource::InputEvents(q)) => {
            let evs = q.into_vec();
            world.insert_resource(INPUT_EVENTS_KEY, EngineResource::InputEvents(Events::new()));
            proof {
                assert(world@.resources.dom() =~= old(world)@.resources.dom());
            }
            Ok(evs)
        },
        Ok(other) => {
            world.insert_resource(INPUT_EVENTS_KEY, other);
            proof {
                assert(world@.resources =~= old(world)@.resources);
            }
            Err(EcsError::ResourceNotFound)
        },
        Err(_) => Err(EcsError::ResourceNotFound),
    }
}

/// The plugin that installs the input bridge: it inserts an empty input
/// event queue and the initial bridge state as resources, under their
/// reserved keys.
pub struct InputPlugin;

/// How installing the input bridge relates a builder's model before (`pre`)
/// and after (`post`): the two input resources stand fresh — an empty event
/// queue and the initial bridge state — and every other resource, all
/// entities and all schedules are as they were.
pub open spec fn input_installed<R, A>(
    pre: EcsModel<EngineResource<R>, A>,
    post: EcsModel<EngineResource<R>, A>,
) -> bool {
    &&& post.schedules == pre.schedules
    &&& post.world.entities == pre.world.entities
    &&& post.world.resources.dom() == pre.world.resources.dom().insert(
        INPUT_EVENTS_KEY,
    ).insert(INPUT_STATES_KEY)
    &&& (forall|k: u64|
        pre.world.resources.contains_key(k) && k != INPUT_EVENTS_KEY && k != INPUT_STATES_KEY
            ==> (#[trigger] post.world.resources[k]) == pre.world.resources[k])
    &&& (match states_res_of(post.world) {
        Some(s) => s@ == initial_states_model(),
        None => false,
    })
    &&& (match events_res_of(post.world) {
        Some(q) => q@ == Seq::<InputModel>::empty(),
        None => false,
    })
}

impl InputPlugin {
    /// What applying `InputPlugin` does: the two input resources are
    /// installed fresh, and everything else is left as it was.
    pub fn install<R, A>(ecs_builder: EcsBuilder<EngineResource<R>, A, Incomplete>) -> (b:
        EcsBuilder<EngineResource<R>, A, Incomplete>)
        ensures
            input_installed(ecs_builder@, b@),
    {
        let b = ecs_builder.insert_resource(
            INPUT_EVENTS_KEY,
            EngineResource::InputEvents(Events::new()),
        ).insert_resource(INPUT_STATES_KEY, EngineResource::InputStates(InputStates::new()));
        proof {
            assert(b@.world.resources.dom() =~= ecs_builder@.world.resources.dom().insert(
                INPUT_EVENTS_KEY,
            ).insert(INPUT_STATES_KEY));
        }
        b
    }
}

impl<R, A> Plugin<EngineResource<R>, A> for InputPlugin {
    /// Always succeeds, with the two input resources installed as
    /// `input_installed` says.
    fn build(&self, ecs_builder: EcsBuilder<EngineResource<R>, A, Incomplete>) -> (r: Result<
        EcsBuilder<EngineResource<R>, A, Incomplete>,
        EcsError,
    >)
        ensures
            r matches Ok(b) && input_installed(ecs_builder@, b@),
    {
        Ok(InputPlugin::install(ecs_builder))
    }
}

} // verus!
