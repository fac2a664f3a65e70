//! A verified entity-component-system core: a world of keyed singleton
//! resources and entities, a registry of named schedules whose systems run in
//! dependency order, a typed builder that enforces the construction protocol
//! at compile time, plugin composition, and an input-event bridge.

use vstd::prelude::*;

pub mod common;
pub mod ecs;
pub mod input;
pub mod schedule;
pub mod texture;
pub mod world;

use crate::common::{Time, WindowInfo};
use crate::input::{Events, InputEvent, InputStates};

verus! {

/// Reserved key of the `Time` resource.
pub const TIME_KEY: u64 = 0;

/// Reserved key of the `WindowInfo` resource.
pub const WINDOW_INFO_KEY: u64 = 1;

/// Reserved key of the input bridge state resource.
pub const INPUT_STATES_KEY: u64 = 2;

/// Reserved key of the input event queue resource.
pub const INPUT_EVENTS_KEY: u64 = 3;

/// The resource family of a world driven by this engine core: the engine's
/// own resources each have a variant, and an application embeds its own
/// resource type in `App`. The world is keyed by `u64`; the engine's
/// resources live under the reserved keys above, which stand in for their
/// types, and type-safe accessors (`common::get_time`,
/// `input::get_input_states`, …) read them back out.
pub enum EngineResource<R> {
    Time(Time),
    WindowInfo(WindowInfo),
    InputStates(InputStates),
    InputEvents(Events<InputEvent>),
    App(R),
}

} // verus!
