//! Shared engine resources: frame time and window geometry.

use vstd::prelude::*;
use crate::ecs::EcsError;
use crate::world::{World, WorldModel};
use crate::{EngineResource, TIME_KEY, WINDOW_INFO_KEY};

verus! {

/// Frame time in milliseconds: the time of the latest update and the time
/// that passed since the update before it. It is updated once per frame,
/// before the pre-update schedule runs; downstream systems read it only.
#[derive(Clone, Copy, Debug, PartialEq, Eq, Structural)]
pub struct Time {
    pub current: u64,
    pub delta: u64,
}

/// Window geometry in physical pixels, kept as a resource so systems can
/// read the current surface size.
#[derive(Clone, Copy, Debug, PartialEq, Eq, Structural)]
pub struct WindowInfo {
    pub width: u32,
    pub height: u32,
}

/// The `Time` resource of a world model, when the reserved key holds one.
pub open spec fn time_res_of<R>(w: WorldModel<EngineResource<R>>) -> Option<Time> {
    if w.resources.contains_key(TIME_KEY) {
        match w.resources[TIME_KEY] {
            EngineResource::Time(t) => Some(t),
            _ => None,
        }
    } else {
        None
    }
}

/// The `WindowInfo` resource of a world model, when the reserved key holds
/// one.
pub open spec fn window_info_res_of<R>(w: WorldModel<EngineResource<R>>) -> Option<WindowInfo> {
    if w.resources.contains_key(WINDOW_INFO_KEY) {
        match w.resources[WINDOW_INFO_KEY] {
            EngineResource::WindowInfo(i) => Some(i),
            _ => None,
        }
    } else {
        None
    }
}

/// Borrows the `Time` resource, or reports that none is present.
pub fn get_time<R>(world: &World<EngineResource<R>>) -> (r: Result<&Time, EcsError>)
    ensures
        match r {
            Ok(t) => time_res_of(world@) == Some(*t),
            Err(e) => time_res_of(world@) is None && e == EcsError::ResourceNotFound,
        },
{
    match world.get_resource(TIME_KEY) {
        Ok(EngineResource::Time(t)) => Ok(t),
        Ok(_) => Err(EcsError::ResourceNotFound),
        Err(e) => Err(e),
    }
}

/// Borrows the `WindowInfo` resource, or reports that none is present.
pub fn get_window_info<R>(world: &World<EngineResource<R>>) -> (r: Result<&WindowInfo, EcsError>)
    ensures
        match r {
            Ok(i) => window_info_res_of(world@) == Some(*i),
            Err(e) => window_info_res_of(world@) is None && e == EcsError::ResourceNotFound,
        },
{
    match world.get_resource(WINDOW_INFO_KEY) {
        Ok(EngineResource::WindowInfo(i)) => Ok(i),
        Ok(_) => Err(EcsError::ResourceNotFound),
        Err(e) => Err(e),
    }
}

/// Advances the `Time` resource to `now` (milliseconds since the runner
/// started): the new delta is the time passed since the recorded current
/// time, or zero if `now` lies before it, and the new current time is
/// `now`. Fails, leaving the world untouched, when no `Time` resource is
/// present.
pub fn update_time_res<R>(now: u64, world: &mut World<EngineResource<R>>) -> (r: Result<
    (),
    EcsError,
>)
    ensures
        match r {
            Ok(()) => match time_res_of(old(world)@) {
                Some(t) => {
                    &&& final(world)@.entities == old(world)@.entities
                    &&& final(world)@.resources == old(world)@.resources.insert(
                        TIME_KEY,
                        EngineResource::Time(
                            Time {
                                current: now,
                                delta: if now >= t.current {
                                    (now - t.current) as u64
                                } else {
                                    0u64
                                },
                            },
                        ),
                    )
                },
                None => false,
            },
            Err(e) => {
                &&& e == EcsError::ResourceNotFound
                &&& time_res_of(old(world)@) is None
                &&& final(world)@.resources == old(world)@.resources
                &&& final(world)@.entities == old(world)@.entities
            },
        },
{
    match world.remove_resource(TIME_KEY) {
        Ok(res) => match res {
            EngineResource::Time(t) => {
                let delta: u64 = if now >= t.current {
                    now - t.current
                } else {
                    0
                };
                world.insert_resource(TIME_KEY, EngineResource::Time(Time { current: now, delta }));
                proof {
                    assert(world@.resources =~= old(world)@.resources.insert(
                        TIME_KEY,
                        EngineResource::Time(Time { current: now, delta }),
                    ));
                }
                Ok(())
            },
            other => {
                world.insert_resource(TIME_KEY, other);
                proof {
                    assert(world@.resources =~= old(world)@.resources);
                }
                Err(EcsError::ResourceNotFound)
            },
        },
        Err(_) => Err(EcsError::ResourceNotFound),
    }
}

} // verus!
