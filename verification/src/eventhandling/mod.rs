//! Handles, events and the two capabilities of an interactive object.

use vstd::prelude::*;

pub mod channel;
pub mod clicking;
pub mod hovering;
pub mod nearest;

verus! {

/// Handle of an object in the scene.
///
/// The handle is only ever compared: two handles name the same object exactly
/// when both fields agree.
#[derive(Clone, Copy, Debug, PartialEq, Eq, Hash, Structural)]
pub struct EntityId {
    pub index: u32,
    pub generation: i32,
}

impl EntityId {
    pub fn new(index: u32, generation: i32) -> (id: EntityId)
        ensures
            id == (EntityId { index, generation }),
    {
        EntityId { index, generation }
    }
}

/// One change of the hovered slot: the pointer entered (`start`) or left
/// (`!start`) the object `target`.
#[derive(Clone, Copy, Debug, PartialEq, Eq, Structural)]
pub struct HoverEvent {
    pub start: bool,
    pub target: EntityId,
}

impl HoverEvent {
    /// The event for the pointer leaving `target`.
    pub open spec fn stop_of(target: EntityId) -> HoverEvent {
        HoverEvent { start: false, target }
    }

    /// The event for the pointer entering `target`.
    pub open spec fn start_of(target: EntityId) -> HoverEvent {
        HoverEvent { start: true, target }
    }
}

} // verus!
