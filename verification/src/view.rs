//! The view: a pure relay between a device's world and its controller.
//!
//! Each event received from one side is translated into the vocabulary of
//! the opposite side and forwarded with its payload unchanged.  No event is
//! dropped, duplicated or reordered: every received event is forwarded
//! exactly once, in arrival order per channel.

use vstd::prelude::*;

verus! {

use crate::events::{ControllerToViewEvent, ViewToControllerEvent, ViewToWorldEvent, WorldToViewEvent};

/// What the view forwards to the controller for one world event.
pub open spec fn spec_world_to_controller(e: WorldToViewEvent) -> ViewToControllerEvent {
    match e {
        WorldToViewEvent::Click => ViewToControllerEvent::Click,
        WorldToViewEvent::Audio(p) => ViewToControllerEvent::Audio(p),
    }
}

/// What the view forwards to the world for one controller event.
pub open spec fn spec_controller_to_world(e: ControllerToViewEvent) -> ViewToWorldEvent {
    match e {
        ControllerToViewEvent::Show(name, count) => ViewToWorldEvent::Show(name, count),
        ControllerToViewEvent::StartRecording => ViewToWorldEvent::StartRecording,
        ControllerToViewEvent::StopRecording => ViewToWorldEvent::StopRecording,
        ControllerToViewEvent::Audio(p) => ViewToWorldEvent::Audio(p),
    }
}

/// A device's view layer.  It holds no state beyond the device name it
/// reports under; all its behavior is translation.
pub struct DeviceView {
    name: &'static str,
}

impl DeviceView {
    /// The name of the device this view belongs to.
    pub closed spec fn spec_name(&self) -> &'static str {
        self.name
    }

    /// A view for the named device.
    pub fn new(name: &'static str) -> (v: DeviceView)
        ensures
            v.spec_name() == name,
    {
        DeviceView { name }
    }

    /// The device name, for display.
    pub fn name(&self) -> (n: &'static str)
        ensures
            n == self.spec_name(),
    {
        self.name
    }

    /// Translate one event from the world and pass it up.
    pub fn handle_world(&self, event: WorldToViewEvent) -> (out: ViewToControllerEvent)
        ensures
            out == spec_world_to_controller(event),
    {
        match event {
            WorldToViewEvent::Click => ViewToControllerEvent::Click,
            WorldToViewEvent::Audio(packet) => ViewToControllerEvent::Audio(packet),
        }
    }

    /// Translate one event from the controller and pass it down.
    pub fn handle_controller(&self, event: ControllerToViewEvent) -> (out: ViewToWorldEvent)
        ensures
            out == spec_controller_to_world(event),
    {
        match event {
            ControllerToViewEvent::Show(name, count) => ViewToWorldEvent::Show(name, count),
            ControllerToViewEvent::StartRecording => ViewToWorldEvent::StartRecording,
            ControllerToViewEvent::StopRecording => ViewToWorldEvent::StopRecording,
            ControllerToViewEvent::Audio(packet) => ViewToWorldEvent::Audio(packet),
        }
    }

    /// Relay every pending event from both sides: each is translated and
    /// forwarded exactly once, in arrival order per channel.
    pub fn run(&self, from_world: Vec<WorldToViewEvent>, from_controller: Vec<ControllerToViewEvent>) -> (out: (
        Vec<ViewToControllerEvent>,
        Vec<ViewToWorldEvent>,
    ))
        ensures
            out.0@.len() == from_world@.len(),
            forall|i: int|
                0 <= i < from_world@.len() ==> out.0@[i] == spec_world_to_controller(
                    #[trigger] from_world@[i],
                ),
            out.1@.len() == from_controller@.len(),
            forall|i: int|
                0 <= i < from_controller@.len() ==> out.1@[i] == spec_controller_to_world(
                    #[trigger] from_controller@[i],
                ),
    {
        let ghost world_events = from_world@;
        let ghost controller_events = from_controller@;
        let mut from_world = from_world;
        let mut from_controller = from_controller;
        let mut to_controller: Vec<ViewToControllerEvent> = Vec::new();
        let mut to_world: Vec<ViewToWorldEvent> = Vec::new();
        while from_world.len() > 0
            invariant
                to_controller@.len() + from_world@.len() == world_events.len(),
                from_world@ == world_events.skip(to_controller@.len() as int),
                forall|i: int|
                    0 <= i < to_controller@.len() ==> to_controller@[i] == spec_world_to_controller(
                        #[trigger] world_events[i],
                    ),
            decreases from_world@.len(),
        {
            let event = from_world.remove(0);
            proof {
                assert(event == world_events[to_controller@.len() as int]);
                assert(from_world@ =~= world_events.skip(to_controller@.len() as int + 1));
            }
            to_controller.push(self.handle_world(event));
        }
        while from_controller.len() > 0
            invariant
                to_world@.len() + from_controller@.len() == controller_events.len(),
                from_controller@ == controller_events.skip(to_world@.len() as int),
                forall|i: int|
                    0 <= i < to_world@.len() ==> to_world@[i] == spec_controller_to_world(
                        #[trigger] controller_events[i],
                    ),
            decreases from_controller@.len(),
        {
            let event = from_controller.remove(0);
            proof {
                assert(event == controller_events[to_world@.len() as int]);
                assert(from_controller@ =~= controller_events.skip(to_world@.len() as int + 1));
            }
            to_world.push(self.handle_controller(event));
        }
        (to_controller, to_world)
    }
}

} // verus!
