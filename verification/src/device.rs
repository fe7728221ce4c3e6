//! The composition root: one device instance.
//!
//! A device wires a world, a view and a controller together under one name
//! and exposes the controller's single-use network attachment point.  The
//! view and the controller are handed out once so the driver can run them on
//! their own threads; the world stays, since the surface must be ticked from
//! the driver's own loop.

use vstd::prelude::*;

verus! {

use crate::controller::{Controller, NetworkInterface};
use crate::events::ViewToWorldEvent;
use crate::view::DeviceView;
use crate::world::{TickOutput, World};

/// One simulated device: a world, a view and a controller under one name.
pub struct Device {
    name: &'static str,
    world: World,
    view: Option<DeviceView>,
    controller: Option<Controller>,
}

impl Device {
    /// The device's name.
    pub closed spec fn spec_name(&self) -> &'static str {
        self.name
    }

    /// The device's world.
    pub closed spec fn spec_world(&self) -> World {
        self.world
    }

    /// The device's view, until it is handed out.
    pub closed spec fn spec_view(&self) -> Option<DeviceView> {
        self.view
    }

    /// The device's controller, until it is handed out.
    pub closed spec fn spec_controller(&self) -> Option<Controller> {
        self.controller
    }

    /// Every part carries the device's name, and the controller keeps its
    /// own shape.
    pub open spec fn wf(&self) -> bool {
        &&& self.spec_world().spec_name() == self.spec_name()
        &&& self.spec_world().wf()
        &&& (self.spec_view() matches Some(v) ==> v.spec_name() == self.spec_name())
        &&& (self.spec_controller() matches Some(c) ==> c.spec_name() == self.spec_name()
            && c.wf())
    }

    /// A fresh device: everything in its starting state, the view and the
    /// controller still aboard and the attachment point in place.
    pub fn new(name: &'static str) -> (d: Device)
        ensures
            d.wf(),
            d.spec_name() == name,
            d.spec_world().spec_color() == 0,
            d.spec_world().spec_step() == 0,
            !d.spec_world().spec_mouse_down(),
            d.spec_world().spec_playback() == Seq::<u16>::empty(),
            d.spec_view() is Some,
            d.spec_controller() matches Some(c) && c.spec_counts() == Seq::<(
                &'static str,
                usize,
            )>::empty() && !c.spec_recording_active() && c.spec_interface_available(),
    {
        Device {
            name,
            world: World::new(name),
            view: Some(DeviceView::new(name)),
            controller: Some(Controller::new(name)),
        }
    }

    /// Hand the view and the controller out to run elsewhere.  They leave
    /// together and at most once; a second call gets nothing.
    pub fn take_internals(&mut self) -> (r: Option<(DeviceView, Controller)>)
        ensures
            old(self).spec_view() is Some && old(self).spec_controller() is Some ==> (r matches
                Some((v, c)) && Some(v) == old(self).spec_view() && Some(c) == old(
                self,
            ).spec_controller()),
            old(self).spec_view() is None || old(self).spec_controller() is None ==> r is None
                && *final(self) == *old(self),
            r is Some ==> final(self).spec_view() is None && final(self).spec_controller()
                is None,
            final(self).spec_name() == old(self).spec_name(),
            final(self).spec_world() == old(self).spec_world(),
    {
        if self.view.is_some() && self.controller.is_some() {
            let view = self.view.take();
            let controller = self.controller.take();
            Some((view.unwrap(), controller.unwrap()))
        } else {
            None
        }
    }

    /// The device's name.
    pub fn name(&self) -> (n: &'static str)
        ensures
            n == self.spec_name(),
    {
        self.name
    }

    /// Whether the device's world wants to keep running.
    pub fn world_ready(&self, surface_open: bool, exit_pressed: bool) -> (r: bool)
        ensures
            r == (surface_open && !exit_pressed),
    {
        self.world.ready(surface_open, exit_pressed)
    }

    /// Tick the device's world once.
    pub fn run_world_one(&mut self, inbound: Option<ViewToWorldEvent>, pointer_down: bool) -> (out:
        TickOutput)
        requires
            old(self).spec_world().wf(),
            inbound matches Some(ViewToWorldEvent::Audio(p)) ==> old(
                self,
            ).spec_world().spec_playback().len() + p@.len() <= usize::MAX,
        ensures
            final(self).spec_world().wf(),
            final(self).spec_name() == old(self).spec_name(),
            final(self).spec_view() == old(self).spec_view(),
            final(self).spec_controller() == old(self).spec_controller(),
            final(self).spec_world().spec_name() == old(self).spec_world().spec_name(),
            out.click == (pointer_down && !old(self).spec_world().spec_mouse_down()),
            final(self).spec_world().spec_mouse_down() == pointer_down,
            match inbound {
                Some(ViewToWorldEvent::Audio(p)) => final(self).spec_world().spec_playback()
                    == old(self).spec_world().spec_playback() + p@,
                _ => final(self).spec_world().spec_playback() == old(
                    self,
                ).spec_world().spec_playback(),
            },
    {
        self.world.run_one(inbound, pointer_down)
    }

    /// How many samples the device's world holds for playback.
    pub fn playback_len(&self) -> (n: usize)
        ensures
            n == self.spec_world().spec_playback().len(),
    {
        self.world.playback_len()
    }

    /// Fill a playback request from the world's queued packets, silence past
    /// them.
    pub fn fill_playback(&mut self, count: usize) -> (out: Vec<u16>)
        ensures
            out@.len() == count,
            final(self).spec_name() == old(self).spec_name(),
            final(self).spec_view() == old(self).spec_view(),
            final(self).spec_controller() == old(self).spec_controller(),
            ({
                let queued = old(self).spec_world().spec_playback();
                let played = if count <= queued.len() {
                    count as int
                } else {
                    queued.len() as int
                };
                &&& forall|i: int| 0 <= i < played ==> out@[i] == queued[i]
                &&& forall|i: int| played <= i < count ==> out@[i] == crate::codec::MIDPOINT
                &&& final(self).spec_world().spec_playback() == queued.skip(played)
            }),
    {
        self.world.fill_playback(count)
    }

    /// Take the controller's single-use network attachment point, while the
    /// controller is still aboard and the point still in place.
    pub fn network_interface(&mut self) -> (r: Option<NetworkInterface>)
        requires
            old(self).wf(),
        ensures
            final(self).wf(),
            final(self).spec_name() == old(self).spec_name(),
            final(self).spec_world() == old(self).spec_world(),
            final(self).spec_view() == old(self).spec_view(),
            (old(self).spec_controller() matches Some(c) && c.spec_interface_available()) <==> (
            r matches Some(iface) && iface.name == old(self).spec_name()),
            r is Some ==> !(final(self).spec_controller() matches Some(c)
                && c.spec_interface_available()),
    {
        match self.controller.as_mut() {
            Some(controller) => controller.network_interface(),
            None => None,
        }
    }
}

} // verus!
