//! The world: one device's per-frame state.
//!
//! Each tick, the world handles at most one pending event from its view,
//! detects a rising edge on the local pointer-down level (the surface
//! reports level, not edge, so a held button yields one click until it is
//! released and pressed again), and picks the frame's background color.
//! The surface itself and the audio streams live outside: the world is
//! handed the polled pointer level and hands back what to do.

use vstd::prelude::*;

verus! {

use rand::Rng;
use crate::events::ViewToWorldEvent;
use crate::packet::Depacketizer;
use crate::rgb::{spec_blend_channel, spec_channels, RGB};

/// Ticks of the background animation between two palette entries.
pub const COLOR_STEPS: u32 = 128;

/// Relies on `rand::thread_rng` / `Rng::gen`: a pseudorandom `u32`, about
/// which nothing further is promised.
#[verifier::external_body]
fn random_u32() -> u32 {
    rand::thread_rng().gen::<u32>()
}

/// The packed word a blend of two packed colors comes out to.
pub open spec fn spec_blend_word(a: u32, b: u32, i: int, n: int) -> int {
    let (ar, ag, ab) = spec_channels(a);
    let (br, bg, bb) = spec_channels(b);
    spec_blend_channel(ar, br, i, n) * 0x1_0000 + spec_blend_channel(ag, bg, i, n) * 0x100
        + spec_blend_channel(ab, bb, i, n)
}

/// How many clicks a pointer-level sequence yields, starting from a known
/// previous level: one per rising edge, none while the level is held.
pub open spec fn spec_clicks(prev: bool, levels: Seq<bool>) -> nat
    decreases levels.len(),
{
    if levels.len() == 0 {
        0
    } else {
        (if levels[0] && !prev {
            1nat
        } else {
            0nat
        }) + spec_clicks(levels[0], levels.skip(1))
    }
}

/// A press held across any number of ticks yields exactly one click: the
/// rising edge itself, and nothing for the level that follows it.
pub proof fn lemma_sustained_press_single_click(prev: bool, levels: Seq<bool>)
    requires
        levels.len() > 0,
        !prev,
        forall|i: int| 0 <= i < levels.len() ==> levels[i],
    ensures
        spec_clicks(prev, levels) == 1,
{
    lemma_held_level_no_clicks(levels.skip(1));
}

/// While the pointer stays down, no further click is produced.
pub proof fn lemma_held_level_no_clicks(levels: Seq<bool>)
    requires
        forall|i: int| 0 <= i < levels.len() ==> levels[i],
    ensures
        spec_clicks(true, levels) == 0,
    decreases levels.len(),
{
    if levels.len() > 0 {
        lemma_held_level_no_clicks(levels.skip(1));
    }
}

/// Clicks add up across a release: after any prefix, a release followed by a
/// fresh press yields exactly one more click.
pub proof fn lemma_release_and_press_clicks_again(prev: bool, levels: Seq<bool>, again: Seq<bool>)
    requires
        again.len() > 0,
        again[0] == false,
        forall|i: int| 1 <= i < again.len() ==> again[i],
    ensures
        spec_clicks(prev, levels + again) == spec_clicks(prev, levels) + (if again.len() > 1 {
            1nat
        } else {
            0nat
        }),
    decreases levels.len(),
{
    if levels.len() == 0 {
        assert((levels + again) =~= again);
        assert(again.skip(1).len() == again.len() - 1);
        if again.len() > 1 {
            lemma_sustained_press_single_click(false, again.skip(1));
        } else {
            assert(spec_clicks(again[0], again.skip(1)) == 0);
        }
    } else {
        assert((levels + again).skip(1) =~= levels.skip(1) + again);
        lemma_release_and_press_clicks_again(levels[0], levels.skip(1), again);
    }
}

/// What one world tick asks its surroundings to do.
pub struct TickOutput {
    /// A rising pointer edge was seen: send one `Click` up to the view.
    pub click: bool,
    /// Start (`Some(true)`) or pause (`Some(false)`) the capture stream.
    pub capture: Option<bool>,
    /// A click count to display, with the device it belongs to.
    pub shown: Option<(&'static str, usize)>,
    /// The packed color to fill this frame with.
    pub frame_color: u32,
}

/// One device's world.
pub struct World {
    name: &'static str,
    color: u32,
    next_color: u32,
    step: u32,
    mouse_down: bool,
    playback: Depacketizer,
}

impl World {
    /// The device's name.
    pub closed spec fn spec_name(&self) -> &'static str {
        self.name
    }

    /// The palette entry the animation is leaving.
    pub closed spec fn spec_color(&self) -> u32 {
        self.color
    }

    /// The palette entry the animation is heading for.
    pub closed spec fn spec_next_color(&self) -> u32 {
        self.next_color
    }

    /// How far the animation is between the two palette entries.
    pub closed spec fn spec_step(&self) -> u32 {
        self.step
    }

    /// The pointer level seen on the previous tick.
    pub closed spec fn spec_mouse_down(&self) -> bool {
        self.mouse_down
    }

    /// The samples queued for playback.
    pub closed spec fn spec_playback(&self) -> Seq<u16> {
        self.playback.queued_samples()
    }

    /// The animation step never runs past one palette stretch, and colors
    /// keep their top byte clear.
    pub open spec fn wf(&self) -> bool {
        &&& self.spec_step() < COLOR_STEPS
        &&& self.spec_color() <= 0xff_ff_ff
        &&& self.spec_next_color() <= 0xff_ff_ff
    }

    /// A fresh world: black background, a random palette target, pointer up,
    /// nothing queued for playback.
    pub fn new(name: &'static str) -> (w: World)
        ensures
            w.wf(),
            w.spec_name() == name,
            w.spec_color() == 0,
            w.spec_step() == 0,
            !w.spec_mouse_down(),
            w.spec_playback() == Seq::<u16>::empty(),
    {
        let seed = random_u32();
        let next_color = seed & 0x00_ff_ff_ff;
        proof {
            assert(next_color <= 0xff_ff_ff) by (bit_vector)
                requires
                    next_color == seed & 0x00_ff_ff_ffu32,
            ;
        }
        World { name, color: 0, next_color, step: 0, mouse_down: false, playback: Depacketizer::new() }
    }

    /// Whether the device should keep running: its surface is still open and
    /// the exit key is not pressed.
    pub fn ready(&self, surface_open: bool, exit_pressed: bool) -> (r: bool)
        ensures
            r == (surface_open && !exit_pressed),
    {
        surface_open && !exit_pressed
    }

    /// Handle one event from the view: a count to show is passed along for
    /// display, recording commands are passed along to the capture stream,
    /// and an audio packet is queued for playback.
    pub fn handle_view(&mut self, event: ViewToWorldEvent) -> (out: (
        Option<bool>,
        Option<(&'static str, usize)>,
    ))
        requires
            event matches ViewToWorldEvent::Audio(p) ==> old(self).spec_playback().len() + p@.len()
                <= usize::MAX,
        ensures
            final(self).spec_name() == old(self).spec_name(),
            final(self).spec_color() == old(self).spec_color(),
            final(self).spec_next_color() == old(self).spec_next_color(),
            final(self).spec_step() == old(self).spec_step(),
            final(self).spec_mouse_down() == old(self).spec_mouse_down(),
            match event {
                ViewToWorldEvent::Show(name, count) => out == (
                    None::<bool>,
                    Some((name, count)),
                ) && final(self).spec_playback() == old(self).spec_playback(),
                ViewToWorldEvent::StartRecording => out == (
                    Some(true),
                    None::<(&'static str, usize)>,
                ) && final(self).spec_playback() == old(self).spec_playback(),
                ViewToWorldEvent::StopRecording => out == (
                    Some(false),
                    None::<(&'static str, usize)>,
                ) && final(self).spec_playback() == old(self).spec_playback(),
                ViewToWorldEvent::Audio(p) => out == (
                    None::<bool>,
                    None::<(&'static str, usize)>,
                ) && final(self).spec_playback() == old(self).spec_playback() + p@,
            },
    {
        match event {
            ViewToWorldEvent::Show(name, count) => (None, Some((name, count))),
            ViewToWorldEvent::StartRecording => (Some(true), None),
            ViewToWorldEvent::StopRecording => (Some(false), None),
            ViewToWorldEvent::Audio(packet) => {
                self.playback.enqueue(packet);
                (None, None)
            },
        }
    }

    /// Compare the polled pointer level against the previous tick's: a click
    /// fires on the rising edge and only there.
    pub fn observe_pointer(&mut self, pointer_down: bool) -> (click: bool)
        ensures
            click == (pointer_down && !old(self).spec_mouse_down()),
            final(self).spec_mouse_down() == pointer_down,
            final(self).spec_name() == old(self).spec_name(),
            final(self).spec_color() == old(self).spec_color(),
            final(self).spec_next_color() == old(self).spec_next_color(),
            final(self).spec_step() == old(self).spec_step(),
            final(self).spec_playback() == old(self).spec_playback(),
    {
        let click = pointer_down && !self.mouse_down;
        if pointer_down != self.mouse_down {
            self.mouse_down = pointer_down;
        }
        click
    }

    /// Advance the background animation one step and return the frame's
    /// color.  When a stretch completes, the target becomes the new base and
    /// a fresh random target is drawn.
    pub fn advance_color(&mut self) -> (frame_color: u32)
        requires
            old(self).wf(),
        ensures
            final(self).wf(),
            final(self).spec_name() == old(self).spec_name(),
            final(self).spec_mouse_down() == old(self).spec_mouse_down(),
            final(self).spec_playback() == old(self).spec_playback(),
            if old(self).spec_step() + 1 < COLOR_STEPS {
                final(self).spec_step() == old(self).spec_step() + 1 && final(self).spec_color()
                    == old(self).spec_color() && final(self).spec_next_color() == old(
                    self,
                ).spec_next_color()
            } else {
                final(self).spec_step() == 0 && final(self).spec_color() == old(
                    self,
                ).spec_next_color()
            },
            frame_color == spec_blend_word(
                final(self).spec_color(),
                final(self).spec_next_color(),
                final(self).spec_step() as int,
                COLOR_STEPS as int,
            ),
    {
        self.step = self.step + 1;
        if self.step >= COLOR_STEPS {
            self.color = self.next_color;
            let seed = random_u32();
            let fresh = seed & 0x00_ff_ff_ff;
            proof {
                assert(fresh <= 0xff_ff_ff) by (bit_vector)
                    requires
                        fresh == seed & 0x00_ff_ff_ffu32,
                ;
            }
            self.next_color = fresh;
            self.step = 0;
        }
        RGB::blend(self.color, self.next_color, self.step, COLOR_STEPS)
    }

    /// Run one tick: handle at most one pending event from the view, detect
    /// a pointer rising edge, and pick this frame's color.
    pub fn run_one(&mut self, inbound: Option<ViewToWorldEvent>, pointer_down: bool) -> (out:
        TickOutput)
        requires
            old(self).wf(),
            inbound matches Some(ViewToWorldEvent::Audio(p)) ==> old(self).spec_playback().len()
                + p@.len() <= usize::MAX,
        ensures
            final(self).wf(),
            final(self).spec_name() == old(self).spec_name(),
            out.click == (pointer_down && !old(self).spec_mouse_down()),
            final(self).spec_mouse_down() == pointer_down,
            match inbound {
                Some(ViewToWorldEvent::Show(name, count)) => out.capture is None && out.shown
                    == Some((name, count)) && final(self).spec_playback() == old(
                    self,
                ).spec_playback(),
                Some(ViewToWorldEvent::StartRecording) => out.capture == Some(true) && out.shown
                    is None && final(self).spec_playback() == old(self).spec_playback(),
                Some(ViewToWorldEvent::StopRecording) => out.capture == Some(false) && out.shown
                    is None && final(self).spec_playback() == old(self).spec_playback(),
                Some(ViewToWorldEvent::Audio(p)) => out.capture is None && out.shown is None
                    && final(self).spec_playback() == old(self).spec_playback() + p@,
                None => out.capture is None && out.shown is None && final(self).spec_playback()
                    == old(self).spec_playback(),
            },
            if old(self).spec_step() + 1 < COLOR_STEPS {
                final(self).spec_step() == old(self).spec_step() + 1 && final(self).spec_color()
                    == old(self).spec_color() && final(self).spec_next_color() == old(
                    self,
                ).spec_next_color()
            } else {
                final(self).spec_step() == 0 && final(self).spec_color() == old(
                    self,
                ).spec_next_color()
            },
            out.frame_color == spec_blend_word(
                final(self).spec_color(),
                final(self).spec_next_color(),
                final(self).spec_step() as int,
                COLOR_STEPS as int,
            ),
    {
        let (capture, shown) = match inbound {
            Some(event) => self.handle_view(event),
            None => (None, None),
        };
        let click = self.observe_pointer(pointer_down);
        let frame_color = self.advance_color();
        TickOutput { click, capture, shown, frame_color }
    }

    /// How many samples are queued for playback.
    pub fn playback_len(&self) -> (n: usize)
        ensures
            n == self.spec_playback().len(),
    {
        self.playback.queued_len()
    }

    /// Fill a playback request from the queued packets, silence past them.
    pub fn fill_playback(&mut self, count: usize) -> (out: Vec<u16>)
        ensures
            out@.len() == count,
            ({
                let played = if count <= old(self).spec_playback().len() {
                    count as int
                } else {
                    old(self).spec_playback().len() as int
                };
                &&& forall|i: int| 0 <= i < played ==> out@[i] == old(self).spec_playback()[i]
                &&& forall|i: int| played <= i < count ==> out@[i] == crate::codec::MIDPOINT
                &&& final(self).spec_playback() == old(self).spec_playback().skip(played)
            }),
            final(self).spec_name() == old(self).spec_name(),
            final(self).spec_color() == old(self).spec_color(),
            final(self).spec_next_color() == old(self).spec_next_color(),
            final(self).spec_step() == old(self).spec_step(),
            final(self).spec_mouse_down() == old(self).spec_mouse_down(),
    {
        self.playback.fill(count)
    }
}

} // verus!
