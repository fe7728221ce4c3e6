//! Event vocabularies, one per channel hop.
//!
//! Each hop of the pipeline (world to view, view to world, view to
//! controller, controller to view, controller to network) speaks its own
//! tagged union; the view and the controller translate between them.  An
//! audio payload is an ordered packet of wire-format samples and moves
//! through every hop unchanged.

use vstd::prelude::*;

verus! {

/// An ordered, finite packet of wire-format audio samples.
pub type AudioPacket = Vec<u16>;

/// What a device's world reports to its view.
pub enum WorldToViewEvent {
    /// The local pointer went down: one event per rising edge.
    Click,
    /// A packet captured from the local microphone.
    Audio(AudioPacket),
}

/// What a view hands down to its world.
pub enum ViewToWorldEvent {
    /// Display a device's click count.
    Show(&'static str, usize),
    /// Start the capture stream.
    StartRecording,
    /// Pause the capture stream.
    StopRecording,
    /// A packet to queue for local playback.
    Audio(AudioPacket),
}

/// What a view reports up to its controller.
pub enum ViewToControllerEvent {
    /// A local click.
    Click,
    /// A packet captured locally, on its way out.
    Audio(AudioPacket),
}

/// What a controller hands down to its view.
pub enum ControllerToViewEvent {
    /// Display a device's click count.
    Show(&'static str, usize),
    /// Start the capture stream.
    StartRecording,
    /// Pause the capture stream.
    StopRecording,
    /// A packet received from the peer, bound for playback.
    Audio(AudioPacket),
}

/// What crosses the wire between the two devices.
pub enum NetworkEvent {
    /// A click on the named device.
    Click(&'static str),
    /// A packet of audio from the sending device.
    Audio(AudioPacket),
}

/// One event arriving at a controller, tagged with the channel it came in on.
pub enum ControllerInput {
    /// From the device's own view.
    FromView(ViewToControllerEvent),
    /// From the peer, over the network relay.
    FromNetwork(NetworkEvent),
}

} // verus!
