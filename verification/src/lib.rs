//! A two-device audio/event testbed.
//!
//! Two virtual devices, each owning a microphone/speaker pair and an
//! interactive surface, exchange click events and audio packets over an
//! in-process network relay.  This crate holds the verified core: the
//! sample codec, the packetizer/depacketizer pipeline, the per-device
//! world/view/controller state machines and the relay.  Platform audio,
//! windowing and thread plumbing live outside and hand plain values in.

pub mod codec;
pub mod controller;
pub mod device;
pub mod events;
pub mod monitor;
pub mod packet;
pub mod platform;
pub mod records;
pub mod relay;
pub mod rgb;
pub mod view;
pub mod world;
