//! Platform abstraction for the status application.
//!
//! A platform is a collection of board capabilities — here a status LED —
//! that calling code claims for the application's use.  The design aims at
//! microcontroller boards while allowing a desktop stand-in for development;
//! timing and the run loop are the driver's business, so the traits here
//! carry only the capabilities themselves.

use vstd::prelude::*;

verus! {

/// An LED on the board.
pub trait Led {
    /// Whether the LED is lit.
    spec fn spec_on(&self) -> bool;

    /// Turn on the LED.
    fn set_high(&mut self)
        ensures
            final(self).spec_on(),
    ;

    /// Turn off the LED.
    fn set_low(&mut self)
        ensures
            !final(self).spec_on(),
    ;
}

/// The capabilities a board offers the status application.  Capabilities
/// are handed out at most once, so independent tasks can own them outright.
pub trait Platform: Sized {
    /// The board's status indicator.
    type StatusLed: Led;

    /// A human-readable name for the platform.
    fn name() -> &'static str;

    /// An LED that can be used as a status indicator, while one is still
    /// unclaimed.
    fn status_led(&mut self) -> Option<Self::StatusLed>;
}

/// An instantiation of the platform abstraction on a developer macOS
/// machine, standing in for the hardware board.
pub struct MacOsPlatform;

impl Default for MacOsPlatform {
    fn default() -> (p: MacOsPlatform)
        ensures
            p == MacOsPlatform,
    {
        MacOsPlatform
    }
}

impl Platform for MacOsPlatform {
    type StatusLed = StatusLed;

    fn name() -> &'static str {
        "macos"
    }

    fn status_led(&mut self) -> Option<StatusLed> {
        Some(StatusLed { level: false })
    }
}

/// An ersatz status LED that records the level it was last driven to.
pub struct StatusLed {
    /// The level the LED was last driven to.
    pub level: bool,
}

impl Led for StatusLed {
    open spec fn spec_on(&self) -> bool {
        self.level
    }

    fn set_high(&mut self) {
        self.level = true;
    }

    fn set_low(&mut self) {
        self.level = false;
    }
}

/// An `App` instance for a platform `P` encapsulates the status application
/// on that platform.
pub struct App<P> {
    platform: P,
}

impl<P: Platform> App<P> {
    /// The platform the app was instantiated on.
    pub closed spec fn spec_platform(&self) -> P {
        self.platform
    }

    /// Instantiate the app on the given platform.
    pub fn new(platform: P) -> (app: App<P>)
        ensures
            app.spec_platform() == platform,
    {
        App { platform }
    }

    /// Claim the platform's status LED for the app's blink loop.
    pub fn status_led(&mut self) -> Option<P::StatusLed> {
        self.platform.status_led()
    }
}

} // verus!
