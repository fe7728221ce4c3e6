//! Serial-port monitoring.
//!
//! A monitor owns a serial port and watches it for lines to report.  The
//! port itself is whatever the caller provides behind the `SerialPort`
//! trait; actual reading runs in the driver's loop.

use vstd::prelude::*;

verus! {

use core::time::Duration;

/// A serial port, as the monitor needs one: byte-level reads and writes
/// with a timeout.  Callers provide the implementation.
pub trait SerialPort {
    /// How many bytes are waiting to be read.
    fn num_available(&mut self) -> u32;

    /// Write the bytes out; returns how many were written.
    fn write(&mut self, data: &Vec<u8>) -> usize;

    /// Read one byte, waiting at most `timeout`.
    fn read_byte(&mut self, timeout: Duration) -> Vec<u8>;

    /// Read up to `num_bytes` bytes, waiting at most `timeout`.
    fn read_bytes(&mut self, num_bytes: usize, timeout: Duration) -> Vec<u8>;

    /// Read up to a line break, waiting at most `timeout`.
    fn read_line(&mut self, timeout: Duration) -> Vec<u8>;

    /// Flush pending output.
    fn flush(&mut self);
}

/// The error type of the `anyhow` crate, opaque here: the monitor reports
/// failures through it.
#[verifier::external_type_specification]
#[verifier::external_body]
pub struct ExAnyhowError(anyhow::Error);

/// Watches a serial port and reports what arrives on it.
pub struct Monitor<P: SerialPort> {
    port: P,
}

impl<P: SerialPort> Monitor<P> {
    /// The port the monitor owns.
    pub closed spec fn spec_port(&self) -> P {
        self.port
    }

    /// A monitor over the given port.
    pub fn new(port: P) -> (m: Monitor<P>)
        ensures
            m.spec_port() == port,
    {
        Monitor { port }
    }

    /// Begin monitoring.  There is no background reader to start — reading
    /// runs in the driver's loop — so this always succeeds and changes
    /// nothing.
    pub fn start_read_thread(&mut self) -> (r: Result<(), anyhow::Error>)
        ensures
            r is Ok,
            *final(self) == *old(self),
    {
        Ok(())
    }
}

} // verus!
