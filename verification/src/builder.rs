//! Session configuration: the serial port path, baud rate and read timeout a
//! session is opened with, with the protocol's documented defaults. Opening
//! the port itself is transport work and happens outside the verified core.

use vstd::prelude::*;

use crate::DEFAULT_BAUDRATE;

verus! {

/// Default serial read timeout, in milliseconds.
pub const DEFAULT_TIMEOUT_MS: u64 = 1_000;

/// Accumulates the configuration a session's serial port is opened with:
/// a port path, an optional baud rate and an optional timeout.
pub struct Builder<'a> {
    path: &'a str,
    baud_rate: Option<u32>,
    timeout_ms: Option<u64>,
}

impl<'a> Builder<'a> {
    /// The configured port path.
    pub closed spec fn spec_path(&self) -> Seq<char> {
        self.path@
    }

    /// The configured baud rate, if one was set.
    pub closed spec fn spec_baud_rate(&self) -> Option<u32> {
        self.baud_rate
    }

    /// The configured timeout in milliseconds, if one was set.
    pub closed spec fn spec_timeout_ms(&self) -> Option<u64> {
        self.timeout_ms
    }

    /// Starts a configuration for the serial device at `path`, with no baud
    /// rate or timeout chosen yet.
    pub fn with_path(path: &'a str) -> (s: Self)
        ensures
            s.spec_path() == path@,
            s.spec_baud_rate() is None,
            s.spec_timeout_ms() is None,
    {
        Builder { path, baud_rate: None, timeout_ms: None }
    }

    /// Chooses a baud rate.
    pub fn and_baud_rate(self, baud_rate: u32) -> (s: Self)
        ensures
            s.spec_path() == self.spec_path(),
            s.spec_baud_rate() == Some(baud_rate),
            s.spec_timeout_ms() == self.spec_timeout_ms(),
    {
        Builder { baud_rate: Some(baud_rate), ..self }
    }

    /// Chooses a serial read timeout, in milliseconds.
    pub fn and_timeout(self, timeout_ms: u64) -> (s: Self)
        ensures
            s.spec_path() == self.spec_path(),
            s.spec_baud_rate() == self.spec_baud_rate(),
            s.spec_timeout_ms() == Some(timeout_ms),
    {
        Builder { timeout_ms: Some(timeout_ms), ..self }
    }

    /// The port path the session will open.
    pub fn port_path(&self) -> (r: &str)
        ensures
            r@ == self.spec_path(),
    {
        self.path
    }

    /// The baud rate to open the port with: the chosen one, or the protocol's
    /// default.
    pub fn baud_rate(&self) -> (r: u32)
        ensures
            r == match self.spec_baud_rate() {
                Some(b) => b,
                None => DEFAULT_BAUDRATE,
            },
    {
        match self.baud_rate {
            Some(b) => b,
            None => DEFAULT_BAUDRATE,
        }
    }

    /// The serial read timeout to open the port with, in milliseconds: the
    /// chosen one, or one second.
    pub fn timeout_ms(&self) -> (r: u64)
        ensures
            r == match self.spec_timeout_ms() {
                Some(t) => t,
                None => DEFAULT_TIMEOUT_MS,
            },
    {
        match self.timeout_ms {
            Some(t) => t,
            None => DEFAULT_TIMEOUT_MS,
        }
    }
}

} // verus!
