//! The ways in which an exchange with the module can fail.

use vstd::prelude::*;

verus! {

/// Why an exchange failed. Every failure ends the exchange it occurs in.
#[derive(Clone, Copy, Debug, PartialEq, Eq, Structural)]
pub enum Error {
    /// The channel reported a failure while reading.
    Read,
    /// The channel reported a failure while writing.
    Write,
    /// The serial line does not support the baud rate.
    InvalidBaudRate,
    /// The serial line has no such channel.
    InvalidChannel,
    /// The timer expired before the line terminator arrived.
    Timeout,
    /// The line is not valid text, matches no response shape, or holds a
    /// field that is not a number.
    Parse,
    /// The response outgrew the line buffer before the terminator arrived.
    BufferFull,
    /// The timer reported a failure.
    Timer,
}

} // verus!
