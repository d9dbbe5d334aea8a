//! The command vocabulary and its one-byte wire encoding.

use vstd::prelude::*;

verus! {

/// A command that the module understands.
#[derive(Clone, Copy, Debug, PartialEq, Eq, Structural)]
pub enum Command {
    LaserOn,
    LaserOff,
    ReadState,
    StartMeasurement,
    StartMeasurementFast,
    StartMeasurementSlow,
    ReadVersion,
    SwitchOff,
}

impl Command {
    /// The byte that stands for this command on the wire.
    pub open spec fn wire_byte(self) -> u8 {
        match self {
            Command::LaserOn => 0x4f,
            Command::LaserOff => 0x43,
            Command::ReadState => 0x53,
            Command::StartMeasurement => 0x44,
            Command::StartMeasurementSlow => 0x4d,
            Command::StartMeasurementFast => 0x46,
            Command::ReadVersion => 0x56,
            Command::SwitchOff => 0x58,
        }
    }

    /// Encodes the command as its wire byte.
    pub fn value(&self) -> (byte: u8)
        ensures
            byte == self.wire_byte(),
    {
        match *self {
            Command::LaserOn => 0x4f,
            Command::LaserOff => 0x43,
            Command::ReadState => 0x53,
            Command::StartMeasurement => 0x44,
            Command::StartMeasurementSlow => 0x4d,
            Command::StartMeasurementFast => 0x46,
            Command::ReadVersion => 0x56,
            Command::SwitchOff => 0x58,
        }
    }
}

/// No two commands share a wire byte.
pub proof fn lemma_wire_bytes_differ(a: Command, b: Command)
    ensures
        a != b ==> a.wire_byte() != b.wire_byte(),
{
}

} // verus!
