//! Protocol core for a laser distance-measurement module on a serial link.
//!
//! The module takes one-byte commands and answers each with one line of
//! ASCII text. `LaserRangeFinder` drives one exchange at a time: it says
//! which byte to write and when to poll the channel and the timer, gathers
//! the bytes of the answer in a bounded line buffer, and decodes the line
//! once its terminator has arrived.

pub mod command;
pub mod error;
pub mod exchange;
pub mod numeral;
pub mod response;
pub mod trusted;

use vstd::prelude::*;
use fugit::MicrosDurationU64;
use crate::command::Command;
use crate::error::Error;
use crate::exchange::{
    begin_read, begin_send, line_reply, request, step, Action, Event, Phase, Session, LINE_FEED,
};
use crate::response::{outcome, parse_laser_response, LaserResponse};
use crate::trusted::{
    buffer_bytes, held, new_buffer, push_byte, text_of, LineBuffer, LINE_CAPACITY,
};

verus! {

/// The driver of the exchanges with one module.
pub struct LaserRangeFinder {
    phase: Phase,
    buffer: LineBuffer,
}

impl View for LaserRangeFinder {
    type V = Session;

    closed spec fn view(&self) -> Session {
        Session { phase: self.phase, line: held(self.buffer) }
    }
}

impl LaserRangeFinder {
    #[verifier::type_invariant]
    spec fn line_fits(self) -> bool {
        held(self.buffer).len() <= LINE_CAPACITY
    }

    /// A driver with no exchange under way.
    pub fn new() -> (driver: Self)
        ensures
            driver@ == (Session { phase: Phase::Idle, line: Seq::empty() }),
    {
        LaserRangeFinder { phase: Phase::Idle, buffer: new_buffer() }
    }

    /// Begins an exchange that sends `cmd`, and asks for its byte to be
    /// written. An exchange that was under way is given up.
    pub fn send_command(&mut self, cmd: Command) -> (action: Action)
        ensures
            final(self)@ == begin_send(old(self)@, cmd).session,
            action@ == begin_send(old(self)@, cmd).action,
            final(self)@.within_capacity(),
    {
        proof {
            use_type_invariant(&*self);
        }
        let byte = cmd.value();
        self.phase = Phase::Sending(byte);
        Action::Write(byte)
    }

    /// Begins an exchange that switches the laser on.
    pub fn laser_on(&mut self) -> (action: Action)
        ensures
            final(self)@ == begin_send(old(self)@, Command::LaserOn).session,
            action@ == begin_send(old(self)@, Command::LaserOn).action,
            final(self)@.within_capacity(),
    {
        self.send_command(Command::LaserOn)
    }

    /// Begins an exchange that switches the laser off.
    pub fn laser_off(&mut self) -> (action: Action)
        ensures
            final(self)@ == begin_send(old(self)@, Command::LaserOff).session,
            action@ == begin_send(old(self)@, Command::LaserOff).action,
            final(self)@.within_capacity(),
    {
        self.send_command(Command::LaserOff)
    }

    /// Begins an exchange that asks for the state of the module.
    pub fn read_state(&mut self) -> (action: Action)
        ensures
            final(self)@ == begin_send(old(self)@, Command::ReadState).session,
            action@ == begin_send(old(self)@, Command::ReadState).action,
            final(self)@.within_capacity(),
    {
        self.send_command(Command::ReadState)
    }

    /// Begins an exchange that starts a measurement.
    pub fn start_measure(&mut self) -> (action: Action)
        ensures
            final(self)@ == begin_send(old(self)@, Command::StartMeasurement).session,
            action@ == begin_send(old(self)@, Command::StartMeasurement).action,
            final(self)@.within_capacity(),
    {
        self.send_command(Command::StartMeasurement)
    }

    /// Begins an exchange that starts a slow measurement.
    pub fn start_measure_slow(&mut self) -> (action: Action)
        ensures
            final(self)@ == begin_send(old(self)@, Command::StartMeasurementSlow).session,
            action@ == begin_send(old(self)@, Command::StartMeasurementSlow).action,
            final(self)@.within_capacity(),
    {
        self.send_command(Command::StartMeasurementSlow)
    }

    /// Begins an exchange that starts a fast measurement.
    pub fn start_measure_fast(&mut self) -> (action: Action)
        ensures
            final(self)@ == begin_send(old(self)@, Command::StartMeasurementFast).session,
            action@ == begin_send(old(self)@, Command::StartMeasurementFast).action,
            final(self)@.within_capacity(),
    {
        self.send_command(Command::StartMeasurementFast)
    }

    /// Begins an exchange that asks for the version of the module.
    pub fn read_version(&mut self) -> (action: Action)
        ensures
            final(self)@ == begin_send(old(self)@, Command::ReadVersion).session,
            action@ == begin_send(old(self)@, Command::ReadVersion).action,
            final(self)@.within_capacity(),
    {
        self.send_command(Command::ReadVersion)
    }

    /// Begins an exchange that switches the module off.
    pub fn switch_off(&mut self) -> (action: Action)
        ensures
            final(self)@ == begin_send(old(self)@, Command::SwitchOff).session,
            action@ == begin_send(old(self)@, Command::SwitchOff).action,
            final(self)@.within_capacity(),
    {
        self.send_command(Command::SwitchOff)
    }

    /// Begins an exchange that reads one response within `timeout`, and asks
    /// for the timer to be started. The line buffer is emptied; an exchange
    /// that was under way is given up.
    pub fn read_response(&mut self, timeout: MicrosDurationU64) -> (action: Action)
        ensures
            final(self)@ == begin_read(timeout).session,
            action@ == begin_read(timeout).action,
            final(self)@.within_capacity(),
    {
        self.buffer = new_buffer();
        self.phase = Phase::Arming(timeout);
        Action::StartTimer(timeout)
    }

    /// The bytes of the line that have been read so far, the terminator
    /// included once it has arrived.
    pub fn line(&self) -> (bytes: &[u8])
        ensures
            bytes@ == self@.line,
            self@.within_capacity(),
    {
        proof {
            use_type_invariant(self);
        }
        buffer_bytes(&self.buffer)
    }

    /// Decodes the line that the buffer holds.
    fn decode_buffer(&self) -> (r: Result<LaserResponse, Error>)
        ensures
            outcome(r) == line_reply(self@.line),
    {
        match text_of(buffer_bytes(&self.buffer)) {
            Some(text) => parse_laser_response(text),
            None => Err(Error::Parse),
        }
    }

    /// Takes a byte that the channel gave while it was polled.
    fn take_byte(&mut self, byte: u8) -> (action: Action)
        requires
            old(self)@.phase == Phase::Listening,
        ensures
            final(self)@ == step(old(self)@, Event::Byte(byte)).session,
            action@ == step(old(self)@, Event::Byte(byte)).action,
            final(self)@.within_capacity(),
    {
        proof {
            use_type_invariant(&*self);
        }
        match push_byte(&mut self.buffer, byte) {
            Err(_) => {
                self.phase = Phase::Idle;
                Action::Failed(Error::BufferFull)
            },
            Ok(()) => if byte == LINE_FEED {
                self.phase = Phase::Idle;
                match self.decode_buffer() {
                    Ok(response) => Action::Received(response),
                    Err(e) => Action::Failed(e),
                }
            } else {
                self.phase = Phase::Watching;
                Action::PollTimer
            },
        }
    }

    /// The action that the driver is waiting for an answer to.
    fn pending(&self) -> (action: Action)
        ensures
            action@ == request(self@.phase),
    {
        match self.phase {
            Phase::Idle => Action::Idle,
            Phase::Sending(byte) => Action::Write(byte),
            Phase::Arming(timeout) => Action::StartTimer(timeout),
            Phase::Listening => Action::PollChannel,
            Phase::Watching => Action::PollTimer,
        }
    }

    /// Takes what came of the last action and says what to do next, or how
    /// the exchange ended.
    pub fn handle(&mut self, event: Event) -> (action: Action)
        ensures
            final(self)@ == step(old(self)@, event).session,
            action@ == step(old(self)@, event).action,
            final(self)@.within_capacity(),
    {
        proof {
            use_type_invariant(&*self);
        }
        match (self.phase, event) {
            (Phase::Sending(_), Event::Written) => {
                self.phase = Phase::Idle;
                Action::Sent
            },
            (Phase::Sending(byte), Event::WriteBlocked) => Action::Write(byte),
            (Phase::Sending(_), Event::WriteFailed) => {
                self.phase = Phase::Idle;
                Action::Failed(Error::Write)
            },
            (Phase::Arming(_), Event::TimerStarted) => {
                self.phase = Phase::Listening;
                Action::PollChannel
            },
            (Phase::Listening, Event::Byte(byte)) => self.take_byte(byte),
            (Phase::Listening, Event::NoByte) => {
                self.phase = Phase::Watching;
                Action::PollTimer
            },
            (Phase::Listening, Event::ReadFailed) => {
                self.phase = Phase::Idle;
                Action::Failed(Error::Read)
            },
            (Phase::Watching, Event::Expired) => {
                self.phase = Phase::Idle;
                Action::Failed(Error::Timeout)
            },
            (Phase::Watching, Event::Running) => {
                self.phase = Phase::Listening;
                Action::PollChannel
            },
            (Phase::Watching, Event::TimerFailed) => {
                self.phase = Phase::Idle;
                Action::Failed(Error::Timer)
            },
            _ => self.pending(),
        }
    }
}

} // verus!
