//! One exchange with the module as a machine of states: what the driver
//! asks of its caller, what the caller reports back, and where that leads.
//!
//! The driver touches neither channel nor timer. It hands its caller one
//! `Action` at a time; the caller carries it out and reports what came of it
//! as an `Event`. A command is written until the channel takes it. A response
//! is read in cycles: in each the channel is polled first and the timer
//! second, so that a byte that is there when the timer expires still counts.

use vstd::prelude::*;
use vstd::utf8::valid_utf8;
use fugit::MicrosDurationU64;
use crate::command::Command;
use crate::error::Error;
use crate::response::{decode, LaserResponse, Reply};
use crate::trusted::LINE_CAPACITY;

verus! {

/// The byte that ends a line.
pub const LINE_FEED: u8 = 0x0a;

/// What came of the action that the driver asked for last.
#[derive(Clone, Copy, Debug, PartialEq, Eq, Structural)]
pub enum Event {
    /// The channel took the byte.
    Written,
    /// The channel was not ready to take the byte.
    WriteBlocked,
    /// The channel failed while writing.
    WriteFailed,
    /// The timer was started.
    TimerStarted,
    /// The channel gave this byte.
    Byte(u8),
    /// The channel had no byte ready.
    NoByte,
    /// The channel failed while reading.
    ReadFailed,
    /// The timer has expired.
    Expired,
    /// The timer has not expired yet.
    Running,
    /// The timer failed.
    TimerFailed,
}

/// What the driver asks of its caller, or how the exchange ended.
#[derive(Clone, Copy, Debug, PartialEq)]
pub enum Action {
    /// No exchange is under way: there is nothing to do.
    Idle,
    /// Write this byte to the channel.
    Write(u8),
    /// Start the timer with this duration.
    StartTimer(MicrosDurationU64),
    /// Poll the channel for a byte.
    PollChannel,
    /// Poll the timer for expiry.
    PollTimer,
    /// The command is written: the exchange has ended.
    Sent,
    /// The response is read: the exchange has ended.
    Received(LaserResponse),
    /// The exchange has ended in failure.
    Failed(Error),
}

/// An `Action`, with a response as what it says.
pub enum Directive {
    Idle,
    Write(u8),
    StartTimer(MicrosDurationU64),
    PollChannel,
    PollTimer,
    Sent,
    Received(Reply),
    Failed(Error),
}

impl View for Action {
    type V = Directive;

    open spec fn view(&self) -> Directive {
        match *self {
            Action::Idle => Directive::Idle,
            Action::Write(byte) => Directive::Write(byte),
            Action::StartTimer(timeout) => Directive::StartTimer(timeout),
            Action::PollChannel => Directive::PollChannel,
            Action::PollTimer => Directive::PollTimer,
            Action::Sent => Directive::Sent,
            Action::Received(response) => Directive::Received(response@),
            Action::Failed(e) => Directive::Failed(e),
        }
    }
}

/// Where an exchange stands: which answer the driver is waiting for.
#[derive(Clone, Copy, Debug, PartialEq)]
pub enum Phase {
    /// No exchange is under way.
    Idle,
    /// This command byte is to be written.
    Sending(u8),
    /// The timer is to be started with this duration.
    Arming(MicrosDurationU64),
    /// The channel is to be polled.
    Listening,
    /// The timer is to be polled.
    Watching,
}

/// The state of the driver: its phase and the bytes of the line read so far.
pub struct Session {
    pub phase: Phase,
    pub line: Seq<u8>,
}

impl Session {
    /// Whether the line has room in the line buffer. Every session of a
    /// driver is within capacity: a byte that would make the line longer than
    /// that fails the exchange and is dropped.
    pub open spec fn within_capacity(self) -> bool {
        self.line.len() <= LINE_CAPACITY
    }
}

/// A session and the action that goes with it.
pub struct Step {
    pub session: Session,
    pub action: Directive,
}

/// The action that a phase is waiting for an answer to.
pub open spec fn request(phase: Phase) -> Directive {
    match phase {
        Phase::Idle => Directive::Idle,
        Phase::Sending(byte) => Directive::Write(byte),
        Phase::Arming(timeout) => Directive::StartTimer(timeout),
        Phase::Listening => Directive::PollChannel,
        Phase::Watching => Directive::PollTimer,
    }
}

/// What a complete line says: the bytes must be valid UTF-8 and are then
/// decoded.
pub open spec fn line_reply(line: Seq<u8>) -> Result<Reply, Error> {
    if valid_utf8(line) {
        decode(line)
    } else {
        Err(Error::Parse)
    }
}

/// The action that ends an exchange with this outcome.
pub open spec fn conclusion(outcome: Result<Reply, Error>) -> Directive {
    match outcome {
        Ok(reply) => Directive::Received(reply),
        Err(e) => Directive::Failed(e),
    }
}

/// The session `s` with its phase changed to `phase`.
pub open spec fn enter(s: Session, phase: Phase) -> Session {
    Session { phase, line: s.line }
}

/// A new exchange that sends `command`: its byte is to be written.
pub open spec fn begin_send(s: Session, command: Command) -> Step {
    Step {
        session: enter(s, Phase::Sending(command.wire_byte())),
        action: Directive::Write(command.wire_byte()),
    }
}

/// A new exchange that reads a response within `timeout`: the line is empty
/// and the timer is to be started.
pub open spec fn begin_read(timeout: MicrosDurationU64) -> Step {
    Step {
        session: Session { phase: Phase::Arming(timeout), line: Seq::empty() },
        action: Directive::StartTimer(timeout),
    }
}

/// What the arrival of `byte` leads to while the channel is polled. A full
/// line buffer fails the exchange before the byte is looked at; the line
/// terminator ends the line, which is then decoded; any other byte is kept
/// and the timer is polled next.
pub open spec fn take_byte(s: Session, byte: u8) -> Step {
    if s.line.len() >= LINE_CAPACITY {
        Step { session: enter(s, Phase::Idle), action: Directive::Failed(Error::BufferFull) }
    } else if byte == LINE_FEED {
        Step {
            session: Session { phase: Phase::Idle, line: s.line.push(byte) },
            action: conclusion(line_reply(s.line.push(byte))),
        }
    } else {
        Step {
            session: Session { phase: Phase::Watching, line: s.line.push(byte) },
            action: Directive::PollTimer,
        }
    }
}

/// What `event` leads to in session `s`. A write that the channel was not
/// ready for is asked for again. An event that is no answer to the action
/// that the session is waiting for changes nothing, and the action is asked
/// for again.
pub open spec fn step(s: Session, event: Event) -> Step {
    match (s.phase, event) {
        (Phase::Sending(_), Event::Written) => Step {
            session: enter(s, Phase::Idle),
            action: Directive::Sent,
        },
        (Phase::Sending(byte), Event::WriteBlocked) => Step {
            session: s,
            action: Directive::Write(byte),
        },
        (Phase::Sending(_), Event::WriteFailed) => Step {
            session: enter(s, Phase::Idle),
            action: Directive::Failed(Error::Write),
        },
        (Phase::Arming(_), Event::TimerStarted) => Step {
            session: enter(s, Phase::Listening),
            action: Directive::PollChannel,
        },
        (Phase::Listening, Event::Byte(byte)) => take_byte(s, byte),
        (Phase::Listening, Event::NoByte) => Step {
            session: enter(s, Phase::Watching),
            action: Directive::PollTimer,
        },
        (Phase::Listening, Event::ReadFailed) => Step {
            session: enter(s, Phase::Idle),
            action: Directive::Failed(Error::Read),
        },
        (Phase::Watching, Event::Expired) => Step {
            session: enter(s, Phase::Idle),
            action: Directive::Failed(Error::Timeout),
        },
        (Phase::Watching, Event::Running) => Step {
            session: enter(s, Phase::Listening),
            action: Directive::PollChannel,
        },
        (Phase::Watching, Event::TimerFailed) => Step {
            session: enter(s, Phase::Idle),
            action: Directive::Failed(Error::Timer),
        },
        _ => Step { session: s, action: request(s.phase) },
    }
}

/// The session that `events` lead to from `s`, taken one after the other.
pub open spec fn run(s: Session, events: Seq<Event>) -> Session
    decreases events.len(),
{
    if events.len() == 0 {
        s
    } else {
        step(run(s, events.drop_last()), events.last()).session
    }
}

/// The bytes that the channel gave in `events`, in the order in which it
/// gave them.
pub open spec fn delivered(events: Seq<Event>) -> Seq<u8>
    decreases events.len(),
{
    if events.len() == 0 {
        Seq::empty()
    } else {
        match events.last() {
            Event::Byte(byte) => delivered(events.drop_last()).push(byte),
            _ => delivered(events.drop_last()),
        }
    }
}

/// Whether `events` are whole polling cycles in which the timer keeps
/// running: a poll of the channel that gives a byte or none, then a poll of
/// the timer that finds it not expired, any number of times.
pub open spec fn is_polling(events: Seq<Event>) -> bool {
    &&& events.len() % 2 == 0
    &&& forall|i: int|
        0 <= i < events.len() ==> if i % 2 == 0 {
            #[trigger] events[i] is Byte || events[i] is NoByte
        } else {
            events[i] is Running
        }
}

/// A session that polls the channel next and has read `line` so far.
pub open spec fn listening(line: Seq<u8>) -> Session {
    Session { phase: Phase::Listening, line }
}

/// `n` times the same event.
pub open spec fn repeated(event: Event, n: nat) -> Seq<Event> {
    Seq::new(n, |i: int| event)
}

/// The line never outgrows the line buffer, whatever happens.
pub proof fn lemma_line_stays_within_capacity(s: Session, events: Seq<Event>)
    requires
        s.within_capacity(),
    ensures
        run(s, events).within_capacity(),
    decreases events.len(),
{
    if events.len() > 0 {
        lemma_line_stays_within_capacity(s, events.drop_last());
    }
}

/// A command is written until the channel takes it or fails: however often
/// the channel is not ready, the driver asks for the same byte again and
/// stays as it is. Once the channel takes the byte the exchange ends with
/// `Sent`; once it fails, with `Error::Write`.
pub proof fn lemma_write_is_retried(s: Session, command: Command, n: nat)
    ensures
        run(begin_send(s, command).session, repeated(Event::WriteBlocked, n)) == begin_send(
            s,
            command,
        ).session,
        step(begin_send(s, command).session, Event::WriteBlocked).action == Directive::Write(
            command.wire_byte(),
        ),
        step(begin_send(s, command).session, Event::Written).action == Directive::Sent,
        step(begin_send(s, command).session, Event::WriteFailed).action == Directive::Failed(
            Error::Write,
        ),
    decreases n,
{
    if n > 0 {
        lemma_write_is_retried(s, command, (n - 1) as nat);
        assert(repeated(Event::WriteBlocked, n).drop_last() =~= repeated(
            Event::WriteBlocked,
            (n - 1) as nat,
        ));
    }
}

/// Once the timer is started, a read polls the channel first, with an empty
/// line.
pub proof fn lemma_read_begins_with_the_channel(timeout: MicrosDurationU64)
    ensures
        step(begin_read(timeout).session, Event::TimerStarted).session == listening(Seq::empty()),
        step(begin_read(timeout).session, Event::TimerStarted).action == Directive::PollChannel,
{
}

/// While the timer runs, the line is not complete and the buffer has room,
/// the session depends on the bytes that the channel gave and on nothing
/// else: polls that found the channel not ready leave no trace.
pub proof fn lemma_polls_gather_the_line(line: Seq<u8>, events: Seq<Event>)
    requires
        is_polling(events),
        !delivered(events).contains(LINE_FEED),
        line.len() + delivered(events).len() <= LINE_CAPACITY,
    ensures
        run(listening(line), events) == listening(line + delivered(events)),
    decreases events.len(),
{
    if events.len() > 0 {
        let n = events.len() as int;
        let head = events.take(n - 2);
        let poll = events[n - 2];
        assert(events.drop_last().drop_last() =~= head);
        assert(is_polling(head));
        assert(delivered(events) == delivered(events.drop_last()));
        if let Event::Byte(byte) = poll {
            assert(delivered(events)[delivered(head).len() as int] == byte);
            assert forall|i: int| 0 <= i < delivered(head).len() implies delivered(head)[i]
                != LINE_FEED by {
                assert(delivered(events)[i] == delivered(head)[i]);
            }
        }
        lemma_polls_gather_the_line(line, head);
        assert(run(listening(line), events.drop_last()) == step(
            run(listening(line), head),
            poll,
        ).session);
    }
}

/// A line that arrives whole before the timer expires is decoded, however
/// many polls found the channel not ready before each of its bytes: when
/// the terminator arrives while the buffer has room for it, the exchange
/// ends with what the line says, the terminator included.
pub proof fn lemma_complete_line_is_decoded(events: Seq<Event>)
    requires
        is_polling(events),
        !delivered(events).contains(LINE_FEED),
        delivered(events).len() < LINE_CAPACITY,
    ensures
        step(run(listening(Seq::empty()), events), Event::Byte(LINE_FEED)).action == conclusion(
            line_reply(delivered(events).push(LINE_FEED)),
        ),
        step(run(listening(Seq::empty()), events), Event::Byte(LINE_FEED)).session.phase
            == Phase::Idle,
{
    lemma_polls_gather_the_line(Seq::empty(), events);
}

/// A response that outgrows the line buffer fails the exchange: once the
/// channel has given as many bytes as the buffer has room for and no
/// terminator among them, the next byte, whatever it is, ends the exchange
/// with `Error::BufferFull`.
pub proof fn lemma_long_line_overflows(events: Seq<Event>, byte: u8)
    requires
        is_polling(events),
        !delivered(events).contains(LINE_FEED),
        delivered(events).len() == LINE_CAPACITY,
    ensures
        step(run(listening(Seq::empty()), events), Event::Byte(byte)).action == Directive::Failed(
            Error::BufferFull,
        ),
        step(run(listening(Seq::empty()), events), Event::Byte(byte)).session.phase
            == Phase::Idle,
{
    lemma_polls_gather_the_line(Seq::empty(), events);
}

/// A response that is not complete when the timer expires fails the
/// exchange with `Error::Timeout`. The channel is polled once more before
/// the timer is: a byte that is there is kept, and a terminator that is
/// there still ends the line.
pub proof fn lemma_expiry_ends_the_read(events: Seq<Event>, poll: Event)
    requires
        is_polling(events),
        !delivered(events).contains(LINE_FEED),
        delivered(events).len() < LINE_CAPACITY,
        poll is NoByte || poll is Byte,
    ensures
        ({
            let polled = step(run(listening(Seq::empty()), events), poll);
            if poll == Event::Byte(LINE_FEED) {
                polled.action == conclusion(line_reply(delivered(events).push(LINE_FEED)))
            } else {
                polled.action == Directive::PollTimer && step(
                    polled.session,
                    Event::Expired,
                ).action == Directive::Failed(Error::Timeout)
            }
        }),
{
    lemma_polls_gather_the_line(Seq::empty(), events);
}

} // verus!
