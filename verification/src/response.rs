//! The responses of the module and the decoder that tells them apart.
//!
//! A response is one line of ASCII text in one of five fixed shapes. The
//! decoder works on the bytes of the line: lengths and offsets count bytes,
//! which in ASCII text are the characters.

use vstd::prelude::*;
use vstd::utf8::encode_utf8;
use crate::error::Error;
use crate::numeral::{is_float_literal, is_float_text, parse_u32, parse_u8, u32_literal, u8_literal};

verus! {

/// What the module reports when it cannot carry out a command.
#[derive(Clone, Copy, Debug, PartialEq, Eq, Structural)]
pub enum Fault {
    Unknown,
    /// The supply voltage is below 2.0 V.
    VBatTooLow,
    InternalError,
    /// The module is colder than -20 degrees Celsius.
    ModuleTemperatureTooLow,
    /// The module is warmer than +40 degrees Celsius.
    ModuleTemperatureTooHigh,
    TargetOutOfRange,
    InvalidMeasureResult,
    BackgroundLightTooStrong,
    LaserSignalTooWeak,
    LaserSignalTooStrong,
    HardwareFault,
    LaserSignalNotStable,
}

impl Fault {
    /// The fault that an error code of the module stands for.
    pub open spec fn of_code(error_code: u8) -> Fault {
        if error_code == 1 {
            Fault::VBatTooLow
        } else if error_code == 2 {
            Fault::InternalError
        } else if error_code == 3 {
            Fault::ModuleTemperatureTooLow
        } else if error_code == 4 {
            Fault::ModuleTemperatureTooHigh
        } else if error_code == 5 {
            Fault::TargetOutOfRange
        } else if error_code == 6 {
            Fault::InvalidMeasureResult
        } else if error_code == 7 {
            Fault::BackgroundLightTooStrong
        } else if error_code == 8 {
            Fault::LaserSignalTooWeak
        } else if error_code == 9 {
            Fault::LaserSignalTooStrong
        } else if error_code == 15 {
            Fault::LaserSignalNotStable
        } else if 10 <= error_code <= 17 {
            Fault::HardwareFault
        } else {
            Fault::Unknown
        }
    }

    /// Finds the fault that an error code of the module stands for.
    pub fn fault(error_code: u8) -> (fault: Fault)
        ensures
            fault == Fault::of_code(error_code),
    {
        match error_code {
            1 => Fault::VBatTooLow,
            2 => Fault::InternalError,
            3 => Fault::ModuleTemperatureTooLow,
            4 => Fault::ModuleTemperatureTooHigh,
            5 => Fault::TargetOutOfRange,
            6 => Fault::InvalidMeasureResult,
            7 => Fault::BackgroundLightTooStrong,
            8 => Fault::LaserSignalTooWeak,
            9 => Fault::LaserSignalTooStrong,
            10 | 11 | 12 | 13 | 14 | 16 | 17 => Fault::HardwareFault,
            15 => Fault::LaserSignalNotStable,
            _ => Fault::Unknown,
        }
    }

    /// The text that describes this fault to a reader.
    pub open spec fn description_text(self) -> Seq<char> {
        match self {
            Fault::Unknown => "Unknown error"@,
            Fault::VBatTooLow => "VBat too low (<2.0V)"@,
            Fault::InternalError => "Internal Error"@,
            Fault::ModuleTemperatureTooLow => "Module temperature is too low (<-20°)"@,
            Fault::ModuleTemperatureTooHigh => "Module temperature is too high (>+40°)"@,
            Fault::TargetOutOfRange => "Target out of measure range"@,
            Fault::InvalidMeasureResult => "Invalid measure result"@,
            Fault::BackgroundLightTooStrong => "Background light is too weak"@,
            Fault::LaserSignalTooWeak => "Laser signal too weak"@,
            Fault::LaserSignalTooStrong => "Laser signal too strong"@,
            Fault::HardwareFault => "Hardware Fault"@,
            Fault::LaserSignalNotStable => "Laser signal not stable"@,
        }
    }

    /// Describes this fault to a reader.
    pub fn description(&self) -> (text: &'static str)
        ensures
            text@ == self.description_text(),
    {
        match *self {
            Fault::Unknown => "Unknown error",
            Fault::VBatTooLow => "VBat too low (<2.0V)",
            Fault::InternalError => "Internal Error",
            Fault::ModuleTemperatureTooLow => "Module temperature is too low (<-20°)",
            Fault::ModuleTemperatureTooHigh => "Module temperature is too high (>+40°)",
            Fault::TargetOutOfRange => "Target out of measure range",
            Fault::InvalidMeasureResult => "Invalid measure result",
            Fault::BackgroundLightTooStrong => "Background light is too weak",
            Fault::LaserSignalTooWeak => "Laser signal too weak",
            Fault::LaserSignalTooStrong => "Laser signal too strong",
            Fault::HardwareFault => "Hardware Fault",
            Fault::LaserSignalNotStable => "Laser signal not stable",
        }
    }
}

/// Every error code has exactly one fault: the codes 10 to 14, 16 and 17 and
/// no others are hardware faults, and code 0 and the codes from 18 on, and no
/// others, are unknown.
pub proof fn lemma_fault_codes(error_code: u8)
    ensures
        Fault::of_code(error_code) == Fault::HardwareFault <==> (10 <= error_code <= 17
            && error_code != 15),
        Fault::of_code(error_code) == Fault::Unknown <==> (error_code == 0 || error_code >= 18),
{
}

/// A distance measurement.
#[derive(Clone, Copy, Debug, PartialEq, Eq)]
pub struct Measure {
    /// The distance in metres: the six bytes of the floating-point literal
    /// that the module sent.
    pub distance: [u8; 6],
    /// The quality figure of the measurement.
    pub quality: u32,
}

/// The version of the module.
#[derive(Clone, Copy, Debug, PartialEq, Eq)]
pub struct Version {
    pub serial: u32,
    pub version: u32,
}

/// The state of the module.
#[derive(Clone, Copy, Debug, PartialEq, Eq)]
pub struct State {
    /// The temperature in degrees Celsius: the four bytes of the
    /// floating-point literal that the module sent.
    pub temperature: [u8; 4],
    /// The input voltage in volts: the three bytes of the floating-point
    /// literal that the module sent.
    pub input_voltage: [u8; 3],
}

/// A response of the module.
#[derive(Clone, Copy, Debug, PartialEq, Eq)]
pub enum LaserResponse {
    OK,
    Fault(Fault),
    Measure(Measure),
    State(State),
    Version(Version),
}

/// What a response says, with each floating-point literal as its bytes.
pub enum Reply {
    Ack,
    Fault(Fault),
    Measure { distance: Seq<u8>, quality: u32 },
    State { temperature: Seq<u8>, input_voltage: Seq<u8> },
    Version { serial: u32, version: u32 },
}

impl View for LaserResponse {
    type V = Reply;

    open spec fn view(&self) -> Reply {
        match *self {
            LaserResponse::OK => Reply::Ack,
            LaserResponse::Fault(fault) => Reply::Fault(fault),
            LaserResponse::Measure(m) => Reply::Measure {
                distance: m.distance@,
                quality: m.quality,
            },
            LaserResponse::State(s) => Reply::State {
                temperature: s.temperature@,
                input_voltage: s.input_voltage@,
            },
            LaserResponse::Version(v) => Reply::Version { serial: v.serial, version: v.version },
        }
    }
}

/// The outcome of decoding, with a response as what it says.
pub open spec fn outcome(r: Result<LaserResponse, Error>) -> Result<Reply, Error> {
    match r {
        Ok(response) => Ok(response@),
        Err(e) => Err(e),
    }
}

/// `m`, which marks a measurement.
pub const MEASURE_MARK: u8 = 0x6d;

/// `C`, which marks a state report.
pub const STATE_MARK: u8 = 0x43;

/// The bytes of `,OK!`, with which an acknowledgement begins.
pub open spec fn ack_prefix() -> Seq<u8> {
    seq![0x2cu8, 0x4fu8, 0x4bu8, 0x21u8]
}

/// The bytes of `:Er`, with which a fault report begins.
pub open spec fn fault_prefix() -> Seq<u8> {
    seq![0x3au8, 0x45u8, 0x72u8]
}

/// Whether `line` begins with `prefix`.
pub open spec fn has_prefix(line: Seq<u8>, prefix: Seq<u8>) -> bool {
    line.len() >= prefix.len() && line.take(prefix.len() as int) =~= prefix
}

/// A fault report: bytes 3 and 4 are the error code, an unsigned literal
/// that fits in 8 bits.
pub open spec fn fault_reply(line: Seq<u8>) -> Result<Reply, Error>
    recommends
        line.len() >= 6,
{
    match u8_literal(line.subrange(3, 5)) {
        Some(code) => Ok(Reply::Fault(Fault::of_code(code))),
        None => Err(Error::Parse),
    }
}

/// A measurement: bytes 0 to 5 are the distance, a floating-point literal,
/// and bytes 8 to 11 the quality, an unsigned literal that fits in 32 bits.
pub open spec fn measure_reply(line: Seq<u8>) -> Result<Reply, Error>
    recommends
        line.len() >= 12,
{
    let distance = line.subrange(0, 6);
    match u32_literal(line.subrange(8, 12)) {
        Some(quality) => if is_float_literal(distance) {
            Ok(Reply::Measure { distance, quality })
        } else {
            Err(Error::Parse)
        },
        None => Err(Error::Parse),
    }
}

/// A state report: bytes 0 to 3 are the temperature and bytes 7 to 9 the
/// input voltage, both floating-point literals.
pub open spec fn state_reply(line: Seq<u8>) -> Result<Reply, Error>
    recommends
        line.len() >= 11,
{
    let temperature = line.subrange(0, 4);
    let input_voltage = line.subrange(7, 10);
    if is_float_literal(temperature) && is_float_literal(input_voltage) {
        Ok(Reply::State { temperature, input_voltage })
    } else {
        Err(Error::Parse)
    }
}

/// A version report: bytes 0 to 9 are the serial number and bytes 10 to 14
/// the version, both unsigned literals that fit in 32 bits.
pub open spec fn version_reply(line: Seq<u8>) -> Result<Reply, Error>
    recommends
        line.len() >= 15,
{
    match (u32_literal(line.subrange(0, 10)), u32_literal(line.subrange(10, 15))) {
        (Some(serial), Some(version)) => Ok(Reply::Version { serial, version }),
        _ => Err(Error::Parse),
    }
}

/// What a line of the module says. The shapes are tried in this order and
/// the first that matches decides, also where one of its fields is then
/// found to be no number:
///
/// 1. an acknowledgement begins with `,OK!`;
/// 2. a fault report begins with `:Er` and has at least 6 bytes;
/// 3. a measurement holds an `m` somewhere and has at least 12 bytes;
/// 4. a state report holds a `C` somewhere and has at least 11 bytes;
/// 5. a version report has at least 15 bytes.
///
/// Bytes after the fields of a shape, such as the line terminator, are part
/// of no field; they count for the length and may hold a mark.
pub open spec fn decode(line: Seq<u8>) -> Result<Reply, Error> {
    if has_prefix(line, ack_prefix()) {
        Ok(Reply::Ack)
    } else if has_prefix(line, fault_prefix()) && line.len() >= 6 {
        fault_reply(line)
    } else if line.contains(MEASURE_MARK) && line.len() >= 12 {
        measure_reply(line)
    } else if line.contains(STATE_MARK) && line.len() >= 11 {
        state_reply(line)
    } else if line.len() >= 15 {
        version_reply(line)
    } else {
        Err(Error::Parse)
    }
}

/// Tells whether `line` begins with `prefix`.
fn starts_with(line: &[u8], prefix: &[u8]) -> (r: bool)
    ensures
        r == has_prefix(line@, prefix@),
{
    if line.len() < prefix.len() {
        return false;
    }
    let mut i: usize = 0;
    while i < prefix.len()
        invariant
            i <= prefix.len() <= line.len(),
            forall|j: int| 0 <= j < i ==> line@[j] == prefix@[j],
        decreases prefix.len() - i,
    {
        if line[i] != prefix[i] {
            return false;
        }
        i += 1;
    }
    true
}

/// Tells whether `byte` occurs in `line`.
fn holds(line: &[u8], byte: u8) -> (r: bool)
    ensures
        r == line@.contains(byte),
{
    let mut i: usize = 0;
    while i < line.len()
        invariant
            i <= line.len(),
            forall|j: int| 0 <= j < i ==> line@[j] != byte,
        decreases line.len() - i,
    {
        if line[i] == byte {
            return true;
        }
        i += 1;
    }
    false
}

/// Decodes a fault report.
fn decode_fault(line: &[u8]) -> (r: Result<LaserResponse, Error>)
    requires
        line.len() >= 6,
    ensures
        outcome(r) == fault_reply(line@),
{
    match parse_u8(&line[3..5]) {
        Some(code) => Ok(LaserResponse::Fault(Fault::fault(code))),
        None => Err(Error::Parse),
    }
}

/// Decodes a measurement.
fn decode_measure(line: &[u8]) -> (r: Result<LaserResponse, Error>)
    requires
        line.len() >= 12,
    ensures
        outcome(r) == measure_reply(line@),
{
    if !is_float_text(&line[0..6]) {
        return Err(Error::Parse);
    }
    match parse_u32(&line[8..12]) {
        Some(quality) => {
            let distance: [u8; 6] = [line[0], line[1], line[2], line[3], line[4], line[5]];
            assert(distance@ =~= line@.subrange(0, 6));
            Ok(LaserResponse::Measure(Measure { distance, quality }))
        },
        None => Err(Error::Parse),
    }
}

/// Decodes a state report.
fn decode_state(line: &[u8]) -> (r: Result<LaserResponse, Error>)
    requires
        line.len() >= 11,
    ensures
        outcome(r) == state_reply(line@),
{
    if is_float_text(&line[0..4]) && is_float_text(&line[7..10]) {
        let temperature: [u8; 4] = [line[0], line[1], line[2], line[3]];
        let input_voltage: [u8; 3] = [line[7], line[8], line[9]];
        assert(temperature@ =~= line@.subrange(0, 4));
        assert(input_voltage@ =~= line@.subrange(7, 10));
        Ok(LaserResponse::State(State { temperature, input_voltage }))
    } else {
        Err(Error::Parse)
    }
}

/// Decodes a version report.
fn decode_version(line: &[u8]) -> (r: Result<LaserResponse, Error>)
    requires
        line.len() >= 15,
    ensures
        outcome(r) == version_reply(line@),
{
    match parse_u32(&line[0..10]) {
        Some(serial) => match parse_u32(&line[10..15]) {
            Some(version) => Ok(LaserResponse::Version(Version { serial, version })),
            None => Err(Error::Parse),
        },
        None => Err(Error::Parse),
    }
}

/// Decodes the bytes of one line, whether or not they are valid text.
pub fn decode_line(line: &[u8]) -> (r: Result<LaserResponse, Error>)
    ensures
        outcome(r) == decode(line@),
{
    let n = line.len();
    let ack: [u8; 4] = [0x2c, 0x4f, 0x4b, 0x21];
    let fault: [u8; 3] = [0x3a, 0x45, 0x72];
    if starts_with(line, ack.as_slice()) {
        Ok(LaserResponse::OK)
    } else if starts_with(line, fault.as_slice()) && n >= 6 {
        decode_fault(line)
    } else if holds(line, MEASURE_MARK) && n >= 12 {
        decode_measure(line)
    } else if holds(line, STATE_MARK) && n >= 11 {
        decode_state(line)
    } else if n >= 15 {
        decode_version(line)
    } else {
        Err(Error::Parse)
    }
}

/// Decodes one line of text, with or without its terminator: what the line
/// says, or `Error::Parse` where it has none of the five shapes or a field
/// of its shape is no number. The line is read as its UTF-8 bytes; of ASCII
/// text these are the characters, one byte each, as
/// `vstd::utf8::is_ascii_chars_encode_utf8` shows.
pub fn parse_laser_response(output: &str) -> (r: Result<LaserResponse, Error>)
    ensures
        outcome(r) == decode(encode_utf8(output@)),
{
    decode_line(output.as_bytes())
}

/// Every shape has a least length: a line that is shorter says nothing of
/// that shape, and a line of fewer than four bytes says nothing at all.
pub proof fn lemma_short_lines_fail(line: Seq<u8>)
    ensures
        decode(line) is Ok ==> line.len() >= 4,
        decode(line) matches Ok(Reply::Fault(_)) ==> line.len() >= 6,
        decode(line) matches Ok(Reply::State { .. }) ==> line.len() >= 11,
        decode(line) matches Ok(Reply::Measure { .. }) ==> line.len() >= 12,
        decode(line) matches Ok(Reply::Version { .. }) ==> line.len() >= 15,
        decode(line) matches Err(e) ==> e == Error::Parse,
{
}

/// The measurements of a response are numbers: each is a floating-point
/// literal of the width of its field.
pub proof fn lemma_measurements_are_literals(line: Seq<u8>)
    ensures
        decode(line) matches Ok(Reply::Measure { distance, .. }) ==> distance.len() == 6
            && is_float_literal(distance),
        decode(line) matches Ok(Reply::State { temperature, input_voltage }) ==> temperature.len()
            == 4 && is_float_literal(temperature) && input_voltage.len() == 3 && is_float_literal(
            input_voltage,
        ),
{
}

/// Decoding is a function of the line: two results that both are what the
/// line says are the same result.
pub proof fn lemma_decoding_is_a_function(
    line: Seq<u8>,
    a: Result<LaserResponse, Error>,
    b: Result<LaserResponse, Error>,
)
    requires
        outcome(a) == decode(line),
        outcome(b) == decode(line),
    ensures
        a == b,
{
    match (a, b) {
        (Ok(LaserResponse::Measure(x)), Ok(LaserResponse::Measure(y))) => {
            assert(x.distance =~= y.distance);
        },
        (Ok(LaserResponse::State(x)), Ok(LaserResponse::State(y))) => {
            assert(x.temperature =~= y.temperature);
            assert(x.input_voltage =~= y.input_voltage);
        },
        _ => {},
    }
}

/// Bytes that follow a response, such as the line terminator, do not change
/// what it says, as long as they bring no shape into play that is tried
/// before the shape of the response: a state report must hold no `m` and be
/// followed by none, and a version report must be followed by neither an `m`
/// nor a `C`.
pub proof fn lemma_trailing_bytes_are_not_read(line: Seq<u8>, rest: Seq<u8>)
    requires
        decode(line) is Ok,
        decode(line) matches Ok(Reply::State { .. }) ==> !line.contains(MEASURE_MARK)
            && !rest.contains(MEASURE_MARK),
        decode(line) matches Ok(Reply::Version { .. }) ==> !rest.contains(MEASURE_MARK)
            && !rest.contains(STATE_MARK),
    ensures
        decode(line + rest) == decode(line),
{
    let long = line + rest;
    assert forall|prefix: Seq<u8>| line.len() >= prefix.len() implies has_prefix(long, prefix)
        == has_prefix(line, prefix) by {}
    assert forall|byte: u8| line.contains(byte) implies long.contains(byte) by {
        let i = choose|i: int| 0 <= i < line.len() && line[i] == byte;
        assert(long[i] == byte);
    }
    assert forall|byte: u8| long.contains(byte) && !rest.contains(byte) implies line.contains(
        byte,
    ) by {}
    assert forall|i: int, j: int| 0 <= i <= j <= line.len() implies #[trigger] long.subrange(i, j)
        == line.subrange(i, j) by {}
}

} // verus!
