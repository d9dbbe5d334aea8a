use laser_range_finder::error::Error;
use laser_range_finder::response::{decode_line, parse_laser_response, Fault, LaserResponse};

fn float(text: &[u8]) -> f32 {
    core::str::from_utf8(text).unwrap().parse::<f32>().unwrap()
}

#[test]
fn can_parse_version() {
    let v = parse_laser_response("170225002929456");
    assert!(v.is_ok());
    match v.unwrap() {
        LaserResponse::Version(version) => {
            assert_eq!(version.serial, 1702250029);
            assert_eq!(version.version, 29456);
        }
        _ => panic!("Bad response type"),
    }
}

#[test]
fn can_parse_ok() {
    let v = parse_laser_response(",OK!");
    assert!(v.is_ok());
    assert!(matches!(v.unwrap(), LaserResponse::OK));
}

#[test]
fn can_parse_state() {
    let v = parse_laser_response("18.0'C,3.0V");
    assert!(v.is_ok());
    match v.unwrap() {
        LaserResponse::State(state) => {
            assert_eq!(float(&state.temperature), 18.0);
            assert_eq!(float(&state.input_voltage), 3.0);
        }
        _ => panic!("Bad response type"),
    }
}

#[test]
fn can_parse_measure() {
    let v = parse_laser_response("12.345m,0079");
    assert!(v.is_ok());
    match v.unwrap() {
        LaserResponse::Measure(measure) => {
            assert_eq!(float(&measure.distance), 12.345);
            assert_eq!(measure.quality, 79);
        }
        _ => panic!("Bad response type"),
    }
}

#[test]
fn can_parse_fault() {
    let v = parse_laser_response(":Er01!");
    assert!(v.is_ok());
    match v.unwrap() {
        LaserResponse::Fault(fault) => {
            assert!(matches!(fault, Fault::VBatTooLow));
        }
        _ => panic!("Bad response type"),
    }
}

#[test]
fn cannot_parse_version_too_short() {
    let v = parse_laser_response("17022500292945");
    assert!(v.is_err());
}

#[test]
fn cannot_parse_ok_too_short() {
    let v = parse_laser_response(",OK");
    assert!(v.is_err());
}

#[test]
fn cannot_parse_state_too_short() {
    let v = parse_laser_response("18.0'C,3.0");
    assert!(v.is_err());
}

#[test]
fn cannot_parse_measure_too_short() {
    let v = parse_laser_response("12.345,0079");
    assert!(v.is_err());
}

#[test]
fn cannot_parse_fault_too_short() {
    let v = parse_laser_response(":Er01");
    assert!(v.is_err());
}

#[test]
fn short_lines_fail_with_parse() {
    for line in ["", ",", ",O", ",OK", ":Er01", "18.0'C,3.0", "12.345,0079", "17022500292945"] {
        assert_eq!(parse_laser_response(line), Err(Error::Parse), "{:?}", line);
    }
}

#[test]
fn measure_keeps_the_text_of_the_distance() {
    let v = parse_laser_response("12.345m,0079").unwrap();
    match v {
        LaserResponse::Measure(measure) => {
            assert_eq!(&measure.distance, b"12.345");
            assert_eq!(measure.quality, 79);
        }
        _ => panic!("Bad response type"),
    }
}

#[test]
fn state_keeps_the_text_of_both_fields() {
    let v = parse_laser_response("18.0'C,3.0V").unwrap();
    match v {
        LaserResponse::State(state) => {
            assert_eq!(&state.temperature, b"18.0");
            assert_eq!(&state.input_voltage, b"3.0");
        }
        _ => panic!("Bad response type"),
    }
}

#[test]
fn terminator_is_not_read() {
    for line in [",OK!", ":Er01!", "12.345m,0079", "18.0'C,3.0V", "170225002929456"] {
        let with = format!("{}\n", line);
        assert_eq!(parse_laser_response(&with), parse_laser_response(line), "{:?}", line);
        assert!(parse_laser_response(&with).is_ok());
    }
}

#[test]
fn acknowledgement_needs_only_its_prefix() {
    assert_eq!(parse_laser_response(",OK! and more"), Ok(LaserResponse::OK));
    assert_eq!(parse_laser_response(",OK!m,0079xxxxxx"), Ok(LaserResponse::OK));
    assert_eq!(parse_laser_response(" ,OK!"), Err(Error::Parse));
}

#[test]
fn fault_code_is_read_at_offset_three() {
    assert_eq!(parse_laser_response(":Er15!"), Ok(LaserResponse::Fault(Fault::LaserSignalNotStable)));
    assert_eq!(parse_laser_response(":Er17!"), Ok(LaserResponse::Fault(Fault::HardwareFault)));
    assert_eq!(parse_laser_response(":Er00!"), Ok(LaserResponse::Fault(Fault::Unknown)));
    assert_eq!(parse_laser_response(":Er99!"), Ok(LaserResponse::Fault(Fault::Unknown)));
    assert_eq!(parse_laser_response(":Er+5!"), Ok(LaserResponse::Fault(Fault::TargetOutOfRange)));
    assert_eq!(parse_laser_response(":Er05\n"), Ok(LaserResponse::Fault(Fault::TargetOutOfRange)));
}

#[test]
fn fault_with_a_bad_code_fails_and_tries_no_other_shape() {
    assert_eq!(parse_laser_response(":Er0x!"), Err(Error::Parse));
    assert_eq!(parse_laser_response(":Er 1!"), Err(Error::Parse));
    assert_eq!(parse_laser_response(":Er-1!"), Err(Error::Parse));
    // long enough for a version report and for a measurement, still a fault
    assert_eq!(parse_laser_response(":ErXXm,00791234567"), Err(Error::Parse));
}

#[test]
fn fault_prefix_on_a_short_line_falls_through() {
    assert_eq!(parse_laser_response(":Er"), Err(Error::Parse));
    assert_eq!(parse_laser_response(":Er1"), Err(Error::Parse));
}

#[test]
fn measurement_is_known_by_an_m_anywhere() {
    // the mark may stand anywhere: only length and offsets count
    match parse_laser_response("12.345x,0079m").unwrap() {
        LaserResponse::Measure(measure) => {
            assert_eq!(float(&measure.distance), 12.345);
            assert_eq!(measure.quality, 79);
        }
        _ => panic!("Bad response type"),
    }
    assert_eq!(parse_laser_response("12.34m,00079"), Err(Error::Parse));
    assert_eq!(parse_laser_response("abcdefm,0079"), Err(Error::Parse));
    assert_eq!(parse_laser_response("12.345m,00x9"), Err(Error::Parse));
}

#[test]
fn measurement_distance_may_be_any_float_literal() {
    for (line, distance) in [
        ("+1.5e2m,0001", 150.0f32),
        ("-0.125m,0001", -0.125),
        ("000001m,0001", 1.0),
        (".5e-01m,0001", 0.05),
        ("1234.5m,+123", 1234.5),
    ] {
        match parse_laser_response(line).unwrap() {
            LaserResponse::Measure(measure) => assert_eq!(float(&measure.distance), distance),
            _ => panic!("Bad response type"),
        }
    }
    match parse_laser_response("   infm,0001") {
        Err(Error::Parse) => {}
        _ => panic!("blanks are no part of a literal"),
    }
    match parse_laser_response("   NaNm,0001").is_err() {
        true => {}
        false => panic!("blanks are no part of a literal"),
    }
}

#[test]
fn state_is_known_by_a_capital_c() {
    match parse_laser_response("-5.5'C,2.9V").unwrap() {
        LaserResponse::State(state) => {
            assert_eq!(float(&state.temperature), -5.5);
            assert_eq!(float(&state.input_voltage), 2.9);
        }
        _ => panic!("Bad response type"),
    }
    assert_eq!(parse_laser_response("18.0'c,3.0V"), Err(Error::Parse));
    assert_eq!(parse_laser_response("18.x'C,3.0V"), Err(Error::Parse));
    assert_eq!(parse_laser_response("18.0'C,3,0V"), Err(Error::Parse));
}

#[test]
fn measurement_is_tried_before_state() {
    // eleven bytes with both marks: a state report
    assert!(matches!(parse_laser_response("18.0'C,3.0m"), Ok(LaserResponse::State(_))));
    // twelve bytes with both marks: a measurement, whose distance is no number
    assert_eq!(parse_laser_response("18.0'C,3.0mV"), Err(Error::Parse));
}

#[test]
fn version_is_the_last_shape_tried() {
    assert_eq!(
        parse_laser_response("000000000100002"),
        Ok(LaserResponse::Version(laser_range_finder::response::Version { serial: 1, version: 2 }))
    );
    assert_eq!(parse_laser_response("429496729599999").map(|r| match r {
        LaserResponse::Version(v) => (v.serial, v.version),
        _ => (0, 0),
    }), Ok((4294967295, 99999)));
    // the serial number does not fit in 32 bits
    assert_eq!(parse_laser_response("429496729600000"), Err(Error::Parse));
    assert_eq!(parse_laser_response("17022500292945x"), Err(Error::Parse));
    assert_eq!(parse_laser_response("170225002929456 (new)"), parse_laser_response("170225002929456"));
}

#[test]
fn a_mark_after_a_version_report_makes_it_another_shape() {
    // an `m` anywhere in a line of twelve bytes or more makes it a measurement
    match parse_laser_response("170225002929456 and more").unwrap() {
        LaserResponse::Measure(measure) => {
            assert_eq!(&measure.distance, b"170225");
            assert_eq!(measure.quality, 2929);
        }
        _ => panic!("Bad response type"),
    }
    // and a `C` a state report, whose fields are cut from a serial number
    match parse_laser_response("170225002929456 C").unwrap() {
        LaserResponse::State(state) => {
            assert_eq!(&state.temperature, b"1702");
            assert_eq!(&state.input_voltage, b"029");
        }
        _ => panic!("Bad response type"),
    }
}

#[test]
fn decoding_twice_gives_the_same() {
    for line in [",OK!", ":Er01!", "12.345m,0079", "18.0'C,3.0V", "170225002929456", "nonsense", ""] {
        assert_eq!(parse_laser_response(line), parse_laser_response(line));
        let copy = String::from(line);
        assert_eq!(parse_laser_response(&copy), parse_laser_response(line));
    }
}

#[test]
fn text_other_than_ascii_does_not_crash() {
    assert_eq!(parse_laser_response("18.0°C,3.0V"), Err(Error::Parse));
    assert_eq!(parse_laser_response(":Er\u{e9}!!"), Err(Error::Parse));
    assert_eq!(parse_laser_response("12.3\u{20ac}m,0079"), Err(Error::Parse));
    assert_eq!(parse_laser_response("\u{e9}\u{e9}\u{e9}\u{e9}\u{e9}\u{e9}\u{e9}\u{e9}"), Err(Error::Parse));
}

#[test]
fn bytes_are_decoded_as_the_text_is() {
    for line in [",OK!", ":Er01!", "12.345m,0079", "18.0'C,3.0V", "170225002929456", ":Er0x!", "m"] {
        assert_eq!(decode_line(line.as_bytes()), parse_laser_response(line));
    }
}

#[test]
fn every_error_code_has_its_fault() {
    for code in 0u8..=255 {
        let expected = match code {
            1 => Fault::VBatTooLow,
            2 => Fault::InternalError,
            3 => Fault::ModuleTemperatureTooLow,
            4 => Fault::ModuleTemperatureTooHigh,
            5 => Fault::TargetOutOfRange,
            6 => Fault::InvalidMeasureResult,
            7 => Fault::BackgroundLightTooStrong,
            8 => Fault::LaserSignalTooWeak,
            9 => Fault::LaserSignalTooStrong,
            10 | 11 | 12 | 13 | 14 | 16 | 17 => Fault::HardwareFault,
            15 => Fault::LaserSignalNotStable,
            _ => Fault::Unknown,
        };
        assert_eq!(Fault::fault(code), expected, "code {}", code);
    }
}

#[test]
fn hardware_fault_and_unknown_codes() {
    for code in [10u8, 11, 12, 13, 14, 16, 17] {
        assert_eq!(Fault::fault(code), Fault::HardwareFault);
    }
    assert_eq!(Fault::fault(15), Fault::LaserSignalNotStable);
    assert_eq!(Fault::fault(0), Fault::Unknown);
    for code in 18u8..=255 {
        assert_eq!(Fault::fault(code), Fault::Unknown);
    }
}

#[test]
fn faults_describe_themselves() {
    assert_eq!(Fault::Unknown.description(), "Unknown error");
    assert_eq!(Fault::VBatTooLow.description(), "VBat too low (<2.0V)");
    assert_eq!(Fault::InternalError.description(), "Internal Error");
    assert_eq!(Fault::ModuleTemperatureTooLow.description(), "Module temperature is too low (<-20\u{b0})");
    assert_eq!(Fault::ModuleTemperatureTooHigh.description(), "Module temperature is too high (>+40\u{b0})");
    assert_eq!(Fault::TargetOutOfRange.description(), "Target out of measure range");
    assert_eq!(Fault::InvalidMeasureResult.description(), "Invalid measure result");
    assert_eq!(Fault::BackgroundLightTooStrong.description(), "Background light is too weak");
    assert_eq!(Fault::LaserSignalTooWeak.description(), "Laser signal too weak");
    assert_eq!(Fault::LaserSignalTooStrong.description(), "Laser signal too strong");
    assert_eq!(Fault::HardwareFault.description(), "Hardware Fault");
    assert_eq!(Fault::LaserSignalNotStable.description(), "Laser signal not stable");
}

/// What the standard library makes of a line of ASCII text, shape by shape.
#[derive(Debug, PartialEq)]
enum Read {
    Ack,
    Fault(u8),
    Measure(u32, u32),
    State(u32, u32),
    Version(u32, u32),
    Parse,
}

fn read_with_std(line: &str) -> Read {
    assert!(line.is_ascii());
    if line.starts_with(",OK!") {
        return Read::Ack;
    }
    if line.starts_with(":Er") && line.len() >= 6 {
        return match line[3..5].parse::<u8>() {
            Ok(code) => Read::Fault(code),
            Err(_) => Read::Parse,
        };
    }
    if line.contains('m') && line.len() >= 12 {
        return match (line[0..6].parse::<f32>(), line[8..12].parse::<u32>()) {
            (Ok(distance), Ok(quality)) => Read::Measure(distance.to_bits(), quality),
            _ => Read::Parse,
        };
    }
    if line.contains('C') && line.len() >= 11 {
        return match (line[0..4].parse::<f32>(), line[7..10].parse::<f32>()) {
            (Ok(temperature), Ok(voltage)) => Read::State(temperature.to_bits(), voltage.to_bits()),
            _ => Read::Parse,
        };
    }
    if line.len() >= 15 {
        return match (line[0..10].parse::<u32>(), line[10..15].parse::<u32>()) {
            (Ok(serial), Ok(version)) => Read::Version(serial, version),
            _ => Read::Parse,
        };
    }
    Read::Parse
}

fn read(line: &str) -> Read {
    match parse_laser_response(line) {
        Ok(LaserResponse::OK) => Read::Ack,
        Ok(LaserResponse::Fault(fault)) => {
            let code = line[3..5].parse::<u8>().unwrap();
            assert_eq!(fault, Fault::fault(code));
            Read::Fault(code)
        }
        Ok(LaserResponse::Measure(m)) => Read::Measure(float(&m.distance).to_bits(), m.quality),
        Ok(LaserResponse::State(s)) => {
            Read::State(float(&s.temperature).to_bits(), float(&s.input_voltage).to_bits())
        }
        Ok(LaserResponse::Version(v)) => Read::Version(v.serial, v.version),
        Err(e) => {
            assert_eq!(e, Error::Parse);
            Read::Parse
        }
    }
}

#[test]
fn lines_are_read_as_the_standard_library_reads_them() {
    let examples: [&str; 7] = [
        ",OK!",
        ":Er01!",
        "12.345m,0079",
        "18.0'C,3.0V",
        "170225002929456",
        "+1.e-2m,+079\n",
        "-inf'C,NaNV\n",
    ];
    let alphabet = b"0123456789+-.,:'!eEmCVOKrinfaN \n";
    let mut seed: u64 = 0x2545f4914f6cdd1d;
    let mut next = move |bound: usize| {
        seed ^= seed << 13;
        seed ^= seed >> 7;
        seed ^= seed << 17;
        (seed % (bound as u64)) as usize
    };
    for example in examples {
        assert_eq!(read(example), read_with_std(example), "{:?}", example);
    }
    for round in 0..60000 {
        let mut line: Vec<u8> = examples[round % examples.len()].as_bytes().to_vec();
        for _ in 0..(1 + next(3)) {
            let byte = alphabet[next(alphabet.len())];
            match next(3) {
                0 if !line.is_empty() => {
                    let at = next(line.len());
                    line[at] = byte;
                }
                1 if !line.is_empty() => {
                    let at = next(line.len());
                    line.remove(at);
                }
                _ => {
                    let at = next(line.len() + 1);
                    line.insert(at, byte);
                }
            }
        }
        let line = String::from_utf8(line).unwrap();
        assert_eq!(read(&line), read_with_std(&line), "{:?}", line);
    }
}

#[test]
fn measurements_are_text_that_converts() {
    for line in ["12.345m,0079", "+1.e-2m,+079", "-1e-05,x9999m", "18.0'C,3.0V", "-nan'C,1e9V", ".5e1 6789.C"] {
        match parse_laser_response(line).unwrap() {
            LaserResponse::Measure(m) => {
                assert!(m.distance.is_ascii());
                assert!(core::str::from_utf8(&m.distance).unwrap().parse::<f32>().is_ok());
            }
            LaserResponse::State(s) => {
                assert!(s.temperature.is_ascii() && s.input_voltage.is_ascii());
                assert!(core::str::from_utf8(&s.temperature).unwrap().parse::<f32>().is_ok());
                assert!(core::str::from_utf8(&s.input_voltage).unwrap().parse::<f32>().is_ok());
            }
            _ => panic!("Bad response type"),
        }
    }
}
