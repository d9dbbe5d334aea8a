use laser_range_finder::command::Command;

const ALL: [Command; 8] = [
    Command::LaserOn,
    Command::LaserOff,
    Command::ReadState,
    Command::StartMeasurement,
    Command::StartMeasurementFast,
    Command::StartMeasurementSlow,
    Command::ReadVersion,
    Command::SwitchOff,
];

#[test]
fn commands_have_their_bytes() {
    assert_eq!(Command::LaserOn.value(), b'O');
    assert_eq!(Command::LaserOff.value(), b'C');
    assert_eq!(Command::ReadState.value(), b'S');
    assert_eq!(Command::StartMeasurement.value(), b'D');
    assert_eq!(Command::StartMeasurementSlow.value(), b'M');
    assert_eq!(Command::StartMeasurementFast.value(), b'F');
    assert_eq!(Command::ReadVersion.value(), b'V');
    assert_eq!(Command::SwitchOff.value(), b'X');
}

#[test]
fn no_two_commands_share_a_byte() {
    for (i, a) in ALL.iter().enumerate() {
        for (j, b) in ALL.iter().enumerate() {
            assert_eq!(a.value() == b.value(), i == j);
        }
    }
}

#[test]
fn encoding_twice_gives_the_same() {
    for command in ALL.iter() {
        assert_eq!(command.value(), command.value());
    }
}
