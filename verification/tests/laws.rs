//! Concrete instances of the properties the library states for all inputs.

use ezal_core::ads1015::{count_to_mv, FullScale};
use ezal_core::drive::{
    AzimuthDirection, Command, Debouncer, DriveCommand, ElevationDirection, OUTPUT_MIN_ACTIVE_MS,
    OUTPUT_MIN_INACTIVE_MS,
};
use ezal_core::direction::{DirectionControl, DIRECTION_TIMEOUT_MS};
use ezal_core::morse;
use ezal_core::protocol::{
    parse_command, ClientMessage, ControlStatus, PositionTelemetry, COMMAND_REFRESH_MS,
    COMMAND_TIMEOUT_MS, TAKE_CONTROL_MESSAGE,
};

fn render(text: &str) -> String {
    morse::pulses(text)
        .collect_remaining()
        .iter()
        .flat_map(|p| std::iter::repeat_n(if p.on { '#' } else { ' ' }, p.units as usize))
        .collect()
}

const CW: DriveCommand = DriveCommand { azimuth: Some(AzimuthDirection::Clockwise), elevation: None };
const CCW: DriveCommand =
    DriveCommand { azimuth: Some(AzimuthDirection::CounterClockwise), elevation: None };
const UP: DriveCommand = DriveCommand { azimuth: None, elevation: Some(ElevationDirection::Up) };

#[test]
fn law_update_twice_is_update_once() {
    let mut debouncer = Debouncer::new();
    assert!(debouncer.set_target(Command::Drive(CW), 0));
    let _ = debouncer.set_target(Command::Drive(CCW), 100);
    let mut once = debouncer;
    let changed = once.update(OUTPUT_MIN_ACTIVE_MS);
    assert!(changed);
    let mut twice = once;
    assert!(!twice.update(OUTPUT_MIN_ACTIVE_MS));
    assert_eq!(twice, once);
}

#[test]
fn law_axes_move_independently() {
    // Holding a reversal on azimuth does not delay an elevation request.
    let mut debouncer = Debouncer::new();
    assert!(debouncer.set_target(Command::Drive(CW), 0));
    assert!(debouncer.set_target(
        Command::Drive(DriveCommand {
            azimuth: Some(AzimuthDirection::CounterClockwise),
            elevation: Some(ElevationDirection::Up),
        }),
        10,
    ));
    assert_eq!(debouncer.actual(), DriveCommand {
        azimuth: Some(AzimuthDirection::Clockwise),
        elevation: Some(ElevationDirection::Up),
    });
}

#[test]
fn law_energised_output_holds_minimum_time() {
    let mut debouncer = Debouncer::new();
    assert!(debouncer.set_target(Command::Drive(UP), 1_000));
    for t in [1_001, 1_200, 1_000 + OUTPUT_MIN_ACTIVE_MS - 1] {
        let _ = debouncer.set_target(Command::Stop, t);
        assert_eq!(debouncer.actual(), UP, "released at {t}");
    }
    assert!(debouncer.update(1_000 + OUTPUT_MIN_ACTIVE_MS));
    assert_eq!(debouncer.actual(), DriveCommand::idle());
}

#[test]
fn law_released_output_stays_off_minimum_time() {
    let mut debouncer = Debouncer::new();
    assert!(debouncer.set_target(Command::Drive(UP), 0));
    assert!(debouncer.set_target(Command::Stop, OUTPUT_MIN_ACTIVE_MS));
    let released = OUTPUT_MIN_ACTIVE_MS;
    for t in [released + 1, released + OUTPUT_MIN_INACTIVE_MS - 1] {
        let _ = debouncer.set_target(Command::Drive(UP), t);
        assert_eq!(debouncer.actual(), DriveCommand::idle(), "energised at {t}");
    }
    assert!(debouncer.update(released + OUTPUT_MIN_INACTIVE_MS));
    assert_eq!(debouncer.actual(), UP);
}

#[test]
fn law_target_follows_commands() {
    let mut debouncer = Debouncer::new();
    let _ = debouncer.set_target(Command::Drive(CW), 0);
    let _ = debouncer.set_target(Command::Drive(CCW), 1);
    assert_eq!(debouncer.target(), CCW);
    let _ = debouncer.update(2);
    assert_eq!(debouncer.target(), CCW);
    let _ = debouncer.set_target(Command::Stop, 3);
    assert_eq!(debouncer.target(), DriveCommand::idle());
}

#[test]
fn law_refresh_beats_lease_and_minimums() {
    assert!(COMMAND_REFRESH_MS < COMMAND_TIMEOUT_MS);
    assert!(OUTPUT_MIN_ACTIVE_MS <= COMMAND_TIMEOUT_MS);
    assert!(OUTPUT_MIN_INACTIVE_MS <= COMMAND_TIMEOUT_MS);
}

#[test]
fn law_every_dashboard_drive_parses_back() {
    let texts = [
        ("stop", DriveCommand::idle()),
        ("drive:cw", CW),
        ("drive:ccw", CCW),
        ("drive:up", UP),
        ("drive:down", DriveCommand { azimuth: None, elevation: Some(ElevationDirection::Down) }),
        ("drive:cw+up", DriveCommand {
            azimuth: Some(AzimuthDirection::Clockwise),
            elevation: Some(ElevationDirection::Up),
        }),
        ("drive:ccw+down", DriveCommand {
            azimuth: Some(AzimuthDirection::CounterClockwise),
            elevation: Some(ElevationDirection::Down),
        }),
    ];
    for (text, drive) in texts {
        let expected = if drive.is_active() { Command::Drive(drive) } else { Command::Stop };
        assert_eq!(parse_command(text), Some(expected), "{text}");
    }
    assert_eq!(ClientMessage::parse(TAKE_CONTROL_MESSAGE), Some(ClientMessage::TakeControl));
}

#[test]
fn law_json_writers_are_exact() {
    let mut json = String::new();
    PositionTelemetry { a0_mv: i32::MIN, a1_mv: i32::MAX }.write_json(&mut json).unwrap();
    assert_eq!(
        json,
        r#"{"type":"position","a0_mv":-2147483648,"a1_mv":2147483647}"#
    );
    let mut json = String::new();
    ControlStatus { controller: false, drive: CCW }.write_json(&mut json).unwrap();
    assert_eq!(
        json,
        r#"{"type":"control","controller":false,"azimuth":"ccw","elevation":null}"#
    );
}

#[test]
fn law_full_scale_code_reads_full_scale() {
    for (fs, mv) in [
        (FullScale::V6_144, 6144),
        (FullScale::V4_096, 4096),
        (FullScale::V2_048, 2048),
        (FullScale::V1_024, 1024),
        (FullScale::V0_512, 512),
        (FullScale::V0_256, 256),
    ] {
        assert_eq!(fs.full_scale_mv(), mv);
        assert_eq!(count_to_mv(2048, fs), mv);
        assert_eq!(count_to_mv(0, fs), 0);
    }
}

#[test]
fn law_morse_alternates_and_uses_standard_lengths() {
    let pulses = morse::pulses("Hi, ezal 73!").collect_remaining();
    assert!(pulses.first().unwrap().on);
    assert!(pulses.last().unwrap().on);
    for pair in pulses.windows(2) {
        assert_ne!(pair[0].on, pair[1].on);
    }
    for p in &pulses {
        let units = p.units as u8;
        if p.on {
            assert!(units == 1 || units == 3);
        } else {
            assert!(units == 1 || units == 3 || units == 7);
        }
    }
}

#[test]
fn law_morse_ignores_case_unknowns_and_extra_whitespace() {
    assert_eq!(render("sos"), render("SOS"));
    assert_eq!(render("S#O~S"), render("SOS"));
    assert_eq!(render("  CQ \t\n DE  "), render("CQ DE"));
    assert_eq!(render("CQ"), [render("C"), "   ".to_string(), render("Q")].concat());
    assert!(!render("~~E~~").is_empty());
}

#[test]
fn cloned_pulses_resume_at_the_same_point() {
    let mut pulses = morse::pulses("EE");
    let first = pulses.next().unwrap();
    assert!(first.on);
    let mut copy = pulses.clone();
    assert_eq!(copy.collect_remaining(), pulses.collect_remaining());
    assert!(pulses.next().is_none());
}

#[test]
fn law_pattern_table_is_case_blind_and_one_to_one() {
    let table = "ABCDEFGHIJKLMNOPQRSTUVWXYZ0123456789.,?/";
    for (i, a) in table.chars().enumerate() {
        assert!(morse::pattern(a).is_some());
        assert_eq!(morse::pattern(a), morse::pattern(a.to_ascii_lowercase()));
        for b in table.chars().skip(i + 1) {
            assert_ne!(morse::pattern(a), morse::pattern(b), "{a} and {b}");
        }
    }
    for c in ['!', '#', ' ', 'é', '-'] {
        assert!(morse::pattern(c).is_none());
    }
}

#[test]
fn law_whole_text_normalisation_keeps_the_encoding() {
    assert_eq!(render("C~Q#  D!E"), render("CQ  DE"));
    assert_eq!(render(" \t CQ \n\n  DE\u{3000} "), render("CQ DE"));
}

#[test]
fn law_axis_moves_only_to_off_or_target() {
    let mut debouncer = Debouncer::new();
    assert!(debouncer.set_target(Command::Drive(CW), 0));
    let before = debouncer.actual();
    let _ = debouncer.set_target(Command::Drive(CCW), OUTPUT_MIN_ACTIVE_MS);
    assert_ne!(debouncer.actual(), before);
    assert_eq!(debouncer.actual(), DriveCommand::idle());
    assert!(debouncer.update(OUTPUT_MIN_ACTIVE_MS + OUTPUT_MIN_INACTIVE_MS));
    assert_eq!(debouncer.actual(), debouncer.target());
}

#[test]
fn law_unrefreshed_drive_is_all_low_after_lease_and_hold() {
    let mut control = DirectionControl::new();
    let t = 2_000;
    let _ = control.on_command(Command::Drive(UP), t);
    let _ = control.apply_debounced_drive(t + 10);
    let _ = control.on_timeout(t + DIRECTION_TIMEOUT_MS);
    let _ = control.apply_debounced_drive(t + DIRECTION_TIMEOUT_MS + OUTPUT_MIN_ACTIVE_MS);
    assert_eq!(control.actual(), DriveCommand::idle());
}
