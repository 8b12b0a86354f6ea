//! Tests for the direction-output plans and the leased drive-control loop.

use ezal_core::direction::{next_direction_deadline, DirectionControl, DIRECTION_TIMEOUT_MS};
use ezal_core::drive::{
    AzimuthDirection, Command, Debouncer, DriveCommand, ElevationDirection, OUTPUT_MIN_ACTIVE_MS,
};
use ezal_core::outputs::{DirectionOutputs, DirectionPin, PinWrite};

const CW: DriveCommand = DriveCommand { azimuth: Some(AzimuthDirection::Clockwise), elevation: None };
const CCW_UP: DriveCommand = DriveCommand {
    azimuth: Some(AzimuthDirection::CounterClockwise),
    elevation: Some(ElevationDirection::Up),
};

fn low(pin: DirectionPin) -> PinWrite {
    PinWrite { pin, high: false }
}

fn high(pin: DirectionPin) -> PinWrite {
    PinWrite { pin, high: true }
}

/// Replays writes on (cw, ccw, up, down) levels, checking that no two
/// opposite outputs are ever high together.
fn replay(mut levels: [bool; 4], writes: &[PinWrite]) -> [bool; 4] {
    for write in writes {
        let index = match write.pin {
            DirectionPin::Cw => 0,
            DirectionPin::Ccw => 1,
            DirectionPin::Up => 2,
            DirectionPin::Down => 3,
        };
        levels[index] = write.high;
        assert!(!(levels[0] && levels[1]), "cw and ccw both on after {write:?}");
        assert!(!(levels[2] && levels[3]), "up and down both on after {write:?}");
    }
    levels
}

#[test]
fn outputs_start_idle_and_stop_releases_every_pin() {
    let mut outputs = DirectionOutputs::new();
    assert_eq!(outputs.applied_drive(), DriveCommand::idle());
    let writes = outputs.stop();
    assert_eq!(
        writes,
        vec![
            low(DirectionPin::Cw),
            low(DirectionPin::Ccw),
            low(DirectionPin::Up),
            low(DirectionPin::Down),
        ]
    );
    assert_eq!(replay([true, false, false, true], &writes), [false; 4]);
}

#[test]
fn outputs_energise_only_changed_axes() {
    let mut outputs = DirectionOutputs::new();
    assert_eq!(outputs.apply_drive(CW), vec![high(DirectionPin::Cw)]);
    assert_eq!(outputs.applied_drive(), CW);
    // Re-applying the same state writes nothing.
    assert_eq!(outputs.apply_drive(CW), Vec::new());
}

#[test]
fn outputs_release_before_reversing() {
    let mut outputs = DirectionOutputs::new();
    let _ = outputs.apply_drive(CW);
    let writes = outputs.apply_drive(CCW_UP);
    assert_eq!(
        writes,
        vec![low(DirectionPin::Cw), high(DirectionPin::Ccw), high(DirectionPin::Up)]
    );
    assert_eq!(replay([true, false, false, false], &writes), [false, true, true, false]);
    let writes = outputs.apply_drive(DriveCommand::idle());
    assert_eq!(writes, vec![low(DirectionPin::Ccw), low(DirectionPin::Up)]);
}

#[test]
fn deadline_is_the_earlier_of_debounce_and_lease() {
    let mut debouncer = Debouncer::new();
    assert_eq!(next_direction_deadline(&debouncer, None, 0), None);
    assert_eq!(next_direction_deadline(&debouncer, Some(750), 0), Some(750));
    assert!(debouncer.set_target(Command::Drive(CW), 1_000));
    // Reversal is held until the minimum active time has passed.
    assert!(!debouncer.set_target(
        Command::Drive(DriveCommand {
            azimuth: Some(AzimuthDirection::CounterClockwise),
            elevation: None,
        }),
        1_100,
    ));
    let hold = 1_000 + OUTPUT_MIN_ACTIVE_MS;
    assert_eq!(next_direction_deadline(&debouncer, None, 1_100), Some(hold));
    assert_eq!(next_direction_deadline(&debouncer, Some(hold + 1), 1_100), Some(hold));
    assert_eq!(next_direction_deadline(&debouncer, Some(hold - 1), 1_100), Some(hold - 1));
}

#[test]
fn drive_command_takes_a_lease_that_lapses_without_refresh() {
    let mut control = DirectionControl::new();
    assert_eq!(control.next_deadline(0), None);
    assert_eq!(control.on_command(Command::Drive(CW), 5_000), Some(CW));
    assert_eq!(control.actual(), CW);
    assert_eq!(control.next_deadline(5_000), Some(5_000 + DIRECTION_TIMEOUT_MS));
    // Waking early changes nothing.
    assert_eq!(control.on_timeout(5_000 + DIRECTION_TIMEOUT_MS - 1), None);
    assert_eq!(control.actual(), CW);
    // At the deadline the lease lapses and the drive stops.
    assert_eq!(
        control.on_timeout(5_000 + DIRECTION_TIMEOUT_MS),
        Some(DriveCommand::idle())
    );
    assert_eq!(control.actual(), DriveCommand::idle());
    assert_eq!(control.next_deadline(5_000 + DIRECTION_TIMEOUT_MS), None);
}

#[test]
fn refreshing_the_command_renews_the_lease() {
    let mut control = DirectionControl::new();
    let _ = control.on_command(Command::Drive(CW), 0);
    assert_eq!(control.on_command(Command::Drive(CW), 600), None);
    assert_eq!(control.next_deadline(600), Some(600 + DIRECTION_TIMEOUT_MS));
    assert_eq!(control.on_timeout(DIRECTION_TIMEOUT_MS), None);
    assert_eq!(control.actual(), CW);
}

#[test]
fn stop_command_drops_the_lease() {
    let mut control = DirectionControl::new();
    let _ = control.on_command(Command::Drive(CW), 0);
    // The output has been on for the minimum time, so it may release now.
    assert_eq!(
        control.on_command(Command::Stop, OUTPUT_MIN_ACTIVE_MS),
        Some(DriveCommand::idle())
    );
    assert_eq!(control.next_deadline(OUTPUT_MIN_ACTIVE_MS), None);
}

#[test]
fn early_stop_is_applied_once_the_minimum_on_time_has_passed() {
    let mut control = DirectionControl::new();
    let _ = control.on_command(Command::Drive(CW), 0);
    assert_eq!(control.on_command(Command::Stop, 100), None);
    assert_eq!(control.actual(), CW);
    assert_eq!(control.next_deadline(100), Some(OUTPUT_MIN_ACTIVE_MS));
    assert_eq!(control.apply_debounced_drive(OUTPUT_MIN_ACTIVE_MS - 1), None);
    assert_eq!(
        control.apply_debounced_drive(OUTPUT_MIN_ACTIVE_MS),
        Some(DriveCommand::idle())
    );
}
