//! Tests for the shared control state and the dashboard connection logic.

use ezal_core::control::{decode_drive, encode_drive, SharedState};
use ezal_core::drive::{AzimuthDirection, Command, DriveCommand, ElevationDirection};
use ezal_core::protocol::{ControlStatus, PositionTelemetry, TELEMETRY_PERIOD_MS};
use ezal_core::session::{
    handle_text, next_telemetry_after, DashboardSession, SocketAction, SocketEvent,
};

const CW_UP: DriveCommand = DriveCommand {
    azimuth: Some(AzimuthDirection::Clockwise),
    elevation: Some(ElevationDirection::Up),
};

#[test]
fn drive_encoding_uses_two_bits_per_axis() {
    assert_eq!(encode_drive(DriveCommand::idle()), 0);
    assert_eq!(encode_drive(CW_UP), 0b0101);
    let ccw_down = DriveCommand {
        azimuth: Some(AzimuthDirection::CounterClockwise),
        elevation: Some(ElevationDirection::Down),
    };
    assert_eq!(encode_drive(ccw_down), 0b1010);
    assert_eq!(decode_drive(0b1010), ccw_down);
    // Unused codes decode to "off" for that axis.
    assert_eq!(decode_drive(0b1111), DriveCommand::idle());
}

#[test]
fn drive_encoding_round_trips_every_state() {
    let azimuths = [
        None,
        Some(AzimuthDirection::Clockwise),
        Some(AzimuthDirection::CounterClockwise),
    ];
    let elevations = [None, Some(ElevationDirection::Up), Some(ElevationDirection::Down)];
    for azimuth in azimuths {
        for elevation in elevations {
            let drive = DriveCommand { azimuth, elevation };
            assert_eq!(decode_drive(encode_drive(drive)), drive);
        }
    }
}

#[test]
fn first_client_gets_control_and_later_clients_watch() {
    let mut state = SharedState::new();
    let first = state.register_client();
    let second = state.register_client();
    assert_eq!(first, 1);
    assert_eq!(second, 2);
    assert!(state.is_controller(first));
    assert!(!state.is_controller(second));
    assert_eq!(
        state.control_status(second),
        ControlStatus { controller: false, drive: DriveCommand::idle() }
    );
}

#[test]
fn only_the_controller_can_command_the_drive() {
    let mut state = SharedState::new();
    let controller = state.register_client();
    let viewer = state.register_client();
    assert!(!state.accept_command(viewer, Command::Drive(CW_UP)));
    assert_eq!(state.take_command(), None);
    assert!(state.accept_command(controller, Command::Drive(CW_UP)));
    assert_eq!(state.take_command(), Some(Command::Drive(CW_UP)));
    assert_eq!(state.take_command(), None);
}

#[test]
fn releasing_the_controller_stops_the_drive_and_frees_control() {
    let mut state = SharedState::new();
    let controller = state.register_client();
    let viewer = state.register_client();
    state.release_client(viewer);
    assert!(state.is_controller(controller));
    assert_eq!(state.take_command(), None);
    state.release_client(controller);
    assert!(!state.is_controller(controller));
    assert_eq!(state.take_command(), Some(Command::Stop));
    // With nobody in control, the next connection takes it.
    let next = state.register_client();
    assert!(state.is_controller(next));
}

#[test]
fn take_control_moves_ownership_and_stops_a_stale_lease() {
    let mut state = SharedState::new();
    let first = state.register_client();
    let second = state.register_client();
    assert!(state.accept_command(first, Command::Drive(CW_UP)));
    state.take_control(second);
    assert!(state.is_controller(second));
    assert!(!state.is_controller(first));
    assert_eq!(state.take_command(), Some(Command::Stop));
}

#[test]
fn stored_position_and_applied_drive_read_back() {
    let mut state = SharedState::new();
    assert_eq!(state.position(), PositionTelemetry::zero());
    let sample = PositionTelemetry { a0_mv: 1234, a1_mv: -56 };
    state.store_position(sample);
    assert_eq!(state.position(), sample);
    state.record_applied_drive(CW_UP);
    let id = state.register_client();
    assert_eq!(state.control_status(id), ControlStatus { controller: true, drive: CW_UP });
}

#[test]
fn handle_text_applies_commands_only_from_the_controller() {
    let mut state = SharedState::new();
    let controller = state.register_client();
    let viewer = state.register_client();
    handle_text(&mut state, viewer, "drive:cw");
    assert_eq!(state.take_command(), None);
    handle_text(&mut state, controller, "drive:cw+up");
    assert_eq!(state.take_command(), Some(Command::Drive(CW_UP)));
    handle_text(&mut state, controller, "hello");
    assert_eq!(state.take_command(), None);
}

#[test]
fn handle_text_malformed_drive_from_controller_stops() {
    let mut state = SharedState::new();
    let controller = state.register_client();
    let viewer = state.register_client();
    handle_text(&mut state, controller, "drive:sideways");
    assert_eq!(state.take_command(), Some(Command::Stop));
    handle_text(&mut state, viewer, "drive:sideways");
    assert_eq!(state.take_command(), None);
}

#[test]
fn handle_text_take_control_hands_over() {
    let mut state = SharedState::new();
    let _controller = state.register_client();
    let viewer = state.register_client();
    handle_text(&mut state, viewer, "control:take");
    assert!(state.is_controller(viewer));
    assert_eq!(state.take_command(), Some(Command::Stop));
}

#[test]
fn telemetry_deadline_skips_missed_periods() {
    assert_eq!(next_telemetry_after(1_000, 500, 999), 1_000);
    assert_eq!(next_telemetry_after(1_000, 500, 1_000), 1_500);
    assert_eq!(next_telemetry_after(1_000, 500, 2_740), 3_000);
    assert_eq!(next_telemetry_after(1_000, 500, 3_000), 3_500);
}

#[test]
fn session_opens_with_status_and_first_telemetry_deadline() {
    let mut state = SharedState::new();
    let (session, status) = DashboardSession::open(&mut state, 10_000);
    assert_eq!(session.client_id(), 1);
    assert_eq!(session.next_telemetry_ms(), 10_000 + TELEMETRY_PERIOD_MS);
    assert_eq!(status, ControlStatus { controller: true, drive: DriveCommand::idle() });
    let (viewer, status) = DashboardSession::open(&mut state, 10_000);
    assert_eq!(viewer.client_id(), 2);
    assert!(!status.controller);
}

#[test]
fn session_answers_each_event() {
    let mut state = SharedState::new();
    let (mut session, _) = DashboardSession::open(&mut state, 0);
    let id = session.client_id();

    let action = session.on_event(&mut state, SocketEvent::Text("drive:ccw"), 100);
    assert_eq!(
        action,
        SocketAction::SendStatus(ControlStatus { controller: true, drive: DriveCommand::idle() })
    );
    assert_eq!(
        state.take_command(),
        Some(Command::Drive(DriveCommand {
            azimuth: Some(AzimuthDirection::CounterClockwise),
            elevation: None,
        }))
    );

    assert_eq!(session.on_event(&mut state, SocketEvent::Ping, 200), SocketAction::SendPong);
    assert_eq!(session.on_event(&mut state, SocketEvent::Ignored, 200), SocketAction::Nothing);

    state.store_position(PositionTelemetry { a0_mv: 900, a1_mv: 2020 });
    let action = session.on_event(&mut state, SocketEvent::TelemetryDue, 1_240);
    assert_eq!(
        action,
        SocketAction::SendTelemetry(
            PositionTelemetry { a0_mv: 900, a1_mv: 2020 },
            ControlStatus { controller: true, drive: DriveCommand::idle() },
        )
    );
    assert_eq!(session.next_telemetry_ms(), 1_500);

    assert_eq!(session.on_event(&mut state, SocketEvent::Close, 1_300), SocketAction::Close);
    assert!(!state.is_controller(id));
    assert_eq!(state.take_command(), Some(Command::Stop));
}

#[test]
fn session_closes_invalid_frames_and_releases_control() {
    let mut state = SharedState::new();
    let (mut session, _) = DashboardSession::open(&mut state, 0);
    let id = session.client_id();
    assert_eq!(
        session.on_event(&mut state, SocketEvent::Invalid, 10),
        SocketAction::CloseInvalid
    );
    assert!(!state.is_controller(id));
}

#[test]
fn ending_a_viewer_session_leaves_the_controller_alone() {
    let mut state = SharedState::new();
    let (controller, _) = DashboardSession::open(&mut state, 0);
    let (viewer, _) = DashboardSession::open(&mut state, 0);
    let controller_id = controller.client_id();
    viewer.end(&mut state);
    assert!(state.is_controller(controller_id));
    assert_eq!(state.take_command(), None);
    controller.end(&mut state);
    assert!(!state.is_controller(controller_id));
    assert_eq!(state.take_command(), Some(Command::Stop));
}
