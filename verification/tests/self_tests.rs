//! Tests for the ADS1015 and WiFi power-on self-test decisions.

use ezal_core::ads1015::{config_single_shot, DataRate, FullScale, Mux, Register, SCRATCH_HI, SCRATCH_LO};
use ezal_core::ads1015_post::{
    channel_config, raw_to_mv, register_value, register_write_frame, BusOp, BusOutcome, Post, PostError, PostProgress, PostReport,
};
use ezal_core::wifi::{CredentialError, Credentials, Security};
use ezal_core::wifi_post::{self, JoinOutcome, JoinStep, WifiPost, JOIN_ATTEMPTS};

fn config() -> u16 {
    config_single_shot(Mux::Ain0, FullScale::V2_048, DataRate::Sps1600)
}

/// Feeds `outcomes` to a fresh POST, checking each requested operation
/// against `expected_ops`, and returns the final result.
fn run_post(outcomes: &[BusOutcome], expected_ops: &[BusOp]) -> Result<PostReport, PostError> {
    let (mut post, first) = Post::start();
    assert_eq!(first, expected_ops[0]);
    for (i, outcome) in outcomes.iter().enumerate() {
        match post.advance(*outcome) {
            PostProgress::Issue(op) => assert_eq!(op, expected_ops[i + 1]),
            PostProgress::Finished(result) => {
                assert_eq!(i + 1, outcomes.len(), "finished early");
                return result;
            }
        }
    }
    panic!("POST did not finish");
}

fn full_sequence() -> Vec<BusOp> {
    vec![
        BusOp::Read(Register::Config),
        BusOp::Write(Register::Config, config()),
        BusOp::Read(Register::Config),
        BusOp::Write(Register::LoThresh, SCRATCH_LO),
        BusOp::Read(Register::LoThresh),
        BusOp::Write(Register::HiThresh, SCRATCH_HI),
        BusOp::Read(Register::HiThresh),
        BusOp::Convert(Mux::Ain0),
        BusOp::Convert(Mux::Ain1),
    ]
}

#[test]
fn channel_reading_uses_the_feedback_range() {
    assert_eq!(channel_config(Mux::Ain1), config_single_shot(Mux::Ain1, FullScale::V2_048, DataRate::Sps1600));
    // At ±2.048 V one count is one millivolt.
    assert_eq!(raw_to_mv(0x7FF0), 2047);
    assert_eq!(raw_to_mv(0x3840), 900);
    assert_eq!(raw_to_mv(0x8000), -2048);
    assert_eq!(raw_to_mv(0xFFF0), -1);
}

#[test]
fn post_passes_on_a_working_device() {
    let read_back = config() & 0x7FFF;
    let outcomes = [
        BusOutcome::Value(0x8583),
        BusOutcome::Written,
        BusOutcome::Value(read_back),
        BusOutcome::Written,
        BusOutcome::Value(SCRATCH_LO),
        BusOutcome::Written,
        BusOutcome::Value(SCRATCH_HI),
        BusOutcome::Conversion(905 * 16),
        BusOutcome::Conversion(2010 * 16),
    ];
    assert_eq!(
        run_post(&outcomes, &full_sequence()),
        Ok(PostReport { config: read_back, a0_mv: 905, a1_mv: 2010 })
    );
}

#[test]
fn post_reports_a_silent_bus_as_no_device() {
    assert_eq!(run_post(&[BusOutcome::Failed], &full_sequence()), Err(PostError::NoDevice));
}

#[test]
fn post_rejects_a_config_that_does_not_stick() {
    let outcomes = [BusOutcome::Value(0), BusOutcome::Written, BusOutcome::Value(0x0583)];
    assert_eq!(
        run_post(&outcomes, &full_sequence()),
        Err(PostError::ConfigRoundtrip { wrote: config(), read: 0x0583 })
    );
}

#[test]
fn post_rejects_a_corrupted_scratch_pattern() {
    let outcomes = [
        BusOutcome::Value(0),
        BusOutcome::Written,
        BusOutcome::Value(config()),
        BusOutcome::Written,
        BusOutcome::Value(SCRATCH_LO),
        BusOutcome::Written,
        BusOutcome::Value(0xA55B),
    ];
    assert_eq!(
        run_post(&outcomes, &full_sequence()),
        Err(PostError::ScratchRoundtrip { wrote: SCRATCH_HI, read: 0xA55B })
    );
}

#[test]
fn post_reports_a_later_bus_failure() {
    let outcomes = [BusOutcome::Value(0), BusOutcome::Failed];
    assert_eq!(run_post(&outcomes, &full_sequence()), Err(PostError::Bus));
}

#[test]
fn wifi_post_rejects_bad_credentials_before_joining() {
    let creds = Credentials { ssid: "", password: "hunter22" };
    match WifiPost::begin(&creds) {
        Err(wifi_post::PostError::InvalidCredentials(message)) => {
            assert_eq!(message, CredentialError::SsidEmpty.message());
        }
        other => panic!("unexpected {other:?}"),
    }
}

#[test]
fn wifi_post_reports_protection_on_join() {
    let creds = Credentials { ssid: "ezal", password: "correct horse" };
    let mut post = WifiPost::begin(&creds).unwrap();
    assert_eq!(post.security(), Security::Protected);
    match post.on_join(JoinOutcome::Joined) {
        JoinStep::Done(Ok(report)) => assert!(report.protected),
        other => panic!("unexpected {other:?}"),
    }
    let mut open = WifiPost::begin(&Credentials { ssid: "ezal", password: "" }).unwrap();
    assert_eq!(open.security(), Security::Open);
    match open.on_join(JoinOutcome::Joined) {
        JoinStep::Done(Ok(report)) => assert!(!report.protected),
        other => panic!("unexpected {other:?}"),
    }
}

#[test]
fn wifi_post_retries_timeouts_then_gives_up() {
    let creds = Credentials { ssid: "ezal", password: "" };
    let mut post = WifiPost::begin(&creds).unwrap();
    for _ in 1..JOIN_ATTEMPTS {
        assert!(matches!(post.on_join(JoinOutcome::TimedOut), JoinStep::Retry));
    }
    assert!(matches!(
        post.on_join(JoinOutcome::TimedOut),
        JoinStep::LeaveThenDone(Err(wifi_post::PostError::JoinTimeout))
    ));
}

#[test]
fn wifi_post_rejected_join_is_final() {
    let creds = Credentials { ssid: "ezal", password: "correct horse" };
    let mut post = WifiPost::begin(&creds).unwrap();
    assert!(matches!(post.on_join(JoinOutcome::TimedOut), JoinStep::Retry));
    assert!(matches!(
        post.on_join(JoinOutcome::Failed(cyw43::JoinError::AuthenticationFailure)),
        JoinStep::Done(Err(wifi_post::PostError::Join(cyw43::JoinError::AuthenticationFailure)))
    ));
}

#[test]
fn register_frames_are_big_endian() {
    assert_eq!(register_write_frame(Register::Config, 0xC583), [0x01, 0xC5, 0x83]);
    assert_eq!(register_write_frame(Register::HiThresh, SCRATCH_HI), [0x03, 0xA5, 0x5A]);
    assert_eq!(register_value([0x5A, 0xA5]), SCRATCH_LO);
    let frame = register_write_frame(Register::LoThresh, 0x1234);
    assert_eq!(register_value([frame[1], frame[2]]), 0x1234);
}

#[test]
fn post_report_converts_the_conversion_words() {
    let outcomes = [
        BusOutcome::Value(0),
        BusOutcome::Written,
        BusOutcome::Value(config()),
        BusOutcome::Written,
        BusOutcome::Value(SCRATCH_LO),
        BusOutcome::Written,
        BusOutcome::Value(SCRATCH_HI),
        BusOutcome::Conversion(0x7FF0),
        BusOutcome::Conversion(0xFFF0),
    ];
    assert_eq!(
        run_post(&outcomes, &full_sequence()),
        Ok(PostReport { config: config(), a0_mv: 2047, a1_mv: -1 })
    );
}
