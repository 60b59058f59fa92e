//! Leases, calibration, pins and error codes, each on its own.

use nomopractic::calibration::{
    trimmed_pulse_us, CalibrationStore, Fraction, GrayscaleCalibration, MotorCalibration,
    ServoName, ServoTrim,
};
use nomopractic::config::Config;
use nomopractic::hat::audio::AudioError;
use nomopractic::hat::error::{ErrorCode, GpioError, HatError, MotorError, UltrasonicError};
use nomopractic::hat::gpio::GpioPin;
use nomopractic::hat::lease::{LeaseManager, LeaseStatus};
use nomopractic::ipc::params::{ParamValue, Params};
use nomopractic::ipc::schema::{extract_channel, extract_ttl, Request};
use nomopractic::ipc::state::Handler;
use nomopractic::number::{Real, ONE, ONE_HALF, TWENTY, TWO, ZERO};

fn status(channel: u8, ttl_remaining_ms: u64, conn_id: u64) -> LeaseStatus {
    LeaseStatus { channel, ttl_remaining_ms, conn_id }
}

#[test]
fn leases_are_listed_by_channel() {
    let mut leases = LeaseManager::new();
    assert_eq!(leases.get_active_leases(0), vec![]);
    leases.set_lease(255, 1, 100, 50);
    leases.set_lease(0, 2, 200, 50);
    assert_eq!(leases.get_active_leases(60), vec![status(0, 190, 2), status(255, 90, 1)]);
}

#[test]
fn a_lease_passes_to_whoever_sets_it() {
    let mut leases = LeaseManager::new();
    leases.set_lease(3, 1, 100, 0);
    leases.set_lease(3, 2, 100, 50);
    assert_eq!(leases.get_active_leases(50), vec![status(3, 100, 2)]);
    assert!(leases.release_connection(1).is_empty());
    assert_eq!(leases.release_connection(2), vec![3]);
    assert_eq!(leases.get_active_leases(50), vec![]);
}

#[test]
fn revoking_frees_one_channel() {
    let mut leases = LeaseManager::new();
    leases.set_lease(3, 1, 100, 0);
    leases.set_lease(4, 1, 100, 0);
    leases.revoke_channel(3);
    leases.revoke_channel(9);
    assert_eq!(leases.get_active_leases(0), vec![status(4, 100, 1)]);
}

#[test]
fn leases_end_at_the_end_of_time() {
    let mut leases = LeaseManager::new();
    leases.set_lease(1, 1, 5000, u64::MAX - 10);
    assert_eq!(leases.get_active_leases(u64::MAX - 10), vec![status(1, 10, 1)]);
}

#[test]
fn trims_keep_pulses_within_bounds() {
    assert_eq!(trimmed_pulse_us(1500, -50), 1450);
    assert_eq!(trimmed_pulse_us(600, -500), 500);
    assert_eq!(trimmed_pulse_us(2400, 500), 2500);
    assert_eq!(trimmed_pulse_us(0, i16::MIN), 500);
    assert_eq!(trimmed_pulse_us(u16::MAX, i16::MAX), 2500);
}

#[test]
fn readings_are_normalized_between_white_and_black() {
    let c = GrayscaleCalibration { white_raw: 100, black_raw: 3000 };
    assert_eq!(c.normalized(2200), Fraction { numerator: 2100, denominator: 2900 });
    assert_eq!(c.normalized(99), Fraction { numerator: 0, denominator: 2900 });
    assert_eq!(c.normalized(100), Fraction { numerator: 0, denominator: 2900 });
    assert_eq!(c.normalized(3000), Fraction { numerator: 2900, denominator: 2900 });
    assert_eq!(c.normalized(u16::MAX), Fraction { numerator: 2900, denominator: 2900 });
}

fn loaded(scale: u64, white_raw: u16, trim_us: i16) -> CalibrationStore {
    let motor = MotorCalibration {
        speed_scale: Real::from_bits(scale),
        deadband_pct: Real::from_bits(TWENTY),
        reversed: true,
    };
    CalibrationStore {
        motors: vec![motor, motor],
        grayscale: [
            GrayscaleCalibration::default(),
            GrayscaleCalibration { white_raw, black_raw: 500 },
            GrayscaleCalibration::default(),
        ],
        servos: vec![ServoTrim { name: "arm".to_string(), trim_us }],
    }
}

#[test]
fn calibration_is_loaded_if_it_can_be_used() {
    let store = CalibrationStore::load_or_default(Some(loaded(TWO, 499, -500)), 2);
    assert_eq!(store.motors[1].speed_scale.bits, TWO);
    assert_eq!(store.trim_us("arm"), -500);
    assert_eq!(store.trim_us("steering"), 0);
    for unusable in [loaded(ZERO, 499, 0), loaded(ONE, 500, 0), loaded(ONE, 0, 501)] {
        assert!(!unusable.is_valid());
        let store = CalibrationStore::load_or_default(Some(unusable), 2);
        assert_eq!(store.motors[0], MotorCalibration::default());
        assert_eq!(store.grayscale[1], GrayscaleCalibration { white_raw: 100, black_raw: 3000 });
    }
    let store = CalibrationStore::load_or_default(Some(loaded(TWO, 0, 0)), 3);
    assert_eq!(store.motors.len(), 3);
    assert_eq!(store.motors[2].speed_scale.bits, ONE);
    assert!(CalibrationStore::valid_speed_scale(Real::from_bits(ONE_HALF)));
    assert!(!CalibrationStore::valid_deadband_pct(Real::from_bits(20.5f64.to_bits())));
    assert!(!CalibrationStore::valid_grayscale(7, 7));
}

#[test]
fn a_trim_is_stored_once() {
    let mut store = CalibrationStore::default_for(0);
    store.set_trim_us("steering", 40);
    store.set_trim_us("arm", 1);
    store.set_trim_us("arm", 2);
    assert_eq!(store.trim_us("steering"), 40);
    assert_eq!(store.trim_us("camera_pan"), 0);
    assert_eq!(store.trim_us("arm"), 2);
    assert_eq!(store.servos.len(), 4);
}

#[test]
fn handlers_start_with_the_loaded_calibration() {
    let handler = Handler::new(Config::default(), "v".to_string(), Some(loaded(TWO, 0, 0)));
    assert!(handler.calibration.motors[0].reversed);
    assert_eq!(handler.lease_manager().get_active_leases(0), vec![]);
    assert_eq!(handler.motor_lease_manager().get_active_leases(0), vec![]);
}

#[test]
fn names_of_pins_and_servos() {
    for name in ["D2", "D3", "D4", "D5", "MCURST", "SW", "LED", "SPEAKER_EN"] {
        assert_eq!(GpioPin::from_name(name).unwrap().name(), name);
    }
    assert_eq!(GpioPin::from_name("D6"), None);
    assert_eq!(GpioPin::from_name("sw"), None);
    for name in ["steering", "camera_pan", "camera_tilt"] {
        assert_eq!(ServoName::from_name(name).unwrap().name(), name);
    }
    assert_eq!(ServoName::from_name("arm"), None);
}

#[test]
fn errors_have_codes_and_messages() {
    let text = || "why".to_string();
    assert_eq!(HatError::I2c(text()).error_code(), "HARDWARE_ERROR");
    for e in [
        HatError::InvalidChannel(text()),
        HatError::InvalidServoChannel(text()),
        HatError::InvalidMotorChannel(text()),
        HatError::InvalidPulse(text()),
        HatError::InvalidAngle(text()),
        HatError::InvalidParam(text()),
    ] {
        assert_eq!(e.error_code(), "INVALID_PARAMS");
        assert_eq!(e.message(), "why");
        assert_eq!(MotorError::Hat(e).error_code(), "INVALID_PARAMS");
    }
    assert_eq!(GpioError::Gpio(text()).error_code(), "HARDWARE_ERROR");
    assert_eq!(GpioError::ReadOnly(text()).error_code(), "INVALID_PARAMS");
    assert_eq!(MotorError::Gpio(GpioError::Gpio(text())).error_code(), "HARDWARE_ERROR");
    assert_eq!(MotorError::Gpio(GpioError::Gpio(text())).message(), "why");
    assert_eq!(AudioError::Command(text()).error_code(), "HARDWARE_ERROR");
    assert_eq!(AudioError::Io(text()).error_code(), "HARDWARE_ERROR");
    assert_eq!(AudioError::Parse(text()).error_code(), "INTERNAL_ERROR");
    assert_eq!(UltrasonicError::Timeout(20).error_code(), "TIMEOUT");
    assert_eq!(
        UltrasonicError::Timeout(20).message(),
        "ultrasonic measurement timed out after 20 ms"
    );
    assert_eq!(UltrasonicError::NoEcho.error_code(), "NO_ECHO");
}

fn read(document: &str) -> Params {
    Params::read(&serde_json::from_str(document).unwrap())
}

#[test]
fn parameters_are_read_as_the_document_gives_them() {
    let params = read(
        r#"{"channel":3,"trim_us":-7,"speed_pct":-0.5,"high":true,"pin":"SW","ttl_ms":null,"name":[1],"servo":{},"other":1}"#,
    );
    assert_eq!(params.unsigned("channel"), Some(3));
    assert_eq!(params.signed("channel"), Some(3));
    assert_eq!(params.number("channel").unwrap().text, "3");
    assert_eq!(params.unsigned("trim_us"), None);
    assert_eq!(params.signed("trim_us"), Some(-7));
    assert_eq!(params.unsigned("speed_pct"), None);
    assert_eq!(params.signed("speed_pct"), None);
    let speed = params.number("speed_pct").unwrap();
    assert_eq!(speed.value.bits, (-0.5f64).to_bits());
    assert_eq!(speed.text, "-0.5");
    assert_eq!(params.truth("high"), Some(true));
    assert_eq!(params.text("pin"), Some("SW".to_string()));
    assert_eq!(params.text("high"), None);
    assert!(matches!(params.get("ttl_ms"), Some(ParamValue::Null)));
    assert!(matches!(params.get("name"), Some(ParamValue::Array)));
    assert!(matches!(params.get("servo"), Some(ParamValue::Object)));
    // No method takes this one.
    assert!(params.get("other").is_none());
    assert!(params.get("surface").is_none());
}

#[test]
fn numbers_beyond_signed_integers() {
    let params = read(r#"{"channel":9223372036854775808,"speed_pct":1e300}"#);
    assert_eq!(params.unsigned("channel"), Some(9223372036854775808));
    assert_eq!(params.signed("channel"), None);
    assert_eq!(params.number("channel").unwrap().value.bits, 9223372036854775808.0f64.to_bits());
    assert_eq!(params.number("speed_pct").unwrap().value.bits, 1e300f64.to_bits());
}

#[test]
fn documents_that_are_no_objects_have_no_parameters() {
    for document in ["null", "[1,2]", "\"channel\"", "3", "{}"] {
        assert!(read(document).get("channel").is_none());
    }
}

fn request(params: &str) -> Request {
    Request::read("q".to_string(), "m".to_string(), &serde_json::from_str(params).unwrap())
}

#[test]
fn channels_and_times_are_extracted() {
    assert_eq!(extract_channel(&request(r#"{"channel":11}"#)).unwrap(), 11);
    let refused = extract_channel(&request(r#"{"channel":12}"#)).unwrap_err();
    assert_eq!(refused.id, "q");
    let failure = refused.outcome.unwrap_err();
    assert_eq!(failure.code, "INVALID_PARAMS");
    assert_eq!(failure.message, "channel is required and must be 0–11");
    assert!(extract_channel(&request("{}")).is_err());
    assert_eq!(extract_ttl(&request("{}"), 500).unwrap(), 500);
    assert_eq!(extract_ttl(&request("{}"), 0).unwrap(), 100);
    assert_eq!(extract_ttl(&request(r#"{"ttl_ms":null}"#), 6000).unwrap(), 5000);
    assert_eq!(extract_ttl(&request(r#"{"ttl_ms":4999}"#), 0).unwrap(), 4999);
    assert!(extract_ttl(&request(r#"{"ttl_ms":99}"#), 500).is_err());
    assert!(extract_ttl(&request(r#"{"ttl_ms":"500"}"#), 500).is_err());
}
