//! What each outcome of a job is answered.

use vstd::prelude::*;

use crate::calibration::ServoName;
use crate::calibration::{Fraction, GrayscaleCalibration};
use crate::hat::audio::AudioError;
use crate::hat::error::{ErrorCode, GpioError, HatError, UltrasonicError};
use crate::hat::gpio::GpioPin;
use crate::ipc::motion;
use crate::ipc::outcome;
use crate::ipc::outcome::{
    Handed, RoutineSnapshot, RoutineStats, StartError, StopOutcome, StopReason,
};
use crate::ipc::plan::SensorReferences;
use crate::ipc::schema::{FailureView, ReplyView, ResponseView, Surface};
use crate::number::Real;
use crate::text;

verus! {

/// The request succeeded, with this reply.
pub open spec fn granted(id: Seq<char>, reply: ReplyView) -> ResponseView {
    ResponseView { id, outcome: Ok(reply) }
}

/// The request failed, with this code and this message.
pub open spec fn denied(id: Seq<char>, code: Seq<char>, message: Seq<char>) -> ResponseView {
    ResponseView { id, outcome: Err(FailureView { code, message }) }
}

/// What the battery, the ADC and the distance sensor read is what is answered, for the
/// channel that was read.
pub proof fn law_readings_are_reported(
    id: Seq<char>,
    channel: u8,
    raw: u16,
    voltage: Real,
    distance: Real,
    high: bool,
    pin: GpioPin,
)
    ensures
        outcome::battery_answer(id, Ok(voltage)) == granted(
            id,
            ReplyView::BatteryVoltage { voltage_v: voltage },
        ),
        outcome::adc_answer(id, channel, Ok(raw)) == granted(
            id,
            ReplyView::Adc { channel, raw_value: raw },
        ),
        outcome::distance_answer(id, Ok(distance)) == granted(
            id,
            ReplyView::Ultrasonic { distance_cm: distance },
        ),
        outcome::pin_read_answer(id, pin, Ok(high)) == granted(id, ReplyView::Gpio { pin, high }),
{
}

/// What was set is what is answered.
pub proof fn law_settings_are_confirmed(
    id: Seq<char>,
    channel: u8,
    pulse: u16,
    angle: Real,
    servo: ServoName,
    pin: GpioPin,
    high: bool,
    pin_bcm: u8,
    reset_ms: u64,
)
    ensures
        outcome::pulse_answer(id, channel, pulse, Ok(())) == granted(
            id,
            ReplyView::ServoPulse { channel, pulse_us: pulse },
        ),
        outcome::angle_answer(id, channel, angle, Ok(pulse)) == granted(
            id,
            ReplyView::ServoAngle { channel, angle_deg: angle, pulse_us: pulse },
        ),
        outcome::named_servo_answer(id, servo, channel, angle, pulse, Ok(())) == granted(
            id,
            ReplyView::NamedServo { servo, channel, angle_deg: angle, pulse_us: pulse },
        ),
        outcome::pin_written_answer(id, pin, high, Ok(())) == granted(
            id,
            ReplyView::Gpio { pin, high },
        ),
        outcome::speaker_answer(id, high, pin_bcm, Ok(())) == granted(
            id,
            ReplyView::Speaker { enabled: high, pin_bcm },
        ),
        outcome::reset_answer(id, Ok(reset_ms)) == granted(id, ReplyView::McuReset { reset_ms }),
{
}

/// An error of the bus is answered under its own code and with its own text; one of the
/// battery always as a hardware error.
pub proof fn law_bus_errors_are_told(
    id: Seq<char>,
    e: HatError,
    channel: u8,
    pulse: u16,
    angle: Real,
    servo: ServoName,
)
    ensures
        ({
            let told = denied(id, e.code(), e.text());
            &&& outcome::adc_answer(id, channel, Err(e)) == told
            &&& outcome::pulse_answer(id, channel, pulse, Err(e)) == told
            &&& outcome::angle_answer(id, channel, angle, Err(e)) == told
            &&& outcome::named_servo_answer(id, servo, channel, angle, pulse, Err(e)) == told
            &&& outcome::battery_answer(id, Err(e)) == denied(id, "HARDWARE_ERROR"@, e.text())
            &&& e is I2c ==> e.code() == "HARDWARE_ERROR"@
            &&& !(e is I2c) ==> e.code() == "INVALID_PARAMS"@
            &&& match e {
                HatError::I2c(s) => e.text() == s@,
                HatError::InvalidChannel(s) => e.text() == s@,
                HatError::InvalidServoChannel(s) => e.text() == s@,
                HatError::InvalidMotorChannel(s) => e.text() == s@,
                HatError::InvalidPulse(s) => e.text() == s@,
                HatError::InvalidAngle(s) => e.text() == s@,
                HatError::InvalidParam(s) => e.text() == s@,
            }
        }),
{
}

/// An error of a pin is answered under its own code and with its own text, and so is one
/// of the distance sensor.
pub proof fn law_pin_errors_are_told(
    id: Seq<char>,
    e: GpioError,
    pin: GpioPin,
    high: bool,
    pin_bcm: u8,
    ms: u64,
)
    ensures
        ({
            let told = denied(id, e.code(), e.text());
            &&& outcome::pin_read_answer(id, pin, Err(e)) == told
            &&& outcome::pin_written_answer(id, pin, high, Err(e)) == told
            &&& outcome::speaker_answer(id, high, pin_bcm, Err(e)) == told
            &&& outcome::distance_answer(id, Err(UltrasonicError::Gpio(e))) == told
            &&& e matches GpioError::Gpio(s) ==> e.code() == "HARDWARE_ERROR"@ && e.text() == s@
            &&& e matches GpioError::ReadOnly(s) ==> e.code() == "INVALID_PARAMS"@ && e.text()
                == s@
            &&& outcome::distance_answer(id, Err(UltrasonicError::Timeout(ms))) == denied(
                id,
                "TIMEOUT"@,
                "ultrasonic measurement timed out after "@ + text::decimal_of(ms as nat) + " ms"@,
            )
            &&& outcome::distance_answer(id, Err(UltrasonicError::NoEcho)) == denied(
                id,
                "NO_ECHO"@,
                "no valid echo received (object out of sensor range 2–400 cm)"@,
            )
        }),
{
}

/// A reset that failed is a hardware error with the text of the failure.
pub proof fn law_a_failed_reset_is_told(id: Seq<char>, e: String)
    ensures
        outcome::reset_answer(id, Err(e)) == denied(id, "HARDWARE_ERROR"@, e@),
{
}

/// A motor operation that succeeded is answered with what was asked, and one that failed
/// with all its failures.
pub proof fn law_motor_operations_are_answered(
    id: Seq<char>,
    channel: u8,
    speed: Real,
    motors: nat,
    started: Seq<u8>,
    failures: Seq<Seq<char>>,
)
    ensures
        outcome::motor_speed_answer(id, channel, speed, Ok(started)) == granted(
            id,
            ReplyView::MotorSpeed { channel, speed_pct: speed },
        ),
        outcome::drive_answer(id, speed, motors, Ok(started)) == granted(
            id,
            ReplyView::Drive { speed_pct: speed, motors },
        ),
        outcome::motor_speed_answer(id, channel, speed, Err(failures)) == denied(
            id,
            "HARDWARE_ERROR"@,
            text::joined(failures, "; "@),
        ),
        outcome::drive_answer(id, speed, motors, Err(failures)) == denied(
            id,
            "HARDWARE_ERROR"@,
            text::joined(failures, "; "@),
        ),
{
}

/// Stopping succeeds exactly if every motor did stop, and is then answered with their
/// number.
pub proof fn law_stopping_is_answered(id: Seq<char>, motors: nat, outcomes: motion::Outcomes)
    requires
        outcomes.len() == motors,
    ensures
        (forall|i: int| 0 <= i < motors ==> #[trigger] outcomes[i] is Ok)
            ==> outcome::stop_all_answer(id, motors, outcomes) == granted(
            id,
            ReplyView::MotorsStopped { stopped: motors },
        ),
        (exists|i: int| 0 <= i < motors && #[trigger] outcomes[i] is Err)
            ==> outcome::stop_all_answer(id, motors, outcomes) == denied(
            id,
            "HARDWARE_ERROR"@,
            text::joined(
                motion::failure_texts(
                    Seq::new(motors, |i: int| i as u8),
                    outcomes,
                    false,
                ),
                "; "@,
            ),
        ),
{
    motion::lemma_failures(motion::motor_indices(motors), outcomes, false);
    assert(motion::motor_indices(motors) =~= Seq::new(motors, |i: int| i as u8));
    if forall|i: int| 0 <= i < motors ==> #[trigger] outcomes[i] is Ok {
        assert forall|i: int| 0 <= i < outcomes.len() implies !(#[trigger] outcomes[i] is Err) by {
            assert(outcomes[i] is Ok);
        }
    }
}

/// When all three sensors were read, the reply has the three readings, each in the place
/// of the channel that it was taken on.
pub proof fn law_readings_keep_their_places(
    id: Seq<char>,
    channels: Seq<u8>,
    readings: Seq<Result<u16, HatError>>,
)
    requires
        outcome::scan_complete(readings),
        readings.last() is Ok,
        channels.len() == 3,
    ensures
        readings.len() == 3,
        outcome::grayscale_answer(id, channels, readings).id == id,
        outcome::grayscale_answer(id, channels, readings).outcome matches Ok(
            ReplyView::Grayscale { channels: told, values },
        ) && told == channels && values.len() == 3 && readings[0] == Ok::<u16, HatError>(values[0])
            && readings[1] == Ok::<u16, HatError>(values[1]) && readings[2] == Ok::<u16, HatError>(
            values[2],
        ),
{
    assert(readings[0] is Ok && readings[1] is Ok);
}

/// The sensor whose turn it is, is read on the channel of its place.
pub proof fn law_sensors_are_read_in_turn(
    channels: Seq<u8>,
    readings: Seq<Result<u16, HatError>>,
)
    requires
        readings.len() < 3,
        readings.len() > 0 ==> readings.last() is Ok,
    ensures
        outcome::next_channel(channels, readings) == Some(channels[readings.len() as int]),
{
}

/// A fraction says how far a reading lies between white and black: all that it is above
/// white, of all that black is above white, and no less than nothing or more than all.
pub open spec fn places(f: Fraction, c: GrayscaleCalibration, raw: u16) -> bool {
    &&& f.denominator == c.black_raw - c.white_raw
    &&& c.white_raw <= raw <= c.black_raw ==> f.numerator == raw - c.white_raw
    &&& raw < c.white_raw ==> f.numerator == 0
    &&& raw > c.black_raw ==> f.numerator == f.denominator
}

/// When all three sensors were read, each reading is held against the calibration of its
/// own sensor: left, center and right.
pub proof fn law_each_sensor_has_its_own_reference(
    id: Seq<char>,
    channels: Seq<u8>,
    references: SensorReferences,
    readings: Seq<Result<u16, HatError>>,
)
    requires
        outcome::scan_complete(readings),
        readings.last() is Ok,
        channels.len() == 3,
        references.left.valid(),
        references.center.valid(),
        references.right.valid(),
    ensures
        outcome::normalized_answer(id, channels, references, readings).id == id,
        outcome::normalized_answer(id, channels, references, readings).outcome matches Ok(
            ReplyView::GrayscaleNormalized { channels: told, normalized },
        ) && told == channels && normalized.len() == 3 && places(
            normalized[0],
            references.left,
            readings[0]->Ok_0,
        ) && places(normalized[1], references.center, readings[1]->Ok_0) && places(
            normalized[2],
            references.right,
            readings[2]->Ok_0,
        ),
{
    assert(readings[0] is Ok && readings[1] is Ok);
}

/// When a sensor could not be read, the answer names its channel and tells its error; the
/// scan ended there.
pub proof fn law_a_failed_scan_is_told(
    id: Seq<char>,
    channels: Seq<u8>,
    references: SensorReferences,
    readings: Seq<Result<u16, HatError>>,
)
    requires
        outcome::scan_complete(readings),
        readings.last() is Err,
    ensures
        ({
            let e = readings.last()->Err_0;
            let told = denied(
                id,
                e.code(),
                "grayscale channel "@ + text::decimal_of(channels[readings.len() - 1] as nat)
                    + ": "@ + e.text(),
            );
            &&& outcome::grayscale_answer(id, channels, readings) == told
            &&& outcome::normalized_answer(id, channels, references, readings) == told
        }),
{
}

/// A reading over a surface replaces the reference for that surface and leaves the other,
/// if white then still reads lower than black; else it is refused. The answer gives back
/// the place, the ADC channel, the surface and the reading.
pub proof fn law_a_captured_surface_is_stored(
    id: Seq<char>,
    channel: usize,
    adc_channel: u8,
    before: GrayscaleCalibration,
    raw: u16,
    e: HatError,
)
    ensures
        outcome::captured(before, Surface::White, raw).white_raw == raw,
        outcome::captured(before, Surface::White, raw).black_raw == before.black_raw,
        outcome::captured(before, Surface::Black, raw).black_raw == raw,
        outcome::captured(before, Surface::Black, raw).white_raw == before.white_raw,
        ({
            let white = outcome::captured_answer(
                id,
                channel,
                adc_channel,
                Surface::White,
                before,
                Ok(raw),
            );
            let black = outcome::captured_answer(
                id,
                channel,
                adc_channel,
                Surface::Black,
                before,
                Ok(raw),
            );
            &&& raw < before.black_raw ==> white == granted(
                id,
                ReplyView::GrayscaleCalibration {
                    channel: channel as nat,
                    adc_channel,
                    surface: Surface::White,
                    raw_value: raw,
                    stored: true,
                },
            )
            &&& raw >= before.black_raw ==> white == denied(
                id,
                "INVALID_PARAMS"@,
                "white_raw ("@ + text::decimal_of(raw as nat) + ") must be < current black_raw ("@
                    + text::decimal_of(before.black_raw as nat)
                    + "); recapture black surface first or adjust surfaces"@,
            )
            &&& raw > before.white_raw ==> black == granted(
                id,
                ReplyView::GrayscaleCalibration {
                    channel: channel as nat,
                    adc_channel,
                    surface: Surface::Black,
                    raw_value: raw,
                    stored: true,
                },
            )
            &&& raw <= before.white_raw ==> black == denied(
                id,
                "INVALID_PARAMS"@,
                "black_raw ("@ + text::decimal_of(raw as nat) + ") must be > current white_raw ("@
                    + text::decimal_of(before.white_raw as nat)
                    + "); recapture white surface first or adjust surfaces"@,
            )
        }),
        outcome::captured_answer(id, channel, adc_channel, Surface::White, before, Err(e))
            == denied(id, e.code(), e.text()),
        outcome::captured_answer(id, channel, adc_channel, Surface::Black, before, Err(e))
            == denied(id, e.code(), e.text()),
{
}

/// A level that was set or read is what is answered; an error of the mixer is answered
/// under its own code, and work that was lost as an internal error.
pub proof fn law_levels_are_answered(id: Seq<char>, pct: u8, e: AudioError, lost: String)
    ensures
        outcome::level_answer(id, ReplyView::Volume { volume_pct: pct }, Handed::Done(()))
            == granted(id, ReplyView::Volume { volume_pct: pct }),
        outcome::level_answer(id, ReplyView::MicGain { gain_pct: pct }, Handed::Done(()))
            == granted(id, ReplyView::MicGain { gain_pct: pct }),
        outcome::volume_answer(id, Handed::Done(pct)) == granted(
            id,
            ReplyView::Volume { volume_pct: pct },
        ),
        outcome::gain_answer(id, Handed::Done(pct)) == granted(
            id,
            ReplyView::MicGain { gain_pct: pct },
        ),
        ({
            let told = denied(id, e.code(), e@.message());
            let gone = denied(id, "INTERNAL_ERROR"@, lost@);
            let set = ReplyView::Volume { volume_pct: pct };
            &&& outcome::level_answer(id, set, Handed::Failed(e)) == told
            &&& outcome::volume_answer(id, Handed::Failed(e)) == told
            &&& outcome::gain_answer(id, Handed::Failed(e)) == told
            &&& outcome::level_answer(id, set, Handed::Lost(lost)) == gone
            &&& outcome::volume_answer(id, Handed::Lost(lost)) == gone
            &&& outcome::gain_answer(id, Handed::Lost(lost)) == gone
            &&& e is Parse ==> e.code() == "INTERNAL_ERROR"@
            &&& !(e is Parse) ==> e.code() == "HARDWARE_ERROR"@
        }),
{
}

/// A calibration that was saved is answered with the path that it was saved to.
pub proof fn law_saving_is_answered(id: Seq<char>, path: Seq<char>, e: String)
    ensures
        outcome::saved_answer(id, path, Handed::Done(())) == granted(
            id,
            ReplyView::CalibrationSaved { saved: true, path },
        ),
        outcome::saved_answer(id, path, Handed::Failed(e)) == denied(id, "HARDWARE_ERROR"@, e@),
        outcome::saved_answer(id, path, Handed::Lost(e)) == denied(id, "INTERNAL_ERROR"@, e@),
{
}

/// A routine that was started is answered with its name and the uptime in whole seconds;
/// one that could not be started with the reason.
pub proof fn law_starting_is_answered(id: Seq<char>, name: Seq<char>, now_ms: u64)
    ensures
        outcome::started_answer(id, name, Ok(()), now_ms).id == id,
        outcome::started_answer(id, name, Ok(()), now_ms).outcome matches Ok(
            ReplyView::RoutineStarted { name: told, started_at_uptime_s },
        ) && told == name && started_at_uptime_s * 1000 <= now_ms < started_at_uptime_s * 1000
            + 1000,
        outcome::started_answer(id, name, Err(StartError::AlreadyRunning), now_ms) == denied(
            id,
            "ALREADY_RUNNING"@,
            "a routine is already running"@,
        ),
        outcome::started_answer(id, name, Err(StartError::Unknown), now_ms) == denied(
            id,
            "INVALID_PARAMS"@,
            "routine '"@ + name + "' is not recognised; valid: explore"@,
        ),
{
}

/// A routine that was stopped is answered with its name, how long it ran, what it met with
/// and why it ended; one that came to a bad end has met with nothing and ended in an error.
pub proof fn law_stopping_a_routine_is_answered(
    id: Seq<char>,
    name: Seq<char>,
    ran_for_s: u64,
    stats: RoutineStats,
    reason: StopReason,
)
    ensures
        outcome::stop_answer(
            id,
            name,
            StopOutcome::Stopped { ran_for_s, stats, stop_reason: reason },
        ).outcome matches Ok(
            ReplyView::RoutineStopped {
                name: told,
                ran_for_s: ran,
                obstacles_avoided,
                cliffs_avoided,
                stop_reason,
            },
        ) && told == name && ran == ran_for_s && obstacles_avoided == stats.obstacles_avoided
            && cliffs_avoided == stats.cliffs_avoided && (reason == StopReason::Commanded
            ==> stop_reason == "commanded"@) && (reason == StopReason::Timeout ==> stop_reason
            == "timeout"@) && (reason == StopReason::Error ==> stop_reason == "error"@),
        ({
            let bad = granted(
                id,
                ReplyView::RoutineStopped {
                    name,
                    ran_for_s,
                    obstacles_avoided: 0,
                    cliffs_avoided: 0,
                    stop_reason: "error"@,
                },
            );
            &&& outcome::stop_answer(id, name, StopOutcome::Crashed { ran_for_s }) == bad
            &&& outcome::stop_answer(id, name, StopOutcome::Aborted { ran_for_s }) == bad
        }),
{
}

/// What the routine is doing is answered as it is.
pub proof fn law_the_status_is_answered(id: Seq<char>, s: RoutineSnapshot)
    ensures
        outcome::status_answer(id, s).id == id,
        outcome::status_answer(id, s).outcome matches Ok(
            ReplyView::RoutineStatus {
                running,
                name,
                elapsed_s,
                obstacles_avoided,
                cliffs_avoided,
            },
        ) && running == s.running && (name is None <==> s.name is None) && (s.name is Some
            ==> name->0 == s.name->0@) && elapsed_s == s.elapsed_s && obstacles_avoided
            == s.obstacles_avoided && cliffs_avoided == s.cliffs_avoided,
{
}

} // verus!
