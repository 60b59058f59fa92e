//! What holds of the daemon as a whole.

use vstd::prelude::*;

use crate::calibration;
use crate::calibration::ServoName;
use crate::config;
use crate::hat::audio::AudioError;
use crate::hat::error::{GpioError, HatError, UltrasonicError};
use crate::hat::lease;
use crate::hat::lease::Leases;
use crate::ipc::handler;
use crate::ipc::motion;
use crate::ipc::outcome;
use crate::ipc::outcome::{Handed, RoutineSnapshot, StartError, StopOutcome};
use crate::ipc::params;
use crate::ipc::plan;
use crate::ipc::plan::{Job, StepView};
use crate::ipc::schema::{ReplyView, RequestView, ResponseView};
use crate::ipc::state::HandlerView;
use crate::number;
use crate::number::Real;

verus! {

/// The `id` that a step carries.
pub open spec fn step_id(s: StepView) -> Seq<char> {
    match s {
        StepView::Answer(r) => r.id,
        StepView::Act { id, job } => id,
        StepView::StartRoutine { id, name, overrides } => id,
        StepView::StopRoutine { id, name } => id,
    }
}

/// What a job hands to the hardware is within the bounds that the hardware has.
pub open spec fn job_in_bounds(h: HandlerView, job: Job) -> bool {
    match job {
        Job::ReadAdc { channel } => channel <= 7,
        Job::SetServoPulse { channel, pulse_us, conn_id, ttl_ms } => channel <= 11 && 500
            <= pulse_us <= 2500 && 100 <= ttl_ms <= 5000,
        Job::SetServoAngle { channel, angle_deg, conn_id, ttl_ms } => channel <= 11
            && angle_deg.within(number::ZERO, number::HUNDRED_EIGHTY) && 100 <= ttl_ms <= 5000,
        Job::SetMotorSpeed { channel, speed_pct, conn_id, ttl_ms } => channel
            < h.config.motors.len() && speed_pct.within(number::MINUS_HUNDRED, number::HUNDRED)
            && 100 <= ttl_ms <= 5000,
        Job::Drive { speed_pct, conn_id, ttl_ms } => h.config.motors.len() > 0
            && speed_pct.within(number::MINUS_HUNDRED, number::HUNDRED) && 100 <= ttl_ms <= 5000,
        Job::SetNamedServo { servo, channel, angle_deg, trim_us, conn_id, ttl_ms } => channel <= 11
            && angle_deg.within(number::ZERO, number::HUNDRED_EIGHTY) && -500 <= trim_us <= 500
            && 100 <= ttl_ms <= 5000,
        Job::ReadGrayscaleNormalized { references } => references.left.valid()
            && references.center.valid() && references.right.valid(),
        Job::SetVolume { volume_pct } => volume_pct <= 100,
        Job::SetMicGain { gain_pct } => gain_pct <= 100,
        Job::CalibrateGrayscale { channel, adc_channel, surface } => channel < 3 && adc_channel
            == h.config.grayscale[channel as int] && adc_channel <= 7,
        _ => true,
    }
}

/// The state is well-formed and the configuration valid.
pub open spec fn sound(h: HandlerView) -> bool {
    h.wf() && h.config.valid() && h.config.grayscale.len() == 3
}

/// What holds of every method: what comes of a request carries its `id`; what is
/// answered with a failure, or has a job to be done, has changed nothing; only
/// calibration is changed before a job is done, and a routine that is to be
/// stopped is no longer the one that is running; a method that there is, is not
/// answered as unknown; and jobs are within bounds.
pub open spec fn orderly(
    h: HandlerView,
    req: RequestView,
    after: HandlerView,
    step: StepView,
) -> bool {
    &&& step_id(step) == req.id
    &&& after == (HandlerView { calibration: after.calibration, routine: after.routine, ..h })
    &&& match step {
        StepView::Answer(r) => match r.outcome {
            Ok(_) => true,
            Err(f) => after == h && f.code != "UNKNOWN_METHOD"@,
        },
        StepView::Act { id, job } => after == h && (sound(h) ==> job_in_bounds(h, job)),
        StepView::StartRoutine { id, name, overrides } => after == h,
        StepView::StopRoutine { id, name } => h.routine == Some(name) && after == (HandlerView {
            routine: None,
            ..h
        }),
    }
}

proof fn lemma_codes_differ()
    ensures
        "UNKNOWN_METHOD"@ != "INVALID_PARAMS"@,
        "UNKNOWN_METHOD"@ != "HARDWARE_ERROR"@,
{
    reveal_strlit("UNKNOWN_METHOD");
    reveal_strlit("INVALID_PARAMS");
    reveal_strlit("HARDWARE_ERROR");
    assert("UNKNOWN_METHOD"@[0] != "INVALID_PARAMS"@[0]);
    assert("UNKNOWN_METHOD"@[0] != "HARDWARE_ERROR"@[0]);
}

proof fn lemma_board_methods(h: HandlerView, req: RequestView, conn_id: u64, now_ms: u64)
    ensures
        handler::board_methods(h, req, conn_id, now_ms) matches Some(x) ==> orderly(
            h,
            req,
            x.0,
            x.1,
        ),
{
    lemma_codes_differ();
}

proof fn lemma_servo_methods(h: HandlerView, req: RequestView, conn_id: u64, now_ms: u64)
    ensures
        handler::servo_methods(h, req, conn_id, now_ms) matches Some(x) ==> orderly(
            h,
            req,
            x.0,
            x.1,
        ),
{
    lemma_codes_differ();
    if sound(h) {
        assert forall|name: Seq<char>| -500 <= #[trigger] h.calibration.trim(name) <= 500 by {}
    }
}

proof fn lemma_motor_methods(h: HandlerView, req: RequestView, conn_id: u64, now_ms: u64)
    ensures
        handler::motor_methods(h, req, conn_id, now_ms) matches Some(x) ==> orderly(
            h,
            req,
            x.0,
            x.1,
        ),
{
    lemma_codes_differ();
}

proof fn lemma_sense_methods(h: HandlerView, req: RequestView, conn_id: u64, now_ms: u64)
    ensures
        handler::sense_methods(h, req, conn_id, now_ms) matches Some(x) ==> orderly(
            h,
            req,
            x.0,
            x.1,
        ),
{
    lemma_codes_differ();
}

proof fn lemma_calibration_methods(h: HandlerView, req: RequestView, conn_id: u64, now_ms: u64)
    ensures
        handler::calibration_methods(h, req, conn_id, now_ms) matches Some(x) ==> orderly(
            h,
            req,
            x.0,
            x.1,
        ),
{
    lemma_codes_differ();
    if sound(h) {
        assert(h.calibration.grayscale[0].valid());
        assert(h.calibration.grayscale[1].valid());
        assert(h.calibration.grayscale[2].valid());
    }
}

proof fn lemma_routine_methods(h: HandlerView, req: RequestView, conn_id: u64, now_ms: u64)
    ensures
        handler::routine_methods(h, req, conn_id, now_ms) matches Some(x) ==> orderly(
            h,
            req,
            x.0,
            x.1,
        ),
{
    lemma_codes_differ();
}

proof fn lemma_orderly(h: HandlerView, req: RequestView, conn_id: u64, now_ms: u64)
    ensures
        ({
            let (after, step) = handler::dispatched(h, req, conn_id, now_ms);
            if handler::board_methods(h, req, conn_id, now_ms) is None
                && handler::servo_methods(h, req, conn_id, now_ms) is None
                && handler::motor_methods(h, req, conn_id, now_ms) is None
                && handler::sense_methods(h, req, conn_id, now_ms) is None
                && handler::calibration_methods(h, req, conn_id, now_ms) is None
                && handler::routine_methods(h, req, conn_id, now_ms) is None {
                (after, step) == (h, StepView::Answer(handler::unknown_method(req)))
            } else {
                orderly(h, req, after, step)
            }
        }),
{
    lemma_board_methods(h, req, conn_id, now_ms);
    lemma_servo_methods(h, req, conn_id, now_ms);
    lemma_motor_methods(h, req, conn_id, now_ms);
    lemma_sense_methods(h, req, conn_id, now_ms);
    lemma_calibration_methods(h, req, conn_id, now_ms);
    lemma_routine_methods(h, req, conn_id, now_ms);
}

/// Whatever a request asks for, what comes of it carries the `id` of the request.
pub proof fn law_answers_carry_the_id(h: HandlerView, req: RequestView, conn_id: u64, now_ms: u64)
    ensures
        step_id(handler::dispatched(h, req, conn_id, now_ms).1) == req.id,
{
    lemma_orderly(h, req, conn_id, now_ms);
}

/// A request that is answered with a failure at once has changed nothing.
pub proof fn law_refusals_change_nothing(
    h: HandlerView,
    req: RequestView,
    conn_id: u64,
    now_ms: u64,
)
    ensures
        handler::dispatched(h, req, conn_id, now_ms).1 matches StepView::Answer(r) && r.outcome is Err
            ==> handler::dispatched(h, req, conn_id, now_ms).0 == h,
{
    lemma_orderly(h, req, conn_id, now_ms);
}

/// Before its job is done, no request changes leases, resets or configuration;
/// and a request that has a job to be done changes nothing at all before that,
/// but that a routine which is to be stopped is no longer the one that is running.
pub proof fn law_nothing_is_leased_in_advance(
    h: HandlerView,
    req: RequestView,
    conn_id: u64,
    now_ms: u64,
)
    ensures
        ({
            let (after, step) = handler::dispatched(h, req, conn_id, now_ms);
            &&& after.leases == h.leases
            &&& after.motor_leases == h.motor_leases
            &&& after.mcu == h.mcu
            &&& after.config == h.config
            &&& step is Act || step is StartRoutine ==> after == h
            &&& step is StopRoutine ==> after == (HandlerView { routine: None, ..h })
        }),
{
    lemma_orderly(h, req, conn_id, now_ms);
}

/// The methods are the ones listed: any other is answered as unknown, and none
/// of them is.
pub proof fn law_methods_are_those_listed(
    h: HandlerView,
    req: RequestView,
    conn_id: u64,
    now_ms: u64,
)
    ensures
        !handler::is_method(req.method) ==> handler::dispatched(h, req, conn_id, now_ms) == (
            h,
            StepView::Answer(handler::unknown_method(req)),
        ),
        handler::is_method(req.method) ==> (handler::dispatched(h, req, conn_id, now_ms).1 matches
            StepView::Answer(r) ==> (r.outcome matches Err(f) ==> f.code != "UNKNOWN_METHOD"@)),
{
    lemma_orderly(h, req, conn_id, now_ms);
}

/// With a valid configuration, no request gets a job past the bounds of the
/// hardware, and the hardware is leased for no less than 100 and no more than
/// 5000 ms.
pub proof fn law_jobs_stay_within_bounds(
    h: HandlerView,
    req: RequestView,
    conn_id: u64,
    now_ms: u64,
)
    requires
        sound(h),
    ensures
        handler::dispatched(h, req, conn_id, now_ms).1 matches StepView::Act { id, job } ==> job_in_bounds(
            h,
            job,
        ),
{
    lemma_orderly(h, req, conn_id, now_ms);
}

/// A routine is started with overrides that the configuration would accept.
pub proof fn law_routine_overrides_are_valid(req: RequestView)
    ensures
        plan::start_routine(req) matches StepView::StartRoutine { id, name, overrides } ==> {
            &&& overrides.speed_pct matches Some(s) ==> s.within(number::ONE, number::HUNDRED)
            &&& overrides.obstacle_threshold_cm matches Some(v) ==> v.positive()
            &&& overrides.cliff_threshold_normalized matches Some(v) ==> v.within(
                number::ZERO,
                number::ONE,
            )
        },
{
}

/// Once the microcontroller was reset, a further reset is refused for the rest
/// of the second, and then goes ahead. Before the first reset none is refused.
pub proof fn law_resets_keep_their_distance(h: HandlerView, req: RequestView, now_ms: u64)
    ensures
        ({
            let step = plan::reset_mcu(h, req, now_ms);
            &&& h.mcu.last_reset_at_ms is None ==> step == plan::act(
                req,
                Job::ResetMcu { requested_at_ms: now_ms },
            )
            &&& h.mcu.last_reset_at_ms matches Some(last) ==> {
                &&& now_ms >= last + 1000 ==> step == plan::act(
                    req,
                    Job::ResetMcu { requested_at_ms: now_ms },
                )
                &&& now_ms < last + 1000 ==> (step matches StepView::Answer(r) && r.outcome is Err)
            }
        }),
{
}

/// A partial calibration of a motor changes what the request sets, for that
/// motor, and nothing else.
pub proof fn law_motor_calibration_is_partial(h: HandlerView, req: RequestView, other: int)
    requires
        0 <= other < h.calibration.motors.len(),
        h.wf(),
    ensures
        ({
            let (after, step) = plan::set_motor_calibration(h, req);
            let channel = params::unsigned_at(req.params, "channel"@);
            &&& (channel is None || channel->0 != other) ==> after.calibration.motors[other]
                == h.calibration.motors[other]
            &&& params::number_at(req.params, "speed_scale"@) is None
                ==> after.calibration.motors[other].speed_scale
                == h.calibration.motors[other].speed_scale
            &&& params::number_at(req.params, "deadband_pct"@) is None
                ==> after.calibration.motors[other].deadband_pct
                == h.calibration.motors[other].deadband_pct
            &&& params::bool_at(req.params, "reversed"@) is None
                ==> after.calibration.motors[other].reversed
                == h.calibration.motors[other].reversed
            &&& after.calibration.trims == h.calibration.trims
            &&& after.calibration.grayscale == h.calibration.grayscale
        }),
{
}

/// A trim that is set takes effect in the next command to that servo.
pub proof fn law_trims_take_effect(
    h: HandlerView,
    set: RequestView,
    req: RequestView,
    conn_id: u64,
    servo: ServoName,
    trim_us: i16,
)
    requires
        params::text_at(set.params, "servo"@) == Some(servo.name_of()),
        params::signed_at(set.params, "trim_us"@) == Some(trim_us as i64),
        -500 <= trim_us <= 500,
    ensures
        ({
            let after = plan::set_servo_calibration(h, set).0;
            plan::move_servo(after, req, conn_id, servo) matches StepView::Act { id, job } ==> (
            job matches Job::SetNamedServo {
                servo: s,
                channel,
                angle_deg,
                trim_us: t,
                conn_id: c,
                ttl_ms,
            } && s == servo && t == trim_us && c == conn_id)
        }),
{
    calibration::law_servo_names(servo, servo.name_of());
}

/// What is calibrated is forgotten by a reset: all is as it was at the start of a
/// daemon that found nothing saved. A second reset changes nothing more.
pub proof fn law_reset_forgets_calibration(h: HandlerView, req: RequestView, again: RequestView)
    ensures
        ({
            let after = plan::reset_calibration(h, req).0;
            &&& after.calibration == calibration::default_calibration(h.config.motors.len())
            &&& plan::reset_calibration(after, again).0 == after
        }),
{
}

/// The address that `health` reports reads back as the configured one.
pub proof fn law_reported_address_reads_back(h: HandlerView, req: RequestView, now_ms: u64)
    ensures
        plan::health(h, req, now_ms) matches StepView::Answer(r) && (r.outcome matches Ok(
            ReplyView::Health {
                schema_version,
                status,
                version,
                hat_address,
                i2c_bus,
                uptime_s,
            },
        ) && config::address_of(hat_address) == Some(h.config.hat_address as int)),
{
    config::law_address_in_either_form(h.config.hat_address);
}

/// Once a client has disconnected, it holds nothing, and every other connection
/// holds what it held.
pub proof fn law_disconnect_frees_everything(
    leases: Leases,
    motor_leases: Leases,
    conn_id: u64,
    ch: u8,
)
    ensures
        ({
            let servos = lease::without_connection(leases, conn_id);
            let motors = lease::without_connection(motor_leases, conn_id);
            &&& servos.dom().contains(ch) ==> servos[ch].conn_id != conn_id
            &&& motors.dom().contains(ch) ==> motors[ch].conn_id != conn_id
            &&& leases.dom().contains(ch) && leases[ch].conn_id != conn_id
                ==> servos.dom().contains(ch) && servos[ch] == leases[ch]
            &&& motor_leases.dom().contains(ch) && motor_leases[ch].conn_id != conn_id
                ==> motors.dom().contains(ch) && motors[ch] == motor_leases[ch]
        }),
{
}

// ---------------------------------------------------------------------------
// Whole requests
// ---------------------------------------------------------------------------

/// Whether `r` is an answer that some outcome of a job leads to, with the daemon
/// in the state `h` by then.
pub open spec fn answers_job(h: HandlerView, id: Seq<char>, job: Job, r: ResponseView) -> bool {
    match job {
        Job::ReadBatteryVoltage => exists|result: Result<Real, HatError>|
            r == #[trigger] outcome::battery_answer(id, result),
        Job::ReadAdc { channel } => exists|result: Result<u16, HatError>|
            r == #[trigger] outcome::adc_answer(id, channel, result),
        Job::SetServoPulse { channel, pulse_us, conn_id, ttl_ms } => exists|
            result: Result<(), HatError>,
        |
            r == #[trigger] outcome::pulse_answer(id, channel, pulse_us, result),
        Job::SetServoAngle { channel, angle_deg, conn_id, ttl_ms } => exists|
            result: Result<u16, HatError>,
        |
            r == #[trigger] outcome::angle_answer(id, channel, angle_deg, result),
        Job::SetNamedServo { servo, channel, angle_deg, trim_us, conn_id, ttl_ms } => exists|
            pulse_us: u16,
            result: Result<(), HatError>,
        |
            r == #[trigger] outcome::named_servo_answer(
                id,
                servo,
                channel,
                angle_deg,
                pulse_us,
                result,
            ),
        Job::ReadGpio { pin } => exists|result: Result<bool, GpioError>|
            r == #[trigger] outcome::pin_read_answer(id, pin, result),
        Job::WriteGpio { pin, high } => exists|result: Result<(), GpioError>|
            r == #[trigger] outcome::pin_written_answer(id, pin, high, result),
        Job::ResetMcu { requested_at_ms } => exists|result: Result<u64, String>|
            r == #[trigger] outcome::reset_answer(id, result),
        Job::SetMotorSpeed { channel, speed_pct, conn_id, ttl_ms } => exists|
            result: Result<Seq<u8>, Seq<Seq<char>>>,
        |
            r == #[trigger] outcome::motor_speed_answer(id, channel, speed_pct, result),
        Job::Drive { speed_pct, conn_id, ttl_ms } => exists|
            result: Result<Seq<u8>, Seq<Seq<char>>>,
        |
            r == #[trigger] outcome::drive_answer(id, speed_pct, h.config.motors.len(), result),
        Job::StopAllMotors => exists|outcomes: motion::Outcomes|
            r == #[trigger] outcome::stop_all_answer(id, h.config.motors.len(), outcomes),
        Job::ReadGrayscale => exists|readings: Seq<Result<u16, HatError>>|
            r == #[trigger] outcome::grayscale_answer(id, h.config.grayscale, readings),
        Job::ReadGrayscaleNormalized { references } => exists|
            readings: Seq<Result<u16, HatError>>,
        |
            r == #[trigger] outcome::normalized_answer(
                id,
                h.config.grayscale,
                references,
                readings,
            ),
        Job::ReadUltrasonic { trig_pin_bcm, echo_pin_bcm, timeout_ms } => exists|
            result: Result<Real, UltrasonicError>,
        |
            r == #[trigger] outcome::distance_answer(id, result),
        Job::WriteSpeaker { enabled, pin_bcm } => exists|result: Result<(), GpioError>|
            r == #[trigger] outcome::speaker_answer(id, enabled, pin_bcm, result),
        Job::SetVolume { volume_pct } => exists|result: Handed<(), AudioError>|
            r == #[trigger] outcome::level_answer(id, ReplyView::Volume { volume_pct }, result),
        Job::GetVolume => exists|result: Handed<u8, AudioError>|
            r == #[trigger] outcome::volume_answer(id, result),
        Job::SetMicGain { gain_pct } => exists|result: Handed<(), AudioError>|
            r == #[trigger] outcome::level_answer(id, ReplyView::MicGain { gain_pct }, result),
        Job::GetMicGain => exists|result: Handed<u8, AudioError>|
            r == #[trigger] outcome::gain_answer(id, result),
        Job::CalibrateGrayscale { channel, adc_channel, surface } => exists|
            result: Result<u16, HatError>,
        |
            r == #[trigger] outcome::captured_answer(
                id,
                channel,
                adc_channel,
                surface,
                h.calibration.grayscale[channel as int],
                result,
            ),
        Job::SaveCalibration => exists|result: Handed<(), String>|
            r == #[trigger] outcome::saved_answer(id, h.config.calibration_path, result),
        Job::GetRoutineStatus => exists|snapshot: RoutineSnapshot|
            r == #[trigger] outcome::status_answer(id, snapshot),
    }
}

/// Whether `r` is an answer that a step can lead to, with the daemon in the state
/// `h` by then.
pub open spec fn answers(h: HandlerView, step: StepView, r: ResponseView) -> bool {
    match step {
        StepView::Answer(answer) => r == answer,
        StepView::Act { id, job } => answers_job(h, id, job, r),
        StepView::StartRoutine { id, name, overrides } => exists|
            result: Result<(), StartError>,
            now_ms: u64,
        |
            r == #[trigger] outcome::started_answer(id, name, result, now_ms),
        StepView::StopRoutine { id, name } => exists|outcome: StopOutcome|
            r == #[trigger] outcome::stop_answer(id, name, outcome),
    }
}

/// The answer to a request: it carries the `id`, and a failure has a code other
/// than that for an unknown method.
pub open spec fn proper(id: Seq<char>, r: ResponseView) -> bool {
    &&& r.id == id
    &&& r.outcome matches Err(f) ==> f.code != "UNKNOWN_METHOD"@
}

proof fn lemma_other_codes_differ()
    ensures
        "UNKNOWN_METHOD"@ != "INTERNAL_ERROR"@,
        "UNKNOWN_METHOD"@ != "ALREADY_RUNNING"@,
        "UNKNOWN_METHOD"@ != "TIMEOUT"@,
        "UNKNOWN_METHOD"@ != "NO_ECHO"@,
{
    reveal_strlit("UNKNOWN_METHOD");
    reveal_strlit("INTERNAL_ERROR");
    reveal_strlit("ALREADY_RUNNING");
    reveal_strlit("TIMEOUT");
    reveal_strlit("NO_ECHO");
    assert("UNKNOWN_METHOD"@[0] != "INTERNAL_ERROR"@[0]);
    assert("UNKNOWN_METHOD"@[0] != "ALREADY_RUNNING"@[0]);
    assert("UNKNOWN_METHOD"@[0] != "TIMEOUT"@[0]);
    assert("UNKNOWN_METHOD"@[0] != "NO_ECHO"@[0]);
}

/// Whatever comes of a job, its answer carries the `id` that it was given and is
/// never that for an unknown method.
pub proof fn law_jobs_are_answered(h: HandlerView, id: Seq<char>, job: Job, r: ResponseView)
    requires
        answers_job(h, id, job, r),
    ensures
        proper(id, r),
{
    lemma_codes_differ();
    lemma_other_codes_differ();
}

/// Whatever a request asks for, whatever comes of it on the hardware and whatever
/// happens in between, its answer carries its `id`, and it is answered as unknown
/// exactly if there is no method of its name.
pub proof fn law_requests_are_answered(
    h: HandlerView,
    req: RequestView,
    conn_id: u64,
    now_ms: u64,
    later: HandlerView,
    r: ResponseView,
)
    requires
        answers(later, handler::dispatched(h, req, conn_id, now_ms).1, r),
    ensures
        r.id == req.id,
        (r.outcome matches Err(f) && f.code == "UNKNOWN_METHOD"@) <==> !handler::is_method(
            req.method,
        ),
{
    let step = handler::dispatched(h, req, conn_id, now_ms).1;
    law_answers_carry_the_id(h, req, conn_id, now_ms);
    law_methods_are_those_listed(h, req, conn_id, now_ms);
    match step {
        StepView::Answer(_) => {},
        StepView::Act { id, job } => {
            law_jobs_are_answered(later, id, job, r);
        },
        StepView::StartRoutine { id, name, overrides } => {
            lemma_codes_differ();
            lemma_other_codes_differ();
        },
        StepView::StopRoutine { id, name } => {},
    }
}

/// A routine that is running is stopped under its name and for one of three
/// reasons, whatever comes of stopping it, and is then no longer running: to stop
/// it once more is refused, as it is when none was running at all.
pub proof fn law_a_routine_is_stopped_once(
    h: HandlerView,
    req: RequestView,
    again: RequestView,
    outcome: StopOutcome,
)
    ensures
        ({
            let (after, step) = plan::stop_routine(h, req);
            &&& h.routine is None ==> after == h && step == plan::refusal(
                req,
                "no routine is currently running"@,
            )
            &&& h.routine matches Some(name) ==> {
                &&& step == StepView::StopRoutine { id: req.id, name }
                &&& outcome::stop_answer(req.id, name, outcome).outcome matches Ok(
                    ReplyView::RoutineStopped {
                        name: told,
                        ran_for_s,
                        obstacles_avoided,
                        cliffs_avoided,
                        stop_reason,
                    },
                ) && told == name && (stop_reason == "commanded"@ || stop_reason == "timeout"@
                    || stop_reason == "error"@)
            }
            &&& plan::stop_routine(after, again).1 == plan::refusal(
                again,
                "no routine is currently running"@,
            )
        }),
{
}

/// A daemon that is started again with the calibration that was saved reports the
/// same calibration.
pub proof fn law_calibration_survives_a_restart(
    h: HandlerView,
    restarted: HandlerView,
    req: RequestView,
)
    requires
        h.wf(),
        restarted.config == h.config,
        restarted.calibration == calibration::starting_calibration(
            Some(h.calibration),
            h.config.motors.len(),
        ),
    ensures
        restarted.calibration == h.calibration,
        plan::get_calibration(restarted, req) == plan::get_calibration(h, req),
{
}

/// What is no request is refused without an `id`, and the refusal tells what was wrong with
/// it; a method that there is not is named in the answer.
pub proof fn law_what_cannot_be_served_is_told(error: Seq<char>, req: RequestView)
    ensures
        handler::malformed(error).id.len() == 0,
        handler::malformed(error).outcome matches Err(f) && f.code == "INVALID_PARAMS"@
            && f.message == "malformed JSON: "@ + error,
        handler::unknown_method(req).id == req.id,
        handler::unknown_method(req).outcome matches Err(f) && f.code == "UNKNOWN_METHOD"@
            && f.message == "method '"@ + req.method + "' not recognized"@,
{
}

} // verus!
