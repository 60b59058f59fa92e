//! What a request comes to: an answer at once, or work on the hardware.
//!
//! Each `handle_*` function looks at the parameters of one method. It refuses
//! them, or it answers, or it names the job that has to be done first. What is
//! then answered, and what is remembered, stands with the outcomes of the jobs.

use vstd::prelude::*;
use vstd::string::*;

use crate::calibration;
use crate::calibration::{
    CalibrationStore, CalibrationView, GrayscaleCalibration, MotorCalibration, ServoName,
    ServoTrim,
};
use crate::hat::gpio;
use crate::hat::gpio::GpioPin;
use crate::hat::lease;
use crate::ipc::params;
use crate::ipc::schema;
use crate::ipc::schema::{
    Reply, ReplyView, Request, RequestView, Response, ResponseView, Surface,
};
use crate::ipc::state;
use crate::ipc::state::{Handler, HandlerView};
use crate::number;
use crate::number::Real;
use crate::text;

verus! {

// ---------------------------------------------------------------------------
// Steps
// ---------------------------------------------------------------------------

/// The calibration of the three grayscale sensors.
#[derive(Debug, Clone, Copy, PartialEq, Eq, Structural)]
pub struct SensorReferences {
    pub left: GrayscaleCalibration,
    pub center: GrayscaleCalibration,
    pub right: GrayscaleCalibration,
}

/// Work that has to be done before a request can be answered.
#[derive(Debug, Clone, Copy, PartialEq, Eq, Structural)]
pub enum Job {
    ReadBatteryVoltage,
    ReadAdc { channel: u8 },
    SetServoPulse { channel: u8, pulse_us: u16, conn_id: u64, ttl_ms: u64 },
    SetServoAngle { channel: u8, angle_deg: Real, conn_id: u64, ttl_ms: u64 },
    ReadGpio { pin: GpioPin },
    WriteGpio { pin: GpioPin, high: bool },
    ResetMcu { requested_at_ms: u64 },
    SetMotorSpeed { channel: u8, speed_pct: Real, conn_id: u64, ttl_ms: u64 },
    Drive { speed_pct: Real, conn_id: u64, ttl_ms: u64 },
    StopAllMotors,
    SetNamedServo {
        servo: ServoName,
        channel: u8,
        angle_deg: Real,
        trim_us: i16,
        conn_id: u64,
        ttl_ms: u64,
    },
    ReadGrayscale,
    /// The readings are to be held against the calibration at this moment.
    ReadGrayscaleNormalized { references: SensorReferences },
    ReadUltrasonic { trig_pin_bcm: u8, echo_pin_bcm: u8, timeout_ms: u64 },
    WriteSpeaker { enabled: bool, pin_bcm: u8 },
    SetVolume { volume_pct: u8 },
    GetVolume,
    SetMicGain { gain_pct: u8 },
    GetMicGain,
    CalibrateGrayscale { channel: usize, adc_channel: u8, surface: Surface },
    /// Write the calibration at this moment to the configured path.
    SaveCalibration,
    GetRoutineStatus,
}

/// What a client asks of a routine, where it asks for other than is configured.
#[derive(Debug, Clone, Copy, PartialEq, Eq, Structural)]
pub struct RoutineOverrides {
    pub speed_pct: Option<Real>,
    pub obstacle_threshold_cm: Option<Real>,
    pub cliff_threshold_normalized: Option<Real>,
    pub max_duration_s: Option<u64>,
}

/// What a request comes to.
#[derive(Debug)]
pub enum Step {
    /// Answer it.
    Answer(Response),
    /// Do the job first.
    Act { id: String, job: Job },
    /// Start a routine first.
    StartRoutine { id: String, name: String, overrides: RoutineOverrides },
    /// Stop the routine of this name first.
    StopRoutine { id: String, name: String },
}

/// A `Step` with its texts as sequences of characters.
pub enum StepView {
    Answer(ResponseView),
    Act { id: Seq<char>, job: Job },
    StartRoutine { id: Seq<char>, name: Seq<char>, overrides: RoutineOverrides },
    StopRoutine { id: Seq<char>, name: Seq<char> },
}

impl View for Step {
    type V = StepView;

    open spec fn view(&self) -> StepView {
        match *self {
            Step::Answer(r) => StepView::Answer(r@),
            Step::Act { id, job } => StepView::Act { id: id@, job },
            Step::StartRoutine { id, name, overrides } => StepView::StartRoutine {
                id: id@,
                name: name@,
                overrides,
            },
            Step::StopRoutine { id, name } => StepView::StopRoutine { id: id@, name: name@ },
        }
    }
}

/// The request is refused for its parameters.
pub open spec fn refusal(req: RequestView, message: Seq<char>) -> StepView {
    StepView::Answer(schema::refused(req.id, message))
}

/// The request is answered.
pub open spec fn answer(req: RequestView, reply: ReplyView) -> StepView {
    StepView::Answer(schema::succeeded(req.id, reply))
}

/// The request needs a job done.
pub open spec fn act(req: RequestView, job: Job) -> StepView {
    StepView::Act { id: req.id, job }
}

fn refuse(request: &Request, message: &str) -> (r: Step)
    ensures
        r@ == refusal(request@, message@),
{
    Step::Answer(Response::refuse(request.id.as_str(), message))
}

fn respond(request: &Request, reply: Reply) -> (r: Step)
    ensures
        r@ == answer(request@, reply@),
{
    Step::Answer(Response::ok(request.id.clone(), reply))
}

fn work(request: &Request, job: Job) -> (r: Step)
    ensures
        r@ == act(request@, job),
{
    Step::Act { id: request.id.clone(), job }
}

/// The message for a time to live that is out of bounds.
pub open spec fn ttl_message() -> Seq<char> {
    "ttl_ms must be an integer 100–5000"@
}

// ---------------------------------------------------------------------------
// Health and status
// ---------------------------------------------------------------------------

pub open spec fn health(h: HandlerView, req: RequestView, now_ms: u64) -> StepView {
    answer(
        req,
        ReplyView::Health {
            schema_version: "1.0.0"@,
            status: "ok"@,
            version: h.version,
            hat_address: text::hex_byte_of(h.config.hat_address),
            i2c_bus: h.config.i2c_bus,
            uptime_s: now_ms / 1000,
        },
    )
}

pub open spec fn get_servo_status(h: HandlerView, req: RequestView, now_ms: u64) -> StepView {
    answer(req, ReplyView::ActiveLeases { active_leases: lease::listed(h.leases, now_ms) })
}

pub open spec fn get_motor_status(h: HandlerView, req: RequestView, now_ms: u64) -> StepView {
    answer(req, ReplyView::ActiveLeases { active_leases: lease::listed(h.motor_leases, now_ms) })
}

/// How long ago a time is, from another: no time at all, if it is not past.
pub open spec fn elapsed(now_ms: u64, then_ms: u64) -> u64 {
    if now_ms >= then_ms {
        (now_ms - then_ms) as u64
    } else {
        0
    }
}

pub open spec fn get_mcu_status(h: HandlerView, req: RequestView, now_ms: u64) -> StepView {
    answer(
        req,
        ReplyView::McuStatus {
            resets_since_start: h.mcu.reset_count,
            last_reset_s_ago: match h.mcu.last_reset_at_ms {
                Some(t) => Some((elapsed(now_ms, t) / 1000) as u64),
                None => None,
            },
        },
    )
}

impl Handler {
    /// `health {}`
    pub fn handle_health(&self, request: &Request, now_ms: u64) -> (r: Step)
        ensures
            r@ == health(self@, request@, now_ms),
    {
        respond(
            request,
            Reply::Health {
                schema_version: "1.0.0".to_owned(),
                status: "ok".to_owned(),
                version: self.version.clone(),
                hat_address: text::hex_byte(self.config.hat_address),
                i2c_bus: self.config.i2c_bus,
                uptime_s: now_ms / 1000,
            },
        )
    }

    /// `get_servo_status {}`: the leases on servo channels.
    pub fn handle_get_servo_status(&self, request: &Request, now_ms: u64) -> (r: Step)
        ensures
            r@ == get_servo_status(self@, request@, now_ms),
    {
        respond(
            request,
            Reply::ActiveLeases { active_leases: self.leases.get_active_leases(now_ms) },
        )
    }

    /// `get_motor_status {}`: the leases on motors.
    pub fn handle_get_motor_status(&self, request: &Request, now_ms: u64) -> (r: Step)
        ensures
            r@ == get_motor_status(self@, request@, now_ms),
    {
        respond(
            request,
            Reply::ActiveLeases { active_leases: self.motor_leases.get_active_leases(now_ms) },
        )
    }

    /// `get_mcu_status {}`: the resets of the microcontroller.
    pub fn handle_get_mcu_status(&self, request: &Request, now_ms: u64) -> (r: Step)
        ensures
            r@ == get_mcu_status(self@, request@, now_ms),
    {
        let last_reset_s_ago: Option<u64> = match self.mcu.last_reset_at_ms {
            Some(t) => Some(now_ms.saturating_sub(t) / 1000),
            None => None,
        };
        respond(
            request,
            Reply::McuStatus { resets_since_start: self.mcu.reset_count, last_reset_s_ago },
        )
    }
}

// ---------------------------------------------------------------------------
// Sensors and pins
// ---------------------------------------------------------------------------

pub open spec fn read_adc(req: RequestView) -> StepView {
    match schema::bounded(params::unsigned_at(req.params, "channel"@), 0, 7) {
        Some(ch) => act(req, Job::ReadAdc { channel: ch as u8 }),
        None => refusal(req, "channel is required and must be 0–7"@),
    }
}

pub open spec fn read_gpio(req: RequestView) -> StepView {
    match params::text_at(req.params, "pin"@) {
        None => refusal(req, "pin is required"@),
        Some(name) => match gpio::pin_named(name) {
            None => refusal(
                req,
                "unknown pin '"@ + name
                    + "'; valid: D2, D3, D4, D5, MCURST, SW, LED, SPEAKER_EN"@,
            ),
            Some(pin) => act(req, Job::ReadGpio { pin }),
        },
    }
}

pub open spec fn write_gpio(req: RequestView) -> StepView {
    match params::text_at(req.params, "pin"@) {
        None => refusal(req, "pin is required"@),
        Some(name) => match gpio::pin_named(name) {
            None => refusal(
                req,
                "unknown pin '"@ + name
                    + "'; valid output pins: D2, D4, D5, MCURST, LED, SPEAKER_EN"@,
            ),
            Some(pin) => match params::bool_at(req.params, "high"@) {
                None => refusal(req, "high is required and must be a boolean"@),
                Some(high) => act(req, Job::WriteGpio { pin, high }),
            },
        },
    }
}

pub open spec fn read_ultrasonic(h: HandlerView, req: RequestView) -> StepView {
    act(
        req,
        Job::ReadUltrasonic {
            trig_pin_bcm: h.config.ultrasonic.trig_pin_bcm,
            echo_pin_bcm: h.config.ultrasonic.echo_pin_bcm,
            timeout_ms: h.config.ultrasonic.timeout_ms,
        },
    )
}

pub open spec fn speaker(h: HandlerView, req: RequestView, enabled: bool) -> StepView {
    act(req, Job::WriteSpeaker { enabled, pin_bcm: h.config.speaker_en_pin_bcm })
}

/// A reset is due to be waited for, if the last one was less than the shortest
/// interval ago.
pub open spec fn reset_mcu(h: HandlerView, req: RequestView, now_ms: u64) -> StepView {
    match h.mcu.last_reset_at_ms {
        Some(last) if elapsed(now_ms, last) < state::RESET_MIN_INTERVAL_MS => StepView::Answer(
            schema::failed(
                req.id,
                "HARDWARE_ERROR"@,
                "MCU reset rate-limited; retry after "@ + text::decimal_of(
                    (state::RESET_MIN_INTERVAL_MS - elapsed(now_ms, last)) as nat,
                ) + " ms"@,
            ),
        ),
        _ => act(req, Job::ResetMcu { requested_at_ms: now_ms }),
    }
}

pub open spec fn references(c: CalibrationView) -> SensorReferences {
    SensorReferences { left: c.grayscale[0], center: c.grayscale[1], right: c.grayscale[2] }
}

pub open spec fn read_grayscale_normalized(h: HandlerView, req: RequestView) -> StepView {
    act(req, Job::ReadGrayscaleNormalized { references: references(h.calibration) })
}

impl Handler {
    /// `get_battery_voltage {}`
    pub fn handle_get_battery_voltage(&self, request: &Request) -> (r: Step)
        ensures
            r@ == act(request@, Job::ReadBatteryVoltage),
    {
        work(request, Job::ReadBatteryVoltage)
    }

    /// `read_adc { channel }`
    pub fn handle_read_adc(&self, request: &Request) -> (r: Step)
        ensures
            r@ == read_adc(request@),
    {
        match request.required_u64_as_u8("channel", 0, 7, "channel is required and must be 0–7") {
            Ok(channel) => work(request, Job::ReadAdc { channel }),
            Err(resp) => Step::Answer(resp),
        }
    }

    /// `read_gpio { pin }`
    pub fn handle_read_gpio(&self, request: &Request) -> (r: Step)
        ensures
            r@ == read_gpio(request@),
    {
        let name = match request.required_str("pin", "pin is required") {
            Ok(s) => s,
            Err(resp) => return Step::Answer(resp),
        };
        match GpioPin::from_name(name.as_str()) {
            Some(pin) => work(request, Job::ReadGpio { pin }),
            None => refuse(
                request,
                "unknown pin '".to_owned().concat(name.as_str()).concat(
                    "'; valid: D2, D3, D4, D5, MCURST, SW, LED, SPEAKER_EN",
                ).as_str(),
            ),
        }
    }

    /// `write_gpio { pin, high }`
    pub fn handle_write_gpio(&self, request: &Request) -> (r: Step)
        ensures
            r@ == write_gpio(request@),
    {
        let name = match request.required_str("pin", "pin is required") {
            Ok(s) => s,
            Err(resp) => return Step::Answer(resp),
        };
        let pin = match GpioPin::from_name(name.as_str()) {
            Some(pin) => pin,
            None => return refuse(
                request,
                "unknown pin '".to_owned().concat(name.as_str()).concat(
                    "'; valid output pins: D2, D4, D5, MCURST, LED, SPEAKER_EN",
                ).as_str(),
            ),
        };
        match request.required_bool("high", "high is required and must be a boolean") {
            Ok(high) => work(request, Job::WriteGpio { pin, high }),
            Err(resp) => Step::Answer(resp),
        }
    }

    /// `read_ultrasonic {}`: with the pins and the timeout of the configuration.
    pub fn handle_read_ultrasonic(&self, request: &Request) -> (r: Step)
        ensures
            r@ == read_ultrasonic(self@, request@),
    {
        work(
            request,
            Job::ReadUltrasonic {
                trig_pin_bcm: self.config.ultrasonic.trig_pin_bcm,
                echo_pin_bcm: self.config.ultrasonic.echo_pin_bcm,
                timeout_ms: self.config.ultrasonic.timeout_ms,
            },
        )
    }

    /// `enable_speaker {}`: drive the enable pin of the amplifier high.
    pub fn handle_enable_speaker(&self, request: &Request) -> (r: Step)
        ensures
            r@ == speaker(self@, request@, true),
    {
        work(
            request,
            Job::WriteSpeaker { enabled: true, pin_bcm: self.config.speaker_en_pin_bcm },
        )
    }

    /// `disable_speaker {}`: drive the enable pin of the amplifier low.
    pub fn handle_disable_speaker(&self, request: &Request) -> (r: Step)
        ensures
            r@ == speaker(self@, request@, false),
    {
        work(
            request,
            Job::WriteSpeaker { enabled: false, pin_bcm: self.config.speaker_en_pin_bcm },
        )
    }

    /// `reset_mcu {}`: at most once in a second. An attempt that failed does not
    /// count.
    pub fn handle_reset_mcu(&self, request: &Request, now_ms: u64) -> (r: Step)
        ensures
            r@ == reset_mcu(self@, request@, now_ms),
    {
        if let Some(last) = self.mcu.last_reset_at_ms {
            let elapsed_ms: u64 = now_ms.saturating_sub(last);
            if elapsed_ms < state::RESET_MIN_INTERVAL_MS {
                let remaining: u64 = state::RESET_MIN_INTERVAL_MS - elapsed_ms;
                return Step::Answer(
                    Response::err(
                        request.id.clone(),
                        "HARDWARE_ERROR",
                        "MCU reset rate-limited; retry after ".to_owned().concat(
                            text::decimal(remaining).as_str(),
                        ).concat(" ms"),
                    ),
                );
            }
        }
        work(request, Job::ResetMcu { requested_at_ms: now_ms })
    }

    /// `read_grayscale {}`
    pub fn handle_read_grayscale(&self, request: &Request) -> (r: Step)
        ensures
            r@ == act(request@, Job::ReadGrayscale),
    {
        work(request, Job::ReadGrayscale)
    }

    /// `read_grayscale_normalized {}`: against the calibration at this moment.
    pub fn handle_read_grayscale_normalized(&self, request: &Request) -> (r: Step)
        ensures
            r@ == read_grayscale_normalized(self@, request@),
    {
        let references = SensorReferences {
            left: self.calibration.grayscale[0],
            center: self.calibration.grayscale[1],
            right: self.calibration.grayscale[2],
        };
        work(request, Job::ReadGrayscaleNormalized { references })
    }
}

// ---------------------------------------------------------------------------
// Servos
// ---------------------------------------------------------------------------

pub open spec fn set_servo_pulse_us(h: HandlerView, req: RequestView, conn_id: u64) -> StepView {
    match schema::bounded(params::unsigned_at(req.params, "channel"@), 0, 11) {
        None => refusal(req, "channel is required and must be 0–11"@),
        Some(ch) => match schema::bounded(params::unsigned_at(req.params, "pulse_us"@), 500, 2500) {
            None => refusal(req, "pulse_us is required and must be 500–2500"@),
            Some(p) => match schema::ttl_of(req.params, h.config.servo_default_ttl_ms) {
                None => refusal(req, ttl_message()),
                Some(ttl_ms) => act(
                    req,
                    Job::SetServoPulse { channel: ch as u8, pulse_us: p as u16, conn_id, ttl_ms },
                ),
            },
        },
    }
}

pub open spec fn set_servo_angle(h: HandlerView, req: RequestView, conn_id: u64) -> StepView {
    match schema::bounded(params::unsigned_at(req.params, "channel"@), 0, 11) {
        None => refusal(req, "channel is required and must be 0–11"@),
        Some(ch) => match schema::number_within(
            req.params,
            "angle_deg"@,
            number::ZERO,
            number::HUNDRED_EIGHTY,
        ) {
            None => refusal(req, "angle_deg is required and must be 0.0–180.0"@),
            Some(angle_deg) => match schema::ttl_of(req.params, h.config.servo_default_ttl_ms) {
                None => refusal(req, ttl_message()),
                Some(ttl_ms) => act(
                    req,
                    Job::SetServoAngle { channel: ch as u8, angle_deg, conn_id, ttl_ms },
                ),
            },
        },
    }
}

/// A named servo is set with its trim as it is at this moment.
pub open spec fn set_named_servo(
    h: HandlerView,
    req: RequestView,
    conn_id: u64,
    channel: u8,
    servo: ServoName,
) -> StepView {
    match schema::number_within(
        req.params,
        "angle_deg"@,
        number::ZERO,
        number::HUNDRED_EIGHTY,
    ) {
        None => refusal(req, "angle_deg is required and must be 0.0–180.0"@),
        Some(angle_deg) => match schema::ttl_of(req.params, h.config.servo_default_ttl_ms) {
            None => refusal(req, ttl_message()),
            Some(ttl_ms) => act(
                req,
                Job::SetNamedServo {
                    servo,
                    channel,
                    angle_deg,
                    trim_us: h.calibration.trim(servo.name_of()),
                    conn_id,
                    ttl_ms,
                },
            ),
        },
    }
}

/// The channel of a named servo, where it is configured.
pub open spec fn servo_channel(h: HandlerView, servo: ServoName) -> Option<u8> {
    match servo {
        ServoName::Steering => h.config.servos.steering,
        ServoName::CameraPan => h.config.servos.camera_pan,
        ServoName::CameraTilt => h.config.servos.camera_tilt,
    }
}

pub open spec fn move_servo(
    h: HandlerView,
    req: RequestView,
    conn_id: u64,
    servo: ServoName,
) -> StepView {
    match servo_channel(h, servo) {
        Some(channel) => set_named_servo(h, req, conn_id, channel, servo),
        None => refusal(req, servo.name_of() + " servo is not configured"@),
    }
}

impl Handler {
    /// `set_servo_pulse_us { channel, pulse_us, ttl_ms? }`
    pub fn handle_set_servo_pulse_us(&self, request: &Request, conn_id: u64) -> (r: Step)
        ensures
            r@ == set_servo_pulse_us(self@, request@, conn_id),
    {
        let channel: u8 = match schema::extract_channel(request) {
            Ok(ch) => ch,
            Err(resp) => return Step::Answer(resp),
        };
        let pulse_us: u16 = match request.params.unsigned("pulse_us") {
            Some(p) if 500 <= p && p <= 2500 => p as u16,
            _ => return refuse(request, "pulse_us is required and must be 500–2500"),
        };
        match schema::extract_ttl(request, self.config.servo_default_ttl_ms) {
            Ok(ttl_ms) => work(request, Job::SetServoPulse { channel, pulse_us, conn_id, ttl_ms }),
            Err(resp) => Step::Answer(resp),
        }
    }

    /// `set_servo_angle { channel, angle_deg, ttl_ms? }`
    pub fn handle_set_servo_angle(&self, request: &Request, conn_id: u64) -> (r: Step)
        ensures
            r@ == set_servo_angle(self@, request@, conn_id),
    {
        let channel: u8 = match schema::extract_channel(request) {
            Ok(ch) => ch,
            Err(resp) => return Step::Answer(resp),
        };
        let angle_deg = match request.required_f64(
            "angle_deg",
            number::ZERO,
            number::HUNDRED_EIGHTY,
            "angle_deg is required and must be 0.0–180.0",
        ) {
            Ok(a) => a,
            Err(resp) => return Step::Answer(resp),
        };
        match schema::extract_ttl(request, self.config.servo_default_ttl_ms) {
            Ok(ttl_ms) => work(request, Job::SetServoAngle { channel, angle_deg, conn_id, ttl_ms }),
            Err(resp) => Step::Answer(resp),
        }
    }

    /// What the methods for named servos have in common.
    pub fn set_named_servo(
        &self,
        request: &Request,
        conn_id: u64,
        channel: u8,
        servo: ServoName,
    ) -> (r: Step)
        ensures
            r@ == set_named_servo(self@, request@, conn_id, channel, servo),
    {
        let angle_deg = match request.required_f64(
            "angle_deg",
            number::ZERO,
            number::HUNDRED_EIGHTY,
            "angle_deg is required and must be 0.0–180.0",
        ) {
            Ok(a) => a,
            Err(resp) => return Step::Answer(resp),
        };
        match schema::extract_ttl(request, self.config.servo_default_ttl_ms) {
            Ok(ttl_ms) => work(
                request,
                Job::SetNamedServo {
                    servo,
                    channel,
                    angle_deg,
                    trim_us: self.calibration.trim_us(servo.name()),
                    conn_id,
                    ttl_ms,
                },
            ),
            Err(resp) => Step::Answer(resp),
        }
    }

    fn move_servo(
        &self,
        request: &Request,
        conn_id: u64,
        channel: Option<u8>,
        servo: ServoName,
    ) -> (r: Step)
        requires
            channel == servo_channel(self@, servo),
        ensures
            r@ == move_servo(self@, request@, conn_id, servo),
    {
        match channel {
            Some(ch) => self.set_named_servo(request, conn_id, ch, servo),
            None => refuse(
                request,
                servo.name().to_owned().concat(" servo is not configured").as_str(),
            ),
        }
    }

    /// `steer { angle_deg, ttl_ms? }`
    pub fn handle_steer(&self, request: &Request, conn_id: u64) -> (r: Step)
        ensures
            r@ == move_servo(self@, request@, conn_id, ServoName::Steering),
    {
        self.move_servo(request, conn_id, self.config.servos.steering, ServoName::Steering)
    }

    /// `pan_camera { angle_deg, ttl_ms? }`
    pub fn handle_pan_camera(&self, request: &Request, conn_id: u64) -> (r: Step)
        ensures
            r@ == move_servo(self@, request@, conn_id, ServoName::CameraPan),
    {
        self.move_servo(request, conn_id, self.config.servos.camera_pan, ServoName::CameraPan)
    }

    /// `tilt_camera { angle_deg, ttl_ms? }`
    pub fn handle_tilt_camera(&self, request: &Request, conn_id: u64) -> (r: Step)
        ensures
            r@ == move_servo(self@, request@, conn_id, ServoName::CameraTilt),
    {
        self.move_servo(request, conn_id, self.config.servos.camera_tilt, ServoName::CameraTilt)
    }
}

// ---------------------------------------------------------------------------
// Motors
// ---------------------------------------------------------------------------

/// The message for a motor that is not configured.
pub open spec fn no_motor_message(channel: u64, motors: nat) -> Seq<char> {
    "channel "@ + text::decimal_of(channel as nat) + " is not configured; "@ + text::decimal_of(
        motors,
    ) + " motor(s) available"@
}

fn no_motor_text(channel: u64, motors: usize) -> (r: String)
    ensures
        r@ == no_motor_message(channel, motors as nat),
{
    "channel ".to_owned().concat(text::decimal(channel).as_str()).concat(
        " is not configured; ",
    ).concat(text::decimal(motors as u64).as_str()).concat(" motor(s) available")
}

pub open spec fn set_motor_speed(h: HandlerView, req: RequestView, conn_id: u64) -> StepView {
    let motors = h.config.motors.len();
    match params::unsigned_at(req.params, "channel"@) {
        None => refusal(req, "channel is required"@),
        Some(ch) => if ch >= motors {
            refusal(req, no_motor_message(ch, motors))
        } else {
            match params::number_at(req.params, "speed_pct"@) {
                None => refusal(req, "speed_pct is required"@),
                Some(s) => if !s.value.within(number::MINUS_HUNDRED, number::HUNDRED) {
                    refusal(req, "speed_pct "@ + s.text + " is out of range -100.0..=100.0"@)
                } else {
                    match schema::ttl_of(req.params, h.config.motor_default_ttl_ms) {
                        None => refusal(req, ttl_message()),
                        Some(ttl_ms) => act(
                            req,
                            Job::SetMotorSpeed {
                                channel: ch as u8,
                                speed_pct: s.value,
                                conn_id,
                                ttl_ms,
                            },
                        ),
                    }
                },
            }
        },
    }
}

pub open spec fn drive(h: HandlerView, req: RequestView, conn_id: u64) -> StepView {
    match schema::number_within(
        req.params,
        "speed_pct"@,
        number::MINUS_HUNDRED,
        number::HUNDRED,
    ) {
        None => refusal(req, "speed_pct is required and must be -100.0–100.0"@),
        Some(speed_pct) => match schema::ttl_of(req.params, h.config.motor_default_ttl_ms) {
            None => refusal(req, ttl_message()),
            Some(ttl_ms) => if h.config.motors.len() == 0 {
                refusal(req, "no motors configured"@)
            } else {
                act(req, Job::Drive { speed_pct, conn_id, ttl_ms })
            },
        },
    }
}

impl Handler {
    /// `set_motor_speed { channel, speed_pct, ttl_ms? }`
    pub fn handle_set_motor_speed(&self, request: &Request, conn_id: u64) -> (r: Step)
        requires
            self@.wf(),
        ensures
            r@ == set_motor_speed(self@, request@, conn_id),
    {
        let motors: usize = self.config.motors.len();
        let channel: u64 = match request.params.unsigned("channel") {
            Some(ch) => ch,
            None => return refuse(request, "channel is required"),
        };
        if channel >= motors as u64 {
            return refuse(request, no_motor_text(channel, motors).as_str());
        }
        let speed = match request.params.number("speed_pct") {
            Some(s) => s,
            None => return refuse(request, "speed_pct is required"),
        };
        if !speed.value.is_within(number::MINUS_HUNDRED, number::HUNDRED) {
            return refuse(
                request,
                "speed_pct ".to_owned().concat(speed.text.as_str()).concat(
                    " is out of range -100.0..=100.0",
                ).as_str(),
            );
        }
        match schema::extract_ttl(request, self.config.motor_default_ttl_ms) {
            Ok(ttl_ms) => work(
                request,
                Job::SetMotorSpeed {
                    channel: channel as u8,
                    speed_pct: speed.value,
                    conn_id,
                    ttl_ms,
                },
            ),
            Err(resp) => Step::Answer(resp),
        }
    }

    /// `drive { speed_pct, ttl_ms? }`: all motors at the same speed.
    pub fn handle_drive(&self, request: &Request, conn_id: u64) -> (r: Step)
        ensures
            r@ == drive(self@, request@, conn_id),
    {
        let speed_pct = match request.required_f64(
            "speed_pct",
            number::MINUS_HUNDRED,
            number::HUNDRED,
            "speed_pct is required and must be -100.0–100.0",
        ) {
            Ok(s) => s,
            Err(resp) => return Step::Answer(resp),
        };
        let ttl_ms: u64 = match schema::extract_ttl(request, self.config.motor_default_ttl_ms) {
            Ok(ms) => ms,
            Err(resp) => return Step::Answer(resp),
        };
        if self.config.motors.len() == 0 {
            return refuse(request, "no motors configured");
        }
        work(request, Job::Drive { speed_pct, conn_id, ttl_ms })
    }

    /// `stop_all_motors {}`
    pub fn handle_stop_all_motors(&self, request: &Request) -> (r: Step)
        ensures
            r@ == act(request@, Job::StopAllMotors),
    {
        work(request, Job::StopAllMotors)
    }
}

// ---------------------------------------------------------------------------
// Levels
// ---------------------------------------------------------------------------

pub open spec fn set_volume(req: RequestView) -> StepView {
    match schema::bounded(params::unsigned_at(req.params, "volume_pct"@), 0, 100) {
        Some(v) => act(req, Job::SetVolume { volume_pct: v as u8 }),
        None => refusal(req, "volume_pct is required and must be 0–100"@),
    }
}

pub open spec fn set_mic_gain(req: RequestView) -> StepView {
    match schema::bounded(params::unsigned_at(req.params, "gain_pct"@), 0, 100) {
        Some(v) => act(req, Job::SetMicGain { gain_pct: v as u8 }),
        None => refusal(req, "gain_pct is required and must be 0–100"@),
    }
}

impl Handler {
    /// `set_volume { volume_pct }`
    pub fn handle_set_volume(&self, request: &Request) -> (r: Step)
        ensures
            r@ == set_volume(request@),
    {
        match request.required_u64_as_u8(
            "volume_pct",
            0,
            100,
            "volume_pct is required and must be 0–100",
        ) {
            Ok(volume_pct) => work(request, Job::SetVolume { volume_pct }),
            Err(resp) => Step::Answer(resp),
        }
    }

    /// `get_volume {}`
    pub fn handle_get_volume(&self, request: &Request) -> (r: Step)
        ensures
            r@ == act(request@, Job::GetVolume),
    {
        work(request, Job::GetVolume)
    }

    /// `set_mic_gain { gain_pct }`
    pub fn handle_set_mic_gain(&self, request: &Request) -> (r: Step)
        ensures
            r@ == set_mic_gain(request@),
    {
        match request.required_u64_as_u8(
            "gain_pct",
            0,
            100,
            "gain_pct is required and must be 0–100",
        ) {
            Ok(gain_pct) => work(request, Job::SetMicGain { gain_pct }),
            Err(resp) => Step::Answer(resp),
        }
    }

    /// `get_mic_gain {}`
    pub fn handle_get_mic_gain(&self, request: &Request) -> (r: Step)
        ensures
            r@ == act(request@, Job::GetMicGain),
    {
        work(request, Job::GetMicGain)
    }
}

// ---------------------------------------------------------------------------
// Calibration
// ---------------------------------------------------------------------------

pub open spec fn get_calibration(h: HandlerView, req: RequestView) -> StepView {
    answer(
        req,
        ReplyView::Calibration {
            motors: h.calibration.motors,
            trims: h.calibration.trims,
            adc_channels: h.config.grayscale,
            grayscale: h.calibration.grayscale,
        },
    )
}

/// A motor's calibration with what a request sets of it.
pub open spec fn motor_updated(m: MotorCalibration, req: RequestView) -> MotorCalibration {
    MotorCalibration {
        speed_scale: match params::number_at(req.params, "speed_scale"@) {
            Some(x) => x.value,
            None => m.speed_scale,
        },
        deadband_pct: match params::number_at(req.params, "deadband_pct"@) {
            Some(x) => x.value,
            None => m.deadband_pct,
        },
        reversed: match params::bool_at(req.params, "reversed"@) {
            Some(b) => b,
            None => m.reversed,
        },
    }
}

pub open spec fn set_motor_calibration(h: HandlerView, req: RequestView) -> (
    HandlerView,
    StepView,
) {
    let motors = h.config.motors.len();
    match params::unsigned_at(req.params, "channel"@) {
        None => (h, refusal(req, "channel is required"@)),
        Some(ch) => if ch >= motors {
            (h, refusal(req, no_motor_message(ch, motors)))
        } else if params::number_at(req.params, "speed_scale"@) matches Some(x)
            && !x.value.within(number::ONE_HALF, number::TWO) {
            (h, refusal(req, "speed_scale must be in [0.5, 2.0]"@))
        } else if params::number_at(req.params, "deadband_pct"@) matches Some(x)
            && !x.value.within(number::ZERO, number::TWENTY) {
            (h, refusal(req, "deadband_pct must be in [0.0, 20.0]"@))
        } else {
            let updated = motor_updated(h.calibration.motors[ch as int], req);
            (
                HandlerView {
                    calibration: CalibrationView {
                        motors: h.calibration.motors.update(ch as int, updated),
                        ..h.calibration
                    },
                    ..h
                },
                answer(
                    req,
                    ReplyView::MotorCalibration { channel: ch as nat, calibration: updated },
                ),
            )
        },
    }
}

pub open spec fn set_servo_calibration(h: HandlerView, req: RequestView) -> (
    HandlerView,
    StepView,
) {
    match params::text_at(req.params, "servo"@) {
        None => (h, refusal(req, "servo is required"@)),
        Some(name) => match calibration::servo_named(name) {
            None => (
                h,
                refusal(
                    req,
                    "servo '"@ + name
                        + "' not recognised; valid: steering, camera_pan, camera_tilt"@,
                ),
            ),
            Some(servo) => match params::signed_at(req.params, "trim_us"@) {
                None => (h, refusal(req, "trim_us is required and must be an integer"@)),
                Some(v) => if !calibration::trim_in_range(v as int) {
                    (h, refusal(req, "trim_us must be in [-500, 500]"@))
                } else {
                    (
                        HandlerView {
                            calibration: CalibrationView {
                                trims: h.calibration.trims.insert(servo.name_of(), v as i16),
                                ..h.calibration
                            },
                            ..h
                        },
                        answer(req, ReplyView::ServoCalibration { servo, trim_us: v as i16 }),
                    )
                },
            },
        },
    }
}

/// The surface that a name stands for.
pub open spec fn surface_named(name: Seq<char>) -> Option<Surface> {
    if name == "white"@ {
        Some(Surface::White)
    } else if name == "black"@ {
        Some(Surface::Black)
    } else {
        None
    }
}

pub open spec fn calibrate_grayscale(h: HandlerView, req: RequestView) -> StepView {
    match schema::bounded(params::unsigned_at(req.params, "channel"@), 0, 2) {
        None => refusal(req, "channel is required and must be 0–2"@),
        Some(ch) => match params::text_at(req.params, "surface"@) {
            None => refusal(req, "surface is required"@),
            Some(name) => match surface_named(name) {
                None => refusal(
                    req,
                    "surface '"@ + name + "' not recognised; valid: white, black"@,
                ),
                Some(surface) => act(
                    req,
                    Job::CalibrateGrayscale {
                        channel: ch as usize,
                        adc_channel: h.config.grayscale[ch as int],
                        surface,
                    },
                ),
            },
        },
    }
}

pub open spec fn reset_calibration(h: HandlerView, req: RequestView) -> (HandlerView, StepView) {
    (
        HandlerView {
            calibration: calibration::default_calibration(h.config.motors.len()),
            ..h
        },
        answer(req, ReplyView::CalibrationReset { reset: true }),
    )
}

fn motor_list(list: &Vec<MotorCalibration>) -> (r: Vec<MotorCalibration>)
    ensures
        r@ == list@,
{
    let mut out: Vec<MotorCalibration> = Vec::new();
    let mut i: usize = 0;
    while i < list.len()
        invariant
            i <= list@.len(),
            out@ == list@.take(i as int),
        decreases list@.len() - i,
    {
        out.push(list[i]);
        assert(list@.take(i + 1) =~= list@.take(i as int).push(list@[i as int]));
        i = i + 1;
    }
    assert(list@.take(list@.len() as int) =~= list@);
    out
}

fn trim_list(list: &Vec<ServoTrim>) -> (r: Vec<ServoTrim>)
    ensures
        r@ == list@,
{
    let mut out: Vec<ServoTrim> = Vec::new();
    let mut i: usize = 0;
    while i < list.len()
        invariant
            i <= list@.len(),
            out@ == list@.take(i as int),
        decreases list@.len() - i,
    {
        out.push(list[i].clone());
        assert(list@.take(i + 1) =~= list@.take(i as int).push(list@[i as int]));
        i = i + 1;
    }
    assert(list@.take(list@.len() as int) =~= list@);
    out
}

impl Handler {
    /// `get_calibration {}`: all of it, the sensors with their ADC channels.
    pub fn handle_get_calibration(&self, request: &Request) -> (r: Step)
        ensures
            r@ == get_calibration(self@, request@),
    {
        respond(
            request,
            Reply::Calibration {
                motors: motor_list(&self.calibration.motors),
                servos: trim_list(&self.calibration.servos),
                adc_channels: self.config.sensors.grayscale,
                grayscale: self.calibration.grayscale,
            },
        )
    }

    /// `set_motor_calibration { channel, speed_scale?, deadband_pct?, reversed? }`:
    /// what the request does not set stays as it was.
    pub fn handle_set_motor_calibration(&mut self, request: &Request) -> (r: Step)
        requires
            old(self)@.wf(),
        ensures
            final(self)@.wf(),
            (final(self)@, r@) == set_motor_calibration(old(self)@, request@),
    {
        let motors: usize = self.config.motors.len();
        let channel: u64 = match request.params.unsigned("channel") {
            Some(ch) => ch,
            None => return refuse(request, "channel is required"),
        };
        if channel >= motors as u64 {
            return refuse(request, no_motor_text(channel, motors).as_str());
        }
        let speed_scale = request.params.number("speed_scale");
        if let Some(x) = &speed_scale {
            if !CalibrationStore::valid_speed_scale(x.value) {
                return refuse(request, "speed_scale must be in [0.5, 2.0]");
            }
        }
        let deadband_pct = request.params.number("deadband_pct");
        if let Some(x) = &deadband_pct {
            if !CalibrationStore::valid_deadband_pct(x.value) {
                return refuse(request, "deadband_pct must be in [0.0, 20.0]");
            }
        }
        let index: usize = channel as usize;
        let mut entry = self.calibration.motors[index];
        assert(old(self)@.calibration.motors[index as int].valid());
        if let Some(x) = speed_scale {
            entry.speed_scale = x.value;
        }
        if let Some(x) = deadband_pct {
            entry.deadband_pct = x.value;
        }
        if let Some(b) = request.params.truth("reversed") {
            entry.reversed = b;
        }
        self.calibration.motors.set(index, entry);
        respond(request, Reply::MotorCalibration { channel: index, calibration: entry })
    }

    /// `set_servo_calibration { servo, trim_us }`: whether or not the servo is
    /// configured.
    pub fn handle_set_servo_calibration(&mut self, request: &Request) -> (r: Step)
        requires
            old(self)@.wf(),
        ensures
            final(self)@.wf(),
            (final(self)@, r@) == set_servo_calibration(old(self)@, request@),
    {
        let name = match request.required_str("servo", "servo is required") {
            Ok(s) => s,
            Err(resp) => return Step::Answer(resp),
        };
        let servo = match ServoName::from_name(name.as_str()) {
            Some(s) => s,
            None => return refuse(
                request,
                "servo '".to_owned().concat(name.as_str()).concat(
                    "' not recognised; valid: steering, camera_pan, camera_tilt",
                ).as_str(),
            ),
        };
        let trim_us: i16 = match request.params.signed("trim_us") {
            Some(v) => if -500 <= v && v <= 500 {
                v as i16
            } else {
                return refuse(request, "trim_us must be in [-500, 500]");
            },
            None => return refuse(request, "trim_us is required and must be an integer"),
        };
        self.calibration.set_trim_us(servo.name(), trim_us);
        respond(request, Reply::ServoCalibration { servo, trim_us })
    }

    /// `calibrate_grayscale { channel, surface }`: `channel` is the position of
    /// the sensor, not its ADC channel.
    pub fn handle_calibrate_grayscale(&self, request: &Request) -> (r: Step)
        ensures
            r@ == calibrate_grayscale(self@, request@),
    {
        let channel: u8 = match request.required_u64_as_u8(
            "channel",
            0,
            2,
            "channel is required and must be 0–2",
        ) {
            Ok(ch) => ch,
            Err(resp) => return Step::Answer(resp),
        };
        let name = match request.required_str("surface", "surface is required") {
            Ok(s) => s,
            Err(resp) => return Step::Answer(resp),
        };
        let surface = if text::same_text(name.as_str(), "white") {
            Surface::White
        } else if text::same_text(name.as_str(), "black") {
            Surface::Black
        } else {
            return refuse(
                request,
                "surface '".to_owned().concat(name.as_str()).concat(
                    "' not recognised; valid: white, black",
                ).as_str(),
            );
        };
        let index: usize = channel as usize;
        work(
            request,
            Job::CalibrateGrayscale {
                channel: index,
                adc_channel: self.config.sensors.grayscale[index],
                surface,
            },
        )
    }

    /// `save_calibration {}`
    pub fn handle_save_calibration(&self, request: &Request) -> (r: Step)
        ensures
            r@ == act(request@, Job::SaveCalibration),
    {
        work(request, Job::SaveCalibration)
    }

    /// `reset_calibration {}`: back to the defaults. What was saved stays as it
    /// is.
    pub fn handle_reset_calibration(&mut self, request: &Request) -> (r: Step)
        requires
            old(self)@.wf(),
        ensures
            final(self)@.wf(),
            (final(self)@, r@) == reset_calibration(old(self)@, request@),
    {
        self.calibration = CalibrationStore::default_for(self.config.motors.len());
        proof {
            calibration::law_default_calibration_is_valid(self@.config.motors.len());
        }
        respond(request, Reply::CalibrationReset { reset: true })
    }
}

// ---------------------------------------------------------------------------
// Routines
// ---------------------------------------------------------------------------

pub open spec fn start_routine(req: RequestView) -> StepView {
    match params::text_at(req.params, "name"@) {
        None => refusal(req, "name is required"@),
        Some(name) => {
            let speed = params::number_at(req.params, "speed_pct"@);
            let obstacle = params::number_at(req.params, "obstacle_threshold_cm"@);
            let cliff = params::number_at(req.params, "cliff_threshold_normalized"@);
            if speed matches Some(s) && !s.value.within(number::ONE, number::HUNDRED) {
                refusal(req, "speed_pct "@ + speed->0.text + " is out of range 1.0–100.0"@)
            } else if obstacle matches Some(v) && !v.value.positive() {
                refusal(req, "obstacle_threshold_cm must be > 0.0"@)
            } else if cliff matches Some(v) && !v.value.within(number::ZERO, number::ONE) {
                refusal(
                    req,
                    "cliff_threshold_normalized "@ + cliff->0.text
                        + " is out of range 0.0–1.0"@,
                )
            } else {
                StepView::StartRoutine {
                    id: req.id,
                    name,
                    overrides: RoutineOverrides {
                        speed_pct: match speed {
                            Some(s) => Some(s.value),
                            None => None,
                        },
                        obstacle_threshold_cm: match obstacle {
                            Some(v) => Some(v.value),
                            None => None,
                        },
                        cliff_threshold_normalized: match cliff {
                            Some(v) => Some(v.value),
                            None => None,
                        },
                        max_duration_s: params::unsigned_at(req.params, "max_duration_s"@),
                    },
                }
            }
        },
    }
}

pub open spec fn stop_routine(h: HandlerView, req: RequestView) -> (HandlerView, StepView) {
    match h.routine {
        Some(name) => (
            HandlerView { routine: None, ..h },
            StepView::StopRoutine { id: req.id, name },
        ),
        None => (h, refusal(req, "no routine is currently running"@)),
    }
}

impl Handler {
    /// `start_routine { name, speed_pct?, obstacle_threshold_cm?,
    /// cliff_threshold_normalized?, max_duration_s? }`
    pub fn handle_start_routine(&self, request: &Request) -> (r: Step)
        ensures
            r@ == start_routine(request@),
    {
        let name = match request.required_str("name", "name is required") {
            Ok(s) => s,
            Err(resp) => return Step::Answer(resp),
        };
        let speed_pct: Option<Real> = match request.params.number("speed_pct") {
            Some(s) => if s.value.is_within(number::ONE, number::HUNDRED) {
                Some(s.value)
            } else {
                return refuse(
                    request,
                    "speed_pct ".to_owned().concat(s.text.as_str()).concat(
                        " is out of range 1.0–100.0",
                    ).as_str(),
                );
            },
            None => None,
        };
        let obstacle_threshold_cm: Option<Real> = match request.params.number(
            "obstacle_threshold_cm",
        ) {
            Some(v) => if v.value.is_positive() {
                Some(v.value)
            } else {
                return refuse(request, "obstacle_threshold_cm must be > 0.0");
            },
            None => None,
        };
        let cliff_threshold_normalized: Option<Real> = match request.params.number(
            "cliff_threshold_normalized",
        ) {
            Some(v) => if v.value.is_within(number::ZERO, number::ONE) {
                Some(v.value)
            } else {
                return refuse(
                    request,
                    "cliff_threshold_normalized ".to_owned().concat(v.text.as_str()).concat(
                        " is out of range 0.0–1.0",
                    ).as_str(),
                );
            },
            None => None,
        };
        let max_duration_s: Option<u64> = request.params.unsigned("max_duration_s");
        Step::StartRoutine {
            id: request.id.clone(),
            name,
            overrides: RoutineOverrides {
                speed_pct,
                obstacle_threshold_cm,
                cliff_threshold_normalized,
                max_duration_s,
            },
        }
    }

    /// `stop_routine {}`: the routine is no longer the one that is running, so
    /// that another can be started while it comes to its end.
    pub fn handle_stop_routine(&mut self, request: &Request) -> (r: Step)
        ensures
            (final(self)@, r@) == stop_routine(old(self)@, request@),
    {
        let name = match &self.routine {
            Some(name) => name.clone(),
            None => return refuse(request, "no routine is currently running"),
        };
        self.routine = None;
        Step::StopRoutine { id: request.id.clone(), name }
    }

    /// `get_routine_status {}`
    pub fn handle_get_routine_status(&self, request: &Request) -> (r: Step)
        ensures
            r@ == act(request@, Job::GetRoutineStatus),
    {
        work(request, Job::GetRoutineStatus)
    }
}

} // verus!
