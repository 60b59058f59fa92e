//! Requests and responses.

use vstd::prelude::*;
use vstd::string::*;

use crate::calibration;
use crate::calibration::{
    Fraction, GrayscaleCalibration, MotorCalibration, ServoName, ServoTrim,
};
use crate::hat::gpio::GpioPin;
use crate::hat::lease::LeaseStatus;
use crate::ipc::params;
use crate::ipc::params::{Params, ParamsView};
use crate::number::Real;

verus! {

// ---------------------------------------------------------------------------
// Requests
// ---------------------------------------------------------------------------

/// A request: which method, with which parameters. The response carries the
/// same `id`.
#[derive(Debug)]
pub struct Request {
    pub id: String,
    pub method: String,
    pub params: Params,
}

/// A `Request` with its texts as sequences of characters.
pub struct RequestView {
    pub id: Seq<char>,
    pub method: Seq<char>,
    pub params: ParamsView,
}

impl View for Request {
    type V = RequestView;

    open spec fn view(&self) -> RequestView {
        RequestView { id: self.id@, method: self.method@, params: self.params@ }
    }
}

impl Request {
    /// A request whose parameters stand in a JSON document.
    pub fn read(id: String, method: String, params: &serde_json::Value) -> (r: Request)
        ensures
            r@ == (RequestView {
                id: id@,
                method: method@,
                params: params::selected_members(
                    *params,
                    params::parameter_names(),
                    params::parameter_names().len() as int,
                ),
            }),
    {
        Request { id, method, params: Params::read(params) }
    }
}

// ---------------------------------------------------------------------------
// Responses
// ---------------------------------------------------------------------------

/// A surface over which a grayscale sensor is calibrated.
#[derive(Debug, Clone, Copy, PartialEq, Eq, Structural)]
pub enum Surface {
    White,
    Black,
}

/// What a request that succeeded is answered. The fields have the names under
/// which clients see them.
#[derive(Debug)]
pub enum Reply {
    Health {
        schema_version: String,
        status: String,
        version: String,
        hat_address: String,
        i2c_bus: u8,
        uptime_s: u64,
    },
    BatteryVoltage { voltage_v: Real },
    Adc { channel: u8, raw_value: u16 },
    ServoPulse { channel: u8, pulse_us: u16 },
    ServoAngle { channel: u8, angle_deg: Real, pulse_us: u16 },
    Gpio { pin: GpioPin, high: bool },
    McuReset { reset_ms: u64 },
    ActiveLeases { active_leases: Vec<LeaseStatus> },
    McuStatus { resets_since_start: u64, last_reset_s_ago: Option<u64> },
    MotorSpeed { channel: u8, speed_pct: Real },
    MotorsStopped { stopped: usize },
    Drive { speed_pct: Real, motors: usize },
    NamedServo { servo: ServoName, channel: u8, angle_deg: Real, pulse_us: u16 },
    Grayscale { channels: [u8; 3], values: [u16; 3] },
    GrayscaleNormalized { channels: [u8; 3], normalized: [Fraction; 3] },
    Ultrasonic { distance_cm: Real },
    Speaker { enabled: bool, pin_bcm: u8 },
    Volume { volume_pct: u8 },
    MicGain { gain_pct: u8 },
    /// The sensors come with their ADC channels.
    Calibration {
        motors: Vec<MotorCalibration>,
        servos: Vec<ServoTrim>,
        adc_channels: [u8; 3],
        grayscale: [GrayscaleCalibration; 3],
    },
    MotorCalibration { channel: usize, calibration: MotorCalibration },
    ServoCalibration { servo: ServoName, trim_us: i16 },
    GrayscaleCalibration {
        channel: usize,
        adc_channel: u8,
        surface: Surface,
        raw_value: u16,
        stored: bool,
    },
    CalibrationSaved { saved: bool, path: String },
    CalibrationReset { reset: bool },
    RoutineStarted { name: String, started_at_uptime_s: u64 },
    RoutineStopped {
        name: String,
        ran_for_s: u64,
        obstacles_avoided: u64,
        cliffs_avoided: u64,
        stop_reason: String,
    },
    RoutineStatus {
        running: bool,
        name: Option<String>,
        elapsed_s: Option<u64>,
        obstacles_avoided: Option<u64>,
        cliffs_avoided: Option<u64>,
    },
}

/// A `Reply` with its texts and lists as sequences.
pub enum ReplyView {
    Health {
        schema_version: Seq<char>,
        status: Seq<char>,
        version: Seq<char>,
        hat_address: Seq<char>,
        i2c_bus: u8,
        uptime_s: u64,
    },
    BatteryVoltage { voltage_v: Real },
    Adc { channel: u8, raw_value: u16 },
    ServoPulse { channel: u8, pulse_us: u16 },
    ServoAngle { channel: u8, angle_deg: Real, pulse_us: u16 },
    Gpio { pin: GpioPin, high: bool },
    McuReset { reset_ms: u64 },
    ActiveLeases { active_leases: Seq<LeaseStatus> },
    McuStatus { resets_since_start: u64, last_reset_s_ago: Option<u64> },
    MotorSpeed { channel: u8, speed_pct: Real },
    MotorsStopped { stopped: nat },
    Drive { speed_pct: Real, motors: nat },
    NamedServo { servo: ServoName, channel: u8, angle_deg: Real, pulse_us: u16 },
    Grayscale { channels: Seq<u8>, values: Seq<u16> },
    GrayscaleNormalized { channels: Seq<u8>, normalized: Seq<Fraction> },
    Ultrasonic { distance_cm: Real },
    Speaker { enabled: bool, pin_bcm: u8 },
    Volume { volume_pct: u8 },
    MicGain { gain_pct: u8 },
    Calibration {
        motors: Seq<MotorCalibration>,
        trims: Map<Seq<char>, i16>,
        adc_channels: Seq<u8>,
        grayscale: Seq<GrayscaleCalibration>,
    },
    MotorCalibration { channel: nat, calibration: MotorCalibration },
    ServoCalibration { servo: ServoName, trim_us: i16 },
    GrayscaleCalibration {
        channel: nat,
        adc_channel: u8,
        surface: Surface,
        raw_value: u16,
        stored: bool,
    },
    CalibrationSaved { saved: bool, path: Seq<char> },
    CalibrationReset { reset: bool },
    RoutineStarted { name: Seq<char>, started_at_uptime_s: u64 },
    RoutineStopped {
        name: Seq<char>,
        ran_for_s: u64,
        obstacles_avoided: u64,
        cliffs_avoided: u64,
        stop_reason: Seq<char>,
    },
    RoutineStatus {
        running: bool,
        name: Option<Seq<char>>,
        elapsed_s: Option<u64>,
        obstacles_avoided: Option<u64>,
        cliffs_avoided: Option<u64>,
    },
}

impl View for Reply {
    type V = ReplyView;

    open spec fn view(&self) -> ReplyView {
        match *self {
            Reply::Health { schema_version, status, version, hat_address, i2c_bus, uptime_s } =>
                ReplyView::Health {
                schema_version: schema_version@,
                status: status@,
                version: version@,
                hat_address: hat_address@,
                i2c_bus,
                uptime_s,
            },
            Reply::BatteryVoltage { voltage_v } => ReplyView::BatteryVoltage { voltage_v },
            Reply::Adc { channel, raw_value } => ReplyView::Adc { channel, raw_value },
            Reply::ServoPulse { channel, pulse_us } => ReplyView::ServoPulse { channel, pulse_us },
            Reply::ServoAngle { channel, angle_deg, pulse_us } => ReplyView::ServoAngle {
                channel,
                angle_deg,
                pulse_us,
            },
            Reply::Gpio { pin, high } => ReplyView::Gpio { pin, high },
            Reply::McuReset { reset_ms } => ReplyView::McuReset { reset_ms },
            Reply::ActiveLeases { active_leases } => ReplyView::ActiveLeases {
                active_leases: active_leases@,
            },
            Reply::McuStatus { resets_since_start, last_reset_s_ago } => ReplyView::McuStatus {
                resets_since_start,
                last_reset_s_ago,
            },
            Reply::MotorSpeed { channel, speed_pct } => ReplyView::MotorSpeed { channel, speed_pct },
            Reply::MotorsStopped { stopped } => ReplyView::MotorsStopped { stopped: stopped as nat },
            Reply::Drive { speed_pct, motors } => ReplyView::Drive {
                speed_pct,
                motors: motors as nat,
            },
            Reply::NamedServo { servo, channel, angle_deg, pulse_us } => ReplyView::NamedServo {
                servo,
                channel,
                angle_deg,
                pulse_us,
            },
            Reply::Grayscale { channels, values } => ReplyView::Grayscale {
                channels: channels@,
                values: values@,
            },
            Reply::GrayscaleNormalized { channels, normalized } => ReplyView::GrayscaleNormalized {
                channels: channels@,
                normalized: normalized@,
            },
            Reply::Ultrasonic { distance_cm } => ReplyView::Ultrasonic { distance_cm },
            Reply::Speaker { enabled, pin_bcm } => ReplyView::Speaker { enabled, pin_bcm },
            Reply::Volume { volume_pct } => ReplyView::Volume { volume_pct },
            Reply::MicGain { gain_pct } => ReplyView::MicGain { gain_pct },
            Reply::Calibration { motors, servos, adc_channels, grayscale } =>
                ReplyView::Calibration {
                motors: motors@,
                trims: calibration::trims_of(servos@),
                adc_channels: adc_channels@,
                grayscale: grayscale@,
            },
            Reply::MotorCalibration { channel, calibration } => ReplyView::MotorCalibration {
                channel: channel as nat,
                calibration,
            },
            Reply::ServoCalibration { servo, trim_us } => ReplyView::ServoCalibration {
                servo,
                trim_us,
            },
            Reply::GrayscaleCalibration { channel, adc_channel, surface, raw_value, stored } =>
                ReplyView::GrayscaleCalibration {
                channel: channel as nat,
                adc_channel,
                surface,
                raw_value,
                stored,
            },
            Reply::CalibrationSaved { saved, path } => ReplyView::CalibrationSaved {
                saved,
                path: path@,
            },
            Reply::CalibrationReset { reset } => ReplyView::CalibrationReset { reset },
            Reply::RoutineStarted { name, started_at_uptime_s } => ReplyView::RoutineStarted {
                name: name@,
                started_at_uptime_s,
            },
            Reply::RoutineStopped {
                name,
                ran_for_s,
                obstacles_avoided,
                cliffs_avoided,
                stop_reason,
            } => ReplyView::RoutineStopped {
                name: name@,
                ran_for_s,
                obstacles_avoided,
                cliffs_avoided,
                stop_reason: stop_reason@,
            },
            Reply::RoutineStatus {
                running,
                name,
                elapsed_s,
                obstacles_avoided,
                cliffs_avoided,
            } => ReplyView::RoutineStatus {
                running,
                name: match name {
                    Some(n) => Some(n@),
                    None => None,
                },
                elapsed_s,
                obstacles_avoided,
                cliffs_avoided,
            },
        }
    }
}

/// What a request that failed is answered.
#[derive(Debug)]
pub struct Failure {
    pub code: &'static str,
    pub message: String,
}

/// A `Failure` with its texts as sequences of characters.
pub struct FailureView {
    pub code: Seq<char>,
    pub message: Seq<char>,
}

/// The answer to a request.
#[derive(Debug)]
pub struct Response {
    pub id: String,
    pub outcome: Result<Reply, Failure>,
}

/// A `Response` with its texts as sequences of characters.
pub struct ResponseView {
    pub id: Seq<char>,
    pub outcome: Result<ReplyView, FailureView>,
}

impl View for Response {
    type V = ResponseView;

    open spec fn view(&self) -> ResponseView {
        ResponseView {
            id: self.id@,
            outcome: match self.outcome {
                Ok(reply) => Ok(reply@),
                Err(f) => Err(FailureView { code: f.code@, message: f.message@ }),
            },
        }
    }
}

/// The answer to a request that succeeded.
pub open spec fn succeeded(id: Seq<char>, reply: ReplyView) -> ResponseView {
    ResponseView { id, outcome: Ok(reply) }
}

/// The answer to a request that failed.
pub open spec fn failed(id: Seq<char>, code: Seq<char>, message: Seq<char>) -> ResponseView {
    ResponseView { id, outcome: Err(FailureView { code, message }) }
}

/// The answer to a request whose parameters are not accepted.
pub open spec fn refused(id: Seq<char>, message: Seq<char>) -> ResponseView {
    failed(id, "INVALID_PARAMS"@, message)
}

impl Response {
    /// The answer to a request that succeeded.
    pub fn ok(id: String, reply: Reply) -> (r: Response)
        ensures
            r@ == succeeded(id@, reply@),
    {
        Response { id, outcome: Ok(reply) }
    }

    /// The answer to a request that failed.
    pub fn err(id: String, code: &'static str, message: String) -> (r: Response)
        ensures
            r@ == failed(id@, code@, message@),
    {
        Response { id, outcome: Err(Failure { code, message }) }
    }

    /// The answer to a request whose parameters are not accepted.
    pub fn refuse(id: &str, message: &str) -> (r: Response)
        ensures
            r@ == refused(id@, message@),
    {
        Response::err(id.to_owned(), "INVALID_PARAMS", message.to_owned())
    }
}

// ---------------------------------------------------------------------------
// Required parameters
// ---------------------------------------------------------------------------

/// An unsigned integer within bounds, both included.
pub open spec fn bounded(n: Option<u64>, min: u64, max: u64) -> Option<u64> {
    match n {
        Some(v) => if min <= v <= max {
            Some(v)
        } else {
            None
        },
        None => None,
    }
}

/// The parameter of a name as a number between those with the bit patterns
/// `low` and `high`, both included.
pub open spec fn number_within(
    params: ParamsView,
    key: Seq<char>,
    low: u64,
    high: u64,
) -> Option<Real> {
    match params::number_at(params, key) {
        Some(x) => if x.value.within(low, high) {
            Some(x.value)
        } else {
            None
        },
        None => None,
    }
}

/// The shortest and the longest time to live that a client may ask for.
pub const TTL_MIN_MS: u64 = 100;

pub const TTL_MAX_MS: u64 = 5000;

/// A time to live, kept within bounds.
pub open spec fn clamped_ttl(ttl_ms: u64) -> u64 {
    if ttl_ms < TTL_MIN_MS {
        TTL_MIN_MS
    } else if ttl_ms > TTL_MAX_MS {
        TTL_MAX_MS
    } else {
        ttl_ms
    }
}

/// The time to live that a request asks for: the default, within bounds, where
/// it asks for none. `None`, where it asks for one that is out of bounds.
pub open spec fn ttl_of(params: ParamsView, default_ttl_ms: u64) -> Option<u64> {
    if !params.dom().contains("ttl_ms"@) || params["ttl_ms"@] is Null {
        Some(clamped_ttl(default_ttl_ms))
    } else {
        bounded(params::unsigned_at(params, "ttl_ms"@), TTL_MIN_MS, TTL_MAX_MS)
    }
}

impl Request {
    /// A parameter that must be an integer from `min` to `max`.
    pub fn required_u64_as_u8(&self, key: &str, min: u8, max: u8, message: &str) -> (r: Result<
        u8,
        Response,
    >)
        ensures
            match bounded(params::unsigned_at(self@.params, key@), min as u64, max as u64) {
                Some(n) => r matches Ok(v) && v == n,
                None => r matches Err(resp) && resp@ == refused(self@.id, message@),
            },
    {
        match self.params.unsigned(key) {
            Some(n) => if min as u64 <= n && n <= max as u64 {
                Ok(n as u8)
            } else {
                Err(Response::refuse(self.id.as_str(), message))
            },
            None => Err(Response::refuse(self.id.as_str(), message)),
        }
    }

    /// A parameter that must be a number between those with the bit patterns
    /// `low` and `high`.
    pub fn required_f64(&self, key: &str, low: u64, high: u64, message: &str) -> (r: Result<
        Real,
        Response,
    >)
        ensures
            match number_within(self@.params, key@, low, high) {
                Some(x) => r matches Ok(v) && v == x,
                None => r matches Err(resp) && resp@ == refused(self@.id, message@),
            },
    {
        match self.params.number(key) {
            Some(x) => if x.value.is_within(low, high) {
                Ok(x.value)
            } else {
                Err(Response::refuse(self.id.as_str(), message))
            },
            None => Err(Response::refuse(self.id.as_str(), message)),
        }
    }

    /// A parameter that must be text.
    pub fn required_str(&self, key: &str, message: &str) -> (r: Result<String, Response>)
        ensures
            match params::text_at(self@.params, key@) {
                Some(s) => r matches Ok(v) && v@ == s,
                None => r matches Err(resp) && resp@ == refused(self@.id, message@),
            },
    {
        match self.params.text(key) {
            Some(s) => Ok(s),
            None => Err(Response::refuse(self.id.as_str(), message)),
        }
    }

    /// A parameter that must be a truth value.
    pub fn required_bool(&self, key: &str, message: &str) -> (r: Result<bool, Response>)
        ensures
            match params::bool_at(self@.params, key@) {
                Some(b) => r matches Ok(v) && v == b,
                None => r matches Err(resp) && resp@ == refused(self@.id, message@),
            },
    {
        match self.params.truth(key) {
            Some(b) => Ok(b),
            None => Err(Response::refuse(self.id.as_str(), message)),
        }
    }
}

/// The servo channel that a request names (0 to 11).
pub fn extract_channel(request: &Request) -> (r: Result<u8, Response>)
    ensures
        match bounded(params::unsigned_at(request@.params, "channel"@), 0, 11) {
            Some(n) => r matches Ok(ch) && ch == n,
            None => r matches Err(resp) && resp@ == refused(
                request@.id,
                "channel is required and must be 0–11"@,
            ),
        },
{
    request.required_u64_as_u8("channel", 0, 11, "channel is required and must be 0–11")
}

/// The time to live that a request asks for (100 to 5000 ms), or else the
/// default. The default is kept within the same bounds, so that one that was
/// configured wrongly does no harm.
pub fn extract_ttl(request: &Request, default_ttl_ms: u64) -> (r: Result<u64, Response>)
    ensures
        match ttl_of(request@.params, default_ttl_ms) {
            Some(ms) => r matches Ok(v) && v == ms && TTL_MIN_MS <= v <= TTL_MAX_MS,
            None => r matches Err(resp) && resp@ == refused(
                request@.id,
                "ttl_ms must be an integer 100–5000"@,
            ),
        },
{
    let absent = match request.params.get("ttl_ms") {
        None => true,
        Some(params::ParamValue::Null) => true,
        Some(_) => false,
    };
    if absent {
        if default_ttl_ms < TTL_MIN_MS {
            Ok(TTL_MIN_MS)
        } else if default_ttl_ms > TTL_MAX_MS {
            Ok(TTL_MAX_MS)
        } else {
            Ok(default_ttl_ms)
        }
    } else {
        match request.params.unsigned("ttl_ms") {
            Some(ms) if TTL_MIN_MS <= ms && ms <= TTL_MAX_MS => Ok(ms),
            _ => Err(Response::refuse(request.id.as_str(), "ttl_ms must be an integer 100–5000")),
        }
    }
}

/// Whatever a client asks for and whatever is configured, a time to live is
/// between 100 and 5000 ms.
pub proof fn law_ttl_is_bounded(params: ParamsView, default_ttl_ms: u64)
    ensures
        ttl_of(params, default_ttl_ms) matches Some(ms) ==> 100 <= ms <= 5000,
        !params.dom().contains("ttl_ms"@) ==> ttl_of(params, default_ttl_ms) is Some,
        !params.dom().contains("ttl_ms"@) && 100 <= default_ttl_ms <= 5000 ==> ttl_of(
            params,
            default_ttl_ms,
        ) == Some(default_ttl_ms),
{
}

/// The time to live is the one that was asked for, where one was and it is from 100 to
/// 5000; where none was asked for it is the default, or the nearest bound where that is
/// out of bounds; and a request that asks for any other gets none.
pub proof fn law_ttl_is_what_was_asked(params: ParamsView, default_ttl_ms: u64)
    ensures
        ({
            let asked = params.dom().contains("ttl_ms"@) && !(params["ttl_ms"@] is Null);
            let given = params::unsigned_at(params, "ttl_ms"@);
            let ttl = ttl_of(params, default_ttl_ms);
            &&& asked && given is Some && 100 <= given->0 <= 5000 ==> ttl == given
            &&& asked && !(given is Some && 100 <= given->0 <= 5000) ==> ttl is None
            &&& !asked && 100 <= default_ttl_ms <= 5000 ==> ttl == Some(default_ttl_ms)
            &&& !asked && default_ttl_ms < 100 ==> ttl == Some(100u64)
            &&& !asked && default_ttl_ms > 5000 ==> ttl == Some(5000u64)
        }),
{
}

/// A number within bounds is handed on as it is, and one out of bounds is not.
pub proof fn law_bounds_keep_the_number(n: u64, min: u64, max: u64)
    ensures
        min <= n <= max ==> bounded(Some(n), min, max) == Some(n),
        !(min <= n <= max) ==> bounded(Some(n), min, max) is None,
        bounded(None, min, max) is None,
{
}

} // verus!
