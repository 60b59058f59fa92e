//! What is answered, and what is remembered, once a job is done.
//!
//! Each `finish_*` function takes the `id` of the request, what the job was
//! about, and what came of it.

use vstd::prelude::*;
use vstd::string::*;

use crate::calibration;
use crate::calibration::{
    CalibrationStore, CalibrationView, Fraction, GrayscaleCalibration, ServoName,
};
use crate::config::MotorConfig;
use crate::hat::audio::AudioError;
use crate::hat::error::{ErrorCode, GpioError, HatError, UltrasonicError};
use crate::hat::gpio::GpioPin;
use crate::hat::lease;
use crate::ipc::motion;
use crate::ipc::plan::SensorReferences;
use crate::ipc::schema;
use crate::ipc::schema::{Reply, ReplyView, Response, ResponseView, Surface};
use crate::ipc::state;
use crate::ipc::state::{Handler, HandlerView, McuState};
use crate::number::Real;
use crate::text;

verus! {

// ---------------------------------------------------------------------------
// Bus and pins
// ---------------------------------------------------------------------------

/// The answer when the board's bus failed a request.
pub open spec fn hat_failure(id: Seq<char>, e: HatError) -> ResponseView {
    schema::failed(id, e.code(), e.text())
}

/// The answer when a pin failed a request.
pub open spec fn gpio_failure(id: Seq<char>, e: GpioError) -> ResponseView {
    schema::failed(id, e.code(), e.text())
}

/// The answer when the battery voltage was read.
pub open spec fn battery_answer(id: Seq<char>, result: Result<Real, HatError>) -> ResponseView {
    match result {
        Ok(voltage_v) => schema::succeeded(id, ReplyView::BatteryVoltage { voltage_v }),
        Err(e) => schema::failed(id, "HARDWARE_ERROR"@, e.text()),
    }
}

/// The answer when an ADC channel was read.
pub open spec fn adc_answer(
    id: Seq<char>,
    channel: u8,
    result: Result<u16, HatError>,
) -> ResponseView {
    match result {
        Ok(raw_value) => schema::succeeded(id, ReplyView::Adc { channel, raw_value }),
        Err(e) => hat_failure(id, e),
    }
}

/// The answer when a servo was given a pulse width.
pub open spec fn pulse_answer(
    id: Seq<char>,
    channel: u8,
    pulse_us: u16,
    result: Result<(), HatError>,
) -> ResponseView {
    match result {
        Ok(_) => schema::succeeded(id, ReplyView::ServoPulse { channel, pulse_us }),
        Err(e) => hat_failure(id, e),
    }
}

/// The answer when a servo was given an angle.
pub open spec fn angle_answer(
    id: Seq<char>,
    channel: u8,
    angle_deg: Real,
    result: Result<u16, HatError>,
) -> ResponseView {
    match result {
        Ok(pulse_us) => schema::succeeded(
            id,
            ReplyView::ServoAngle { channel, angle_deg, pulse_us },
        ),
        Err(e) => hat_failure(id, e),
    }
}

/// The answer when a named servo was given a pulse width.
pub open spec fn named_servo_answer(
    id: Seq<char>,
    servo: ServoName,
    channel: u8,
    angle_deg: Real,
    pulse_us: u16,
    result: Result<(), HatError>,
) -> ResponseView {
    match result {
        Ok(_) => schema::succeeded(
            id,
            ReplyView::NamedServo { servo, channel, angle_deg, pulse_us },
        ),
        Err(e) => hat_failure(id, e),
    }
}

/// The answer when a pin was read.
pub open spec fn pin_read_answer(
    id: Seq<char>,
    pin: GpioPin,
    result: Result<bool, GpioError>,
) -> ResponseView {
    match result {
        Ok(high) => schema::succeeded(id, ReplyView::Gpio { pin, high }),
        Err(e) => gpio_failure(id, e),
    }
}

/// The answer when a pin was written.
pub open spec fn pin_written_answer(
    id: Seq<char>,
    pin: GpioPin,
    high: bool,
    result: Result<(), GpioError>,
) -> ResponseView {
    match result {
        Ok(_) => schema::succeeded(id, ReplyView::Gpio { pin, high }),
        Err(e) => gpio_failure(id, e),
    }
}

/// The answer when the enable pin of the amplifier was written.
pub open spec fn speaker_answer(
    id: Seq<char>,
    enabled: bool,
    pin_bcm: u8,
    result: Result<(), GpioError>,
) -> ResponseView {
    match result {
        Ok(_) => schema::succeeded(id, ReplyView::Speaker { enabled, pin_bcm }),
        Err(e) => gpio_failure(id, e),
    }
}

/// The answer when the distance was measured.
pub open spec fn distance_answer(
    id: Seq<char>,
    result: Result<Real, UltrasonicError>,
) -> ResponseView {
    match result {
        Ok(distance_cm) => schema::succeeded(id, ReplyView::Ultrasonic { distance_cm }),
        Err(e) => schema::failed(id, e.failure().0, e.failure().1),
    }
}

/// The answer when the microcontroller was told to reset.
pub open spec fn reset_answer(id: Seq<char>, result: Result<u64, String>) -> ResponseView {
    match result {
        Ok(reset_ms) => schema::succeeded(id, ReplyView::McuReset { reset_ms }),
        Err(e) => schema::failed(id, "HARDWARE_ERROR"@, e@),
    }
}

fn fail_hat(id: String, e: &HatError) -> (r: Response)
    ensures
        r@ == hat_failure(id@, *e),
{
    Response::err(id, e.error_code(), e.message())
}

fn fail_gpio(id: String, e: &GpioError) -> (r: Response)
    ensures
        r@ == gpio_failure(id@, *e),
{
    Response::err(id, e.error_code(), e.message())
}

impl Handler {
    /// The battery voltage was read.
    pub fn finish_get_battery_voltage(&self, id: String, result: Result<Real, HatError>) -> (r:
        Response)
        ensures
            r@ == battery_answer(id@, result),
    {
        match result {
            Ok(voltage_v) => Response::ok(id, Reply::BatteryVoltage { voltage_v }),
            Err(e) => Response::err(id, "HARDWARE_ERROR", e.message()),
        }
    }

    /// An ADC channel was read.
    pub fn finish_read_adc(&self, id: String, channel: u8, result: Result<u16, HatError>) -> (r:
        Response)
        ensures
            r@ == adc_answer(id@, channel, result),
    {
        match result {
            Ok(raw_value) => Response::ok(id, Reply::Adc { channel, raw_value }),
            Err(e) => fail_hat(id, &e),
        }
    }

    /// A servo was given a pulse width. If it took it, the connection leases it.
    pub fn finish_set_servo_pulse_us(
        &mut self,
        id: String,
        channel: u8,
        pulse_us: u16,
        conn_id: u64,
        ttl_ms: u64,
        now_ms: u64,
        result: Result<(), HatError>,
    ) -> (r: Response)
        ensures
            r@ == pulse_answer(id@, channel, pulse_us, result),
            final(self)@ == (if result is Ok {
                old(self)@.with_lease(channel, conn_id, ttl_ms, now_ms)
            } else {
                old(self)@
            }),
            old(self)@.wf() ==> final(self)@.wf(),
    {
        match result {
            Ok(_) => {
                self.leases.set_lease(channel, conn_id, ttl_ms, now_ms);
                Response::ok(id, Reply::ServoPulse { channel, pulse_us })
            },
            Err(e) => fail_hat(id, &e),
        }
    }

    /// A servo was given an angle, and `result` says which pulse width that is.
    /// If it took it, the connection leases it.
    pub fn finish_set_servo_angle(
        &mut self,
        id: String,
        channel: u8,
        angle_deg: Real,
        conn_id: u64,
        ttl_ms: u64,
        now_ms: u64,
        result: Result<u16, HatError>,
    ) -> (r: Response)
        ensures
            r@ == angle_answer(id@, channel, angle_deg, result),
            final(self)@ == (if result is Ok {
                old(self)@.with_lease(channel, conn_id, ttl_ms, now_ms)
            } else {
                old(self)@
            }),
            old(self)@.wf() ==> final(self)@.wf(),
    {
        match result {
            Ok(pulse_us) => {
                self.leases.set_lease(channel, conn_id, ttl_ms, now_ms);
                Response::ok(id, Reply::ServoAngle { channel, angle_deg, pulse_us })
            },
            Err(e) => fail_hat(id, &e),
        }
    }

    /// A named servo was given a pulse width. If it took it, the connection
    /// leases it.
    pub fn finish_set_named_servo(
        &mut self,
        id: String,
        servo: ServoName,
        channel: u8,
        angle_deg: Real,
        pulse_us: u16,
        conn_id: u64,
        ttl_ms: u64,
        now_ms: u64,
        result: Result<(), HatError>,
    ) -> (r: Response)
        ensures
            r@ == named_servo_answer(id@, servo, channel, angle_deg, pulse_us, result),
            final(self)@ == (if result is Ok {
                old(self)@.with_lease(channel, conn_id, ttl_ms, now_ms)
            } else {
                old(self)@
            }),
            old(self)@.wf() ==> final(self)@.wf(),
    {
        match result {
            Ok(_) => {
                self.leases.set_lease(channel, conn_id, ttl_ms, now_ms);
                Response::ok(id, Reply::NamedServo { servo, channel, angle_deg, pulse_us })
            },
            Err(e) => fail_hat(id, &e),
        }
    }

    /// A pin was read.
    pub fn finish_read_gpio(&self, id: String, pin: GpioPin, result: Result<bool, GpioError>) -> (r:
        Response)
        ensures
            r@ == pin_read_answer(id@, pin, result),
    {
        match result {
            Ok(high) => Response::ok(id, Reply::Gpio { pin, high }),
            Err(e) => fail_gpio(id, &e),
        }
    }

    /// A pin was written.
    pub fn finish_write_gpio(
        &self,
        id: String,
        pin: GpioPin,
        high: bool,
        result: Result<(), GpioError>,
    ) -> (r: Response)
        ensures
            r@ == pin_written_answer(id@, pin, high, result),
    {
        match result {
            Ok(_) => Response::ok(id, Reply::Gpio { pin, high }),
            Err(e) => fail_gpio(id, &e),
        }
    }

    /// The enable pin of the amplifier was written.
    pub fn finish_speaker(
        &self,
        id: String,
        enabled: bool,
        pin_bcm: u8,
        result: Result<(), GpioError>,
    ) -> (r: Response)
        ensures
            r@ == speaker_answer(id@, enabled, pin_bcm, result),
    {
        match result {
            Ok(_) => Response::ok(id, Reply::Speaker { enabled, pin_bcm }),
            Err(e) => fail_gpio(id, &e),
        }
    }

    /// The distance was measured.
    pub fn finish_read_ultrasonic(&self, id: String, result: Result<Real, UltrasonicError>) -> (r:
        Response)
        ensures
            r@ == distance_answer(id@, result),
    {
        match result {
            Ok(distance_cm) => Response::ok(id, Reply::Ultrasonic { distance_cm }),
            Err(e) => Response::err(id, e.error_code(), e.message()),
        }
    }

    /// The microcontroller was told to reset, at the request of
    /// `requested_at_ms`; `result` says how long that took. Only a reset that
    /// succeeded is remembered.
    pub fn finish_reset_mcu(
        &mut self,
        id: String,
        requested_at_ms: u64,
        result: Result<u64, String>,
    ) -> (r: Response)
        requires
            old(self)@.mcu.reset_count < u64::MAX,
        ensures
            r@ == reset_answer(id@, result),
            final(self)@ == (if result is Ok {
                HandlerView {
                    mcu: McuState {
                        reset_count: (old(self)@.mcu.reset_count + 1) as u64,
                        last_reset_at_ms: Some(requested_at_ms),
                    },
                    ..old(self)@
                }
            } else {
                old(self)@
            }),
            old(self)@.wf() ==> final(self)@.wf(),
    {
        match result {
            Ok(reset_ms) => {
                self.mcu.last_reset_at_ms = Some(requested_at_ms);
                self.mcu.reset_count = self.mcu.reset_count + 1;
                Response::ok(id, Reply::McuReset { reset_ms })
            },
            Err(e) => Response::err(id, "HARDWARE_ERROR", e),
        }
    }
}

// ---------------------------------------------------------------------------
// Motors
// ---------------------------------------------------------------------------

/// The answer to a command to motors that failed: all failures in one message.
pub open spec fn motor_failure(id: Seq<char>, failures: Seq<Seq<char>>) -> ResponseView {
    schema::failed(id, "HARDWARE_ERROR"@, text::joined(failures, "; "@))
}

/// The answer when one motor was commanded.
pub open spec fn motor_speed_answer(
    id: Seq<char>,
    channel: u8,
    speed_pct: Real,
    result: Result<Seq<u8>, Seq<Seq<char>>>,
) -> ResponseView {
    match result {
        Ok(_) => schema::succeeded(id, ReplyView::MotorSpeed { channel, speed_pct }),
        Err(failures) => motor_failure(id, failures),
    }
}

/// The answer when all motors were commanded.
pub open spec fn drive_answer(
    id: Seq<char>,
    speed_pct: Real,
    motors: nat,
    result: Result<Seq<u8>, Seq<Seq<char>>>,
) -> ResponseView {
    match result {
        Ok(_) => schema::succeeded(id, ReplyView::Drive { speed_pct, motors }),
        Err(failures) => motor_failure(id, failures),
    }
}

/// The answer when all motors were told to stop.
pub open spec fn stop_all_answer(
    id: Seq<char>,
    motors: nat,
    outcomes: motion::Outcomes,
) -> ResponseView {
    let failures = motion::failure_texts(motion::motor_indices(motors), outcomes, false);
    if failures.len() == 0 {
        schema::succeeded(id, ReplyView::MotorsStopped { stopped: motors })
    } else {
        motor_failure(id, failures)
    }
}

fn fail_motors(id: String, failures: &Vec<String>) -> (r: Response)
    ensures
        r@ == motor_failure(id@, text::texts(failures@)),
{
    Response::err(id, "HARDWARE_ERROR", text::join(failures, "; "))
}

impl Handler {
    /// One motor was commanded; `result` is that of the operation.
    pub fn finish_set_motor_speed(
        &self,
        id: String,
        channel: u8,
        speed_pct: Real,
        result: Result<Vec<u8>, Vec<String>>,
    ) -> (r: Response)
        ensures
            r@ == motor_speed_answer(id@, channel, speed_pct, motion::result_view(result)),
    {
        match result {
            Ok(_) => Response::ok(id, Reply::MotorSpeed { channel, speed_pct }),
            Err(failures) => fail_motors(id, &failures),
        }
    }

    /// All motors were commanded; `result` is that of the operation.
    pub fn finish_drive(
        &self,
        id: String,
        speed_pct: Real,
        result: Result<Vec<u8>, Vec<String>>,
    ) -> (r: Response)
        ensures
            r@ == drive_answer(
                id@,
                speed_pct,
                self@.config.motors.len(),
                motion::result_view(result),
            ),
    {
        match result {
            Ok(_) => Response::ok(id, Reply::Drive { speed_pct, motors: self.config.motors.len() }),
            Err(failures) => fail_motors(id, &failures),
        }
    }

    /// All motors were told to stop.
    pub fn finish_stop_all_motors(&self, id: String, outcomes: &Vec<Result<(), String>>) -> (r:
        Response)
        requires
            self@.wf(),
            outcomes.len() == self@.config.motors.len(),
        ensures
            r@ == stop_all_answer(
                id@,
                self@.config.motors.len(),
                motion::outcomes_view(outcomes@),
            ),
    {
        let failures = self.stop_failures(outcomes);
        assert(text::texts(failures@).len() == failures@.len());
        if failures.is_empty() {
            Response::ok(id, Reply::MotorsStopped { stopped: self.config.motors.len() })
        } else {
            fail_motors(id, &failures)
        }
    }
}

// ---------------------------------------------------------------------------
// Grayscale
// ---------------------------------------------------------------------------

/// The sensors are read in order until one fails: nothing is left to read.
pub open spec fn scan_complete(readings: Seq<Result<u16, HatError>>) -> bool {
    &&& readings.len() <= 3
    &&& forall|i: int| 0 <= i < readings.len() - 1 ==> #[trigger] readings[i] is Ok
    &&& readings.len() == 3 || readings.len() > 0 && readings.last() is Err
}

/// The ADC channel of the next sensor to read, once so many have been read.
pub open spec fn next_channel(
    channels: Seq<u8>,
    readings: Seq<Result<u16, HatError>>,
) -> Option<u8> {
    if readings.len() < 3 && (readings.len() == 0 || readings.last() is Ok) {
        Some(channels[readings.len() as int])
    } else {
        None
    }
}

/// The answer when a sensor could not be read.
pub open spec fn scan_failure(id: Seq<char>, channel: u8, e: HatError) -> ResponseView {
    schema::failed(
        id,
        e.code(),
        "grayscale channel "@ + text::decimal_of(channel as nat) + ": "@ + e.text(),
    )
}

/// The readings, each held against the calibration of its sensor.
pub open spec fn normalized_values(c: SensorReferences, values: Seq<u16>) -> Seq<Fraction> {
    seq![
        calibration::normalized_of(c.left, values[0]),
        calibration::normalized_of(c.center, values[1]),
        calibration::normalized_of(c.right, values[2]),
    ]
}

/// The values that were read, where none failed.
pub open spec fn values_of(readings: Seq<Result<u16, HatError>>) -> Seq<u16> {
    readings.map_values(|r: Result<u16, HatError>| r->Ok_0)
}

/// The answer when the sensors were read.
pub open spec fn grayscale_answer(
    id: Seq<char>,
    channels: Seq<u8>,
    readings: Seq<Result<u16, HatError>>,
) -> ResponseView {
    match readings.last() {
        Ok(_) => schema::succeeded(
            id,
            ReplyView::Grayscale { channels, values: values_of(readings) },
        ),
        Err(e) => scan_failure(id, channels[readings.len() - 1], e),
    }
}

/// The answer when the sensors were read, to be held against their calibration.
pub open spec fn normalized_answer(
    id: Seq<char>,
    channels: Seq<u8>,
    references: SensorReferences,
    readings: Seq<Result<u16, HatError>>,
) -> ResponseView {
    match readings.last() {
        Ok(_) => schema::succeeded(
            id,
            ReplyView::GrayscaleNormalized {
                channels,
                normalized: normalized_values(references, values_of(readings)),
            },
        ),
        Err(e) => scan_failure(id, channels[readings.len() - 1], e),
    }
}

/// The calibration of a sensor with what it read over a surface.
pub open spec fn captured(
    c: GrayscaleCalibration,
    surface: Surface,
    raw_value: u16,
) -> GrayscaleCalibration {
    match surface {
        Surface::White => GrayscaleCalibration { white_raw: raw_value, ..c },
        Surface::Black => GrayscaleCalibration { black_raw: raw_value, ..c },
    }
}

/// Why a reading cannot be stored.
pub open spec fn capture_refusal(
    c: GrayscaleCalibration,
    surface: Surface,
    raw_value: u16,
) -> Seq<char> {
    match surface {
        Surface::White => "white_raw ("@ + text::decimal_of(raw_value as nat)
            + ") must be < current black_raw ("@ + text::decimal_of(c.black_raw as nat)
            + "); recapture black surface first or adjust surfaces"@,
        Surface::Black => "black_raw ("@ + text::decimal_of(raw_value as nat)
            + ") must be > current white_raw ("@ + text::decimal_of(c.white_raw as nat)
            + "); recapture white surface first or adjust surfaces"@,
    }
}

/// The answer when a sensor was read over a surface; `before` is its calibration
/// until then.
pub open spec fn captured_answer(
    id: Seq<char>,
    channel: usize,
    adc_channel: u8,
    surface: Surface,
    before: GrayscaleCalibration,
    result: Result<u16, HatError>,
) -> ResponseView {
    match result {
        Err(e) => hat_failure(id, e),
        Ok(raw_value) => if captured(before, surface, raw_value).valid() {
            schema::succeeded(
                id,
                ReplyView::GrayscaleCalibration {
                    channel: channel as nat,
                    adc_channel,
                    surface,
                    raw_value,
                    stored: true,
                },
            )
        } else {
            schema::refused(id, capture_refusal(before, surface, raw_value))
        },
    }
}

fn capture_refusal_text(c: GrayscaleCalibration, surface: Surface, raw_value: u16) -> (r: String)
    ensures
        r@ == capture_refusal(c, surface, raw_value),
{
    let raw = text::decimal(raw_value as u64);
    match surface {
        Surface::White => "white_raw (".to_owned().concat(raw.as_str()).concat(
            ") must be < current black_raw (",
        ).concat(text::decimal(c.black_raw as u64).as_str()).concat(
            "); recapture black surface first or adjust surfaces",
        ),
        Surface::Black => "black_raw (".to_owned().concat(raw.as_str()).concat(
            ") must be > current white_raw (",
        ).concat(text::decimal(c.white_raw as u64).as_str()).concat(
            "); recapture white surface first or adjust surfaces",
        ),
    }
}

impl Handler {
    /// The ADC channel of the next sensor to read: left, center, right, until
    /// one fails.
    pub fn next_grayscale_channel(&self, readings: &Vec<Result<u16, HatError>>) -> (r: Option<u8>)
        ensures
            r == next_channel(self@.config.grayscale, readings@),
    {
        let n: usize = readings.len();
        if n < 3 && (n == 0 || readings[n - 1].is_ok()) {
            Some(self.config.sensors.grayscale[n])
        } else {
            None
        }
    }

    /// The values that were read, or the answer when one could not be.
    fn scanned(&self, id: &str, readings: &Vec<Result<u16, HatError>>) -> (r: Result<
        [u16; 3],
        Response,
    >)
        requires
            scan_complete(readings@),
        ensures
            match readings@.last() {
                Ok(_) => r matches Ok(v) && v@ == values_of(readings@),
                Err(e) => r matches Err(resp) && resp@ == scan_failure(
                    id@,
                    self@.config.grayscale[readings.len() - 1],
                    e,
                ),
            },
    {
        let last: usize = readings.len() - 1;
        if let Err(e) = &readings[last] {
            let channel: u8 = self.config.sensors.grayscale[last];
            return Err(
                Response::err(
                    id.to_owned(),
                    e.error_code(),
                    "grayscale channel ".to_owned().concat(
                        text::decimal(channel as u64).as_str(),
                    ).concat(": ").concat(e.message().as_str()),
                ),
            );
        }
        assert(readings@[0] is Ok && readings@[1] is Ok && readings@[2] is Ok);
        let mut values: [u16; 3] = [0, 0, 0];
        let mut i: usize = 0;
        while i < 3
            invariant
                i <= 3,
                readings@.len() == 3,
                forall|k: int| 0 <= k < 3 ==> #[trigger] readings@[k] is Ok,
                forall|k: int| 0 <= k < i ==> #[trigger] values@[k] == readings@[k]->Ok_0,
            decreases 3 - i,
        {
            if let Ok(v) = &readings[i] {
                values[i] = *v;
            }
            i = i + 1;
        }
        assert(values@ =~= values_of(readings@));
        Ok(values)
    }

    /// The sensors were read.
    pub fn finish_read_grayscale(&self, id: String, readings: &Vec<Result<u16, HatError>>) -> (r:
        Response)
        requires
            scan_complete(readings@),
        ensures
            r@ == grayscale_answer(id@, self@.config.grayscale, readings@),
            readings@.last() is Ok ==> (r.outcome matches Ok(Reply::Grayscale { channels, values })
                && channels@ == self.config.sensors.grayscale@ && forall|i: int|
                0 <= i < 3 ==> readings@[i] == Ok::<u16, HatError>(#[trigger] values@[i])),
    {
        match self.scanned(id.as_str(), readings) {
            Ok(values) => Response::ok(
                id,
                Reply::Grayscale { channels: self.config.sensors.grayscale, values },
            ),
            Err(resp) => resp,
        }
    }

    /// The sensors were read, to be held against their calibration.
    pub fn finish_read_grayscale_normalized(
        &self,
        id: String,
        references: SensorReferences,
        readings: &Vec<Result<u16, HatError>>,
    ) -> (r: Response)
        requires
            scan_complete(readings@),
            references.left.valid(),
            references.center.valid(),
            references.right.valid(),
        ensures
            r@ == normalized_answer(id@, self@.config.grayscale, references, readings@),
    {
        match self.scanned(id.as_str(), readings) {
            Ok(values) => {
                let normalized = [
                    references.left.normalized(values[0]),
                    references.center.normalized(values[1]),
                    references.right.normalized(values[2]),
                ];
                assert(normalized@ =~= normalized_values(references, values@));
                Response::ok(
                    id,
                    Reply::GrayscaleNormalized {
                        channels: self.config.sensors.grayscale,
                        normalized,
                    },
                )
            },
            Err(resp) => resp,
        }
    }

    /// A sensor was read over a surface. The reading is stored, unless white
    /// would no longer read lower than black.
    pub fn finish_calibrate_grayscale(
        &mut self,
        id: String,
        channel: usize,
        adc_channel: u8,
        surface: Surface,
        result: Result<u16, HatError>,
    ) -> (r: Response)
        requires
            old(self)@.wf(),
            channel < 3,
        ensures
            r@ == captured_answer(
                id@,
                channel,
                adc_channel,
                surface,
                old(self)@.calibration.grayscale[channel as int],
                result,
            ),
            final(self)@ == (if r@.outcome is Ok {
                HandlerView {
                    calibration: CalibrationView {
                        grayscale: old(self)@.calibration.grayscale.update(
                            channel as int,
                            captured(
                                old(self)@.calibration.grayscale[channel as int],
                                surface,
                                result->Ok_0,
                            ),
                        ),
                        ..old(self)@.calibration
                    },
                    ..old(self)@
                }
            } else {
                old(self)@
            }),
            final(self)@.wf(),
    {
        let raw_value: u16 = match result {
            Ok(v) => v,
            Err(e) => return fail_hat(id, &e),
        };
        let before = self.calibration.grayscale[channel];
        let after = match surface {
            Surface::White => GrayscaleCalibration {
                white_raw: raw_value,
                black_raw: before.black_raw,
            },
            Surface::Black => GrayscaleCalibration {
                white_raw: before.white_raw,
                black_raw: raw_value,
            },
        };
        if !CalibrationStore::valid_grayscale(after.white_raw, after.black_raw) {
            return Response::refuse(
                id.as_str(),
                capture_refusal_text(before, surface, raw_value).as_str(),
            );
        }
        self.calibration.grayscale[channel] = after;
        assert(self@.calibration.grayscale =~= old(self)@.calibration.grayscale.update(
            channel as int,
            after,
        ));
        Response::ok(
            id,
            Reply::GrayscaleCalibration { channel, adc_channel, surface, raw_value, stored: true },
        )
    }
}

// ---------------------------------------------------------------------------
// Levels
// ---------------------------------------------------------------------------

/// What came of work that was handed to another thread.
#[derive(Debug)]
pub enum Handed<T, E> {
    /// It was done.
    Done(T),
    /// It failed.
    Failed(E),
    /// The thread did not come back; the text says why.
    Lost(String),
}

/// The answer when a level could not be read or set.
pub open spec fn audio_failure(id: Seq<char>, e: AudioError) -> ResponseView {
    schema::failed(id, e.code(), e@.message())
}

/// The answer when work was handed to another thread: `done`, if it was done.
pub open spec fn level_answer(
    id: Seq<char>,
    done: ReplyView,
    result: Handed<(), AudioError>,
) -> ResponseView {
    match result {
        Handed::Done(_) => schema::succeeded(id, done),
        Handed::Failed(e) => audio_failure(id, e),
        Handed::Lost(e) => schema::failed(id, "INTERNAL_ERROR"@, e@),
    }
}

/// The answer when the volume was read.
pub open spec fn volume_answer(id: Seq<char>, result: Handed<u8, AudioError>) -> ResponseView {
    match result {
        Handed::Done(volume_pct) => schema::succeeded(id, ReplyView::Volume { volume_pct }),
        Handed::Failed(e) => audio_failure(id, e),
        Handed::Lost(e) => schema::failed(id, "INTERNAL_ERROR"@, e@),
    }
}

/// The answer when the microphone gain was read.
pub open spec fn gain_answer(id: Seq<char>, result: Handed<u8, AudioError>) -> ResponseView {
    match result {
        Handed::Done(gain_pct) => schema::succeeded(id, ReplyView::MicGain { gain_pct }),
        Handed::Failed(e) => audio_failure(id, e),
        Handed::Lost(e) => schema::failed(id, "INTERNAL_ERROR"@, e@),
    }
}

/// The answer when the calibration was written to a path.
pub open spec fn saved_answer(
    id: Seq<char>,
    path: Seq<char>,
    result: Handed<(), String>,
) -> ResponseView {
    match result {
        Handed::Done(_) => schema::succeeded(
            id,
            ReplyView::CalibrationSaved { saved: true, path },
        ),
        Handed::Failed(e) => schema::failed(id, "HARDWARE_ERROR"@, e@),
        Handed::Lost(e) => schema::failed(id, "INTERNAL_ERROR"@, e@),
    }
}

fn fail_audio(id: String, e: &AudioError) -> (r: Response)
    ensures
        r@ == audio_failure(id@, *e),
{
    Response::err(id, e.error_code(), e.message())
}

impl Handler {
    /// The volume was set.
    pub fn finish_set_volume(&self, id: String, volume_pct: u8, result: Handed<(), AudioError>) -> (r:
        Response)
        ensures
            r@ == level_answer(id@, ReplyView::Volume { volume_pct }, result),
    {
        match result {
            Handed::Done(_) => Response::ok(id, Reply::Volume { volume_pct }),
            Handed::Failed(e) => fail_audio(id, &e),
            Handed::Lost(e) => Response::err(id, "INTERNAL_ERROR", e),
        }
    }

    /// The volume was read.
    pub fn finish_get_volume(&self, id: String, result: Handed<u8, AudioError>) -> (r: Response)
        ensures
            r@ == volume_answer(id@, result),
    {
        match result {
            Handed::Done(volume_pct) => Response::ok(id, Reply::Volume { volume_pct }),
            Handed::Failed(e) => fail_audio(id, &e),
            Handed::Lost(e) => Response::err(id, "INTERNAL_ERROR", e),
        }
    }

    /// The microphone gain was set.
    pub fn finish_set_mic_gain(&self, id: String, gain_pct: u8, result: Handed<(), AudioError>) -> (r:
        Response)
        ensures
            r@ == level_answer(id@, ReplyView::MicGain { gain_pct }, result),
    {
        match result {
            Handed::Done(_) => Response::ok(id, Reply::MicGain { gain_pct }),
            Handed::Failed(e) => fail_audio(id, &e),
            Handed::Lost(e) => Response::err(id, "INTERNAL_ERROR", e),
        }
    }

    /// The microphone gain was read.
    pub fn finish_get_mic_gain(&self, id: String, result: Handed<u8, AudioError>) -> (r: Response)
        ensures
            r@ == gain_answer(id@, result),
    {
        match result {
            Handed::Done(gain_pct) => Response::ok(id, Reply::MicGain { gain_pct }),
            Handed::Failed(e) => fail_audio(id, &e),
            Handed::Lost(e) => Response::err(id, "INTERNAL_ERROR", e),
        }
    }

    /// The calibration was written to the configured path.
    pub fn finish_save_calibration(&self, id: String, result: Handed<(), String>) -> (r: Response)
        ensures
            r@ == saved_answer(id@, self@.config.calibration_path, result),
    {
        match result {
            Handed::Done(_) => Response::ok(
                id,
                Reply::CalibrationSaved {
                    saved: true,
                    path: self.config.calibration_path.clone(),
                },
            ),
            Handed::Failed(e) => Response::err(id, "HARDWARE_ERROR", e),
            Handed::Lost(e) => Response::err(id, "INTERNAL_ERROR", e),
        }
    }
}

// ---------------------------------------------------------------------------
// Routines
// ---------------------------------------------------------------------------

/// Why a routine did not start.
#[derive(Debug, Clone, Copy, PartialEq, Eq, Structural)]
pub enum StartError {
    /// Another one is running.
    AlreadyRunning,
    /// There is none of that name.
    Unknown,
}

/// What a routine has met with.
#[derive(Debug, Clone, Copy, PartialEq, Eq, Structural)]
pub struct RoutineStats {
    pub obstacles_avoided: u64,
    pub cliffs_avoided: u64,
}

/// Why a routine has ended.
#[derive(Debug, Clone, Copy, PartialEq, Eq, Structural)]
pub enum StopReason {
    /// It was told to.
    Commanded,
    /// Its time was up.
    Timeout,
    /// It came to a bad end.
    Error,
}

impl StopReason {
    /// The word for the reason.
    pub open spec fn word(self) -> Seq<char> {
        match self {
            StopReason::Commanded => "commanded"@,
            StopReason::Timeout => "timeout"@,
            StopReason::Error => "error"@,
        }
    }

    /// The word for the reason.
    pub fn as_str(&self) -> (r: &'static str)
        ensures
            r@ == self.word(),
    {
        match self {
            StopReason::Commanded => "commanded",
            StopReason::Timeout => "timeout",
            StopReason::Error => "error",
        }
    }
}

/// What came of stopping the routine, after it had run for so many seconds.
#[derive(Debug, Clone, Copy, PartialEq, Eq, Structural)]
pub enum StopOutcome {
    /// It came to its end and says why.
    Stopped { ran_for_s: u64, stats: RoutineStats, stop_reason: StopReason },
    /// It came to a bad end.
    Crashed { ran_for_s: u64 },
    /// It did not stop in time and was aborted.
    Aborted { ran_for_s: u64 },
}

/// What the routine is doing.
#[derive(Debug)]
pub struct RoutineSnapshot {
    pub running: bool,
    pub name: Option<String>,
    pub elapsed_s: Option<u64>,
    pub obstacles_avoided: Option<u64>,
    pub cliffs_avoided: Option<u64>,
}

/// The answer when a routine was stopped.
pub open spec fn stopped_answer(
    id: Seq<char>,
    name: Seq<char>,
    ran_for_s: u64,
    stats: RoutineStats,
    stop_reason: StopReason,
) -> ResponseView {
    schema::succeeded(
        id,
        ReplyView::RoutineStopped {
            name,
            ran_for_s,
            obstacles_avoided: stats.obstacles_avoided,
            cliffs_avoided: stats.cliffs_avoided,
            stop_reason: stop_reason.word(),
        },
    )
}

/// The statistics of a routine that left none.
pub open spec fn no_stats() -> RoutineStats {
    RoutineStats { obstacles_avoided: 0, cliffs_avoided: 0 }
}

/// The answer when a routine was to be started.
pub open spec fn started_answer(
    id: Seq<char>,
    name: Seq<char>,
    result: Result<(), StartError>,
    now_ms: u64,
) -> ResponseView {
    match result {
        Ok(_) => schema::succeeded(
            id,
            ReplyView::RoutineStarted { name, started_at_uptime_s: now_ms / 1000 },
        ),
        Err(StartError::AlreadyRunning) => schema::failed(
            id,
            "ALREADY_RUNNING"@,
            "a routine is already running"@,
        ),
        Err(StartError::Unknown) => schema::refused(
            id,
            "routine '"@ + name + "' is not recognised; valid: explore"@,
        ),
    }
}

/// The answer when the routine was told to stop. One that crashed or had to be
/// aborted has ended in an error.
pub open spec fn stop_answer(
    id: Seq<char>,
    name: Seq<char>,
    outcome: StopOutcome,
) -> ResponseView {
    match outcome {
        StopOutcome::Stopped { ran_for_s, stats, stop_reason } => stopped_answer(
            id,
            name,
            ran_for_s,
            stats,
            stop_reason,
        ),
        StopOutcome::Crashed { ran_for_s } => stopped_answer(
            id,
            name,
            ran_for_s,
            no_stats(),
            StopReason::Error,
        ),
        StopOutcome::Aborted { ran_for_s } => stopped_answer(
            id,
            name,
            ran_for_s,
            no_stats(),
            StopReason::Error,
        ),
    }
}

/// The answer when the routine was asked what it is doing.
pub open spec fn status_answer(id: Seq<char>, s: RoutineSnapshot) -> ResponseView {
    schema::succeeded(
        id,
        ReplyView::RoutineStatus {
            running: s.running,
            name: match s.name {
                Some(n) => Some(n@),
                None => None,
            },
            elapsed_s: s.elapsed_s,
            obstacles_avoided: s.obstacles_avoided,
            cliffs_avoided: s.cliffs_avoided,
        },
    )
}

fn answer_stopped(
    id: String,
    name: String,
    ran_for_s: u64,
    stats: RoutineStats,
    stop_reason: StopReason,
) -> (r: Response)
    ensures
        r@ == stopped_answer(id@, name@, ran_for_s, stats, stop_reason),
{
    Response::ok(
        id,
        Reply::RoutineStopped {
            name,
            ran_for_s,
            obstacles_avoided: stats.obstacles_avoided,
            cliffs_avoided: stats.cliffs_avoided,
            stop_reason: stop_reason.as_str().to_owned(),
        },
    )
}

impl Handler {
    /// A routine was started, or not. If it was, it is the one that is running.
    pub fn finish_start_routine(
        &mut self,
        id: String,
        name: String,
        result: Result<(), StartError>,
        now_ms: u64,
    ) -> (r: Response)
        ensures
            r@ == started_answer(id@, name@, result, now_ms),
            final(self)@ == (if result is Ok {
                HandlerView { routine: Some(name@), ..old(self)@ }
            } else {
                old(self)@
            }),
            old(self)@.wf() ==> final(self)@.wf(),
    {
        match result {
            Ok(_) => {
                self.routine = Some(name.clone());
                Response::ok(
                    id,
                    Reply::RoutineStarted { name, started_at_uptime_s: now_ms / 1000 },
                )
            },
            Err(StartError::AlreadyRunning) => Response::err(
                id,
                "ALREADY_RUNNING",
                "a routine is already running".to_owned(),
            ),
            Err(StartError::Unknown) => Response::refuse(
                id.as_str(),
                "routine '".to_owned().concat(name.as_str()).concat(
                    "' is not recognised; valid: explore",
                ).as_str(),
            ),
        }
    }

    /// The PWM channels of the motors to idle once the routine was told to stop:
    /// those of all motors, unless it has left them in order itself.
    pub fn motors_to_idle(&self, outcome: &StopOutcome) -> (r: Vec<u8>)
        ensures
            r@ == (if outcome is Crashed || outcome is Aborted {
                self@.config.motors.map_values(|m: MotorConfig| m.pwm_channel)
            } else {
                Seq::empty()
            }),
    {
        let mut out: Vec<u8> = Vec::new();
        let left_running = match outcome {
            StopOutcome::Crashed { ran_for_s: _ } => true,
            StopOutcome::Aborted { ran_for_s: _ } => true,
            _ => false,
        };
        if left_running {
            let mut i: usize = 0;
            while i < self.config.motors.len()
                invariant
                    i <= self.config.motors@.len(),
                    out@.len() == i,
                    forall|k: int|
                        0 <= k < i ==> #[trigger] out@[k] == self.config.motors@[k].pwm_channel,
                decreases self.config.motors@.len() - i,
            {
                out.push(self.config.motors[i].pwm_channel);
                i = i + 1;
            }
            assert(out@ =~= self@.config.motors.map_values(|m: MotorConfig| m.pwm_channel));
        } else {
            assert(out@ =~= Seq::empty());
        }
        out
    }

    /// The routine was told to stop, and the motors that it left running have
    /// been idled. If it had to be aborted, it holds no motor any longer.
    pub fn finish_stop_routine(&mut self, id: String, name: String, outcome: StopOutcome) -> (r:
        Response)
        ensures
            r@ == stop_answer(id@, name@, outcome),
            r@.outcome matches Ok(ReplyView::RoutineStopped {
                name: told,
                ran_for_s,
                obstacles_avoided,
                cliffs_avoided,
                stop_reason,
            }) && told == name@ && (stop_reason == "commanded"@ || stop_reason == "timeout"@
                || stop_reason == "error"@),
            final(self)@ == (HandlerView {
                motor_leases: if outcome is Aborted {
                    lease::without_connection(old(self)@.motor_leases, state::ROUTINE_CONN_ID)
                } else {
                    old(self)@.motor_leases
                },
                ..old(self)@
            }),
            old(self)@.wf() ==> final(self)@.wf(),
    {
        let none = RoutineStats { obstacles_avoided: 0, cliffs_avoided: 0 };
        match outcome {
            StopOutcome::Stopped { ran_for_s, stats, stop_reason } => answer_stopped(
                id,
                name,
                ran_for_s,
                stats,
                stop_reason,
            ),
            StopOutcome::Crashed { ran_for_s } => answer_stopped(
                id,
                name,
                ran_for_s,
                none,
                StopReason::Error,
            ),
            StopOutcome::Aborted { ran_for_s } => {
                let _released = self.motor_leases.release_connection(state::ROUTINE_CONN_ID);
                answer_stopped(id, name, ran_for_s, none, StopReason::Error)
            },
        }
    }

    /// The routine was asked what it is doing.
    pub fn finish_get_routine_status(&self, id: String, s: RoutineSnapshot) -> (r: Response)
        ensures
            r@ == status_answer(id@, s),
    {
        Response::ok(
            id,
            Reply::RoutineStatus {
                running: s.running,
                name: s.name,
                elapsed_s: s.elapsed_s,
                obstacles_avoided: s.obstacles_avoided,
                cliffs_avoided: s.cliffs_avoided,
            },
        )
    }
}

// ---------------------------------------------------------------------------
// Laws
// ---------------------------------------------------------------------------

/// Readings that were taken one after the other, none after one that failed.
pub open spec fn scan_in_order(readings: Seq<Result<u16, HatError>>) -> bool {
    &&& readings.len() <= 3
    &&& forall|i: int| 0 <= i < readings.len() - 1 ==> #[trigger] readings[i] is Ok
}

/// To read the next sensor, from none on, as long as there is a next one, keeps
/// the readings in order, whatever they are, and comes to an end after at most
/// three: the scan is then complete.
pub proof fn law_scan_comes_to_an_end(
    channels: Seq<u8>,
    readings: Seq<Result<u16, HatError>>,
    reading: Result<u16, HatError>,
)
    requires
        scan_in_order(readings),
    ensures
        scan_in_order(Seq::empty()),
        next_channel(channels, readings) is Some ==> readings.len() < 3 && scan_in_order(
            readings.push(reading),
        ),
        next_channel(channels, readings) is None ==> scan_complete(readings),
{
    if next_channel(channels, readings) is Some {
        let more = readings.push(reading);
        assert forall|i: int| 0 <= i < more.len() - 1 implies #[trigger] more[i] is Ok by {
            assert(more[i] == readings[i]);
            if i == readings.len() - 1 {
                assert(readings[i] == readings.last());
            }
        }
    }
}

} // verus!
