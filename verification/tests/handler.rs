//! Requests from end to end, on hardware that is only imagined.

use std::cell::RefCell;
use std::collections::HashMap;

use nomopractic::calibration::{trimmed_pulse_us, CalibrationStore};
use nomopractic::config::Config;
use nomopractic::hat::audio::AudioError;
use nomopractic::hat::error::{GpioError, HatError, UltrasonicError};
use nomopractic::hat::gpio::GpioPin;
use nomopractic::ipc::motion::{MotorCommand, MotorOperation, MotorStep};
use nomopractic::ipc::outcome::{
    Handed, RoutineSnapshot, RoutineStats, StartError, StopOutcome, StopReason,
};
use nomopractic::ipc::plan::{Job, Step};
use nomopractic::ipc::schema::{Reply, Request, Response, Surface};
use nomopractic::ipc::state::Handler;
use nomopractic::number::Real;
use serde_json::Value;

const VERSION: &str = "0.4.0";
const RESET_HOLD_MS: u64 = 10;

// What the hardware does.

/// What the distance sensor hears.
#[derive(Clone, Copy)]
enum Echo {
    Never,
    Distance(f64),
}

/// A mixer that keeps what it is told, or refuses everything.
struct MockAlsa {
    volume: u8,
    gain: u8,
    fails: bool,
}

impl MockAlsa {
    fn new(volume: u8, gain: u8) -> Self {
        MockAlsa { volume, gain, fails: false }
    }

    fn failing() -> Self {
        MockAlsa { volume: 0, gain: 0, fails: true }
    }

    fn outcome<T>(&self, value: T) -> Handed<T, AudioError> {
        if self.fails {
            Handed::Failed(AudioError::Command("mock".to_string()))
        } else {
            Handed::Done(value)
        }
    }
}

struct Hardware {
    adc: [u8; 2],
    echo: Echo,
    pins: HashMap<u8, bool>,
    alsa: MockAlsa,
    /// The PWM channels of motors that do not take commands.
    broken_motors: Vec<u8>,
    /// Whether a motor that did start can be idled again.
    idle_fails: bool,
    commands: Vec<MotorCommand>,
    idled: Vec<u8>,
    routine: Option<String>,
    /// Whether the routine does not stop when it is told to.
    routine_hangs: bool,
    /// Whether the routine has come to a bad end.
    routine_crashes: bool,
    saved_to: Option<String>,
    bus_fails: bool,
}

impl Hardware {
    fn raw(&self) -> Result<u16, HatError> {
        if self.bus_fails {
            Err(HatError::I2c("bus error".to_string()))
        } else {
            Ok(u16::from_be_bytes(self.adc))
        }
    }

    fn idle(&mut self, pwm_channel: u8) -> Result<(), String> {
        self.idled.push(pwm_channel);
        if self.idle_fails || self.broken_motors.contains(&pwm_channel) && self.bus_fails {
            Err("idle failed".to_string())
        } else {
            Ok(())
        }
    }

    fn servo(&self) -> Result<(), HatError> {
        if self.bus_fails {
            Err(HatError::I2c("bus error".to_string()))
        } else {
            Ok(())
        }
    }
}

fn bcm(pin: GpioPin) -> u8 {
    match pin {
        GpioPin::D2 => 27,
        GpioPin::D3 => 22,
        GpioPin::D4 => 23,
        GpioPin::D5 => 24,
        GpioPin::McuRst => 5,
        GpioPin::Sw => 25,
        GpioPin::Led => 26,
        GpioPin::SpeakerEn => 20,
    }
}

fn writable(pin: GpioPin) -> bool {
    !matches!(pin, GpioPin::Sw | GpioPin::D3)
}

fn pulse(angle_deg: f64) -> u16 {
    (500.0 + angle_deg / 180.0 * 2000.0).round() as u16
}

fn float(x: Real) -> f64 {
    f64::from_bits(x.bits)
}

fn real_of(x: f64) -> Real {
    Real::from_bits(x.to_bits())
}

// What clients see.

fn object(members: Vec<(&str, Value)>) -> Value {
    let mut map = serde_json::Map::new();
    for (k, v) in members {
        map.insert(k.to_string(), v);
    }
    Value::Object(map)
}

fn list(items: &[u64]) -> Value {
    Value::Array(items.iter().map(|x| Value::from(*x)).collect())
}

fn option(x: Option<u64>) -> Value {
    match x {
        Some(n) => Value::from(n),
        None => Value::Null,
    }
}

fn reply_value(reply: Reply) -> Value {
    let n = |x: Real| Value::from(float(x));
    match reply {
        Reply::Health { schema_version, status, version, hat_address, i2c_bus, uptime_s } => object(vec![
            ("schema_version", schema_version.into()),
            ("status", status.into()),
            ("version", version.into()),
            ("hat_address", hat_address.into()),
            ("i2c_bus", i2c_bus.into()),
            ("uptime_s", uptime_s.into()),
        ]),
        Reply::BatteryVoltage { voltage_v } => object(vec![("voltage_v", n(voltage_v))]),
        Reply::Adc { channel, raw_value } => {
            object(vec![("channel", channel.into()), ("raw_value", raw_value.into())])
        }
        Reply::ServoPulse { channel, pulse_us } => {
            object(vec![("channel", channel.into()), ("pulse_us", pulse_us.into())])
        }
        Reply::ServoAngle { channel, angle_deg, pulse_us } => object(vec![
            ("channel", channel.into()),
            ("angle_deg", n(angle_deg)),
            ("pulse_us", pulse_us.into()),
        ]),
        Reply::Gpio { pin, high } => object(vec![("pin", pin.name().into()), ("high", high.into())]),
        Reply::McuReset { reset_ms } => object(vec![("reset_ms", reset_ms.into())]),
        Reply::ActiveLeases { active_leases } => object(vec![(
            "active_leases",
            Value::Array(
                active_leases
                    .iter()
                    .map(|l| {
                        object(vec![
                            ("channel", l.channel.into()),
                            ("ttl_remaining_ms", l.ttl_remaining_ms.into()),
                            ("conn_id", l.conn_id.into()),
                        ])
                    })
                    .collect(),
            ),
        )]),
        Reply::McuStatus { resets_since_start, last_reset_s_ago } => object(vec![
            ("resets_since_start", resets_since_start.into()),
            ("last_reset_s_ago", option(last_reset_s_ago)),
        ]),
        Reply::MotorSpeed { channel, speed_pct } => {
            object(vec![("channel", channel.into()), ("speed_pct", n(speed_pct))])
        }
        Reply::MotorsStopped { stopped } => object(vec![("stopped", stopped.into())]),
        Reply::Drive { speed_pct, motors } => {
            object(vec![("speed_pct", n(speed_pct)), ("motors", motors.into())])
        }
        Reply::NamedServo { servo, channel, angle_deg, pulse_us } => object(vec![
            ("servo", servo.name().into()),
            ("channel", channel.into()),
            ("angle_deg", n(angle_deg)),
            ("pulse_us", pulse_us.into()),
        ]),
        Reply::Grayscale { channels, values } => object(vec![
            ("channels", channels.to_vec().into()),
            ("values", values.to_vec().into()),
        ]),
        Reply::GrayscaleNormalized { channels, normalized } => object(vec![
            ("channels", channels.to_vec().into()),
            (
                "normalized",
                Value::Array(
                    normalized
                        .iter()
                        .map(|f| Value::from(f.numerator as f64 / f.denominator as f64))
                        .collect(),
                ),
            ),
        ]),
        Reply::Ultrasonic { distance_cm } => object(vec![("distance_cm", n(distance_cm))]),
        Reply::Speaker { enabled, pin_bcm } => {
            object(vec![("enabled", enabled.into()), ("pin_bcm", pin_bcm.into())])
        }
        Reply::Volume { volume_pct } => object(vec![("volume_pct", volume_pct.into())]),
        Reply::MicGain { gain_pct } => object(vec![("gain_pct", gain_pct.into())]),
        Reply::Calibration { motors, servos, adc_channels, grayscale } => object(vec![
            (
                "motors",
                Value::Array(
                    motors
                        .iter()
                        .enumerate()
                        .map(|(i, m)| {
                            object(vec![
                                ("channel", i.into()),
                                ("speed_scale", n(m.speed_scale)),
                                ("deadband_pct", n(m.deadband_pct)),
                                ("reversed", m.reversed.into()),
                            ])
                        })
                        .collect(),
                ),
            ),
            (
                "servos",
                object(
                    servos
                        .iter()
                        .map(|s| (s.name.as_str(), object(vec![("trim_us", s.trim_us.into())])))
                        .collect(),
                ),
            ),
            (
                "grayscale",
                Value::Array(
                    (0..3)
                        .map(|i| {
                            object(vec![
                                ("adc_channel", adc_channels[i].into()),
                                ("white_raw", grayscale[i].white_raw.into()),
                                ("black_raw", grayscale[i].black_raw.into()),
                            ])
                        })
                        .collect(),
                ),
            ),
        ]),
        Reply::MotorCalibration { channel, calibration } => object(vec![
            ("channel", channel.into()),
            ("speed_scale", n(calibration.speed_scale)),
            ("deadband_pct", n(calibration.deadband_pct)),
            ("reversed", calibration.reversed.into()),
        ]),
        Reply::ServoCalibration { servo, trim_us } => {
            object(vec![("servo", servo.name().into()), ("trim_us", trim_us.into())])
        }
        Reply::GrayscaleCalibration { channel, adc_channel, surface, raw_value, stored } => {
            object(vec![
                ("channel", channel.into()),
                ("adc_channel", adc_channel.into()),
                (
                    "surface",
                    match surface {
                        Surface::White => "white".into(),
                        Surface::Black => "black".into(),
                    },
                ),
                ("raw_value", raw_value.into()),
                ("stored", stored.into()),
            ])
        }
        Reply::CalibrationSaved { saved, path } => {
            object(vec![("saved", saved.into()), ("path", path.into())])
        }
        Reply::CalibrationReset { reset } => object(vec![("reset", reset.into())]),
        Reply::RoutineStarted { name, started_at_uptime_s } => object(vec![
            ("name", name.into()),
            ("started_at_uptime_s", started_at_uptime_s.into()),
        ]),
        Reply::RoutineStopped {
            name,
            ran_for_s,
            obstacles_avoided,
            cliffs_avoided,
            stop_reason,
        } => object(vec![
            ("name", name.into()),
            ("ran_for_s", ran_for_s.into()),
            ("obstacles_avoided", obstacles_avoided.into()),
            ("cliffs_avoided", cliffs_avoided.into()),
            ("stop_reason", stop_reason.into()),
        ]),
        Reply::RoutineStatus { running, name, elapsed_s, obstacles_avoided, cliffs_avoided } => {
            object(vec![
                ("running", running.into()),
                (
                    "name",
                    match name {
                        Some(s) => s.into(),
                        None => Value::Null,
                    },
                ),
                ("elapsed_s", option(elapsed_s)),
                ("obstacles_avoided", option(obstacles_avoided)),
                ("cliffs_avoided", option(cliffs_avoided)),
            ])
        }
    }
}

fn response_value(response: Response) -> Value {
    match response.outcome {
        Ok(reply) => object(vec![
            ("id", response.id.into()),
            ("ok", true.into()),
            ("result", reply_value(reply)),
        ]),
        Err(f) => object(vec![
            ("id", response.id.into()),
            ("ok", false.into()),
            ("error", object(vec![("code", f.code.into()), ("message", f.message.into())])),
        ]),
    }
}

fn parse(raw: &str) -> Result<Request, String> {
    let document: Value = serde_json::from_str(raw).map_err(|e| e.to_string())?;
    let member = |key: &str| match document.get(key) {
        Some(Value::String(s)) => Ok(s.clone()),
        _ => Err(format!("missing field `{key}`")),
    };
    let params = document.get("params").cloned().unwrap_or(Value::Null);
    Ok(Request::read(member("id")?, member("method")?, &params))
}

// The daemon.

struct Inner {
    handler: Handler,
    hardware: Hardware,
    now_ms: u64,
}

struct Daemon {
    inner: RefCell<Inner>,
}

impl Inner {
    fn operate(&mut self, mut operation: MotorOperation) -> Result<Vec<u8>, Vec<String>> {
        loop {
            match self.handler.atomic_motor_operation(&operation) {
                MotorStep::Command(command) => {
                    self.hardware.commands.push(command);
                    if self.hardware.broken_motors.contains(&command.pwm_channel) {
                        operation.record(Err("stalled".to_string()));
                    } else {
                        operation.record(Ok(()));
                    }
                }
                MotorStep::Idle { pwm_channel } => {
                    let outcome = self.hardware.idle(pwm_channel);
                    operation.record(outcome);
                }
                MotorStep::Done => {
                    return self.handler.finish_motor_operation(&operation, self.now_ms);
                }
            }
        }
    }

    fn scan(&mut self) -> Vec<Result<u16, HatError>> {
        let mut readings = Vec::new();
        while self.handler.next_grayscale_channel(&readings).is_some() {
            readings.push(self.hardware.raw());
        }
        readings
    }

    fn perform(&mut self, id: String, job: Job) -> Response {
        let now = self.now_ms;
        match job {
            Job::ReadBatteryVoltage => {
                let result = self.hardware.raw().map(|raw| real_of(raw as f64 / 4095.0 * 3.3 * 3.0));
                self.handler.finish_get_battery_voltage(id, result)
            }
            Job::ReadAdc { channel } => {
                let result = self.hardware.raw();
                self.handler.finish_read_adc(id, channel, result)
            }
            Job::SetServoPulse { channel, pulse_us, conn_id, ttl_ms } => {
                let result = self.hardware.servo();
                self.handler.finish_set_servo_pulse_us(
                    id, channel, pulse_us, conn_id, ttl_ms, now, result,
                )
            }
            Job::SetServoAngle { channel, angle_deg, conn_id, ttl_ms } => {
                let result = self.hardware.servo().map(|_| pulse(float(angle_deg)));
                self.handler.finish_set_servo_angle(
                    id, channel, angle_deg, conn_id, ttl_ms, now, result,
                )
            }
            Job::SetNamedServo { servo, channel, angle_deg, trim_us, conn_id, ttl_ms } => {
                let pulse_us = trimmed_pulse_us(pulse(float(angle_deg)), trim_us);
                let result = self.hardware.servo();
                self.handler.finish_set_named_servo(
                    id, servo, channel, angle_deg, pulse_us, conn_id, ttl_ms, now, result,
                )
            }
            Job::ReadGpio { pin } => {
                let high = *self.hardware.pins.get(&bcm(pin)).unwrap_or(&false);
                self.handler.finish_read_gpio(id, pin, Ok(high))
            }
            Job::WriteGpio { pin, high } => {
                let result = if writable(pin) {
                    self.hardware.pins.insert(bcm(pin), high);
                    Ok(())
                } else {
                    Err(GpioError::ReadOnly("pin is read-only".to_string()))
                };
                self.handler.finish_write_gpio(id, pin, high, result)
            }
            Job::ResetMcu { requested_at_ms } => {
                let result = if self.hardware.bus_fails {
                    Err("gpio error".to_string())
                } else {
                    Ok(RESET_HOLD_MS)
                };
                self.handler.finish_reset_mcu(id, requested_at_ms, result)
            }
            Job::SetMotorSpeed { channel, speed_pct, conn_id, ttl_ms } => {
                let result = self.operate(MotorOperation::single(channel, speed_pct, conn_id, ttl_ms));
                self.handler.finish_set_motor_speed(id, channel, speed_pct, result)
            }
            Job::Drive { speed_pct, conn_id, ttl_ms } => {
                let motors = self.handler.config().motors.len();
                let result = self.operate(MotorOperation::all(motors, speed_pct, conn_id, ttl_ms));
                self.handler.finish_drive(id, speed_pct, result)
            }
            Job::StopAllMotors => {
                let mut outcomes = Vec::new();
                while let Some(pwm_channel) = self.handler.next_motor_to_stop(&outcomes) {
                    let outcome = self.hardware.idle(pwm_channel);
                    self.handler.record_motor_stop(&mut outcomes, outcome);
                }
                self.handler.finish_stop_all_motors(id, &outcomes)
            }
            Job::ReadGrayscale => {
                let readings = self.scan();
                self.handler.finish_read_grayscale(id, &readings)
            }
            Job::ReadGrayscaleNormalized { references } => {
                let readings = self.scan();
                self.handler.finish_read_grayscale_normalized(id, references, &readings)
            }
            Job::ReadUltrasonic { trig_pin_bcm: _, echo_pin_bcm: _, timeout_ms } => {
                let result = match self.hardware.echo {
                    Echo::Never => Err(UltrasonicError::Timeout(timeout_ms)),
                    Echo::Distance(cm) if !(2.0..=400.0).contains(&cm) => Err(UltrasonicError::NoEcho),
                    Echo::Distance(cm) => Ok(real_of(cm)),
                };
                self.handler.finish_read_ultrasonic(id, result)
            }
            Job::WriteSpeaker { enabled, pin_bcm } => {
                self.hardware.pins.insert(pin_bcm, enabled);
                self.handler.finish_speaker(id, enabled, pin_bcm, Ok(()))
            }
            Job::SetVolume { volume_pct } => {
                self.hardware.alsa.volume = volume_pct;
                let result = self.hardware.alsa.outcome(());
                self.handler.finish_set_volume(id, volume_pct, result)
            }
            Job::GetVolume => {
                let result = self.hardware.alsa.outcome(self.hardware.alsa.volume);
                self.handler.finish_get_volume(id, result)
            }
            Job::SetMicGain { gain_pct } => {
                self.hardware.alsa.gain = gain_pct;
                let result = self.hardware.alsa.outcome(());
                self.handler.finish_set_mic_gain(id, gain_pct, result)
            }
            Job::GetMicGain => {
                let result = self.hardware.alsa.outcome(self.hardware.alsa.gain);
                self.handler.finish_get_mic_gain(id, result)
            }
            Job::CalibrateGrayscale { channel, adc_channel, surface } => {
                let result = self.hardware.raw();
                self.handler.finish_calibrate_grayscale(id, channel, adc_channel, surface, result)
            }
            Job::SaveCalibration => {
                self.hardware.saved_to = Some(self.handler.config().calibration_path.clone());
                self.handler.finish_save_calibration(id, Handed::Done(()))
            }
            Job::GetRoutineStatus => {
                let running = self.hardware.routine.is_some();
                let snapshot = RoutineSnapshot {
                    running,
                    name: self.hardware.routine.clone(),
                    elapsed_s: if running { Some(1) } else { None },
                    obstacles_avoided: if running { Some(0) } else { None },
                    cliffs_avoided: if running { Some(0) } else { None },
                };
                self.handler.finish_get_routine_status(id, snapshot)
            }
        }
    }

    fn dispatch(&mut self, raw: &str, conn_id: u64) -> Response {
        match self.handler.dispatch(parse(raw), conn_id, self.now_ms) {
            Step::Answer(response) => response,
            Step::Act { id, job } => self.perform(id, job),
            Step::StartRoutine { id, name, overrides: _ } => {
                let result = if self.hardware.routine.is_some() {
                    Err(StartError::AlreadyRunning)
                } else if name != "explore" {
                    Err(StartError::Unknown)
                } else {
                    self.hardware.routine = Some(name.clone());
                    Ok(())
                };
                self.handler.finish_start_routine(id, name, result, self.now_ms)
            }
            Step::StopRoutine { id, name } => {
                assert_eq!(self.hardware.routine.take().as_ref(), Some(&name));
                let outcome = if self.hardware.routine_crashes {
                    StopOutcome::Crashed { ran_for_s: 1 }
                } else if self.hardware.routine_hangs {
                    StopOutcome::Aborted { ran_for_s: 3 }
                } else {
                    StopOutcome::Stopped {
                        ran_for_s: 2,
                        stats: RoutineStats { obstacles_avoided: 4, cliffs_avoided: 5 },
                        stop_reason: StopReason::Commanded,
                    }
                };
                for pwm_channel in self.handler.motors_to_idle(&outcome) {
                    let _ = self.hardware.idle(pwm_channel);
                }
                self.handler.finish_stop_routine(id, name, outcome)
            }
        }
    }
}

impl Daemon {
    fn start(config: Config, adc: [u8; 2], echo: Echo, alsa: MockAlsa) -> Daemon {
        let handler = Handler::new(config, VERSION.to_string(), None);
        let hardware = Hardware {
            adc,
            echo,
            pins: HashMap::new(),
            alsa,
            broken_motors: Vec::new(),
            idle_fails: false,
            commands: Vec::new(),
            idled: Vec::new(),
            routine: None,
            routine_hangs: false,
            routine_crashes: false,
            saved_to: None,
            bus_fails: false,
        };
        Daemon { inner: RefCell::new(Inner { handler, hardware, now_ms: 5_000 }) }
    }

    fn dispatch(&self, raw: &str, conn_id: u64) -> String {
        let response = self.inner.borrow_mut().dispatch(raw, conn_id);
        response_value(response).to_string()
    }

    /// The response, as clients see it.
    fn ask(&self, raw: &str, conn_id: u64) -> Value {
        serde_json::from_str(&self.dispatch(raw, conn_id)).unwrap()
    }

    /// The same for a method and its parameters.
    fn call(&self, method: &str, params: &str, conn_id: u64) -> Value {
        self.ask(&format!(r#"{{"id":"x","method":"{method}","params":{params}}}"#), conn_id)
    }

    fn config(&self) -> Config {
        self.inner.borrow().handler.config().clone()
    }

    fn pin(&self, pin_bcm: u8) -> bool {
        *self.inner.borrow().hardware.pins.get(&pin_bcm).unwrap_or(&false)
    }

    fn saved_to(&self) -> Option<String> {
        self.inner.borrow().hardware.saved_to.clone()
    }

    fn wait(&self, ms: u64) {
        self.inner.borrow_mut().now_ms += ms;
    }

    /// Change the hardware.
    fn with(&self, change: impl Fn(&mut Hardware)) {
        change(&mut self.inner.borrow_mut().hardware)
    }

    fn idled(&self) -> Vec<u8> {
        self.inner.borrow().hardware.idled.clone()
    }

    fn commands(&self) -> Vec<MotorCommand> {
        self.inner.borrow().hardware.commands.clone()
    }

    /// Returns the servo channels and the PWM channels that are idled.
    fn disconnect(&self, conn_id: u64) -> (Vec<u8>, Vec<u8>) {
        let mut inner = self.inner.borrow_mut();
        let servos = inner.handler.on_client_disconnect(conn_id);
        let motors = inner.handler.on_servos_idled(conn_id);
        (servos, motors)
    }
}

fn test_handler() -> Daemon {
    Daemon::start(Config::default(), [0, 0], Echo::Never, MockAlsa::new(50, 50))
}

fn test_handler_with_adc(hi: u8, lo: u8) -> Daemon {
    Daemon::start(Config::default(), [hi, lo], Echo::Never, MockAlsa::new(50, 50))
}

fn test_handler_with_config(config: Config) -> Daemon {
    Daemon::start(config, [0, 0], Echo::Never, MockAlsa::new(50, 50))
}

fn test_handler_with_ultrasonic(echo: Echo) -> Daemon {
    Daemon::start(Config::default(), [0, 0], echo, MockAlsa::new(50, 50))
}

fn test_handler_with_mock_alsa(alsa: MockAlsa) -> Daemon {
    Daemon::start(Config::default(), [0, 0], Echo::Never, alsa)
}

#[test]
fn health_returns_ok() {
    let handler = test_handler();
    let raw = r#"{"id":"1","method":"health","params":{}}"#;
    let resp_str = handler.dispatch(raw, 0);
    let resp: serde_json::Value = serde_json::from_str(&resp_str).unwrap();

    assert_eq!(resp["id"], "1");
    assert_eq!(resp["ok"], true);
    assert_eq!(resp["result"]["status"], "ok");
    assert_eq!(resp["result"]["schema_version"], "1.0.0");
    assert_eq!(resp["result"]["version"], VERSION);
    assert_eq!(resp["result"]["hat_address"], "0x14");
    assert_eq!(resp["result"]["i2c_bus"], 1);
    assert!(resp["result"]["uptime_s"].is_number());
}

#[test]
fn unknown_method_returns_error() {
    let handler = test_handler();
    let raw = r#"{"id":"2","method":"explode","params":{}}"#;
    let resp_str = handler.dispatch(raw, 0);
    let resp: serde_json::Value = serde_json::from_str(&resp_str).unwrap();

    assert_eq!(resp["id"], "2");
    assert_eq!(resp["ok"], false);
    assert_eq!(resp["error"]["code"], "UNKNOWN_METHOD");
}

#[test]
fn malformed_json_returns_error() {
    let handler = test_handler();
    let raw = "this is not json";
    let resp_str = handler.dispatch(raw, 0);
    let resp: serde_json::Value = serde_json::from_str(&resp_str).unwrap();

    assert_eq!(resp["ok"], false);
    assert_eq!(resp["error"]["code"], "INVALID_PARAMS");
}

#[test]
fn missing_method_field_returns_error() {
    let handler = test_handler();
    let raw = r#"{"id":"3"}"#;
    let resp_str = handler.dispatch(raw, 0);
    let resp: serde_json::Value = serde_json::from_str(&resp_str).unwrap();

    assert_eq!(resp["ok"], false);
    assert_eq!(resp["error"]["code"], "INVALID_PARAMS");
}

#[test]
fn params_default_to_null() {
    let handler = test_handler();
    // Valid request without params field — should still dispatch.
    let raw = r#"{"id":"4","method":"health"}"#;
    let resp_str = handler.dispatch(raw, 0);
    let resp: serde_json::Value = serde_json::from_str(&resp_str).unwrap();

    assert_eq!(resp["ok"], true);
    assert_eq!(resp["result"]["status"], "ok");
}

#[test]
fn get_battery_voltage_returns_scaled_voltage() {
    // raw = 0x0FFF = 4095 (12-bit max) → voltage_v = (4095/4095) × 3.3 × 3.0 = 9.9 V
    let handler = test_handler_with_adc(0x0F, 0xFF);
    let raw = r#"{"id":"5","method":"get_battery_voltage","params":{}}"#;
    let resp_str = handler.dispatch(raw, 0);
    let resp: serde_json::Value = serde_json::from_str(&resp_str).unwrap();

    assert_eq!(resp["id"], "5");
    assert_eq!(resp["ok"], true);
    assert_eq!(resp["result"]["voltage_v"], 9.9_f64);
}

#[test]
fn set_servo_pulse_us_returns_channel_and_pulse() {
    let handler = test_handler();
    let raw =
        r#"{"id":"6","method":"set_servo_pulse_us","params":{"channel":0,"pulse_us":1500}}"#;
    let resp_str = handler.dispatch(raw, 1);
    let resp: serde_json::Value = serde_json::from_str(&resp_str).unwrap();

    assert_eq!(resp["id"], "6");
    assert_eq!(resp["ok"], true);
    assert_eq!(resp["result"]["channel"], 0);
    assert_eq!(resp["result"]["pulse_us"], 1500);
}

#[test]
fn set_servo_angle_returns_channel_angle_and_pulse() {
    let handler = test_handler();
    let raw =
        r#"{"id":"7","method":"set_servo_angle","params":{"channel":2,"angle_deg":90.0}}"#;
    let resp_str = handler.dispatch(raw, 1);
    let resp: serde_json::Value = serde_json::from_str(&resp_str).unwrap();

    assert_eq!(resp["id"], "7");
    assert_eq!(resp["ok"], true);
    assert_eq!(resp["result"]["channel"], 2);
    assert_eq!(resp["result"]["angle_deg"], 90.0_f64);
    assert_eq!(resp["result"]["pulse_us"], 1500);
}

#[test]
fn set_servo_pulse_us_invalid_channel_returns_invalid_params() {
    let handler = test_handler();
    let raw =
        r#"{"id":"8","method":"set_servo_pulse_us","params":{"channel":12,"pulse_us":1500}}"#;
    let resp_str = handler.dispatch(raw, 1);
    let resp: serde_json::Value = serde_json::from_str(&resp_str).unwrap();

    assert_eq!(resp["ok"], false);
    assert_eq!(resp["error"]["code"], "INVALID_PARAMS");
}

#[test]
fn set_servo_angle_invalid_angle_returns_invalid_params() {
    let handler = test_handler();
    let raw =
        r#"{"id":"9","method":"set_servo_angle","params":{"channel":0,"angle_deg":200.0}}"#;
    let resp_str = handler.dispatch(raw, 1);
    let resp: serde_json::Value = serde_json::from_str(&resp_str).unwrap();

    assert_eq!(resp["ok"], false);
    assert_eq!(resp["error"]["code"], "INVALID_PARAMS");
}

#[test]
fn reset_mcu_returns_reset_ms() {
    let handler = test_handler();
    let raw = r#"{"id":"r1","method":"reset_mcu","params":{}}"#;
    let resp_str = handler.dispatch(raw, 0);
    let resp: serde_json::Value = serde_json::from_str(&resp_str).unwrap();

    assert_eq!(resp["id"], "r1");
    assert_eq!(resp["ok"], true);
    assert_eq!(resp["result"]["reset_ms"], RESET_HOLD_MS);
}

#[test]
fn reset_mcu_rate_limited_on_rapid_retry() {
    let handler = test_handler();
    let raw = r#"{"id":"r2","method":"reset_mcu","params":{}}"#;
    // First call succeeds.
    handler.dispatch(raw, 0);
    // Immediate second call must be rate-limited.
    let resp_str = handler.dispatch(raw, 0);
    let resp: serde_json::Value = serde_json::from_str(&resp_str).unwrap();

    assert_eq!(resp["ok"], false);
    assert_eq!(resp["error"]["code"], "HARDWARE_ERROR");
    assert!(
        resp["error"]["message"]
            .as_str()
            .unwrap()
            .contains("rate-limited")
    );
}

#[test]
fn read_gpio_sw_returns_low_by_default() {
    let handler = test_handler();
    let raw = r#"{"id":"g1","method":"read_gpio","params":{"pin":"SW"}}"#;
    let resp_str = handler.dispatch(raw, 0);
    let resp: serde_json::Value = serde_json::from_str(&resp_str).unwrap();

    assert_eq!(resp["id"], "g1");
    assert_eq!(resp["ok"], true);
    assert_eq!(resp["result"]["pin"], "SW");
    assert_eq!(resp["result"]["high"], false);
}

#[test]
fn write_gpio_d4_returns_ok() {
    let handler = test_handler();
    let raw = r#"{"id":"g2","method":"write_gpio","params":{"pin":"D4","high":true}}"#;
    let resp_str = handler.dispatch(raw, 0);
    let resp: serde_json::Value = serde_json::from_str(&resp_str).unwrap();

    assert_eq!(resp["id"], "g2");
    assert_eq!(resp["ok"], true);
    assert_eq!(resp["result"]["pin"], "D4");
    assert_eq!(resp["result"]["high"], true);
}

#[test]
fn write_gpio_input_pin_returns_invalid_params() {
    let handler = test_handler();
    let raw = r#"{"id":"g3","method":"write_gpio","params":{"pin":"SW","high":true}}"#;
    let resp_str = handler.dispatch(raw, 0);
    let resp: serde_json::Value = serde_json::from_str(&resp_str).unwrap();

    assert_eq!(resp["ok"], false);
    assert_eq!(resp["error"]["code"], "INVALID_PARAMS");
}

#[test]
fn read_gpio_unknown_pin_returns_invalid_params() {
    let handler = test_handler();
    let raw = r#"{"id":"g4","method":"read_gpio","params":{"pin":"BADPIN"}}"#;
    let resp_str = handler.dispatch(raw, 0);
    let resp: serde_json::Value = serde_json::from_str(&resp_str).unwrap();

    assert_eq!(resp["ok"], false);
    assert_eq!(resp["error"]["code"], "INVALID_PARAMS");
}

#[test]
fn read_adc_valid_channel_returns_raw_value() {
    // raw bytes 0x00, 0x2A → u16 = 42
    let handler = test_handler_with_adc(0x00, 0x2A);
    let raw = r#"{"id":"a1","method":"read_adc","params":{"channel":0}}"#;
    let resp_str = handler.dispatch(raw, 0);
    let resp: serde_json::Value = serde_json::from_str(&resp_str).unwrap();

    assert_eq!(resp["id"], "a1");
    assert_eq!(resp["ok"], true);
    assert_eq!(resp["result"]["channel"], 0);
    assert_eq!(resp["result"]["raw_value"], 42);
}

#[test]
fn read_adc_max_channel_is_accepted() {
    let handler = test_handler_with_adc(0x01, 0x00);
    let raw = r#"{"id":"a2","method":"read_adc","params":{"channel":7}}"#;
    let resp_str = handler.dispatch(raw, 0);
    let resp: serde_json::Value = serde_json::from_str(&resp_str).unwrap();

    assert_eq!(resp["ok"], true);
    assert_eq!(resp["result"]["channel"], 7);
}

#[test]
fn read_adc_invalid_channel_returns_invalid_params() {
    let handler = test_handler();
    let raw = r#"{"id":"a3","method":"read_adc","params":{"channel":8}}"#;
    let resp_str = handler.dispatch(raw, 0);
    let resp: serde_json::Value = serde_json::from_str(&resp_str).unwrap();

    assert_eq!(resp["ok"], false);
    assert_eq!(resp["error"]["code"], "INVALID_PARAMS");
}

#[test]
fn get_servo_status_empty_returns_no_leases() {
    let handler = test_handler();
    let raw = r#"{"id":"v1","method":"get_servo_status","params":{}}"#;
    let resp_str = handler.dispatch(raw, 0);
    let resp: serde_json::Value = serde_json::from_str(&resp_str).unwrap();

    assert_eq!(resp["id"], "v1");
    assert_eq!(resp["ok"], true);
    assert_eq!(resp["result"]["active_leases"], list(&[]));
}

#[test]
fn get_servo_status_after_set_returns_lease() {
    let handler = test_handler();
    // Register a lease on channel 3 owned by conn_id 42.
    let set_raw =
        r#"{"id":"6","method":"set_servo_pulse_us","params":{"channel":3,"pulse_us":1500}}"#;
    handler.dispatch(set_raw, 42);
    let raw = r#"{"id":"v2","method":"get_servo_status","params":{}}"#;
    let resp_str = handler.dispatch(raw, 0);
    let resp: serde_json::Value = serde_json::from_str(&resp_str).unwrap();

    assert_eq!(resp["ok"], true);
    let leases = resp["result"]["active_leases"].as_array().unwrap();
    assert_eq!(leases.len(), 1);
    assert_eq!(leases[0]["channel"], 3);
    assert_eq!(leases[0]["conn_id"], 42);
    assert!(leases[0]["ttl_remaining_ms"].is_number());
}

#[test]
fn get_mcu_status_no_resets() {
    let handler = test_handler();
    let raw = r#"{"id":"m1","method":"get_mcu_status","params":{}}"#;
    let resp_str = handler.dispatch(raw, 0);
    let resp: serde_json::Value = serde_json::from_str(&resp_str).unwrap();

    assert_eq!(resp["id"], "m1");
    assert_eq!(resp["ok"], true);
    assert_eq!(resp["result"]["resets_since_start"], 0);
    assert!(resp["result"]["last_reset_s_ago"].is_null());
}

#[test]
fn get_mcu_status_after_reset() {
    let handler = test_handler();
    handler
        .dispatch(r#"{"id":"r1","method":"reset_mcu","params":{}}"#, 0);
    let raw = r#"{"id":"m2","method":"get_mcu_status","params":{}}"#;
    let resp_str = handler.dispatch(raw, 0);
    let resp: serde_json::Value = serde_json::from_str(&resp_str).unwrap();

    assert_eq!(resp["ok"], true);
    assert_eq!(resp["result"]["resets_since_start"], 1);
    assert!(resp["result"]["last_reset_s_ago"].is_number());
}

// Motor IPC handler tests

#[test]
fn set_motor_speed_valid_returns_channel_and_speed() {
    let handler = test_handler();
    // Default config has motor channel 0 = pwm_channel 12, dir_pin BCM 24.
    let raw =
        r#"{"id":"mo1","method":"set_motor_speed","params":{"channel":0,"speed_pct":50.0}}"#;
    let resp_str = handler.dispatch(raw, 1);
    let resp: serde_json::Value = serde_json::from_str(&resp_str).unwrap();

    assert_eq!(resp["id"], "mo1");
    assert_eq!(resp["ok"], true);
    assert_eq!(resp["result"]["channel"], 0);
    assert_eq!(resp["result"]["speed_pct"], 50.0_f64);
}

#[test]
fn set_motor_speed_channel_out_of_range_returns_invalid_params() {
    let handler = test_handler();
    // Default config has 2 motors (indices 0 and 1); index 2 is not configured.
    let raw =
        r#"{"id":"mo2","method":"set_motor_speed","params":{"channel":2,"speed_pct":50.0}}"#;
    let resp_str = handler.dispatch(raw, 1);
    let resp: serde_json::Value = serde_json::from_str(&resp_str).unwrap();

    assert_eq!(resp["ok"], false);
    assert_eq!(resp["error"]["code"], "INVALID_PARAMS");
}

#[test]
fn set_motor_speed_out_of_range_speed_returns_invalid_params() {
    let handler = test_handler();
    let raw =
        r#"{"id":"mo3","method":"set_motor_speed","params":{"channel":0,"speed_pct":150.0}}"#;
    let resp_str = handler.dispatch(raw, 1);
    let resp: serde_json::Value = serde_json::from_str(&resp_str).unwrap();

    assert_eq!(resp["ok"], false);
    assert_eq!(resp["error"]["code"], "INVALID_PARAMS");
}

#[test]
fn stop_all_motors_returns_stopped_count() {
    let handler = test_handler();
    let raw = r#"{"id":"mo4","method":"stop_all_motors","params":{}}"#;
    let resp_str = handler.dispatch(raw, 0);
    let resp: serde_json::Value = serde_json::from_str(&resp_str).unwrap();

    assert_eq!(resp["id"], "mo4");
    assert_eq!(resp["ok"], true);
    assert_eq!(resp["result"]["stopped"], 2); // default config has 2 motors
}

#[test]
fn get_motor_status_empty_returns_no_leases() {
    let handler = test_handler();
    let raw = r#"{"id":"mo5","method":"get_motor_status","params":{}}"#;
    let resp_str = handler.dispatch(raw, 0);
    let resp: serde_json::Value = serde_json::from_str(&resp_str).unwrap();

    assert_eq!(resp["id"], "mo5");
    assert_eq!(resp["ok"], true);
    assert_eq!(resp["result"]["active_leases"], list(&[]));
}

#[test]
fn get_motor_status_after_set_returns_lease() {
    let handler = test_handler();
    let set_raw =
        r#"{"id":"mo1","method":"set_motor_speed","params":{"channel":1,"speed_pct":75.0}}"#;
    handler.dispatch(set_raw, 99);
    let raw = r#"{"id":"mo6","method":"get_motor_status","params":{}}"#;
    let resp_str = handler.dispatch(raw, 0);
    let resp: serde_json::Value = serde_json::from_str(&resp_str).unwrap();

    assert_eq!(resp["ok"], true);
    let leases = resp["result"]["active_leases"].as_array().unwrap();
    assert_eq!(leases.len(), 1);
    assert_eq!(leases[0]["channel"], 1);
    assert_eq!(leases[0]["conn_id"], 99);
}

// Convenience / coordinated method tests

#[test]
fn drive_sets_both_motors_and_returns_speed_and_count() {
    let handler = test_handler();
    let raw = r#"{"id":"d1","method":"drive","params":{"speed_pct":60.0}}"#;
    let resp_str = handler.dispatch(raw, 1);
    let resp: serde_json::Value = serde_json::from_str(&resp_str).unwrap();

    assert_eq!(resp["id"], "d1");
    assert_eq!(resp["ok"], true);
    assert_eq!(resp["result"]["speed_pct"], 60.0_f64);
    assert_eq!(resp["result"]["motors"], 2); // default config has 2 motors
}

#[test]
fn drive_creates_leases_for_all_motors() {
    let handler = test_handler();
    handler
        .dispatch(
            r#"{"id":"d1","method":"drive","params":{"speed_pct":30.0}}"#,
            7,
        );
    let status_str = handler
        .dispatch(r#"{"id":"d2","method":"get_motor_status","params":{}}"#, 0);
    let status: serde_json::Value = serde_json::from_str(&status_str).unwrap();
    let leases = status["result"]["active_leases"].as_array().unwrap();
    assert_eq!(leases.len(), 2);
}

#[test]
fn drive_invalid_speed_returns_invalid_params() {
    let handler = test_handler();
    let raw = r#"{"id":"d3","method":"drive","params":{"speed_pct":200.0}}"#;
    let resp_str = handler.dispatch(raw, 1);
    let resp: serde_json::Value = serde_json::from_str(&resp_str).unwrap();

    assert_eq!(resp["ok"], false);
    assert_eq!(resp["error"]["code"], "INVALID_PARAMS");
}

#[test]
fn steer_sets_steering_servo_by_name() {
    let handler = test_handler();
    // Default config: steering = channel 2
    let raw = r#"{"id":"s1","method":"steer","params":{"angle_deg":90.0}}"#;
    let resp_str = handler.dispatch(raw, 1);
    let resp: serde_json::Value = serde_json::from_str(&resp_str).unwrap();

    assert_eq!(resp["id"], "s1");
    assert_eq!(resp["ok"], true);
    assert_eq!(resp["result"]["servo"], "steering");
    assert_eq!(resp["result"]["channel"], 2);
    assert_eq!(resp["result"]["angle_deg"], 90.0_f64);
    assert_eq!(resp["result"]["pulse_us"], 1500);
}

#[test]
fn steer_invalid_angle_returns_invalid_params() {
    let handler = test_handler();
    let raw = r#"{"id":"s2","method":"steer","params":{"angle_deg":200.0}}"#;
    let resp_str = handler.dispatch(raw, 1);
    let resp: serde_json::Value = serde_json::from_str(&resp_str).unwrap();

    assert_eq!(resp["ok"], false);
    assert_eq!(resp["error"]["code"], "INVALID_PARAMS");
}

#[test]
fn pan_camera_sets_pan_servo_by_name() {
    let handler = test_handler();
    // Default config: camera_pan = channel 0
    let raw = r#"{"id":"p1","method":"pan_camera","params":{"angle_deg":45.0}}"#;
    let resp_str = handler.dispatch(raw, 1);
    let resp: serde_json::Value = serde_json::from_str(&resp_str).unwrap();

    assert_eq!(resp["ok"], true);
    assert_eq!(resp["result"]["servo"], "camera_pan");
    assert_eq!(resp["result"]["channel"], 0);
    assert_eq!(resp["result"]["angle_deg"], 45.0_f64);
}

#[test]
fn tilt_camera_sets_tilt_servo_by_name() {
    let handler = test_handler();
    // Default config: camera_tilt = channel 1
    let raw = r#"{"id":"t1","method":"tilt_camera","params":{"angle_deg":120.0}}"#;
    let resp_str = handler.dispatch(raw, 1);
    let resp: serde_json::Value = serde_json::from_str(&resp_str).unwrap();

    assert_eq!(resp["ok"], true);
    assert_eq!(resp["result"]["servo"], "camera_tilt");
    assert_eq!(resp["result"]["channel"], 1);
    assert_eq!(resp["result"]["angle_deg"], 120.0_f64);
}

#[test]
fn read_grayscale_returns_three_channel_values() {
    // raw bytes 0x00, 0x2A → u16 = 42 (returned for every ADC read)
    let handler = test_handler_with_adc(0x00, 0x2A);
    let raw = r#"{"id":"gs1","method":"read_grayscale","params":{}}"#;
    let resp_str = handler.dispatch(raw, 0);
    let resp: serde_json::Value = serde_json::from_str(&resp_str).unwrap();

    assert_eq!(resp["id"], "gs1");
    assert_eq!(resp["ok"], true);
    // Default grayscale channels are [0, 1, 2]
    assert_eq!(resp["result"]["channels"], list(&[0, 1, 2]));
    assert_eq!(resp["result"]["values"], list(&[42, 42, 42]));
}

#[test]
fn drive_missing_speed_returns_invalid_params() {
    let handler = test_handler();
    let raw = r#"{"id":"d4","method":"drive","params":{}}"#;
    let resp_str = handler.dispatch(raw, 1);
    let resp: serde_json::Value = serde_json::from_str(&resp_str).unwrap();

    assert_eq!(resp["ok"], false);
    assert_eq!(resp["error"]["code"], "INVALID_PARAMS");
}

#[test]
fn steer_missing_angle_returns_invalid_params() {
    let handler = test_handler();
    let raw = r#"{"id":"s3","method":"steer","params":{}}"#;
    let resp_str = handler.dispatch(raw, 1);
    let resp: serde_json::Value = serde_json::from_str(&resp_str).unwrap();

    assert_eq!(resp["ok"], false);
    assert_eq!(resp["error"]["code"], "INVALID_PARAMS");
}

// read_ultrasonic

#[test]
fn read_ultrasonic_timeout_returns_timeout_error() {
    // The ECHO pin stays low, so that the measurement times out.
    let mut config = Config::default();
    config.ultrasonic.timeout_ms = 1;
    let handler = test_handler_with_config(config);

    let raw = r#"{"id":"us1","method":"read_ultrasonic","params":{}}"#;
    let resp_str = handler.dispatch(raw, 0);
    let resp: serde_json::Value = serde_json::from_str(&resp_str).unwrap();

    assert_eq!(resp["id"], "us1");
    assert_eq!(resp["ok"], false);
    assert_eq!(resp["error"]["code"], "TIMEOUT");
    assert!(
        resp["error"]["message"]
            .as_str()
            .unwrap_or("")
            .contains("1 ms"),
        "TIMEOUT message should include the timeout value"
    );
}

#[test]
fn read_ultrasonic_no_echo_returns_no_echo_error() {
    // The pulse is so short that the distance is below what the sensor can see.
    let handler = test_handler_with_ultrasonic(Echo::Distance(0.0));

    let raw = r#"{"id":"us2","method":"read_ultrasonic","params":{}}"#;
    let resp_str = handler.dispatch(raw, 0);
    let resp: serde_json::Value = serde_json::from_str(&resp_str).unwrap();

    assert_eq!(resp["id"], "us2");
    assert_eq!(resp["ok"], false);
    assert_eq!(resp["error"]["code"], "NO_ECHO");
}

#[test]
fn read_ultrasonic_success_response_shape() {
    // When the driver returns Ok, the IPC response must contain distance_cm.
    let handler = test_handler_with_ultrasonic(Echo::Distance(42.5));

    let raw = r#"{"id":"us3","method":"read_ultrasonic","params":{}}"#;
    let resp_str = handler.dispatch(raw, 0);
    let resp: serde_json::Value = serde_json::from_str(&resp_str).unwrap();

    assert_eq!(resp["id"], "us3");
    if resp["ok"].as_bool().unwrap_or(false) {
        assert!(
            resp["result"]["distance_cm"].is_number(),
            "successful response must contain numeric distance_cm"
        );
    } else {
        // Sub-2 cm or out-of-range produces NO_ECHO with the zero-time mock.
        assert_eq!(resp["error"]["code"], "NO_ECHO");
    }
}

// Speaker

#[test]
fn enable_speaker_returns_enabled_true() {
    let handler = test_handler();
    let raw = r#"{"id":"sp1","method":"enable_speaker","params":{}}"#;
    let resp_str = handler.dispatch(raw, 0);
    let resp: serde_json::Value = serde_json::from_str(&resp_str).unwrap();

    assert_eq!(resp["id"], "sp1");
    assert_eq!(resp["ok"], true);
    assert_eq!(resp["result"]["enabled"], true);
    assert_eq!(
        resp["result"]["pin_bcm"],
        handler.config().speaker_en_pin_bcm
    );
}

#[test]
fn disable_speaker_returns_enabled_false() {
    let handler = test_handler();
    let raw = r#"{"id":"sp2","method":"disable_speaker","params":{}}"#;
    let resp_str = handler.dispatch(raw, 0);
    let resp: serde_json::Value = serde_json::from_str(&resp_str).unwrap();

    assert_eq!(resp["id"], "sp2");
    assert_eq!(resp["ok"], true);
    assert_eq!(resp["result"]["enabled"], false);
    assert_eq!(
        resp["result"]["pin_bcm"],
        handler.config().speaker_en_pin_bcm
    );
}

#[test]
fn enable_then_disable_speaker_toggles_pin() {
    let handler = test_handler();
    handler
        .dispatch(r#"{"id":"sp3","method":"enable_speaker","params":{}}"#, 0);
    let bcm = handler.config().speaker_en_pin_bcm;
    // After enable, the speaker enable pin must be high (read via gpio mock).
    let pin_high = handler.pin(bcm);
    assert!(
        pin_high,
        "speaker enable pin should be HIGH after enable_speaker"
    );

    handler
        .dispatch(r#"{"id":"sp4","method":"disable_speaker","params":{}}"#, 0);
    let pin_high = handler.pin(bcm);
    assert!(
        !pin_high,
        "speaker enable pin should be LOW after disable_speaker"
    );
}


// set_volume / get_volume

#[test]
fn set_volume_stores_percentage_and_returns_it() {
    let handler = test_handler_with_mock_alsa(MockAlsa::new(50, 50));
    let raw = r#"{"id":"v1","method":"set_volume","params":{"volume_pct":80}}"#;
    let resp: serde_json::Value =
        serde_json::from_str(&handler.dispatch(raw, 0)).unwrap();
    assert_eq!(resp["ok"], true);
    assert_eq!(resp["result"]["volume_pct"], 80);
}

#[test]
fn get_volume_returns_stored_percentage() {
    let handler = test_handler_with_mock_alsa(MockAlsa::new(65, 40));
    let raw = r#"{"id":"v2","method":"get_volume","params":{}}"#;
    let resp: serde_json::Value =
        serde_json::from_str(&handler.dispatch(raw, 0)).unwrap();
    assert_eq!(resp["ok"], true);
    assert_eq!(resp["result"]["volume_pct"], 65);
}

#[test]
fn set_volume_rejects_out_of_range() {
    let handler = test_handler_with_mock_alsa(MockAlsa::new(50, 50));
    let raw = r#"{"id":"v3","method":"set_volume","params":{"volume_pct":101}}"#;
    let resp: serde_json::Value =
        serde_json::from_str(&handler.dispatch(raw, 0)).unwrap();
    assert_eq!(resp["ok"], false);
    assert_eq!(resp["error"]["code"], "INVALID_PARAMS");
}

#[test]
fn set_volume_missing_param_returns_invalid_params() {
    let handler = test_handler_with_mock_alsa(MockAlsa::new(50, 50));
    let raw = r#"{"id":"v4","method":"set_volume","params":{}}"#;
    let resp: serde_json::Value =
        serde_json::from_str(&handler.dispatch(raw, 0)).unwrap();
    assert_eq!(resp["ok"], false);
    assert_eq!(resp["error"]["code"], "INVALID_PARAMS");
}

#[test]
fn set_volume_hardware_error_returns_hardware_error_code() {
    let handler = test_handler_with_mock_alsa(MockAlsa::failing());
    let raw = r#"{"id":"v5","method":"set_volume","params":{"volume_pct":50}}"#;
    let resp: serde_json::Value =
        serde_json::from_str(&handler.dispatch(raw, 0)).unwrap();
    assert_eq!(resp["ok"], false);
    assert_eq!(resp["error"]["code"], "HARDWARE_ERROR");
}

#[test]
fn get_volume_hardware_error_returns_hardware_error_code() {
    let handler = test_handler_with_mock_alsa(MockAlsa::failing());
    let raw = r#"{"id":"v6","method":"get_volume","params":{}}"#;
    let resp: serde_json::Value =
        serde_json::from_str(&handler.dispatch(raw, 0)).unwrap();
    assert_eq!(resp["ok"], false);
    assert_eq!(resp["error"]["code"], "HARDWARE_ERROR");
}

// set_mic_gain / get_mic_gain

#[test]
fn set_mic_gain_stores_percentage_and_returns_it() {
    let handler = test_handler_with_mock_alsa(MockAlsa::new(50, 50));
    let raw = r#"{"id":"g1","method":"set_mic_gain","params":{"gain_pct":70}}"#;
    let resp: serde_json::Value =
        serde_json::from_str(&handler.dispatch(raw, 0)).unwrap();
    assert_eq!(resp["ok"], true);
    assert_eq!(resp["result"]["gain_pct"], 70);
}

#[test]
fn get_mic_gain_returns_stored_percentage() {
    let handler = test_handler_with_mock_alsa(MockAlsa::new(40, 35));
    let raw = r#"{"id":"g2","method":"get_mic_gain","params":{}}"#;
    let resp: serde_json::Value =
        serde_json::from_str(&handler.dispatch(raw, 0)).unwrap();
    assert_eq!(resp["ok"], true);
    assert_eq!(resp["result"]["gain_pct"], 35);
}

#[test]
fn set_mic_gain_rejects_out_of_range() {
    let handler = test_handler_with_mock_alsa(MockAlsa::new(50, 50));
    let raw = r#"{"id":"g3","method":"set_mic_gain","params":{"gain_pct":200}}"#;
    let resp: serde_json::Value =
        serde_json::from_str(&handler.dispatch(raw, 0)).unwrap();
    assert_eq!(resp["ok"], false);
    assert_eq!(resp["error"]["code"], "INVALID_PARAMS");
}

#[test]
fn set_mic_gain_missing_param_returns_invalid_params() {
    let handler = test_handler_with_mock_alsa(MockAlsa::new(50, 50));
    let raw = r#"{"id":"g4","method":"set_mic_gain","params":{}}"#;
    let resp: serde_json::Value =
        serde_json::from_str(&handler.dispatch(raw, 0)).unwrap();
    assert_eq!(resp["ok"], false);
    assert_eq!(resp["error"]["code"], "INVALID_PARAMS");
}

#[test]
fn set_mic_gain_hardware_error_returns_hardware_error_code() {
    let handler = test_handler_with_mock_alsa(MockAlsa::failing());
    let raw = r#"{"id":"g5","method":"set_mic_gain","params":{"gain_pct":50}}"#;
    let resp: serde_json::Value =
        serde_json::from_str(&handler.dispatch(raw, 0)).unwrap();
    assert_eq!(resp["ok"], false);
    assert_eq!(resp["error"]["code"], "HARDWARE_ERROR");
}

#[test]
fn get_mic_gain_hardware_error_returns_hardware_error_code() {
    let handler = test_handler_with_mock_alsa(MockAlsa::failing());
    let raw = r#"{"id":"g6","method":"get_mic_gain","params":{}}"#;
    let resp: serde_json::Value =
        serde_json::from_str(&handler.dispatch(raw, 0)).unwrap();
    assert_eq!(resp["ok"], false);
    assert_eq!(resp["error"]["code"], "HARDWARE_ERROR");
}

// Calibration handler tests

#[test]
fn get_calibration_returns_defaults() {
    let handler = test_handler();
    let raw = r#"{"id":"c1","method":"get_calibration","params":{}}"#;
    let resp: serde_json::Value =
        serde_json::from_str(&handler.dispatch(raw, 0)).unwrap();
    assert_eq!(resp["ok"], true);
    let motors = &resp["result"]["motors"];
    assert!(motors.is_array());
    assert_eq!(motors[0]["speed_scale"], 1.0);
    assert_eq!(motors[0]["deadband_pct"], 0.0);
    assert_eq!(motors[0]["reversed"], false);
    let servos = &resp["result"]["servos"];
    assert_eq!(servos["steering"]["trim_us"], 0);
    let grayscale = &resp["result"]["grayscale"];
    assert_eq!(grayscale[0]["white_raw"], 100);
    assert_eq!(grayscale[0]["black_raw"], 3000);
}

#[test]
fn set_motor_calibration_partial_update_only_changes_speed_scale() {
    let handler = test_handler();
    // Set a full entry first.
    handler
        .dispatch(
            r#"{"id":"c2a","method":"set_motor_calibration","params":{"channel":0,"speed_scale":1.5,"deadband_pct":5.0,"reversed":true}}"#,
            0,
        );
    // Partial update — only speed_scale.
    let raw = r#"{"id":"c2b","method":"set_motor_calibration","params":{"channel":0,"speed_scale":1.2}}"#;
    let resp: serde_json::Value =
        serde_json::from_str(&handler.dispatch(raw, 0)).unwrap();
    assert_eq!(resp["ok"], true);
    assert_eq!(resp["result"]["speed_scale"], 1.2);
    // deadband_pct and reversed should be preserved from the earlier set.
    assert_eq!(resp["result"]["deadband_pct"], 5.0);
    assert_eq!(resp["result"]["reversed"], true);
}

#[test]
fn set_motor_calibration_invalid_channel_returns_invalid_params() {
    let handler = test_handler();
    let raw = r#"{"id":"c3","method":"set_motor_calibration","params":{"channel":99,"speed_scale":1.0}}"#;
    let resp: serde_json::Value =
        serde_json::from_str(&handler.dispatch(raw, 0)).unwrap();
    assert_eq!(resp["ok"], false);
    assert_eq!(resp["error"]["code"], "INVALID_PARAMS");
}

#[test]
fn set_motor_calibration_rejects_out_of_range_speed_scale() {
    let handler = test_handler();
    let raw = r#"{"id":"c4","method":"set_motor_calibration","params":{"channel":0,"speed_scale":0.1}}"#;
    let resp: serde_json::Value =
        serde_json::from_str(&handler.dispatch(raw, 0)).unwrap();
    assert_eq!(resp["ok"], false);
    assert_eq!(resp["error"]["code"], "INVALID_PARAMS");
}

#[test]
fn set_motor_calibration_rejects_out_of_range_deadband_pct() {
    let handler = test_handler();
    // Below lower bound (negative).
    let raw = r#"{"id":"c_db1","method":"set_motor_calibration","params":{"channel":0,"deadband_pct":-1.0}}"#;
    let resp: serde_json::Value =
        serde_json::from_str(&handler.dispatch(raw, 0)).unwrap();
    assert_eq!(resp["ok"], false);
    assert_eq!(resp["error"]["code"], "INVALID_PARAMS");
    // Above upper bound.
    let raw = r#"{"id":"c_db2","method":"set_motor_calibration","params":{"channel":0,"deadband_pct":21.0}}"#;
    let resp: serde_json::Value =
        serde_json::from_str(&handler.dispatch(raw, 0)).unwrap();
    assert_eq!(resp["ok"], false);
    assert_eq!(resp["error"]["code"], "INVALID_PARAMS");
}

#[test]
fn set_servo_calibration_valid_steering_trim() {
    let handler = test_handler();
    let raw = r#"{"id":"c5","method":"set_servo_calibration","params":{"servo":"steering","trim_us":-50}}"#;
    let resp: serde_json::Value =
        serde_json::from_str(&handler.dispatch(raw, 0)).unwrap();
    assert_eq!(resp["ok"], true);
    assert_eq!(resp["result"]["servo"], "steering");
    assert_eq!(resp["result"]["trim_us"], -50);
}

#[test]
fn set_servo_calibration_invalid_name_returns_invalid_params() {
    let handler = test_handler();
    let raw = r#"{"id":"c6","method":"set_servo_calibration","params":{"servo":"unknown_servo","trim_us":0}}"#;
    let resp: serde_json::Value =
        serde_json::from_str(&handler.dispatch(raw, 0)).unwrap();
    assert_eq!(resp["ok"], false);
    assert_eq!(resp["error"]["code"], "INVALID_PARAMS");
}

#[test]
fn set_servo_calibration_rejects_out_of_range_trim_us() {
    let handler = test_handler();
    // Above upper bound (+501).
    let raw = r#"{"id":"c_trim1","method":"set_servo_calibration","params":{"servo":"steering","trim_us":501}}"#;
    let resp: serde_json::Value =
        serde_json::from_str(&handler.dispatch(raw, 0)).unwrap();
    assert_eq!(resp["ok"], false);
    assert_eq!(resp["error"]["code"], "INVALID_PARAMS");
    // Below lower bound (-501).
    let raw = r#"{"id":"c_trim2","method":"set_servo_calibration","params":{"servo":"steering","trim_us":-501}}"#;
    let resp: serde_json::Value =
        serde_json::from_str(&handler.dispatch(raw, 0)).unwrap();
    assert_eq!(resp["ok"], false);
    assert_eq!(resp["error"]["code"], "INVALID_PARAMS");
}

#[test]
fn calibrate_grayscale_white_capture_stores_value() {
    // ADC returns [0, 0] → raw = 0, well below default black_raw=3000.
    let handler = test_handler();
    let raw = r#"{"id":"c7","method":"calibrate_grayscale","params":{"channel":0,"surface":"white"}}"#;
    let resp: serde_json::Value =
        serde_json::from_str(&handler.dispatch(raw, 0)).unwrap();
    assert_eq!(resp["ok"], true);
    assert_eq!(resp["result"]["channel"], 0);
    assert_eq!(resp["result"]["surface"], "white");
    assert_eq!(resp["result"]["stored"], true);
}

#[test]
fn calibrate_grayscale_black_capture_stores_value() {
    // ADC returns [0x0F, 0xFF] → raw = 4095, well above default white_raw=100.
    let handler = test_handler_with_adc(0x0F, 0xFF);
    let raw = r#"{"id":"c8","method":"calibrate_grayscale","params":{"channel":1,"surface":"black"}}"#;
    let resp: serde_json::Value =
        serde_json::from_str(&handler.dispatch(raw, 0)).unwrap();
    assert_eq!(resp["ok"], true);
    assert_eq!(resp["result"]["channel"], 1);
    assert_eq!(resp["result"]["surface"], "black");
    assert_eq!(resp["result"]["stored"], true);
}

#[test]
fn calibrate_grayscale_constraint_violation_returns_invalid_params() {
    // ADC returns [0xFF, 0xFF] → raw = 65535.
    // Trying to store this as white_raw (65535 >= black_raw=3000) violates constraint.
    let handler = test_handler_with_adc(0xFF, 0xFF);
    let raw = r#"{"id":"c9","method":"calibrate_grayscale","params":{"channel":0,"surface":"white"}}"#;
    let resp: serde_json::Value =
        serde_json::from_str(&handler.dispatch(raw, 0)).unwrap();
    assert_eq!(resp["ok"], false);
    assert_eq!(resp["error"]["code"], "INVALID_PARAMS");
}

#[test]
fn calibrate_grayscale_invalid_channel_returns_invalid_params() {
    let handler = test_handler();
    let raw = r#"{"id":"c_gs_inv","method":"calibrate_grayscale","params":{"channel":3,"surface":"white"}}"#;
    let resp: serde_json::Value =
        serde_json::from_str(&handler.dispatch(raw, 0)).unwrap();
    assert_eq!(resp["ok"], false);
    assert_eq!(resp["error"]["code"], "INVALID_PARAMS");
}

#[test]
fn save_calibration_writes_to_configured_path() {
    let cal_path = "/tmp/robot/calibration.toml".to_string();
    let handler = test_handler_with_config(Config {
        calibration_path: cal_path.clone(),
        ..Default::default()
    });

    let raw = r#"{"id":"c10","method":"save_calibration","params":{}}"#;
    let resp: serde_json::Value =
        serde_json::from_str(&handler.dispatch(raw, 0)).unwrap();
    assert_eq!(resp["ok"], true);
    assert_eq!(resp["result"]["saved"], true);
    assert_eq!(resp["result"]["path"], cal_path.as_str());
    assert_eq!(handler.saved_to(), Some(cal_path), "calibration file must exist after save");
}

#[test]
fn reset_calibration_reverts_modified_store() {
    let handler = test_handler();
    // Apply a non-default value.
    handler
        .dispatch(
            r#"{"id":"r1","method":"set_motor_calibration","params":{"channel":0,"speed_scale":1.8}}"#,
            0,
        );
    // Reset.
    let raw = r#"{"id":"r2","method":"reset_calibration","params":{}}"#;
    let resp: serde_json::Value =
        serde_json::from_str(&handler.dispatch(raw, 0)).unwrap();
    assert_eq!(resp["ok"], true);
    assert_eq!(resp["result"]["reset"], true);

    // Verify reset to 1.0.
    let snap: serde_json::Value = serde_json::from_str(
        &handler
            .dispatch(r#"{"id":"r3","method":"get_calibration","params":{}}"#, 0),
    )
    .unwrap();
    assert_eq!(snap["result"]["motors"][0]["speed_scale"], 1.0);
}

#[test]
fn read_grayscale_normalized_returns_clamped_zero_for_raw_below_white() {
    // ADC returns [0, 0] → raw=0; white_raw=100; normalized = clamp((0-100)/(3000-100), 0,1) = 0.0
    let handler = test_handler();
    let raw = r#"{"id":"n1","method":"read_grayscale_normalized","params":{}}"#;
    let resp: serde_json::Value =
        serde_json::from_str(&handler.dispatch(raw, 0)).unwrap();
    assert_eq!(resp["ok"], true);
    let normalized = &resp["result"]["normalized"];
    assert!(normalized.is_array());
    for n in normalized.as_array().unwrap() {
        assert_eq!(*n, serde_json::Value::from(0.0));
    }
}

#[test]
fn read_grayscale_normalized_mid_range_value() {
    // ADC returns [0x08, 0x98] = 2200. With defaults white=100, black=3000:
    // normalized = (2200 - 100) / (3000 - 100) = 2100/2900 ≈ 0.7241
    let handler = test_handler_with_adc(0x08, 0x98);
    let raw = r#"{"id":"n2","method":"read_grayscale_normalized","params":{}}"#;
    let resp: serde_json::Value =
        serde_json::from_str(&handler.dispatch(raw, 0)).unwrap();
    assert_eq!(resp["ok"], true);
    let n0 = resp["result"]["normalized"][0].as_f64().unwrap();
    let expected = (2200.0_f64 - 100.0) / (3000.0 - 100.0);
    assert!(
        (n0 - expected).abs() < 0.005,
        "expected ≈{expected:.4}, got {n0}"
    );
}

// Routine handler tests

#[test]
fn start_routine_returns_started() {
    let handler = test_handler();
    let raw = r#"{"id":"rt1","method":"start_routine","params":{"name":"explore"}}"#;
    let resp: serde_json::Value =
        serde_json::from_str(&handler.dispatch(raw, 0)).unwrap();
    assert_eq!(resp["ok"], true);
    assert_eq!(resp["result"]["name"], "explore");
    assert!(resp["result"]["started_at_uptime_s"].is_number());
}

#[test]
fn start_routine_unknown_name_returns_invalid_params() {
    let handler = test_handler();
    let raw = r#"{"id":"rt2","method":"start_routine","params":{"name":"fly"}}"#;
    let resp: serde_json::Value =
        serde_json::from_str(&handler.dispatch(raw, 0)).unwrap();
    assert_eq!(resp["ok"], false);
    assert_eq!(resp["error"]["code"], "INVALID_PARAMS");
}

#[test]
fn start_routine_already_running_returns_already_running() {
    let handler = test_handler();
    let raw = r#"{"id":"rt3a","method":"start_routine","params":{"name":"explore"}}"#;
    handler.dispatch(raw, 0);
    let raw2 = r#"{"id":"rt3b","method":"start_routine","params":{"name":"explore"}}"#;
    let resp: serde_json::Value =
        serde_json::from_str(&handler.dispatch(raw2, 0)).unwrap();
    assert_eq!(resp["ok"], false);
    assert_eq!(resp["error"]["code"], "ALREADY_RUNNING");
}

#[test]
fn stop_routine_returns_stats() {
    let handler = test_handler();
    let start_raw = r#"{"id":"rt4a","method":"start_routine","params":{"name":"explore"}}"#;
    handler.dispatch(start_raw, 0);
    let stop_raw = r#"{"id":"rt4b","method":"stop_routine","params":{}}"#;
    let resp: serde_json::Value =
        serde_json::from_str(&handler.dispatch(stop_raw, 0)).unwrap();
    assert_eq!(resp["ok"], true);
    assert_eq!(resp["result"]["name"], "explore");
    assert!(resp["result"]["ran_for_s"].is_number());
    assert!(resp["result"]["obstacles_avoided"].is_number());
    assert!(resp["result"]["cliffs_avoided"].is_number());
    assert!(resp["result"]["stop_reason"].is_string());
}

#[test]
fn stop_routine_not_running_returns_invalid_params() {
    let handler = test_handler();
    let raw = r#"{"id":"rt5","method":"stop_routine","params":{}}"#;
    let resp: serde_json::Value =
        serde_json::from_str(&handler.dispatch(raw, 0)).unwrap();
    assert_eq!(resp["ok"], false);
    assert_eq!(resp["error"]["code"], "INVALID_PARAMS");
}

#[test]
fn get_routine_status_idle_returns_not_running() {
    let handler = test_handler();
    let raw = r#"{"id":"rt6","method":"get_routine_status","params":{}}"#;
    let resp: serde_json::Value =
        serde_json::from_str(&handler.dispatch(raw, 0)).unwrap();
    assert_eq!(resp["ok"], true);
    assert_eq!(resp["result"]["running"], false);
    assert!(resp["result"]["name"].is_null());
    assert!(resp["result"]["elapsed_s"].is_null());
}

#[test]
fn get_routine_status_running_returns_running() {
    let handler = test_handler();
    let start_raw = r#"{"id":"rt7a","method":"start_routine","params":{"name":"explore"}}"#;
    handler.dispatch(start_raw, 0);
    let raw = r#"{"id":"rt7b","method":"get_routine_status","params":{}}"#;
    let resp: serde_json::Value =
        serde_json::from_str(&handler.dispatch(raw, 0)).unwrap();
    assert_eq!(resp["ok"], true);
    assert_eq!(resp["result"]["running"], true);
    assert_eq!(resp["result"]["name"], "explore");
    assert!(resp["result"]["elapsed_s"].is_number());
}

// Beyond the single request.

#[test]
fn every_answer_carries_the_id_of_its_request() {
    let daemon = test_handler();
    for method in ["health", "drive", "reset_mcu", "no_such_method", "get_calibration"] {
        let raw = format!(r#"{{"id":"id-{method}","method":"{method}"}}"#);
        assert_eq!(daemon.ask(&raw, 1)["id"], format!("id-{method}").as_str());
    }
    let resp = daemon.ask("{", 1);
    assert_eq!(resp["id"], "");
    assert!(resp["error"]["message"].as_str().unwrap().starts_with("malformed JSON: "));
}

#[test]
fn unknown_methods_are_named() {
    let resp = test_handler().call("Health", "{}", 0);
    assert_eq!(resp["error"]["code"], "UNKNOWN_METHOD");
    assert_eq!(resp["error"]["message"], "method 'Health' not recognized");
}

#[test]
fn uptime_is_in_whole_seconds() {
    let daemon = test_handler();
    daemon.wait(999);
    assert_eq!(daemon.call("health", "null", 0)["result"]["uptime_s"], 5);
    daemon.wait(1);
    assert_eq!(daemon.call("health", "[]", 0)["result"]["uptime_s"], 6);
}

#[test]
fn leases_run_down_and_are_taken_over() {
    let daemon = test_handler();
    daemon.call("set_servo_pulse_us", r#"{"channel":3,"pulse_us":500,"ttl_ms":100}"#, 7);
    daemon.wait(40);
    let resp = daemon.call("get_servo_status", "{}", 0);
    let leases = resp["result"]["active_leases"].as_array().unwrap();
    assert_eq!(leases.len(), 1);
    assert_eq!(leases[0]["ttl_remaining_ms"], 60);
    assert_eq!(leases[0]["conn_id"], 7);
    daemon.call("set_servo_angle", r#"{"channel":3,"angle_deg":0,"ttl_ms":null}"#, 8);
    let resp = daemon.call("get_servo_status", "{}", 0);
    assert_eq!(resp["result"]["active_leases"][0]["ttl_remaining_ms"], 500);
    assert_eq!(resp["result"]["active_leases"][0]["conn_id"], 8);
    daemon.wait(10_000);
    let resp = daemon.call("get_servo_status", "{}", 0);
    assert_eq!(resp["result"]["active_leases"][0]["ttl_remaining_ms"], 0);
}

#[test]
fn ttl_bounds() {
    let daemon = test_handler();
    for (ttl, ok) in [("99", false), ("100", true), ("5000", true), ("5001", false), ("\"500\"", false), ("500.0", false), ("-1", false)] {
        let params = format!(r#"{{"channel":0,"pulse_us":1500,"ttl_ms":{ttl}}}"#);
        let resp = daemon.call("set_servo_pulse_us", &params, 1);
        assert_eq!(resp["ok"], ok, "{ttl}");
        if !ok {
            assert_eq!(resp["error"]["message"], "ttl_ms must be an integer 100–5000");
        }
    }
    // A default out of bounds is brought back into them.
    for (default, expected) in [(1, 100), (90_000, 5000), (700, 700)] {
        let daemon = test_handler_with_config(Config { servo_default_ttl_ms: default, ..Default::default() });
        daemon.call("set_servo_pulse_us", r#"{"channel":0,"pulse_us":1500}"#, 1);
        let resp = daemon.call("get_servo_status", "{}", 0);
        assert_eq!(resp["result"]["active_leases"][0]["ttl_remaining_ms"], expected);
    }
}

#[test]
fn refused_parameters_are_explained() {
    let daemon = test_handler_with_adc(0x0B, 0xB8);
    for (method, params, message) in [
        ("read_adc", r#"{"channel":"0"}"#, "channel is required and must be 0–7"),
        ("set_servo_pulse_us", r#"{"channel":12,"pulse_us":1500}"#, "channel is required and must be 0–11"),
        ("set_servo_pulse_us", r#"{"channel":0,"pulse_us":499}"#, "pulse_us is required and must be 500–2500"),
        ("set_servo_pulse_us", r#"{"channel":0,"pulse_us":2501}"#, "pulse_us is required and must be 500–2500"),
        ("set_servo_angle", r#"{"channel":0,"angle_deg":180.1}"#, "angle_deg is required and must be 0.0–180.0"),
        ("read_gpio", "{}", "pin is required"),
        ("read_gpio", r#"{"pin":"d4"}"#, "unknown pin 'd4'; valid: D2, D3, D4, D5, MCURST, SW, LED, SPEAKER_EN"),
        ("write_gpio", r#"{"pin":"X","high":1}"#, "unknown pin 'X'; valid output pins: D2, D4, D5, MCURST, LED, SPEAKER_EN"),
        ("write_gpio", r#"{"pin":"D4","high":1}"#, "high is required and must be a boolean"),
        ("set_motor_speed", "{}", "channel is required"),
        ("set_motor_speed", r#"{"channel":2,"speed_pct":0}"#, "channel 2 is not configured; 2 motor(s) available"),
        ("set_motor_speed", r#"{"channel":1}"#, "speed_pct is required"),
        ("set_motor_speed", r#"{"channel":1,"speed_pct":-100.5}"#, "speed_pct -100.5 is out of range -100.0..=100.0"),
        ("set_motor_speed", r#"{"channel":1,"speed_pct":101}"#, "speed_pct 101 is out of range -100.0..=100.0"),
        ("drive", r#"{"speed_pct":100.01}"#, "speed_pct is required and must be -100.0–100.0"),
        ("set_volume", r#"{"volume_pct":50.5}"#, "volume_pct is required and must be 0–100"),
        ("set_mic_gain", r#"{"gain_pct":-1}"#, "gain_pct is required and must be 0–100"),
        ("set_motor_calibration", "{}", "channel is required"),
        ("set_motor_calibration", r#"{"channel":7}"#, "channel 7 is not configured; 2 motor(s) available"),
        ("set_motor_calibration", r#"{"channel":0,"speed_scale":2.1,"deadband_pct":30}"#, "speed_scale must be in [0.5, 2.0]"),
        ("set_motor_calibration", r#"{"channel":0,"deadband_pct":30}"#, "deadband_pct must be in [0.0, 20.0]"),
        ("set_servo_calibration", "{}", "servo is required"),
        ("set_servo_calibration", r#"{"servo":"arm"}"#, "servo 'arm' not recognised; valid: steering, camera_pan, camera_tilt"),
        ("set_servo_calibration", r#"{"servo":"steering","trim_us":1.5}"#, "trim_us is required and must be an integer"),
        ("set_servo_calibration", r#"{"servo":"steering","trim_us":501}"#, "trim_us must be in [-500, 500]"),
        ("calibrate_grayscale", r#"{"channel":3}"#, "channel is required and must be 0–2"),
        ("calibrate_grayscale", r#"{"channel":2}"#, "surface is required"),
        ("calibrate_grayscale", r#"{"channel":2,"surface":"grey"}"#, "surface 'grey' not recognised; valid: white, black"),
        ("calibrate_grayscale", r#"{"channel":2,"surface":"white"}"#, "white_raw (3000) must be < current black_raw (3000); recapture black surface first or adjust surfaces"),
        ("start_routine", "{}", "name is required"),
        ("start_routine", r#"{"name":"explore","speed_pct":0.5}"#, "speed_pct 0.5 is out of range 1.0–100.0"),
        ("start_routine", r#"{"name":"explore","obstacle_threshold_cm":0}"#, "obstacle_threshold_cm must be > 0.0"),
        ("start_routine", r#"{"name":"explore","cliff_threshold_normalized":1.5}"#, "cliff_threshold_normalized 1.5 is out of range 0.0–1.0"),
        ("start_routine", r#"{"name":"fly"}"#, "routine 'fly' is not recognised; valid: explore"),
        ("stop_routine", "{}", "no routine is currently running"),
    ] {
        let resp = daemon.call(method, params, 1);
        assert_eq!(resp["ok"], false, "{method} {params}");
        assert_eq!(resp["error"]["code"], "INVALID_PARAMS", "{method} {params}");
        assert_eq!(resp["error"]["message"], message);
    }
    // None of them has left a trace.
    assert_eq!(daemon.call("get_servo_status", "{}", 0)["result"]["active_leases"], list(&[]));
    assert_eq!(daemon.call("get_motor_status", "{}", 0)["result"]["active_leases"], list(&[]));
    let snap = daemon.call("get_calibration", "{}", 0);
    assert_eq!(snap["result"]["motors"][0]["speed_scale"], 1.0);
    assert_eq!(snap["result"]["grayscale"][2]["white_raw"], 100);
}

#[test]
fn bounds_of_parameters_are_accepted() {
    let daemon = test_handler();
    for (method, params) in [
        ("read_adc", r#"{"channel":7}"#),
        ("set_servo_pulse_us", r#"{"channel":11,"pulse_us":2500}"#),
        ("set_servo_angle", r#"{"channel":0,"angle_deg":180}"#),
        ("set_servo_angle", r#"{"channel":0,"angle_deg":-0.0}"#),
        ("set_motor_speed", r#"{"channel":1,"speed_pct":-100}"#),
        ("drive", r#"{"speed_pct":100}"#),
        ("set_volume", r#"{"volume_pct":100}"#),
        ("set_mic_gain", r#"{"gain_pct":0}"#),
        ("set_motor_calibration", r#"{"channel":1,"speed_scale":2,"deadband_pct":20}"#),
        ("set_motor_calibration", r#"{"channel":1,"speed_scale":0.5,"deadband_pct":0}"#),
        ("set_servo_calibration", r#"{"servo":"camera_tilt","trim_us":-500}"#),
        ("start_routine", r#"{"name":"explore","speed_pct":1,"cliff_threshold_normalized":1}"#),
    ] {
        assert_eq!(daemon.call(method, params, 1)["ok"], true, "{method} {params}");
    }
}

#[test]
fn servos_that_are_not_configured_cannot_be_named() {
    let mut config = Config::default();
    config.servos.steering = None;
    config.servos.camera_pan = None;
    config.servos.camera_tilt = None;
    let daemon = test_handler_with_config(config);
    for (method, message) in [
        ("steer", "steering servo is not configured"),
        ("pan_camera", "camera_pan servo is not configured"),
        ("tilt_camera", "camera_tilt servo is not configured"),
    ] {
        let resp = daemon.call(method, r#"{"angle_deg":90}"#, 1);
        assert_eq!(resp["error"]["message"], message);
    }
    // They can be calibrated all the same.
    let resp = daemon.call("set_servo_calibration", r#"{"servo":"steering","trim_us":9}"#, 1);
    assert_eq!(resp["ok"], true);
}

#[test]
fn a_robot_without_motors_does_not_drive() {
    let daemon = test_handler_with_config(Config { motors: Vec::new(), ..Default::default() });
    let resp = daemon.call("drive", r#"{"speed_pct":10}"#, 1);
    assert_eq!(resp["error"]["message"], "no motors configured");
    assert_eq!(daemon.call("stop_all_motors", "{}", 1)["result"]["stopped"], 0);
}

#[test]
fn a_failing_motor_stops_the_others() {
    let daemon = test_handler();
    daemon.with(|h| h.broken_motors = vec![13]);
    let resp = daemon.call("drive", r#"{"speed_pct":30}"#, 7);
    assert_eq!(resp["error"]["code"], "HARDWARE_ERROR");
    assert_eq!(resp["error"]["message"], "channel 1: stalled");
    assert_eq!(daemon.idled(), vec![12]);
    assert_eq!(daemon.call("get_motor_status", "{}", 0)["result"]["active_leases"], list(&[]));
}

#[test]
fn all_motors_are_tried_and_rollback_failures_are_told() {
    let daemon = test_handler();
    daemon.with(|h| {
        h.broken_motors = vec![12];
        h.idle_fails = true;
    });
    let resp = daemon.call("drive", r#"{"speed_pct":30}"#, 7);
    assert_eq!(
        resp["error"]["message"],
        "channel 0: stalled; channel 1: rollback failed: idle failed"
    );
    assert_eq!(daemon.commands().len(), 2);
    assert_eq!(daemon.idled(), vec![13]);
}

#[test]
fn commands_carry_calibration_and_direction() {
    let daemon = test_handler();
    daemon.call("set_motor_calibration", r#"{"channel":1,"speed_scale":1.5,"deadband_pct":4,"reversed":true}"#, 0);
    daemon.call("drive", r#"{"speed_pct":-40}"#, 7);
    let commands = daemon.commands();
    assert_eq!(commands[0].pwm_channel, 12);
    assert_eq!(commands[0].dir_pin_bcm, 24);
    assert!(!commands[0].reversed);
    assert_eq!(float(commands[0].speed_scale), 1.0);
    // Turned round by configuration and by calibration: as if by neither.
    assert_eq!(commands[1].pwm_channel, 13);
    assert!(!commands[1].reversed);
    assert_eq!(float(commands[1].speed_pct), -40.0);
    assert_eq!(float(commands[1].speed_scale), 1.5);
    assert_eq!(float(commands[1].deadband_pct), 4.0);
}

#[test]
fn stopping_frees_the_motors_that_stop() {
    let daemon = test_handler();
    daemon.call("drive", r#"{"speed_pct":30}"#, 7);
    daemon.with(|h| {
        h.broken_motors = vec![13];
        h.bus_fails = true;
    });
    let resp = daemon.call("stop_all_motors", "{}", 7);
    assert_eq!(resp["error"]["code"], "HARDWARE_ERROR");
    assert_eq!(resp["error"]["message"], "channel 1: idle failed");
    assert_eq!(daemon.idled(), vec![12, 13]);
    let resp = daemon.call("get_motor_status", "{}", 0);
    let leases = resp["result"]["active_leases"].as_array().unwrap();
    assert_eq!(leases.len(), 1);
    assert_eq!(leases[0]["channel"], 1);
}

#[test]
fn a_failing_servo_is_not_leased() {
    let daemon = test_handler();
    daemon.with(|h| h.bus_fails = true);
    for (method, params) in [
        ("set_servo_pulse_us", r#"{"channel":0,"pulse_us":1500}"#),
        ("set_servo_angle", r#"{"channel":0,"angle_deg":10}"#),
        ("steer", r#"{"angle_deg":10}"#),
    ] {
        let resp = daemon.call(method, params, 1);
        assert_eq!(resp["error"]["code"], "HARDWARE_ERROR");
        assert_eq!(resp["error"]["message"], "bus error");
    }
    assert_eq!(daemon.call("get_servo_status", "{}", 0)["result"]["active_leases"], list(&[]));
}

#[test]
fn trims_take_effect_at_once() {
    let daemon = test_handler();
    daemon.call("set_servo_calibration", r#"{"servo":"steering","trim_us":-50}"#, 0);
    let resp = daemon.call("steer", r#"{"angle_deg":90}"#, 1);
    assert_eq!(resp["result"]["pulse_us"], 1450);
    let resp = daemon.call("steer", r#"{"angle_deg":0}"#, 1);
    assert_eq!(resp["result"]["pulse_us"], 500);
    let resp = daemon.call("pan_camera", r#"{"angle_deg":90}"#, 1);
    assert_eq!(resp["result"]["pulse_us"], 1500);
    // A channel that is not set by name has no trim.
    let resp = daemon.call("set_servo_angle", r#"{"channel":2,"angle_deg":90}"#, 1);
    assert_eq!(resp["result"]["pulse_us"], 1500);
    daemon.call("set_servo_calibration", r#"{"servo":"steering","trim_us":500}"#, 0);
    let resp = daemon.call("steer", r#"{"angle_deg":180}"#, 1);
    assert_eq!(resp["result"]["pulse_us"], 2500);
}

#[test]
fn disconnecting_frees_what_the_client_held() {
    let daemon = test_handler();
    daemon.call("set_servo_pulse_us", r#"{"channel":3,"pulse_us":1500}"#, 1);
    daemon.call("set_servo_pulse_us", r#"{"channel":4,"pulse_us":1500}"#, 2);
    daemon.call("steer", r#"{"angle_deg":90}"#, 1);
    daemon.call("drive", r#"{"speed_pct":30}"#, 1);
    daemon.call("set_motor_speed", r#"{"channel":0,"speed_pct":30}"#, 2);
    assert_eq!(daemon.disconnect(1), (vec![2, 3], vec![13]));
    assert_eq!(daemon.disconnect(1), (vec![], vec![]));
    let resp = daemon.call("get_servo_status", "{}", 0);
    assert_eq!(resp["result"]["active_leases"].as_array().unwrap().len(), 1);
    assert_eq!(resp["result"]["active_leases"][0]["channel"], 4);
    let resp = daemon.call("get_motor_status", "{}", 0);
    assert_eq!(resp["result"]["active_leases"].as_array().unwrap().len(), 1);
    assert_eq!(resp["result"]["active_leases"][0]["channel"], 0);
}

#[test]
fn resets_keep_a_second_apart() {
    let daemon = test_handler();
    daemon.with(|h| h.bus_fails = true);
    let resp = daemon.call("reset_mcu", "{}", 0);
    assert_eq!(resp["error"]["message"], "gpio error");
    daemon.with(|h| h.bus_fails = false);
    // An attempt that failed does not count.
    assert_eq!(daemon.call("reset_mcu", "{}", 0)["ok"], true);
    daemon.wait(999);
    let resp = daemon.call("reset_mcu", "{}", 0);
    assert_eq!(resp["error"]["message"], "MCU reset rate-limited; retry after 1 ms");
    daemon.wait(1);
    assert_eq!(daemon.call("reset_mcu", "{}", 0)["ok"], true);
    daemon.wait(2500);
    let resp = daemon.call("get_mcu_status", "{}", 0);
    assert_eq!(resp["result"]["resets_since_start"], 2);
    assert_eq!(resp["result"]["last_reset_s_ago"], 2);
}

#[test]
fn the_first_sensor_that_fails_ends_the_scan() {
    let daemon = test_handler();
    daemon.with(|h| h.bus_fails = true);
    for method in ["read_grayscale", "read_grayscale_normalized"] {
        let resp = daemon.call(method, "{}", 0);
        assert_eq!(resp["error"]["code"], "HARDWARE_ERROR");
        assert_eq!(resp["error"]["message"], "grayscale channel 0: bus error");
    }
    let resp = daemon.call("calibrate_grayscale", r#"{"channel":1,"surface":"black"}"#, 0);
    assert_eq!(resp["error"]["message"], "bus error");
}

#[test]
fn captured_surfaces_change_what_is_normalized() {
    let daemon = test_handler_with_adc(0x00, 0xC8);
    let resp = daemon.call("calibrate_grayscale", r#"{"channel":1,"surface":"white"}"#, 0);
    assert_eq!(resp["result"]["raw_value"], 200);
    assert_eq!(resp["result"]["adc_channel"], 1);
    daemon.with(|h| h.adc = [0x01, 0x2C]);
    daemon.call("calibrate_grayscale", r#"{"channel":1,"surface":"black"}"#, 0);
    daemon.with(|h| h.adc = [0x00, 0xFA]);
    let resp = daemon.call("read_grayscale_normalized", "{}", 0);
    assert_eq!(resp["result"]["normalized"][1], 0.5);
    assert_eq!(resp["result"]["normalized"][0], 150.0 / 2900.0);
    // Black below white is refused, and nothing changes.
    daemon.with(|h| h.adc = [0x00, 0xC8]);
    let resp = daemon.call("calibrate_grayscale", r#"{"channel":1,"surface":"black"}"#, 0);
    assert_eq!(
        resp["error"]["message"],
        "black_raw (200) must be > current white_raw (200); recapture white surface first or adjust surfaces"
    );
    let snap = daemon.call("get_calibration", "{}", 0);
    assert_eq!(snap["result"]["grayscale"][1]["white_raw"], 200);
    assert_eq!(snap["result"]["grayscale"][1]["black_raw"], 300);
    daemon.with(|h| h.adc = [0x0F, 0xFF]);
    let resp = daemon.call("read_grayscale_normalized", "{}", 0);
    assert_eq!(resp["result"]["normalized"][1], 1.0);
}

#[test]
fn calibration_is_reported_by_name_and_channel() {
    let mut config = Config::default();
    config.sensors.grayscale = [5, 6, 7];
    let daemon = test_handler_with_config(config);
    daemon.call("set_servo_calibration", r#"{"servo":"camera_pan","trim_us":12}"#, 0);
    let snap = daemon.call("get_calibration", "{}", 0);
    assert_eq!(snap["result"]["servos"]["camera_pan"]["trim_us"], 12);
    assert_eq!(snap["result"]["servos"]["camera_tilt"]["trim_us"], 0);
    assert_eq!(snap["result"]["servos"].as_object().unwrap().len(), 3);
    assert_eq!(snap["result"]["grayscale"][2]["adc_channel"], 7);
    assert_eq!(snap["result"]["motors"].as_array().unwrap().len(), 2);
    daemon.call("reset_calibration", "{}", 0);
    let snap = daemon.call("get_calibration", "{}", 0);
    assert_eq!(snap["result"]["servos"]["camera_pan"]["trim_us"], 0);
}

#[test]
fn an_aborted_routine_holds_nothing() {
    let daemon = test_handler();
    daemon.call("start_routine", r#"{"name":"explore"}"#, 9);
    // The routine holds its motors under connection 0.
    daemon.call("drive", r#"{"speed_pct":30}"#, 0);
    daemon.call("set_motor_speed", r#"{"channel":1,"speed_pct":30}"#, 4);
    daemon.with(|h| h.routine_hangs = true);
    let resp = daemon.call("stop_routine", "{}", 9);
    assert_eq!(resp["result"]["stop_reason"], "error");
    assert_eq!(resp["result"]["ran_for_s"], 3);
    assert_eq!(resp["result"]["obstacles_avoided"], 0);
    assert_eq!(daemon.idled(), vec![12, 13]);
    let resp = daemon.call("get_motor_status", "{}", 0);
    assert_eq!(resp["result"]["active_leases"].as_array().unwrap().len(), 1);
    assert_eq!(resp["result"]["active_leases"][0]["conn_id"], 4);
}

#[test]
fn a_crashed_routine_is_told() {
    let daemon = test_handler();
    daemon.call("start_routine", r#"{"name":"explore"}"#, 9);
    daemon.with(|h| h.routine_crashes = true);
    let resp = daemon.call("stop_routine", "{}", 9);
    assert_eq!(resp["result"]["stop_reason"], "error");
    assert_eq!(resp["result"]["ran_for_s"], 1);
    assert_eq!(resp["result"]["cliffs_avoided"], 0);
    // Its motors are stopped all the same.
    assert_eq!(daemon.idled(), vec![12, 13]);
    assert_eq!(daemon.call("get_routine_status", "{}", 9)["result"]["running"], false);
}

#[test]
fn work_that_is_lost_is_an_internal_error() {
    let handler = Handler::new(Config::default(), VERSION.to_string(), None);
    let lost = || "task panicked".to_string();
    for response in [
        handler.finish_set_volume("a".to_string(), 1, Handed::Lost(lost())),
        handler.finish_get_volume("a".to_string(), Handed::Lost(lost())),
        handler.finish_set_mic_gain("a".to_string(), 1, Handed::Lost(lost())),
        handler.finish_get_mic_gain("a".to_string(), Handed::Lost(lost())),
        handler.finish_save_calibration("a".to_string(), Handed::Lost(lost())),
    ] {
        let resp = response_value(response);
        assert_eq!(resp["error"]["code"], "INTERNAL_ERROR");
        assert_eq!(resp["error"]["message"], "task panicked");
    }
    let resp = response_value(
        handler.finish_save_calibration("a".to_string(), Handed::Failed("disk full".to_string())),
    );
    assert_eq!(resp["error"]["code"], "HARDWARE_ERROR");
    let resp = response_value(handler.finish_get_volume(
        "a".to_string(),
        Handed::Failed(AudioError::Parse("x".to_string())),
    ));
    assert_eq!(resp["error"]["code"], "INTERNAL_ERROR");
    assert_eq!(resp["error"]["message"], "failed to parse amixer output: x");
}

#[test]
fn pins_that_fail_are_told() {
    let handler = Handler::new(Config::default(), VERSION.to_string(), None);
    let resp = response_value(handler.finish_speaker(
        "a".to_string(),
        true,
        20,
        Err(GpioError::Gpio("no chip".to_string())),
    ));
    assert_eq!(resp["error"]["code"], "HARDWARE_ERROR");
    assert_eq!(resp["error"]["message"], "no chip");
    let resp = response_value(handler.finish_read_ultrasonic(
        "a".to_string(),
        Err(UltrasonicError::Gpio(GpioError::Gpio("no chip".to_string()))),
    ));
    assert_eq!(resp["error"]["code"], "HARDWARE_ERROR");
    let resp = response_value(handler.finish_read_ultrasonic("a".to_string(), Err(UltrasonicError::NoEcho)));
    assert_eq!(
        resp["error"]["message"],
        "no valid echo received (object out of sensor range 2–400 cm)"
    );
    let resp = response_value(handler.finish_get_battery_voltage(
        "a".to_string(),
        Err(HatError::InvalidChannel("bad".to_string())),
    ));
    // Whatever the reason, the battery is hardware.
    assert_eq!(resp["error"]["code"], "HARDWARE_ERROR");
}

#[test]
fn a_routine_that_stops_in_time_stops_its_own_motors() {
    let daemon = test_handler();
    daemon.call("start_routine", r#"{"name":"explore"}"#, 9);
    let resp = daemon.call("stop_routine", "{}", 9);
    assert_eq!(resp["result"]["stop_reason"], "commanded");
    assert_eq!(resp["result"]["obstacles_avoided"], 4);
    assert_eq!(resp["result"]["cliffs_avoided"], 5);
    assert!(daemon.idled().is_empty());
}

#[test]
fn a_routine_ends_for_one_of_three_reasons() {
    for (reason, word) in [
        (StopReason::Commanded, "commanded"),
        (StopReason::Timeout, "timeout"),
        (StopReason::Error, "error"),
    ] {
        assert_eq!(reason.as_str(), word);
        let mut handler = Handler::new(Config::default(), VERSION.to_string(), None);
        let resp = response_value(handler.finish_stop_routine(
            "s".to_string(),
            "explore".to_string(),
            StopOutcome::Stopped {
                ran_for_s: 7,
                stats: RoutineStats { obstacles_avoided: 1, cliffs_avoided: 2 },
                stop_reason: reason,
            },
        ));
        assert_eq!(resp["id"], "s");
        assert_eq!(resp["result"]["stop_reason"], word);
        assert_eq!(resp["result"]["obstacles_avoided"], 1);
    }
}

#[test]
fn a_routine_is_stopped_once() {
    let daemon = test_handler();
    daemon.call("start_routine", r#"{"name":"explore"}"#, 9);
    assert_eq!(daemon.call("stop_routine", "{}", 9)["ok"], true);
    let resp = daemon.call("stop_routine", "{}", 9);
    assert_eq!(resp["error"]["code"], "INVALID_PARAMS");
}

#[test]
fn calibration_survives_a_restart() {
    let daemon = test_handler_with_adc(0x00, 0xC8);
    daemon.call("set_motor_calibration", r#"{"channel":1,"speed_scale":1.5,"reversed":true}"#, 0);
    daemon.call("set_servo_calibration", r#"{"servo":"steering","trim_us":33}"#, 0);
    daemon.call("calibrate_grayscale", r#"{"channel":2,"surface":"white"}"#, 0);
    let before = daemon.call("get_calibration", "{}", 0);
    let saved = {
        let inner = daemon.inner.borrow();
        let store = &inner.handler.calibration;
        CalibrationStore {
            motors: store.motors.clone(),
            grayscale: store.grayscale,
            servos: store.servos.clone(),
        }
    };
    let restarted = test_handler();
    restarted.inner.borrow_mut().handler =
        Handler::new(Config::default(), VERSION.to_string(), Some(saved));
    assert_eq!(restarted.call("get_calibration", "{}", 0), before);
}

#[test]
fn every_finished_request_carries_its_id() {
    let daemon = test_handler();
    for (method, params) in [
        ("get_battery_voltage", "{}"),
        ("read_adc", r#"{"channel":1}"#),
        ("set_servo_pulse_us", r#"{"channel":1,"pulse_us":1500}"#),
        ("set_servo_angle", r#"{"channel":1,"angle_deg":10}"#),
        ("steer", r#"{"angle_deg":10}"#),
        ("read_gpio", r#"{"pin":"SW"}"#),
        ("write_gpio", r#"{"pin":"SW","high":true}"#),
        ("reset_mcu", "{}"),
        ("set_motor_speed", r#"{"channel":0,"speed_pct":5}"#),
        ("drive", r#"{"speed_pct":5}"#),
        ("stop_all_motors", "{}"),
        ("read_grayscale", "{}"),
        ("read_grayscale_normalized", "{}"),
        ("read_ultrasonic", "{}"),
        ("enable_speaker", "{}"),
        ("set_volume", r#"{"volume_pct":5}"#),
        ("get_volume", "{}"),
        ("set_mic_gain", r#"{"gain_pct":5}"#),
        ("get_mic_gain", "{}"),
        ("calibrate_grayscale", r#"{"channel":0,"surface":"black"}"#),
        ("save_calibration", "{}"),
        ("start_routine", r#"{"name":"explore"}"#),
        ("get_routine_status", "{}"),
        ("stop_routine", "{}"),
    ] {
        let raw = format!(r#"{{"id":"id-{method}","method":"{method}","params":{params}}}"#);
        let resp = daemon.ask(&raw, 1);
        assert_eq!(resp["id"], format!("id-{method}").as_str());
        assert_ne!(resp["error"]["code"], "UNKNOWN_METHOD");
    }
}
