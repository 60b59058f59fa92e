//! Configuration of the daemon: compiled defaults, overridden by a file, and
//! that by environment variables.

use vstd::prelude::*;
use vstd::string::*;

use crate::number;
use crate::number::{PrintedReal, PrintedRealView, Real};
use crate::text;

verus! {

// ---------------------------------------------------------------------------
// The parts
// ---------------------------------------------------------------------------

/// Configuration for a single motor channel.
///
/// The place of an entry in the list of motors is the index that clients use.
#[derive(Debug, Clone, Copy, PartialEq, Eq, Structural)]
pub struct MotorConfig {
    /// PWM channel for motor speed control (12 to 15).
    pub pwm_channel: u8,
    /// BCM pin number for motor direction (high = forward, low = backward).
    pub dir_pin_bcm: u8,
    /// Invert the direction signal (the motor is wired with reversed polarity).
    pub reversed: bool,
}

/// Named servo channels. `None` disables a servo.
#[derive(Debug, Clone, Copy, PartialEq, Eq, Structural)]
pub struct ServoChannels {
    /// Camera pan servo (left/right).
    pub camera_pan: Option<u8>,
    /// Camera tilt servo (up/down).
    pub camera_tilt: Option<u8>,
    /// Front-wheel steering servo.
    pub steering: Option<u8>,
}

impl Default for ServoChannels {
    fn default() -> (r: Self)
        ensures
            r == default_servos(),
            r.camera_pan == Some(0u8),
            r.camera_tilt == Some(1u8),
            r.steering == Some(2u8),
    {
        ServoChannels { camera_pan: Some(0), camera_tilt: Some(1), steering: Some(2) }
    }
}

/// The servo channels of a robot that configures none.
pub open spec fn default_servos() -> ServoChannels {
    ServoChannels { camera_pan: Some(0), camera_tilt: Some(1), steering: Some(2) }
}

/// Named ADC channels.
#[derive(Debug, Clone, Copy, PartialEq, Eq)]
pub struct SensorChannels {
    /// Grayscale sensors: left, center, right.
    pub grayscale: [u8; 3],
}

impl Default for SensorChannels {
    fn default() -> (r: Self)
        ensures
            r.grayscale@ == default_grayscale(),
            r.grayscale@ == seq![0u8, 1u8, 2u8],
    {
        let r = SensorChannels { grayscale: [0, 1, 2] };
        assert(r.grayscale@ =~= default_grayscale());
        r
    }
}

/// The grayscale channels of a robot that configures none.
pub open spec fn default_grayscale() -> Seq<u8> {
    seq![0u8, 1u8, 2u8]
}

/// Mixer configuration for the speaker and the microphone.
///
/// Cards are found by name: their numbers depend on the order in which drivers
/// load. An explicit index overrides the name.
#[derive(Debug, Clone, PartialEq)]
pub struct AudioConfig {
    /// Explicit card index for the speaker; `None` = find it by name.
    pub output_card_index: Option<u8>,
    /// Part of the speaker card's name, in any letter case. Without a match the
    /// default card is used.
    pub output_card_name: String,
    /// Mixer control for the output volume.
    pub output_control: String,
    /// Explicit card index for the microphone; `None` = find it by name.
    pub input_card_index: Option<u8>,
    /// Part of the microphone card's name, in any letter case.
    pub input_card_name: String,
    /// Capture controls driven for the microphone gain, in order of priority.
    /// Those that the card lacks are skipped.
    pub input_controls: Vec<String>,
}

/// An `AudioConfig` with its texts as sequences of characters.
pub struct AudioConfigView {
    pub output_card_index: Option<u8>,
    pub output_card_name: Seq<char>,
    pub output_control: Seq<char>,
    pub input_card_index: Option<u8>,
    pub input_card_name: Seq<char>,
    pub input_controls: Seq<Seq<char>>,
}

impl View for AudioConfig {
    type V = AudioConfigView;

    open spec fn view(&self) -> AudioConfigView {
        AudioConfigView {
            output_card_index: self.output_card_index,
            output_card_name: self.output_card_name@,
            output_control: self.output_control@,
            input_card_index: self.input_card_index,
            input_card_name: self.input_card_name@,
            input_controls: text::texts(self.input_controls@),
        }
    }
}

/// The mixer configuration of a robot that configures none.
pub open spec fn default_audio() -> AudioConfigView {
    AudioConfigView {
        output_card_index: None,
        output_card_name: "sndrpihifiberry"@,
        output_control: "Master"@,
        input_card_index: None,
        input_card_name: "USB"@,
        input_controls: seq!["Mic"@, "Capture"@],
    }
}

impl Default for AudioConfig {
    fn default() -> (r: Self)
        ensures
            r@ == default_audio(),
            r.output_card_index is None,
            r.output_card_name@ == "sndrpihifiberry"@,
            r.output_control@ == "Master"@,
            r.input_card_index is None,
            r.input_card_name@ == "USB"@,
            text::texts(r.input_controls@) == seq!["Mic"@, "Capture"@],
    {
        let mut input_controls: Vec<String> = Vec::new();
        input_controls.push("Mic".to_owned());
        input_controls.push("Capture".to_owned());
        assert(text::texts(input_controls@) =~= seq!["Mic"@, "Capture"@]);
        AudioConfig {
            output_card_index: None,
            output_card_name: "sndrpihifiberry".to_owned(),
            output_control: "Master".to_owned(),
            input_card_index: None,
            input_card_name: "USB".to_owned(),
            input_controls,
        }
    }
}

/// Pins and timing of the ultrasonic distance sensor.
#[derive(Debug, Clone, Copy, PartialEq, Eq, Structural)]
pub struct UltrasonicConfig {
    /// BCM pin for the trigger output.
    pub trig_pin_bcm: u8,
    /// BCM pin for the echo input.
    pub echo_pin_bcm: u8,
    /// Measurement timeout in milliseconds.
    pub timeout_ms: u64,
}

/// The distance sensor of a robot that configures none.
pub open spec fn default_ultrasonic() -> UltrasonicConfig {
    UltrasonicConfig { trig_pin_bcm: 27, echo_pin_bcm: 22, timeout_ms: 20 }
}

impl Default for UltrasonicConfig {
    fn default() -> (r: Self)
        ensures
            r == default_ultrasonic(),
            r.trig_pin_bcm == 27,
            r.echo_pin_bcm == 22,
            r.timeout_ms == 20,
    {
        UltrasonicConfig { trig_pin_bcm: 27, echo_pin_bcm: 22, timeout_ms: 20 }
    }
}

/// Configuration of the routines that the robot runs on its own.
#[derive(Debug, Clone, PartialEq)]
pub struct RoutineConfig {
    /// Forward speed percentage of the explore routine (1 to 100).
    pub explore_speed_pct: PrintedReal,
    /// Obstacle detection threshold in centimetres (above 0).
    pub obstacle_threshold_cm: Real,
    /// Cliff detection threshold as a normalised grayscale value (0 to 1).
    pub cliff_threshold_normalized: PrintedReal,
    /// Delay between sensor polls in milliseconds (at least 50).
    pub loop_interval_ms: u64,
    /// How long to reverse when avoiding an obstacle, in milliseconds.
    pub avoidance_backup_ms: u64,
    /// Angle added to 90 degrees for the avoidance turn.
    pub avoidance_turn_angle_deg: Real,
    /// Longest runtime before the routine is stopped, in seconds.
    pub max_duration_s: u64,
}

/// A `RoutineConfig` with its texts as sequences of characters.
pub struct RoutineConfigView {
    pub explore_speed_pct: PrintedRealView,
    pub obstacle_threshold_cm: Real,
    pub cliff_threshold_normalized: PrintedRealView,
    pub loop_interval_ms: u64,
    pub avoidance_backup_ms: u64,
    pub avoidance_turn_angle_deg: Real,
    pub max_duration_s: u64,
}

impl View for RoutineConfig {
    type V = RoutineConfigView;

    open spec fn view(&self) -> RoutineConfigView {
        RoutineConfigView {
            explore_speed_pct: self.explore_speed_pct@,
            obstacle_threshold_cm: self.obstacle_threshold_cm,
            cliff_threshold_normalized: self.cliff_threshold_normalized@,
            loop_interval_ms: self.loop_interval_ms,
            avoidance_backup_ms: self.avoidance_backup_ms,
            avoidance_turn_angle_deg: self.avoidance_turn_angle_deg,
            max_duration_s: self.max_duration_s,
        }
    }
}

/// The routine configuration of a robot that configures none.
pub open spec fn default_routine() -> RoutineConfigView {
    RoutineConfigView {
        explore_speed_pct: (PrintedRealView { value: Real { bits: number::THIRTY }, text: "30"@ }),
        obstacle_threshold_cm: Real { bits: number::TWENTY_FIVE },
        cliff_threshold_normalized: (PrintedRealView {
            value: Real { bits: number::SEVEN_TENTHS },
            text: "0.7"@,
        }),
        loop_interval_ms: 100,
        avoidance_backup_ms: 500,
        avoidance_turn_angle_deg: Real { bits: number::SIXTY },
        max_duration_s: 300,
    }
}

impl Default for RoutineConfig {
    fn default() -> (r: Self)
        ensures
            r@ == default_routine(),
            r.explore_speed_pct.value.bits == number::THIRTY,
            r.explore_speed_pct.text@ == "30"@,
            r.obstacle_threshold_cm.bits == number::TWENTY_FIVE,
            r.cliff_threshold_normalized.value.bits == number::SEVEN_TENTHS,
            r.cliff_threshold_normalized.text@ == "0.7"@,
            r.loop_interval_ms == 100,
            r.avoidance_backup_ms == 500,
            r.avoidance_turn_angle_deg.bits == number::SIXTY,
            r.max_duration_s == 300,
    {
        RoutineConfig {
            explore_speed_pct: PrintedReal {
                value: Real::from_bits(number::THIRTY),
                text: "30".to_owned(),
            },
            obstacle_threshold_cm: Real::from_bits(number::TWENTY_FIVE),
            cliff_threshold_normalized: PrintedReal {
                value: Real::from_bits(number::SEVEN_TENTHS),
                text: "0.7".to_owned(),
            },
            loop_interval_ms: 100,
            avoidance_backup_ms: 500,
            avoidance_turn_angle_deg: Real::from_bits(number::SIXTY),
            max_duration_s: 300,
        }
    }
}

// ---------------------------------------------------------------------------
// The whole
// ---------------------------------------------------------------------------

/// Daemon configuration.
#[derive(Debug, Clone, PartialEq)]
pub struct Config {
    pub i2c_bus: u8,
    pub hat_address: u8,
    pub socket_path: String,
    pub socket_mode: u32,
    pub log_level: String,
    pub servo_default_ttl_ms: u64,
    pub motor_default_ttl_ms: u64,
    pub watchdog_poll_ms: u64,
    /// Motor channels, at most four. The place in the list is the index that
    /// clients use.
    pub motors: Vec<MotorConfig>,
    pub servos: ServoChannels,
    pub sensors: SensorChannels,
    pub ultrasonic: UltrasonicConfig,
    /// BCM pin that enables the speaker amplifier.
    pub speaker_en_pin_bcm: u8,
    pub audio: AudioConfig,
    /// Where the calibration is kept: read at startup, written on request.
    pub calibration_path: String,
    pub routine: RoutineConfig,
}

/// A `Config` with its texts and lists as sequences.
pub struct ConfigView {
    pub i2c_bus: u8,
    pub hat_address: u8,
    pub socket_path: Seq<char>,
    pub socket_mode: u32,
    pub log_level: Seq<char>,
    pub servo_default_ttl_ms: u64,
    pub motor_default_ttl_ms: u64,
    pub watchdog_poll_ms: u64,
    pub motors: Seq<MotorConfig>,
    pub servos: ServoChannels,
    pub grayscale: Seq<u8>,
    pub ultrasonic: UltrasonicConfig,
    pub speaker_en_pin_bcm: u8,
    pub audio: AudioConfigView,
    pub calibration_path: Seq<char>,
    pub routine: RoutineConfigView,
}

impl View for Config {
    type V = ConfigView;

    open spec fn view(&self) -> ConfigView {
        ConfigView {
            i2c_bus: self.i2c_bus,
            hat_address: self.hat_address,
            socket_path: self.socket_path@,
            socket_mode: self.socket_mode,
            log_level: self.log_level@,
            servo_default_ttl_ms: self.servo_default_ttl_ms,
            motor_default_ttl_ms: self.motor_default_ttl_ms,
            watchdog_poll_ms: self.watchdog_poll_ms,
            motors: self.motors@,
            servos: self.servos,
            grayscale: self.sensors.grayscale@,
            ultrasonic: self.ultrasonic,
            speaker_en_pin_bcm: self.speaker_en_pin_bcm,
            audio: self.audio@,
            calibration_path: self.calibration_path@,
            routine: self.routine@,
        }
    }
}

/// The compiled defaults. Motor 1 is mounted the other way round, so that a
/// positive speed is forward for both.
pub open spec fn default_config() -> ConfigView {
    ConfigView {
        i2c_bus: 1,
        hat_address: 0x14,
        socket_path: "/run/nomopractic/nomopractic.sock"@,
        socket_mode: 0o660,
        log_level: "info"@,
        servo_default_ttl_ms: 500,
        motor_default_ttl_ms: 500,
        watchdog_poll_ms: 100,
        motors: seq![
            MotorConfig { pwm_channel: 12, dir_pin_bcm: 24, reversed: false },
            MotorConfig { pwm_channel: 13, dir_pin_bcm: 23, reversed: true },
        ],
        servos: default_servos(),
        grayscale: default_grayscale(),
        ultrasonic: default_ultrasonic(),
        speaker_en_pin_bcm: 20,
        audio: default_audio(),
        calibration_path: "/etc/nomopractic/calibration.toml"@,
        routine: default_routine(),
    }
}

impl Default for Config {
    fn default() -> (r: Self)
        ensures
            r@ == default_config(),
            r.i2c_bus == 1,
            r.hat_address == 0x14,
            r.socket_path@ == "/run/nomopractic/nomopractic.sock"@,
            r.socket_mode == 0o660,
            r.log_level@ == "info"@,
            r.servo_default_ttl_ms == 500,
            r.motor_default_ttl_ms == 500,
            r.watchdog_poll_ms == 100,
            r.motors@ == seq![
                MotorConfig { pwm_channel: 12, dir_pin_bcm: 24, reversed: false },
                MotorConfig { pwm_channel: 13, dir_pin_bcm: 23, reversed: true },
            ],
            r.speaker_en_pin_bcm == 20,
            r.calibration_path@ == "/etc/nomopractic/calibration.toml"@,
    {
        let mut motors: Vec<MotorConfig> = Vec::new();
        motors.push(MotorConfig { pwm_channel: 12, dir_pin_bcm: 24, reversed: false });
        motors.push(MotorConfig { pwm_channel: 13, dir_pin_bcm: 23, reversed: true });
        assert(motors@ =~= default_config().motors);
        Config {
            i2c_bus: 1,
            hat_address: 0x14,
            socket_path: "/run/nomopractic/nomopractic.sock".to_owned(),
            socket_mode: 0o660,
            log_level: "info".to_owned(),
            servo_default_ttl_ms: 500,
            motor_default_ttl_ms: 500,
            watchdog_poll_ms: 100,
            motors,
            servos: ServoChannels::default(),
            sensors: SensorChannels::default(),
            ultrasonic: UltrasonicConfig::default(),
            speaker_en_pin_bcm: 20,
            audio: AudioConfig::default(),
            calibration_path: "/etc/nomopractic/calibration.toml".to_owned(),
            routine: RoutineConfig::default(),
        }
    }
}

// ---------------------------------------------------------------------------
// Errors
// ---------------------------------------------------------------------------

/// Why no configuration could be had.
#[derive(Debug)]
pub enum ConfigError {
    /// The file is there and cannot be read.
    ReadFile { path: String, source: String },
    /// The file is not a configuration.
    Parse { path: String, source: String },
    /// A value is out of its bounds.
    Validation { field: &'static str, reason: String },
}

/// A `ConfigError` with its texts as sequences of characters.
pub enum ConfigErrorView {
    ReadFile { path: Seq<char>, source: Seq<char> },
    Parse { path: Seq<char>, source: Seq<char> },
    Validation { field: Seq<char>, reason: Seq<char> },
}

impl View for ConfigError {
    type V = ConfigErrorView;

    open spec fn view(&self) -> ConfigErrorView {
        match self {
            ConfigError::ReadFile { path, source } => ConfigErrorView::ReadFile {
                path: path@,
                source: source@,
            },
            ConfigError::Parse { path, source } => ConfigErrorView::Parse {
                path: path@,
                source: source@,
            },
            ConfigError::Validation { field, reason } => ConfigErrorView::Validation {
                field: field@,
                reason: reason@,
            },
        }
    }
}

impl ConfigErrorView {
    /// The message that an operator is shown.
    pub open spec fn message(self) -> Seq<char> {
        match self {
            ConfigErrorView::ReadFile { path, source } => "failed to read config file "@ + path
                + ": "@ + source,
            ConfigErrorView::Parse { path, source } => "failed to parse config file "@ + path
                + ": "@ + source,
            ConfigErrorView::Validation { field, reason } => "invalid "@ + field + ": "@ + reason,
        }
    }
}

impl ConfigError {
    /// The message that an operator is shown.
    pub fn message(&self) -> (r: String)
        ensures
            r@ == self@.message(),
    {
        match self {
            ConfigError::ReadFile { path, source } => "failed to read config file ".to_owned().concat(
                path.as_str(),
            ).concat(": ").concat(source.as_str()),
            ConfigError::Parse { path, source } => "failed to parse config file ".to_owned().concat(
                path.as_str(),
            ).concat(": ").concat(source.as_str()),
            ConfigError::Validation { field, reason } => "invalid ".to_owned().concat(
                field,
            ).concat(": ").concat(reason.as_str()),
        }
    }
}

// ---------------------------------------------------------------------------
// Validation
// ---------------------------------------------------------------------------

/// What can be wrong with a configuration.
#[derive(Debug, Clone, Copy, PartialEq, Eq, Structural)]
pub enum Problem {
    LogLevel,
    ServoTtl,
    MotorTtl,
    TooManyMotors,
    /// The motor at this place has a PWM channel outside 12 to 15.
    PwmRange(usize),
    /// The motor at this place has the PWM channel of an earlier one.
    PwmDuplicate(usize),
    /// The motor at this place has the direction pin of an earlier one.
    DirDuplicate(usize),
    /// A named servo has this channel, which is above 11.
    CameraPan(u8),
    CameraTilt(u8),
    Steering(u8),
    /// The grayscale sensor at this place has a channel above 7.
    Grayscale(usize),
    WatchdogPoll,
    ExploreSpeed,
    ObstacleThreshold,
    CliffThreshold,
    LoopInterval,
}

/// The log levels, in lower case.
pub open spec fn is_lower_level(level: Seq<char>) -> bool {
    level == "trace"@ || level == "debug"@ || level == "info"@ || level == "warn"@ || level
        == "error"@
}

/// The log levels, in any letter case.
pub open spec fn is_log_level(level: Seq<char>) -> bool {
    is_lower_level(text::lower_of(level))
}

pub open spec fn pwm_in_range(m: MotorConfig) -> bool {
    12 <= m.pwm_channel <= 15
}

/// Whether an earlier motor has the PWM channel of the motor at `i`.
pub open spec fn pwm_taken(motors: Seq<MotorConfig>, i: int) -> bool {
    exists|j: int| 0 <= j < i && #[trigger] motors[j].pwm_channel == motors[i].pwm_channel
}

/// Whether an earlier motor has the direction pin of the motor at `i`.
pub open spec fn dir_taken(motors: Seq<MotorConfig>, i: int) -> bool {
    exists|j: int| 0 <= j < i && #[trigger] motors[j].dir_pin_bcm == motors[i].dir_pin_bcm
}

/// A servo that is there has a channel from 0 to 11.
pub open spec fn servo_in_range(channel: Option<u8>) -> bool {
    channel matches Some(ch) ==> ch <= 11
}

/// The first motor from `from` on whose PWM channel is out of range.
pub open spec fn pwm_range_problem(motors: Seq<MotorConfig>, from: int) -> Option<Problem>
    decreases motors.len() - from,
{
    if from < 0 || from >= motors.len() {
        None
    } else if !pwm_in_range(motors[from]) {
        Some(Problem::PwmRange(from as usize))
    } else {
        pwm_range_problem(motors, from + 1)
    }
}

/// The first motor from `from` on that shares a channel or a pin with an
/// earlier one; the channel is looked at first.
pub open spec fn duplicate_problem(motors: Seq<MotorConfig>, from: int) -> Option<Problem>
    decreases motors.len() - from,
{
    if from < 0 || from >= motors.len() {
        None
    } else if pwm_taken(motors, from) {
        Some(Problem::PwmDuplicate(from as usize))
    } else if dir_taken(motors, from) {
        Some(Problem::DirDuplicate(from as usize))
    } else {
        duplicate_problem(motors, from + 1)
    }
}

pub open spec fn motor_problem(motors: Seq<MotorConfig>) -> Option<Problem> {
    if motors.len() > 4 {
        Some(Problem::TooManyMotors)
    } else if pwm_range_problem(motors, 0) is Some {
        pwm_range_problem(motors, 0)
    } else {
        duplicate_problem(motors, 0)
    }
}

pub open spec fn servo_problem(servos: ServoChannels) -> Option<Problem> {
    if !servo_in_range(servos.camera_pan) {
        Some(Problem::CameraPan(servos.camera_pan->0))
    } else if !servo_in_range(servos.camera_tilt) {
        Some(Problem::CameraTilt(servos.camera_tilt->0))
    } else if !servo_in_range(servos.steering) {
        Some(Problem::Steering(servos.steering->0))
    } else {
        None
    }
}

/// The first grayscale sensor from `from` on whose channel is out of range.
pub open spec fn grayscale_problem(channels: Seq<u8>, from: int) -> Option<Problem>
    decreases channels.len() - from,
{
    if from < 0 || from >= channels.len() {
        None
    } else if channels[from] > 7 {
        Some(Problem::Grayscale(from as usize))
    } else {
        grayscale_problem(channels, from + 1)
    }
}

pub open spec fn routine_problem(routine: RoutineConfigView) -> Option<Problem> {
    if !routine.explore_speed_pct.value.within(number::ONE, number::HUNDRED) {
        Some(Problem::ExploreSpeed)
    } else if !routine.obstacle_threshold_cm.positive() {
        Some(Problem::ObstacleThreshold)
    } else if !routine.cliff_threshold_normalized.value.within(number::ZERO, number::ONE) {
        Some(Problem::CliffThreshold)
    } else if routine.loop_interval_ms < 50 {
        Some(Problem::LoopInterval)
    } else {
        None
    }
}

impl ConfigView {
    /// Every value is within its bounds, and no two motors share a channel or a
    /// pin.
    pub open spec fn valid(self) -> bool {
        &&& is_log_level(self.log_level)
        &&& self.servo_default_ttl_ms > 0
        &&& self.motor_default_ttl_ms > 0
        &&& self.motors.len() <= 4
        &&& forall|i: int| 0 <= i < self.motors.len() ==> pwm_in_range(#[trigger] self.motors[i])
        &&& forall|i: int, j: int|
            0 <= j < i < self.motors.len() ==> (#[trigger] self.motors[i]).pwm_channel != (
            #[trigger] self.motors[j]).pwm_channel && self.motors[i].dir_pin_bcm
                != self.motors[j].dir_pin_bcm
        &&& servo_in_range(self.servos.camera_pan)
        &&& servo_in_range(self.servos.camera_tilt)
        &&& servo_in_range(self.servos.steering)
        &&& forall|i: int| 0 <= i < self.grayscale.len() ==> #[trigger] self.grayscale[i] <= 7
        &&& self.watchdog_poll_ms > 0
        &&& self.routine.explore_speed_pct.value.within(number::ONE, number::HUNDRED)
        &&& self.routine.obstacle_threshold_cm.positive()
        &&& self.routine.cliff_threshold_normalized.value.within(number::ZERO, number::ONE)
        &&& self.routine.loop_interval_ms >= 50
    }

    /// The first thing that is wrong, in the order in which things are looked
    /// at.
    pub open spec fn problem(self) -> Option<Problem> {
        if !is_log_level(self.log_level) {
            Some(Problem::LogLevel)
        } else if self.servo_default_ttl_ms == 0 {
            Some(Problem::ServoTtl)
        } else if self.motor_default_ttl_ms == 0 {
            Some(Problem::MotorTtl)
        } else if motor_problem(self.motors) is Some {
            motor_problem(self.motors)
        } else if servo_problem(self.servos) is Some {
            servo_problem(self.servos)
        } else if grayscale_problem(self.grayscale, 0) is Some {
            grayscale_problem(self.grayscale, 0)
        } else if self.watchdog_poll_ms == 0 {
            Some(Problem::WatchdogPoll)
        } else {
            routine_problem(self.routine)
        }
    }
}

impl Problem {
    /// The setting that is at fault.
    pub open spec fn field_of(self) -> Seq<char> {
        match self {
            Problem::LogLevel => "log_level"@,
            Problem::ServoTtl => "servo_default_ttl_ms"@,
            Problem::MotorTtl => "motor_default_ttl_ms"@,
            Problem::TooManyMotors => "motors"@,
            Problem::PwmRange(_) => "motors[].pwm_channel"@,
            Problem::PwmDuplicate(_) => "motors[].pwm_channel"@,
            Problem::DirDuplicate(_) => "motors[].dir_pin_bcm"@,
            Problem::CameraPan(_) => "servos"@,
            Problem::CameraTilt(_) => "servos"@,
            Problem::Steering(_) => "servos"@,
            Problem::Grayscale(_) => "sensors.grayscale"@,
            Problem::WatchdogPoll => "watchdog_poll_ms"@,
            Problem::ExploreSpeed => "routine.explore_speed_pct"@,
            Problem::ObstacleThreshold => "routine.obstacle_threshold_cm"@,
            Problem::CliffThreshold => "routine.cliff_threshold_normalized"@,
            Problem::LoopInterval => "routine.loop_interval_ms"@,
        }
    }

    /// What is wrong with it.
    pub open spec fn reason_of(self, c: ConfigView) -> Seq<char> {
        match self {
            Problem::LogLevel => "'"@ + c.log_level
                + "' is not one of [\"trace\", \"debug\", \"info\", \"warn\", \"error\"]"@,
            Problem::ServoTtl => "must be > 0"@,
            Problem::MotorTtl => "must be > 0"@,
            Problem::TooManyMotors => "at most 4 motor channels are supported"@,
            Problem::PwmRange(i) => "motors["@ + text::decimal_of(i as nat) + "].pwm_channel "@
                + text::decimal_of(c.motors[i as int].pwm_channel as nat)
                + " is out of range 12–15"@,
            Problem::PwmDuplicate(i) => "motors["@ + text::decimal_of(i as nat)
                + "].pwm_channel "@ + text::decimal_of(c.motors[i as int].pwm_channel as nat)
                + " is duplicated; each motor must use a unique PWM channel"@,
            Problem::DirDuplicate(i) => "motors["@ + text::decimal_of(i as nat)
                + "].dir_pin_bcm "@ + text::decimal_of(c.motors[i as int].dir_pin_bcm as nat)
                + " is duplicated; each motor must use a unique direction pin"@,
            Problem::CameraPan(ch) => "servos.camera_pan channel "@ + text::decimal_of(ch as nat)
                + " is out of range 0–11"@,
            Problem::CameraTilt(ch) => "servos.camera_tilt channel "@ + text::decimal_of(ch as nat)
                + " is out of range 0–11"@,
            Problem::Steering(ch) => "servos.steering channel "@ + text::decimal_of(ch as nat)
                + " is out of range 0–11"@,
            Problem::Grayscale(i) => "sensors.grayscale["@ + text::decimal_of(i as nat)
                + "] channel "@ + text::decimal_of(c.grayscale[i as int] as nat)
                + " is out of range 0–7"@,
            Problem::WatchdogPoll => "must be > 0"@,
            Problem::ExploreSpeed => c.routine.explore_speed_pct.text
                + " is out of range 1.0–100.0"@,
            Problem::ObstacleThreshold => "must be > 0.0"@,
            Problem::CliffThreshold => c.routine.cliff_threshold_normalized.text
                + " is out of range 0.0–1.0"@,
            Problem::LoopInterval => text::decimal_of(c.routine.loop_interval_ms as nat)
                + " is below minimum 50 ms"@,
        }
    }

    /// The setting that is at fault.
    pub fn field(&self) -> (r: &'static str)
        ensures
            r@ == self.field_of(),
    {
        match self {
            Problem::LogLevel => "log_level",
            Problem::ServoTtl => "servo_default_ttl_ms",
            Problem::MotorTtl => "motor_default_ttl_ms",
            Problem::TooManyMotors => "motors",
            Problem::PwmRange(_) => "motors[].pwm_channel",
            Problem::PwmDuplicate(_) => "motors[].pwm_channel",
            Problem::DirDuplicate(_) => "motors[].dir_pin_bcm",
            Problem::CameraPan(_) => "servos",
            Problem::CameraTilt(_) => "servos",
            Problem::Steering(_) => "servos",
            Problem::Grayscale(_) => "sensors.grayscale",
            Problem::WatchdogPoll => "watchdog_poll_ms",
            Problem::ExploreSpeed => "routine.explore_speed_pct",
            Problem::ObstacleThreshold => "routine.obstacle_threshold_cm",
            Problem::CliffThreshold => "routine.cliff_threshold_normalized",
            Problem::LoopInterval => "routine.loop_interval_ms",
        }
    }
}

/// `<before><index><middle><value><after>`, as messages name a list entry.
fn entry_text(before: &str, index: usize, middle: &str, value: u8, after: &str) -> (r: String)
    ensures
        r@ == before@ + text::decimal_of(index as nat) + middle@ + text::decimal_of(value as nat)
            + after@,
{
    before.to_owned().concat(text::decimal(index as u64).as_str()).concat(middle).concat(
        text::decimal(value as u64).as_str(),
    ).concat(after)
}

fn servo_text(before: &str, channel: u8) -> (r: String)
    ensures
        r@ == before@ + text::decimal_of(channel as nat) + " is out of range 0–11"@,
{
    before.to_owned().concat(text::decimal(channel as u64).as_str()).concat(
        " is out of range 0–11",
    )
}

proof fn lemma_pwm_range(motors: Seq<MotorConfig>, from: int)
    requires
        0 <= from <= motors.len(),
    ensures
        pwm_range_problem(motors, from) is None <==> forall|i: int|
            from <= i < motors.len() ==> pwm_in_range(#[trigger] motors[i]),
        motors.len() <= 4 && pwm_range_problem(motors, from) is Some ==> (pwm_range_problem(
            motors,
            from,
        ) matches Some(Problem::PwmRange(i)) && i < motors.len()),
    decreases motors.len() - from,
{
    if from < motors.len() {
        lemma_pwm_range(motors, from + 1);
    }
}

proof fn lemma_duplicate(motors: Seq<MotorConfig>, from: int)
    requires
        0 <= from <= motors.len(),
    ensures
        duplicate_problem(motors, from) is None <==> forall|i: int|
            from <= i < motors.len() ==> !pwm_taken(motors, i) && !dir_taken(motors, i),
        motors.len() <= 4 ==> match duplicate_problem(motors, from) {
            Some(Problem::PwmDuplicate(i)) => i < motors.len(),
            Some(Problem::DirDuplicate(i)) => i < motors.len(),
            Some(_) => false,
            None => true,
        },
    decreases motors.len() - from,
{
    if from < motors.len() {
        lemma_duplicate(motors, from + 1);
    }
}

proof fn lemma_grayscale(channels: Seq<u8>, from: int)
    requires
        0 <= from <= channels.len(),
    ensures
        grayscale_problem(channels, from) is None <==> forall|i: int|
            from <= i < channels.len() ==> #[trigger] channels[i] <= 7,
        channels.len() <= 3 && grayscale_problem(channels, from) is Some ==> (grayscale_problem(
            channels,
            from,
        ) matches Some(Problem::Grayscale(i)) && i < channels.len()),
    decreases channels.len() - from,
{
    if from < channels.len() {
        lemma_grayscale(channels, from + 1);
    }
}

/// A configuration has no problem exactly if it is valid.
pub proof fn law_no_problem_means_valid(c: ConfigView)
    ensures
        c.problem() is None <==> c.valid(),
{
    lemma_pwm_range(c.motors, 0);
    lemma_duplicate(c.motors, 0);
    lemma_grayscale(c.grayscale, 0);
    if c.valid() {
        assert forall|i: int| 0 <= i < c.motors.len() implies !pwm_taken(c.motors, i)
            && !dir_taken(c.motors, i) by {}
    }
    if motor_problem(c.motors) is None {
        assert forall|i: int, j: int| 0 <= j < i < c.motors.len() implies (
        #[trigger] c.motors[i]).pwm_channel != (#[trigger] c.motors[j]).pwm_channel
            && c.motors[i].dir_pin_bcm != c.motors[j].dir_pin_bcm by {
            assert(!pwm_taken(c.motors, i) && !dir_taken(c.motors, i));
        }
    }
}

impl Config {
    fn find_motor_problem(&self) -> (r: Option<Problem>)
        ensures
            r == motor_problem(self.motors@),
    {
        if self.motors.len() > 4 {
            return Some(Problem::TooManyMotors);
        }
        let mut i: usize = 0;
        while i < self.motors.len()
            invariant
                i <= self.motors.len() <= 4,
                pwm_range_problem(self.motors@, 0) == pwm_range_problem(self.motors@, i as int),
            decreases self.motors.len() - i,
        {
            if self.motors[i].pwm_channel < 12 || self.motors[i].pwm_channel > 15 {
                return Some(Problem::PwmRange(i));
            }
            i = i + 1;
        }
        assert(pwm_range_problem(self.motors@, 0) is None);
        let mut k: usize = 0;
        while k < self.motors.len()
            invariant
                k <= self.motors.len() <= 4,
                pwm_range_problem(self.motors@, 0) is None,
                duplicate_problem(self.motors@, 0) == duplicate_problem(self.motors@, k as int),
            decreases self.motors.len() - k,
        {
            let mut pwm_seen = false;
            let mut dir_seen = false;
            let mut j: usize = 0;
            while j < k
                invariant
                    j <= k < self.motors.len(),
                    pwm_seen == exists|h: int|
                        0 <= h < j && #[trigger] self.motors@[h].pwm_channel
                            == self.motors@[k as int].pwm_channel,
                    dir_seen == exists|h: int|
                        0 <= h < j && #[trigger] self.motors@[h].dir_pin_bcm
                            == self.motors@[k as int].dir_pin_bcm,
                decreases k - j,
            {
                if self.motors[j].pwm_channel == self.motors[k].pwm_channel {
                    pwm_seen = true;
                }
                if self.motors[j].dir_pin_bcm == self.motors[k].dir_pin_bcm {
                    dir_seen = true;
                }
                j = j + 1;
            }
            if pwm_seen {
                return Some(Problem::PwmDuplicate(k));
            }
            if dir_seen {
                return Some(Problem::DirDuplicate(k));
            }
            k = k + 1;
        }
        None
    }

    fn find_servo_problem(&self) -> (r: Option<Problem>)
        ensures
            r == servo_problem(self.servos),
    {
        if let Some(ch) = self.servos.camera_pan {
            if ch > 11 {
                return Some(Problem::CameraPan(ch));
            }
        }
        if let Some(ch) = self.servos.camera_tilt {
            if ch > 11 {
                return Some(Problem::CameraTilt(ch));
            }
        }
        if let Some(ch) = self.servos.steering {
            if ch > 11 {
                return Some(Problem::Steering(ch));
            }
        }
        None
    }

    fn find_grayscale_problem(&self) -> (r: Option<Problem>)
        ensures
            r == grayscale_problem(self.sensors.grayscale@, 0),
    {
        let mut i: usize = 0;
        while i < 3
            invariant
                i <= 3,
                grayscale_problem(self.sensors.grayscale@, 0) == grayscale_problem(
                    self.sensors.grayscale@,
                    i as int,
                ),
            decreases 3 - i,
        {
            if self.sensors.grayscale[i] > 7 {
                return Some(Problem::Grayscale(i));
            }
            i = i + 1;
        }
        None
    }

    fn find_routine_problem(&self) -> (r: Option<Problem>)
        ensures
            r == routine_problem(self.routine@),
    {
        if !self.routine.explore_speed_pct.value.is_within(number::ONE, number::HUNDRED) {
            return Some(Problem::ExploreSpeed);
        }
        if !self.routine.obstacle_threshold_cm.is_positive() {
            return Some(Problem::ObstacleThreshold);
        }
        if !self.routine.cliff_threshold_normalized.value.is_within(number::ZERO, number::ONE) {
            return Some(Problem::CliffThreshold);
        }
        if self.routine.loop_interval_ms < 50 {
            return Some(Problem::LoopInterval);
        }
        None
    }

    fn has_log_level(&self) -> (r: bool)
        ensures
            r == is_log_level(self.log_level@),
    {
        Self::is_known_level(text::to_lowercase(self.log_level.as_str()).as_str())
    }

    /// Whether a text in lower case is a log level.
    pub fn is_known_level(lowered: &str) -> (r: bool)
        ensures
            r == is_lower_level(lowered@),
    {
        text::same_text(lowered, "trace") || text::same_text(lowered, "debug") || text::same_text(
            lowered,
            "info",
        ) || text::same_text(lowered, "warn") || text::same_text(lowered, "error")
    }

    /// The first thing that is wrong with this configuration.
    pub fn find_problem(&self) -> (r: Option<Problem>)
        ensures
            r == self@.problem(),
    {
        if !self.has_log_level() {
            return Some(Problem::LogLevel);
        }
        if self.servo_default_ttl_ms == 0 {
            return Some(Problem::ServoTtl);
        }
        if self.motor_default_ttl_ms == 0 {
            return Some(Problem::MotorTtl);
        }
        let motors = self.find_motor_problem();
        if motors.is_some() {
            return motors;
        }
        let servos = self.find_servo_problem();
        if servos.is_some() {
            return servos;
        }
        let grayscale = self.find_grayscale_problem();
        if grayscale.is_some() {
            return grayscale;
        }
        if self.watchdog_poll_ms == 0 {
            return Some(Problem::WatchdogPoll);
        }
        self.find_routine_problem()
    }

    fn reason(&self, p: Problem) -> (r: String)
        requires
            self@.problem() == Some(p),
        ensures
            r@ == p.reason_of(self@),
    {
        proof {
            lemma_pwm_range(self.motors@, 0);
            lemma_duplicate(self.motors@, 0);
            lemma_grayscale(self.sensors.grayscale@, 0);
        }
        match p {
            Problem::LogLevel => "'".to_owned().concat(self.log_level.as_str()).concat(
                "' is not one of [\"trace\", \"debug\", \"info\", \"warn\", \"error\"]",
            ),
            Problem::ServoTtl => "must be > 0".to_owned(),
            Problem::MotorTtl => "must be > 0".to_owned(),
            Problem::TooManyMotors => "at most 4 motor channels are supported".to_owned(),
            Problem::PwmRange(i) => entry_text(
                "motors[",
                i,
                "].pwm_channel ",
                self.motors[i].pwm_channel,
                " is out of range 12–15",
            ),
            Problem::PwmDuplicate(i) => entry_text(
                "motors[",
                i,
                "].pwm_channel ",
                self.motors[i].pwm_channel,
                " is duplicated; each motor must use a unique PWM channel",
            ),
            Problem::DirDuplicate(i) => entry_text(
                "motors[",
                i,
                "].dir_pin_bcm ",
                self.motors[i].dir_pin_bcm,
                " is duplicated; each motor must use a unique direction pin",
            ),
            Problem::CameraPan(ch) => servo_text("servos.camera_pan channel ", ch),
            Problem::CameraTilt(ch) => servo_text("servos.camera_tilt channel ", ch),
            Problem::Steering(ch) => servo_text("servos.steering channel ", ch),
            Problem::Grayscale(i) => entry_text(
                "sensors.grayscale[",
                i,
                "] channel ",
                self.sensors.grayscale[i],
                " is out of range 0–7",
            ),
            Problem::WatchdogPoll => "must be > 0".to_owned(),
            Problem::ExploreSpeed => self.routine.explore_speed_pct.text.clone().concat(
                " is out of range 1.0–100.0",
            ),
            Problem::ObstacleThreshold => "must be > 0.0".to_owned(),
            Problem::CliffThreshold => self.routine.cliff_threshold_normalized.text.clone().concat(
                " is out of range 0.0–1.0",
            ),
            Problem::LoopInterval => text::decimal(self.routine.loop_interval_ms).concat(
                " is below minimum 50 ms",
            ),
        }
    }

    /// Check that every value is within its bounds. The error names the first
    /// setting that is not.
    pub fn validate(&self) -> (r: Result<(), ConfigError>)
        ensures
            r is Ok <==> self@.valid(),
            r is Ok ==> self.motors@.len() <= 4 && self.servo_default_ttl_ms > 0
                && self.motor_default_ttl_ms > 0 && self.watchdog_poll_ms > 0
                && self.routine.loop_interval_ms >= 50,
            match self@.problem() {
                None => r is Ok,
                Some(p) => r matches Err(e) && e@ == (ConfigErrorView::Validation {
                    field: p.field_of(),
                    reason: p.reason_of(self@),
                }),
            },
    {
        proof {
            law_no_problem_means_valid(self@);
        }
        match self.find_problem() {
            None => Ok(()),
            Some(p) => Err(ConfigError::Validation { field: p.field(), reason: self.reason(p) }),
        }
    }
}

// ---------------------------------------------------------------------------
// The file
// ---------------------------------------------------------------------------

/// The `[audio]` table of a configuration file: what it sets.
#[derive(Debug)]
pub struct AudioFile {
    pub output_card_index: Option<u8>,
    pub output_card_name: Option<String>,
    pub output_control: Option<String>,
    pub input_card_index: Option<u8>,
    pub input_card_name: Option<String>,
    pub input_controls: Option<Vec<String>>,
}

/// A configuration file: what it sets.
#[derive(Debug)]
pub struct ConfigFile {
    pub i2c_bus: Option<u8>,
    pub hat_address: Option<u8>,
    pub socket_path: Option<String>,
    pub socket_mode: Option<u32>,
    pub log_level: Option<String>,
    pub servo_default_ttl_ms: Option<u64>,
    pub motor_default_ttl_ms: Option<u64>,
    pub watchdog_poll_ms: Option<u64>,
    pub motors: Option<Vec<MotorConfig>>,
    pub servos: Option<ServoChannels>,
    pub sensors: Option<SensorChannels>,
    pub ultrasonic: Option<UltrasonicConfig>,
    pub speaker_en_pin_bcm: Option<u8>,
    pub audio: Option<AudioFile>,
    pub calibration_path: Option<String>,
    pub routine: Option<RoutineConfig>,
}

/// What was set, or else what stands.
pub open spec fn set_or<T>(set: Option<T>, otherwise: T) -> T {
    match set {
        Some(x) => x,
        None => otherwise,
    }
}

/// A text that was set, or else the one that stands.
pub open spec fn text_set_or(set: Option<String>, otherwise: Seq<char>) -> Seq<char> {
    match set {
        Some(x) => x@,
        None => otherwise,
    }
}

fn text_or(set: Option<String>, otherwise: String) -> (r: String)
    ensures
        r@ == text_set_or(set, otherwise@),
{
    match set {
        Some(x) => x,
        None => otherwise,
    }
}

impl AudioFile {
    /// The table over the defaults.
    pub open spec fn over_defaults(self) -> AudioConfigView {
        AudioConfigView {
            output_card_index: self.output_card_index,
            output_card_name: text_set_or(self.output_card_name, default_audio().output_card_name),
            output_control: text_set_or(self.output_control, default_audio().output_control),
            input_card_index: self.input_card_index,
            input_card_name: text_set_or(self.input_card_name, default_audio().input_card_name),
            input_controls: match self.input_controls {
                Some(v) => text::texts(v@),
                None => default_audio().input_controls,
            },
        }
    }

    /// The mixer configuration that the table describes. What it does not set
    /// keeps its default.
    pub fn into_config(self) -> (r: AudioConfig)
        ensures
            r@ == self.over_defaults(),
    {
        let base = AudioConfig::default();
        AudioConfig {
            output_card_index: self.output_card_index,
            output_card_name: text_or(self.output_card_name, base.output_card_name),
            output_control: text_or(self.output_control, base.output_control),
            input_card_index: self.input_card_index,
            input_card_name: text_or(self.input_card_name, base.input_card_name),
            input_controls: match self.input_controls {
                Some(v) => v,
                None => base.input_controls,
            },
        }
    }
}

impl ConfigFile {
    /// The file over the defaults.
    pub open spec fn over_defaults(self) -> ConfigView {
        let base = default_config();
        ConfigView {
            i2c_bus: set_or(self.i2c_bus, base.i2c_bus),
            hat_address: set_or(self.hat_address, base.hat_address),
            socket_path: text_set_or(self.socket_path, base.socket_path),
            socket_mode: set_or(self.socket_mode, base.socket_mode),
            log_level: text_set_or(self.log_level, base.log_level),
            servo_default_ttl_ms: set_or(self.servo_default_ttl_ms, base.servo_default_ttl_ms),
            motor_default_ttl_ms: set_or(self.motor_default_ttl_ms, base.motor_default_ttl_ms),
            watchdog_poll_ms: set_or(self.watchdog_poll_ms, base.watchdog_poll_ms),
            motors: match self.motors {
                Some(v) => v@,
                None => base.motors,
            },
            servos: set_or(self.servos, base.servos),
            grayscale: match self.sensors {
                Some(v) => v.grayscale@,
                None => base.grayscale,
            },
            ultrasonic: set_or(self.ultrasonic, base.ultrasonic),
            speaker_en_pin_bcm: set_or(self.speaker_en_pin_bcm, base.speaker_en_pin_bcm),
            audio: match self.audio {
                Some(v) => v.over_defaults(),
                None => base.audio,
            },
            calibration_path: text_set_or(self.calibration_path, base.calibration_path),
            routine: match self.routine {
                Some(v) => v@,
                None => base.routine,
            },
        }
    }

    /// The configuration that the file describes. What it does not set keeps
    /// its default.
    pub fn into_config(self) -> (r: Config)
        ensures
            r@ == self.over_defaults(),
    {
        let base = Config::default();
        Config {
            i2c_bus: self.i2c_bus.unwrap_or(base.i2c_bus),
            hat_address: self.hat_address.unwrap_or(base.hat_address),
            socket_path: text_or(self.socket_path, base.socket_path),
            socket_mode: self.socket_mode.unwrap_or(base.socket_mode),
            log_level: text_or(self.log_level, base.log_level),
            servo_default_ttl_ms: self.servo_default_ttl_ms.unwrap_or(base.servo_default_ttl_ms),
            motor_default_ttl_ms: self.motor_default_ttl_ms.unwrap_or(base.motor_default_ttl_ms),
            watchdog_poll_ms: self.watchdog_poll_ms.unwrap_or(base.watchdog_poll_ms),
            motors: match self.motors {
                Some(v) => v,
                None => base.motors,
            },
            servos: self.servos.unwrap_or(base.servos),
            sensors: match self.sensors {
                Some(v) => v,
                None => base.sensors,
            },
            ultrasonic: self.ultrasonic.unwrap_or(base.ultrasonic),
            speaker_en_pin_bcm: self.speaker_en_pin_bcm.unwrap_or(base.speaker_en_pin_bcm),
            audio: match self.audio {
                Some(v) => v.into_config(),
                None => base.audio,
            },
            calibration_path: text_or(self.calibration_path, base.calibration_path),
            routine: match self.routine {
                Some(v) => v,
                None => base.routine,
            },
        }
    }
}

// ---------------------------------------------------------------------------
// The environment
// ---------------------------------------------------------------------------

/// The environment variables that override the configuration: their values, as
/// far as they are set to text.
#[derive(Debug)]
pub struct EnvVars {
    pub i2c_bus: Option<String>,
    pub address: Option<String>,
    pub socket_path: Option<String>,
    pub socket_mode: Option<String>,
    pub log_level: Option<String>,
    pub servo_default_ttl_ms: Option<String>,
    pub motor_default_ttl_ms: Option<String>,
    pub watchdog_poll_ms: Option<String>,
    pub calibration_path: Option<String>,
}

impl EnvVars {
    /// Ask for each variable by its name.
    pub fn read<F: Fn(&str) -> Option<String>>(get_env: F) -> (r: EnvVars)
        requires
            forall|name: &str| #[trigger] get_env.requires((name,)),
        ensures
            get_env.ensures(("NOMON_HAT_I2C_BUS",), r.i2c_bus),
            get_env.ensures(("NOMON_HAT_ADDRESS",), r.address),
            get_env.ensures(("NOMON_HAT_SOCKET_PATH",), r.socket_path),
            get_env.ensures(("NOMON_HAT_SOCKET_MODE",), r.socket_mode),
            get_env.ensures(("NOMON_HAT_LOG_LEVEL",), r.log_level),
            get_env.ensures(("NOMON_HAT_SERVO_DEFAULT_TTL_MS",), r.servo_default_ttl_ms),
            get_env.ensures(("NOMON_HAT_MOTOR_DEFAULT_TTL_MS",), r.motor_default_ttl_ms),
            get_env.ensures(("NOMON_HAT_WATCHDOG_POLL_MS",), r.watchdog_poll_ms),
            get_env.ensures(("NOMON_HAT_CALIBRATION_PATH",), r.calibration_path),
    {
        EnvVars {
            i2c_bus: get_env("NOMON_HAT_I2C_BUS"),
            address: get_env("NOMON_HAT_ADDRESS"),
            socket_path: get_env("NOMON_HAT_SOCKET_PATH"),
            socket_mode: get_env("NOMON_HAT_SOCKET_MODE"),
            log_level: get_env("NOMON_HAT_LOG_LEVEL"),
            servo_default_ttl_ms: get_env("NOMON_HAT_SERVO_DEFAULT_TTL_MS"),
            motor_default_ttl_ms: get_env("NOMON_HAT_MOTOR_DEFAULT_TTL_MS"),
            watchdog_poll_ms: get_env("NOMON_HAT_WATCHDOG_POLL_MS"),
            calibration_path: get_env("NOMON_HAT_CALIBRATION_PATH"),
        }
    }
}

/// A number that was set, where its text is one, or else what stands.
pub open spec fn number_set_or(
    set: Option<String>,
    radix: int,
    max: int,
    otherwise: int,
) -> int {
    match set {
        Some(s) => match text::parse_of(s@, radix, max) {
            Some(n) => n,
            None => otherwise,
        },
        None => otherwise,
    }
}

fn number_or(set: &Option<String>, radix: u8, max: u64, otherwise: u64) -> (r: u64)
    requires
        radix == 8 || radix == 10 || radix == 16,
        otherwise <= max,
    ensures
        r == number_set_or(*set, radix as int, max as int, otherwise as int),
        r <= max,
{
    match set {
        Some(s) => match text::parse_unsigned(s.as_str(), radix, max) {
            Some(n) => n,
            None => otherwise,
        },
        None => otherwise,
    }
}

/// A bus address: hexadecimal after `0x`, or else decimal.
pub open spec fn address_of(s: Seq<char>) -> Option<int> {
    if s.len() >= 2 && s[0] == '0' && s[1] == 'x' {
        text::parse_of(s.skip(2), 16, 255)
    } else {
        text::parse_of(s, 10, 255)
    }
}

fn parse_address(s: &str) -> (r: Option<u8>)
    ensures
        match r {
            Some(n) => address_of(s@) == Some(n as int),
            None => address_of(s@) is None,
        },
{
    let len: usize = s.unicode_len();
    let parsed = if len >= 2 && s.get_char(0) == '0' && s.get_char(1) == 'x' {
        let hex = s.substring_char(2, len);
        assert(hex@ =~= s@.skip(2));
        text::parse_unsigned(hex, 16, 255)
    } else {
        text::parse_unsigned(s, 10, 255)
    };
    match parsed {
        Some(n) => Some(n as u8),
        None => None,
    }
}

impl ConfigView {
    /// This configuration with the environment over it. A variable whose text
    /// is not a number where one is wanted changes nothing.
    pub open spec fn overridden(self, env: EnvVars) -> ConfigView {
        ConfigView {
            i2c_bus: number_set_or(env.i2c_bus, 10, u8::MAX as int, self.i2c_bus as int) as u8,
            hat_address: match env.address {
                Some(s) => match address_of(s@) {
                    Some(n) => n as u8,
                    None => self.hat_address,
                },
                None => self.hat_address,
            },
            socket_path: text_set_or(env.socket_path, self.socket_path),
            socket_mode: number_set_or(
                env.socket_mode,
                8,
                u32::MAX as int,
                self.socket_mode as int,
            ) as u32,
            log_level: text_set_or(env.log_level, self.log_level),
            servo_default_ttl_ms: number_set_or(
                env.servo_default_ttl_ms,
                10,
                u64::MAX as int,
                self.servo_default_ttl_ms as int,
            ) as u64,
            motor_default_ttl_ms: number_set_or(
                env.motor_default_ttl_ms,
                10,
                u64::MAX as int,
                self.motor_default_ttl_ms as int,
            ) as u64,
            watchdog_poll_ms: number_set_or(
                env.watchdog_poll_ms,
                10,
                u64::MAX as int,
                self.watchdog_poll_ms as int,
            ) as u64,
            calibration_path: text_set_or(env.calibration_path, self.calibration_path),
            ..self
        }
    }
}

/// Where a configuration comes from.
#[derive(Debug)]
pub enum ConfigSource {
    /// There is no file.
    Missing,
    /// There is a file, and it cannot be read.
    Unreadable(String),
    /// What the file holds is no configuration.
    Malformed(String),
    /// The file, as far as it sets anything.
    Parsed(ConfigFile),
}

/// The configuration that a file gives, before the environment is looked at.
pub open spec fn configured(source: ConfigSource) -> ConfigView {
    match source {
        ConfigSource::Parsed(file) => file.over_defaults(),
        _ => default_config(),
    }
}

impl Config {
    /// Override settings from `NOMON_HAT_*` environment variables.
    pub fn apply_env_overrides(&mut self, env: &EnvVars)
        ensures
            final(self)@ == old(self)@.overridden(*env),
    {
        self.i2c_bus = number_or(&env.i2c_bus, 10, 255, self.i2c_bus as u64) as u8;
        if let Some(v) = &env.address {
            if let Some(n) = parse_address(v.as_str()) {
                self.hat_address = n;
            }
        }
        if let Some(v) = &env.socket_path {
            self.socket_path = v.clone();
        }
        self.socket_mode = number_or(
            &env.socket_mode,
            8,
            4_294_967_295,
            self.socket_mode as u64,
        ) as u32;
        if let Some(v) = &env.log_level {
            self.log_level = v.clone();
        }
        self.servo_default_ttl_ms = number_or(
            &env.servo_default_ttl_ms,
            10,
            u64::MAX,
            self.servo_default_ttl_ms,
        );
        self.motor_default_ttl_ms = number_or(
            &env.motor_default_ttl_ms,
            10,
            u64::MAX,
            self.motor_default_ttl_ms,
        );
        self.watchdog_poll_ms = number_or(
            &env.watchdog_poll_ms,
            10,
            u64::MAX,
            self.watchdog_poll_ms,
        );
        if let Some(v) = &env.calibration_path {
            self.calibration_path = v.clone();
        }
    }

    /// The configuration that a file and the environment give, the environment
    /// over the file and the file over the compiled defaults, which stand alone
    /// where there is no file. It is checked as a whole.
    pub fn load(path: &str, source: ConfigSource, env: &EnvVars) -> (r: Result<Self, ConfigError>)
        ensures
            match source {
                ConfigSource::Unreadable(e) => r matches Err(x) && x@ == (
                ConfigErrorView::ReadFile { path: path@, source: e@ }),
                ConfigSource::Malformed(e) => r matches Err(x) && x@ == (ConfigErrorView::Parse {
                    path: path@,
                    source: e@,
                }),
                _ => {
                    let c = configured(source).overridden(*env);
                    match c.problem() {
                        None => r matches Ok(config) && config@ == c,
                        Some(p) => r matches Err(x) && x@ == (ConfigErrorView::Validation {
                            field: p.field_of(),
                            reason: p.reason_of(c),
                        }),
                    }
                },
            },
            r matches Ok(config) ==> config@.valid(),
    {
        let mut config = match source {
            ConfigSource::Missing => Config::default(),
            ConfigSource::Unreadable(e) => return Err(
                ConfigError::ReadFile { path: path.to_owned(), source: e },
            ),
            ConfigSource::Malformed(e) => return Err(
                ConfigError::Parse { path: path.to_owned(), source: e },
            ),
            ConfigSource::Parsed(file) => file.into_config(),
        };
        config.apply_env_overrides(env);
        match config.validate() {
            Ok(_) => Ok(config),
            Err(e) => Err(e),
        }
    }
}

// ---------------------------------------------------------------------------
// Laws
// ---------------------------------------------------------------------------

/// The compiled defaults are valid.
pub proof fn law_defaults_are_valid()
    ensures
        default_config().valid(),
{
    reveal_strlit("info");
    let level = "info"@;
    assert(text::ascii_lower_of(level) =~= level);
    assert(text::lower_of(level) == level);
}

/// What the environment sets to text prevails over the file, and what the file
/// sets prevails over the defaults.
pub proof fn law_environment_over_file_over_defaults(file: ConfigFile, env: EnvVars)
    ensures
        ({
            let c = configured(ConfigSource::Parsed(file)).overridden(env);
            &&& env.log_level matches Some(v) ==> c.log_level == v@
            &&& env.log_level is None ==> c.log_level == text_set_or(
                file.log_level,
                default_config().log_level,
            )
            &&& env.socket_path matches Some(v) ==> c.socket_path == v@
            &&& env.socket_path is None ==> c.socket_path == text_set_or(
                file.socket_path,
                default_config().socket_path,
            )
            &&& env.calibration_path matches Some(v) ==> c.calibration_path == v@
            &&& env.calibration_path is None ==> c.calibration_path == text_set_or(
                file.calibration_path,
                default_config().calibration_path,
            )
            &&& env.i2c_bus is None ==> c.i2c_bus == set_or(
                file.i2c_bus,
                default_config().i2c_bus,
            )
            &&& env.address is None ==> c.hat_address == set_or(
                file.hat_address,
                default_config().hat_address,
            )
            &&& env.socket_mode is None ==> c.socket_mode == set_or(
                file.socket_mode,
                default_config().socket_mode,
            )
            &&& env.servo_default_ttl_ms is None ==> c.servo_default_ttl_ms == set_or(
                file.servo_default_ttl_ms,
                default_config().servo_default_ttl_ms,
            )
            &&& env.motor_default_ttl_ms is None ==> c.motor_default_ttl_ms == set_or(
                file.motor_default_ttl_ms,
                default_config().motor_default_ttl_ms,
            )
            &&& env.watchdog_poll_ms is None ==> c.watchdog_poll_ms == set_or(
                file.watchdog_poll_ms,
                default_config().watchdog_poll_ms,
            )
        }),
{
}

/// A number written in decimal in the environment prevails over whatever stood
/// before it.
pub proof fn law_decimal_in_the_environment_prevails(
    c: ConfigView,
    env: EnvVars,
    bus: u8,
    servo_ttl: u64,
    motor_ttl: u64,
    poll: u64,
)
    requires
        env.i2c_bus matches Some(s) && s@ == text::decimal_of(bus as nat),
        env.servo_default_ttl_ms matches Some(s) && s@ == text::decimal_of(servo_ttl as nat),
        env.motor_default_ttl_ms matches Some(s) && s@ == text::decimal_of(motor_ttl as nat),
        env.watchdog_poll_ms matches Some(s) && s@ == text::decimal_of(poll as nat),
    ensures
        c.overridden(env).i2c_bus == bus,
        c.overridden(env).servo_default_ttl_ms == servo_ttl,
        c.overridden(env).motor_default_ttl_ms == motor_ttl,
        c.overridden(env).watchdog_poll_ms == poll,
{
    text::law_decimal_round_trip(bus as nat, u8::MAX as int);
    text::law_decimal_round_trip(servo_ttl as nat, u64::MAX as int);
    text::law_decimal_round_trip(motor_ttl as nat, u64::MAX as int);
    text::law_decimal_round_trip(poll as nat, u64::MAX as int);
}

/// An address is understood in both of its forms, `0x14` and `20`.
pub proof fn law_address_in_either_form(a: u8)
    ensures
        address_of(text::hex_byte_of(a)) == Some(a as int),
        address_of(text::decimal_of(a as nat)) == Some(a as int),
{
    text::law_decimal_round_trip(a as nat, 255);
    text::lemma_decimal(a as nat);
    let hex = text::hex_byte_of(a);
    let digits = hex.skip(2);
    assert(digits.len() == 2 && digits[0] == hex[2] && digits[1] == hex[3]);
    assert(text::without_plus(digits) == digits);
    assert(digits.drop_last() =~= seq![digits[0]]);
    assert(seq![digits[0]].drop_last() =~= Seq::<char>::empty());
    reveal_with_fuel(text::numeral_value, 3);
    let decimal = text::decimal_of(a as nat);
    if decimal.len() >= 2 {
        assert(text::digit_value(decimal[1]) < 10);
    }
}

/// Text that is no number leaves a setting as it was.
pub proof fn law_malformed_numbers_are_ignored(c: ConfigView, env: EnvVars)
    ensures
        (env.i2c_bus matches Some(s) && text::parse_of(s@, 10, u8::MAX as int) is None)
            ==> c.overridden(env).i2c_bus == c.i2c_bus,
        (env.address matches Some(s) && address_of(s@) is None) ==> c.overridden(
            env,
        ).hat_address == c.hat_address,
        (env.socket_mode matches Some(s) && text::parse_of(s@, 8, u32::MAX as int) is None)
            ==> c.overridden(env).socket_mode == c.socket_mode,
        (env.servo_default_ttl_ms matches Some(s) && text::parse_of(s@, 10, u64::MAX as int)
            is None) ==> c.overridden(env).servo_default_ttl_ms == c.servo_default_ttl_ms,
        (env.motor_default_ttl_ms matches Some(s) && text::parse_of(s@, 10, u64::MAX as int)
            is None) ==> c.overridden(env).motor_default_ttl_ms == c.motor_default_ttl_ms,
        (env.watchdog_poll_ms matches Some(s) && text::parse_of(s@, 10, u64::MAX as int)
            is None) ==> c.overridden(env).watchdog_poll_ms == c.watchdog_poll_ms,
{
}

/// Without any of its variables set, the environment changes nothing.
pub proof fn law_empty_environment_changes_nothing(c: ConfigView, env: EnvVars)
    requires
        env.i2c_bus is None,
        env.address is None,
        env.socket_path is None,
        env.socket_mode is None,
        env.log_level is None,
        env.servo_default_ttl_ms is None,
        env.motor_default_ttl_ms is None,
        env.watchdog_poll_ms is None,
        env.calibration_path is None,
    ensures
        c.overridden(env) == c,
{
}

/// A file that sets nothing gives the defaults, as a missing one does.
pub proof fn law_empty_file_is_the_defaults(file: ConfigFile)
    requires
        file.i2c_bus is None,
        file.hat_address is None,
        file.socket_path is None,
        file.socket_mode is None,
        file.log_level is None,
        file.servo_default_ttl_ms is None,
        file.motor_default_ttl_ms is None,
        file.watchdog_poll_ms is None,
        file.motors is None,
        file.servos is None,
        file.sensors is None,
        file.ultrasonic is None,
        file.speaker_en_pin_bcm is None,
        file.audio is None,
        file.calibration_path is None,
        file.routine is None,
    ensures
        configured(ConfigSource::Parsed(file)) == configured(ConfigSource::Missing),
{
}

/// Whatever a file sets, the configuration has exactly as the file gives it.
pub proof fn law_what_a_file_sets_stands(file: ConfigFile)
    ensures
        ({
            let c = configured(ConfigSource::Parsed(file));
            &&& file.i2c_bus matches Some(v) ==> c.i2c_bus == v
            &&& file.hat_address matches Some(v) ==> c.hat_address == v
            &&& file.socket_path matches Some(v) ==> c.socket_path == v@
            &&& file.socket_mode matches Some(v) ==> c.socket_mode == v
            &&& file.log_level matches Some(v) ==> c.log_level == v@
            &&& file.servo_default_ttl_ms matches Some(v) ==> c.servo_default_ttl_ms == v
            &&& file.motor_default_ttl_ms matches Some(v) ==> c.motor_default_ttl_ms == v
            &&& file.watchdog_poll_ms matches Some(v) ==> c.watchdog_poll_ms == v
            &&& file.motors matches Some(v) ==> c.motors == v@
            &&& file.servos matches Some(v) ==> c.servos == v
            &&& file.sensors matches Some(v) ==> c.grayscale == v.grayscale@
            &&& file.ultrasonic matches Some(v) ==> c.ultrasonic == v
            &&& file.speaker_en_pin_bcm matches Some(v) ==> c.speaker_en_pin_bcm == v
            &&& file.calibration_path matches Some(v) ==> c.calibration_path == v@
            &&& file.routine matches Some(v) ==> {
                &&& c.routine.explore_speed_pct.value == v.explore_speed_pct.value
                &&& c.routine.explore_speed_pct.text == v.explore_speed_pct.text@
                &&& c.routine.obstacle_threshold_cm == v.obstacle_threshold_cm
                &&& c.routine.cliff_threshold_normalized.value
                    == v.cliff_threshold_normalized.value
                &&& c.routine.cliff_threshold_normalized.text
                    == v.cliff_threshold_normalized.text@
                &&& c.routine.loop_interval_ms == v.loop_interval_ms
                &&& c.routine.avoidance_backup_ms == v.avoidance_backup_ms
                &&& c.routine.avoidance_turn_angle_deg == v.avoidance_turn_angle_deg
                &&& c.routine.max_duration_s == v.max_duration_s
            }
            &&& file.audio matches Some(a) ==> {
                &&& c.audio.output_card_index == a.output_card_index
                &&& a.output_card_name matches Some(v) ==> c.audio.output_card_name == v@
                &&& a.output_control matches Some(v) ==> c.audio.output_control == v@
                &&& c.audio.input_card_index == a.input_card_index
                &&& a.input_card_name matches Some(v) ==> c.audio.input_card_name == v@
                &&& a.input_controls matches Some(v) ==> {
                    &&& c.audio.input_controls.len() == v@.len()
                    &&& forall|i: int|
                        0 <= i < v@.len() ==> #[trigger] c.audio.input_controls[i] == v@[i]@
                }
            }
        }),
{
}

/// Whatever a file does not set, the configuration has from the compiled defaults.
pub proof fn law_what_a_file_leaves_out_is_default(file: ConfigFile)
    ensures
        ({
            let c = configured(ConfigSource::Parsed(file));
            let d = configured(ConfigSource::Missing);
            &&& file.i2c_bus is None ==> c.i2c_bus == d.i2c_bus
            &&& file.hat_address is None ==> c.hat_address == d.hat_address
            &&& file.socket_path is None ==> c.socket_path == d.socket_path
            &&& file.socket_mode is None ==> c.socket_mode == d.socket_mode
            &&& file.log_level is None ==> c.log_level == d.log_level
            &&& file.servo_default_ttl_ms is None ==> c.servo_default_ttl_ms
                == d.servo_default_ttl_ms
            &&& file.motor_default_ttl_ms is None ==> c.motor_default_ttl_ms
                == d.motor_default_ttl_ms
            &&& file.watchdog_poll_ms is None ==> c.watchdog_poll_ms == d.watchdog_poll_ms
            &&& file.motors is None ==> c.motors == d.motors
            &&& file.servos is None ==> c.servos == d.servos
            &&& file.sensors is None ==> c.grayscale == d.grayscale
            &&& file.ultrasonic is None ==> c.ultrasonic == d.ultrasonic
            &&& file.speaker_en_pin_bcm is None ==> c.speaker_en_pin_bcm == d.speaker_en_pin_bcm
            &&& file.audio is None ==> c.audio == d.audio
            &&& file.audio matches Some(a) ==> {
                &&& a.output_card_name is None ==> c.audio.output_card_name
                    == d.audio.output_card_name
                &&& a.output_control is None ==> c.audio.output_control == d.audio.output_control
                &&& a.input_card_name is None ==> c.audio.input_card_name
                    == d.audio.input_card_name
                &&& a.input_controls is None ==> c.audio.input_controls == d.audio.input_controls
            }
            &&& file.calibration_path is None ==> c.calibration_path == d.calibration_path
            &&& file.routine is None ==> c.routine == d.routine
        }),
{
}

/// The environment touches the nine settings that it has a variable for, and no
/// other; a number in it, octal for the mode of the socket, stands as it is written.
pub proof fn law_the_environment_touches_its_own(c: ConfigView, env: EnvVars)
    ensures
        ({
            let o = c.overridden(env);
            &&& o.motors == c.motors
            &&& o.servos == c.servos
            &&& o.grayscale == c.grayscale
            &&& o.ultrasonic == c.ultrasonic
            &&& o.speaker_en_pin_bcm == c.speaker_en_pin_bcm
            &&& o.audio == c.audio
            &&& o.routine == c.routine
            &&& match env.i2c_bus {
                Some(s) => match text::parse_of(s@, 10, 255) {
                    Some(n) => o.i2c_bus == n,
                    None => o.i2c_bus == c.i2c_bus,
                },
                None => o.i2c_bus == c.i2c_bus,
            }
            &&& match env.address {
                Some(s) => match address_of(s@) {
                    Some(n) => o.hat_address == n,
                    None => o.hat_address == c.hat_address,
                },
                None => o.hat_address == c.hat_address,
            }
            &&& match env.socket_mode {
                Some(s) => match text::parse_of(s@, 8, 0xFFFF_FFFF) {
                    Some(n) => o.socket_mode == n,
                    None => o.socket_mode == c.socket_mode,
                },
                None => o.socket_mode == c.socket_mode,
            }
            &&& match env.servo_default_ttl_ms {
                Some(s) => match text::parse_of(s@, 10, 0xFFFF_FFFF_FFFF_FFFF) {
                    Some(n) => o.servo_default_ttl_ms == n,
                    None => o.servo_default_ttl_ms == c.servo_default_ttl_ms,
                },
                None => o.servo_default_ttl_ms == c.servo_default_ttl_ms,
            }
            &&& match env.motor_default_ttl_ms {
                Some(s) => match text::parse_of(s@, 10, 0xFFFF_FFFF_FFFF_FFFF) {
                    Some(n) => o.motor_default_ttl_ms == n,
                    None => o.motor_default_ttl_ms == c.motor_default_ttl_ms,
                },
                None => o.motor_default_ttl_ms == c.motor_default_ttl_ms,
            }
            &&& match env.watchdog_poll_ms {
                Some(s) => match text::parse_of(s@, 10, 0xFFFF_FFFF_FFFF_FFFF) {
                    Some(n) => o.watchdog_poll_ms == n,
                    None => o.watchdog_poll_ms == c.watchdog_poll_ms,
                },
                None => o.watchdog_poll_ms == c.watchdog_poll_ms,
            }
            &&& match env.socket_path {
                Some(s) => o.socket_path == s@,
                None => o.socket_path == c.socket_path,
            }
            &&& match env.log_level {
                Some(s) => o.log_level == s@,
                None => o.log_level == c.log_level,
            }
            &&& match env.calibration_path {
                Some(s) => o.calibration_path == s@,
                None => o.calibration_path == c.calibration_path,
            }
        }),
{
    if let Some(s) = env.i2c_bus {
        lemma_parsed_is_bounded(s@, 10, 255);
    }
    if let Some(s) = env.address {
        lemma_parsed_is_bounded(s@, 10, 255);
        lemma_parsed_is_bounded(s@.skip(2), 16, 255);
    }
    if let Some(s) = env.socket_mode {
        lemma_parsed_is_bounded(s@, 8, 0xFFFF_FFFF);
    }
    if let Some(s) = env.servo_default_ttl_ms {
        lemma_parsed_is_bounded(s@, 10, 0xFFFF_FFFF_FFFF_FFFF);
    }
    if let Some(s) = env.motor_default_ttl_ms {
        lemma_parsed_is_bounded(s@, 10, 0xFFFF_FFFF_FFFF_FFFF);
    }
    if let Some(s) = env.watchdog_poll_ms {
        lemma_parsed_is_bounded(s@, 10, 0xFFFF_FFFF_FFFF_FFFF);
    }
}

proof fn lemma_parsed_is_bounded(s: Seq<char>, radix: int, max: int)
    requires
        radix > 0,
    ensures
        text::parse_of(s, radix, max) matches Some(n) ==> 0 <= n <= max,
{
    if text::is_numeral(s, radix) {
        lemma_numeral_is_natural(text::without_plus(s), radix);
    }
}

proof fn lemma_numeral_is_natural(s: Seq<char>, radix: int)
    requires
        radix > 0,
        text::all_digits(s, radix),
    ensures
        text::numeral_value(s, radix) >= 0,
    decreases s.len(),
{
    if s.len() > 0 {
        assert forall|i: int| 0 <= i < s.drop_last().len() implies text::digit_value(
            #[trigger] s.drop_last()[i],
        ) < radix by {
            assert(s.drop_last()[i] == s[i]);
        }
        lemma_numeral_is_natural(s.drop_last(), radix);
        assert(text::numeral_value(s.drop_last(), radix) * radix >= 0) by (nonlinear_arith)
            requires
                text::numeral_value(s.drop_last(), radix) >= 0,
                radix > 0,
        ;
    }
}

/// A configuration is accepted exactly if its log level is one of five, its times
/// are not zero, there are at most four motors, each on a PWM channel from 12 to 15,
/// no two on one channel or one pin, servos are on channels up to 11 and sensors on
/// channels up to 7, and the routine's speed is from 1 to 100, its obstacle threshold
/// above 0, its cliff threshold from 0 to 1 and its interval at least 50 ms.
pub proof fn law_what_is_accepted(c: ConfigView)
    ensures
        c.problem() is None <==> {
            let level = text::lower_of(c.log_level);
            &&& level == "trace"@ || level == "debug"@ || level == "info"@ || level == "warn"@
                || level == "error"@
            &&& c.servo_default_ttl_ms != 0
            &&& c.motor_default_ttl_ms != 0
            &&& c.watchdog_poll_ms != 0
            &&& c.motors.len() <= 4
            &&& forall|i: int|
                0 <= i < c.motors.len() ==> 12 <= (#[trigger] c.motors[i]).pwm_channel <= 15
            &&& forall|i: int, j: int|
                0 <= i < c.motors.len() && 0 <= j < c.motors.len() && i != j ==> (
                #[trigger] c.motors[i]).pwm_channel != (#[trigger] c.motors[j]).pwm_channel
                    && c.motors[i].dir_pin_bcm != c.motors[j].dir_pin_bcm
            &&& c.servos.camera_pan matches Some(ch) ==> ch <= 11
            &&& c.servos.camera_tilt matches Some(ch) ==> ch <= 11
            &&& c.servos.steering matches Some(ch) ==> ch <= 11
            &&& forall|i: int| 0 <= i < c.grayscale.len() ==> #[trigger] c.grayscale[i] <= 7
            &&& c.routine.explore_speed_pct.value.within(number::ONE, number::HUNDRED)
            &&& c.routine.obstacle_threshold_cm.positive()
            &&& c.routine.cliff_threshold_normalized.value.within(number::ZERO, number::ONE)
            &&& c.routine.loop_interval_ms >= 50
        },
{
    law_no_problem_means_valid(c);
}

/// The problem that is reported is there.
pub proof fn law_what_is_reported_is_wrong(c: ConfigView)
    ensures
        match c.problem() {
            None => true,
            Some(Problem::LogLevel) => {
                let level = text::lower_of(c.log_level);
                level != "trace"@ && level != "debug"@ && level != "info"@ && level != "warn"@
                    && level != "error"@
            },
            Some(Problem::ServoTtl) => c.servo_default_ttl_ms == 0,
            Some(Problem::MotorTtl) => c.motor_default_ttl_ms == 0,
            Some(Problem::TooManyMotors) => c.motors.len() > 4,
            Some(Problem::PwmRange(i)) => i < c.motors.len() && !(12
                <= c.motors[i as int].pwm_channel <= 15),
            Some(Problem::PwmDuplicate(i)) => i < c.motors.len() && exists|j: int|
                0 <= j < i && (#[trigger] c.motors[j]).pwm_channel
                    == c.motors[i as int].pwm_channel,
            Some(Problem::DirDuplicate(i)) => i < c.motors.len() && exists|j: int|
                0 <= j < i && (#[trigger] c.motors[j]).dir_pin_bcm
                    == c.motors[i as int].dir_pin_bcm,
            Some(Problem::CameraPan(ch)) => c.servos.camera_pan == Some(ch) && ch > 11,
            Some(Problem::CameraTilt(ch)) => c.servos.camera_tilt == Some(ch) && ch > 11,
            Some(Problem::Steering(ch)) => c.servos.steering == Some(ch) && ch > 11,
            Some(Problem::Grayscale(i)) => c.grayscale.len() <= 3 ==> i < c.grayscale.len()
                && c.grayscale[i as int] > 7,
            Some(Problem::WatchdogPoll) => c.watchdog_poll_ms == 0,
            Some(Problem::ExploreSpeed) => !c.routine.explore_speed_pct.value.within(
                number::ONE,
                number::HUNDRED,
            ),
            Some(Problem::ObstacleThreshold) => !c.routine.obstacle_threshold_cm.positive(),
            Some(Problem::CliffThreshold) => !c.routine.cliff_threshold_normalized.value.within(
                number::ZERO,
                number::ONE,
            ),
            Some(Problem::LoopInterval) => c.routine.loop_interval_ms < 50,
        },
{
    lemma_pwm_range(c.motors, 0);
    lemma_duplicate(c.motors, 0);
    lemma_grayscale(c.grayscale, 0);
    lemma_grayscale_variant(c.grayscale, 0);
    if c.motors.len() <= 4 {
        lemma_pwm_range_at(c.motors, 0);
        lemma_duplicate_at(c.motors, 0);
    }
    if c.grayscale.len() <= 3 {
        lemma_grayscale_at(c.grayscale, 0);
    }
}

proof fn lemma_grayscale_variant(channels: Seq<u8>, from: int)
    requires
        0 <= from <= channels.len(),
    ensures
        grayscale_problem(channels, from) matches Some(p) ==> p is Grayscale,
    decreases channels.len() - from,
{
    if from < channels.len() {
        lemma_grayscale_variant(channels, from + 1);
    }
}

proof fn lemma_pwm_range_at(motors: Seq<MotorConfig>, from: int)
    requires
        0 <= from <= motors.len() <= 4,
    ensures
        pwm_range_problem(motors, from) matches Some(Problem::PwmRange(i)) ==> i < motors.len() && (
        motors[i as int].pwm_channel < 12 || motors[i as int].pwm_channel > 15),
    decreases motors.len() - from,
{
    if from < motors.len() {
        lemma_pwm_range_at(motors, from + 1);
    }
}

proof fn lemma_duplicate_at(motors: Seq<MotorConfig>, from: int)
    requires
        0 <= from <= motors.len() <= 4,
    ensures
        duplicate_problem(motors, from) matches Some(Problem::PwmDuplicate(i)) ==> i < motors.len()
            && pwm_taken(motors, i as int),
        duplicate_problem(motors, from) matches Some(Problem::DirDuplicate(i)) ==> i < motors.len()
            && dir_taken(motors, i as int),
    decreases motors.len() - from,
{
    if from < motors.len() {
        lemma_duplicate_at(motors, from + 1);
    }
}

proof fn lemma_grayscale_at(channels: Seq<u8>, from: int)
    requires
        0 <= from <= channels.len() <= 3,
    ensures
        grayscale_problem(channels, from) matches Some(Problem::Grayscale(i)) ==> i
            < channels.len() && channels[i as int] > 7,
    decreases channels.len() - from,
{
    if from < channels.len() {
        lemma_grayscale_at(channels, from + 1);
    }
}

/// What is looked at earlier is reported first: no setting that is looked at before
/// the one reported is wrong. The order is log level, servo and motor time to live,
/// motors, servos, sensors, watchdog, and routine.
pub proof fn law_the_first_problem_is_reported(c: ConfigView)
    ensures
        ({
            let p = c.problem();
            let l = text::lower_of(c.log_level);
            let level = l == "trace"@ || l == "debug"@ || l == "info"@ || l == "warn"@ || l
                == "error"@;
            let times = c.servo_default_ttl_ms != 0 && c.motor_default_ttl_ms != 0;
            let servos = (c.servos.camera_pan matches Some(ch) ==> ch <= 11) && (
            c.servos.camera_tilt matches Some(ch) ==> ch <= 11) && (
            c.servos.steering matches Some(ch) ==> ch <= 11);
            let in_range = c.motors.len() <= 4 && forall|i: int|
                0 <= i < c.motors.len() ==> 12 <= (#[trigger] c.motors[i]).pwm_channel <= 15;
            let sensors = forall|i: int|
                0 <= i < c.grayscale.len() ==> #[trigger] c.grayscale[i] <= 7;
            &&& !level <==> p == Some(Problem::LogLevel)
            &&& level && c.servo_default_ttl_ms == 0 <==> p == Some(Problem::ServoTtl)
            &&& level && c.servo_default_ttl_ms != 0 && c.motor_default_ttl_ms == 0 <==> p == Some(
                Problem::MotorTtl,
            )
            &&& level && times && c.motors.len() > 4 <==> p == Some(Problem::TooManyMotors)
            &&& p matches Some(Problem::PwmDuplicate(_)) ==> in_range
            &&& p matches Some(Problem::DirDuplicate(_)) ==> in_range
            &&& p matches Some(Problem::Grayscale(_)) ==> servos
            &&& p == Some(Problem::WatchdogPoll) ==> servos && sensors && in_range
            &&& p == Some(Problem::ExploreSpeed) || p == Some(Problem::ObstacleThreshold) || p
                == Some(Problem::CliffThreshold) || p == Some(Problem::LoopInterval) ==> servos
                && sensors && in_range && c.watchdog_poll_ms != 0
            &&& p == Some(Problem::ObstacleThreshold) || p == Some(Problem::CliffThreshold) || p
                == Some(Problem::LoopInterval) ==> c.routine.explore_speed_pct.value.within(
                number::ONE,
                number::HUNDRED,
            )
            &&& p == Some(Problem::CliffThreshold) || p == Some(Problem::LoopInterval)
                ==> c.routine.obstacle_threshold_cm.positive()
            &&& p == Some(Problem::LoopInterval)
                ==> c.routine.cliff_threshold_normalized.value.within(number::ZERO, number::ONE)
        }),
{
    lemma_pwm_range(c.motors, 0);
    lemma_duplicate(c.motors, 0);
    lemma_grayscale(c.grayscale, 0);
    lemma_grayscale_variant(c.grayscale, 0);
    assert(motor_problem(c.motors) == Some(Problem::TooManyMotors) <==> c.motors.len() > 4);
}

/// Without a file, what the environment leaves alone is the default.
pub proof fn law_a_missing_file_is_the_defaults(env: EnvVars)
    ensures
        configured(ConfigSource::Missing).overridden(env) == default_config().overridden(env),
{
}

/// Every problem names its setting, and says which value of it is wrong.
pub proof fn law_problems_are_told(c: ConfigView, i: usize, ch: u8)
    ensures
        Problem::LogLevel.field_of() == "log_level"@,
        Problem::LogLevel.reason_of(c) == "'"@ + c.log_level
            + "' is not one of [\"trace\", \"debug\", \"info\", \"warn\", \"error\"]"@,
        Problem::ServoTtl.field_of() == "servo_default_ttl_ms"@,
        Problem::ServoTtl.reason_of(c) == "must be > 0"@,
        Problem::MotorTtl.field_of() == "motor_default_ttl_ms"@,
        Problem::MotorTtl.reason_of(c) == "must be > 0"@,
        Problem::TooManyMotors.field_of() == "motors"@,
        Problem::TooManyMotors.reason_of(c) == "at most 4 motor channels are supported"@,
        Problem::PwmRange(i).field_of() == "motors[].pwm_channel"@,
        Problem::PwmRange(i).reason_of(c) == "motors["@ + text::decimal_of(i as nat)
            + "].pwm_channel "@ + text::decimal_of(c.motors[i as int].pwm_channel as nat)
            + " is out of range 12–15"@,
        Problem::PwmDuplicate(i).field_of() == "motors[].pwm_channel"@,
        Problem::PwmDuplicate(i).reason_of(c) == "motors["@ + text::decimal_of(i as nat)
            + "].pwm_channel "@ + text::decimal_of(c.motors[i as int].pwm_channel as nat)
            + " is duplicated; each motor must use a unique PWM channel"@,
        Problem::DirDuplicate(i).field_of() == "motors[].dir_pin_bcm"@,
        Problem::DirDuplicate(i).reason_of(c) == "motors["@ + text::decimal_of(i as nat)
            + "].dir_pin_bcm "@ + text::decimal_of(c.motors[i as int].dir_pin_bcm as nat)
            + " is duplicated; each motor must use a unique direction pin"@,
        Problem::CameraPan(ch).field_of() == "servos"@,
        Problem::CameraPan(ch).reason_of(c) == "servos.camera_pan channel "@ + text::decimal_of(
            ch as nat,
        ) + " is out of range 0–11"@,
        Problem::CameraTilt(ch).field_of() == "servos"@,
        Problem::CameraTilt(ch).reason_of(c) == "servos.camera_tilt channel "@ + text::decimal_of(
            ch as nat,
        ) + " is out of range 0–11"@,
        Problem::Steering(ch).field_of() == "servos"@,
        Problem::Steering(ch).reason_of(c) == "servos.steering channel "@ + text::decimal_of(
            ch as nat,
        ) + " is out of range 0–11"@,
        Problem::Grayscale(i).field_of() == "sensors.grayscale"@,
        Problem::Grayscale(i).reason_of(c) == "sensors.grayscale["@ + text::decimal_of(i as nat)
            + "] channel "@ + text::decimal_of(c.grayscale[i as int] as nat)
            + " is out of range 0–7"@,
        Problem::WatchdogPoll.field_of() == "watchdog_poll_ms"@,
        Problem::WatchdogPoll.reason_of(c) == "must be > 0"@,
        Problem::ExploreSpeed.field_of() == "routine.explore_speed_pct"@,
        Problem::ExploreSpeed.reason_of(c) == c.routine.explore_speed_pct.text
            + " is out of range 1.0–100.0"@,
        Problem::ObstacleThreshold.field_of() == "routine.obstacle_threshold_cm"@,
        Problem::ObstacleThreshold.reason_of(c) == "must be > 0.0"@,
        Problem::CliffThreshold.field_of() == "routine.cliff_threshold_normalized"@,
        Problem::CliffThreshold.reason_of(c) == c.routine.cliff_threshold_normalized.text
            + " is out of range 0.0–1.0"@,
        Problem::LoopInterval.field_of() == "routine.loop_interval_ms"@,
        Problem::LoopInterval.reason_of(c) == text::decimal_of(c.routine.loop_interval_ms as nat)
            + " is below minimum 50 ms"@,
{
}

/// An error names the file or the setting, and then says what is wrong with it.
pub proof fn law_configuration_errors_are_told(
    path: Seq<char>,
    source: Seq<char>,
    field: Seq<char>,
    reason: Seq<char>,
)
    ensures
        (ConfigErrorView::ReadFile { path, source }).message() == "failed to read config file "@
            + path + ": "@ + source,
        (ConfigErrorView::Parse { path, source }).message() == "failed to parse config file "@
            + path + ": "@ + source,
        (ConfigErrorView::Validation { field, reason }).message() == "invalid "@ + field + ": "@
            + reason,
{
}

/// An address after `0x` is hexadecimal, and any other is decimal; past 255 it is none.
pub proof fn law_addresses_are_bytes(s: Seq<char>)
    ensures
        address_of(seq!['0', 'x'] + s) == text::parse_of(s, 16, 255),
        !(s.len() >= 2 && s[0] == '0' && s[1] == 'x') ==> address_of(s) == text::parse_of(
            s,
            10,
            255,
        ),
{
    assert((seq!['0', 'x'] + s).skip(2) =~= s);
}

} // verus!
