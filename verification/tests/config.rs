//! Configuration: files, environment, defaults, and what is rejected.

use nomopractic::config::{
    AudioFile, Config, ConfigError, ConfigFile, ConfigSource, EnvVars, MotorConfig, Problem,
    RoutineConfig, SensorChannels, ServoChannels, UltrasonicConfig,
};
use nomopractic::number::{PrintedReal, Real};
use toml::{Table, Value};

fn no_env() -> EnvVars {
    EnvVars::read(|_: &str| None)
}

fn line(s: &str) -> String {
    format!("{s}\n")
}

fn integer(v: &Value) -> Option<i64> {
    v.as_integer()
}

fn byte(v: &Value) -> Option<u8> {
    u8::try_from(integer(v)?).ok()
}

fn long(v: &Value) -> Option<u64> {
    u64::try_from(integer(v)?).ok()
}

fn text(v: &Value) -> Option<String> {
    Some(v.as_str()?.to_string())
}

fn number(v: &Value) -> Option<Real> {
    Some(Real::from_bits(v.as_float()?.to_bits()))
}

fn printed(v: &Value) -> Option<PrintedReal> {
    Some(PrintedReal { value: number(v)?, text: v.as_float()?.to_string() })
}

/// A member of a table: `Ok(None)` where it is missing, an error where it is of another type.
fn member<T>(t: &Table, key: &str, read: fn(&Value) -> Option<T>) -> Result<Option<T>, String> {
    match t.get(key) {
        None => Ok(None),
        Some(v) => match read(v) {
            Some(x) => Ok(Some(x)),
            None => Err(format!("invalid type for {key}")),
        },
    }
}

fn needed<T>(t: &Table, key: &str, read: fn(&Value) -> Option<T>) -> Option<T> {
    read(t.get(key)?)
}

fn motor(v: &Value) -> Option<MotorConfig> {
    let t = v.as_table()?;
    Some(MotorConfig {
        pwm_channel: needed(t, "pwm_channel", byte)?,
        dir_pin_bcm: needed(t, "dir_pin_bcm", byte)?,
        reversed: member(t, "reversed", Value::as_bool).ok()?.unwrap_or(false),
    })
}

fn motors(v: &Value) -> Option<Vec<MotorConfig>> {
    v.as_array()?.iter().map(motor).collect()
}

fn servos(v: &Value) -> Option<ServoChannels> {
    let t = v.as_table()?;
    Some(ServoChannels {
        camera_pan: member(t, "camera_pan", byte).ok()?,
        camera_tilt: member(t, "camera_tilt", byte).ok()?,
        steering: member(t, "steering", byte).ok()?,
    })
}

fn sensors(v: &Value) -> Option<SensorChannels> {
    let list: Option<Vec<u8>> = v.as_table()?.get("grayscale")?.as_array()?.iter().map(byte).collect();
    Some(SensorChannels { grayscale: list?.try_into().ok()? })
}

fn ultrasonic(v: &Value) -> Option<UltrasonicConfig> {
    let t = v.as_table()?;
    Some(UltrasonicConfig {
        trig_pin_bcm: needed(t, "trig_pin_bcm", byte)?,
        echo_pin_bcm: needed(t, "echo_pin_bcm", byte)?,
        timeout_ms: needed(t, "timeout_ms", long)?,
    })
}

fn texts(v: &Value) -> Option<Vec<String>> {
    v.as_array()?.iter().map(text).collect()
}

fn audio(v: &Value) -> Option<AudioFile> {
    let t = v.as_table()?;
    Some(AudioFile {
        output_card_index: member(t, "output_card_index", byte).ok()?,
        output_card_name: member(t, "output_card_name", text).ok()?,
        output_control: member(t, "output_control", text).ok()?,
        input_card_index: member(t, "input_card_index", byte).ok()?,
        input_card_name: member(t, "input_card_name", text).ok()?,
        input_controls: member(t, "input_controls", texts).ok()?,
    })
}

fn routine(v: &Value) -> Option<RoutineConfig> {
    let t = v.as_table()?;
    Some(RoutineConfig {
        explore_speed_pct: needed(t, "explore_speed_pct", printed)?,
        obstacle_threshold_cm: needed(t, "obstacle_threshold_cm", number)?,
        cliff_threshold_normalized: needed(t, "cliff_threshold_normalized", printed)?,
        loop_interval_ms: needed(t, "loop_interval_ms", long)?,
        avoidance_backup_ms: needed(t, "avoidance_backup_ms", long)?,
        avoidance_turn_angle_deg: needed(t, "avoidance_turn_angle_deg", number)?,
        max_duration_s: needed(t, "max_duration_s", long)?,
    })
}

fn file(t: &Table) -> Result<ConfigFile, String> {
    Ok(ConfigFile {
        i2c_bus: member(t, "i2c_bus", byte)?,
        hat_address: member(t, "hat_address", byte)?,
        socket_path: member(t, "socket_path", text)?,
        socket_mode: member(t, "socket_mode", |v| u32::try_from(integer(v)?).ok())?,
        log_level: member(t, "log_level", text)?,
        servo_default_ttl_ms: member(t, "servo_default_ttl_ms", long)?,
        motor_default_ttl_ms: member(t, "motor_default_ttl_ms", long)?,
        watchdog_poll_ms: member(t, "watchdog_poll_ms", long)?,
        motors: member(t, "motors", motors)?,
        servos: member(t, "servos", servos)?,
        sensors: member(t, "sensors", sensors)?,
        ultrasonic: member(t, "ultrasonic", ultrasonic)?,
        speaker_en_pin_bcm: member(t, "speaker_en_pin_bcm", byte)?,
        audio: member(t, "audio", audio)?,
        calibration_path: member(t, "calibration_path", text)?,
        routine: member(t, "routine", routine)?,
    })
}

fn source(contents: &str) -> ConfigSource {
    match toml::from_str::<Table>(contents) {
        Ok(t) => match file(&t) {
            Ok(f) => ConfigSource::Parsed(f),
            Err(e) => ConfigSource::Malformed(e),
        },
        Err(e) => ConfigSource::Malformed(e.to_string()),
    }
}

fn load(contents: &str) -> Result<Config, ConfigError> {
    Config::load("config.toml", source(contents), &no_env())
}

#[test]
fn defaults_are_valid() {
    let config = Config::default();
    assert_eq!(config.i2c_bus, 1);
    assert_eq!(config.hat_address, 0x14);
    assert_eq!(config.socket_mode, 0o660);
    assert_eq!(config.log_level, "info");
    assert_eq!(config.servo_default_ttl_ms, 500);
    assert_eq!(config.motor_default_ttl_ms, 500);
    assert_eq!(config.watchdog_poll_ms, 100);
    assert_eq!(config.motors.len(), 2);
    assert_eq!(config.motors[0].pwm_channel, 12);
    assert_eq!(config.motors[1].pwm_channel, 13);
}

#[test]
fn load_missing_file_returns_defaults() {
    let config = Config::load("/nonexistent/config.toml", ConfigSource::Missing, &no_env()).unwrap();
    assert_eq!(config, Config::default());
}

#[test]
fn load_toml_file() {
    let f = line(r#"
i2c_bus = 2
hat_address = 0x15
log_level = "debug"
servo_default_ttl_ms = 1000
"#);

    let config = load(&f).unwrap();
    assert_eq!(config.i2c_bus, 2);
    assert_eq!(config.hat_address, 0x15);
    assert_eq!(config.log_level, "debug");
    assert_eq!(config.servo_default_ttl_ms, 1000);
    // Non-specified fields keep defaults.
    assert_eq!(config.watchdog_poll_ms, 100);
}

#[test]
fn load_empty_file_returns_defaults() {
    let f = String::new();
    let config = load(&f).unwrap();
    assert_eq!(config, Config::default());
}

#[test]
fn invalid_log_level_rejected() {
    let f = line(r#"log_level = "verbose""#);
    let err = load(&f).unwrap_err();
    assert!(err.message().contains("log_level"));
}

#[test]
fn zero_ttl_rejected() {
    let f = line("servo_default_ttl_ms = 0");
    let err = load(&f).unwrap_err();
    assert!(err.message().contains("servo_default_ttl_ms"));
}

#[test]
fn zero_watchdog_rejected() {
    let f = line("watchdog_poll_ms = 0");
    let err = load(&f).unwrap_err();
    assert!(err.message().contains("watchdog_poll_ms"));
}

#[test]
fn zero_motor_ttl_rejected() {
    let f = line("motor_default_ttl_ms = 0");
    let err = load(&f).unwrap_err();
    assert!(err.message().contains("motor_default_ttl_ms"));
}

#[test]
fn invalid_motor_pwm_channel_rejected() {
    let f = line("[[motors]]\npwm_channel = 5\ndir_pin_bcm = 24\nreversed = false");
    let err = load(&f).unwrap_err();
    assert!(err.message().contains("pwm_channel"));
}

#[test]
fn too_many_motors_rejected() {
    let mut f = String::new();
    for ch in 12u8..=16 {
        f.push_str(&line(&format!("[[motors]]\npwm_channel = {ch}\ndir_pin_bcm = 24")));
    }
    let err = load(&f).unwrap_err();
    assert!(err.message().contains("motors"));
}

#[test]
fn load_motor_config_from_toml() {
    let f = line(r#"
motor_default_ttl_ms = 750
[[motors]]
pwm_channel = 14
dir_pin_bcm = 23
reversed = true
"#);
    let config = load(&f).unwrap();
    assert_eq!(config.motor_default_ttl_ms, 750);
    assert_eq!(config.motors.len(), 1);
    assert_eq!(config.motors[0].pwm_channel, 14);
    assert_eq!(config.motors[0].dir_pin_bcm, 23);
    assert!(config.motors[0].reversed);
}

#[test]
fn malformed_toml_rejected() {
    let f = line(&format!("this is not valid toml {{{{"));
    let err = load(&f).unwrap_err();
    assert!(matches!(err, ConfigError::Parse { .. }));
}

#[test]
fn env_overrides_apply() {
    let mut config = Config::default();
    config.apply_env_overrides(&EnvVars::read(|key: &str| match key {
        "NOMON_HAT_I2C_BUS" => Some("3".into()),
        "NOMON_HAT_ADDRESS" => Some("0x20".into()),
        "NOMON_HAT_LOG_LEVEL" => Some("debug".into()),
        _ => None,
    }));

    assert_eq!(config.i2c_bus, 3);
    assert_eq!(config.hat_address, 0x20);
    assert_eq!(config.log_level, "debug");
}

#[test]
fn defaults_include_servo_and_sensor_channels() {
    let config = Config::default();
    assert_eq!(config.servos.camera_pan, Some(0));
    assert_eq!(config.servos.camera_tilt, Some(1));
    assert_eq!(config.servos.steering, Some(2));
    assert_eq!(config.sensors.grayscale, [0, 1, 2]);
}

#[test]
fn servo_channels_configurable_from_toml() {
    let f = line(r#"
[servos]
camera_pan = 3
camera_tilt = 4
steering = 5
"#);
    let config = load(&f).unwrap();
    assert_eq!(config.servos.camera_pan, Some(3));
    assert_eq!(config.servos.camera_tilt, Some(4));
    assert_eq!(config.servos.steering, Some(5));
}

#[test]
fn servo_channel_out_of_range_rejected() {
    let f = line("[servos]\nsteering = 12");
    let err = load(&f).unwrap_err();
    assert!(err.message().contains("servos"));
}

#[test]
fn servo_channel_can_be_disabled() {
    // A partial [servos] table leaves unspecified fields as None.
    let f = line("[servos]\ncamera_pan = 0\ncamera_tilt = 1");
    let config = load(&f).unwrap();
    // steering was not specified in the override, so it is None.
    assert_eq!(config.servos.steering, None);
    assert_eq!(config.servos.camera_pan, Some(0));
    assert_eq!(config.servos.camera_tilt, Some(1));
}

#[test]
fn sensor_channels_configurable_from_toml() {
    let f = line("[sensors]\ngrayscale = [3, 4, 5]");
    let config = load(&f).unwrap();
    assert_eq!(config.sensors.grayscale, [3, 4, 5]);
}

#[test]
fn grayscale_channel_out_of_range_rejected() {
    let f = line("[sensors]\ngrayscale = [0, 1, 8]");
    let err = load(&f).unwrap_err();
    assert!(err.message().contains("grayscale"));
}

#[test]
fn duplicate_motor_pwm_channel_rejected() {
    let f = line("[[motors]]\npwm_channel = 12\ndir_pin_bcm = 24\n\
         [[motors]]\npwm_channel = 12\ndir_pin_bcm = 23");
    let err = load(&f).unwrap_err();
    assert!(err.message().contains("pwm_channel"));
    assert!(err.message().contains("duplicated"));
}

#[test]
fn duplicate_motor_dir_pin_rejected() {
    let f = line("[[motors]]\npwm_channel = 12\ndir_pin_bcm = 24\n\
         [[motors]]\npwm_channel = 13\ndir_pin_bcm = 24");
    let err = load(&f).unwrap_err();
    assert!(err.message().contains("dir_pin_bcm"));
    assert!(err.message().contains("duplicated"));
}

/// Helper: write a complete `[routine]` TOML section with one field overridden.
fn routine_toml(override_key: &str, override_val: &str) -> String {
    let defaults = [
        ("explore_speed_pct", "30.0"),
        ("obstacle_threshold_cm", "25.0"),
        ("cliff_threshold_normalized", "0.7"),
        ("loop_interval_ms", "100"),
        ("avoidance_backup_ms", "500"),
        ("avoidance_turn_angle_deg", "60.0"),
        ("max_duration_s", "300"),
    ];
    let mut lines = String::from("[routine]\n");
    for (k, v) in &defaults {
        let val = if *k == override_key { override_val } else { v };
        lines.push_str(&format!("{k} = {val}\n"));
    }
    lines
}

#[test]
fn routine_config_rejects_speed_pct_zero() {
    let f = routine_toml("explore_speed_pct", "0.0");
    let err = load(&f).unwrap_err();
    assert!(err.message().contains("explore_speed_pct"));
}

#[test]
fn routine_config_rejects_speed_pct_over_100() {
    let f = routine_toml("explore_speed_pct", "101.0");
    let err = load(&f).unwrap_err();
    assert!(err.message().contains("explore_speed_pct"));
}

#[test]
fn routine_config_rejects_cliff_threshold_negative() {
    let f = routine_toml("cliff_threshold_normalized", "-0.1");
    let err = load(&f).unwrap_err();
    assert!(err.message().contains("cliff_threshold_normalized"));
}

#[test]
fn routine_config_rejects_loop_interval_ms_too_low() {
    let f = routine_toml("loop_interval_ms", "49");
    let err = load(&f).unwrap_err();
    assert!(err.message().contains("loop_interval_ms"));
}

fn problem_of(change: fn(&mut Config)) -> Option<Problem> {
    let mut config = Config::default();
    change(&mut config);
    config.find_problem()
}

fn message_of(change: fn(&mut Config)) -> String {
    let mut config = Config::default();
    change(&mut config);
    config.validate().unwrap_err().message()
}

#[test]
fn defaults_have_no_problem() {
    assert_eq!(Config::default().find_problem(), None);
    assert!(Config::default().validate().is_ok());
    let config = Config::default();
    assert_eq!(config.socket_path, "/run/nomopractic/nomopractic.sock");
    assert_eq!(config.calibration_path, "/etc/nomopractic/calibration.toml");
    assert_eq!(config.ultrasonic, UltrasonicConfig { trig_pin_bcm: 27, echo_pin_bcm: 22, timeout_ms: 20 });
    assert_eq!(config.speaker_en_pin_bcm, 20);
    assert_eq!(config.motors[0].dir_pin_bcm, 24);
    assert!(!config.motors[0].reversed);
    assert_eq!(config.motors[1].dir_pin_bcm, 23);
    assert!(config.motors[1].reversed);
    assert_eq!(config.audio.input_controls, vec!["Mic", "Capture"]);
    assert_eq!(config.routine.explore_speed_pct.value.bits, 30.0f64.to_bits());
    assert_eq!(config.routine.explore_speed_pct.text, 30.0f64.to_string());
    assert_eq!(config.routine.obstacle_threshold_cm.bits, 25.0f64.to_bits());
    assert_eq!(config.routine.cliff_threshold_normalized.value.bits, 0.7f64.to_bits());
    assert_eq!(config.routine.cliff_threshold_normalized.text, 0.7f64.to_string());
    assert_eq!(config.routine.avoidance_turn_angle_deg.bits, 60.0f64.to_bits());
}

#[test]
fn every_problem_has_its_message() {
    assert_eq!(
        message_of(|c| c.log_level = "verbose".to_string()),
        "invalid log_level: 'verbose' is not one of [\"trace\", \"debug\", \"info\", \"warn\", \"error\"]"
    );
    assert_eq!(
        message_of(|c| c.servo_default_ttl_ms = 0),
        "invalid servo_default_ttl_ms: must be > 0"
    );
    assert_eq!(
        message_of(|c| c.motor_default_ttl_ms = 0),
        "invalid motor_default_ttl_ms: must be > 0"
    );
    assert_eq!(
        message_of(|c| {
            for _ in 0..3 {
                c.motors.push(c.motors[0]);
            }
        }),
        "invalid motors: at most 4 motor channels are supported"
    );
    assert_eq!(
        message_of(|c| c.motors[1].pwm_channel = 16),
        "invalid motors[].pwm_channel: motors[1].pwm_channel 16 is out of range 12–15"
    );
    assert_eq!(
        message_of(|c| c.motors[1].pwm_channel = 12),
        "invalid motors[].pwm_channel: motors[1].pwm_channel 12 is duplicated; each motor must use a unique PWM channel"
    );
    assert_eq!(
        message_of(|c| c.motors[1].dir_pin_bcm = 24),
        "invalid motors[].dir_pin_bcm: motors[1].dir_pin_bcm 24 is duplicated; each motor must use a unique direction pin"
    );
    assert_eq!(
        message_of(|c| c.servos.camera_pan = Some(12)),
        "invalid servos: servos.camera_pan channel 12 is out of range 0–11"
    );
    assert_eq!(
        message_of(|c| c.servos.camera_tilt = Some(200)),
        "invalid servos: servos.camera_tilt channel 200 is out of range 0–11"
    );
    assert_eq!(
        message_of(|c| c.servos.steering = Some(12)),
        "invalid servos: servos.steering channel 12 is out of range 0–11"
    );
    assert_eq!(
        message_of(|c| c.sensors.grayscale = [7, 8, 9]),
        "invalid sensors.grayscale: sensors.grayscale[1] channel 8 is out of range 0–7"
    );
    assert_eq!(
        message_of(|c| c.watchdog_poll_ms = 0),
        "invalid watchdog_poll_ms: must be > 0"
    );
    assert_eq!(
        message_of(|c| c.routine.explore_speed_pct = printed(&Value::Float(100.5)).unwrap()),
        "invalid routine.explore_speed_pct: 100.5 is out of range 1.0–100.0"
    );
    assert_eq!(
        message_of(|c| c.routine.obstacle_threshold_cm = Real::from_bits((-0.0f64).to_bits())),
        "invalid routine.obstacle_threshold_cm: must be > 0.0"
    );
    assert_eq!(
        message_of(|c| c.routine.cliff_threshold_normalized = printed(&Value::Float(1.25)).unwrap()),
        "invalid routine.cliff_threshold_normalized: 1.25 is out of range 0.0–1.0"
    );
    assert_eq!(
        message_of(|c| c.routine.loop_interval_ms = 49),
        "invalid routine.loop_interval_ms: 49 is below minimum 50 ms"
    );
}

#[test]
fn the_first_problem_is_the_one_reported() {
    // A channel that is out of range comes before one that is shared.
    assert_eq!(
        problem_of(|c| {
            c.motors[0].pwm_channel = 13;
            c.motors.push(MotorConfig { pwm_channel: 3, dir_pin_bcm: 24, reversed: false });
        }),
        Some(Problem::PwmRange(2))
    );
    // Of one motor, the channel comes before the pin.
    assert_eq!(
        problem_of(|c| {
            let first = c.motors[0];
            c.motors[1] = first;
        }),
        Some(Problem::PwmDuplicate(1))
    );
    // Motors come before servos, servos before sensors, sensors before the watchdog.
    assert_eq!(
        problem_of(|c| {
            c.servos.steering = Some(99);
            c.sensors.grayscale = [9, 9, 9];
            c.watchdog_poll_ms = 0;
        }),
        Some(Problem::Steering(99))
    );
}

#[test]
fn bounds_themselves_are_accepted() {
    let ok = |change: fn(&mut Config)| problem_of(change).is_none();
    assert!(ok(|c| c.routine.explore_speed_pct = printed(&Value::Float(1.0)).unwrap()));
    assert!(ok(|c| c.routine.explore_speed_pct = printed(&Value::Float(100.0)).unwrap()));
    assert!(ok(|c| c.routine.cliff_threshold_normalized = printed(&Value::Float(0.0)).unwrap()));
    assert!(ok(|c| c.routine.cliff_threshold_normalized = printed(&Value::Float(-0.0)).unwrap()));
    assert!(ok(|c| c.routine.cliff_threshold_normalized = printed(&Value::Float(1.0)).unwrap()));
    assert!(ok(|c| c.routine.obstacle_threshold_cm = Real::from_bits(1)));
    assert!(ok(|c| c.routine.loop_interval_ms = 50));
    assert!(ok(|c| c.servos.steering = Some(11)));
    assert!(ok(|c| c.sensors.grayscale = [7, 7, 7]));
    assert!(ok(|c| c.log_level = "WARN".to_string()));
    assert!(ok(|c| c.motors.clear()));
}

#[test]
fn what_is_no_number_is_out_of_range() {
    let nan = || PrintedReal { value: Real::from_bits(f64::NAN.to_bits()), text: "NaN".to_string() };
    let mut config = Config::default();
    config.routine.explore_speed_pct = nan();
    assert_eq!(config.find_problem(), Some(Problem::ExploreSpeed));
    let mut config = Config::default();
    config.routine.cliff_threshold_normalized = nan();
    assert_eq!(config.find_problem(), Some(Problem::CliffThreshold));
    let mut config = Config::default();
    config.routine.obstacle_threshold_cm = nan().value;
    assert_eq!(config.find_problem(), Some(Problem::ObstacleThreshold));
}

#[test]
fn log_levels_in_any_case_and_script() {
    // The Kelvin sign is a `k` in lower case, but no level has one.
    assert_eq!(
        problem_of(|c| c.log_level = "\u{212a}".to_string()),
        Some(Problem::LogLevel)
    );
    assert_eq!(problem_of(|c| c.log_level = "TrAcE".to_string()), None);
    assert_eq!(problem_of(|c| c.log_level = String::new()), Some(Problem::LogLevel));
}

#[test]
fn environment_prevails_over_file_and_file_over_defaults() {
    let env = EnvVars::read(|key: &str| match key {
        "NOMON_HAT_I2C_BUS" => Some("7".to_string()),
        "NOMON_HAT_SOCKET_PATH" => Some("/tmp/s".to_string()),
        "NOMON_HAT_SOCKET_MODE" => Some("600".to_string()),
        "NOMON_HAT_SERVO_DEFAULT_TTL_MS" => Some("250".to_string()),
        "NOMON_HAT_MOTOR_DEFAULT_TTL_MS" => Some("+350".to_string()),
        "NOMON_HAT_WATCHDOG_POLL_MS" => Some("50".to_string()),
        "NOMON_HAT_CALIBRATION_PATH" => Some("/tmp/c".to_string()),
        _ => None,
    });
    let contents = "i2c_bus = 2\nhat_address = 0x15\nsocket_path = \"/run/x\"\n";
    let config = Config::load("config.toml", source(contents), &env).unwrap();
    assert_eq!(config.i2c_bus, 7);
    assert_eq!(config.hat_address, 0x15);
    assert_eq!(config.socket_path, "/tmp/s");
    assert_eq!(config.socket_mode, 0o600);
    assert_eq!(config.servo_default_ttl_ms, 250);
    assert_eq!(config.motor_default_ttl_ms, 350);
    assert_eq!(config.watchdog_poll_ms, 50);
    assert_eq!(config.calibration_path, "/tmp/c");
    assert_eq!(config.log_level, "info");
}

#[test]
fn malformed_variables_are_ignored() {
    let env = EnvVars::read(|key: &str| match key {
        "NOMON_HAT_I2C_BUS" => Some("256".to_string()),
        "NOMON_HAT_ADDRESS" => Some("0xzz".to_string()),
        "NOMON_HAT_SOCKET_MODE" => Some("689".to_string()),
        "NOMON_HAT_SERVO_DEFAULT_TTL_MS" => Some("-1".to_string()),
        "NOMON_HAT_MOTOR_DEFAULT_TTL_MS" => Some(" 1".to_string()),
        "NOMON_HAT_WATCHDOG_POLL_MS" => Some("18446744073709551616".to_string()),
        _ => None,
    });
    let mut config = Config::default();
    config.apply_env_overrides(&env);
    assert_eq!(config, Config::default());
}

#[test]
fn addresses_in_either_form() {
    for (given, expected) in [("0x20", 0x20), ("20", 20), ("0x+1F", 0x1f), ("0XFF", 0x14), ("0x", 0x14), ("0x100", 0x14), ("", 0x14)] {
        let env = EnvVars { address: Some(given.to_string()), ..no_env() };
        let mut config = Config::default();
        config.apply_env_overrides(&env);
        assert_eq!(config.hat_address, expected, "{given}");
    }
}

#[test]
fn the_environment_is_validated_too() {
    let env = EnvVars { servo_default_ttl_ms: Some("0".to_string()), ..no_env() };
    let err = Config::load("config.toml", ConfigSource::Missing, &env).unwrap_err();
    assert!(matches!(err, ConfigError::Validation { field: "servo_default_ttl_ms", .. }));
}

#[test]
fn unreadable_and_malformed_files_are_told_apart() {
    let err = Config::load("/etc/x.toml", ConfigSource::Unreadable("denied".to_string()), &no_env());
    assert_eq!(err.unwrap_err().message(), "failed to read config file /etc/x.toml: denied");
    let err = Config::load("/etc/x.toml", ConfigSource::Malformed("line 1".to_string()), &no_env());
    assert_eq!(err.unwrap_err().message(), "failed to parse config file /etc/x.toml: line 1");
}

#[test]
fn a_partial_audio_table_keeps_the_other_defaults() {
    let config = load("[audio]\noutput_card_index = 2\ninput_controls = [\"ADC\"]\n").unwrap();
    assert_eq!(config.audio.output_card_index, Some(2));
    assert_eq!(config.audio.input_controls, vec!["ADC"]);
    assert_eq!(config.audio.output_control, "Master");
    assert_eq!(config.audio.input_card_name, "USB");
}
