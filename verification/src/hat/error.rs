//! Errors of the hardware drivers, and the codes under which clients see them.

use vstd::prelude::*;
use vstd::string::*;

use crate::hat::audio::AudioError;
use crate::text;

verus! {

/// Errors from the board's bus. Each carries the text that describes it.
#[derive(Debug)]
pub enum HatError {
    /// The bus failed.
    I2c(String),
    InvalidChannel(String),
    InvalidServoChannel(String),
    InvalidMotorChannel(String),
    InvalidPulse(String),
    InvalidAngle(String),
    InvalidParam(String),
}

/// Errors from the pins. Each carries the text that describes it.
#[derive(Debug)]
pub enum GpioError {
    /// The pin could not be driven or read.
    Gpio(String),
    /// The pin cannot be written.
    ReadOnly(String),
}

/// Errors from a motor: of its PWM channel or of its direction pin.
#[derive(Debug)]
pub enum MotorError {
    Hat(HatError),
    Gpio(GpioError),
}

/// Errors from the distance sensor.
#[derive(Debug)]
pub enum UltrasonicError {
    Gpio(GpioError),
    /// No measurement within so many milliseconds.
    Timeout(u64),
    /// No echo that can be believed.
    NoEcho,
}

/// An error that clients see under a code.
pub trait ErrorCode {
    /// The code, as a sequence of characters.
    spec fn code(&self) -> Seq<char>;

    /// The code under which clients see this error.
    fn error_code(&self) -> (r: &'static str)
        ensures
            r@ == self.code(),
    ;
}

impl ErrorCode for HatError {
    open spec fn code(&self) -> Seq<char> {
        match self {
            HatError::I2c(_) => "HARDWARE_ERROR"@,
            _ => "INVALID_PARAMS"@,
        }
    }

    fn error_code(&self) -> (r: &'static str) {
        match self {
            HatError::I2c(_) => "HARDWARE_ERROR",
            HatError::InvalidChannel(_)
            | HatError::InvalidServoChannel(_)
            | HatError::InvalidMotorChannel(_)
            | HatError::InvalidPulse(_)
            | HatError::InvalidAngle(_)
            | HatError::InvalidParam(_) => "INVALID_PARAMS",
        }
    }
}

impl ErrorCode for GpioError {
    open spec fn code(&self) -> Seq<char> {
        match self {
            GpioError::Gpio(_) => "HARDWARE_ERROR"@,
            GpioError::ReadOnly(_) => "INVALID_PARAMS"@,
        }
    }

    fn error_code(&self) -> (r: &'static str) {
        match self {
            GpioError::Gpio(_) => "HARDWARE_ERROR",
            GpioError::ReadOnly(_) => "INVALID_PARAMS",
        }
    }
}

impl ErrorCode for MotorError {
    open spec fn code(&self) -> Seq<char> {
        match self {
            MotorError::Hat(e) => e.code(),
            MotorError::Gpio(e) => e.code(),
        }
    }

    fn error_code(&self) -> (r: &'static str) {
        match self {
            MotorError::Hat(e) => e.error_code(),
            MotorError::Gpio(e) => e.error_code(),
        }
    }
}

impl ErrorCode for AudioError {
    open spec fn code(&self) -> Seq<char> {
        match self {
            AudioError::Parse(_) => "INTERNAL_ERROR"@,
            _ => "HARDWARE_ERROR"@,
        }
    }

    fn error_code(&self) -> (r: &'static str) {
        match self {
            AudioError::Command(_) | AudioError::Io(_) => "HARDWARE_ERROR",
            AudioError::Parse(_) => "INTERNAL_ERROR",
        }
    }
}

impl HatError {
    /// The text that describes the error.
    pub open spec fn text(&self) -> Seq<char> {
        match self {
            HatError::I2c(s) => s@,
            HatError::InvalidChannel(s) => s@,
            HatError::InvalidServoChannel(s) => s@,
            HatError::InvalidMotorChannel(s) => s@,
            HatError::InvalidPulse(s) => s@,
            HatError::InvalidAngle(s) => s@,
            HatError::InvalidParam(s) => s@,
        }
    }

    /// The text that describes the error.
    pub fn message(&self) -> (r: String)
        ensures
            r@ == self.text(),
    {
        match self {
            HatError::I2c(s) => s.clone(),
            HatError::InvalidChannel(s) => s.clone(),
            HatError::InvalidServoChannel(s) => s.clone(),
            HatError::InvalidMotorChannel(s) => s.clone(),
            HatError::InvalidPulse(s) => s.clone(),
            HatError::InvalidAngle(s) => s.clone(),
            HatError::InvalidParam(s) => s.clone(),
        }
    }
}

impl GpioError {
    /// The text that describes the error.
    pub open spec fn text(&self) -> Seq<char> {
        match self {
            GpioError::Gpio(s) => s@,
            GpioError::ReadOnly(s) => s@,
        }
    }

    /// The text that describes the error.
    pub fn message(&self) -> (r: String)
        ensures
            r@ == self.text(),
    {
        match self {
            GpioError::Gpio(s) => s.clone(),
            GpioError::ReadOnly(s) => s.clone(),
        }
    }
}

impl MotorError {
    /// The text that describes the error.
    pub open spec fn text(&self) -> Seq<char> {
        match self {
            MotorError::Hat(e) => e.text(),
            MotorError::Gpio(e) => e.text(),
        }
    }

    /// The text that describes the error.
    pub fn message(&self) -> (r: String)
        ensures
            r@ == self.text(),
    {
        match self {
            MotorError::Hat(e) => e.message(),
            MotorError::Gpio(e) => e.message(),
        }
    }
}

impl UltrasonicError {
    /// The code and the text under which clients see the error.
    pub open spec fn failure(&self) -> (Seq<char>, Seq<char>) {
        match self {
            UltrasonicError::Timeout(ms) => (
                "TIMEOUT"@,
                "ultrasonic measurement timed out after "@ + text::decimal_of(*ms as nat)
                    + " ms"@,
            ),
            UltrasonicError::NoEcho => (
                "NO_ECHO"@,
                "no valid echo received (object out of sensor range 2–400 cm)"@,
            ),
            UltrasonicError::Gpio(e) => (e.code(), e.text()),
        }
    }

    /// The code under which clients see this error.
    pub fn error_code(&self) -> (r: &'static str)
        ensures
            r@ == self.failure().0,
    {
        match self {
            UltrasonicError::Timeout(_) => "TIMEOUT",
            UltrasonicError::NoEcho => "NO_ECHO",
            UltrasonicError::Gpio(e) => e.error_code(),
        }
    }

    /// The text that describes the error.
    pub fn message(&self) -> (r: String)
        ensures
            r@ == self.failure().1,
    {
        match self {
            UltrasonicError::Timeout(ms) => "ultrasonic measurement timed out after ".to_owned().concat(
                text::decimal(*ms).as_str(),
            ).concat(" ms"),
            UltrasonicError::NoEcho => "no valid echo received (object out of sensor range 2–400 cm)".to_owned(),
            UltrasonicError::Gpio(e) => e.message(),
        }
    }
}

/// A motor's error has the code and the text of its part that failed.
pub proof fn law_motor_errors_are_those_of_their_parts(hat: HatError, gpio: GpioError)
    ensures
        MotorError::Hat(hat).code() == hat.code(),
        MotorError::Hat(hat).text() == hat.text(),
        MotorError::Gpio(gpio).code() == gpio.code(),
        MotorError::Gpio(gpio).text() == gpio.text(),
{
}

} // verus!
