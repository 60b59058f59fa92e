//! The verified core of a robot hardware daemon.

pub mod calibration;
pub mod config;
pub mod hat;
pub mod ipc;
pub mod number;
pub mod text;
