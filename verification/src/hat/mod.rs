//! What the daemon knows of the hardware that it drives.

pub mod audio;
pub mod error;
pub mod gpio;
pub mod lease;
