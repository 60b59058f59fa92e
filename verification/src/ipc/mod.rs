//! The protocol that clients speak: requests, what they ask for, and responses.

pub mod handler;
pub mod laws;
pub mod methods;
pub mod motion;
pub mod outcome;
pub mod params;
pub mod plan;
pub mod replies;
pub mod schema;
pub mod state;
