//! A pairing relay: devices and mobiles meet under a shared identifier and
//! exchange text messages through per-role broadcast channels.

pub mod channel;
pub mod config;
pub mod forward;
pub mod handler;
pub mod json;
pub mod laws;
pub mod model;
pub mod render;
pub mod state;
pub mod types;
