//! Verified core of a NAT traversal experiment kit.

pub mod addr;
pub mod baseline;
pub mod candidate;
pub mod client;
pub mod gate;
pub mod gateway;
pub mod keyfile;
pub mod observer;
pub mod probe;
pub mod result;
pub mod rfc3339;
pub mod rng;
pub mod services;
pub mod session;
pub mod stream;
pub mod stun;
pub mod stun_laws;
pub mod text;
pub mod time;
pub mod tunnel;
pub mod wire;
