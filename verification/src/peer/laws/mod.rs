//! What the device peer is for: what holds of its operations whatever happens.

pub mod devices;
pub mod rounds;
