//! Firmware update: the parameters that precede a firmware image, and the state
//! machine that takes an update in.

pub mod handler;
pub mod laws;
pub mod outcomes;
pub mod tlv;
