//! What holds of the parts that the rest is built of: the wire format, the configuration, its
//! encoding, and the record in flash.

pub mod device;
pub mod flash;
pub mod layout;
pub mod primitives;
pub mod reading;
