//! Configuration, storage, session handling and firmware update of a serial
//! bridge that is reached over SSH.

pub mod codec;
pub mod config;
pub mod errors;
pub mod hal;
pub mod handle;
pub mod laws;
pub mod ota;
pub mod outside;
pub mod settings;
pub mod store;
pub mod text;
pub mod wire;
