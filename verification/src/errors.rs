//! Errors of the library.

use vstd::prelude::*;

use crate::wire::WireError;

verus! {

/// Why an operation failed.
#[derive(Clone, Copy, Debug, PartialEq, Eq, Structural)]
pub enum StampError {
    /// The random number generator failed.
    Rng,
    /// A public key is not in the OpenSSH format.
    KeyFormat,
    /// A public key is of a kind that is not supported.
    BadKey,
    /// A record could not be encoded.
    Wire(WireError),
    /// The flash could not be read.
    FlashRead,
    /// The flash holds nothing that decodes as a configuration.
    Undecodable,
    /// The stored configuration is of another version.
    WrongVersion,
    /// The stored configuration does not match its hash.
    BadHash,
    /// The encoded configuration does not fit the flash area.
    TooLarge,
    /// The flash could not be erased.
    FlashErase,
    /// The flash could not be written.
    FlashWrite,
    /// A setting was given a value that it does not accept.
    InvalidValue,
    /// A request takes a client that has authenticated.
    Unauthenticated,
    /// A request came at a time when it cannot be served.
    BadUsage,
}

impl StampError {
    /// The message shown for this error.
    pub open spec fn text(self) -> Seq<char> {
        match self {
            StampError::Rng => "RNG failed"@,
            StampError::KeyFormat => "bad public key format"@,
            StampError::BadKey => "bad key"@,
            StampError::Wire(_) => "encoding failed"@,
            StampError::FlashRead => "flash error"@,
            StampError::Undecodable => "failed to decode flash config"@,
            StampError::WrongVersion => "wrong config version"@,
            StampError::BadHash => "bad config hash"@,
            StampError::TooLarge => "encoded config too large for flash area"@,
            StampError::FlashErase => "flash erase error"@,
            StampError::FlashWrite => "flash write error"@,
            StampError::InvalidValue => "invalid value"@,
            StampError::Unauthenticated => "not authenticated"@,
            StampError::BadUsage => "bad usage"@,
        }
    }

    pub fn message(&self) -> (m: &'static str)
        ensures
            m@ == self.text(),
    {
        match self {
            StampError::Rng => "RNG failed",
            StampError::KeyFormat => "bad public key format",
            StampError::BadKey => "bad key",
            StampError::Wire(_) => "encoding failed",
            StampError::FlashRead => "flash error",
            StampError::Undecodable => "failed to decode flash config",
            StampError::WrongVersion => "wrong config version",
            StampError::BadHash => "bad config hash",
            StampError::TooLarge => "encoded config too large for flash area",
            StampError::FlashErase => "flash erase error",
            StampError::FlashWrite => "flash write error",
            StampError::InvalidValue => "invalid value",
            StampError::Unauthenticated => "not authenticated",
            StampError::BadUsage => "bad usage",
        }
    }
}

} // verus!
