//! Build-time settings of the firmware.

use vstd::prelude::*;

verus! {

/// Number of client public keys that a configuration can hold.
pub const KEY_SLOTS: usize = 3;

/// The alphabet of generated SSIDs and passphrases.
pub const WIFI_PASSWORD_CHARS: [char; 62] = [
    'A', 'B', 'C', 'D', 'E', 'F', 'G', 'H', 'I', 'J', 'K', 'L', 'M', 'N', 'O', 'P', 'Q', 'R', 'S',
    'T', 'U', 'V', 'W', 'X', 'Y', 'Z', 'a', 'b', 'c', 'd', 'e', 'f', 'g', 'h', 'i', 'j', 'k', 'l',
    'm', 'n', 'o', 'p', 'q', 'r', 's', 't', 'u', 'v', 'w', 'x', 'y', 'z', '0', '1', '2', '3', '4',
    '5', '6', '7', '8', '9',
];

/// Optional parts of the firmware.
#[derive(Clone, Copy, Debug, PartialEq, Eq, Structural)]
pub struct Features {
    /// The configuration holds a static IPv6 address.
    pub ipv6: bool,
    /// Firmware can be replaced over SFTP.
    pub sftp_ota: bool,
    /// A CAN bus can be bridged besides the UART.
    pub can: bool,
}

} // verus!
