//! Hardware settings: the UART line and the radio band.

use vstd::prelude::*;
use vstd::string::*;

verus! {

/// Parity of a UART frame.
#[derive(Clone, Copy, Debug, PartialEq, Eq, Structural)]
pub enum Parity {
    NoParity,
    Even,
    Odd,
}

impl Parity {
    /// The number that a stored configuration holds for this parity.
    pub open spec fn code(self) -> u8 {
        match self {
            Parity::NoParity => 0,
            Parity::Even => 1,
            Parity::Odd => 2,
        }
    }

    /// The parity that a stored number stands for; an unknown number means none.
    pub open spec fn of_code(code: u8) -> Parity {
        if code == 1 {
            Parity::Even
        } else if code == 2 {
            Parity::Odd
        } else {
            Parity::NoParity
        }
    }

    pub fn to_u8(self) -> (code: u8)
        ensures
            code == self.code(),
    {
        match self {
            Parity::NoParity => 0,
            Parity::Even => 1,
            Parity::Odd => 2,
        }
    }

    pub fn from_u8(code: u8) -> (parity: Parity)
        ensures
            parity == Parity::of_code(code),
    {
        if code == 1 {
            Parity::Even
        } else if code == 2 {
            Parity::Odd
        } else {
            Parity::NoParity
        }
    }

    /// The parity with this name.
    pub open spec fn named(name: Seq<char>) -> Option<Parity> {
        if name == "none"@ {
            Some(Parity::NoParity)
        } else if name == "even"@ {
            Some(Parity::Even)
        } else if name == "odd"@ {
            Some(Parity::Odd)
        } else {
            None
        }
    }

    /// Reads `none`, `even` or `odd`.
    pub fn from_str(name: &str) -> (parity: Option<Parity>)
        ensures
            parity == Parity::named(name@),
    {
        if crate::text::equals(name, "none") {
            Some(Parity::NoParity)
        } else if crate::text::equals(name, "even") {
            Some(Parity::Even)
        } else if crate::text::equals(name, "odd") {
            Some(Parity::Odd)
        } else {
            None
        }
    }
}

/// Line parameters of the bridged UART.
#[derive(Clone, Copy, Debug, PartialEq, Eq, Structural)]
pub struct UartParams {
    pub baud: u32,
    pub data_bits: u8,
    pub parity: Parity,
    pub stop_bits: u8,
}

impl Default for UartParams {
    /// 115200 baud, eight data bits, no parity, one stop bit.
    fn default() -> (params: UartParams)
        ensures
            params == (UartParams {
                baud: 115200,
                data_bits: 8,
                parity: Parity::NoParity,
                stop_bits: 1,
            }),
    {
        UartParams { baud: 115200, data_bits: 8, parity: Parity::NoParity, stop_bits: 1 }
    }
}

/// Radio band of the access point.
#[derive(Clone, Copy, Debug, PartialEq, Eq, Structural)]
pub enum BandMode {
    Band2_4G,
    Band5G,
    Auto,
}

impl BandMode {
    /// The number that a configuration holds for this band.
    pub open spec fn code(self) -> u8 {
        match self {
            BandMode::Band2_4G => 0,
            BandMode::Band5G => 1,
            BandMode::Auto => 2,
        }
    }

    pub fn to_u8(self) -> (code: u8)
        ensures
            code == self.code(),
    {
        match self {
            BandMode::Band2_4G => 0,
            BandMode::Band5G => 1,
            BandMode::Auto => 2,
        }
    }

    /// The band with this name, in upper or lower case.
    pub open spec fn named(name: Seq<char>) -> Option<BandMode> {
        let lower = crate::text::ascii_lower(name);
        if lower == "2.4g"@ {
            Some(BandMode::Band2_4G)
        } else if lower == "5g"@ {
            Some(BandMode::Band5G)
        } else if lower == "auto"@ {
            Some(BandMode::Auto)
        } else {
            None
        }
    }

    /// Reads `2.4g`, `5g` or `auto`, in upper or lower case.
    pub fn from_str(name: &str) -> (band: Option<BandMode>)
        ensures
            band == BandMode::named(name@),
    {
        if crate::text::equals_ignoring_case(name, "2.4g") {
            Some(BandMode::Band2_4G)
        } else if crate::text::equals_ignoring_case(name, "5g") {
            Some(BandMode::Band5G)
        } else if crate::text::equals_ignoring_case(name, "auto") {
            Some(BandMode::Auto)
        } else {
            None
        }
    }
}

} // verus!
