//! The register table of the MAX7219 and its decode modes.

use vstd::prelude::*;

use crate::error::Error;

verus! {

/// A register of the chip, addressed by one byte on the wire.
#[derive(Clone, Copy, Debug, PartialEq, Eq, Structural)]
pub enum Register {
    NoOp,
    Digit0,
    Digit1,
    Digit2,
    Digit3,
    Digit4,
    Digit5,
    Digit6,
    Digit7,
    DecodeMode,
    Intensity,
    ScanLimit,
    Shutdown,
    DisplayTest,
}

/// The digit register with index `n`, for `n` in `0..8`.
pub open spec fn digit_register(n: int) -> Register {
    if n == 0 {
        Register::Digit0
    } else if n == 1 {
        Register::Digit1
    } else if n == 2 {
        Register::Digit2
    } else if n == 3 {
        Register::Digit3
    } else if n == 4 {
        Register::Digit4
    } else if n == 5 {
        Register::Digit5
    } else if n == 6 {
        Register::Digit6
    } else {
        Register::Digit7
    }
}

impl Register {
    /// The wire address of the register.
    pub open spec fn spec_addr(self) -> u8 {
        match self {
            Register::NoOp => 0x00,
            Register::Digit0 => 0x01,
            Register::Digit1 => 0x02,
            Register::Digit2 => 0x03,
            Register::Digit3 => 0x04,
            Register::Digit4 => 0x05,
            Register::Digit5 => 0x06,
            Register::Digit6 => 0x07,
            Register::Digit7 => 0x08,
            Register::DecodeMode => 0x09,
            Register::Intensity => 0x0A,
            Register::ScanLimit => 0x0B,
            Register::Shutdown => 0x0C,
            Register::DisplayTest => 0x0F,
        }
    }

    /// Returns the wire address of the register.
    #[verifier::when_used_as_spec(spec_addr)]
    pub fn addr(self) -> (r: u8)
        ensures
            r == self.spec_addr(),
    {
        match self {
            Register::NoOp => 0x00,
            Register::Digit0 => 0x01,
            Register::Digit1 => 0x02,
            Register::Digit2 => 0x03,
            Register::Digit3 => 0x04,
            Register::Digit4 => 0x05,
            Register::Digit5 => 0x06,
            Register::Digit6 => 0x07,
            Register::Digit7 => 0x08,
            Register::DecodeMode => 0x09,
            Register::Intensity => 0x0A,
            Register::ScanLimit => 0x0B,
            Register::Shutdown => 0x0C,
            Register::DisplayTest => 0x0F,
        }
    }

    /// The eight digit registers, in order of digit index.
    pub fn digits() -> (r: [Register; 8])
        ensures
            forall|k: int| 0 <= k < 8 ==> #[trigger] r@[k] == digit_register(k),
    {
        [
            Register::Digit0,
            Register::Digit1,
            Register::Digit2,
            Register::Digit3,
            Register::Digit4,
            Register::Digit5,
            Register::Digit6,
            Register::Digit7,
        ]
    }

    /// The digit register with index `digit`; `InvalidDigit` above 7.
    pub fn try_digit(digit: u8) -> (r: Result<Register, Error>)
        ensures
            digit < 8 ==> r == Ok::<Register, Error>(digit_register(digit as int)),
            digit >= 8 ==> r == Err::<Register, Error>(Error::InvalidDigit),
    {
        match digit {
            0 => Ok(Register::Digit0),
            1 => Ok(Register::Digit1),
            2 => Ok(Register::Digit2),
            3 => Ok(Register::Digit3),
            4 => Ok(Register::Digit4),
            5 => Ok(Register::Digit5),
            6 => Ok(Register::Digit6),
            7 => Ok(Register::Digit7),
            _ => Err(Error::InvalidDigit),
        }
    }
}

/// The digit registers have the distinct, contiguous addresses `1..=8`, none of
/// which is the no-op address.
pub proof fn lemma_digit_addresses(n: int, m: int)
    requires
        0 <= n < 8,
        0 <= m < 8,
    ensures
        digit_register(n).spec_addr() == n + 1,
        digit_register(n).spec_addr() != Register::NoOp.spec_addr(),
        n != m ==> digit_register(n).spec_addr() != digit_register(m).spec_addr(),
{
}

/// Which digits the chip decodes as Code B characters instead of raw segments.
#[derive(Clone, Copy, Debug, PartialEq, Eq, Structural)]
pub enum DecodeMode {
    /// Every digit takes raw segment bytes.
    NoDecode,
    /// Digit 0 is decoded.
    Digit0,
    /// Digits 0 to 3 are decoded.
    Digits0To3,
    /// All eight digits are decoded.
    AllDigits,
}

impl DecodeMode {
    /// The byte written to the decode-mode register.
    pub open spec fn spec_value(self) -> u8 {
        match self {
            DecodeMode::NoDecode => 0x00,
            DecodeMode::Digit0 => 0x01,
            DecodeMode::Digits0To3 => 0x0F,
            DecodeMode::AllDigits => 0xFF,
        }
    }

    /// Returns the byte written to the decode-mode register.
    #[verifier::when_used_as_spec(spec_value)]
    pub fn value(self) -> (r: u8)
        ensures
            r == self.spec_value(),
    {
        match self {
            DecodeMode::NoDecode => 0x00,
            DecodeMode::Digit0 => 0x01,
            DecodeMode::Digits0To3 => 0x0F,
            DecodeMode::AllDigits => 0xFF,
        }
    }
}

} // verus!
