//! # W8 registers
//!
//! A register is an identifier of one of the 255 general-purpose registers.
use vstd::prelude::*;

verus! {

/// The text of a register: `R` and its number.
pub open spec fn register_text(r: Register) -> Seq<char> {
    "R"@ + crate::text::decimal(r.0 as nat)
}

/// A register identifier. Valid registers are numbered 0-254.
#[derive(Debug, Clone, Copy, PartialEq, Eq, Structural)]
pub struct Register(pub u8);

impl Register {
    /// The maximum register number: W8 has 255 registers, numbered 0-254.
    pub const MAX_INDEX: u8 = 254;

    /// Whether this identifier names one of the 255 registers.
    pub open spec fn is_valid(self) -> bool {
        self.0 <= 254
    }

    /// A register with the given number, or `None` when the number is
    /// outside 0-254.
    pub fn new(number: u8) -> (r: Option<Self>)
        ensures
            number <= 254 ==> r == Some(Register(number)),
            number > 254 ==> r is None,
    {
        if number <= Self::MAX_INDEX {
            Some(Self(number))
        } else {
            None
        }
    }

    /// The text of this register: `R` and its number.
    pub fn to_string(&self) -> (r: String)
        ensures
            r@ == register_text(*self),
    {
        let mut s = String::from_str("R");
        crate::text::push_decimal(&mut s, self.0 as u64);
        s
    }
}

} // verus!
