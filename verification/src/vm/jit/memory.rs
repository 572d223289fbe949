//! Protection flags of the executable memory of the JIT.
use vstd::prelude::*;

verus! {

/// The text of a set of rights: `R`, `W` and `X` for the rights present,
/// `-` for those absent, in that order (`R-X` for read and execute).
pub open spec fn protection_text(bits: u8) -> Seq<char> {
    (if bits & 1 != 0 {
        "R"@
    } else {
        "-"@
    }) + (if bits & 2 != 0 {
        "W"@
    } else {
        "-"@
    }) + (if bits & 4 != 0 {
        "X"@
    } else {
        "-"@
    })
}

/// A set of access rights of a memory region: a combination of the
/// rights to read, to write and to execute.
#[derive(Debug, Clone, Copy, PartialEq, Eq, Structural)]
pub struct MemoryProtection {
    pub bits: u8,
}

impl MemoryProtection {
    /// The bit of the right to read.
    pub const READ_BIT: u8 = 1;
    /// The bit of the right to write.
    pub const WRITE_BIT: u8 = 2;
    /// The bit of the right to execute.
    pub const EXECUTE_BIT: u8 = 4;

    /// The right to read.
    pub fn read() -> (r: MemoryProtection)
        ensures
            r.bits == 1,
    {
        MemoryProtection { bits: Self::READ_BIT }
    }

    /// The right to write.
    pub fn write() -> (r: MemoryProtection)
        ensures
            r.bits == 2,
    {
        MemoryProtection { bits: Self::WRITE_BIT }
    }

    /// The right to execute.
    pub fn execute() -> (r: MemoryProtection)
        ensures
            r.bits == 4,
    {
        MemoryProtection { bits: Self::EXECUTE_BIT }
    }

    /// The rights of both `self` and `other`.
    pub fn union(self, other: MemoryProtection) -> (r: MemoryProtection)
        ensures
            r.bits == self.bits | other.bits,
    {
        MemoryProtection { bits: self.bits | other.bits }
    }

    /// The text of these rights (see [`protection_text`]).
    pub fn to_string(&self) -> (r: String)
        ensures
            r@ == protection_text(self.bits),
    {
        let mut s = String::new();
        s.append(if self.bits & Self::READ_BIT != 0 { "R" } else { "-" });
        s.append(if self.bits & Self::WRITE_BIT != 0 { "W" } else { "-" });
        s.append(if self.bits & Self::EXECUTE_BIT != 0 { "X" } else { "-" });
        s
    }

    /// Whether every right of `other` is in `self`.
    pub fn contains(self, other: MemoryProtection) -> (r: bool)
        ensures
            r == (self.bits & other.bits == other.bits),
    {
        self.bits & other.bits == other.bits
    }
}

} // verus!
