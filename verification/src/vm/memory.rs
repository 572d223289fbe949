//! # W8 memory
//!
//! The memory of the machine is a contiguous sequence of bytes addressed from
//! `0`. Values wider than a byte are stored little-endian. An access is
//! refused (`None`) unless all of its bytes lie within the memory.
use vstd::prelude::*;

use crate::bytes::{read_u16, read_u32, read_u64, u16_to_le_bytes, u32_to_le_bytes, u64_to_le_bytes};

verus! {

/// The memory of the machine.
#[derive(Debug, Clone, PartialEq, Eq)]
pub struct WVMMemory {
    data: Vec<u8>,
}

/// `mem` with `bytes` written at `address`.
pub open spec fn spliced(mem: Seq<u8>, address: int, bytes: Seq<u8>) -> Seq<u8> {
    mem.subrange(0, address) + bytes + mem.subrange(address + bytes.len(), mem.len() as int)
}

/// Whether `n` bytes at `address` lie within a memory of `len` bytes.
pub open spec fn in_bounds(len: nat, address: int, n: int) -> bool {
    0 <= address && address + n <= len
}

/// Writing bytes keeps the size of the memory and every byte outside the
/// written range, and the written range then holds the bytes.
pub proof fn lemma_spliced(mem: Seq<u8>, address: int, bytes: Seq<u8>)
    requires
        in_bounds(mem.len(), address, bytes.len() as int),
    ensures
        spliced(mem, address, bytes).len() == mem.len(),
        spliced(mem, address, bytes).subrange(address, address + bytes.len()) == bytes,
        forall|i: int|
            0 <= i < mem.len() && !(address <= i < address + bytes.len()) ==> #[trigger] spliced(
                mem,
                address,
                bytes,
            )[i] == mem[i],
{
    let m = spliced(mem, address, bytes);
    assert(m.subrange(address, address + bytes.len()) =~= bytes);
}

/// A load of the width of a store, at the address of the store, gives back
/// the stored value.
pub proof fn lemma_load_after_store(mem: Seq<u8>, address: int, v8: u8, v16: u16, v32: u32, v64: u64)
    requires
        0 <= address,
    ensures
        in_bounds(mem.len(), address, 1) ==> spliced(mem, address, seq![v8])[address] == v8,
        in_bounds(mem.len(), address, 2) ==> crate::bytes::le_u16(
            spliced(mem, address, crate::bytes::u16_le_bytes(v16)),
            address,
        ) == v16,
        in_bounds(mem.len(), address, 4) ==> crate::bytes::le_u32(
            spliced(mem, address, crate::bytes::u32_le_bytes(v32)),
            address,
        ) == v32,
        in_bounds(mem.len(), address, 8) ==> crate::bytes::le_u64(
            spliced(mem, address, crate::bytes::u64_le_bytes(v64)),
            address,
        ) == v64,
{
    crate::bytes::lemma_le_roundtrip(v16, v32, v64);
    if in_bounds(mem.len(), address, 1) {
        lemma_spliced(mem, address, seq![v8]);
        assert(spliced(mem, address, seq![v8]).subrange(address, address + 1)[0] == v8);
    }
    if in_bounds(mem.len(), address, 2) {
        let b = crate::bytes::u16_le_bytes(v16);
        lemma_spliced(mem, address, b);
        assert(b.subrange(0, 2) =~= b);
        crate::bytes::lemma_le_subrange(spliced(mem, address, b), address, b, 0, 2);
    }
    if in_bounds(mem.len(), address, 4) {
        let b = crate::bytes::u32_le_bytes(v32);
        lemma_spliced(mem, address, b);
        assert(b.subrange(0, 4) =~= b);
        crate::bytes::lemma_le_subrange(spliced(mem, address, b), address, b, 0, 4);
    }
    if in_bounds(mem.len(), address, 8) {
        let b = crate::bytes::u64_le_bytes(v64);
        lemma_spliced(mem, address, b);
        assert(b.subrange(0, 8) =~= b);
        crate::bytes::lemma_le_subrange(spliced(mem, address, b), address, b, 0, 8);
    }
}

impl View for WVMMemory {
    type V = Seq<u8>;

    closed spec fn view(&self) -> Seq<u8> {
        self.data@
    }
}

/// The result of a store of `bytes` at `address` into `old`: `Some(())` with
/// the bytes written when they fit, `None` with nothing changed otherwise.
pub open spec fn stored(old: Seq<u8>, new: Seq<u8>, address: int, bytes: Seq<u8>, r: Option<()>) -> bool {
    if in_bounds(old.len(), address, bytes.len() as int) {
        r == Some(()) && new == spliced(old, address, bytes)
    } else {
        r is None && new == old
    }
}

impl WVMMemory {
    /// Memory of `size` bytes, all zero.
    pub fn new(size: usize) -> (r: Self)
        ensures
            r@ == Seq::new(size as nat, |i: int| 0u8),
    {
        let data = vec![0u8; size];
        assert(data@ =~= Seq::new(size as nat, |i: int| 0u8));
        Self { data }
    }

    /// The size of the memory in bytes.
    pub fn len(&self) -> (r: usize)
        ensures
            r == self@.len(),
    {
        self.data.len()
    }

    /// The bytes of the memory.
    pub fn as_slice(&self) -> (r: &[u8])
        ensures
            r@ == self@,
    {
        self.data.as_slice()
    }

    // ================== load_* ==================

    /// The byte at `address`.
    pub fn load_u8(&self, address: usize) -> (r: Option<u8>)
        ensures
            r == if address < self@.len() { Some(self@[address as int]) } else { None::<u8> },
    {
        if address < self.data.len() {
            Some(self.data[address])
        } else {
            None
        }
    }

    /// The `u16` at `address..address + 2`.
    pub fn load_u16(&self, address: usize) -> (r: Option<u16>)
        ensures
            r == if in_bounds(self@.len(), address as int, 2) {
                Some(crate::bytes::le_u16(self@, address as int))
            } else {
                None::<u16>
            },
    {
        if address <= self.data.len() && self.data.len() - address >= 2 {
            Some(read_u16(self.data.as_slice(), address))
        } else {
            None
        }
    }

    /// The `u32` at `address..address + 4`.
    pub fn load_u32(&self, address: usize) -> (r: Option<u32>)
        ensures
            r == if in_bounds(self@.len(), address as int, 4) {
                Some(crate::bytes::le_u32(self@, address as int))
            } else {
                None::<u32>
            },
    {
        if address <= self.data.len() && self.data.len() - address >= 4 {
            Some(read_u32(self.data.as_slice(), address))
        } else {
            None
        }
    }

    /// The `u64` at `address..address + 8`.
    pub fn load_u64(&self, address: usize) -> (r: Option<u64>)
        ensures
            r == if in_bounds(self@.len(), address as int, 8) {
                Some(crate::bytes::le_u64(self@, address as int))
            } else {
                None::<u64>
            },
    {
        if address <= self.data.len() && self.data.len() - address >= 8 {
            Some(read_u64(self.data.as_slice(), address))
        } else {
            None
        }
    }

    /// The byte at `address`, as a signed value.
    pub fn load_i8(&self, address: usize) -> (r: Option<i8>)
        ensures
            r == if address < self@.len() { Some(self@[address as int] as i8) } else { None::<i8> },
    {
        match self.load_u8(address) {
            Some(v) => Some(v as i8),
            None => None,
        }
    }

    /// The two's-complement `i16` at `address..address + 2`.
    pub fn load_i16(&self, address: usize) -> (r: Option<i16>)
        ensures
            r == if in_bounds(self@.len(), address as int, 2) {
                Some(crate::bytes::le_u16(self@, address as int) as i16)
            } else {
                None::<i16>
            },
    {
        match self.load_u16(address) {
            Some(v) => Some(v as i16),
            None => None,
        }
    }

    /// The two's-complement `i32` at `address..address + 4`.
    pub fn load_i32(&self, address: usize) -> (r: Option<i32>)
        ensures
            r == if in_bounds(self@.len(), address as int, 4) {
                Some(crate::bytes::le_u32(self@, address as int) as i32)
            } else {
                None::<i32>
            },
    {
        match self.load_u32(address) {
            Some(v) => Some(v as i32),
            None => None,
        }
    }

    /// The two's-complement `i64` at `address..address + 8`.
    pub fn load_i64(&self, address: usize) -> (r: Option<i64>)
        ensures
            r == if in_bounds(self@.len(), address as int, 8) {
                Some(crate::bytes::le_u64(self@, address as int) as i64)
            } else {
                None::<i64>
            },
    {
        match self.load_u64(address) {
            Some(v) => Some(v as i64),
            None => None,
        }
    }

    // ================== store_* ==================

    /// Writes `bytes` at `address` when they fit.
    fn write(&mut self, address: usize, bytes: &[u8]) -> (r: Option<()>)
        ensures
            stored(old(self)@, final(self)@, address as int, bytes@, r),
    {
        let n = bytes.len();
        if !(address <= self.data.len() && self.data.len() - address >= n) {
            return None;
        }
        let ghost old_data = self.data@;
        let len = self.data.len();
        let mut i: usize = 0;
        while i < n
            invariant
                n == bytes@.len(),
                len == self.data@.len(),
                address + n <= self.data@.len(),
                old_data.len() == self.data@.len(),
                i <= n,
                self.data@ =~= spliced(old_data, address as int, bytes@.subrange(0, i as int)),
            decreases n - i,
        {
            self.data[address + i] = bytes[i];
            i = i + 1;
            proof {
                assert(self.data@ =~= spliced(old_data, address as int, bytes@.subrange(0, i as int)));
            }
        }
        proof {
            assert(bytes@.subrange(0, n as int) =~= bytes@);
        }
        Some(())
    }

    /// Writes a byte at `address`.
    pub fn store_u8(&mut self, address: usize, value: u8) -> (r: Option<()>)
        ensures
            stored(old(self)@, final(self)@, address as int, seq![value], r),
    {
        let bytes = [value];
        proof {
            assert(bytes@ =~= seq![value]);
        }
        self.write(address, &bytes)
    }

    /// Writes a little-endian `u16` at `address..address + 2`.
    pub fn store_u16(&mut self, address: usize, value: u16) -> (r: Option<()>)
        ensures
            stored(old(self)@, final(self)@, address as int, crate::bytes::u16_le_bytes(value), r),
    {
        let bytes = u16_to_le_bytes(value);
        self.write(address, &bytes)
    }

    /// Writes a little-endian `u32` at `address..address + 4`.
    pub fn store_u32(&mut self, address: usize, value: u32) -> (r: Option<()>)
        ensures
            stored(old(self)@, final(self)@, address as int, crate::bytes::u32_le_bytes(value), r),
    {
        let bytes = u32_to_le_bytes(value);
        self.write(address, &bytes)
    }

    /// Writes a little-endian `u64` at `address..address + 8`.
    pub fn store_u64(&mut self, address: usize, value: u64) -> (r: Option<()>)
        ensures
            stored(old(self)@, final(self)@, address as int, crate::bytes::u64_le_bytes(value), r),
    {
        let bytes = u64_to_le_bytes(value);
        self.write(address, &bytes)
    }

    /// Writes the two's-complement byte of `value` at `address`.
    pub fn store_i8(&mut self, address: usize, value: i8) -> (r: Option<()>)
        ensures
            stored(old(self)@, final(self)@, address as int, seq![value as u8], r),
    {
        self.store_u8(address, value as u8)
    }

    /// Writes the two's-complement little-endian `i16` at `address..address + 2`.
    pub fn store_i16(&mut self, address: usize, value: i16) -> (r: Option<()>)
        ensures
            stored(old(self)@, final(self)@, address as int, crate::bytes::u16_le_bytes(value as u16), r),
    {
        self.store_u16(address, value as u16)
    }

    /// Writes the two's-complement little-endian `i32` at `address..address + 4`.
    pub fn store_i32(&mut self, address: usize, value: i32) -> (r: Option<()>)
        ensures
            stored(old(self)@, final(self)@, address as int, crate::bytes::u32_le_bytes(value as u32), r),
    {
        self.store_u32(address, value as u32)
    }

    /// Writes the two's-complement little-endian `i64` at `address..address + 8`.
    pub fn store_i64(&mut self, address: usize, value: i64) -> (r: Option<()>)
        ensures
            stored(old(self)@, final(self)@, address as int, crate::bytes::u64_le_bytes(value as u64), r),
    {
        self.store_u64(address, value as u64)
    }
}

} // verus!
