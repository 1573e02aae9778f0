//! Memory lanes: byte regions the machine reads from and writes to.
use vstd::prelude::*;

verus! {

/// The message of a read past the end of a lane.
pub open spec fn read_out_of_bounds_message() -> Seq<char> {
    "Read address out of bounds"@
}

/// A region of bytes the machine can address, either read-only or writable.
pub enum MemoryLane<'a> {
    ReadOnly(&'a [u8]),
    ReadWrite(&'a mut [u8]),
}

impl<'a> MemoryLane<'a> {
    /// The bytes of the lane.
    pub open spec fn contents(&self) -> Seq<u8> {
        match self {
            MemoryLane::ReadOnly(s) => s@,
            MemoryLane::ReadWrite(s) => s@,
        }
    }

    /// Whether the machine may write to the lane.
    pub open spec fn writable(&self) -> bool {
        self is ReadWrite
    }

    /// The number of bytes in the lane.
    pub fn size(&self) -> (n: u64)
        ensures
            n == self.contents().len(),
    {
        match self {
            MemoryLane::ReadOnly(slice) => slice.len() as u64,
            MemoryLane::ReadWrite(slice) => slice.len() as u64,
        }
    }

    /// The byte at `address`.
    pub fn read(&self, address: usize) -> (r: Result<u8, String>)
        ensures
            r is Ok <==> address < self.contents().len(),
            r matches Ok(v) ==> v == self.contents()[address as int],
            r matches Err(e) ==> e@ == read_out_of_bounds_message(),
    {
        let len = match self {
            MemoryLane::ReadOnly(slice) => slice.len(),
            MemoryLane::ReadWrite(slice) => slice.len(),
        };
        if address >= len {
            return Err(String::from_str("Read address out of bounds"));
        }
        match self {
            MemoryLane::ReadOnly(slice) => Ok(slice[address]),
            MemoryLane::ReadWrite(slice) => Ok(slice[address]),
        }
    }

    /// Whether the machine may write to the lane.
    pub fn is_writable(&self) -> (b: bool)
        ensures
            b == self.writable(),
    {
        match self {
            MemoryLane::ReadOnly(_) => false,
            MemoryLane::ReadWrite(_) => true,
        }
    }

    /// Stores `value` at `address` of a writable lane.
    pub fn store(&mut self, address: usize, value: u8)
        requires
            old(self).writable(),
            address < old(self).contents().len(),
        ensures
            final(self).writable(),
            final(self).contents() == old(self).contents().update(address as int, value),
    {
        match self {
            MemoryLane::ReadOnly(_) => {},
            MemoryLane::ReadWrite(slice) => {
                slice[address] = value;
            },
        }
    }
}

} // verus!
