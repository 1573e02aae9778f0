//! A byte stack of fixed capacity on which the machine keeps its values.
use vstd::prelude::*;
use crate::bytes::{u32_le_bytes, u32_from_le, i32_le_bytes, i32_from_le, u32_to_le, u32_of_le, lemma_i32_round_trip};
use crate::text::{decimal, push_str, push_decimal};

verus! {

/// The message of an attempt to take more bytes than the stack holds.
pub open spec fn underflow_message() -> Seq<char> {
    "Stack underflow"@
}

/// The message of an attempt to grow the stack past its capacity.
pub open spec fn overflow_message(capacity: nat, wanted: nat) -> Seq<char> {
    "Stack overflow: capacity is "@ + decimal(capacity) + " bytes, attempted to grow to "@
        + decimal(wanted) + " bytes"@
}

/// The message of a growth request whose size does not fit in `usize`.
pub open spec fn capacity_overflow_message() -> Seq<char> {
    "Stack capacity overflow"@
}

/// The message of a word-wise view of a stack whose size is not a multiple of four.
pub open spec fn misaligned_message() -> Seq<char> {
    "Stack is not aligned to i32 values"@
}

/// The message of a word index whose byte offset does not fit in `usize`.
pub open spec fn index_overflow_message() -> Seq<char> {
    "Stack index overflow"@
}

/// The message of a rotation of fewer than two values.
pub open spec fn swap_count_message() -> Seq<char> {
    "Swap requires n >= 2"@
}

/// `s` with the four bytes at `start` moved to the end.
pub open spec fn rotate_word_left(s: Seq<u8>, start: int) -> Seq<u8> {
    s.subrange(0, start) + s.subrange(start + 4, s.len() as int) + s.subrange(start, start + 4)
}

/// Popping a word right after pushing it gives the word back and leaves the stack as it was.
pub proof fn lemma_pop_after_push(bytes: Seq<u8>, v: i32)
    ensures
        ({
            let pushed = bytes + i32_le_bytes(v);
            let k = pushed.len() - 4;
            &&& i32_from_le(pushed.subrange(k, k + 4)) == v
            &&& pushed.subrange(0, k) == bytes
        }),
{
    lemma_i32_round_trip(v);
    let pushed = bytes + i32_le_bytes(v);
    let k = pushed.len() - 4;
    assert(pushed.subrange(k, k + 4) =~= i32_le_bytes(v));
    assert(pushed.subrange(0, k) =~= bytes);
}

/// A stack of bytes with a capacity fixed at creation.
///
/// Its model is the sequence of bytes it holds, bottom first, and its capacity.
pub struct Stack {
    inner: Vec<u8>,
    len: usize,
}

impl Stack {
    /// The internal representation is consistent.
    pub closed spec fn well_formed(self) -> bool {
        self.len <= self.inner@.len() <= isize::MAX
    }

    /// The bytes on the stack, bottom first.
    pub closed spec fn bytes(self) -> Seq<u8> {
        self.inner@.subrange(0, self.len as int)
    }

    /// The number of bytes the stack can hold.
    pub closed spec fn capacity(self) -> nat {
        self.inner@.len()
    }

    /// A well-formed stack holds at most its capacity, which is at most `isize::MAX`.
    pub proof fn lemma_bounds(&self)
        requires
            self.well_formed(),
        ensures
            self.bytes().len() <= self.capacity() <= isize::MAX,
    {
    }

    /// Creates an empty stack that holds up to `capacity` bytes.
    pub fn new(capacity: usize) -> (s: Stack)
        requires
            capacity <= isize::MAX,
        ensures
            s.well_formed(),
            s.bytes() == Seq::<u8>::empty(),
            s.capacity() == capacity,
    {
        let mut inner: Vec<u8> = Vec::with_capacity(capacity);
        let mut i: usize = 0;
        while i < capacity
            invariant
                i <= capacity <= isize::MAX,
                inner@.len() == i,
            decreases capacity - i,
        {
            inner.push(0);
            i += 1;
        }
        let s = Stack { inner, len: 0 };
        assert(s.bytes() =~= Seq::<u8>::empty());
        s
    }

    /// The number of bytes on the stack.
    pub fn len_bytes(&self) -> (n: usize)
        requires
            self.well_formed(),
        ensures
            n == self.bytes().len(),
            n <= self.capacity(),
    {
        self.len
    }

    /// Checks that `additional` more bytes fit.
    fn ensure_capacity_for(&self, additional: usize) -> (r: Result<(), String>)
        requires
            self.well_formed(),
        ensures
            r is Ok <==> self.bytes().len() + additional <= self.capacity(),
            r matches Err(e) ==> e@ == (if self.bytes().len() + additional > usize::MAX {
                capacity_overflow_message()
            } else {
                overflow_message(self.capacity(), (self.bytes().len() + additional) as nat)
            }),
    {
        if self.len > usize::MAX - additional {
            return Err(String::from_str("Stack capacity overflow"));
        }
        let new_len = self.len + additional;
        if new_len > self.inner.len() {
            let mut e = String::from_str("Stack overflow: capacity is ");
            push_decimal(&mut e, self.inner.len());
            push_str(&mut e, " bytes, attempted to grow to ");
            push_decimal(&mut e, new_len);
            push_str(&mut e, " bytes");
            return Err(e);
        }
        Ok(())
    }

    /// Pushes `bytes` on top of the stack, in order.
    pub fn push_bytes(&mut self, bytes: &[u8]) -> (r: Result<(), String>)
        requires
            old(self).well_formed(),
        ensures
            final(self).well_formed(),
            r is Ok <==> old(self).bytes().len() + bytes@.len() <= old(self).capacity(),
            r is Ok ==> final(self).bytes() == old(self).bytes() + bytes@,
            r is Err ==> final(self).bytes() == old(self).bytes(),
            final(self).capacity() == old(self).capacity(),
            r matches Err(e) ==> e@ == (if old(self).bytes().len() + bytes@.len() > usize::MAX {
                capacity_overflow_message()
            } else {
                overflow_message(old(self).capacity(), (old(self).bytes().len() + bytes@.len()) as nat)
            }),
    {
        self.ensure_capacity_for(bytes.len())?;
        let start = self.len;
        let mut i: usize = 0;
        while i < bytes.len()
            invariant
                start == old(self).len,
                start + bytes@.len() <= self.inner@.len() <= isize::MAX,
                self.inner@.len() == old(self).inner@.len(),
                self.len == start,
                i <= bytes@.len(),
                forall|k: int| 0 <= k < start ==> self.inner@[k] == old(self).inner@[k],
                forall|k: int| 0 <= k < i ==> self.inner@[start + k] == bytes@[k],
            decreases bytes@.len() - i,
        {
            assert(start + i < self.inner@.len());
            self.inner.set(start + i, bytes[i]);
            i += 1;
        }
        assert(start + bytes@.len() <= self.inner@.len());
        self.len = start + bytes.len();
        assert(self.bytes() =~= old(self).bytes() + bytes@);
        Ok(())
    }

    /// Moves the top `out.len()` bytes into `out`, in stack order, and removes them.
    pub fn pop_bytes(&mut self, out: &mut [u8]) -> (r: Result<(), String>)
        requires
            old(self).well_formed(),
        ensures
            final(self).well_formed(),
            r is Ok <==> old(out)@.len() <= old(self).bytes().len(),
            final(out)@.len() == old(out)@.len(),
            final(self).capacity() == old(self).capacity(),
            r is Ok ==> {
                let k = old(self).bytes().len() - old(out)@.len();
                &&& final(out)@ == old(self).bytes().subrange(k, old(self).bytes().len() as int)
                &&& final(self).bytes() == old(self).bytes().subrange(0, k)
            },
            r is Err ==> final(self).bytes() == old(self).bytes() && final(out)@ == old(out)@,
            r matches Err(e) ==> e@ == underflow_message(),
    {
        if out.len() > self.len {
            return Err(String::from_str("Stack underflow"));
        }
        let start = self.len - out.len();
        self.copy_top(out, start);
        self.len = start;
        assert(self.bytes() =~= old(self).bytes().subrange(0, start as int));
        Ok(())
    }

    fn copy_top(&self, out: &mut [u8], start: usize)
        requires
            self.well_formed(),
            start + old(out)@.len() == self.bytes().len(),
        ensures
            final(out)@ == self.bytes().subrange(start as int, self.bytes().len() as int),
    {
        let mut i: usize = 0;
        while i < out.len()
            invariant
                start + out@.len() == self.len,
                self.len <= self.inner@.len(),
                i <= out@.len(),
                out@.len() == old(out)@.len(),
                forall|k: int| 0 <= k < i ==> out@[k] == self.inner@[start + k],
            decreases out@.len() - i,
        {
            out[i] = self.inner[start + i];
            i += 1;
        }
        assert(out@ =~= self.bytes().subrange(start as int, self.bytes().len() as int));
    }

    /// Copies the top `out.len()` bytes into `out`, in stack order, leaving the stack as it is.
    pub fn peek_bytes(&self, out: &mut [u8]) -> (r: Result<(), String>)
        requires
            self.well_formed(),
        ensures
            r is Ok <==> old(out)@.len() <= self.bytes().len(),
            final(out)@.len() == old(out)@.len(),
            r is Ok ==> final(out)@ == self.bytes().subrange(
                self.bytes().len() - old(out)@.len(),
                self.bytes().len() as int,
            ),
            r is Err ==> final(out)@ == old(out)@,
            r matches Err(e) ==> e@ == underflow_message(),
    {
        if out.len() > self.len {
            return Err(String::from_str("Stack underflow"));
        }
        let start = self.len - out.len();
        self.copy_top(out, start);
        Ok(())
    }

    /// The bytes on the stack, bottom first.
    pub fn dump_bytes(&self) -> (v: Vec<u8>)
        requires
            self.well_formed(),
        ensures
            v@ == self.bytes(),
    {
        let mut v: Vec<u8> = Vec::with_capacity(self.len);
        let mut i: usize = 0;
        while i < self.len
            invariant
                self.len <= self.inner@.len(),
                i <= self.len,
                v@ == self.inner@.subrange(0, i as int),
            decreases self.len - i,
        {
            v.push(self.inner[i]);
            i += 1;
            assert(v@ =~= self.inner@.subrange(0, i as int));
        }
        v
    }

    /// Pushes the four little-endian bytes of `value`.
    pub fn push_i32(&mut self, value: i32) -> (r: Result<(), String>)
        requires
            old(self).well_formed(),
        ensures
            final(self).well_formed(),
            r is Ok <==> old(self).bytes().len() + 4 <= old(self).capacity(),
            r is Ok ==> final(self).bytes() == old(self).bytes() + i32_le_bytes(value),
            r is Err ==> final(self).bytes() == old(self).bytes(),
            final(self).capacity() == old(self).capacity(),
            r matches Err(e) ==> e@ == overflow_message(old(self).capacity(), (old(self).bytes().len() + 4) as nat),
    {
        self.push_u32(value as u32)
    }

    /// Pushes the four little-endian bytes of a word.
    pub fn push_u32(&mut self, value: u32) -> (r: Result<(), String>)
        requires
            old(self).well_formed(),
        ensures
            final(self).well_formed(),
            r is Ok <==> old(self).bytes().len() + 4 <= old(self).capacity(),
            r is Ok ==> final(self).bytes() == old(self).bytes() + u32_le_bytes(value),
            r is Err ==> final(self).bytes() == old(self).bytes(),
            final(self).capacity() == old(self).capacity(),
            r matches Err(e) ==> e@ == overflow_message(old(self).capacity(), (old(self).bytes().len() + 4) as nat),
    {
        let b = u32_to_le(value);
        self.push_bytes(&b)
    }

    /// Removes the top four bytes and returns them as a word.
    pub fn pop_u32(&mut self) -> (r: Result<u32, String>)
        requires
            old(self).well_formed(),
        ensures
            final(self).well_formed(),
            r is Ok <==> 4 <= old(self).bytes().len(),
            final(self).capacity() == old(self).capacity(),
            r matches Ok(v) ==> {
                let k = old(self).bytes().len() - 4;
                &&& v == u32_from_le(old(self).bytes().subrange(k, k + 4))
                &&& final(self).bytes() == old(self).bytes().subrange(0, k)
            },
            r is Err ==> final(self).bytes() == old(self).bytes(),
            r matches Err(e) ==> e@ == underflow_message(),
    {
        let mut b: [u8; 4] = [0; 4];
        self.pop_bytes(&mut b)?;
        Ok(u32_of_le(&b))
    }

    /// Removes the top four bytes and returns them as a signed value.
    pub fn pop_i32(&mut self) -> (r: Result<i32, String>)
        requires
            old(self).well_formed(),
        ensures
            final(self).well_formed(),
            r is Ok <==> 4 <= old(self).bytes().len(),
            final(self).capacity() == old(self).capacity(),
            r matches Ok(v) ==> {
                let k = old(self).bytes().len() - 4;
                &&& v == i32_from_le(old(self).bytes().subrange(k, k + 4))
                &&& final(self).bytes() == old(self).bytes().subrange(0, k)
            },
            r is Err ==> final(self).bytes() == old(self).bytes(),
            r matches Err(e) ==> e@ == underflow_message(),
    {
        let v = self.pop_u32()?;
        Ok(v as i32)
    }

    /// The top four bytes as a signed value.
    pub fn peek_i32(&self) -> (r: Result<i32, String>)
        requires
            self.well_formed(),
        ensures
            r is Ok <==> 4 <= self.bytes().len(),
            r matches Ok(v) ==> v == i32_from_le(
                self.bytes().subrange(self.bytes().len() - 4, self.bytes().len() as int),
            ),
            r matches Err(e) ==> e@ == underflow_message(),
    {
        let mut b: [u8; 4] = [0; 4];
        self.peek_bytes(&mut b)?;
        Ok(u32_of_le(&b) as i32)
    }

    /// Pushes one byte.
    pub fn push_u8(&mut self, value: u8) -> (r: Result<(), String>)
        requires
            old(self).well_formed(),
        ensures
            final(self).well_formed(),
            r is Ok <==> old(self).bytes().len() + 1 <= old(self).capacity(),
            r is Ok ==> final(self).bytes() == old(self).bytes().push(value),
            r is Err ==> final(self).bytes() == old(self).bytes(),
            final(self).capacity() == old(self).capacity(),
            r matches Err(e) ==> e@ == overflow_message(old(self).capacity(), (old(self).bytes().len() + 1) as nat),
    {
        self.ensure_capacity_for(1)?;
        self.inner.set(self.len, value);
        self.len = self.len + 1;
        assert(self.bytes() =~= old(self).bytes().push(value));
        Ok(())
    }

    /// Removes and returns the top byte.
    pub fn pop_u8(&mut self) -> (r: Result<u8, String>)
        requires
            old(self).well_formed(),
        ensures
            final(self).well_formed(),
            r is Ok <==> old(self).bytes().len() >= 1,
            final(self).capacity() == old(self).capacity(),
            r matches Ok(v) ==> v == old(self).bytes().last() && final(self).bytes() == old(self).bytes().drop_last(),
            r is Err ==> final(self).bytes() == old(self).bytes(),
            r matches Err(e) ==> e@ == underflow_message(),
    {
        if self.len == 0 {
            return Err(String::from_str("Stack underflow"));
        }
        self.len = self.len - 1;
        assert(self.bytes() =~= old(self).bytes().drop_last());
        Ok(self.inner[self.len])
    }

    /// The top byte.
    pub fn peek_u8(&self) -> (r: Result<u8, String>)
        requires
            self.well_formed(),
        ensures
            r is Ok <==> self.bytes().len() >= 1,
            r matches Ok(v) ==> v == self.bytes().last(),
            r matches Err(e) ==> e@ == underflow_message(),
    {
        if self.len == 0 {
            return Err(String::from_str("Stack underflow"));
        }
        Ok(self.inner[self.len - 1])
    }

    /// The number of 32-bit values on the stack; the stack must hold a whole number of them.
    pub fn len_i32s(&self) -> (r: Result<usize, String>)
        requires
            self.well_formed(),
        ensures
            r is Ok <==> self.bytes().len() % 4 == 0,
            r matches Ok(n) ==> n == self.bytes().len() / 4 && n <= isize::MAX / 4,
            r matches Err(e) ==> e@ == misaligned_message(),
    {
        if self.len % 4 != 0 {
            return Err(String::from_str("Stack is not aligned to i32 values"));
        }
        Ok(self.len / 4)
    }

    /// The `idx`-th 32-bit value counted from the bottom of the stack.
    pub fn get_i32(&self, idx: usize) -> (r: Result<i32, String>)
        requires
            self.well_formed(),
            idx * 4 + 4 <= usize::MAX || idx * 4 > usize::MAX,
        ensures
            r is Ok <==> idx * 4 + 4 <= self.bytes().len(),
            r matches Ok(v) ==> v == i32_from_le(self.bytes().subrange(idx * 4, idx * 4 + 4)),
            r matches Err(e) ==> e@ == (if idx * 4 > usize::MAX {
                index_overflow_message()
            } else {
                underflow_message()
            }),
    {
        if idx > usize::MAX / 4 {
            return Err(String::from_str("Stack index overflow"));
        }
        let start = idx * 4;
        let end = start + 4;
        if end > self.len {
            return Err(String::from_str("Stack underflow"));
        }
        let b = [self.inner[start], self.inner[start + 1], self.inner[start + 2], self.inner[start + 3]];
        assert(b@ =~= self.bytes().subrange(idx * 4, idx * 4 + 4));
        Ok(u32_of_le(&b) as i32)
    }

    /// Rotates the top `n` 32-bit values once to the left: the lowest of them moves to the top.
    pub fn rotate_left_once_last_n_i32(&mut self, n: usize) -> (r: Result<(), String>)
        requires
            old(self).well_formed(),
        ensures
            final(self).well_formed(),
            final(self).capacity() == old(self).capacity(),
            r is Ok <==> n >= 2 && old(self).bytes().len() % 4 == 0 && n <= old(self).bytes().len() / 4,
            r is Ok ==> final(self).bytes() == rotate_word_left(old(self).bytes(), old(self).bytes().len() - n * 4),
            r is Err ==> final(self).bytes() == old(self).bytes(),
            r matches Err(e) ==> e@ == (if n < 2 {
                swap_count_message()
            } else if old(self).bytes().len() % 4 != 0 {
                misaligned_message()
            } else {
                underflow_message()
            }),
    {
        if n < 2 {
            return Err(String::from_str("Swap requires n >= 2"));
        }
        let len = self.len_i32s()?;
        if n > len {
            return Err(String::from_str("Stack underflow"));
        }
        let start = (len - n) * 4;
        let first = [self.inner[start], self.inner[start + 1], self.inner[start + 2], self.inner[start + 3]];
        let end = self.len;
        let mut i = start;
        while i + 4 < end
            invariant
                self.len == end == old(self).len,
                end <= self.inner@.len(),
                self.inner@.len() == old(self).inner@.len(),
                start <= i,
                i + 4 <= end,
                first@ == old(self).inner@.subrange(start as int, start + 4),
                forall|k: int| 0 <= k < start ==> self.inner@[k] == old(self).inner@[k],
                forall|k: int| start <= k < i ==> self.inner@[k] == old(self).inner@[k + 4],
                forall|k: int| i <= k < end ==> self.inner@[k] == old(self).inner@[k],
            decreases end - i,
        {
            self.inner.set(i, self.inner[i + 4]);
            i += 1;
        }
        assert(i + 4 == end);
        self.inner.set(i, first[0]);
        self.inner.set(i + 1, first[1]);
        self.inner.set(i + 2, first[2]);
        self.inner.set(i + 3, first[3]);
        assert(self.bytes() =~= rotate_word_left(old(self).bytes(), start as int));
        Ok(())
    }
}

} // verus!
