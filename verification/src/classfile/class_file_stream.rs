use vstd::prelude::*;
use vstd::slice::{slice_subrange, slice_to_vec};
use crate::classfile::error::DecodeError;

verus! {

/// The big-endian 16-bit value held in `bytes[at]` and `bytes[at + 1]`.
pub open spec fn be_u16(bytes: Seq<u8>, at: int) -> u16 {
    (bytes[at] as int * 0x100 + bytes[at + 1] as int) as u16
}

/// The big-endian 32-bit value held in `bytes[at] .. bytes[at + 3]`.
pub open spec fn be_u32(bytes: Seq<u8>, at: int) -> u32 {
    (bytes[at] as int * 0x100_0000 + bytes[at + 1] as int * 0x1_0000 + bytes[at + 2] as int * 0x100
        + bytes[at + 3] as int) as u32
}

/// A forward-only cursor over the bytes of one class file.
///
/// Every read either succeeds and advances the cursor past what it read, or
/// fails with `TruncatedStream` and leaves the cursor where it was. The
/// cursor never stands past the end of the bytes.
pub struct ClassFileStream {
    bytes: Vec<u8>,
    pos: usize,
}

impl ClassFileStream {
    #[verifier::type_invariant]
    spec fn in_bounds(&self) -> bool {
        self.pos <= self.bytes.len()
    }

    /// All bytes of the stream, read or not.
    pub closed spec fn data(&self) -> Seq<u8> {
        self.bytes@
    }

    /// How many bytes have been consumed so far.
    pub closed spec fn consumed(&self) -> nat {
        self.pos as nat
    }

    /// The position of the cursor: the index in `data()` of the next byte
    /// to be read.
    pub open spec fn offset(&self) -> int {
        self.consumed() as int
    }

    /// How many bytes are still unread.
    pub open spec fn unread(&self) -> int {
        self.data().len() - self.offset()
    }

    /// A cursor at the start of `bytes`.
    pub fn new(bytes: Vec<u8>) -> (stream: ClassFileStream)
        ensures
            stream.data() == bytes@,
            stream.offset() == 0,
    {
        ClassFileStream { bytes, pos: 0 }
    }

    /// The number of bytes consumed so far.
    pub fn position(&self) -> (p: usize)
        ensures
            p == self.offset(),
            self.offset() <= self.data().len(),
    {
        proof {
            use_type_invariant(self);
        }
        self.pos
    }

    /// The number of bytes not yet consumed.
    pub fn remaining(&self) -> (n: usize)
        ensures
            n == self.unread(),
            self.offset() <= self.data().len(),
    {
        proof {
            use_type_invariant(self);
        }
        self.bytes.len() - self.pos
    }

    /// Reads one byte.
    pub fn read_u8(&mut self) -> (r: Result<u8, DecodeError>)
        ensures
            final(self).data() == old(self).data(),
            final(self).offset() <= final(self).data().len(),
            old(self).unread() >= 1 ==> r == Ok::<u8, DecodeError>(
                old(self).data()[old(self).offset()],
            ) && final(self).offset() == old(self).offset() + 1,
            old(self).unread() < 1 ==> r == Err::<u8, DecodeError>(DecodeError::TruncatedStream)
                && final(self).offset() == old(self).offset(),
    {
        proof {
            use_type_invariant(&*self);
        }
        if self.bytes.len() - self.pos < 1 {
            return Err(DecodeError::TruncatedStream);
        }
        let b = self.bytes[self.pos];
        self.pos = self.pos + 1;
        Ok(b)
    }

    /// Reads a big-endian 16-bit value.
    pub fn read_u16(&mut self) -> (r: Result<u16, DecodeError>)
        ensures
            final(self).data() == old(self).data(),
            final(self).offset() <= final(self).data().len(),
            old(self).unread() >= 2 ==> r == Ok::<u16, DecodeError>(
                be_u16(old(self).data(), old(self).offset()),
            ) && final(self).offset() == old(self).offset() + 2,
            old(self).unread() < 2 ==> r == Err::<u16, DecodeError>(DecodeError::TruncatedStream)
                && final(self).offset() == old(self).offset(),
    {
        proof {
            use_type_invariant(&*self);
        }
        if self.bytes.len() - self.pos < 2 {
            return Err(DecodeError::TruncatedStream);
        }
        let hi = self.bytes[self.pos] as u16;
        let lo = self.bytes[self.pos + 1] as u16;
        self.pos = self.pos + 2;
        Ok(hi * 0x100 + lo)
    }

    /// Reads a big-endian 32-bit value.
    pub fn read_u32(&mut self) -> (r: Result<u32, DecodeError>)
        ensures
            final(self).data() == old(self).data(),
            final(self).offset() <= final(self).data().len(),
            old(self).unread() >= 4 ==> r == Ok::<u32, DecodeError>(
                be_u32(old(self).data(), old(self).offset()),
            ) && final(self).offset() == old(self).offset() + 4,
            old(self).unread() < 4 ==> r == Err::<u32, DecodeError>(DecodeError::TruncatedStream)
                && final(self).offset() == old(self).offset(),
    {
        proof {
            use_type_invariant(&*self);
        }
        if self.bytes.len() - self.pos < 4 {
            return Err(DecodeError::TruncatedStream);
        }
        let b0 = self.bytes[self.pos] as u32;
        let b1 = self.bytes[self.pos + 1] as u32;
        let b2 = self.bytes[self.pos + 2] as u32;
        let b3 = self.bytes[self.pos + 3] as u32;
        self.pos = self.pos + 4;
        Ok(b0 * 0x100_0000 + b1 * 0x1_0000 + b2 * 0x100 + b3)
    }

    /// Reads the next `length` bytes as they stand. The count is a full
    /// 32-bit quantity.
    pub fn read_to_length(&mut self, length: u32) -> (r: Result<Vec<u8>, DecodeError>)
        ensures
            final(self).data() == old(self).data(),
            final(self).offset() <= final(self).data().len(),
            old(self).unread() >= length ==> r is Ok && r->Ok_0@ == old(self).data().subrange(
                old(self).offset(),
                old(self).offset() + length,
            ) && final(self).offset() == old(self).offset() + length,
            old(self).unread() < length ==> r == Err::<Vec<u8>, DecodeError>(
                DecodeError::TruncatedStream,
            ) && final(self).offset() == old(self).offset(),
    {
        proof {
            use_type_invariant(&*self);
        }
        let n = length as usize;
        if self.bytes.len() - self.pos < n {
            return Err(DecodeError::TruncatedStream);
        }
        let taken = slice_to_vec(slice_subrange(self.bytes.as_slice(), self.pos, self.pos + n));
        self.pos = self.pos + n;
        Ok(taken)
    }

    /// Passes over the next `length` bytes without looking at them.
    pub fn skip(&mut self, length: u32) -> (r: Result<(), DecodeError>)
        ensures
            final(self).data() == old(self).data(),
            final(self).offset() <= final(self).data().len(),
            old(self).unread() >= length ==> r == Ok::<(), DecodeError>(()) && final(self).offset()
                == old(self).offset() + length,
            old(self).unread() < length ==> r == Err::<(), DecodeError>(
                DecodeError::TruncatedStream,
            ) && final(self).offset() == old(self).offset(),
    {
        proof {
            use_type_invariant(&*self);
        }
        let n = length as usize;
        if self.bytes.len() - self.pos < n {
            return Err(DecodeError::TruncatedStream);
        }
        self.pos = self.pos + n;
        Ok(())
    }
}

} // verus!
