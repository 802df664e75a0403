//! An in-memory byte cursor: a buffer together with a read position.
use vstd::prelude::*;
use bytes::Bytes;
use crate::byte_buf::{bytes_view, bytes_as_slice, bytes_slice};
use crate::error::IoError;

verus! {

/// Where a seek is measured from.
#[derive(Debug, Clone, Copy, PartialEq, Eq, Structural)]
pub enum SeekFrom {
    /// An absolute position.
    Start(u64),
    /// An offset from the end of the buffer.
    End(i64),
    /// An offset from the current position.
    Current(i64),
}

/// A byte buffer with a position. The position may lie beyond the end of the
/// buffer; reads there find no bytes.
#[derive(Debug)]
pub struct Cursor {
    inner: Bytes,
    pos: u64,
}

/// The mathematical state of a [`Cursor`].
pub struct CursorView {
    /// The bytes of the buffer.
    pub data: Seq<u8>,
    /// The position of the next read.
    pub pos: nat,
}

impl View for Cursor {
    type V = CursorView;

    closed spec fn view(&self) -> CursorView {
        CursorView { data: bytes_view(self.inner), pos: self.pos as nat }
    }
}

/// `base + offset`, when that is a valid position.
pub open spec fn offset_position(base: int, offset: int) -> Option<nat> {
    if base + offset < 0 || base + offset > u64::MAX {
        None
    } else {
        Some((base + offset) as nat)
    }
}

/// The bytes at and after position `pos` (none when `pos` is past the end).
pub open spec fn bytes_from(data: Seq<u8>, pos: int) -> Seq<u8> {
    if pos < data.len() {
        data.skip(pos)
    } else {
        Seq::empty()
    }
}

impl Cursor {
    /// Creates a cursor at position 0 of `inner`.
    pub fn new(inner: Bytes) -> (c: Cursor)
        ensures
            c@.data == bytes_view(inner),
            c@.pos == 0,
    {
        Cursor { inner, pos: 0 }
    }

    /// Returns the current position.
    pub fn position(&self) -> (p: u64)
        ensures
            p == self@.pos,
    {
        self.pos
    }

    /// Moves the position to `pos`.
    pub fn set_position(&mut self, pos: u64)
        ensures
            final(self)@.data == old(self)@.data,
            final(self)@.pos == pos,
    {
        self.pos = pos;
    }

    /// Number of bytes in the buffer.
    pub(crate) fn data_len(&self) -> (n: usize)
        ensures
            n == self@.data.len(),
    {
        bytes_as_slice(&self.inner).len()
    }

    /// Returns the underlying buffer.
    pub fn get_ref(&self) -> (r: &Bytes)
        ensures
            bytes_view(*r) == self@.data,
    {
        &self.inner
    }

    /// Consumes the cursor and returns the underlying buffer.
    pub fn into_inner(self) -> (r: Bytes)
        ensures
            bytes_view(r) == self@.data,
    {
        self.inner
    }

    /// Moves the position. Fails, leaving the position unchanged, when the
    /// target would be negative or overflow.
    pub fn seek(&mut self, pos: SeekFrom) -> (r: Result<u64, IoError>)
        ensures
            final(self)@.data == old(self)@.data,
            match pos {
                SeekFrom::Start(n) => r == Ok::<u64, IoError>(n) && final(self)@.pos == n,
                SeekFrom::End(n) => match offset_position(old(self)@.data.len() as int, n as int) {
                    Some(p) => r == Ok::<u64, IoError>(p as u64) && final(self)@.pos == p,
                    None => r == Err::<u64, IoError>(IoError::InvalidSeek) && final(self)@.pos == old(self)@.pos,
                },
                SeekFrom::Current(n) => match offset_position(old(self)@.pos as int, n as int) {
                    Some(p) => r == Ok::<u64, IoError>(p as u64) && final(self)@.pos == p,
                    None => r == Err::<u64, IoError>(IoError::InvalidSeek) && final(self)@.pos == old(self)@.pos,
                },
            },
    {
        match pos {
            SeekFrom::Start(n) => {
                self.pos = n;
                Ok(n)
            },
            SeekFrom::End(n) => {
                let len = bytes_as_slice(&self.inner).len() as u64;
                match len.checked_add_signed(n) {
                    Some(p) => {
                        self.pos = p;
                        Ok(p)
                    },
                    None => Err(IoError::InvalidSeek),
                }
            },
            SeekFrom::Current(n) => {
                match self.pos.checked_add_signed(n) {
                    Some(p) => {
                        self.pos = p;
                        Ok(p)
                    },
                    None => Err(IoError::InvalidSeek),
                }
            },
        }
    }

    /// Reads exactly one byte. At the end of the buffer this fails and
    /// places the position at the end.
    pub fn read_byte(&mut self) -> (r: Result<u8, IoError>)
        ensures
            final(self)@.data == old(self)@.data,
            old(self)@.pos < old(self)@.data.len() ==> r == Ok::<u8, IoError>(old(self)@.data[old(self)@.pos as int])
                && final(self)@.pos == old(self)@.pos + 1,
            old(self)@.pos >= old(self)@.data.len() ==> r == Err::<u8, IoError>(IoError::UnexpectedEof)
                && final(self)@.pos == old(self)@.data.len(),
    {
        let data = bytes_as_slice(&self.inner);
        let len = data.len();
        if self.pos < len as u64 {
            let b = data[self.pos as usize];
            self.pos = self.pos + 1;
            Ok(b)
        } else {
            self.pos = len as u64;
            Err(IoError::UnexpectedEof)
        }
    }

    /// Copies as many of the next bytes as fit into `buf` (fewer when the end
    /// of the buffer is near) and advances past them; returns how many.
    pub fn read(&mut self, buf: &mut Vec<u8>) -> (n: usize)
        ensures
            final(self)@.data == old(self)@.data,
            n == if old(self)@.pos >= old(self)@.data.len() {
                0int
            } else if old(buf)@.len() <= old(self)@.data.len() - old(self)@.pos {
                old(buf)@.len() as int
            } else {
                (old(self)@.data.len() - old(self)@.pos) as int
            },
            final(self)@.pos == old(self)@.pos + n,
            final(buf)@ == bytes_from(old(self)@.data, old(self)@.pos as int).take(n as int)
                + old(buf)@.skip(n as int),
    {
        let data = bytes_as_slice(&self.inner);
        let len = data.len();
        let n: usize = if self.pos >= len as u64 {
            0
        } else if buf.len() as u64 <= len as u64 - self.pos {
            buf.len()
        } else {
            (len as u64 - self.pos) as usize
        };
        if n == 0 {
            assert(buf@ =~= bytes_from(self@.data, self@.pos as int).take(0) + buf@.skip(0));
            return 0;
        }
        let start = self.pos as usize;
        let mut i: usize = 0;
        assert(buf@ =~= data@.subrange(start as int, start as int) + old(buf)@.skip(0));
        while i < n
            invariant
                start == self.pos,
                n <= buf.len(),
                n > 0 ==> start + n <= data.len(),
                data@ == old(self)@.data,
                buf.len() == old(buf)@.len(),
                0 <= i <= n,
                buf@ == data@.subrange(start as int, start + i) + old(buf)@.skip(i as int),
            decreases n - i,
        {
            let b = data[start + i];
            buf.set(i, b);
            i = i + 1;
            assert(buf@ =~= data@.subrange(start as int, start + i) + old(buf)@.skip(i as int));
        }
        assert(data@.subrange(start as int, start + n) =~= bytes_from(data@, start as int).take(n as int));
        self.pos = self.pos + n as u64;
        n
    }

    /// Number of bytes between the position and the end of the buffer.
    pub fn remaining(&self) -> (n: usize)
        requires
            self@.pos <= self@.data.len(),
        ensures
            n == self@.data.len() - self@.pos,
    {
        bytes_as_slice(&self.inner).len() - self.pos as usize
    }

    /// Takes the next `size` bytes, sharing the buffer, and advances past
    /// them; fails, without moving, when fewer than `size` bytes remain.
    pub fn extract_bytes(&mut self, size: usize) -> (r: Result<Bytes, IoError>)
        requires
            old(self)@.pos + size <= usize::MAX,
        ensures
            final(self)@.data == old(self)@.data,
            old(self)@.pos + size > old(self)@.data.len() ==> r == Err::<Bytes, IoError>(IoError::NotEnoughBytes)
                && final(self)@.pos == old(self)@.pos,
            old(self)@.pos + size <= old(self)@.data.len() ==> r is Ok
                && bytes_view(r->Ok_0) == old(self)@.data.subrange(old(self)@.pos as int, old(self)@.pos + size)
                && final(self)@.pos == old(self)@.pos + size,
    {
        let position = self.pos as usize;
        if position + size > bytes_as_slice(&self.inner).len() {
            return Err(IoError::NotEnoughBytes);
        }
        let slice = bytes_slice(&self.inner, position, position + size);
        self.pos = (position + size) as u64;
        Ok(slice)
    }

    /// Takes all bytes from the position to the end, sharing the buffer, and
    /// moves to the end.
    pub fn extract_remaining(&mut self) -> (r: Bytes)
        requires
            old(self)@.pos <= old(self)@.data.len(),
        ensures
            final(self)@.data == old(self)@.data,
            bytes_view(r) == old(self)@.data.skip(old(self)@.pos as int),
            final(self)@.pos == old(self)@.data.len(),
    {
        let _len = self.data_len();
        let n = self.remaining();
        let ghost d = self@.data;
        match self.extract_bytes(n) {
            Ok(b) => {
                assert(d.subrange(old(self)@.pos as int, old(self)@.pos + n) =~= d.skip(old(self)@.pos as int));
                b
            },
            Err(_) => {
                assert(false);
                crate::byte_buf::empty_bytes()
            },
        }
    }
}

} // verus!
