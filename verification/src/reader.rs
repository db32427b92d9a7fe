use vstd::prelude::*;
use vstd::bytes::{spec_u32_from_le_bytes, u32_from_le_bytes};
use vstd::slice::{slice_subrange, slice_to_vec};

verus! {

/// Failure of a framed read: the buffer ended before the read completed.
#[derive(Debug, PartialEq, Eq, Structural)]
pub enum ReadError {
    ShortRead,
}

/// Bounded, fail-fast cursor over a byte buffer.
///
/// All framing failures are `ShortRead`; a failed read leaves the
/// cursor where it was.
pub struct ByteReader<'a> {
    data: &'a [u8],
    pos: usize,
}

impl<'a> ByteReader<'a> {
    /// The whole underlying buffer.
    pub closed spec fn buf(self) -> Seq<u8> {
        self.data@
    }

    /// The cursor position, always within the buffer.
    pub closed spec fn pos(self) -> int {
        self.pos as int
    }

    /// Bytes not yet consumed.
    pub open spec fn remaining(self) -> int {
        self.buf().len() - self.pos()
    }

    pub open spec fn wf(self) -> bool {
        0 <= self.pos() <= self.buf().len()
    }

    pub fn new(data: &'a [u8]) -> (r: ByteReader<'a>)
        ensures
            r.wf(),
            r.buf() == data@,
            r.pos() == 0,
    {
        ByteReader { data, pos: 0 }
    }

    /// Reads an unsigned 32-bit little-endian value and advances by four
    /// bytes; fails with `ShortRead` if fewer than four bytes remain.
    pub fn read_u32_le(&mut self) -> (r: Result<u32, ReadError>)
        requires
            old(self).wf(),
        ensures
            final(self).wf(),
            final(self).buf() == old(self).buf(),
            old(self).remaining() >= 4 ==> {
                &&& r == Ok::<u32, ReadError>(
                    spec_u32_from_le_bytes(
                        old(self).buf().subrange(old(self).pos(), old(self).pos() + 4),
                    ),
                )
                &&& final(self).pos() == old(self).pos() + 4
            },
            old(self).remaining() < 4 ==> {
                &&& r == Err::<u32, ReadError>(ReadError::ShortRead)
                &&& final(self).pos() == old(self).pos()
            },
    {
        if self.data.len() - self.pos < 4 {
            return Err(ReadError::ShortRead);
        }
        let four = slice_subrange(self.data, self.pos, self.pos + 4);
        let v = u32_from_le_bytes(four);
        self.pos = self.pos + 4;
        Ok(v)
    }

    /// Reads an unsigned 32-bit little-endian length `L`, then the `L`
    /// bytes that follow; fails with `ShortRead` if either part is
    /// missing, without advancing.
    pub fn read_length_prefixed(&mut self) -> (r: Result<Vec<u8>, ReadError>)
        requires
            old(self).wf(),
        ensures
            final(self).wf(),
            final(self).buf() == old(self).buf(),
            ({
                let len = spec_u32_from_le_bytes(
                    old(self).buf().subrange(old(self).pos(), old(self).pos() + 4),
                ) as int;
                if old(self).remaining() >= 4 && old(self).remaining() - 4 >= len {
                    &&& r is Ok
                    &&& r->Ok_0@ == old(self).buf().subrange(
                        old(self).pos() + 4,
                        old(self).pos() + 4 + len,
                    )
                    &&& final(self).pos() == old(self).pos() + 4 + len
                } else {
                    &&& r == Err::<Vec<u8>, ReadError>(ReadError::ShortRead)
                    &&& final(self).pos() == old(self).pos()
                }
            }),
    {
        let start = self.pos;
        let len = match self.read_u32_le() {
            Ok(v) => v,
            Err(e) => {
                return Err(e);
            },
        };
        if self.data.len() - self.pos < len as usize {
            self.pos = start;
            return Err(ReadError::ShortRead);
        }
        let body = slice_subrange(self.data, self.pos, self.pos + len as usize);
        let out = slice_to_vec(body);
        self.pos = self.pos + len as usize;
        Ok(out)
    }
}

} // verus!
