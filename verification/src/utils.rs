//! Seekable readers over the bytes of one physical file.
//!
//! A `ByteCursor` reads a whole buffer; a `LengthLimitedReader` wraps one and
//! shows only the range of a single directory entry, so that a decoder
//! cannot run into the entry behind it.

use crate::error::{invalid_seek, ReadError};
use vstd::prelude::*;
use vstd::slice::slice_subrange;

verus! {

/// A position to move a reader to, as an offset from one of three origins.
#[derive(Debug, Clone, Copy, PartialEq, Eq, Structural)]
pub enum SeekFrom {
    /// So many bytes from the start of the source.
    Start(u64),
    /// So many bytes from the end of the source.
    End(i64),
    /// So many bytes from the current position.
    Current(i64),
}

/// The absolute position that a seek names, in a source of `len` bytes whose
/// reader stands at `pos`.
pub open spec fn seek_target(len: int, pos: int, whence: SeekFrom) -> int {
    match whence {
        SeekFrom::Start(n) => n as int,
        SeekFrom::End(d) => len + d,
        SeekFrom::Current(d) => pos + d,
    }
}

/// One past the last byte that a read of `len` bytes takes, when it starts at
/// `pos` and may not pass `end`, nor the end of the data.
pub open spec fn read_stop(data: Seq<u8>, pos: int, end: int, len: int) -> int {
    let stop = if pos + len <= end {
        pos + len
    } else {
        end
    };
    if stop <= data.len() {
        stop
    } else {
        data.len() as int
    }
}

/// The bytes that such a read returns: those from `pos` up to `read_stop`,
/// none where `pos` already stands at or behind that.
pub open spec fn read_span(data: Seq<u8>, pos: int, end: int, len: int) -> Seq<u8> {
    if 0 <= pos < read_stop(data, pos, end, len) {
        data.subrange(pos, read_stop(data, pos, end, len))
    } else {
        Seq::<u8>::empty()
    }
}

/// A read position in a borrowed buffer that holds a whole file.
#[derive(Clone, Copy)]
pub struct ByteCursor<'a> {
    data: &'a [u8],
    pos: u64,
}

impl<'a> ByteCursor<'a> {
    /// The bytes of the file.
    pub closed spec fn bytes(&self) -> Seq<u8> {
        self.data@
    }

    /// The position of the next read. It may lie behind the last byte.
    pub closed spec fn cursor(&self) -> int {
        self.pos as int
    }

    /// A reader at the first byte of `data`.
    pub fn new(data: &'a [u8]) -> (r: ByteCursor<'a>)
        ensures
            r.bytes() == data@,
            r.cursor() == 0,
    {
        ByteCursor { data, pos: 0 }
    }

    /// The position of the next read.
    pub fn position(&self) -> (p: u64)
        ensures
            p == self.cursor(),
    {
        self.pos
    }

    /// Moves to the position that `pos` names. A target below zero or above
    /// `u64::MAX` is an error and moves nothing; one behind the last byte is
    /// accepted, and a read there returns nothing.
    pub fn seek(&mut self, pos: SeekFrom) -> (r: Result<u64, ReadError>)
        ensures
            final(self).bytes() == old(self).bytes(),
            match r {
                Ok(p) => {
                    &&& p == seek_target(old(self).bytes().len() as int, old(self).cursor(), pos)
                    &&& final(self).cursor() == p
                },
                Err(e) => {
                    &&& e is Io
                    &&& !(0 <= seek_target(
                        old(self).bytes().len() as int,
                        old(self).cursor(),
                        pos,
                    ) <= u64::MAX)
                    &&& final(self).cursor() == old(self).cursor()
                },
            },
    {
        let target: Option<u64> = match pos {
            SeekFrom::Start(n) => Some(n),
            SeekFrom::End(d) => (self.data.len() as u64).checked_add_signed(d),
            SeekFrom::Current(d) => self.pos.checked_add_signed(d),
        };
        match target {
            Some(t) => {
                self.pos = t;
                Ok(t)
            },
            None => Err(ReadError::Io(invalid_seek())),
        }
    }

    /// Reads up to `len` bytes and moves behind them. Fewer come back where
    /// the file ends first: the caller checks the length of what it got.
    pub fn read(&mut self, len: usize) -> (out: &'a [u8])
        ensures
            final(self).bytes() == old(self).bytes(),
            out@ == read_span(
                old(self).bytes(),
                old(self).cursor(),
                old(self).bytes().len() as int,
                len as int,
            ),
            final(self).cursor() == old(self).cursor() + out@.len(),
    {
        let total: usize = self.data.len();
        if self.pos >= total as u64 {
            return slice_subrange(self.data, 0, 0);
        }
        let from: usize = self.pos as usize;
        let count: usize = if len <= total - from {
            len
        } else {
            total - from
        };
        self.pos = self.pos + count as u64;
        slice_subrange(self.data, from, from + count)
    }
}

/// Little helper that limits the size of what can be read from a file: it
/// wraps a reader and shows only the bytes from the position at which that
/// reader stood to `filesize` bytes further on.
pub struct LengthLimitedReader<'a> {
    reader: ByteCursor<'a>,
    min_offset: u64,
    max_offset: u64,
}

impl<'a> LengthLimitedReader<'a> {
    #[verifier::type_invariant]
    spec fn in_range(self) -> bool {
        self.min_offset <= self.reader.pos <= self.max_offset
    }

    /// The bytes of the whole file under the wrapped reader.
    pub closed spec fn bytes(&self) -> Seq<u8> {
        self.reader.data@
    }

    /// The first position of the range.
    pub closed spec fn start(&self) -> int {
        self.min_offset as int
    }

    /// The position behind the last byte of the range.
    pub closed spec fn end(&self) -> int {
        self.max_offset as int
    }

    /// The position of the next read, in the coordinates of the whole file.
    pub closed spec fn cursor(&self) -> int {
        self.reader.pos as int
    }

    /// The position behind the last byte that can be read: the end of the
    /// range, or the end of the file where that comes first.
    pub open spec fn visible_end(&self) -> int {
        if self.end() <= self.bytes().len() {
            self.end()
        } else {
            self.bytes().len() as int
        }
    }

    /// The bytes that can still be read, in order.
    pub open spec fn rest(&self) -> Seq<u8> {
        if self.cursor() < self.visible_end() {
            self.bytes().subrange(self.cursor(), self.visible_end())
        } else {
            Seq::<u8>::empty()
        }
    }

    /// A reader over the same file and the same range, wherever it stands.
    pub open spec fn same_source(&self, next: &Self) -> bool {
        &&& next.bytes() == self.bytes()
        &&& next.start() == self.start()
        &&& next.end() == self.end()
    }

    /// The same reader at another position.
    pub open spec fn moved_to(&self, next: &Self, cursor: int) -> bool {
        &&& self.same_source(next)
        &&& next.cursor() == cursor
    }

    /// What is left to read after the reader has moved forward: what was
    /// left before without the bytes moved over, and nothing where the move
    /// went behind the last readable byte.
    pub proof fn lemma_rest_after(&self, next: &Self)
        requires
            self.same_source(next),
            self.cursor() <= next.cursor(),
        ensures
            next.cursor() - self.cursor() <= self.rest().len() ==> next.rest()
                == self.rest().skip(next.cursor() - self.cursor()),
            next.cursor() - self.cursor() >= self.rest().len() ==> next.rest().len() == 0,
    {
        if next.cursor() - self.cursor() <= self.rest().len() {
            assert(next.rest() =~= self.rest().skip(next.cursor() - self.cursor()));
        }
    }

    /// Wraps `reader`. The range starts where `reader` stands and is
    /// `filesize` bytes long; it ends at `u64::MAX` where it would pass that.
    pub fn new(reader: ByteCursor<'a>, filesize: u64) -> (r: LengthLimitedReader<'a>)
        ensures
            r.bytes() == reader.bytes(),
            r.start() == reader.cursor(),
            r.cursor() == reader.cursor(),
            r.end() == if reader.cursor() + filesize <= u64::MAX {
                reader.cursor() + filesize
            } else {
                u64::MAX as int
            },
    {
        let min_offset: u64 = reader.pos;
        let max_offset: u64 = min_offset.saturating_add(filesize);
        LengthLimitedReader { reader, min_offset, max_offset }
    }

    /// Hands the wrapped reader back, where the last read or seek left it.
    pub fn into_inner(self) -> (reader: ByteCursor<'a>)
        ensures
            reader.bytes() == self.bytes(),
            reader.cursor() == self.cursor(),
    {
        self.reader
    }

    /// The position of the next read. It never leaves the range.
    pub fn position(&self) -> (p: u64)
        ensures
            p == self.cursor(),
            0 <= self.start() <= p <= self.end() <= u64::MAX,
    {
        proof {
            use_type_invariant(self);
        }
        self.reader.pos
    }

    /// The number of bytes that can still be read.
    pub fn remaining(&self) -> (n: usize)
        ensures
            n == self.rest().len(),
            self.start() <= self.cursor() <= self.end(),
    {
        proof {
            use_type_invariant(self);
        }
        let total: u64 = self.reader.data.len() as u64;
        let stop: u64 = if self.max_offset <= total {
            self.max_offset
        } else {
            total
        };
        if self.reader.pos < stop {
            (stop - self.reader.pos) as usize
        } else {
            0
        }
    }

    /// Reads up to `len` bytes and moves behind them. A read that would
    /// cross the end of the range is cut off there without an error: the
    /// caller checks the length of what it got.
    pub fn read(&mut self, len: usize) -> (out: &'a [u8])
        ensures
            old(self).moved_to(final(self), old(self).cursor() + out@.len()),
            out@ == read_span(old(self).bytes(), old(self).cursor(), old(self).end(), len as int),
            out@.len() <= len,
            old(self).cursor() + out@.len() <= old(self).end(),
            out@ == old(self).rest().take(
                if len <= old(self).rest().len() {
                    len as int
                } else {
                    old(self).rest().len() as int
                },
            ),
    {
        proof {
            use_type_invariant(&*self);
        }
        let room: u64 = self.max_offset - self.reader.pos;
        let count: usize = if len as u64 <= room {
            len
        } else {
            room as usize
        };
        let mut inner = self.reader;
        let out = inner.read(count);
        self.reader = inner;
        out
    }

    /// Moves to the position that `pos` names, in the coordinates of the
    /// whole file. A target outside the range is an error and moves nothing.
    pub fn seek(&mut self, pos: SeekFrom) -> (r: Result<u64, ReadError>)
        ensures
            match r {
                Ok(p) => {
                    &&& p == seek_target(old(self).bytes().len() as int, old(self).cursor(), pos)
                    &&& old(self).start() <= p <= old(self).end()
                    &&& old(self).moved_to(final(self), p as int)
                },
                Err(e) => {
                    &&& e is Io
                    &&& !(old(self).start() <= seek_target(
                        old(self).bytes().len() as int,
                        old(self).cursor(),
                        pos,
                    ) <= old(self).end())
                    &&& old(self).moved_to(final(self), old(self).cursor())
                },
            },
    {
        proof {
            use_type_invariant(&*self);
        }
        let target: Option<u64> = match pos {
            SeekFrom::Start(n) => Some(n),
            SeekFrom::End(d) => (self.reader.data.len() as u64).checked_add_signed(d),
            SeekFrom::Current(d) => self.reader.pos.checked_add_signed(d),
        };
        match target {
            Some(t) => {
                if self.min_offset <= t && t <= self.max_offset {
                    self.reader.pos = t;
                    Ok(t)
                } else {
                    Err(ReadError::Io(invalid_seek()))
                }
            },
            None => Err(ReadError::Io(invalid_seek())),
        }
    }
}

} // verus!
