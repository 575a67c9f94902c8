//! The four kinds of stream that an accessor hands out.
//!
//! Each method comes with a relation between the stream before the call, the
//! arguments, the stream after it and the result. A backend states in it what
//! its method does; an adapter states what it does in terms of the relation of
//! what it wraps. Where nothing is stated the relation holds of every outcome.

use crate::entry::Entry;
use crate::error::Error;
use vstd::prelude::*;

verus! {

/// A position to seek to.
#[derive(Clone, Copy, Debug, PartialEq, Eq, Structural)]
pub enum SeekFrom {
    /// So many bytes from the start.
    Start(u64),
    /// So many bytes from the end; negative values lie before it.
    End(i64),
    /// So many bytes from the current position.
    Current(i64),
}

/// A source of bytes.
pub trait Read: Sized {
    /// What one `read` may do.
    open spec fn read_post(
        pre: Self,
        post: Self,
        buf_pre: Seq<u8>,
        buf_post: Seq<u8>,
        res: Result<usize, Error>,
    ) -> bool {
        true
    }

    /// What one `seek` may do.
    open spec fn seek_post(pre: Self, post: Self, pos: SeekFrom, res: Result<u64, Error>) -> bool {
        true
    }

    /// What one `next` may do.
    open spec fn next_post(pre: Self, post: Self, res: Option<Result<bytes::Bytes, Error>>) -> bool {
        true
    }

    /// Reads into `buf` and returns how many bytes were read; zero at the end.
    fn read(&mut self, buf: &mut [u8]) -> (res: Result<usize, Error>)
        ensures
            Self::read_post(*old(self), *final(self), old(buf)@, final(buf)@, res),
    ;

    /// Moves to `pos` and returns the new position from the start.
    fn seek(&mut self, pos: SeekFrom) -> (res: Result<u64, Error>)
        ensures
            Self::seek_post(*old(self), *final(self), pos, res),
    ;

    /// The next chunk; `None` at the end.
    fn next(&mut self) -> (res: Option<Result<bytes::Bytes, Error>>)
        ensures
            Self::next_post(*old(self), *final(self), res),
    ;
}

/// A sink for bytes. The last call on it is `close` or `abort`.
pub trait Write: Sized {
    /// What one `write` may do.
    open spec fn write_post(pre: Self, post: Self, chunk: Seq<u8>, res: Result<(), Error>) -> bool {
        true
    }

    /// What `abort` may do.
    open spec fn abort_post(pre: Self, post: Self, res: Result<(), Error>) -> bool {
        true
    }

    /// What `close` may do.
    open spec fn close_post(pre: Self, post: Self, res: Result<(), Error>) -> bool {
        true
    }

    /// Writes one chunk.
    fn write(&mut self, bs: bytes::Bytes) -> (res: Result<(), Error>)
        ensures
            Self::write_post(*old(self), *final(self), crate::raw::buf::bytes_contents(bs), res),
    ;

    /// Gives the write up.
    fn abort(&mut self) -> (res: Result<(), Error>)
        ensures
            Self::abort_post(*old(self), *final(self), res),
    ;

    /// Completes the write.
    fn close(&mut self) -> (res: Result<(), Error>)
        ensures
            Self::close_post(*old(self), *final(self), res),
    ;
}

/// A sink that adds bytes at the end of an object. The last call on it is
/// `close`.
pub trait Append: Sized {
    /// What one `append` may do.
    open spec fn append_post(pre: Self, post: Self, chunk: Seq<u8>, res: Result<(), Error>) -> bool {
        true
    }

    /// What `close` may do.
    open spec fn close_post(pre: Self, post: Self, res: Result<(), Error>) -> bool {
        true
    }

    /// Appends one chunk.
    fn append(&mut self, bs: bytes::Bytes) -> (res: Result<(), Error>)
        ensures
            Self::append_post(*old(self), *final(self), crate::raw::buf::bytes_contents(bs), res),
    ;

    /// Completes the append.
    fn close(&mut self) -> (res: Result<(), Error>)
        ensures
            Self::close_post(*old(self), *final(self), res),
    ;
}

/// A cursor over the batches of a listing.
pub trait Page: Sized {
    /// What one `next` may do.
    open spec fn next_post(pre: Self, post: Self, res: Result<Option<Vec<Entry>>, Error>) -> bool {
        true
    }

    /// The next batch; `None` when the listing is exhausted.
    fn next(&mut self) -> (res: Result<Option<Vec<Entry>>, Error>)
        ensures
            Self::next_post(*old(self), *final(self), res),
    ;
}

} // verus!
