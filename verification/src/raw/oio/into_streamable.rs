//! A reader that yields chunks, over a reader that only fills buffers.

use crate::error::Error;
use crate::raw::buf::{bytes_contents, bytes_from_vec};
use crate::raw::oio::io::{Read, SeekFrom};
use vstd::prelude::*;
use vstd::slice::{slice_subrange, slice_to_vec};

verus! {

/// The size of the chunks that the completion layer asks for: 256 KiB.
pub const DEFAULT_CHUNK_SIZE: usize = 262144;

/// A reader as contracts see it.
pub struct IntoStreamableReaderView<R> {
    /// The reader underneath.
    pub r: R,
    /// The size of the buffer, and so the most that a chunk can hold.
    pub cap: usize,
}

/// A reader whose `next` fills a buffer of fixed size from the reader
/// underneath and yields what was filled.
pub struct IntoStreamableReader<R> {
    r: R,
    cap: usize,
    buf: Vec<u8>,
}

impl<R> View for IntoStreamableReader<R> {
    type V = IntoStreamableReaderView<R>;

    closed spec fn view(&self) -> IntoStreamableReaderView<R> {
        IntoStreamableReaderView { r: self.r, cap: self.cap }
    }
}

/// A reader over `r` that yields chunks of at most `capacity` bytes.
pub fn into_streamable_reader<R>(r: R, capacity: usize) -> (res: IntoStreamableReader<R>)
    ensures
        res@ == (IntoStreamableReaderView { r, cap: capacity }),
{
    IntoStreamableReader { r, cap: capacity, buf: Vec::new() }
}

/// The first `n` bytes of `buf`, or all of it where it is shorter.
pub open spec fn filled(buf: Seq<u8>, n: usize) -> Seq<u8> {
    if n <= buf.len() {
        buf.take(n as int)
    } else {
        buf
    }
}

/// What one `next` of a streamable reader does: the reader underneath reads
/// once, into a buffer of `cap` bytes. Its error is handed on, its end is the
/// end, and what it read is the chunk.
pub open spec fn stream_next_post<R: Read>(
    pre: IntoStreamableReaderView<R>,
    post: IntoStreamableReaderView<R>,
    res: Option<Result<bytes::Bytes, Error>>,
) -> bool {
    &&& post.cap == pre.cap
    &&& exists|b0: Seq<u8>, b1: Seq<u8>, inner: Result<usize, Error>|
        {
            &&& b0.len() == pre.cap
            &&& #[trigger] R::read_post(pre.r, post.r, b0, b1, inner)
            &&& match inner {
                Err(e) => res == Some(Err::<bytes::Bytes, Error>(e)),
                Ok(n) => if n == 0 {
                    res is None
                } else {
                    res matches Some(Ok(bs)) && bytes_contents(bs) == filled(b1, n)
                },
            }
        }
}

impl<R: Read> Read for IntoStreamableReader<R> {
    /// The reader underneath reads.
    open spec fn read_post(
        pre: Self,
        post: Self,
        buf_pre: Seq<u8>,
        buf_post: Seq<u8>,
        res: Result<usize, Error>,
    ) -> bool {
        post@.cap == pre@.cap && R::read_post(pre@.r, post@.r, buf_pre, buf_post, res)
    }

    /// The reader underneath seeks.
    open spec fn seek_post(pre: Self, post: Self, pos: SeekFrom, res: Result<u64, Error>) -> bool {
        post@.cap == pre@.cap && R::seek_post(pre@.r, post@.r, pos, res)
    }

    open spec fn next_post(pre: Self, post: Self, res: Option<Result<bytes::Bytes, Error>>) -> bool {
        stream_next_post(pre@, post@, res)
    }

    fn read(&mut self, buf: &mut [u8]) -> (res: Result<usize, Error>) {
        self.r.read(buf)
    }

    fn seek(&mut self, pos: SeekFrom) -> (res: Result<u64, Error>) {
        self.r.seek(pos)
    }

    fn next(&mut self) -> (res: Option<Result<bytes::Bytes, Error>>) {
        if self.buf.len() != self.cap {
            self.buf.resize(self.cap, 0u8);
        }
        let ghost b0 = self.buf@;
        let inner = self.r.read(self.buf.as_mut_slice());
        proof {
            assert(R::read_post(old(self)@.r, self@.r, b0, self.buf@, inner));
        }
        match inner {
            Err(e) => Some(Err(e)),
            Ok(n) => {
                if n == 0 {
                    None
                } else {
                    let m = if n <= self.buf.len() {
                        n
                    } else {
                        self.buf.len()
                    };
                    let chunk = slice_to_vec(slice_subrange(self.buf.as_slice(), 0, m));
                    proof {
                        assert(chunk@ =~= filled(self.buf@, n));
                    }
                    Some(Ok(bytes_from_vec(chunk)))
                }
            },
        }
    }
}

} // verus!
