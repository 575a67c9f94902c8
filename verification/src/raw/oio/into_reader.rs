//! A reader that can seek, over a backend whose readers cannot.
//!
//! The reader covers a window of an object. It asks the backend for a reader
//! of what is left of the window whenever it has none, and gives its reader up
//! when a seek takes it too far to read on.

use crate::error::{plain_error, Error, ErrorKind, ErrorView};
use crate::ops::{BytesRange, OpRead, OpReadView};
use crate::raw::accessor::Accessor;
use crate::raw::buf::{bytes_contents, bytes_len};
use crate::raw::oio::io::{Read, SeekFrom};
use crate::raw::rps::RpRead;
use std::sync::Arc;
use vstd::prelude::*;

verus! {

/// How far a seek may go forward on the reader at hand, by reading and
/// dropping what lies between, unless another threshold is set: 1 MiB.
pub const DEFAULT_CONSUME_THRESHOLD: u64 = 1048576;

/// The most bytes that are read at a time when reading ahead to a seek.
pub const SCRATCH_SIZE: usize = 65536;

/// The position that a seek asks for, counted from the start of the window;
/// `None` when it lies before the start or beyond what can be counted.
pub open spec fn seek_target(cur: u64, size: u64, pos: SeekFrom) -> Option<u64> {
    let target: int = match pos {
        SeekFrom::Start(n) => n as int,
        SeekFrom::End(d) => size + d,
        SeekFrom::Current(d) => cur + d,
    };
    if 0 <= target <= u64::MAX {
        Some(target as u64)
    } else {
        None
    }
}

/// What becomes of the reader at hand in a seek.
#[derive(Clone, Copy, Debug, PartialEq, Eq, Structural)]
pub enum SeekPlan {
    /// Nothing: there is none, or the position does not change.
    Keep,
    /// It reads so many bytes ahead and drops them.
    Consume(u64),
    /// It is given up; the next read asks the backend for another.
    Reopen,
}

/// The plan for a seek from `cur` to `target`: a reader at hand reads ahead
/// when the target lies forward by no more than `threshold`, and is given up
/// otherwise.
pub open spec fn seek_plan(live: bool, cur: u64, target: u64, threshold: u64) -> SeekPlan {
    if !live || target == cur {
        SeekPlan::Keep
    } else if target > cur && target - cur <= threshold {
        SeekPlan::Consume((target - cur) as u64)
    } else {
        SeekPlan::Reopen
    }
}

/// The position after `n` more bytes. It stops at the largest value that can
/// be counted.
pub open spec fn advance(cur: u64, n: nat) -> u64 {
    if cur + n <= u64::MAX {
        (cur + n) as u64
    } else {
        u64::MAX
    }
}

/// The range that is left of a window of `size` bytes at `offset` once `cur`
/// of them are read.
pub open spec fn remaining_range(offset: u64, size: u64, cur: u64) -> BytesRange {
    BytesRange { offset: Some(advance(offset, cur as nat)), size: Some((size - cur) as u64) }
}

/// The error of a seek to a position that cannot be.
pub open spec fn invalid_seek_error() -> ErrorView {
    plain_error(ErrorKind::Unexpected, "invalid seek to a negative or overflowing position"@)
}

/// Computes the position that a seek asks for.
pub fn resolve_seek(cur: u64, size: u64, pos: SeekFrom) -> (r: Option<u64>)
    ensures
        r == seek_target(cur, size, pos),
{
    let target: i128 = match pos {
        SeekFrom::Start(n) => n as i128,
        SeekFrom::End(d) => size as i128 + d as i128,
        SeekFrom::Current(d) => cur as i128 + d as i128,
    };
    if 0 <= target && target <= u64::MAX as i128 {
        Some(target as u64)
    } else {
        None
    }
}

/// Decides what becomes of the reader at hand in a seek.
pub fn plan_seek(live: bool, cur: u64, target: u64, threshold: u64) -> (r: SeekPlan)
    ensures
        r == seek_plan(live, cur, target, threshold),
{
    if !live || target == cur {
        SeekPlan::Keep
    } else if target > cur && target - cur <= threshold {
        SeekPlan::Consume(target - cur)
    } else {
        SeekPlan::Reopen
    }
}

/// A forward seek within the threshold keeps the reader at hand and so asks
/// the backend for nothing; any other seek that moves gives the reader up, so
/// that the next read asks the backend once.
pub proof fn lemma_seek_threshold(cur: u64, target: u64, threshold: u64)
    requires
        target != cur,
    ensures
        seek_plan(true, cur, target, threshold) is Consume <==> cur < target && target - cur
            <= threshold,
        seek_plan(true, cur, target, threshold) is Consume ==> seek_plan(
            true,
            cur,
            target,
            threshold,
        ) == SeekPlan::Consume((target - cur) as u64),
        seek_plan(true, cur, target, threshold) is Reopen <==> target < cur || target - cur
            > threshold,
        seek_plan(false, cur, target, threshold) is Keep,
{
}

/// Whether the reader `r1` is `r0` after `steps` reads that gave `total` bytes
/// between them, each of them at least one byte.
pub open spec fn advanced<R: Read>(r0: R, r1: R, total: nat, steps: nat) -> bool
    decreases steps,
{
    if steps == 0 {
        r0 == r1 && total == 0
    } else {
        exists|mid: R, b0: Seq<u8>, b1: Seq<u8>, n: usize|
            {
                &&& 0 < n <= total
                &&& advanced(r0, mid, (total - n) as nat, (steps - 1) as nat)
                &&& #[trigger] R::read_post(mid, r1, b0, b1, Ok::<usize, Error>(n))
            }
    }
}

/// Whether the reader `r1` is `r0` after reads that gave `total` bytes between
/// them.
pub open spec fn consumed<R: Read>(r0: R, r1: R, total: nat) -> bool {
    exists|steps: nat| advanced(r0, r1, total, steps)
}

/// Whether the reader `r0`, which was to read `delta` bytes ahead, stalled
/// and is now `r1`: after reads that gave fewer bytes than that, a read
/// failed, gave nothing, or claimed more bytes than were left.
pub open spec fn stalled<R: Read>(r0: R, r1: R, delta: nat) -> bool {
    exists|mid: R, done: nat, steps: nat, b0: Seq<u8>, b1: Seq<u8>, bad: Result<usize, Error>|
        #![trigger advanced(r0, mid, done, steps), R::read_post(mid, r1, b0, b1, bad)]
        {
            &&& advanced(r0, mid, done, steps)
            &&& done < delta
            &&& R::read_post(mid, r1, b0, b1, bad)
            &&& match bad {
                Err(_) => true,
                Ok(n) => n == 0 || n > delta - done,
            }
        }
}

/// Whether the reader `r0` stalled when it was to read `delta` bytes ahead.
pub open spec fn gave_out<R: Read>(r0: R, delta: nat) -> bool {
    exists|r1: R| #[trigger] stalled(r0, r1, delta)
}

/// A reader as contracts see it.
pub struct RangeReaderView<A: Accessor> {
    /// The backend.
    pub acc: A,
    /// The object.
    pub path: Seq<char>,
    /// Where the window starts in the object.
    pub offset: u64,
    /// How long the window is.
    pub size: u64,
    /// The position in the window.
    pub cur: u64,
    /// The backend's reader at hand, which stands at `cur`.
    pub reader: Option<A::Reader>,
    /// How far a seek may read ahead.
    pub threshold: u64,
}

/// A reader for a window of an object that seeks by asking the backend for
/// another reader.
pub struct RangeReader<A: Accessor> {
    acc: Arc<A>,
    path: String,
    offset: u64,
    size: u64,
    cur: u64,
    reader: Option<A::Reader>,
    threshold: u64,
}

impl<A: Accessor> View for RangeReader<A> {
    type V = RangeReaderView<A>;

    closed spec fn view(&self) -> RangeReaderView<A> {
        RangeReaderView {
            acc: *self.acc,
            path: self.path@,
            offset: self.offset,
            size: self.size,
            cur: self.cur,
            reader: self.reader,
            threshold: self.threshold,
        }
    }
}

/// The length of the window of `size` bytes at `offset`, cut at the largest
/// offset that an object can have.
pub open spec fn window_size(offset: u64, size: u64) -> u64 {
    if offset + size <= u64::MAX {
        size
    } else {
        (u64::MAX - offset) as u64
    }
}

/// Cuts a window at the largest offset that an object can have.
pub fn clip_window(offset: u64, size: u64) -> (r: u64)
    ensures
        r == window_size(offset, size),
{
    if size <= u64::MAX - offset {
        size
    } else {
        u64::MAX - offset
    }
}

/// The position after `n` more bytes.
pub fn advance_position(cur: u64, n: usize) -> (r: u64)
    ensures
        r == advance(cur, n as nat),
{
    if n as u64 <= u64::MAX - cur {
        cur + n as u64
    } else {
        u64::MAX
    }
}

/// The range to ask the backend for when `cur` bytes of a window are read and
/// more are left.
pub fn remaining_window(offset: u64, size: u64, cur: u64) -> (r: BytesRange)
    requires
        cur < size,
    ensures
        r == remaining_range(offset, size, cur),
{
    let start = if cur <= u64::MAX - offset {
        offset + cur
    } else {
        u64::MAX
    };
    BytesRange::new(Some(start), Some(size - cur))
}

/// A seekable reader for the `size` bytes at `offset` of `path`, starting
/// with the reader `r`, which the backend gave for that window.
pub fn by_range<A: Accessor>(acc: Arc<A>, path: &str, r: A::Reader, offset: u64, size: u64) -> (res:
    RangeReader<A>)
    ensures
        res@ == (RangeReaderView {
            acc: *acc,
            path: path@,
            offset,
            size: window_size(offset, size),
            cur: 0,
            reader: Some(r),
            threshold: DEFAULT_CONSUME_THRESHOLD,
        }),
{
    let size = clip_window(offset, size);
    RangeReader {
        acc,
        path: path.to_owned(),
        offset,
        size,
        cur: 0,
        reader: Some(r),
        threshold: DEFAULT_CONSUME_THRESHOLD,
    }
}

impl<A: Accessor> RangeReader<A> {

    /// Sets how far a seek may read ahead on the reader at hand.
    pub fn with_consume_threshold(self, threshold: u64) -> (r: RangeReader<A>)
        ensures
            r@ == (RangeReaderView { threshold, ..self@ }),
    {
        let mut r = self;
        r.threshold = threshold;
        r
    }

    /// The position in the window.
    pub fn position(&self) -> (r: u64)
        ensures
            r == self@.cur,
    {
        self.cur
    }

    /// Whether a reader of the backend is at hand.
    pub fn is_live(&self) -> (r: bool)
        ensures
            r == (self@.reader is Some),
    {
        self.reader.is_some()
    }

    /// Asks the backend for a reader of what is left of the window.
    fn reopen(&mut self) -> (res: Result<(), Error>)
        requires
            old(self)@.reader is None,
            old(self)@.cur < old(self)@.size,
        ensures
            match res {
                Ok(_) => final(self)@.reader is Some && final(self)@ == (RangeReaderView {
                    reader: final(self)@.reader,
                    ..old(self)@
                }) && opened(old(self)@, final(self)@.reader->0),
                Err(e) => final(self)@ == old(self)@ && open_failed(old(self)@, e),
            },
    {
        let range = remaining_window(self.offset, self.size, self.cur);
        let args = OpRead::new().with_range(range);
        match self.acc.read(self.path.as_str(), args) {
            Err(e) => Err(e),
            Ok((rp, r)) => {
                self.reader = Some(r);
                proof {
                    assert(self@.acc.read_post(
                        self@.path,
                        OpReadView::of_range(
                            remaining_range(self@.offset, self@.size, old(self)@.cur),
                        ),
                        Ok::<(RpRead, A::Reader), Error>((rp, r)),
                    ));
                }
                Ok(())
            },
        }
    }

    fn advance_by(&mut self, n: usize)
        ensures
            final(self)@ == (RangeReaderView {
                cur: advance(old(self)@.cur, n as nat),
                ..old(self)@
            }),
    {
        self.cur = advance_position(self.cur, n);
    }
}

/// Whether `r` is a reader that the backend gave for what is left of the
/// window of `pre`.
pub open spec fn opened<A: Accessor>(pre: RangeReaderView<A>, r: A::Reader) -> bool {
    exists|rp: RpRead| #[trigger]
        pre.acc.read_post(
            pre.path,
            OpReadView::of_range(remaining_range(pre.offset, pre.size, pre.cur)),
            Ok::<(RpRead, A::Reader), Error>((rp, r)),
        )
}

/// Whether the backend refused, with `e`, a reader for what is left of the
/// window of `pre`.
pub open spec fn open_failed<A: Accessor>(pre: RangeReaderView<A>, e: Error) -> bool {
    pre.acc.read_post(
        pre.path,
        OpReadView::of_range(remaining_range(pre.offset, pre.size, pre.cur)),
        Err::<(RpRead, A::Reader), Error>(e),
    )
}

/// Whether `r` is the reader that serves a call on `pre`: the reader at hand,
/// or else one that the backend gave for what is left of the window.
pub open spec fn serving<A: Accessor>(pre: RangeReaderView<A>, r: A::Reader) -> bool {
    match pre.reader {
        Some(r0) => r == r0,
        None => pre.cur < pre.size && opened(pre, r),
    }
}

/// What one `read` of a range reader does.
///
/// At the end of the window, with no reader at hand, nothing is read. With no
/// reader at hand otherwise, the backend is asked for one, for what is left of
/// the window; its refusal is handed on. The reader then reads. What it read
/// moves the position on; its end and its error are handed on, and the reader
/// is given up.
pub open spec fn range_read_post<A: Accessor>(
    pre: RangeReaderView<A>,
    post: RangeReaderView<A>,
    b0: Seq<u8>,
    b1: Seq<u8>,
    res: Result<usize, Error>,
) -> bool {
    &&& post == (RangeReaderView { cur: post.cur, reader: post.reader, ..pre })
    &&& if pre.reader is None && pre.cur >= pre.size {
        post == pre && b1 == b0 && res == Ok::<usize, Error>(0)
    } else {
        ||| pre.reader is None && post == pre && b1 == b0 && res is Err && open_failed(
            pre,
            res->Err_0,
        )
        ||| exists|r0: A::Reader, r1: A::Reader|
            {
                &&& serving(pre, r0)
                &&& #[trigger] A::Reader::read_post(r0, r1, b0, b1, res)
                &&& match res {
                    Ok(n) => if n == 0 {
                        post.reader is None && post.cur == pre.cur
                    } else {
                        post.reader == Some(r1) && post.cur == advance(pre.cur, n as nat)
                    },
                    Err(_) => post.reader is None && post.cur == pre.cur,
                }
            }
    }
}

/// What one `next` of a range reader does: as `read`, for a chunk.
pub open spec fn range_next_post<A: Accessor>(
    pre: RangeReaderView<A>,
    post: RangeReaderView<A>,
    res: Option<Result<bytes::Bytes, Error>>,
) -> bool {
    &&& post == (RangeReaderView { cur: post.cur, reader: post.reader, ..pre })
    &&& if pre.reader is None && pre.cur >= pre.size {
        post == pre && res is None
    } else {
        ||| {
            &&& pre.reader is None
            &&& post == pre
            &&& res matches Some(Err(e)) && open_failed(pre, e)
        }
        ||| exists|r0: A::Reader, r1: A::Reader|
            {
                &&& serving(pre, r0)
                &&& #[trigger] A::Reader::next_post(r0, r1, res)
                &&& match res {
                    Some(Ok(bs)) => post.reader == Some(r1) && post.cur == advance(
                        pre.cur,
                        bytes_contents(bs).len(),
                    ),
                    _ => post.reader is None && post.cur == pre.cur,
                }
            }
    }
}

/// What one `seek` of a range reader does.
///
/// A position that cannot be is refused and nothing changes. Otherwise the
/// seek succeeds with the new position and never asks the backend for
/// anything. A reader at hand stays when the position does not change. It
/// reads ahead when the position lies forward within the threshold: it stays
/// when it delivers just those bytes, and is given up only when it stalls. In
/// every other case it is given up.
pub open spec fn range_seek_post<A: Accessor>(
    pre: RangeReaderView<A>,
    post: RangeReaderView<A>,
    pos: SeekFrom,
    res: Result<u64, Error>,
) -> bool {
    &&& post == (RangeReaderView { cur: post.cur, reader: post.reader, ..pre })
    &&& match seek_target(pre.cur, pre.size, pos) {
        None => post == pre && res is Err && res->Err_0@ == invalid_seek_error(),
        Some(t) => {
            &&& res == Ok::<u64, Error>(t)
            &&& post.cur == t
            &&& match seek_plan(pre.reader is Some, pre.cur, t, pre.threshold) {
                SeekPlan::Keep => post.reader == pre.reader,
                SeekPlan::Reopen => post.reader is None,
                SeekPlan::Consume(d) => match post.reader {
                    Some(r1) => consumed(pre.reader->0, r1, d as nat),
                    None => gave_out(pre.reader->0, d as nat),
                },
            }
        },
    }
}

impl<A: Accessor> RangeReader<A> {
    /// Reads `delta` bytes ahead on `r` and drops them. Returns whether `r`
    /// delivered just those bytes; it did not only if it stalled.
    fn read_ahead(r: &mut A::Reader, delta: u64) -> (ok: bool)
        requires
            delta > 0,
        ensures
            ok ==> consumed(*old(r), *final(r), delta as nat),
            !ok ==> stalled(*old(r), *final(r), delta as nat),
    {
        let ghost r0 = *r;
        let ghost mut steps: nat = 0;
        let mut left: u64 = delta;
        let mut scratch: Vec<u8> = Vec::new();
        while left > 0
            invariant
                r0 == *old(r),
                left <= delta,
                advanced(r0, *r, (delta - left) as nat, steps),
            decreases left,
        {
            let want: usize = if left < SCRATCH_SIZE as u64 {
                left as usize
            } else {
                SCRATCH_SIZE
            };
            if scratch.len() != want {
                scratch.resize(want, 0u8);
            }
            let ghost mid = *r;
            let ghost b0 = scratch@;
            let res = r.read(scratch.as_mut_slice());
            match res {
                Ok(n) => {
                    if n == 0 || n as u64 > left {
                        proof {
                            assert(A::Reader::read_post(mid, *r, b0, scratch@, res));
                            assert(stalled(r0, *r, delta as nat));
                        }
                        return false;
                    }
                    left = left - n as u64;
                    proof {
                        assert(A::Reader::read_post(mid, *r, b0, scratch@, Ok::<usize, Error>(n)));
                        steps = steps + 1;
                        assert(advanced(r0, *r, (delta - left) as nat, steps));
                    }
                },
                Err(_) => {
                    proof {
                        assert(A::Reader::read_post(mid, *r, b0, scratch@, res));
                        assert(stalled(r0, *r, delta as nat));
                    }
                    return false;
                },
            }
        }
        proof {
            assert(advanced(r0, *r, delta as nat, steps));
            assert(consumed(r0, *r, delta as nat));
        }
        true
    }
}

impl<A: Accessor> Read for RangeReader<A> {
    open spec fn read_post(
        pre: Self,
        post: Self,
        buf_pre: Seq<u8>,
        buf_post: Seq<u8>,
        res: Result<usize, Error>,
    ) -> bool {
        range_read_post(pre@, post@, buf_pre, buf_post, res)
    }

    open spec fn seek_post(pre: Self, post: Self, pos: SeekFrom, res: Result<u64, Error>) -> bool {
        range_seek_post(pre@, post@, pos, res)
    }

    open spec fn next_post(pre: Self, post: Self, res: Option<Result<bytes::Bytes, Error>>) -> bool {
        range_next_post(pre@, post@, res)
    }

    fn read(&mut self, buf: &mut [u8]) -> (res: Result<usize, Error>) {
        if self.reader.is_none() {
            if self.cur >= self.size {
                return Ok(0);
            }
            match self.reopen() {
                Err(e) => {
                    return Err(e);
                },
                Ok(_) => {},
            }
        }
        let mut r = self.reader.take().unwrap();
        let ghost r0 = r;
        let res = r.read(buf);
        proof {
            assert(serving(old(self)@, r0));
            assert(A::Reader::read_post(r0, r, old(buf)@, buf@, res));
        }
        match res {
            Ok(n) => {
                if n > 0 {
                    self.reader = Some(r);
                    self.advance_by(n);
                }
            },
            Err(_) => {},
        }
        res
    }

    fn seek(&mut self, pos: SeekFrom) -> (res: Result<u64, Error>) {
        let target = match resolve_seek(self.cur, self.size, pos) {
            None => {
                return Err(
                    Error::new(
                        ErrorKind::Unexpected,
                        "invalid seek to a negative or overflowing position",
                    ),
                );
            },
            Some(t) => t,
        };
        match plan_seek(self.reader.is_some(), self.cur, target, self.threshold) {
            SeekPlan::Keep => {},
            SeekPlan::Reopen => {
                self.reader = None;
            },
            SeekPlan::Consume(delta) => {
                let mut r = self.reader.take().unwrap();
                let ghost at_hand = r;
                if Self::read_ahead(&mut r, delta) {
                    self.reader = Some(r);
                } else {
                    proof {
                        assert(stalled(at_hand, r, delta as nat));
                        assert(gave_out(at_hand, delta as nat));
                    }
                }
            },
        }
        self.cur = target;
        Ok(target)
    }

    fn next(&mut self) -> (res: Option<Result<bytes::Bytes, Error>>) {
        if self.reader.is_none() {
            if self.cur >= self.size {
                return None;
            }
            match self.reopen() {
                Err(e) => {
                    return Some(Err(e));
                },
                Ok(_) => {},
            }
        }
        let mut r = self.reader.take().unwrap();
        let ghost r0 = r;
        let res = r.next();
        proof {
            assert(serving(old(self)@, r0));
            assert(A::Reader::next_post(r0, r, res));
        }
        match &res {
            Some(Ok(bs)) => {
                let n = bytes_len(bs);
                self.reader = Some(r);
                self.advance_by(n);
            },
            _ => {},
        }
        res
    }
}

/// A forward seek on a reader at hand. The seek succeeds at the new position.
/// Within the threshold the reader at hand reads ahead and stays, advanced by
/// just the bytes between; it is given up only if it stalls on the way. Beyond
/// the threshold it is given up.
pub proof fn lemma_seek_forward<A: Accessor>(
    pre: RangeReaderView<A>,
    post: RangeReaderView<A>,
    pos: SeekFrom,
    delta: u64,
    res: Result<u64, Error>,
)
    requires
        pre.reader is Some,
        delta > 0,
        seek_target(pre.cur, pre.size, pos) == Some((pre.cur + delta) as u64),
        pre.cur + delta <= u64::MAX,
        range_seek_post(pre, post, pos, res),
    ensures
        res == Ok::<u64, Error>((pre.cur + delta) as u64),
        post.cur == pre.cur + delta,
        delta <= pre.threshold ==> match post.reader {
            Some(r1) => consumed(pre.reader->0, r1, delta as nat),
            None => gave_out(pre.reader->0, delta as nat),
        },
        delta > pre.threshold ==> post.reader is None,
{
}

/// A read is served by the reader at hand where there is one, and the backend
/// is asked for nothing. Where there is none, and the window is not at its
/// end, the backend is asked once, for what is left of the window from the
/// position on, and its reader serves the read.
pub proof fn lemma_read_source<A: Accessor>(
    pre: RangeReaderView<A>,
    post: RangeReaderView<A>,
    b0: Seq<u8>,
    b1: Seq<u8>,
    res: Result<usize, Error>,
)
    requires
        range_read_post(pre, post, b0, b1, res),
    ensures
        pre.reader is Some ==> exists|r1: A::Reader| #[trigger]
            A::Reader::read_post(pre.reader->0, r1, b0, b1, res),
        pre.reader is None && pre.cur < pre.size ==> {
            ||| res is Err && open_failed(pre, res->Err_0)
            ||| exists|r0: A::Reader, r1: A::Reader|
                opened(pre, r0) && #[trigger] A::Reader::read_post(r0, r1, b0, b1, res)
        },
        pre.reader is None && pre.cur >= pre.size ==> res == Ok::<usize, Error>(0) && post == pre,
{
    if pre.reader is Some {
        let (r0, r1) = choose|r0: A::Reader, r1: A::Reader|
            serving(pre, r0) && #[trigger] A::Reader::read_post(r0, r1, b0, b1, res);
        assert(A::Reader::read_post(pre.reader->0, r1, b0, b1, res));
    } else if pre.cur < pre.size {
        if !(res is Err && open_failed(pre, res->Err_0)) {
            let (r0, r1) = choose|r0: A::Reader, r1: A::Reader|
                serving(pre, r0) && #[trigger] A::Reader::read_post(r0, r1, b0, b1, res);
            assert(opened(pre, r0) && A::Reader::read_post(r0, r1, b0, b1, res));
        }
    }
}

} // verus!
