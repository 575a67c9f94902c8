//! Sinks that hold a caller to the size it declared and to finishing once.

use crate::error::{plain_error, Error, ErrorKind, ErrorView};
use crate::raw::buf::bytes_len;
use crate::raw::oio::io::{Append, Write};
use crate::text::{decimal, decimal_digits};
use vstd::prelude::*;
use vstd::string::StringExecFns;

verus! {

/// Whether `n` more bytes fit under the declared size.
pub open spec fn write_fits(size: Option<u64>, written: nat, n: nat) -> bool {
    size matches Some(s) ==> written + n <= s
}

/// Whether the declared size has been reached.
pub open spec fn close_fits(size: Option<u64>, written: nat) -> bool {
    size matches Some(s) ==> written >= s
}

/// The counter after `n` more bytes. It stops at the largest value it can
/// hold, which it reaches only where no size was declared.
pub open spec fn bump(written: u64, n: nat) -> u64 {
    if written + n <= u64::MAX {
        (written + n) as u64
    } else {
        u64::MAX
    }
}

/// The error of a write that would pass the declared size.
pub open spec fn truncated_error(expect: u64, actual: nat) -> ErrorView {
    plain_error(
        ErrorKind::ContentTruncated,
        "writer got too much data, expect: "@ + decimal_digits(expect as nat) + ", actual: "@
            + decimal_digits(actual),
    )
}

/// The error of a close before the declared size is reached.
pub open spec fn incomplete_error(expect: u64, actual: nat) -> ErrorView {
    plain_error(
        ErrorKind::ContentIncomplete,
        "writer got too less data, expect: "@ + decimal_digits(expect as nat) + ", actual: "@
            + decimal_digits(actual),
    )
}

/// The error of a call on a writer that is finished.
pub open spec fn finished_writer_error() -> ErrorView {
    plain_error(ErrorKind::Unexpected, "writer has been closed or aborted"@)
}

/// The error of a call on an appender that is finished.
pub open spec fn finished_appender_error() -> ErrorView {
    plain_error(ErrorKind::Unexpected, "appender has been closed"@)
}

fn size_error(kind: ErrorKind, head: &str, expect: u64, actual: u128) -> (e: Error)
    ensures
        e@ == plain_error(
            kind,
            head@ + decimal_digits(expect as nat) + ", actual: "@ + decimal_digits(actual as nat),
        ),
{
    let mut m = head.to_owned();
    m.append(decimal(expect as u128).as_str());
    m.append(", actual: ");
    m.append(decimal(actual).as_str());
    Error::new(kind, m.as_str())
}

/// A writer as contracts see it.
pub struct CompleteWriterView<W> {
    /// The backend's writer; `None` once the writer is finished.
    pub inner: Option<W>,
    /// The declared size, where one was declared.
    pub size: Option<u64>,
    /// The bytes that the backend has accepted.
    pub written: u64,
}

/// A writer that refuses more bytes than were declared, refuses to close on
/// fewer, and refuses everything once it is closed or aborted.
pub struct CompleteWriter<W> {
    inner: Option<W>,
    size: Option<u64>,
    written: u64,
}

impl<W> View for CompleteWriter<W> {
    type V = CompleteWriterView<W>;

    closed spec fn view(&self) -> CompleteWriterView<W> {
        CompleteWriterView { inner: self.inner, size: self.size, written: self.written }
    }
}

impl<W> CompleteWriter<W> {
    /// Wraps a backend writer for an object of `size` bytes, or of any size
    /// where none is declared.
    pub fn new(inner: W, size: Option<u64>) -> (r: CompleteWriter<W>)
        ensures
            r@ == (CompleteWriterView { inner: Some(inner), size, written: 0 }),
            r@.within_size(),
    {
        CompleteWriter { inner: Some(inner), size, written: 0 }
    }

    /// The declared size.
    pub fn size(&self) -> (r: Option<u64>)
        ensures
            r == self@.size,
    {
        self.size
    }

    /// The bytes accepted so far.
    pub fn written(&self) -> (r: u64)
        ensures
            r == self@.written,
    {
        self.written
    }

    /// Whether the writer was closed or aborted.
    pub fn is_finished(&self) -> (r: bool)
        ensures
            r == (self@.inner is None),
    {
        self.inner.is_none()
    }

    /// Decides whether a chunk of `n` bytes may go to the backend: not if it
    /// would pass the declared size, and not if the writer is finished.
    pub fn admit_write(&self, n: usize) -> (res: Result<(), Error>)
        ensures
            match res {
                Ok(_) => write_fits(self@.size, self@.written as nat, n as nat) && self@.inner
                    is Some,
                Err(e) => if !write_fits(self@.size, self@.written as nat, n as nat) {
                    e@ == truncated_error(self@.size->0, (self@.written + n) as nat)
                } else {
                    self@.inner is None && e@ == finished_writer_error()
                },
            },
    {
        if let Some(size) = self.size {
            let actual: u128 = self.written as u128 + n as u128;
            if actual > size as u128 {
                return Err(
                    size_error(
                        ErrorKind::ContentTruncated,
                        "writer got too much data, expect: ",
                        size,
                        actual,
                    ),
                );
            }
        }
        if self.inner.is_none() {
            return Err(Error::new(ErrorKind::Unexpected, "writer has been closed or aborted"));
        }
        Ok(())
    }

    /// Counts `n` bytes that the backend has accepted.
    pub fn record_written(&mut self, n: usize)
        ensures
            final(self)@ == (CompleteWriterView {
                written: bump(old(self)@.written, n as nat),
                ..old(self)@
            }),
    {
        self.written = if n as u64 <= u64::MAX - self.written {
            self.written + n as u64
        } else {
            u64::MAX
        };
    }

    /// Decides whether the writer may be closed: not before the declared size
    /// is reached, and not if it is finished.
    pub fn admit_close(&self) -> (res: Result<(), Error>)
        ensures
            match res {
                Ok(_) => close_fits(self@.size, self@.written as nat) && self@.inner is Some,
                Err(e) => if !close_fits(self@.size, self@.written as nat) {
                    e@ == incomplete_error(self@.size->0, self@.written as nat)
                } else {
                    self@.inner is None && e@ == finished_writer_error()
                },
            },
    {
        if let Some(size) = self.size {
            if self.written < size {
                return Err(
                    size_error(
                        ErrorKind::ContentIncomplete,
                        "writer got too less data, expect: ",
                        size,
                        self.written as u128,
                    ),
                );
            }
        }
        if self.inner.is_none() {
            return Err(Error::new(ErrorKind::Unexpected, "writer has been closed or aborted"));
        }
        Ok(())
    }

    /// Decides whether the writer may be aborted: not if it is finished.
    pub fn admit_abort(&self) -> (res: Result<(), Error>)
        ensures
            match res {
                Ok(_) => self@.inner is Some,
                Err(e) => self@.inner is None && e@ == finished_writer_error(),
            },
    {
        if self.inner.is_none() {
            return Err(Error::new(ErrorKind::Unexpected, "writer has been closed or aborted"));
        }
        Ok(())
    }

    /// Marks the writer finished and hands the backend's writer out.
    pub fn finish(&mut self) -> (r: Option<W>)
        ensures
            r == old(self)@.inner,
            final(self)@ == (CompleteWriterView { inner: None, ..old(self)@ }),
    {
        self.inner.take()
    }
}

impl<W: Write> Write for CompleteWriter<W> {
    /// A chunk that would pass the declared size is refused before the backend
    /// sees it; so is any chunk once the writer is finished. Every other chunk
    /// goes to the backend, whose answer is handed on, and is counted once the
    /// backend has accepted it.
    open spec fn write_post(pre: Self, post: Self, chunk: Seq<u8>, res: Result<(), Error>) -> bool {
        if !write_fits(pre@.size, pre@.written as nat, chunk.len()) {
            &&& post == pre
            &&& res matches Err(e) && e@ == truncated_error(
                pre@.size->0,
                (pre@.written + chunk.len()) as nat,
            )
        } else if pre@.inner is None {
            &&& post == pre
            &&& res matches Err(e) && e@ == finished_writer_error()
        } else {
            &&& post@.inner is Some
            &&& W::write_post(pre@.inner->0, post@.inner->0, chunk, res)
            &&& post@.size == pre@.size
            &&& post@.written == if res is Ok {
                bump(pre@.written, chunk.len())
            } else {
                pre@.written
            }
        }
    }

    /// A finished writer refuses. Otherwise the backend aborts, its answer is
    /// handed on, and the writer is finished once the backend has agreed.
    open spec fn abort_post(pre: Self, post: Self, res: Result<(), Error>) -> bool {
        if pre@.inner is None {
            &&& post == pre
            &&& res matches Err(e) && e@ == finished_writer_error()
        } else {
            &&& post@.size == pre@.size
            &&& post@.written == pre@.written
            &&& match res {
                Ok(_) => post@.inner is None && exists|w: W|
                    W::abort_post(pre@.inner->0, w, res),
                Err(_) => post@.inner is Some && W::abort_post(
                    pre@.inner->0,
                    post@.inner->0,
                    res,
                ),
            }
        }
    }

    /// A close before the declared size is reached is refused before the
    /// backend sees it; so is any close once the writer is finished. Otherwise
    /// the backend closes, its answer is handed on, and the writer is finished
    /// once the backend has agreed.
    open spec fn close_post(pre: Self, post: Self, res: Result<(), Error>) -> bool {
        if !close_fits(pre@.size, pre@.written as nat) {
            &&& post == pre
            &&& res matches Err(e) && e@ == incomplete_error(pre@.size->0, pre@.written as nat)
        } else if pre@.inner is None {
            &&& post == pre
            &&& res matches Err(e) && e@ == finished_writer_error()
        } else {
            &&& post@.size == pre@.size
            &&& post@.written == pre@.written
            &&& match res {
                Ok(_) => post@.inner is None && exists|w: W|
                    W::close_post(pre@.inner->0, w, res),
                Err(_) => post@.inner is Some && W::close_post(
                    pre@.inner->0,
                    post@.inner->0,
                    res,
                ),
            }
        }
    }

    fn write(&mut self, bs: bytes::Bytes) -> (res: Result<(), Error>) {
        let n = bytes_len(&bs);
        match self.admit_write(n) {
            Err(e) => Err(e),
            Ok(_) => {
                let mut w = self.inner.take().unwrap();
                let res = w.write(bs);
                self.inner = Some(w);
                if res.is_ok() {
                    self.record_written(n);
                }
                res
            },
        }
    }

    fn abort(&mut self) -> (res: Result<(), Error>) {
        match self.admit_abort() {
            Err(e) => Err(e),
            Ok(_) => {
                let mut w = self.inner.take().unwrap();
                let res = w.abort();
                if res.is_err() {
                    self.inner = Some(w);
                }
                res
            },
        }
    }

    fn close(&mut self) -> (res: Result<(), Error>) {
        match self.admit_close() {
            Err(e) => Err(e),
            Ok(_) => {
                let mut w = self.inner.take().unwrap();
                let res = w.close();
                if res.is_err() {
                    self.inner = Some(w);
                }
                res
            },
        }
    }
}

impl<W> CompleteWriterView<W> {
    /// No more bytes are counted than were declared.
    pub open spec fn within_size(self) -> bool {
        self.size matches Some(s) ==> self.written <= s
    }
}

/// A writer never counts more bytes than were declared: a new writer counts
/// none, and no call takes a writer beyond the declared size.
pub proof fn lemma_writer_within_size<W: Write>(
    pre: CompleteWriter<W>,
    post: CompleteWriter<W>,
    chunk: Seq<u8>,
    res: Result<(), Error>,
)
    requires
        pre@.within_size(),
        CompleteWriter::<W>::write_post(pre, post, chunk, res) || CompleteWriter::<W>::close_post(
            pre,
            post,
            res,
        ) || CompleteWriter::<W>::abort_post(pre, post, res),
    ensures
        post@.within_size(),
{
}

/// The bytes that a run of chunks adds up to.
pub open spec fn total(lens: Seq<nat>) -> nat
    decreases lens.len(),
{
    if lens.len() == 0 {
        0
    } else {
        total(lens.drop_last()) + lens.last()
    }
}

/// The first chunk at or after `from` that a writer refuses for its size, when
/// it has counted `written` bytes before chunk `from` and the backend accepts
/// every chunk that reaches it.
pub open spec fn first_refused(size: Option<u64>, written: nat, lens: Seq<nat>, from: int) -> Option<
    int,
>
    decreases lens.len() - from,
{
    if from < 0 || from >= lens.len() {
        None
    } else if !write_fits(size, written, lens[from]) {
        Some(from)
    } else {
        first_refused(size, written + lens[from], lens, from + 1)
    }
}

proof fn lemma_total_step(lens: Seq<nat>, k: int)
    requires
        0 <= k < lens.len(),
    ensures
        total(lens.take(k + 1)) == total(lens.take(k)) + lens[k],
{
    assert(lens.take(k + 1).drop_last() =~= lens.take(k));
}

proof fn lemma_first_refused(size: u64, lens: Seq<nat>, from: int)
    requires
        0 <= from <= lens.len(),
        forall|j: int| 0 <= j <= from ==> total(lens.take(j)) <= size,
    ensures
        match first_refused(Some(size), total(lens.take(from)), lens, from) {
            Some(k) => {
                &&& from <= k < lens.len()
                &&& total(lens.take(k + 1)) > size
                &&& forall|j: int| 0 <= j <= k ==> total(lens.take(j)) <= size
            },
            None => forall|j: int| 0 <= j <= lens.len() ==> total(lens.take(j)) <= size,
        },
    decreases lens.len() - from,
{
    if from < lens.len() {
        lemma_total_step(lens, from);
        if write_fits(Some(size), total(lens.take(from)), lens[from]) {
            assert forall|j: int| 0 <= j <= from + 1 implies total(lens.take(j)) <= size by {
                if j == from + 1 {
                } else {
                    assert(0 <= j <= from);
                }
            }
            lemma_first_refused(size, lens, from + 1);
        }
    }
}

/// The size law of a writer with a declared size, on a backend that accepts
/// every chunk that reaches it. The writer refuses a chunk exactly when the
/// chunks up to and including it add up to more than the declared size, and
/// the first such chunk is the one it refuses; every chunk before it was taken.
/// When no chunk is refused, the chunks add up to at most the declared size,
/// and a close is then taken exactly when they add up to it: with fewer bytes
/// the close is refused as incomplete.
pub proof fn lemma_size_law(size: u64, lens: Seq<nat>)
    ensures
        match first_refused(Some(size), 0, lens, 0) {
            Some(k) => {
                &&& 0 <= k < lens.len()
                &&& total(lens.take(k)) <= size < total(lens.take(k + 1))
                &&& forall|j: int| 0 <= j <= k ==> total(lens.take(j)) <= size
            },
            None => {
                &&& total(lens) <= size
                &&& close_fits(Some(size), total(lens)) <==> total(lens) == size
                &&& !close_fits(Some(size), total(lens)) <==> total(lens) < size
            },
        },
        first_refused(Some(size), 0, lens, 0) is None <==> total(lens) <= size,
{
    assert(lens.take(0) =~= Seq::<nat>::empty());
    assert(lens.take(lens.len() as int) =~= lens);
    lemma_first_refused(size, lens, 0);
    match first_refused(Some(size), 0, lens, 0) {
        Some(k) => {
            lemma_prefix_grows(lens, k + 1);
        },
        None => {},
    }
}

proof fn lemma_prefix_grows(lens: Seq<nat>, k: int)
    requires
        0 <= k <= lens.len(),
    ensures
        total(lens.take(k)) <= total(lens),
    decreases lens.len() - k,
{
    if k < lens.len() {
        lemma_total_step(lens, k);
        lemma_prefix_grows(lens, k + 1);
    } else {
        assert(lens.take(k) =~= lens);
    }
}

/// An appender as contracts see it.
pub struct CompleteAppenderView<A> {
    /// The backend's appender; `None` once the appender is closed.
    pub inner: Option<A>,
}

/// An appender that refuses everything once it is closed.
pub struct CompleteAppender<A> {
    inner: Option<A>,
}

impl<A> View for CompleteAppender<A> {
    type V = CompleteAppenderView<A>;

    closed spec fn view(&self) -> CompleteAppenderView<A> {
        CompleteAppenderView { inner: self.inner }
    }
}

impl<A> CompleteAppender<A> {
    /// Wraps a backend appender.
    pub fn new(inner: A) -> (r: CompleteAppender<A>)
        ensures
            r@ == (CompleteAppenderView { inner: Some(inner) }),
    {
        CompleteAppender { inner: Some(inner) }
    }

    /// Whether the appender was closed.
    pub fn is_finished(&self) -> (r: bool)
        ensures
            r == (self@.inner is None),
    {
        self.inner.is_none()
    }

    /// Decides whether a call may go to the backend: not if the appender is
    /// closed.
    pub fn admit_call(&self) -> (res: Result<(), Error>)
        ensures
            match res {
                Ok(_) => self@.inner is Some,
                Err(e) => self@.inner is None && e@ == finished_appender_error(),
            },
    {
        if self.inner.is_none() {
            return Err(Error::new(ErrorKind::Unexpected, "appender has been closed"));
        }
        Ok(())
    }

    /// Marks the appender closed and hands the backend's appender out.
    pub fn finish(&mut self) -> (r: Option<A>)
        ensures
            r == old(self)@.inner,
            final(self)@.inner is None,
    {
        self.inner.take()
    }
}

impl<A: Append> Append for CompleteAppender<A> {
    /// A closed appender refuses. Otherwise the chunk goes to the backend,
    /// whose answer is handed on.
    open spec fn append_post(pre: Self, post: Self, chunk: Seq<u8>, res: Result<(), Error>) -> bool {
        if pre@.inner is None {
            &&& post == pre
            &&& res matches Err(e) && e@ == finished_appender_error()
        } else {
            &&& post@.inner is Some
            &&& A::append_post(pre@.inner->0, post@.inner->0, chunk, res)
        }
    }

    /// A closed appender refuses. Otherwise the backend closes, its answer is
    /// handed on, and the appender is closed once the backend has agreed.
    open spec fn close_post(pre: Self, post: Self, res: Result<(), Error>) -> bool {
        if pre@.inner is None {
            &&& post == pre
            &&& res matches Err(e) && e@ == finished_appender_error()
        } else {
            match res {
                Ok(_) => post@.inner is None && exists|a: A|
                    A::close_post(pre@.inner->0, a, res),
                Err(_) => post@.inner is Some && A::close_post(
                    pre@.inner->0,
                    post@.inner->0,
                    res,
                ),
            }
        }
    }

    fn append(&mut self, bs: bytes::Bytes) -> (res: Result<(), Error>) {
        match self.admit_call() {
            Err(e) => Err(e),
            Ok(_) => {
                let mut a = self.inner.take().unwrap();
                let res = a.append(bs);
                self.inner = Some(a);
                res
            },
        }
    }

    fn close(&mut self) -> (res: Result<(), Error>) {
        match self.admit_call() {
            Err(e) => Err(e),
            Ok(_) => {
                let mut a = self.inner.take().unwrap();
                let res = a.close();
                if res.is_err() {
                    self.inner = Some(a);
                }
                res
            },
        }
    }
}

} // verus!
