//! The metrics layer: every operation is counted and timed, the bytes that
//! readers and writers move are observed, and every error is reported. The
//! outcome of an operation is what the accessor underneath made of it.
//!
//! The layer does not keep the metrics itself. It reports to a registry that
//! the caller supplies, in three families labelled by the backend's scheme and
//! the operation: `requests_total`, a counter; `requests_duration_seconds`, a
//! histogram; and `bytes_total`, a histogram of the bytes moved by one call.

use crate::capability::AccessorInfo;
use crate::error::{Error, ErrorKind};
use crate::ops::{
    OpAppend, OpAppendView, OpBatch, OpCopy, OpCreateDir, OpDelete, OpList, OpListView, OpPresign,
    OpRead, OpReadView, OpRename, OpStat, OpWrite, OpWriteView,
};
use crate::raw::accessor::Accessor;
use crate::raw::buf::bytes_len;
use crate::raw::layer::Layer;
use crate::raw::oio::io::{Read, SeekFrom, Write};
use crate::raw::rps::{
    RpAppend, RpBatch, RpCopy, RpCreateDir, RpDelete, RpList, RpPresign, RpRead, RpRename, RpStat,
    RpWrite,
};
use std::sync::Arc;
use vstd::prelude::*;
use vstd::string::StringExecFns;

verus! {

/// The name of the family that counts requests.
pub const REQUESTS_TOTAL: &'static str = "requests_total";

/// The name of the family that times requests.
pub const REQUESTS_DURATION_SECONDS: &'static str = "requests_duration_seconds";

/// The name of the family that observes the bytes moved.
pub const BYTES_TOTAL: &'static str = "bytes_total";

/// The first label of every family.
pub const LABEL_SCHEME: &'static str = "scheme";

/// The second label of every family.
pub const LABEL_OPERATION: &'static str = "operation";

/// The buckets of both histograms grow by this factor from one to the next.
pub const BUCKET_FACTOR: u32 = 2;

/// Both histograms have this many buckets.
pub const BUCKET_COUNT: usize = 16;

/// The first bucket of both histograms ends at one part in this many.
pub const BUCKET_START_DIVISOR: u32 = 100;

/// The operations that are counted.
#[derive(Clone, Copy, Debug, PartialEq, Eq, Hash, Structural)]
pub enum Operation {
    Info,
    CreateDir,
    Read,
    Write,
    Append,
    Copy,
    Rename,
    Stat,
    Delete,
    List,
    Batch,
    Presign,
    BlockingCreateDir,
    BlockingRead,
    BlockingWrite,
    BlockingStat,
    BlockingDelete,
    BlockingList,
}

impl Operation {
    /// The operation's label.
    pub open spec fn label(self) -> Seq<char> {
        match self {
            Operation::Info => "metadata"@,
            Operation::CreateDir => "create_dir"@,
            Operation::Read => "read"@,
            Operation::Write => "write"@,
            Operation::Append => "append"@,
            Operation::Copy => "copy"@,
            Operation::Rename => "rename"@,
            Operation::Stat => "stat"@,
            Operation::Delete => "delete"@,
            Operation::List => "list"@,
            Operation::Batch => "batch"@,
            Operation::Presign => "presign"@,
            Operation::BlockingCreateDir => "blocking_create_dir"@,
            Operation::BlockingRead => "blocking_read"@,
            Operation::BlockingWrite => "blocking_write"@,
            Operation::BlockingStat => "blocking_stat"@,
            Operation::BlockingDelete => "blocking_delete"@,
            Operation::BlockingList => "blocking_list"@,
        }
    }

    /// The operation's label.
    pub fn into_static(self) -> (r: &'static str)
        ensures
            r@ == self.label(),
    {
        match self {
            Operation::Info => "metadata",
            Operation::CreateDir => "create_dir",
            Operation::Read => "read",
            Operation::Write => "write",
            Operation::Append => "append",
            Operation::Copy => "copy",
            Operation::Rename => "rename",
            Operation::Stat => "stat",
            Operation::Delete => "delete",
            Operation::List => "list",
            Operation::Batch => "batch",
            Operation::Presign => "presign",
            Operation::BlockingCreateDir => "blocking_create_dir",
            Operation::BlockingRead => "blocking_read",
            Operation::BlockingWrite => "blocking_write",
            Operation::BlockingStat => "blocking_stat",
            Operation::BlockingDelete => "blocking_delete",
            Operation::BlockingList => "blocking_list",
        }
    }
}

/// Where the layer reports to. An implementation keeps the three families
/// and the log.
pub trait MetricsRegistry: Sized {
    /// A running measurement of time.
    type Timer;

    /// Adds one to `requests_total` under the labels.
    fn increment_requests(&self, scheme: &str, operation: &str);

    /// Starts to time a request for `requests_duration_seconds` under the
    /// labels.
    fn start_timer(&self, scheme: &str, operation: &str) -> Self::Timer;

    /// Ends a measurement and observes it.
    fn observe_duration(&self, timer: Self::Timer);

    /// Observes the bytes that one call moved, for `bytes_total` under the
    /// labels.
    fn observe_bytes(&self, scheme: &str, operation: &str, bytes: u64);

    /// Writes the log record of a failed operation.
    fn report_error(&self, record: &str);
}

/// The log record of an operation that failed with an error of `kind`.
pub open spec fn error_record(operation: Operation, kind: ErrorKind) -> Seq<char> {
    "Prometheus statistics metrics error, operation "@ + operation.label() + " error "@
        + kind.name()
}

/// The layer that reports to `registry`.
pub struct PrometheusLayer<M> {
    registry: M,
}

impl<M> PrometheusLayer<M> {
    /// The layer that reports to `registry`.
    pub fn with_registry(registry: M) -> (r: PrometheusLayer<M>)
        ensures
            r.registry() == registry,
    {
        PrometheusLayer { registry }
    }

    /// The registry that the layer reports to.
    pub closed spec fn registry(&self) -> M {
        self.registry
    }
}

/// The metrics of one layered accessor.
pub struct PrometheusMetrics<M> {
    registry: M,
}

impl<M> PrometheusMetrics<M> {
    /// The registry that the metrics go to.
    pub closed spec fn registry(&self) -> M {
        self.registry
    }
}

impl<M: MetricsRegistry> PrometheusMetrics<M> {
    /// Metrics that go to `registry`.
    pub fn new(registry: M) -> (r: PrometheusMetrics<M>)
        ensures
            r.registry() == registry,
    {
        PrometheusMetrics { registry }
    }

    /// Counts one request.
    pub(crate) fn increment_requests_total(&self, scheme: &str, operation: Operation) {
        self.registry.increment_requests(scheme, operation.into_static());
    }

    /// Starts to time one request.
    pub(crate) fn start_timer(&self, scheme: &str, operation: Operation) -> M::Timer {
        self.registry.start_timer(scheme, operation.into_static())
    }

    /// Ends a measurement and observes it.
    pub(crate) fn observe_duration(&self, timer: M::Timer) {
        self.registry.observe_duration(timer);
    }

    /// Observes the bytes that one call moved.
    pub(crate) fn observe_bytes_total(&self, scheme: &str, operation: Operation, bytes: u64) {
        self.registry.observe_bytes(scheme, operation.into_static(), bytes);
    }

    /// Reports an operation that failed. Errors are rare: they are logged and
    /// no family is kept for them.
    pub(crate) fn increment_errors_total(&self, operation: Operation, kind: ErrorKind) {
        let record = describe_error(operation, kind);
        self.registry.report_error(record.as_str());
    }

    /// Reports the error of `res`, if it is one.
    fn observe_outcome<T>(&self, operation: Operation, res: &Result<T, Error>) {
        match res {
            Ok(_) => {},
            Err(e) => {
                self.increment_errors_total(operation, e.kind());
            },
        }
    }
}

/// The log record of an operation that failed with an error of `kind`.
pub fn describe_error(operation: Operation, kind: ErrorKind) -> (r: String)
    ensures
        r@ == error_record(operation, kind),
{
    let mut r = "Prometheus statistics metrics error, operation ".to_owned();
    r.append(operation.into_static());
    r.append(" error ");
    r.append(kind.into_static());
    r
}

/// A wrapped stream as contracts see it.
pub struct PrometheusMetricWrapperView<R> {
    /// The stream underneath.
    pub inner: R,
    /// The operation that opened the stream.
    pub op: Operation,
    /// The backend's scheme.
    pub scheme: Seq<char>,
}

/// A reader or a writer whose bytes and errors are reported.
pub struct PrometheusMetricWrapper<R, M> {
    inner: R,
    op: Operation,
    stats: Arc<PrometheusMetrics<M>>,
    scheme: String,
}

impl<R, M> View for PrometheusMetricWrapper<R, M> {
    type V = PrometheusMetricWrapperView<R>;

    closed spec fn view(&self) -> PrometheusMetricWrapperView<R> {
        PrometheusMetricWrapperView { inner: self.inner, op: self.op, scheme: self.scheme@ }
    }
}

impl<R, M> PrometheusMetricWrapper<R, M> {
    /// Wraps the stream that `op` opened on a backend of `scheme`.
    pub fn new(inner: R, op: Operation, stats: Arc<PrometheusMetrics<M>>, scheme: &String) -> (r:
        PrometheusMetricWrapper<R, M>)
        ensures
            r@ == (PrometheusMetricWrapperView { inner, op, scheme: scheme@ }),
    {
        PrometheusMetricWrapper { inner, op, stats, scheme: scheme.clone() }
    }

    /// Whether `post` is `pre` with another stream underneath.
    pub open spec fn same_wrapper(pre: Self, post: Self) -> bool {
        post@ == (PrometheusMetricWrapperView { inner: post@.inner, ..pre@ })
    }
}

impl<R: Read, M: MetricsRegistry> Read for PrometheusMetricWrapper<R, M> {
    /// The stream underneath reads.
    open spec fn read_post(
        pre: Self,
        post: Self,
        buf_pre: Seq<u8>,
        buf_post: Seq<u8>,
        res: Result<usize, Error>,
    ) -> bool {
        Self::same_wrapper(pre, post) && R::read_post(
            pre@.inner,
            post@.inner,
            buf_pre,
            buf_post,
            res,
        )
    }

    /// The stream underneath seeks.
    open spec fn seek_post(pre: Self, post: Self, pos: SeekFrom, res: Result<u64, Error>) -> bool {
        Self::same_wrapper(pre, post) && R::seek_post(pre@.inner, post@.inner, pos, res)
    }

    /// The stream underneath yields its next chunk.
    open spec fn next_post(pre: Self, post: Self, res: Option<Result<bytes::Bytes, Error>>) -> bool {
        Self::same_wrapper(pre, post) && R::next_post(pre@.inner, post@.inner, res)
    }

    fn read(&mut self, buf: &mut [u8]) -> (res: Result<usize, Error>) {
        let res = self.inner.read(buf);
        match &res {
            Ok(n) => {
                self.stats.observe_bytes_total(self.scheme.as_str(), self.op, *n as u64);
            },
            Err(e) => {
                self.stats.increment_errors_total(self.op, e.kind());
            },
        }
        res
    }

    fn seek(&mut self, pos: SeekFrom) -> (res: Result<u64, Error>) {
        let res = self.inner.seek(pos);
        self.stats.observe_outcome(self.op, &res);
        res
    }

    fn next(&mut self) -> (res: Option<Result<bytes::Bytes, Error>>) {
        let res = self.inner.next();
        match &res {
            Some(Ok(bs)) => {
                self.stats.observe_bytes_total(
                    self.scheme.as_str(),
                    self.op,
                    bytes_len(bs) as u64,
                );
            },
            Some(Err(e)) => {
                self.stats.increment_errors_total(self.op, e.kind());
            },
            None => {},
        }
        res
    }
}

impl<R: Write, M: MetricsRegistry> Write for PrometheusMetricWrapper<R, M> {
    /// The stream underneath writes.
    open spec fn write_post(pre: Self, post: Self, chunk: Seq<u8>, res: Result<(), Error>) -> bool {
        Self::same_wrapper(pre, post) && R::write_post(pre@.inner, post@.inner, chunk, res)
    }

    /// The stream underneath aborts.
    open spec fn abort_post(pre: Self, post: Self, res: Result<(), Error>) -> bool {
        Self::same_wrapper(pre, post) && R::abort_post(pre@.inner, post@.inner, res)
    }

    /// The stream underneath closes.
    open spec fn close_post(pre: Self, post: Self, res: Result<(), Error>) -> bool {
        Self::same_wrapper(pre, post) && R::close_post(pre@.inner, post@.inner, res)
    }

    fn write(&mut self, bs: bytes::Bytes) -> (res: Result<(), Error>) {
        let size = bytes_len(&bs);
        let res = self.inner.write(bs);
        match &res {
            Ok(_) => {
                self.stats.observe_bytes_total(self.scheme.as_str(), self.op, size as u64);
            },
            Err(e) => {
                self.stats.increment_errors_total(self.op, e.kind());
            },
        }
        res
    }

    fn abort(&mut self) -> (res: Result<(), Error>) {
        let res = self.inner.abort();
        self.stats.observe_outcome(self.op, &res);
        res
    }

    fn close(&mut self) -> (res: Result<(), Error>) {
        let res = self.inner.close();
        self.stats.observe_outcome(self.op, &res);
        res
    }
}

/// A layered accessor as contracts see it.
pub struct PrometheusAccessorView<A> {
    /// The accessor underneath.
    pub inner: A,
    /// Its scheme, the first label of every observation.
    pub scheme: Seq<char>,
}

/// An accessor that reports what goes through it.
pub struct PrometheusAccessor<A: Accessor, M> {
    inner: A,
    stats: Arc<PrometheusMetrics<M>>,
    scheme: String,
}

impl<A: Accessor, M> View for PrometheusAccessor<A, M> {
    type V = PrometheusAccessorView<A>;

    closed spec fn view(&self) -> PrometheusAccessorView<A> {
        PrometheusAccessorView { inner: self.inner, scheme: self.scheme@ }
    }
}

impl<A: Accessor, M: MetricsRegistry + Clone> Layer<A> for PrometheusLayer<M> {
    type LayeredAccessor = PrometheusAccessor<A, M>;

    /// The accessor keeps `inner` and labels its observations with the scheme
    /// that `inner` names.
    open spec fn layer_post(&self, inner: A, res: PrometheusAccessor<A, M>) -> bool {
        res@.inner == inner && exists|info: AccessorInfo| #[trigger]
            inner.info_post(info) && res@.scheme == info@.scheme.tag()
    }

    fn layer(&self, inner: A) -> (res: PrometheusAccessor<A, M>) {
        let info = inner.info();
        let scheme = info.scheme().into_static().to_owned();
        PrometheusAccessor {
            inner,
            stats: Arc::new(PrometheusMetrics::new(self.registry.clone())),
            scheme,
        }
    }
}

impl<A: Accessor, M> PrometheusAccessor<A, M> {
    /// The accessor underneath.
    pub fn inner(&self) -> (r: &A)
        ensures
            *r == self@.inner,
    {
        &self.inner
    }
}

/// What the layer makes of the answer of the accessor underneath to an
/// operation `op` that opens a stream: the refusal is handed on, and the
/// stream is wrapped under the operation and the scheme.
pub open spec fn wrapped<Rp, R, M>(
    op: Operation,
    scheme: Seq<char>,
    inner: Result<(Rp, R), Error>,
    res: Result<(Rp, PrometheusMetricWrapper<R, M>), Error>,
) -> bool {
    match inner {
        Err(e) => res == Err::<(Rp, PrometheusMetricWrapper<R, M>), Error>(e),
        Ok((rp, r)) => res matches Ok((rp2, w)) && rp2 == rp && w@ == (
            PrometheusMetricWrapperView { inner: r, op, scheme }
        ),
    }
}

fn wrap<Rp, R, M>(
    op: Operation,
    stats: &Arc<PrometheusMetrics<M>>,
    scheme: &String,
    inner: Result<(Rp, R), Error>,
) -> (res: Result<(Rp, PrometheusMetricWrapper<R, M>), Error>)
    ensures
        wrapped(op, scheme@, inner, res),
{
    match inner {
        Err(e) => Err(e),
        Ok((rp, r)) => Ok((rp, PrometheusMetricWrapper::new(r, op, stats.clone(), scheme))),
    }
}

impl<A: Accessor, M: MetricsRegistry> Accessor for PrometheusAccessor<A, M> {
    type Reader = PrometheusMetricWrapper<A::Reader, M>;

    type BlockingReader = PrometheusMetricWrapper<A::BlockingReader, M>;

    type Writer = PrometheusMetricWrapper<A::Writer, M>;

    type BlockingWriter = PrometheusMetricWrapper<A::BlockingWriter, M>;

    type Appender = A::Appender;

    type Pager = A::Pager;

    type BlockingPager = A::BlockingPager;

    /// The accessor underneath answers.
    open spec fn info_post(&self, res: AccessorInfo) -> bool {
        self@.inner.info_post(res)
    }

    /// The accessor underneath answers.
    open spec fn create_dir_post(&self, path: Seq<char>, res: Result<RpCreateDir, Error>) -> bool {
        self@.inner.create_dir_post(path, res)
    }

    /// The accessor underneath answers.
    open spec fn stat_post(&self, path: Seq<char>, res: Result<RpStat, Error>) -> bool {
        self@.inner.stat_post(path, res)
    }

    /// The accessor underneath answers.
    open spec fn delete_post(&self, path: Seq<char>, res: Result<RpDelete, Error>) -> bool {
        self@.inner.delete_post(path, res)
    }

    /// The accessor underneath answers.
    open spec fn copy_post(&self, from: Seq<char>, to: Seq<char>, res: Result<RpCopy, Error>) -> bool {
        self@.inner.copy_post(from, to, res)
    }

    /// The accessor underneath answers.
    open spec fn rename_post(&self, from: Seq<char>, to: Seq<char>, res: Result<RpRename, Error>) -> bool {
        self@.inner.rename_post(from, to, res)
    }

    /// The accessor underneath answers.
    open spec fn presign_post(&self, path: Seq<char>, args: OpPresign, res: Result<RpPresign, Error>) -> bool {
        self@.inner.presign_post(path, args, res)
    }

    /// The accessor underneath answers.
    open spec fn batch_post(&self, paths: Seq<Seq<char>>, res: Result<RpBatch, Error>) -> bool {
        self@.inner.batch_post(paths, res)
    }

    /// The accessor underneath answers.
    open spec fn blocking_create_dir_post(&self, path: Seq<char>, res: Result<RpCreateDir, Error>) -> bool {
        self@.inner.blocking_create_dir_post(path, res)
    }

    /// The accessor underneath answers.
    open spec fn blocking_stat_post(&self, path: Seq<char>, res: Result<RpStat, Error>) -> bool {
        self@.inner.blocking_stat_post(path, res)
    }

    /// The accessor underneath answers.
    open spec fn blocking_delete_post(&self, path: Seq<char>, res: Result<RpDelete, Error>) -> bool {
        self@.inner.blocking_delete_post(path, res)
    }

    /// The accessor underneath answers.
    open spec fn append_post(
        &self,
        path: Seq<char>,
        args: OpAppendView,
        res: Result<(RpAppend, Self::Appender), Error>,
    ) -> bool {
        self@.inner.append_post(path, args, res)
    }

    /// The accessor underneath answers.
    open spec fn list_post(
        &self,
        path: Seq<char>,
        args: OpListView,
        res: Result<(RpList, Self::Pager), Error>,
    ) -> bool {
        self@.inner.list_post(path, args, res)
    }

    /// The accessor underneath answers.
    open spec fn blocking_list_post(
        &self,
        path: Seq<char>,
        args: OpListView,
        res: Result<(RpList, Self::BlockingPager), Error>,
    ) -> bool {
        self@.inner.blocking_list_post(path, args, res)
    }

    /// The accessor underneath answers; the stream that it opens is wrapped.
    open spec fn read_post(
        &self,
        path: Seq<char>,
        args: OpReadView,
        res: Result<(RpRead, Self::Reader), Error>,
    ) -> bool {
        exists|inner: Result<(RpRead, A::Reader), Error>| #[trigger]
            self@.inner.read_post(path, args, inner) && wrapped(
                Operation::Read,
                self@.scheme,
                inner,
                res,
            )
    }

    /// The accessor underneath answers; the stream that it opens is wrapped.
    open spec fn write_post(
        &self,
        path: Seq<char>,
        args: OpWriteView,
        res: Result<(RpWrite, Self::Writer), Error>,
    ) -> bool {
        exists|inner: Result<(RpWrite, A::Writer), Error>| #[trigger]
            self@.inner.write_post(path, args, inner) && wrapped(
                Operation::Write,
                self@.scheme,
                inner,
                res,
            )
    }

    /// The accessor underneath answers; the stream that it opens is wrapped.
    open spec fn blocking_read_post(
        &self,
        path: Seq<char>,
        args: OpReadView,
        res: Result<(RpRead, Self::BlockingReader), Error>,
    ) -> bool {
        exists|inner: Result<(RpRead, A::BlockingReader), Error>| #[trigger]
            self@.inner.blocking_read_post(path, args, inner) && wrapped(
                Operation::BlockingRead,
                self@.scheme,
                inner,
                res,
            )
    }

    /// The accessor underneath answers; the stream that it opens is wrapped.
    open spec fn blocking_write_post(
        &self,
        path: Seq<char>,
        args: OpWriteView,
        res: Result<(RpWrite, Self::BlockingWriter), Error>,
    ) -> bool {
        exists|inner: Result<(RpWrite, A::BlockingWriter), Error>| #[trigger]
            self@.inner.blocking_write_post(path, args, inner) && wrapped(
                Operation::BlockingWrite,
                self@.scheme,
                inner,
                res,
            )
    }

    fn info(&self) -> (res: AccessorInfo) {
        self.inner.info()
    }

    fn create_dir(&self, path: &str, args: OpCreateDir) -> (res: Result<RpCreateDir, Error>) {
        self.stats.increment_requests_total(self.scheme.as_str(), Operation::CreateDir);
        let timer = self.stats.start_timer(self.scheme.as_str(), Operation::CreateDir);
        let res = self.inner.create_dir(path, args);
        self.stats.observe_duration(timer);
        self.stats.observe_outcome(Operation::CreateDir, &res);
        res
    }

    fn stat(&self, path: &str, args: OpStat) -> (res: Result<RpStat, Error>) {
        self.stats.increment_requests_total(self.scheme.as_str(), Operation::Stat);
        let timer = self.stats.start_timer(self.scheme.as_str(), Operation::Stat);
        let res = self.inner.stat(path, args);
        self.stats.observe_duration(timer);
        self.stats.observe_outcome(Operation::Stat, &res);
        res
    }

    fn delete(&self, path: &str, args: OpDelete) -> (res: Result<RpDelete, Error>) {
        self.stats.increment_requests_total(self.scheme.as_str(), Operation::Delete);
        let timer = self.stats.start_timer(self.scheme.as_str(), Operation::Delete);
        let res = self.inner.delete(path, args);
        self.stats.observe_duration(timer);
        self.stats.observe_outcome(Operation::Delete, &res);
        res
    }

    fn copy(&self, from: &str, to: &str, args: OpCopy) -> (res: Result<RpCopy, Error>) {
        self.stats.increment_requests_total(self.scheme.as_str(), Operation::Copy);
        let timer = self.stats.start_timer(self.scheme.as_str(), Operation::Copy);
        let res = self.inner.copy(from, to, args);
        self.stats.observe_duration(timer);
        self.stats.observe_outcome(Operation::Copy, &res);
        res
    }

    fn rename(&self, from: &str, to: &str, args: OpRename) -> (res: Result<RpRename, Error>) {
        self.stats.increment_requests_total(self.scheme.as_str(), Operation::Rename);
        let timer = self.stats.start_timer(self.scheme.as_str(), Operation::Rename);
        let res = self.inner.rename(from, to, args);
        self.stats.observe_duration(timer);
        self.stats.observe_outcome(Operation::Rename, &res);
        res
    }

    fn presign(&self, path: &str, args: OpPresign) -> (res: Result<RpPresign, Error>) {
        self.stats.increment_requests_total(self.scheme.as_str(), Operation::Presign);
        let timer = self.stats.start_timer(self.scheme.as_str(), Operation::Presign);
        let res = self.inner.presign(path, args);
        self.stats.observe_duration(timer);
        self.stats.observe_outcome(Operation::Presign, &res);
        res
    }

    fn batch(&self, args: OpBatch) -> (res: Result<RpBatch, Error>) {
        self.stats.increment_requests_total(self.scheme.as_str(), Operation::Batch);
        let timer = self.stats.start_timer(self.scheme.as_str(), Operation::Batch);
        let res = self.inner.batch(args);
        self.stats.observe_duration(timer);
        self.stats.observe_outcome(Operation::Batch, &res);
        res
    }

    fn blocking_create_dir(&self, path: &str, args: OpCreateDir) -> (res: Result<RpCreateDir, Error>) {
        self.stats.increment_requests_total(self.scheme.as_str(), Operation::BlockingCreateDir);
        let timer = self.stats.start_timer(self.scheme.as_str(), Operation::BlockingCreateDir);
        let res = self.inner.blocking_create_dir(path, args);
        self.stats.observe_duration(timer);
        self.stats.observe_outcome(Operation::BlockingCreateDir, &res);
        res
    }

    fn blocking_stat(&self, path: &str, args: OpStat) -> (res: Result<RpStat, Error>) {
        self.stats.increment_requests_total(self.scheme.as_str(), Operation::BlockingStat);
        let timer = self.stats.start_timer(self.scheme.as_str(), Operation::BlockingStat);
        let res = self.inner.blocking_stat(path, args);
        self.stats.observe_duration(timer);
        self.stats.observe_outcome(Operation::BlockingStat, &res);
        res
    }

    fn blocking_delete(&self, path: &str, args: OpDelete) -> (res: Result<RpDelete, Error>) {
        self.stats.increment_requests_total(self.scheme.as_str(), Operation::BlockingDelete);
        let timer = self.stats.start_timer(self.scheme.as_str(), Operation::BlockingDelete);
        let res = self.inner.blocking_delete(path, args);
        self.stats.observe_duration(timer);
        self.stats.observe_outcome(Operation::BlockingDelete, &res);
        res
    }

    fn append(&self, path: &str, args: OpAppend) -> (res: Result<(RpAppend, Self::Appender), Error>) {
        self.inner.append(path, args)
    }

    fn list(&self, path: &str, args: OpList) -> (res: Result<(RpList, Self::Pager), Error>) {
        self.stats.increment_requests_total(self.scheme.as_str(), Operation::List);
        let timer = self.stats.start_timer(self.scheme.as_str(), Operation::List);
        let res = self.inner.list(path, args);
        self.stats.observe_duration(timer);
        self.stats.observe_outcome(Operation::List, &res);
        res
    }

    fn blocking_list(&self, path: &str, args: OpList) -> (res: Result<(RpList, Self::BlockingPager), Error>) {
        self.stats.increment_requests_total(self.scheme.as_str(), Operation::BlockingList);
        let timer = self.stats.start_timer(self.scheme.as_str(), Operation::BlockingList);
        let res = self.inner.blocking_list(path, args);
        self.stats.observe_duration(timer);
        self.stats.observe_outcome(Operation::BlockingList, &res);
        res
    }

    fn read(&self, path: &str, args: OpRead) -> (res: Result<(RpRead, Self::Reader), Error>) {
        self.stats.increment_requests_total(self.scheme.as_str(), Operation::Read);
        let timer = self.stats.start_timer(self.scheme.as_str(), Operation::Read);
        let inner = self.inner.read(path, args);
        match &inner {
            Ok((rp, _)) => {
                self.stats.observe_bytes_total(
                    self.scheme.as_str(),
                    Operation::Read,
                    rp.metadata().content_length(),
                );
            },
            Err(_) => {},
        }
        self.stats.observe_duration(timer);
        self.stats.observe_outcome(Operation::Read, &inner);
        proof {
            assert(self@.inner.read_post(path@, args@, inner));
        }
        wrap(Operation::Read, &self.stats, &self.scheme, inner)
    }

    fn write(&self, path: &str, args: OpWrite) -> (res: Result<(RpWrite, Self::Writer), Error>) {
        self.stats.increment_requests_total(self.scheme.as_str(), Operation::Write);
        let timer = self.stats.start_timer(self.scheme.as_str(), Operation::Write);
        let inner = self.inner.write(path, args);
        self.stats.observe_duration(timer);
        self.stats.observe_outcome(Operation::Write, &inner);
        proof {
            assert(self@.inner.write_post(path@, args@, inner));
        }
        wrap(Operation::Write, &self.stats, &self.scheme, inner)
    }

    fn blocking_read(&self, path: &str, args: OpRead) -> (res: Result<(RpRead, Self::BlockingReader), Error>) {
        self.stats.increment_requests_total(self.scheme.as_str(), Operation::BlockingRead);
        let timer = self.stats.start_timer(self.scheme.as_str(), Operation::BlockingRead);
        let inner = self.inner.blocking_read(path, args);
        match &inner {
            Ok((rp, _)) => {
                self.stats.observe_bytes_total(
                    self.scheme.as_str(),
                    Operation::BlockingRead,
                    rp.metadata().content_length(),
                );
            },
            Err(_) => {},
        }
        self.stats.observe_duration(timer);
        self.stats.observe_outcome(Operation::BlockingRead, &inner);
        proof {
            assert(self@.inner.blocking_read_post(path@, args@, inner));
        }
        wrap(Operation::BlockingRead, &self.stats, &self.scheme, inner)
    }

    fn blocking_write(&self, path: &str, args: OpWrite) -> (res: Result<(RpWrite, Self::BlockingWriter), Error>) {
        self.stats.increment_requests_total(self.scheme.as_str(), Operation::BlockingWrite);
        let timer = self.stats.start_timer(self.scheme.as_str(), Operation::BlockingWrite);
        let inner = self.inner.blocking_write(path, args);
        self.stats.observe_duration(timer);
        self.stats.observe_outcome(Operation::BlockingWrite, &inner);
        proof {
            assert(self@.inner.blocking_write_post(path@, args@, inner));
        }
        wrap(Operation::BlockingWrite, &self.stats, &self.scheme, inner)
    }

}

} // verus!
