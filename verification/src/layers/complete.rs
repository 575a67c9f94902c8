//! The completion layer: whatever the backend supports, the accessor on top
//! reads with seek and with chunks, lists flat and by level, and writes under
//! a size contract.
//!
//! Where the backend supports a feature the layer hands its streams on as
//! they are. Where it does not, the layer wraps them in the adapter that adds
//! the feature and nothing else.

use crate::capability::{AccessorInfo, AccessorInfoView, Capability, Scheme};
use crate::entry::Entry;
use crate::error::{plain_error, Error, ErrorKind, ErrorView};
use crate::layers::writer::{
    CompleteAppender, CompleteAppenderView, CompleteWriter, CompleteWriterView,
};
use crate::ops::{
    BytesRange, OpAppend, OpAppendView, OpBatch, OpCopy, OpCreateDir, OpDelete, OpList,
    OpListView, OpPresign, OpRead, OpReadView, OpRename, OpStat, OpWrite, OpWriteView,
};
use crate::raw::accessor::Accessor;
use crate::raw::layer::Layer;
use crate::raw::oio::flat_pager::{
    to_flat_pager, PagerSource, ToFlatPager, ToFlatPagerView, ViaBlockingList, ViaList,
};
use crate::raw::oio::hierarchy_pager::{
    anchor_of, to_hierarchy_pager, ToHierarchyPager, ToHierarchyPagerView,
};
use crate::raw::oio::into_reader::{
    by_range, window_size, RangeReader, RangeReaderView, DEFAULT_CONSUME_THRESHOLD,
};
use crate::raw::oio::into_streamable::{
    into_streamable_reader, IntoStreamableReader, IntoStreamableReaderView, DEFAULT_CHUNK_SIZE,
};
use crate::raw::oio::io::{Page, Read, SeekFrom};
use crate::raw::rps::{
    RpAppend, RpBatch, RpCopy, RpCreateDir, RpDelete, RpList, RpPresign, RpRead, RpRename, RpStat,
    RpWrite,
};
use crate::text::same_text;
use std::sync::Arc;
use vstd::prelude::*;

verus! {

/// The page size that a flat listing asks the backend for when the caller
/// names none.
pub const DEFAULT_LIST_LIMIT: usize = 1000;

/// What a backend's reader lacks.
#[derive(Clone, Copy, Debug, PartialEq, Eq, Structural)]
pub enum ReadStrategy {
    /// Nothing: the reader is handed on as it is.
    AlreadyComplete,
    /// Chunks: the reader seeks but does not stream.
    NeedStreamable,
    /// Seek: the reader streams but does not seek.
    NeedSeekable,
    /// Both.
    NeedBoth,
}

/// What a reader lacks when the backend says these two things of it.
pub open spec fn read_strategy(seekable: bool, streamable: bool) -> ReadStrategy {
    if seekable {
        if streamable {
            ReadStrategy::AlreadyComplete
        } else {
            ReadStrategy::NeedStreamable
        }
    } else {
        if streamable {
            ReadStrategy::NeedSeekable
        } else {
            ReadStrategy::NeedBoth
        }
    }
}

/// Decides what a backend's reader lacks.
pub fn choose_read_strategy(capability: Capability) -> (r: ReadStrategy)
    ensures
        r == read_strategy(capability.read_can_seek, capability.read_can_next),
{
    if capability.read_can_seek {
        if capability.read_can_next {
            ReadStrategy::AlreadyComplete
        } else {
            ReadStrategy::NeedStreamable
        }
    } else {
        if capability.read_can_next {
            ReadStrategy::NeedSeekable
        } else {
            ReadStrategy::NeedBoth
        }
    }
}

/// The window of the object that a range stands for, as far as the range and
/// the reply to the read tell.
#[derive(Clone, Copy, Debug, PartialEq, Eq, Structural)]
pub enum WindowPlan {
    /// The window starts at the first number and has the second as its size.
    Known(u64, u64),
    /// The window is the last so many bytes: the size of the object is needed.
    NeedTotal(u64),
}

/// The window that `range` stands for, where `content_length` is the number of
/// bytes that the backend's reply announces.
pub open spec fn window_plan(range: BytesRange, content_length: u64) -> WindowPlan {
    match (range.offset, range.size) {
        (Some(offset), Some(size)) => WindowPlan::Known(offset, size),
        (Some(offset), None) => WindowPlan::Known(offset, content_length),
        (None, None) => WindowPlan::Known(0, content_length),
        (None, Some(size)) => WindowPlan::NeedTotal(size),
    }
}

/// Works the window out that a range stands for. Only a range that asks for
/// the last bytes of the object leaves the window open.
pub fn plan_window(range: BytesRange, content_length: u64) -> (r: WindowPlan)
    ensures
        r == window_plan(range, content_length),
        r is NeedTotal <==> range.is_suffix(),
{
    match (range.offset(), range.size()) {
        (Some(offset), Some(size)) => WindowPlan::Known(offset, size),
        (Some(offset), None) => WindowPlan::Known(offset, content_length),
        (None, None) => WindowPlan::Known(0, content_length),
        (None, Some(size)) => WindowPlan::NeedTotal(size),
    }
}

/// The window of the last `size` bytes of an object of `total` bytes: it
/// starts `size` before the end, or at the start where the object is shorter,
/// and holds `size` bytes, or the whole object where that is shorter.
pub open spec fn suffix_window(total: u64, size: u64) -> (u64, u64) {
    (
        if total >= size {
            (total - size) as u64
        } else {
            0
        },
        if size <= total {
            size
        } else {
            total
        },
    )
}

/// Works the window of the last `size` bytes of an object of `total` bytes
/// out.
pub fn resolve_suffix(total: u64, size: u64) -> (r: (u64, u64))
    ensures
        r == suffix_window(total, size),
{
    if size > total {
        (0, total)
    } else {
        (total - size, size)
    }
}

/// The window of a suffix ends where the object ends and lies within it. A
/// suffix as long as the object or longer is the whole object.
pub proof fn lemma_suffix_window(total: u64, size: u64)
    ensures
        suffix_window(total, size).0 + suffix_window(total, size).1 == total,
        suffix_window(total, size).1 <= size,
        size >= total ==> suffix_window(total, size) == (0u64, total),
        size <= total ==> suffix_window(total, size) == ((total - size) as u64, size),
{
}

/// How a listing is served.
#[derive(Clone, Copy, Debug, PartialEq, Eq, Structural)]
pub enum ListPlan {
    /// The backend does not list at all.
    NoList,
    /// The backend lists in the way asked for.
    Forward,
    /// A flat listing is made from the backend's listings of one level each.
    Flatten,
    /// One level is made from the backend's flat listing.
    Synthesize,
    /// The delimiter is neither empty nor `/`.
    BadDelimiter,
}

/// How a listing with `delimiter` is served over a backend with `capability`.
pub open spec fn list_plan(capability: Capability, delimiter: Seq<char>) -> ListPlan {
    if !capability.list {
        ListPlan::NoList
    } else if delimiter.len() == 0 {
        if capability.list_without_delimiter {
            ListPlan::Forward
        } else {
            ListPlan::Flatten
        }
    } else if delimiter == "/"@ {
        if capability.list_with_delimiter_slash {
            ListPlan::Forward
        } else {
            ListPlan::Synthesize
        }
    } else {
        ListPlan::BadDelimiter
    }
}

/// Decides how a listing is served.
pub fn plan_list(capability: Capability, delimiter: &str) -> (r: ListPlan)
    ensures
        r == list_plan(capability, delimiter@),
{
    if !capability.list {
        ListPlan::NoList
    } else if delimiter.is_empty() {
        if capability.list_without_delimiter {
            ListPlan::Forward
        } else {
            ListPlan::Flatten
        }
    } else if same_text(delimiter, "/") {
        if capability.list_with_delimiter_slash {
            ListPlan::Forward
        } else {
            ListPlan::Synthesize
        }
    } else {
        ListPlan::BadDelimiter
    }
}

/// The error of a blocking read on a backend whose readers cannot seek.
pub open spec fn non_seekable_error() -> ErrorView {
    plain_error(ErrorKind::Unsupported, "non seekable blocking reader is not supported"@)
}

/// The error of a listing on a backend that does not list.
pub open spec fn no_list_error(scheme: Scheme) -> ErrorView {
    ErrorView {
        kind: ErrorKind::Unsupported,
        message: "operation is not supported"@,
        operation: "list"@,
        context: seq![("service"@, scheme.tag())],
    }
}

/// The error of a listing with a delimiter that is neither empty nor `/`.
pub open spec fn bad_delimiter_error(scheme: Scheme, delimiter: Seq<char>) -> ErrorView {
    ErrorView {
        kind: ErrorKind::Unsupported,
        message: "list with other delimiter is not supported"@,
        operation: Seq::empty(),
        context: seq![("service"@, scheme.tag()), ("delimiter"@, delimiter)],
    }
}

/// A reader that seeks and streams, whatever the backend's reader does.
pub enum CompleteReader<A: Accessor, R> {
    /// The backend's reader.
    AlreadyComplete(R),
    /// The backend's reader, made to seek.
    NeedSeekable(RangeReader<A>),
    /// The backend's reader, made to stream.
    NeedStreamable(IntoStreamableReader<R>),
    /// The backend's reader, made to seek and, on top of that, to stream.
    NeedBoth(IntoStreamableReader<RangeReader<A>>),
}

impl<A: Accessor, R: Read> Read for CompleteReader<A, R> {
    /// The reader inside reads; its shape stays.
    open spec fn read_post(
        pre: Self,
        post: Self,
        buf_pre: Seq<u8>,
        buf_post: Seq<u8>,
        res: Result<usize, Error>,
    ) -> bool {
        match (pre, post) {
            (CompleteReader::AlreadyComplete(a), CompleteReader::AlreadyComplete(b)) => R::read_post(
                a,
                b,
                buf_pre,
                buf_post,
                res,
            ),
            (CompleteReader::NeedSeekable(a), CompleteReader::NeedSeekable(b)) => RangeReader::<
                A,
            >::read_post(a, b, buf_pre, buf_post, res),
            (
                CompleteReader::NeedStreamable(a),
                CompleteReader::NeedStreamable(b),
            ) => IntoStreamableReader::<R>::read_post(a, b, buf_pre, buf_post, res),
            (CompleteReader::NeedBoth(a), CompleteReader::NeedBoth(b)) => IntoStreamableReader::<
                RangeReader<A>,
            >::read_post(a, b, buf_pre, buf_post, res),
            _ => false,
        }
    }

    /// The reader inside seeks; its shape stays.
    open spec fn seek_post(pre: Self, post: Self, pos: SeekFrom, res: Result<u64, Error>) -> bool {
        match (pre, post) {
            (CompleteReader::AlreadyComplete(a), CompleteReader::AlreadyComplete(b)) => R::seek_post(
                a,
                b,
                pos,
                res,
            ),
            (CompleteReader::NeedSeekable(a), CompleteReader::NeedSeekable(b)) => RangeReader::<
                A,
            >::seek_post(a, b, pos, res),
            (
                CompleteReader::NeedStreamable(a),
                CompleteReader::NeedStreamable(b),
            ) => IntoStreamableReader::<R>::seek_post(a, b, pos, res),
            (CompleteReader::NeedBoth(a), CompleteReader::NeedBoth(b)) => IntoStreamableReader::<
                RangeReader<A>,
            >::seek_post(a, b, pos, res),
            _ => false,
        }
    }

    /// The reader inside yields its next chunk; its shape stays.
    open spec fn next_post(pre: Self, post: Self, res: Option<Result<bytes::Bytes, Error>>) -> bool {
        match (pre, post) {
            (CompleteReader::AlreadyComplete(a), CompleteReader::AlreadyComplete(b)) => R::next_post(
                a,
                b,
                res,
            ),
            (CompleteReader::NeedSeekable(a), CompleteReader::NeedSeekable(b)) => RangeReader::<
                A,
            >::next_post(a, b, res),
            (
                CompleteReader::NeedStreamable(a),
                CompleteReader::NeedStreamable(b),
            ) => IntoStreamableReader::<R>::next_post(a, b, res),
            (CompleteReader::NeedBoth(a), CompleteReader::NeedBoth(b)) => IntoStreamableReader::<
                RangeReader<A>,
            >::next_post(a, b, res),
            _ => false,
        }
    }

    fn read(&mut self, buf: &mut [u8]) -> (res: Result<usize, Error>) {
        match self {
            CompleteReader::AlreadyComplete(r) => r.read(buf),
            CompleteReader::NeedSeekable(r) => r.read(buf),
            CompleteReader::NeedStreamable(r) => r.read(buf),
            CompleteReader::NeedBoth(r) => r.read(buf),
        }
    }

    fn seek(&mut self, pos: SeekFrom) -> (res: Result<u64, Error>) {
        match self {
            CompleteReader::AlreadyComplete(r) => r.seek(pos),
            CompleteReader::NeedSeekable(r) => r.seek(pos),
            CompleteReader::NeedStreamable(r) => r.seek(pos),
            CompleteReader::NeedBoth(r) => r.seek(pos),
        }
    }

    fn next(&mut self) -> (res: Option<Result<bytes::Bytes, Error>>) {
        match self {
            CompleteReader::AlreadyComplete(r) => r.next(),
            CompleteReader::NeedSeekable(r) => r.next(),
            CompleteReader::NeedStreamable(r) => r.next(),
            CompleteReader::NeedBoth(r) => r.next(),
        }
    }
}

/// A pager for the delimiter asked for, whatever the backend lists by.
pub enum CompletePager<S, P> {
    /// The backend's pager.
    AlreadyComplete(P),
    /// A flat listing made from the backend's listings of one level each.
    NeedFlat(ToFlatPager<S, P>),
    /// One level made from the backend's flat listing.
    NeedHierarchy(ToHierarchyPager<P>),
}

impl<S: PagerSource<P>, P: Page> Page for CompletePager<S, P> {
    /// The pager inside yields its next batch; its shape stays.
    open spec fn next_post(pre: Self, post: Self, res: Result<Option<Vec<Entry>>, Error>) -> bool {
        match (pre, post) {
            (CompletePager::AlreadyComplete(a), CompletePager::AlreadyComplete(b)) => P::next_post(
                a,
                b,
                res,
            ),
            (CompletePager::NeedFlat(a), CompletePager::NeedFlat(b)) => ToFlatPager::<
                S,
                P,
            >::next_post(a, b, res),
            (CompletePager::NeedHierarchy(a), CompletePager::NeedHierarchy(b)) => ToHierarchyPager::<
                P,
            >::next_post(a, b, res),
            _ => false,
        }
    }

    fn next(&mut self) -> (res: Result<Option<Vec<Entry>>, Error>) {
        match self {
            CompletePager::AlreadyComplete(p) => p.next(),
            CompletePager::NeedFlat(p) => p.next(),
            CompletePager::NeedHierarchy(p) => p.next(),
        }
    }
}

/// The layer that completes what a backend supports.
#[derive(Clone, Copy, Debug, Default)]
pub struct CompleteLayer;

/// A completed accessor as contracts see it.
pub struct CompleteReaderAccessorView<A> {
    /// What the backend said of itself when the layer was put on.
    pub meta: AccessorInfoView,
    /// The backend.
    pub inner: A,
}

/// An accessor over a backend that offers what the backend lacks.
pub struct CompleteReaderAccessor<A: Accessor> {
    meta: AccessorInfo,
    inner: Arc<A>,
}

impl<A: Accessor> View for CompleteReaderAccessor<A> {
    type V = CompleteReaderAccessorView<A>;

    closed spec fn view(&self) -> CompleteReaderAccessorView<A> {
        CompleteReaderAccessorView { meta: self.meta@, inner: *self.inner }
    }
}

impl<A: Accessor> Layer<A> for CompleteLayer {
    type LayeredAccessor = CompleteReaderAccessor<A>;

    /// The accessor keeps the backend and what the backend says of itself.
    open spec fn layer_post(&self, inner: A, res: CompleteReaderAccessor<A>) -> bool {
        res@.inner == inner && exists|info: AccessorInfo| #[trigger]
            inner.info_post(info) && info@ == res@.meta
    }

    fn layer(&self, inner: A) -> (res: CompleteReaderAccessor<A>) {
        let meta = inner.info();
        CompleteReaderAccessor { meta, inner: Arc::new(inner) }
    }
}

/// The range reader that the layer makes of the backend's reader `r` for the
/// window of `size` bytes at `offset`.
pub open spec fn ranged<A: Accessor>(
    inner: A,
    path: Seq<char>,
    r: A::Reader,
    offset: u64,
    size: u64,
) -> RangeReaderView<A> {
    RangeReaderView {
        acc: inner,
        path,
        offset,
        size: window_size(offset, size),
        cur: 0,
        reader: Some(r),
        threshold: DEFAULT_CONSUME_THRESHOLD,
    }
}

/// Whether `out` is what the layer makes of the backend's reader `r`: `r`
/// itself where it lacks nothing, and else `r` in the adapters for what it
/// lacks, ranged over `window` where it cannot seek.
pub open spec fn completes<A: Accessor>(
    strategy: ReadStrategy,
    inner: A,
    path: Seq<char>,
    r: A::Reader,
    window: (u64, u64),
    out: CompleteReader<A, A::Reader>,
) -> bool {
    match strategy {
        ReadStrategy::AlreadyComplete => out == CompleteReader::<A, A::Reader>::AlreadyComplete(r),
        ReadStrategy::NeedStreamable => out matches CompleteReader::NeedStreamable(s) && s@ == (
            IntoStreamableReaderView { r, cap: DEFAULT_CHUNK_SIZE }
        ),
        ReadStrategy::NeedSeekable => out matches CompleteReader::NeedSeekable(rr) && rr@ == ranged(
            inner,
            path,
            r,
            window.0,
            window.1,
        ),
        ReadStrategy::NeedBoth => out matches CompleteReader::NeedBoth(s) && s@.cap
            == DEFAULT_CHUNK_SIZE && s@.r@ == ranged(inner, path, r, window.0, window.1),
    }
}

/// What the layer makes of the backend's answer `(rp, r)` to a read. The
/// reply is handed on. The reader is completed, over the window that the range
/// stands for; where that is the last bytes of the object, the backend is
/// asked for the object's size, and its refusal is handed on.
pub open spec fn completed_read<A: Accessor>(
    me: CompleteReaderAccessorView<A>,
    path: Seq<char>,
    args: OpReadView,
    rp: RpRead,
    r: A::Reader,
    res: Result<(RpRead, CompleteReader<A, A::Reader>), Error>,
) -> bool {
    let strategy = read_strategy(me.meta.capability.read_can_seek, me.meta.capability.read_can_next);
    if me.meta.capability.read_can_seek {
        res matches Ok((rp2, out)) && rp2 == rp && completes(strategy, me.inner, path, r, (0, 0), out)
    } else {
        match window_plan(args.range, rp@.length()) {
            WindowPlan::Known(offset, size) => res matches Ok((rp2, out)) && rp2 == rp && completes(
                strategy,
                me.inner,
                path,
                r,
                (offset, size),
                out,
            ),
            WindowPlan::NeedTotal(size) => exists|st: Result<RpStat, Error>|
                {
                    &&& #[trigger] me.inner.stat_post(path, st)
                    &&& match st {
                        Err(e) => res == Err::<(RpRead, CompleteReader<A, A::Reader>), Error>(e),
                        Ok(m) => res matches Ok((rp2, out)) && rp2 == rp && completes(
                            strategy,
                            me.inner,
                            path,
                            r,
                            suffix_window(m@.length(), size),
                            out,
                        ),
                    }
                },
        }
    }
}

/// What a read through the layer does.
///
/// The backend is asked once, with the caller's arguments; its refusal is
/// handed on. A reader that seeks is handed on as it is, or made to stream. A
/// reader that does not seek is ranged over the window that the caller's range
/// stands for. Only for the last bytes of an object must the layer learn the
/// object's size, and then it asks the backend for it, once.
pub open spec fn complete_read_post<A: Accessor>(
    me: CompleteReaderAccessorView<A>,
    path: Seq<char>,
    args: OpReadView,
    res: Result<(RpRead, CompleteReader<A, A::Reader>), Error>,
) -> bool {
    exists|inner: Result<(RpRead, A::Reader), Error>|
        {
            &&& #[trigger] me.inner.read_post(path, args, inner)
            &&& match inner {
                Err(e) => res == Err::<(RpRead, CompleteReader<A, A::Reader>), Error>(e),
                Ok((rp, r)) => completed_read(me, path, args, rp, r, res),
            }
        }
}

/// What a blocking read through the layer does.
///
/// The backend is asked once, with the caller's arguments; its refusal is
/// handed on. A reader that seeks is handed on as it is, or made to stream. A
/// reader that does not seek is refused: to seek, it would have to go back to
/// the backend from inside a call that may not wait.
pub open spec fn complete_blocking_read_post<A: Accessor>(
    me: CompleteReaderAccessorView<A>,
    path: Seq<char>,
    args: OpReadView,
    res: Result<(RpRead, CompleteReader<A, A::BlockingReader>), Error>,
) -> bool {
    exists|inner: Result<(RpRead, A::BlockingReader), Error>|
        {
            &&& #[trigger] me.inner.blocking_read_post(path, args, inner)
            &&& match inner {
                Err(e) => res == Err::<(RpRead, CompleteReader<A, A::BlockingReader>), Error>(e),
                Ok((rp, r)) => if !me.meta.capability.read_can_seek {
                    res is Err && res->Err_0@ == non_seekable_error()
                } else if me.meta.capability.read_can_next {
                    res == Ok::<(RpRead, CompleteReader<A, A::BlockingReader>), Error>(
                        (rp, CompleteReader::AlreadyComplete(r)),
                    )
                } else {
                    res matches Ok((rp2, CompleteReader::NeedStreamable(s))) && rp2 == rp && s@ == (
                        IntoStreamableReaderView { r, cap: DEFAULT_CHUNK_SIZE }
                    )
                },
            }
        }
}

/// The page size of a flat listing.
pub open spec fn flat_limit(limit: Option<usize>) -> usize {
    match limit {
        Some(n) => n,
        None => DEFAULT_LIST_LIMIT,
    }
}

/// What a listing through the layer does, over the way `source` back to the
/// backend, with `forwarded` and `flat` standing for the backend's answers to
/// the listing as asked and to the flat listing.
///
/// A backend that does not list, and a delimiter other than the empty one and
/// `/`, are refused before the backend is asked. Where the backend lists in
/// the way asked for, its answer is handed on. A flat listing that it lacks
/// starts at the path asked for and asks the backend only as it goes. One
/// level that it lacks is made from its flat listing, for which it is asked
/// with the caller's other arguments.
pub open spec fn complete_list_post<A: Accessor, S: PagerSource<P>, P: Page>(
    me: CompleteReaderAccessorView<A>,
    source: S,
    path: Seq<char>,
    args: OpListView,
    res: Result<(RpList, CompletePager<S, P>), Error>,
) -> bool {
    match list_plan(me.meta.capability, args.delimiter) {
        ListPlan::NoList => res is Err && res->Err_0@ == no_list_error(me.meta.scheme),
        ListPlan::BadDelimiter => res is Err && res->Err_0@ == bad_delimiter_error(
            me.meta.scheme,
            args.delimiter,
        ),
        ListPlan::Forward => exists|inner: Result<(RpList, P), Error>|
            {
                &&& #[trigger] source.open_post(path, args, inner)
                &&& match inner {
                    Err(e) => res == Err::<(RpList, CompletePager<S, P>), Error>(e),
                    Ok((rp, p)) => res == Ok::<(RpList, CompletePager<S, P>), Error>(
                        (rp, CompletePager::AlreadyComplete(p)),
                    ),
                }
            },
        ListPlan::Flatten => res matches Ok((_, CompletePager::NeedFlat(f))) && f@ == (
            ToFlatPagerView {
                source,
                limit: flat_limit(args.limit),
                dirs: seq![path],
                current: None::<P>,
            }
        ),
        ListPlan::Synthesize => exists|inner: Result<(RpList, P), Error>|
            {
                &&& #[trigger] source.open_post(
                    path,
                    OpListView { delimiter: Seq::empty(), ..args },
                    inner,
                )
                &&& match inner {
                    Err(e) => res == Err::<(RpList, CompletePager<S, P>), Error>(e),
                    Ok((_, p)) => res matches Ok((_, CompletePager::NeedHierarchy(h))) && h@ == (
                        ToHierarchyPagerView {
                            pager: p,
                            path: anchor_of(path),
                            visited: Seq::empty(),
                        }
                    ),
                }
            },
    }
}

/// Serves a listing over the way `source` back to the backend: see
/// `complete_list_post`.
fn complete_list_via<A: Accessor, S: PagerSource<P>, P: Page>(
    me: &CompleteReaderAccessor<A>,
    source: S,
    path: &str,
    args: OpList,
) -> (res: Result<(RpList, CompletePager<S, P>), Error>)
    ensures
        complete_list_post(me@, source, path@, args@, res),
{
    let capability = me.meta.capability();
    let scheme = me.meta.scheme();
    let plan = plan_list(capability, args.delimiter());
    match plan {
        ListPlan::NoList => {
            let e = Error::new(ErrorKind::Unsupported, "operation is not supported").with_context(
                "service",
                scheme.into_static(),
            ).with_operation("list");
            proof {
                assert(e@.context =~= seq![("service"@, scheme.tag())]);
            }
            Err(e)
        },
        ListPlan::BadDelimiter => {
            let e = Error::new(
                ErrorKind::Unsupported,
                "list with other delimiter is not supported",
            ).with_context("service", scheme.into_static()).with_context(
                "delimiter",
                args.delimiter(),
            );
            proof {
                assert(e@.context =~= seq![
                    ("service"@, scheme.tag()),
                    ("delimiter"@, args@.delimiter),
                ]);
            }
            Err(e)
        },
        ListPlan::Forward => {
            match source.open(path, args) {
                Err(e) => Err(e),
                Ok((rp, p)) => Ok((rp, CompletePager::AlreadyComplete(p))),
            }
        },
        ListPlan::Flatten => {
            let limit = match args.limit() {
                Some(n) => n,
                None => DEFAULT_LIST_LIMIT,
            };
            let p = to_flat_pager(source, path, limit);
            Ok((RpList {  }, CompletePager::NeedFlat(p)))
        },
        ListPlan::Synthesize => {
            let ghost asked = OpListView { delimiter: Seq::empty(), ..args@ };
            let flat_args = args.with_delimiter("");
            proof {
                reveal_strlit("");
                assert(flat_args@.delimiter =~= Seq::<char>::empty());
                assert(flat_args@ == asked);
            }
            let inner = source.open(path, flat_args);
            match inner {
                Err(e) => Err(e),
                Ok((_, p)) => {
                    let h = to_hierarchy_pager(p, path);
                    Ok((RpList {  }, CompletePager::NeedHierarchy(h)))
                },
            }
        },
    }
}

impl<A: Accessor> CompleteReaderAccessor<A> {
    /// The backend.
    pub fn inner(&self) -> (r: &A)
        ensures
            *r == self@.inner,
    {
        &self.inner
    }

    /// Opens `path` for reading with a reader that seeks and streams: see
    /// `complete_read_post`.
    pub fn complete_reader(&self, path: &str, args: OpRead) -> (res: Result<
        (RpRead, CompleteReader<A, A::Reader>),
        Error,
    >)
        ensures
            complete_read_post(self@, path@, args@, res),
    {
        let capability = self.meta.capability();
        let strategy = choose_read_strategy(capability);
        let range = args.range();
        let inner = self.inner.read(path, args);
        let ghost answered = inner;
        proof {
            assert(self@.inner.read_post(path@, args@, answered));
        }
        let (rp, r) = match inner {
            Err(e) => {
                return Err(e);
            },
            Ok(v) => v,
        };
        let res = match strategy {
            ReadStrategy::AlreadyComplete => Ok((rp, CompleteReader::AlreadyComplete(r))),
            ReadStrategy::NeedStreamable => Ok(
                (
                    rp,
                    CompleteReader::NeedStreamable(into_streamable_reader(r, DEFAULT_CHUNK_SIZE)),
                ),
            ),
            _ => {
                let content_length = rp.metadata().content_length();
                let (offset, size) = match plan_window(range, content_length) {
                    WindowPlan::Known(offset, size) => (offset, size),
                    WindowPlan::NeedTotal(size) => {
                        let st = self.inner.stat(path, OpStat::new());
                        proof {
                            assert(self@.inner.stat_post(path@, st));
                        }
                        match st {
                            Err(e) => {
                                return Err(e);
                            },
                            Ok(m) => resolve_suffix(m.into_metadata().content_length(), size),
                        }
                    },
                };
                let rr = by_range(self.inner.clone(), path, r, offset, size);
                match strategy {
                    ReadStrategy::NeedSeekable => Ok((rp, CompleteReader::NeedSeekable(rr))),
                    _ => Ok(
                        (
                            rp,
                            CompleteReader::NeedBoth(
                                into_streamable_reader(rr, DEFAULT_CHUNK_SIZE),
                            ),
                        ),
                    ),
                }
            },
        };
        proof {
            assert(self@.inner.read_post(path@, args@, answered));
        }
        res
    }

    /// Opens `path` for reading, for a caller that cannot wait, with a reader
    /// that seeks and streams: see `complete_blocking_read_post`.
    pub fn complete_blocking_reader(&self, path: &str, args: OpRead) -> (res: Result<
        (RpRead, CompleteReader<A, A::BlockingReader>),
        Error,
    >)
        ensures
            complete_blocking_read_post(self@, path@, args@, res),
    {
        let capability = self.meta.capability();
        let strategy = choose_read_strategy(capability);
        let inner = self.inner.blocking_read(path, args);
        let ghost answered = inner;
        let res = match inner {
            Err(e) => Err(e),
            Ok((rp, r)) => match strategy {
                ReadStrategy::AlreadyComplete => Ok((rp, CompleteReader::AlreadyComplete(r))),
                ReadStrategy::NeedStreamable => Ok(
                    (
                        rp,
                        CompleteReader::NeedStreamable(
                            into_streamable_reader(r, DEFAULT_CHUNK_SIZE),
                        ),
                    ),
                ),
                _ => Err(
                    Error::new(
                        ErrorKind::Unsupported,
                        "non seekable blocking reader is not supported",
                    ),
                ),
            },
        };
        proof {
            assert(self@.inner.blocking_read_post(path@, args@, answered));
        }
        res
    }

    /// Lists what is under `path`, flat or by level as `args` ask: see
    /// `complete_list_post`.
    pub fn complete_list(&self, path: &str, args: OpList) -> (res: Result<
        (RpList, CompletePager<ViaList<A>, A::Pager>),
        Error,
    >)
        ensures
            res matches Ok((_, CompletePager::NeedFlat(f))) ==> *f@.source.acc == self@.inner,
            exists|source: ViaList<A>|
                *source.acc == self@.inner && #[trigger] complete_list_post(
                    self@,
                    source,
                    path@,
                    args@,
                    res,
                ),
    {
        let source = ViaList { acc: self.inner.clone() };
        let res = complete_list_via(self, source, path, args);
        proof {
            assert(complete_list_post(self@, source, path@, args@, res));
        }
        res
    }

    /// Lists what is under `path`, for a caller that cannot wait, flat or by
    /// level as `args` ask: see `complete_list_post`.
    pub fn complete_blocking_list(&self, path: &str, args: OpList) -> (res: Result<
        (RpList, CompletePager<ViaBlockingList<A>, A::BlockingPager>),
        Error,
    >)
        ensures
            res matches Ok((_, CompletePager::NeedFlat(f))) ==> *f@.source.acc == self@.inner,
            exists|source: ViaBlockingList<A>|
                *source.acc == self@.inner && #[trigger] complete_list_post(
                    self@,
                    source,
                    path@,
                    args@,
                    res,
                ),
    {
        let source = ViaBlockingList { acc: self.inner.clone() };
        let res = complete_list_via(self, source, path, args);
        proof {
            assert(complete_list_post(self@, source, path@, args@, res));
        }
        res
    }
}

/// What the layer makes of the backend's answer to a write: the backend's
/// refusal is handed on, and its writer is held to the size that the caller
/// declared.
pub open spec fn completed_write<W>(
    args: OpWriteView,
    inner: Result<(RpWrite, W), Error>,
    res: Result<(RpWrite, CompleteWriter<W>), Error>,
) -> bool {
    match inner {
        Err(e) => res == Err::<(RpWrite, CompleteWriter<W>), Error>(e),
        Ok((rp, w)) => res matches Ok((rp2, cw)) && rp2 == rp && cw@ == (
            CompleteWriterView { inner: Some(w), size: args.content_length, written: 0 }
        ),
    }
}

/// What the layer makes of the backend's answer to a stat: the backend's
/// refusal is handed on, and its metadata is marked complete.
pub open spec fn completed_stat(inner: Result<RpStat, Error>, res: Result<RpStat, Error>) -> bool {
    match inner {
        Err(e) => res == Err::<RpStat, Error>(e),
        Ok(m) => res matches Ok(marked) && m@.completed_by(marked@),
    }
}

fn complete_write<W>(size: Option<u64>, inner: Result<(RpWrite, W), Error>) -> (res: Result<
    (RpWrite, CompleteWriter<W>),
    Error,
>)
    ensures
        match inner {
            Err(e) => res == Err::<(RpWrite, CompleteWriter<W>), Error>(e),
            Ok((rp, w)) => res matches Ok((rp2, cw)) && rp2 == rp && cw@ == (
                CompleteWriterView { inner: Some(w), size, written: 0 }
            ),
        },
{
    match inner {
        Err(e) => Err(e),
        Ok((rp, w)) => Ok((rp, CompleteWriter::new(w, size))),
    }
}

fn complete_stat(inner: Result<RpStat, Error>) -> (res: Result<RpStat, Error>)
    ensures
        completed_stat(inner, res),
{
    match inner {
        Err(e) => Err(e),
        Ok(m) => Ok(m.into_complete()),
    }
}

impl<A: Accessor> Accessor for CompleteReaderAccessor<A> {
    type Reader = CompleteReader<A, A::Reader>;

    type BlockingReader = CompleteReader<A, A::BlockingReader>;

    type Writer = CompleteWriter<A::Writer>;

    type BlockingWriter = CompleteWriter<A::BlockingWriter>;

    type Appender = CompleteAppender<A::Appender>;

    type Pager = CompletePager<ViaList<A>, A::Pager>;

    type BlockingPager = CompletePager<ViaBlockingList<A>, A::BlockingPager>;

    /// The accessor is the backend with the completed capabilities.
    open spec fn info_post(&self, res: AccessorInfo) -> bool {
        res@ == (AccessorInfoView { capability: self@.meta.capability.completed(), ..self@.meta })
    }

    /// The backend creates the directory.
    open spec fn create_dir_post(&self, path: Seq<char>, res: Result<RpCreateDir, Error>) -> bool {
        self@.inner.create_dir_post(path, res)
    }

    open spec fn read_post(
        &self,
        path: Seq<char>,
        args: OpReadView,
        res: Result<(RpRead, Self::Reader), Error>,
    ) -> bool {
        complete_read_post(self@, path, args, res)
    }

    /// The backend opens the writer, which is then held to the declared size.
    open spec fn write_post(
        &self,
        path: Seq<char>,
        args: OpWriteView,
        res: Result<(RpWrite, Self::Writer), Error>,
    ) -> bool {
        exists|inner: Result<(RpWrite, A::Writer), Error>| #[trigger]
            self@.inner.write_post(path, args, inner) && completed_write(args, inner, res)
    }

    /// The backend opens the appender, which then refuses calls once closed.
    open spec fn append_post(
        &self,
        path: Seq<char>,
        args: OpAppendView,
        res: Result<(RpAppend, Self::Appender), Error>,
    ) -> bool {
        exists|inner: Result<(RpAppend, A::Appender), Error>| #[trigger]
            self@.inner.append_post(path, args, inner) && match inner {
                Err(e) => res == Err::<(RpAppend, Self::Appender), Error>(e),
                Ok((rp, a)) => res matches Ok((rp2, ca)) && rp2 == rp && ca@ == (
                    CompleteAppenderView { inner: Some(a) }
                ),
            }
    }

    /// The backend looks the path up; what it finds is marked complete.
    open spec fn stat_post(&self, path: Seq<char>, res: Result<RpStat, Error>) -> bool {
        exists|inner: Result<RpStat, Error>| #[trigger]
            self@.inner.stat_post(path, inner) && completed_stat(inner, res)
    }

    /// The backend deletes the path.
    open spec fn delete_post(&self, path: Seq<char>, res: Result<RpDelete, Error>) -> bool {
        self@.inner.delete_post(path, res)
    }

    open spec fn list_post(
        &self,
        path: Seq<char>,
        args: OpListView,
        res: Result<(RpList, Self::Pager), Error>,
    ) -> bool {
        exists|source: ViaList<A>|
            *source.acc == self@.inner && #[trigger] complete_list_post(
                self@,
                source,
                path,
                args,
                res,
            )
    }

    /// The backend copies the file.
    open spec fn copy_post(&self, from: Seq<char>, to: Seq<char>, res: Result<RpCopy, Error>) -> bool {
        self@.inner.copy_post(from, to, res)
    }

    /// The backend renames the file.
    open spec fn rename_post(
        &self,
        from: Seq<char>,
        to: Seq<char>,
        res: Result<RpRename, Error>,
    ) -> bool {
        self@.inner.rename_post(from, to, res)
    }

    /// The backend presigns the request.
    open spec fn presign_post(
        &self,
        path: Seq<char>,
        args: OpPresign,
        res: Result<RpPresign, Error>,
    ) -> bool {
        self@.inner.presign_post(path, args, res)
    }

    /// The backend runs the batch.
    open spec fn batch_post(&self, paths: Seq<Seq<char>>, res: Result<RpBatch, Error>) -> bool {
        self@.inner.batch_post(paths, res)
    }

    /// The backend creates the directory.
    open spec fn blocking_create_dir_post(
        &self,
        path: Seq<char>,
        res: Result<RpCreateDir, Error>,
    ) -> bool {
        self@.inner.blocking_create_dir_post(path, res)
    }

    open spec fn blocking_read_post(
        &self,
        path: Seq<char>,
        args: OpReadView,
        res: Result<(RpRead, Self::BlockingReader), Error>,
    ) -> bool {
        complete_blocking_read_post(self@, path, args, res)
    }

    /// The backend opens the writer, which is then held to the declared size.
    open spec fn blocking_write_post(
        &self,
        path: Seq<char>,
        args: OpWriteView,
        res: Result<(RpWrite, Self::BlockingWriter), Error>,
    ) -> bool {
        exists|inner: Result<(RpWrite, A::BlockingWriter), Error>| #[trigger]
            self@.inner.blocking_write_post(path, args, inner) && completed_write(args, inner, res)
    }

    /// The backend looks the path up; what it finds is marked complete.
    open spec fn blocking_stat_post(&self, path: Seq<char>, res: Result<RpStat, Error>) -> bool {
        exists|inner: Result<RpStat, Error>| #[trigger]
            self@.inner.blocking_stat_post(path, inner) && completed_stat(inner, res)
    }

    /// The backend deletes the path.
    open spec fn blocking_delete_post(&self, path: Seq<char>, res: Result<RpDelete, Error>) -> bool {
        self@.inner.blocking_delete_post(path, res)
    }

    open spec fn blocking_list_post(
        &self,
        path: Seq<char>,
        args: OpListView,
        res: Result<(RpList, Self::BlockingPager), Error>,
    ) -> bool {
        exists|source: ViaBlockingList<A>|
            *source.acc == self@.inner && #[trigger] complete_list_post(
                self@,
                source,
                path,
                args,
                res,
            )
    }

    fn info(&self) -> (res: AccessorInfo) {
        let meta = self.meta.clone();
        let capability = meta.capability().complete();
        meta.with_capability(capability)
    }

    fn create_dir(&self, path: &str, args: OpCreateDir) -> (res: Result<RpCreateDir, Error>) {
        self.inner.create_dir(path, args)
    }

    fn read(&self, path: &str, args: OpRead) -> (res: Result<(RpRead, Self::Reader), Error>) {
        self.complete_reader(path, args)
    }

    fn write(&self, path: &str, args: OpWrite) -> (res: Result<(RpWrite, Self::Writer), Error>) {
        let size = args.content_length();
        let inner = self.inner.write(path, args);
        proof {
            assert(self@.inner.write_post(path@, args@, inner));
        }
        complete_write(size, inner)
    }

    fn append(&self, path: &str, args: OpAppend) -> (res: Result<
        (RpAppend, Self::Appender),
        Error,
    >) {
        let inner = self.inner.append(path, args);
        proof {
            assert(self@.inner.append_post(path@, args@, inner));
        }
        match inner {
            Err(e) => Err(e),
            Ok((rp, a)) => Ok((rp, CompleteAppender::new(a))),
        }
    }

    fn stat(&self, path: &str, args: OpStat) -> (res: Result<RpStat, Error>) {
        let inner = self.inner.stat(path, args);
        proof {
            assert(self@.inner.stat_post(path@, inner));
        }
        complete_stat(inner)
    }

    fn delete(&self, path: &str, args: OpDelete) -> (res: Result<RpDelete, Error>) {
        self.inner.delete(path, args)
    }

    fn list(&self, path: &str, args: OpList) -> (res: Result<(RpList, Self::Pager), Error>) {
        self.complete_list(path, args)
    }

    fn copy(&self, from: &str, to: &str, args: OpCopy) -> (res: Result<RpCopy, Error>) {
        self.inner.copy(from, to, args)
    }

    fn rename(&self, from: &str, to: &str, args: OpRename) -> (res: Result<RpRename, Error>) {
        self.inner.rename(from, to, args)
    }

    fn presign(&self, path: &str, args: OpPresign) -> (res: Result<RpPresign, Error>) {
        self.inner.presign(path, args)
    }

    fn batch(&self, args: OpBatch) -> (res: Result<RpBatch, Error>) {
        self.inner.batch(args)
    }

    fn blocking_create_dir(&self, path: &str, args: OpCreateDir) -> (res: Result<
        RpCreateDir,
        Error,
    >) {
        self.inner.blocking_create_dir(path, args)
    }

    fn blocking_read(&self, path: &str, args: OpRead) -> (res: Result<
        (RpRead, Self::BlockingReader),
        Error,
    >) {
        self.complete_blocking_reader(path, args)
    }

    fn blocking_write(&self, path: &str, args: OpWrite) -> (res: Result<
        (RpWrite, Self::BlockingWriter),
        Error,
    >) {
        let size = args.content_length();
        let inner = self.inner.blocking_write(path, args);
        proof {
            assert(self@.inner.blocking_write_post(path@, args@, inner));
        }
        complete_write(size, inner)
    }

    fn blocking_stat(&self, path: &str, args: OpStat) -> (res: Result<RpStat, Error>) {
        let inner = self.inner.blocking_stat(path, args);
        proof {
            assert(self@.inner.blocking_stat_post(path@, inner));
        }
        complete_stat(inner)
    }

    fn blocking_delete(&self, path: &str, args: OpDelete) -> (res: Result<RpDelete, Error>) {
        self.inner.blocking_delete(path, args)
    }

    fn blocking_list(&self, path: &str, args: OpList) -> (res: Result<
        (RpList, Self::BlockingPager),
        Error,
    >) {
        self.complete_blocking_list(path, args)
    }
}

/// Over a backend whose readers seek and stream the layer adds nothing to a
/// read, whatever the range: the backend is asked once, for the read itself,
/// and its answer is the layer's answer, with the backend's reader as it is.
/// What that reader then does is what the completed reader does.
pub proof fn lemma_pass_through<A: Accessor>(
    me: CompleteReaderAccessorView<A>,
    path: Seq<char>,
    args: OpReadView,
    res: Result<(RpRead, CompleteReader<A, A::Reader>), Error>,
)
    requires
        me.meta.capability.read_can_seek,
        me.meta.capability.read_can_next,
        complete_read_post(me, path, args, res),
    ensures
        exists|inner: Result<(RpRead, A::Reader), Error>|
            {
                &&& #[trigger] me.inner.read_post(path, args, inner)
                &&& match inner {
                    Err(e) => res == Err::<(RpRead, CompleteReader<A, A::Reader>), Error>(e),
                    Ok((rp, r)) => res == Ok::<(RpRead, CompleteReader<A, A::Reader>), Error>(
                        (rp, CompleteReader::AlreadyComplete(r)),
                    ),
                }
            },
        forall|a: A::Reader, post: CompleteReader<A, A::Reader>, b0: Seq<u8>, b1: Seq<u8>, n: Result<usize, Error>|
            #[trigger] CompleteReader::<A, A::Reader>::read_post(
                CompleteReader::AlreadyComplete(a),
                post,
                b0,
                b1,
                n,
            ) <==> post is AlreadyComplete && A::Reader::read_post(
                a,
                post->AlreadyComplete_0,
                b0,
                b1,
                n,
            ),
{
    let inner = choose|inner: Result<(RpRead, A::Reader), Error>|
        {
            &&& #[trigger] me.inner.read_post(path, args, inner)
            &&& match inner {
                Err(e) => res == Err::<(RpRead, CompleteReader<A, A::Reader>), Error>(e),
                Ok((rp, r)) => completed_read(me, path, args, rp, r, res),
            }
        };
    assert(me.inner.read_post(path, args, inner));
}

} // verus!
