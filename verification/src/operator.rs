//! The entry point: paths are normalized and checked here, and every
//! operation goes to the accessor underneath.

use crate::capability::{AccessorInfo, AccessorInfoView, Capability, Scheme};
use crate::entry::Entry;
use crate::error::{Error, ErrorKind, ErrorView};
use crate::metadata::{EntryMode, Metadata, Metakey, MetakeySet};
use crate::ops::{
    BatchOperation, BytesRange, OpAppend, OpAppendView, OpBatch, OpCopy, OpCreateDir, OpDelete,
    OpList, OpListView, OpPresign, OpRead, OpReadView, OpRename, OpStat, OpWrite, OpWriteView,
    PresignOperation,
};
use crate::raw::accessor::Accessor;
use crate::raw::buf::{bytes_contents, bytes_len};
use crate::raw::oio::hierarchy_pager::strings_view;
use crate::raw::oio::io::{Append, Page, Read, Write};
use crate::raw::path::{normalize_path, normalized, valid_path, validate_path};
use crate::raw::rps::{
    BatchedReply, PresignedRequest, RpAppend, RpBatch, RpCopy, RpCreateDir, RpDelete, RpList,
    RpPresign, RpRead, RpRename, RpStat, RpWrite,
};
use crate::text::same_text;
use std::sync::Arc;
use vstd::prelude::*;
use vstd::slice::slice_subrange;

verus! {

/// The size of a batch where the backend names none.
pub const DEFAULT_BATCH_LIMIT: usize = 100;

/// What an operator says of the accessor underneath. Its view is that of the
/// accessor's description.
#[derive(Debug)]
pub struct OperatorInfo {
    info: AccessorInfo,
}

impl View for OperatorInfo {
    type V = AccessorInfoView;

    closed spec fn view(&self) -> AccessorInfoView {
        self.info@
    }
}

impl OperatorInfo {
    /// Wraps an accessor's description.
    pub fn new(info: AccessorInfo) -> (r: OperatorInfo)
        ensures
            r@ == info@,
    {
        OperatorInfo { info }
    }

    /// The backend's family.
    pub fn scheme(&self) -> (r: Scheme)
        ensures
            r == self@.scheme,
    {
        self.info.scheme()
    }

    /// The directory under which the backend works.
    pub fn root(&self) -> (r: &str)
        ensures
            r@ == self@.root,
    {
        self.info.root()
    }

    /// The backend's name.
    pub fn name(&self) -> (r: &str)
        ensures
            r@ == self@.name,
    {
        self.info.name()
    }

    /// What the accessor supports.
    pub fn capability(&self) -> (r: Capability)
        ensures
            r == self@.capability,
    {
        self.info.capability()
    }

    /// Whether the accessor runs batches.
    pub fn can_batch(&self) -> (r: bool)
        ensures
            r == self@.capability.batch,
    {
        self.info.capability().batch
    }

    /// Whether the accessor serves callers that cannot wait.
    pub fn can_blocking(&self) -> (r: bool)
        ensures
            r == self@.capability.blocking,
    {
        self.info.capability().blocking
    }
}

/// An operator as contracts see it.
pub struct OperatorView<A> {
    /// The accessor underneath.
    pub accessor: A,
    /// The most operations that go into one batch.
    pub limit: usize,
}

/// The entry point for callers that may wait.
pub struct Operator<A: Accessor> {
    accessor: Arc<A>,
    limit: usize,
}

impl<A: Accessor> View for Operator<A> {
    type V = OperatorView<A>;

    closed spec fn view(&self) -> OperatorView<A> {
        OperatorView { accessor: *self.accessor, limit: self.limit }
    }
}

/// The entry point for callers that cannot wait.
pub struct BlockingOperator<A: Accessor> {
    accessor: Arc<A>,
    limit: usize,
}

impl<A: Accessor> View for BlockingOperator<A> {
    type V = OperatorView<A>;

    closed spec fn view(&self) -> OperatorView<A> {
        OperatorView { accessor: *self.accessor, limit: self.limit }
    }
}

/// The batch limit that an accessor's description gives: its own where it
/// names one, and else the default.
pub open spec fn batch_limit(info: AccessorInfoView) -> usize {
    match info.capability.batch_max_operations {
        Some(n) => n,
        None => DEFAULT_BATCH_LIMIT,
    }
}

/// An error of the operator itself: the kind, the message and the operation,
/// and in the context the backend's family, then `pairs`.
pub open spec fn refused(
    kind: ErrorKind,
    message: Seq<char>,
    operation: Seq<char>,
    scheme: Scheme,
    pairs: Seq<(Seq<char>, Seq<char>)>,
) -> ErrorView {
    ErrorView { kind, message, operation, context: seq![("service"@, scheme.tag())] + pairs }
}

/// Whether `e` is the operator's error of the given kind, message and
/// operation over the accessor `acc`, whose family it names.
pub open spec fn refusal<A: Accessor>(
    acc: A,
    e: ErrorView,
    kind: ErrorKind,
    message: Seq<char>,
    operation: Seq<char>,
    pairs: Seq<(Seq<char>, Seq<char>)>,
) -> bool {
    exists|info: AccessorInfo| #[trigger]
        acc.info_post(info) && e == refused(kind, message, operation, info@.scheme, pairs)
}

fn refuse<A: Accessor>(
    acc: &A,
    kind: ErrorKind,
    message: &str,
    operation: &str,
    key: &str,
    value: &str,
) -> (e: Error)
    ensures
        refusal(*acc, e@, kind, message@, operation@, seq![(key@, value@)]),
{
    let info = acc.info();
    let e = Error::new(kind, message).with_operation(operation).with_context(
        "service",
        info.scheme().into_static(),
    ).with_context(key, value);
    proof {
        assert(e@.context =~= seq![("service"@, info@.scheme.tag())] + seq![(key@, value@)]);
        assert(acc.info_post(info));
    }
    e
}

fn refuse_pair<A: Accessor>(
    acc: &A,
    kind: ErrorKind,
    message: &str,
    operation: &str,
    from: &str,
    to: &str,
) -> (e: Error)
    ensures
        refusal(*acc, e@, kind, message@, operation@, seq![("from"@, from@), ("to"@, to@)]),
{
    let info = acc.info();
    let e = Error::new(kind, message).with_operation(operation).with_context(
        "service",
        info.scheme().into_static(),
    ).with_context("from", from).with_context("to", to);
    proof {
        assert(e@.context =~= seq![("service"@, info@.scheme.tag())] + seq![
            ("from"@, from@),
            ("to"@, to@),
        ]);
        assert(acc.info_post(info));
    }
    e
}

impl<A: Accessor> BlockingOperator<A> {
    /// An operator over `accessor`, with the batch limit that the accessor
    /// names or else the default.
    pub fn from_inner(accessor: Arc<A>) -> (r: BlockingOperator<A>)
        ensures
            r@.accessor == *accessor,
            exists|info: AccessorInfo| #[trigger]
                accessor.info_post(info) && r@.limit == batch_limit(info@),
    {
        let info = accessor.info();
        let limit = match info.capability().batch_max_operations {
            Some(n) => n,
            None => DEFAULT_BATCH_LIMIT,
        };
        proof {
            assert(accessor.info_post(info));
        }
        BlockingOperator { accessor, limit }
    }

    /// The accessor underneath.
    pub fn inner(&self) -> (r: &Arc<A>)
        ensures
            **r == self@.accessor,
    {
        &self.accessor
    }

    /// The most operations that go into one batch.
    pub fn limit(&self) -> (r: usize)
        ensures
            r == self@.limit,
    {
        self.limit
    }

    /// The same operator with another batch limit.
    pub fn with_limit(&self, limit: usize) -> (r: BlockingOperator<A>)
        ensures
            r@ == (OperatorView { accessor: self@.accessor, limit }),
    {
        BlockingOperator { accessor: self.accessor.clone(), limit }
    }
}

impl<A: Accessor> Operator<A> {
    /// The accessor underneath.
    pub fn inner(&self) -> (r: &Arc<A>)
        ensures
            **r == self@.accessor,
    {
        &self.accessor
    }

    /// An operator over `accessor`, with the batch limit that the accessor
    /// names or else the default.
    pub fn from_inner(accessor: Arc<A>) -> (r: Operator<A>)
        ensures
            r@.accessor == *accessor,
            exists|info: AccessorInfo| #[trigger]
                accessor.info_post(info) && r@.limit == batch_limit(info@),
    {
        let info = accessor.info();
        let limit = match info.capability().batch_max_operations {
            Some(n) => n,
            None => DEFAULT_BATCH_LIMIT,
        };
        proof {
            assert(accessor.info_post(info));
        }
        Operator { accessor, limit }
    }

    /// The accessor underneath.
    pub fn into_inner(self) -> (r: Arc<A>)
        ensures
            *r == self@.accessor,
    {
        self.accessor
    }

    /// The most operations that go into one batch.
    pub fn limit(&self) -> (r: usize)
        ensures
            r == self@.limit,
    {
        self.limit
    }

    /// The same operator with another batch limit.
    pub fn with_limit(&self, limit: usize) -> (r: Operator<A>)
        ensures
            r@ == (OperatorView { accessor: self@.accessor, limit }),
    {
        Operator { accessor: self.accessor.clone(), limit }
    }

    /// What the accessor underneath says of itself.
    pub fn info(&self) -> (r: OperatorInfo)
        ensures
            exists|info: AccessorInfo| #[trigger]
                self@.accessor.info_post(info) && r@ == info@,
    {
        let info = self.accessor.info();
        proof {
            assert(self@.accessor.info_post(info));
        }
        OperatorInfo::new(info)
    }

    /// The operator for callers that cannot wait, over the same accessor and
    /// with the same batch limit.
    pub fn blocking(&self) -> (r: BlockingOperator<A>)
        ensures
            r@ == self@,
    {
        BlockingOperator { accessor: self.accessor.clone(), limit: self.limit }
    }
}

/// The metadata of a stat: the accessor's refusal is handed on, and else what
/// it found.
pub open spec fn stat_outcome(inner: Result<RpStat, Error>, res: Result<Metadata, Error>) -> bool {
    match inner {
        Err(e) => res == Err::<Metadata, Error>(e),
        Ok(rp) => res matches Ok(m) && m@ == rp@,
    }
}

/// An answer without a value: the accessor's refusal is handed on, and else
/// the operation is done.
pub open spec fn done<T>(inner: Result<T, Error>, res: Result<(), Error>) -> bool {
    match inner {
        Err(e) => res == Err::<(), Error>(e),
        Ok(_) => res is Ok,
    }
}

/// A stream that the accessor opened: its refusal is handed on, and else the
/// stream.
pub open spec fn opened<Rp, S>(inner: Result<(Rp, S), Error>, res: Result<S, Error>) -> bool {
    match inner {
        Err(e) => res == Err::<S, Error>(e),
        Ok((_, s)) => res == Ok::<S, Error>(s),
    }
}

/// Whether `m` is the request that the reply presigns.
pub open spec fn presigned(inner: Result<RpPresign, Error>, res: Result<PresignedRequest, Error>) -> bool {
    match inner {
        Err(e) => res == Err::<PresignedRequest, Error>(e),
        Ok(rp) => res matches Ok(req) && req@ == rp@,
    }
}

fn finish<T>(inner: Result<T, Error>) -> (res: Result<(), Error>)
    ensures
        done(inner, res),
{
    match inner {
        Err(e) => Err(e),
        Ok(_) => Ok(()),
    }
}

fn stream_of<Rp, S>(inner: Result<(Rp, S), Error>) -> (res: Result<S, Error>)
    ensures
        opened(inner, res),
{
    match inner {
        Err(e) => Err(e),
        Ok((_, s)) => Ok(s),
    }
}

impl<A: Accessor> Operator<A> {
    /// Checks that the operator works: the root is listed and the first batch
    /// is asked for. Nothing to list is no fault.
    pub fn check(&self) -> (res: Result<(), Error>)
        ensures
            exists|listing: Result<A::Pager, Error>|
                {
                    &&& #[trigger] self.listed(
                        "/"@,
                        OpList::new_view(),
                        "the path trying to list should end with `/`"@,
                        "Operator::list"@,
                        listing,
                    )
                    &&& match listing {
                        Err(e) => res == Err::<(), Error>(e),
                        Ok(p) => exists|q: A::Pager, first: Result<Option<Vec<Entry>>, Error>|
                            {
                                &&& #[trigger] A::Pager::next_post(p, q, first)
                                &&& match first {
                                    Err(e) => if e@.kind == ErrorKind::NotFound {
                                        res is Ok
                                    } else {
                                        res == Err::<(), Error>(e)
                                    },
                                    Ok(_) => res is Ok,
                                }
                            },
                    }
                },
    {
        let listing = self.list("/");
        proof {
            assert(self.listed(
                "/"@,
                OpList::new_view(),
                "the path trying to list should end with `/`"@,
                "Operator::list"@,
                listing,
            ));
        }
        let mut pager = match listing {
            Err(e) => {
                return Err(e);
            },
            Ok(p) => p,
        };
        let ghost p = pager;
        let first = pager.next();
        proof {
            assert(A::Pager::next_post(p, pager, first));
        }
        match first {
            Err(e) => {
                if e.kind() == ErrorKind::NotFound {
                    Ok(())
                } else {
                    Err(e)
                }
            },
            Ok(_) => Ok(()),
        }
    }

    /// Looks `path` up, past every cache.
    pub fn stat(&self, path: &str) -> (res: Result<Metadata, Error>)
        ensures
            exists|inner: Result<RpStat, Error>| #[trigger]
                self@.accessor.stat_post(normalized(path@), inner) && stat_outcome(inner, res),
    {
        self.stat_with(path, OpStat::new())
    }

    /// Looks `path` up, past every cache, with `args`.
    pub fn stat_with(&self, path: &str, args: OpStat) -> (res: Result<Metadata, Error>)
        ensures
            exists|inner: Result<RpStat, Error>| #[trigger]
                self@.accessor.stat_post(normalized(path@), inner) && stat_outcome(inner, res),
    {
        let path = normalize_path(path);
        let inner = self.accessor.stat(path.as_str(), args);
        proof {
            assert(self@.accessor.stat_post(path@, inner));
        }
        match inner {
            Err(e) => Err(e),
            Ok(rp) => Ok(rp.into_metadata()),
        }
    }

    /// The metadata of a listed entry, as far as `flags` ask for it. What the
    /// listing said is enough when it vouches for every key in `flags`, or is
    /// complete; else the path is looked up.
    pub fn metadata(&self, entry: &Entry, flags: MetakeySet) -> (res: Result<Metadata, Error>)
        ensures
            if entry@.meta.bit.includes(flags) || entry@.meta.bit.has(Metakey::Complete) {
                res matches Ok(m) && m@ == entry@.meta
            } else {
                exists|inner: Result<RpStat, Error>| #[trigger]
                    self@.accessor.stat_post(normalized(entry@.path), inner) && stat_outcome(
                        inner,
                        res,
                    )
            },
    {
        let meta = entry.metadata();
        if meta.bit().contains(flags) || meta.bit().contains_key(Metakey::Complete) {
            return Ok(meta.clone());
        }
        self.stat(entry.path())
    }

    /// Whether `path` exists: that it is not found is an answer, and every
    /// other refusal is handed on.
    pub fn is_exist(&self, path: &str) -> (res: Result<bool, Error>)
        ensures
            exists|inner: Result<RpStat, Error>| #[trigger]
                self@.accessor.stat_post(normalized(path@), inner) && match inner {
                    Ok(_) => res == Ok::<bool, Error>(true),
                    Err(e) => if e@.kind == ErrorKind::NotFound {
                        res == Ok::<bool, Error>(false)
                    } else {
                        res == Err::<bool, Error>(e)
                    },
                },
    {
        let path = normalize_path(path);
        let inner = self.accessor.stat(path.as_str(), OpStat::new());
        proof {
            assert(self@.accessor.stat_post(path@, inner));
        }
        match inner {
            Ok(_) => Ok(true),
            Err(e) => {
                if e.kind() == ErrorKind::NotFound {
                    Ok(false)
                } else {
                    Err(e)
                }
            },
        }
    }

    /// Creates the directory `path`, which must end in a slash.
    pub fn create_dir(&self, path: &str) -> (res: Result<(), Error>)
        ensures
            if !valid_path(normalized(path@), EntryMode::DIR) {
                res is Err && refusal(
                    self@.accessor,
                    res->Err_0@,
                    ErrorKind::NotADirectory,
                    "the path trying to create should end with `/`"@,
                    "create_dir"@,
                    seq![("path"@, normalized(path@))],
                )
            } else {
                exists|inner: Result<RpCreateDir, Error>| #[trigger]
                    self@.accessor.create_dir_post(normalized(path@), inner) && done(inner, res)
            },
    {
        let path = normalize_path(path);
        if !validate_path(path.as_str(), EntryMode::DIR) {
            return Err(
                refuse(
                    &*self.accessor,
                    ErrorKind::NotADirectory,
                    "the path trying to create should end with `/`",
                    "create_dir",
                    "path",
                    path.as_str(),
                ),
            );
        }
        let inner = self.accessor.create_dir(path.as_str(), OpCreateDir::new());
        proof {
            assert(self@.accessor.create_dir_post(path@, inner));
        }
        finish(inner)
    }

    /// Deletes `path`.
    pub fn delete(&self, path: &str) -> (res: Result<(), Error>)
        ensures
            exists|inner: Result<RpDelete, Error>| #[trigger]
                self@.accessor.delete_post(normalized(path@), inner) && done(inner, res),
    {
        let path = normalize_path(path);
        let inner = self.accessor.delete(path.as_str(), OpDelete::new());
        proof {
            assert(self@.accessor.delete_post(path@, inner));
        }
        finish(inner)
    }

    /// Lists the level of the directory `path`.
    pub fn list(&self, path: &str) -> (res: Result<A::Pager, Error>)
        ensures
            self.listed(path@, OpList::new_view(), "the path trying to list should end with `/`"@,
                "Operator::list"@, res),
    {
        self.list_with(path, OpList::new())
    }

    /// What a listing of `path` with `args` comes to: a path that is no
    /// directory is refused, with `message` under `operation`; else the
    /// accessor lists.
    pub open spec fn listed(
        &self,
        path: Seq<char>,
        args: OpListView,
        message: Seq<char>,
        operation: Seq<char>,
        res: Result<A::Pager, Error>,
    ) -> bool {
        if !valid_path(normalized(path), EntryMode::DIR) {
            res is Err && refusal(
                self@.accessor,
                res->Err_0@,
                ErrorKind::NotADirectory,
                message,
                operation,
                seq![("path"@, normalized(path))],
            )
        } else {
            exists|inner: Result<(RpList, A::Pager), Error>| #[trigger]
                self@.accessor.list_post(normalized(path), args, inner) && opened(inner, res)
        }
    }

    /// Lists the directory `path` as `args` ask.
    pub fn list_with(&self, path: &str, args: OpList) -> (res: Result<A::Pager, Error>)
        ensures
            self.listed(path@, args@, "the path trying to list should end with `/`"@,
                "Operator::list"@, res),
    {
        let path = normalize_path(path);
        if !validate_path(path.as_str(), EntryMode::DIR) {
            return Err(
                refuse(
                    &*self.accessor,
                    ErrorKind::NotADirectory,
                    "the path trying to list should end with `/`",
                    "Operator::list",
                    "path",
                    path.as_str(),
                ),
            );
        }
        let inner = self.accessor.list(path.as_str(), args);
        proof {
            assert(self@.accessor.list_post(path@, args@, inner));
        }
        stream_of(inner)
    }

    /// Lists everything under the directory `path`.
    pub fn scan(&self, path: &str) -> (res: Result<A::Pager, Error>)
        ensures
            self.listed(
                path@,
                OpList::flat_view(),
                "the path trying to scan should end with `/`"@,
                "list"@,
                res,
            ),
    {
        let path = normalize_path(path);
        if !validate_path(path.as_str(), EntryMode::DIR) {
            return Err(
                refuse(
                    &*self.accessor,
                    ErrorKind::NotADirectory,
                    "the path trying to scan should end with `/`",
                    "list",
                    "path",
                    path.as_str(),
                ),
            );
        }
        let args = OpList::new().with_delimiter("");
        proof {
            reveal_strlit("");
            assert(args@.delimiter =~= Seq::<char>::empty());
        }
        let inner = self.accessor.list(path.as_str(), args);
        proof {
            assert(self@.accessor.list_post(path@, args@, inner));
        }
        stream_of(inner)
    }

    /// What a transfer from `from` to `to` under `operation` is refused for,
    /// if it is: either path is a directory, or both are one file.
    pub open spec fn transfer_refused(
        &self,
        from: Seq<char>,
        to: Seq<char>,
        operation: Seq<char>,
        e: crate::error::ErrorView,
    ) -> bool {
        let from = normalized(from);
        let to = normalized(to);
        if !valid_path(from, EntryMode::FILE) {
            refusal(
                self@.accessor,
                e,
                ErrorKind::IsADirectory,
                "from path is a directory"@,
                operation,
                seq![("from"@, from)],
            )
        } else if !valid_path(to, EntryMode::FILE) {
            refusal(
                self@.accessor,
                e,
                ErrorKind::IsADirectory,
                "to path is a directory"@,
                operation,
                seq![("to"@, to)],
            )
        } else {
            from == to && refusal(
                self@.accessor,
                e,
                ErrorKind::IsSameFile,
                "from and to paths are same"@,
                operation,
                seq![("from"@, from), ("to"@, to)],
            )
        }
    }

    /// Whether a transfer between the two paths may go to the accessor: both
    /// are files and they differ.
    pub open spec fn transferable(from: Seq<char>, to: Seq<char>) -> bool {
        &&& valid_path(normalized(from), EntryMode::FILE)
        &&& valid_path(normalized(to), EntryMode::FILE)
        &&& normalized(from) != normalized(to)
    }

    fn check_transfer(&self, from: &str, to: &str, operation: &str) -> (res: Result<
        (String, String),
        Error,
    >)
        ensures
            match res {
                Ok((f, t)) => Self::transferable(from@, to@) && f@ == normalized(from@) && t@
                    == normalized(to@),
                Err(e) => !Self::transferable(from@, to@) && self.transfer_refused(
                    from@,
                    to@,
                    operation@,
                    e@,
                ),
            },
    {
        let from = normalize_path(from);
        if !validate_path(from.as_str(), EntryMode::FILE) {
            return Err(
                refuse(
                    &*self.accessor,
                    ErrorKind::IsADirectory,
                    "from path is a directory",
                    operation,
                    "from",
                    from.as_str(),
                ),
            );
        }
        let to = normalize_path(to);
        if !validate_path(to.as_str(), EntryMode::FILE) {
            return Err(
                refuse(
                    &*self.accessor,
                    ErrorKind::IsADirectory,
                    "to path is a directory",
                    operation,
                    "to",
                    to.as_str(),
                ),
            );
        }
        if same_text(from.as_str(), to.as_str()) {
            return Err(
                refuse_pair(
                    &*self.accessor,
                    ErrorKind::IsSameFile,
                    "from and to paths are same",
                    operation,
                    from.as_str(),
                    to.as_str(),
                ),
            );
        }
        Ok((from, to))
    }

    /// Copies the file `from` to `to`. Both must be files, and not the same.
    pub fn copy(&self, from: &str, to: &str) -> (res: Result<(), Error>)
        ensures
            if Self::transferable(from@, to@) {
                exists|inner: Result<RpCopy, Error>| #[trigger]
                    self@.accessor.copy_post(normalized(from@), normalized(to@), inner) && done(
                        inner,
                        res,
                    )
            } else {
                res is Err && self.transfer_refused(from@, to@, "Operator::copy"@, res->Err_0@)
            },
    {
        let (from, to) = match self.check_transfer(from, to, "Operator::copy") {
            Err(e) => {
                return Err(e);
            },
            Ok(v) => v,
        };
        let inner = self.accessor.copy(from.as_str(), to.as_str(), OpCopy::new());
        proof {
            assert(self@.accessor.copy_post(from@, to@, inner));
        }
        finish(inner)
    }

    /// Renames the file `from` to `to`. Both must be files, and not the same.
    pub fn rename(&self, from: &str, to: &str) -> (res: Result<(), Error>)
        ensures
            if Self::transferable(from@, to@) {
                exists|inner: Result<RpRename, Error>| #[trigger]
                    self@.accessor.rename_post(normalized(from@), normalized(to@), inner) && done(
                        inner,
                        res,
                    )
            } else {
                res is Err && self.transfer_refused(from@, to@, "Operator::move_"@, res->Err_0@)
            },
    {
        let (from, to) = match self.check_transfer(from, to, "Operator::move_") {
            Err(e) => {
                return Err(e);
            },
            Ok(v) => v,
        };
        let inner = self.accessor.rename(from.as_str(), to.as_str(), OpRename::new());
        proof {
            assert(self@.accessor.rename_post(from@, to@, inner));
        }
        finish(inner)
    }

    fn presign(&self, path: &str, op: PresignOperation, expire: std::time::Duration) -> (res:
        Result<PresignedRequest, Error>)
        ensures
            self.presigns(path@, op, expire, res),
    {
        let path = normalize_path(path);
        let args = OpPresign::new(op, expire);
        let inner = self.accessor.presign(path.as_str(), args);
        proof {
            assert(self@.accessor.presign_post(path@, args, inner));
        }
        match inner {
            Err(e) => Err(e),
            Ok(rp) => Ok(rp.into_presigned_request()),
        }
    }

    /// What presigning comes to: the accessor is asked for a request that
    /// stands for `op` on `path` and expires after `expire`, and its answer is
    /// handed on.
    pub open spec fn presigns(
        &self,
        path: Seq<char>,
        op: PresignOperation,
        expire: std::time::Duration,
        res: Result<PresignedRequest, Error>,
    ) -> bool {
        exists|args: OpPresign, inner: Result<RpPresign, Error>|
            {
                &&& args.spec_operation() == op
                &&& args.spec_expire() == expire
                &&& #[trigger] self@.accessor.presign_post(normalized(path), args, inner)
                &&& presigned(inner, res)
            }
    }

    /// A request that stats `path`, for anyone to send until it expires.
    pub fn presign_stat(&self, path: &str, expire: std::time::Duration) -> (res: Result<
        PresignedRequest,
        Error,
    >)
        ensures
            self.presigns(path@, PresignOperation::Stat(OpStat {  }), expire, res),
    {
        self.presign(path, PresignOperation::Stat(OpStat::new()), expire)
    }

    /// A request that reads `path`, for anyone to send until it expires.
    pub fn presign_read(&self, path: &str, expire: std::time::Duration) -> (res: Result<
        PresignedRequest,
        Error,
    >)
        ensures
            exists|op: OpRead|
                op@ == OpReadView::of_range(BytesRange::full()) && #[trigger] self.presigns(
                    path@,
                    PresignOperation::Read(op),
                    expire,
                    res,
                ),
    {
        let op = OpRead::new();
        let res = self.presign(path, PresignOperation::Read(op), expire);
        proof {
            assert(self.presigns(path@, PresignOperation::Read(op), expire, res));
        }
        res
    }

    /// A request that reads `path` as `op` asks, for anyone to send until it
    /// expires.
    pub fn presign_read_with(&self, path: &str, op: OpRead, expire: std::time::Duration) -> (res:
        Result<PresignedRequest, Error>)
        ensures
            self.presigns(path@, PresignOperation::Read(op), expire, res),
    {
        self.presign(path, PresignOperation::Read(op), expire)
    }

    /// A request that writes `path`, for anyone to send until it expires.
    pub fn presign_write(&self, path: &str, expire: std::time::Duration) -> (res: Result<
        PresignedRequest,
        Error,
    >)
        ensures
            exists|op: OpWrite|
                op@ == OpWriteView::plain() && #[trigger] self.presigns(
                    path@,
                    PresignOperation::Write(op),
                    expire,
                    res,
                ),
    {
        let op = OpWrite::new();
        let res = self.presign_write_with(path, op, expire);
        proof {
            assert(self.presigns(path@, PresignOperation::Write(op), expire, res));
        }
        res
    }

    /// A request that writes `path` as `op` declares, for anyone to send until
    /// it expires.
    pub fn presign_write_with(&self, path: &str, op: OpWrite, expire: std::time::Duration) -> (res:
        Result<PresignedRequest, Error>)
        ensures
            self.presigns(path@, PresignOperation::Write(op), expire, res),
    {
        self.presign(path, PresignOperation::Write(op), expire)
    }
}

/// The most bytes that are read at a time when an object is read whole.
pub const READ_CHUNK_SIZE: usize = 65536;

/// Whether the reader `r1` is `r0` after `steps` reads that gave the bytes of
/// `out`, in order, each of them at least one byte.
pub open spec fn delivered<R: Read>(r0: R, r1: R, out: Seq<u8>, steps: nat) -> bool
    decreases steps,
{
    if steps == 0 {
        r0 == r1 && out.len() == 0
    } else {
        exists|mid: R, b0: Seq<u8>, b1: Seq<u8>, n: usize|
            {
                &&& 0 < n <= out.len()
                &&& n <= b1.len()
                &&& delivered(r0, mid, out.take(out.len() - n), (steps - 1) as nat)
                &&& #[trigger] R::read_post(mid, r1, b0, b1, Ok::<usize, Error>(n))
                &&& out.skip(out.len() - n) == b1.take(n as int)
            }
    }
}

/// Whether the reader `r1` is `r0` after reads that gave the bytes of `out`,
/// in order.
pub open spec fn read_out<R: Read>(r0: R, r1: R, out: Seq<u8>) -> bool {
    exists|steps: nat| delivered(r0, r1, out, steps)
}

/// How many bytes are asked for at a time when `left` bytes are still to be
/// read.
pub open spec fn chunk_wanted(left: nat) -> nat {
    if left < READ_CHUNK_SIZE {
        left
    } else {
        READ_CHUNK_SIZE as nat
    }
}

/// Whether a read that was asked for no more than `left` bytes went wrong: it
/// failed, it gave nothing, or it claims more bytes than were left or than the
/// buffer holds.
pub open spec fn read_went_wrong(res: Result<usize, Error>, left: nat, filled: Seq<u8>) -> bool {
    match res {
        Err(_) => true,
        Ok(n) => n == 0 || n > left || n > filled.len(),
    }
}

/// Whether the reader `r0`, which was to give `length` bytes, fell short and
/// is now `r1`: after reads that gave fewer bytes than that, it was asked for
/// the next chunk, and that read went wrong.
pub open spec fn fell_short<R: Read>(r0: R, r1: R, length: nat) -> bool {
    exists|mid: R, got: Seq<u8>, steps: nat, b0: Seq<u8>, b1: Seq<u8>, bad: Result<usize, Error>|
        #![trigger delivered(r0, mid, got, steps), R::read_post(mid, r1, b0, b1, bad)]
        {
            &&& delivered(r0, mid, got, steps)
            &&& got.len() < length
            &&& b0.len() == chunk_wanted((length - got.len()) as nat)
            &&& R::read_post(mid, r1, b0, b1, bad)
            &&& read_went_wrong(bad, (length - got.len()) as nat, b1)
        }
}

/// Whether reading `length` bytes from the reader `r0` into memory was cut
/// short: the reader fell short, or so many bytes cannot be held.
pub open spec fn cut_short<R: Read>(r0: R, length: u64) -> bool {
    length > usize::MAX || exists|r1: R| #[trigger] fell_short(r0, r1, length as nat)
}

/// Reads just `length` bytes from `r`, a chunk at a time, and returns them in
/// order. Nothing is read where nothing is asked for. The result is `None`
/// only when the reader fell short: one of its reads failed, gave nothing, or
/// claimed more than it was asked for.
fn read_exactly<R: Read>(r: &mut R, length: usize) -> (res: Option<Vec<u8>>)
    ensures
        res matches Some(buf) ==> buf@.len() == length && read_out(*old(r), *final(r), buf@),
        res is None ==> fell_short(*old(r), *final(r), length as nat),
        length == 0 ==> res is Some,
{
    let ghost r0 = *r;
    let ghost mut steps: nat = 0;
    let mut out: Vec<u8> = Vec::new();
    let mut scratch: Vec<u8> = Vec::new();
    while out.len() < length
        invariant
            r0 == *old(r),
            out.len() <= length,
            delivered(r0, *r, out@, steps),
        decreases length - out.len(),
    {
        let left = length - out.len();
        let want: usize = if left < READ_CHUNK_SIZE {
            left
        } else {
            READ_CHUNK_SIZE
        };
        if scratch.len() != want {
            scratch.resize(want, 0u8);
        }
        let ghost mid = *r;
        let ghost b0 = scratch@;
        let ghost before = out@;
        let res = r.read(scratch.as_mut_slice());
        match res {
            Ok(n) => {
                if n == 0 || n > left || n > scratch.len() {
                    proof {
                        assert(R::read_post(mid, *r, b0, scratch@, res));
                        assert(read_went_wrong(res, left as nat, scratch@));
                        assert(fell_short(r0, *r, length as nat));
                    }
                    return None;
                }
                out.extend_from_slice(slice_subrange(scratch.as_slice(), 0, n));
                proof {
                    assert(R::read_post(mid, *r, b0, scratch@, Ok::<usize, Error>(n)));
                    assert(out@.take(out@.len() - n) =~= before);
                    assert(out@.skip(out@.len() - n) =~= scratch@.take(n as int));
                    steps = steps + 1;
                    assert(delivered(r0, *r, out@, steps));
                }
            },
            Err(_) => {
                proof {
                    assert(R::read_post(mid, *r, b0, scratch@, res));
                    assert(read_went_wrong(res, left as nat, scratch@));
                    assert(fell_short(r0, *r, length as nat));
                }
                return None;
            },
        }
    }
    proof {
        assert(delivered(r0, *r, out@, steps));
        assert(read_out(r0, *r, out@));
    }
    Some(out)
}

/// What opening a stream on the file `path` comes to: a path that is no file
/// is refused, with `message` under `operation`; else `open` says what the
/// accessor answered and what became of it.
pub open spec fn on_file<A: Accessor, T>(
    acc: A,
    path: Seq<char>,
    message: Seq<char>,
    operation: Seq<char>,
    res: Result<T, Error>,
    open: bool,
) -> bool {
    if !valid_path(normalized(path), EntryMode::FILE) {
        res is Err && refusal(
            acc,
            res->Err_0@,
            ErrorKind::IsADirectory,
            message,
            operation,
            seq![("path"@, normalized(path))],
        )
    } else {
        open
    }
}

/// What becomes of a writer once a chunk is written to it and it is closed:
/// the error of the write, and else the answer of the close.
pub open spec fn written_and_closed<W: Write>(w0: W, chunk: Seq<u8>, res: Result<(), Error>) -> bool {
    exists|w1: W, wrote: Result<(), Error>|
        {
            &&& #[trigger] W::write_post(w0, w1, chunk, wrote)
            &&& match wrote {
                Err(e) => res == Err::<(), Error>(e),
                Ok(_) => exists|w2: W| #[trigger] W::close_post(w1, w2, res),
            }
        }
}

/// What becomes of an appender once a chunk is appended to it and it is
/// closed: the error of the append, and else the answer of the close.
pub open spec fn appended_and_closed<P: Append>(a0: P, chunk: Seq<u8>, res: Result<(), Error>) -> bool {
    exists|a1: P, wrote: Result<(), Error>|
        {
            &&& #[trigger] P::append_post(a0, a1, chunk, wrote)
            &&& match wrote {
                Err(e) => res == Err::<(), Error>(e),
                Ok(_) => exists|a2: P| #[trigger] P::close_post(a1, a2, res),
            }
        }
}

impl<A: Accessor> Operator<A> {
    /// Reads the file `path` whole.
    pub fn read(&self, path: &str) -> (res: Result<Vec<u8>, Error>)
        ensures
            self.read_whole(path@, OpReadView::of_range(BytesRange::full()), res),
    {
        self.range_read(path, BytesRange::new(None, None))
    }

    /// Reads the file `path` whole, as `args` ask.
    pub fn read_with(&self, path: &str, args: OpRead) -> (res: Result<Vec<u8>, Error>)
        ensures
            self.read_whole(path@, OpReadView { range: BytesRange::full(), ..args@ }, res),
    {
        self.range_read_with(path, BytesRange::new(None, None), args)
    }

    /// Reads `range` of the file `path`.
    pub fn range_read(&self, path: &str, range: BytesRange) -> (res: Result<Vec<u8>, Error>)
        ensures
            self.read_whole(path@, OpReadView::of_range(range), res),
    {
        self.range_read_with(path, range, OpRead::new())
    }

    /// What reading into memory comes to. A path that is no file is refused.
    /// Else the accessor opens the file with `args`; its refusal is handed on.
    /// The reader is then read until it has given as many bytes as the
    /// accessor's reply announced, and those are the result. The operator's
    /// own error comes only when the reader fell short of that, or when so
    /// many bytes cannot be held.
    pub open spec fn read_whole(
        &self,
        path: Seq<char>,
        args: OpReadView,
        res: Result<Vec<u8>, Error>,
    ) -> bool {
        on_file(
            self@.accessor,
            path,
            "read path is a directory"@,
            "range_read"@,
            res,
            exists|inner: Result<(RpRead, A::Reader), Error>|
                {
                    &&& #[trigger] self@.accessor.read_post(normalized(path), args, inner)
                    &&& match inner {
                        Err(e) => res == Err::<Vec<u8>, Error>(e),
                        Ok((rp, r0)) => match res {
                            Ok(buf) => buf@.len() == rp@.length() && exists|r1: A::Reader| #[trigger]
                                read_out(r0, r1, buf@),
                            Err(e) => {
                                &&& refusal(
                                    self@.accessor,
                                    e@,
                                    ErrorKind::Unexpected,
                                    "read from storage"@,
                                    "range_read"@,
                                    seq![("path"@, normalized(path))],
                                )
                                &&& cut_short(r0, rp@.length())
                            },
                        },
                    }
                },
        )
    }

    /// Reads `range` of the file `path`, as `args` ask.
    pub fn range_read_with(&self, path: &str, range: BytesRange, args: OpRead) -> (res: Result<
        Vec<u8>,
        Error,
    >)
        ensures
            self.read_whole(path@, OpReadView { range, ..args@ }, res),
    {
        let path = normalize_path(path);
        if !validate_path(path.as_str(), EntryMode::FILE) {
            return Err(
                refuse(
                    &*self.accessor,
                    ErrorKind::IsADirectory,
                    "read path is a directory",
                    "range_read",
                    "path",
                    path.as_str(),
                ),
            );
        }
        let args = args.with_range(range);
        let inner = self.accessor.read(path.as_str(), args);
        proof {
            assert(self@.accessor.read_post(path@, args@, inner));
        }
        let (rp, mut r) = match inner {
            Err(e) => {
                return Err(e);
            },
            Ok(v) => v,
        };
        let ghost r0 = r;
        let length = rp.metadata().content_length();
        let read = if length <= usize::MAX as u64 {
            read_exactly(&mut r, length as usize)
        } else {
            None
        };
        proof {
            if read is None && length <= usize::MAX {
                assert(fell_short(r0, r, length as nat));
            }
            assert(read is None ==> cut_short(r0, length));
        }
        match read {
            Some(buf) => Ok(buf),
            None => Err(
                refuse(
                    &*self.accessor,
                    ErrorKind::Unexpected,
                    "read from storage",
                    "range_read",
                    "path",
                    path.as_str(),
                ),
            ),
        }
    }

    /// Opens the file `path` for reading.
    pub fn reader(&self, path: &str) -> (res: Result<A::Reader, Error>)
        ensures
            self.reads(path@, OpReadView::of_range(BytesRange::full()), res),
    {
        self.reader_with(path, OpRead::new())
    }

    /// Opens `range` of the file `path` for reading.
    pub fn range_reader(&self, path: &str, range: BytesRange) -> (res: Result<A::Reader, Error>)
        ensures
            self.reads(path@, OpReadView::of_range(range), res),
    {
        self.reader_with(path, OpRead::new().with_range(range))
    }

    /// What opening a reader comes to: a path that is no file is refused, and
    /// else the accessor opens the file with `args`.
    pub open spec fn reads(&self, path: Seq<char>, args: OpReadView, res: Result<A::Reader, Error>) -> bool {
        on_file(
            self@.accessor,
            path,
            "read path is a directory"@,
            "Operator::range_reader"@,
            res,
            exists|inner: Result<(RpRead, A::Reader), Error>| #[trigger]
                self@.accessor.read_post(normalized(path), args, inner) && opened(inner, res),
        )
    }

    /// Opens the file `path` for reading, as `args` ask.
    pub fn reader_with(&self, path: &str, args: OpRead) -> (res: Result<A::Reader, Error>)
        ensures
            self.reads(path@, args@, res),
    {
        let path = normalize_path(path);
        if !validate_path(path.as_str(), EntryMode::FILE) {
            return Err(
                refuse(
                    &*self.accessor,
                    ErrorKind::IsADirectory,
                    "read path is a directory",
                    "Operator::range_reader",
                    "path",
                    path.as_str(),
                ),
            );
        }
        let inner = self.accessor.read(path.as_str(), args);
        proof {
            assert(self@.accessor.read_post(path@, args@, inner));
        }
        stream_of(inner)
    }

    /// Writes `bs` to the file `path`, whole or not at all as far as the
    /// backend can tell.
    pub fn write(&self, path: &str, bs: bytes::Bytes) -> (res: Result<(), Error>)
        ensures
            self.writes_whole(path@, OpWriteView::plain(), bytes_contents(bs), res),
    {
        self.write_with(path, OpWrite::new(), bs)
    }

    /// What writing from memory comes to. A path that is no file is refused.
    /// Else the accessor opens the file with `args` and the length of the
    /// chunk as the declared size; its refusal is handed on. The chunk is then
    /// written and the writer closed.
    pub open spec fn writes_whole(
        &self,
        path: Seq<char>,
        args: OpWriteView,
        chunk: Seq<u8>,
        res: Result<(), Error>,
    ) -> bool {
        on_file(
            self@.accessor,
            path,
            "write path is a directory"@,
            "Operator::write_with"@,
            res,
            exists|inner: Result<(RpWrite, A::Writer), Error>|
                {
                    &&& #[trigger] self@.accessor.write_post(
                        normalized(path),
                        OpWriteView { content_length: Some(chunk.len() as u64), ..args },
                        inner,
                    )
                    &&& match inner {
                        Err(e) => res == Err::<(), Error>(e),
                        Ok((_, w0)) => written_and_closed(w0, chunk, res),
                    }
                },
        )
    }

    /// Writes `bs` to the file `path`, as `args` declare.
    pub fn write_with(&self, path: &str, args: OpWrite, bs: bytes::Bytes) -> (res: Result<
        (),
        Error,
    >)
        ensures
            self.writes_whole(path@, args@, bytes_contents(bs), res),
    {
        let path = normalize_path(path);
        if !validate_path(path.as_str(), EntryMode::FILE) {
            return Err(
                refuse(
                    &*self.accessor,
                    ErrorKind::IsADirectory,
                    "write path is a directory",
                    "Operator::write_with",
                    "path",
                    path.as_str(),
                ),
            );
        }
        let args = args.with_content_length(bytes_len(&bs) as u64);
        let inner = self.accessor.write(path.as_str(), args);
        proof {
            assert(self@.accessor.write_post(path@, args@, inner));
        }
        let mut w = match inner {
            Err(e) => {
                return Err(e);
            },
            Ok((_, w)) => w,
        };
        let ghost w0 = w;
        let wrote = w.write(bs);
        let ghost w1 = w;
        proof {
            assert(A::Writer::write_post(w0, w1, bytes_contents(bs), wrote));
        }
        match wrote {
            Err(e) => Err(e),
            Ok(_) => {
                let res = w.close();
                proof {
                    assert(A::Writer::close_post(w1, w, res));
                }
                res
            },
        }
    }

    /// Opens the file `path` for writing.
    pub fn writer(&self, path: &str) -> (res: Result<A::Writer, Error>)
        ensures
            self.writes(path@, OpWriteView::plain(), res),
    {
        self.writer_with(path, OpWrite::new())
    }

    /// What opening a writer comes to: a path that is no file is refused, and
    /// else the accessor opens the file with `args`.
    pub open spec fn writes(&self, path: Seq<char>, args: OpWriteView, res: Result<A::Writer, Error>) -> bool {
        on_file(
            self@.accessor,
            path,
            "write path is a directory"@,
            "Operator::writer"@,
            res,
            exists|inner: Result<(RpWrite, A::Writer), Error>| #[trigger]
                self@.accessor.write_post(normalized(path), args, inner) && opened(inner, res),
        )
    }

    /// Opens the file `path` for writing, as `args` declare.
    pub fn writer_with(&self, path: &str, args: OpWrite) -> (res: Result<A::Writer, Error>)
        ensures
            self.writes(path@, args@, res),
    {
        let path = normalize_path(path);
        if !validate_path(path.as_str(), EntryMode::FILE) {
            return Err(
                refuse(
                    &*self.accessor,
                    ErrorKind::IsADirectory,
                    "write path is a directory",
                    "Operator::writer",
                    "path",
                    path.as_str(),
                ),
            );
        }
        let inner = self.accessor.write(path.as_str(), args);
        proof {
            assert(self@.accessor.write_post(path@, args@, inner));
        }
        stream_of(inner)
    }

    /// Appends `bs` to the file `path`, which is created if it does not
    /// exist.
    pub fn append(&self, path: &str, bs: bytes::Bytes) -> (res: Result<(), Error>)
        ensures
            exists|args: OpAppend|
                args@ == (OpAppendView {
                    content_type: None,
                    content_disposition: None,
                    cache_control: None,
                }) && #[trigger] self.appends_whole(path@, args@, bytes_contents(bs), res),
    {
        let args = OpAppend::new();
        let res = self.append_with(path, args, bs);
        proof {
            assert(self.appends_whole(path@, args@, bytes_contents(bs), res));
        }
        res
    }

    /// What appending from memory comes to. A path that is no file is
    /// refused. Else the accessor opens the file with `args`; its refusal is
    /// handed on. The chunk is then appended and the appender closed.
    pub open spec fn appends_whole(
        &self,
        path: Seq<char>,
        args: OpAppendView,
        chunk: Seq<u8>,
        res: Result<(), Error>,
    ) -> bool {
        on_file(
            self@.accessor,
            path,
            "append path is a directory"@,
            "Operator::append_with"@,
            res,
            exists|inner: Result<(RpAppend, A::Appender), Error>|
                {
                    &&& #[trigger] self@.accessor.append_post(normalized(path), args, inner)
                    &&& match inner {
                        Err(e) => res == Err::<(), Error>(e),
                        Ok((_, a0)) => appended_and_closed(a0, chunk, res),
                    }
                },
        )
    }

    /// Appends `bs` to the file `path`, as `args` declare.
    pub fn append_with(&self, path: &str, args: OpAppend, bs: bytes::Bytes) -> (res: Result<
        (),
        Error,
    >)
        ensures
            self.appends_whole(path@, args@, bytes_contents(bs), res),
    {
        let path = normalize_path(path);
        if !validate_path(path.as_str(), EntryMode::FILE) {
            return Err(
                refuse(
                    &*self.accessor,
                    ErrorKind::IsADirectory,
                    "append path is a directory",
                    "Operator::append_with",
                    "path",
                    path.as_str(),
                ),
            );
        }
        let inner = self.accessor.append(path.as_str(), args);
        proof {
            assert(self@.accessor.append_post(path@, args@, inner));
        }
        let mut a = match inner {
            Err(e) => {
                return Err(e);
            },
            Ok((_, a)) => a,
        };
        let ghost a0 = a;
        let wrote = a.append(bs);
        let ghost a1 = a;
        proof {
            assert(A::Appender::append_post(a0, a1, bytes_contents(bs), wrote));
        }
        match wrote {
            Err(e) => Err(e),
            Ok(_) => {
                let res = a.close();
                proof {
                    assert(A::Appender::close_post(a1, a, res));
                }
                res
            },
        }
    }

    /// Opens the file `path` for appending.
    pub fn appender(&self, path: &str) -> (res: Result<A::Appender, Error>)
        ensures
            exists|args: OpAppend|
                args@ == (OpAppendView {
                    content_type: None,
                    content_disposition: None,
                    cache_control: None,
                }) && #[trigger] self.appends(path@, args@, res),
    {
        let args = OpAppend::new();
        let res = self.appender_with(path, args);
        proof {
            assert(self.appends(path@, args@, res));
        }
        res
    }

    /// What opening an appender comes to: a path that is no file is refused,
    /// and else the accessor opens the file with `args`.
    pub open spec fn appends(
        &self,
        path: Seq<char>,
        args: OpAppendView,
        res: Result<A::Appender, Error>,
    ) -> bool {
        on_file(
            self@.accessor,
            path,
            "append path is a directory"@,
            "Operator::appender"@,
            res,
            exists|inner: Result<(RpAppend, A::Appender), Error>| #[trigger]
                self@.accessor.append_post(normalized(path), args, inner) && opened(inner, res),
        )
    }

    /// Opens the file `path` for appending, as `args` declare.
    pub fn appender_with(&self, path: &str, args: OpAppend) -> (res: Result<A::Appender, Error>)
        ensures
            self.appends(path@, args@, res),
    {
        let path = normalize_path(path);
        if !validate_path(path.as_str(), EntryMode::FILE) {
            return Err(
                refuse(
                    &*self.accessor,
                    ErrorKind::IsADirectory,
                    "append path is a directory",
                    "Operator::appender",
                    "path",
                    path.as_str(),
                ),
            );
        }
        let inner = self.accessor.append(path.as_str(), args);
        proof {
            assert(self@.accessor.append_post(path@, args@, inner));
        }
        stream_of(inner)
    }
}

/// Whether the accessor deleted `path`.
pub open spec fn deleted<A: Accessor>(acc: A, path: Seq<char>) -> bool {
    exists|rp: RpDelete| #[trigger] acc.delete_post(path, Ok::<RpDelete, Error>(rp))
}

/// Whether the accessor deleted every path, asked for one after the other.
pub open spec fn all_deleted<A: Accessor>(acc: A, paths: Seq<Seq<char>>) -> bool {
    forall|i: int| 0 <= i < paths.len() ==> deleted(acc, #[trigger] paths[i])
}

/// Whether the accessor refused, with `e`, to delete one of the paths, after
/// it had deleted those before it.
pub open spec fn delete_failed<A: Accessor>(acc: A, paths: Seq<Seq<char>>, e: Error) -> bool {
    exists|i: int|
        {
            &&& 0 <= i < paths.len()
            &&& #[trigger] acc.delete_post(paths[i], Err::<RpDelete, Error>(e))
            &&& all_deleted(acc, paths.take(i))
        }
}

/// The first error among the results of a batch, if there is one.
pub open spec fn first_error(results: Seq<(String, Result<BatchedReply, Error>)>) -> Option<Error>
    decreases results.len(),
{
    if results.len() == 0 {
        None
    } else if results[0].1 is Err {
        Some(results[0].1->Err_0)
    } else {
        first_error(results.skip(1))
    }
}

/// The size of the next batch when `left` paths are left.
pub open spec fn batch_size(left: nat, limit: usize) -> int {
    if limit < left {
        limit as int
    } else {
        left as int
    }
}

/// Whether the accessor ran `chunk` as one batch and deleted every path of
/// it.
pub open spec fn batched<A: Accessor>(acc: A, chunk: Seq<Seq<char>>) -> bool {
    exists|rp: RpBatch| #[trigger]
        acc.batch_post(chunk, Ok::<RpBatch, Error>(rp)) && first_error(rp.spec_results()@)
            is None
}

/// Whether the accessor failed, with `e`, on `chunk` as one batch: it refused
/// the batch, or it ran the batch and `e` is the first error among its
/// results.
pub open spec fn batch_refused<A: Accessor>(acc: A, chunk: Seq<Seq<char>>, e: Error) -> bool {
    ||| acc.batch_post(chunk, Err::<RpBatch, Error>(e))
    ||| exists|rp: RpBatch| #[trigger]
        acc.batch_post(chunk, Ok::<RpBatch, Error>(rp)) && first_error(rp.spec_results()@)
            == Some(e)
}

/// Whether the accessor deleted every path, asked in batches of `limit` paths
/// in order, the last of which may be smaller.
pub open spec fn all_batched<A: Accessor>(acc: A, paths: Seq<Seq<char>>, limit: usize) -> bool
    decreases paths.len(),
{
    if paths.len() == 0 || limit == 0 {
        true
    } else {
        let n = batch_size(paths.len(), limit);
        batched(acc, paths.take(n)) && all_batched(acc, paths.skip(n), limit)
    }
}

/// Whether the accessor failed, with `e`, on one of the batches of `limit`
/// paths in order, after it had run those before it.
pub open spec fn batch_failed<A: Accessor>(
    acc: A,
    paths: Seq<Seq<char>>,
    limit: usize,
    e: Error,
) -> bool
    decreases paths.len(),
{
    if paths.len() == 0 || limit == 0 {
        false
    } else {
        let n = batch_size(paths.len(), limit);
        ||| batch_refused(acc, paths.take(n), e)
        ||| batched(acc, paths.take(n)) && batch_failed(acc, paths.skip(n), limit, e)
    }
}

/// What removing `paths` comes to. Where the accessor runs batches, the paths
/// go to it in batches of `limit`, one batch after the other, each of them
/// whole; the first error, of a batch or of a path in one, ends the removal
/// and is handed on. Where it runs none, the paths are deleted one after the
/// other, up to the first error.
pub open spec fn removed<A: Accessor>(
    acc: A,
    limit: usize,
    paths: Seq<Seq<char>>,
    res: Result<(), Error>,
) -> bool {
    exists|info: AccessorInfo|
        {
            &&& #[trigger] acc.info_post(info)
            &&& if info@.capability.batch {
                match res {
                    Ok(_) => all_batched(acc, paths, limit),
                    Err(e) => batch_failed(acc, paths, limit, e),
                }
            } else {
                match res {
                    Ok(_) => all_deleted(acc, paths),
                    Err(e) => delete_failed(acc, paths, e),
                }
            }
        }
}

/// Takes the first error out of the results of a batch.
fn take_first_error(replies: Vec<(String, Result<BatchedReply, Error>)>) -> (res: Option<Error>)
    ensures
        res == first_error(replies@),
{
    let ghost all = replies@;
    let mut results = replies;
    let mut i: usize = 0;
    proof {
        assert(all.skip(0) =~= all);
    }
    while i < results.len()
        invariant
            all == replies@,
            results@ == all,
            i <= all.len(),
            first_error(all) == first_error(all.skip(i as int)),
        decreases results.len() - i,
    {
        if results[i].1.is_err() {
            proof {
                assert(all.skip(i as int)[0] == all[i as int]);
            }
            let (_, r) = results.remove(i);
            proof {
                assert(r == all[i as int].1);
                assert(first_error(all.skip(i as int)) == Some(all[i as int].1->Err_0));
            }
            let found = match r {
                Err(e) => Some(e),
                Ok(_) => None,
            };
            return found;
        }
        proof {
            assert(all.skip(i as int)[0] == all[i as int]);
            assert(all.skip(i as int).skip(1) =~= all.skip(i + 1));
        }
        i += 1;
    }
    None
}

/// What stands between `remove_all` and its end.
pub enum RemoveAll<P> {
    /// Nothing: the path is gone.
    Done,
    /// The path is a directory. The pager lists everything under it; when all
    /// of that is removed, page by page, the directory itself is deleted.
    Scan(P),
}

impl<A: Accessor> Operator<A> {
    /// Removes the files `paths`.
    pub fn remove(&self, paths: Vec<String>) -> (res: Result<(), Error>)
        requires
            self@.limit > 0,
        ensures
            removed(self@.accessor, self@.limit, strings_view(paths@), res),
    {
        self.remove_via(paths)
    }

    /// Removes the files `paths`, in batches where the accessor runs batches:
    /// see `removed`.
    pub fn remove_via(&self, paths: Vec<String>) -> (res: Result<(), Error>)
        requires
            self@.limit > 0,
        ensures
            removed(self@.accessor, self@.limit, strings_view(paths@), res),
    {
        let info = self.accessor.info();
        proof {
            assert(self@.accessor.info_post(info));
        }
        if info.capability().batch {
            self.remove_in_batches(&paths)
        } else {
            self.remove_one_by_one(&paths)
        }
    }

    fn remove_one_by_one(&self, paths: &Vec<String>) -> (res: Result<(), Error>)
        ensures
            match res {
                Ok(_) => all_deleted(self@.accessor, strings_view(paths@)),
                Err(e) => delete_failed(self@.accessor, strings_view(paths@), e),
            },
    {
        let ghost all = strings_view(paths@);
        let mut i: usize = 0;
        while i < paths.len()
            invariant
                all == strings_view(paths@),
                i <= paths.len(),
                all_deleted(self@.accessor, all.take(i as int)),
            decreases paths.len() - i,
        {
            let inner = self.accessor.delete(paths[i].as_str(), OpDelete::new());
            proof {
                assert(all[i as int] == paths[i as int]@);
                assert(self@.accessor.delete_post(all[i as int], inner));
            }
            match inner {
                Err(e) => {
                    return Err(e);
                },
                Ok(rp) => {
                    proof {
                        assert(self@.accessor.delete_post(
                            all[i as int],
                            Ok::<RpDelete, Error>(rp),
                        ));
                        assert(deleted(self@.accessor, all[i as int]));
                        assert forall|j: int| 0 <= j < all.take(i + 1).len() implies deleted(
                            self@.accessor,
                            #[trigger] all.take(i + 1)[j],
                        ) by {
                            if j < i {
                                assert(all.take(i as int)[j] == all.take(i + 1)[j]);
                            }
                        }
                    }
                },
            }
            i += 1;
        }
        proof {
            assert(all.take(paths.len() as int) =~= all);
        }
        Ok(())
    }

    fn remove_in_batches(&self, paths: &Vec<String>) -> (res: Result<(), Error>)
        requires
            self@.limit > 0,
        ensures
            match res {
                Ok(_) => all_batched(self@.accessor, strings_view(paths@), self@.limit),
                Err(e) => batch_failed(self@.accessor, strings_view(paths@), self@.limit, e),
            },
    {
        let ghost all = strings_view(paths@);
        let limit = self.limit;
        let mut start: usize = 0;
        proof {
            assert(all.skip(0) =~= all);
        }
        while start < paths.len()
            invariant
                limit == self@.limit,
                limit > 0,
                all == strings_view(paths@),
                start <= paths.len(),
                all_batched(self@.accessor, all.skip(start as int), limit) ==> all_batched(
                    self@.accessor,
                    all,
                    limit,
                ),
                forall|e: Error| #[trigger]
                    batch_failed(self@.accessor, all.skip(start as int), limit, e)
                        ==> batch_failed(self@.accessor, all, limit, e),
            decreases paths.len() - start,
        {
            let left = paths.len() - start;
            let n: usize = if limit < left {
                limit
            } else {
                left
            };
            let mut ops: Vec<(String, BatchOperation)> = Vec::new();
            let mut k: usize = 0;
            while k < n
                invariant
                    all == strings_view(paths@),
                    start + n <= paths.len(),
                    k <= n,
                    crate::ops::batch_paths(ops@) == all.subrange(start as int, start + k),
                decreases n - k,
            {
                let ghost before = crate::ops::batch_paths(ops@);
                ops.push((paths[start + k].clone(), BatchOperation::Delete(OpDelete::new())));
                proof {
                    assert(crate::ops::batch_paths(ops@) =~= before.push(all[start + k]));
                    assert(all.subrange(start as int, start + k + 1) =~= all.subrange(
                        start as int,
                        start + k,
                    ).push(all[start + k]));
                }
                k += 1;
            }
            let ghost rest = all.skip(start as int);
            let ghost chunk = rest.take(n as int);
            proof {
                assert(chunk =~= all.subrange(start as int, start + n));
                assert(rest.skip(n as int) =~= all.skip(start + n));
                assert(n == batch_size(rest.len(), limit));
            }
            let inner = self.accessor.batch(OpBatch::new(ops));
            proof {
                assert(self@.accessor.batch_post(chunk, inner));
            }
            match inner {
                Err(e) => {
                    proof {
                        assert(batch_refused(self@.accessor, chunk, e));
                        assert(batch_failed(self@.accessor, rest, limit, e));
                    }
                    return Err(e);
                },
                Ok(rp) => {
                    match take_first_error(rp.into_results()) {
                        Some(e) => {
                            proof {
                                assert(batch_refused(self@.accessor, chunk, e));
                                assert(batch_failed(self@.accessor, rest, limit, e));
                            }
                            return Err(e);
                        },
                        None => {
                            proof {
                                assert(batched(self@.accessor, chunk));
                                assert(rest.skip(n as int) == all.skip(start + n));
                                if all_batched(self@.accessor, all.skip(start + n), limit) {
                                    assert(all_batched(self@.accessor, rest, limit));
                                }
                                assert forall|e: Error| #[trigger]
                                    batch_failed(
                                        self@.accessor,
                                        all.skip(start + n),
                                        limit,
                                        e,
                                    ) implies batch_failed(self@.accessor, all, limit, e) by {
                                    assert(batch_failed(self@.accessor, rest, limit, e));
                                }
                            }
                        },
                    }
                },
            }
            start = start + n;
        }
        proof {
            assert(all.skip(start as int) =~= Seq::<Seq<char>>::empty());
        }
        Ok(())
    }

    /// Starts to remove `path` and everything under it. A path that does not
    /// exist is gone already, and that is success. A path that is no directory
    /// is deleted. For a directory, everything under it is listed: the caller
    /// removes each page with `remove_page` and then deletes the directory.
    pub fn remove_all(&self, path: &str) -> (res: Result<RemoveAll<A::Pager>, Error>)
        ensures
            exists|inner: Result<RpStat, Error>|
                {
                    &&& #[trigger] self@.accessor.stat_post(normalized(path@), inner)
                    &&& match inner {
                        Err(e) => if e@.kind == ErrorKind::NotFound {
                            res matches Ok(RemoveAll::Done)
                        } else {
                            res == Err::<RemoveAll<A::Pager>, Error>(e)
                        },
                        Ok(rp) => if rp@.mode != EntryMode::DIR {
                            exists|gone: Result<RpDelete, Error>| #[trigger]
                                self@.accessor.delete_post(normalized(path@), gone) && match gone {
                                    Err(e) => res == Err::<RemoveAll<A::Pager>, Error>(e),
                                    Ok(_) => res matches Ok(RemoveAll::Done),
                                }
                        } else {
                            exists|listing: Result<A::Pager, Error>| #[trigger]
                                self.listed(
                                    path@,
                                    OpList::flat_view(),
                                    "the path trying to scan should end with `/`"@,
                                    "list"@,
                                    listing,
                                ) && match listing {
                                    Err(e) => res == Err::<RemoveAll<A::Pager>, Error>(e),
                                    Ok(p) => res == Ok::<RemoveAll<A::Pager>, Error>(
                                        RemoveAll::Scan(p),
                                    ),
                                }
                        },
                    }
                },
    {
        let normal = normalize_path(path);
        let inner = self.accessor.stat(normal.as_str(), OpStat::new());
        proof {
            assert(self@.accessor.stat_post(normalized(path@), inner));
        }
        let meta = match inner {
            Err(e) => {
                if e.kind() == ErrorKind::NotFound {
                    return Ok(RemoveAll::Done);
                }
                return Err(e);
            },
            Ok(rp) => rp.into_metadata(),
        };
        if !meta.is_dir() {
            let gone = self.accessor.delete(normal.as_str(), OpDelete::new());
            proof {
                assert(self@.accessor.delete_post(normalized(path@), gone));
            }
            return match gone {
                Err(e) => Err(e),
                Ok(_) => Ok(RemoveAll::Done),
            };
        }
        let listing = self.scan(path);
        proof {
            assert(self.listed(
                path@,
                OpList::flat_view(),
                "the path trying to scan should end with `/`"@,
                "list"@,
                listing,
            ));
        }
        match listing {
            Err(e) => Err(e),
            Ok(p) => Ok(RemoveAll::Scan(p)),
        }
    }

    /// Removes the entries of one page of a listing: see `removed`.
    pub fn remove_page(&self, page: Vec<Entry>) -> (res: Result<(), Error>)
        requires
            self@.limit > 0,
        ensures
            removed(
                self@.accessor,
                self@.limit,
                crate::entry::entries_view(page@).map_values(|e: crate::entry::EntryView| e.path),
                res,
            ),
    {
        let mut paths: Vec<String> = Vec::new();
        let ghost all = crate::entry::entries_view(page@).map_values(
            |e: crate::entry::EntryView| e.path,
        );
        let mut i: usize = 0;
        while i < page.len()
            invariant
                i <= page.len(),
                all == crate::entry::entries_view(page@).map_values(
                    |e: crate::entry::EntryView| e.path,
                ),
                strings_view(paths@) == all.take(i as int),
            decreases page.len() - i,
        {
            let ghost before = strings_view(paths@);
            paths.push(page[i].path().to_owned());
            proof {
                assert(strings_view(paths@) =~= before.push(page[i as int]@.path));
                assert(all.take(i + 1) =~= all.take(i as int).push(all[i as int]));
            }
            i += 1;
        }
        proof {
            assert(all.take(page.len() as int) =~= all);
        }
        self.remove_via(paths)
    }
}

} // verus!
