//! The operations that every backend and every layer offers.

use crate::capability::AccessorInfo;
use crate::error::Error;
use crate::ops::{
    OpAppend, OpAppendView, OpBatch, OpCopy, OpCreateDir, OpDelete, OpList, OpListView, OpPresign,
    OpRead, OpReadView, OpRename, OpStat, OpWrite, OpWriteView,
};
use crate::raw::oio::io::{Append, Page, Read, Write};
use crate::raw::rps::{
    RpAppend, RpBatch, RpCopy, RpCreateDir, RpDelete, RpList, RpPresign, RpRead, RpRename, RpStat,
    RpWrite,
};
use vstd::prelude::*;

verus! {

/// A backend, or a layer over one.
///
/// Each operation comes in two forms. The plain form is the one that may wait
/// for the backend; an adapter that has to go back to the backend in the
/// middle of a stream does so through it. The `blocking_` form is for callers
/// that cannot wait, and nothing is started from inside its streams.
///
/// Each method comes with a relation between the accessor, the arguments and
/// the result, in which an implementation states what the method does. Where
/// nothing is stated the relation holds of every outcome.
pub trait Accessor: Sized {
    type Reader: Read;

    type BlockingReader: Read;

    type Writer: Write;

    type BlockingWriter: Write;

    type Appender: Append;

    type Pager: Page;

    type BlockingPager: Page;

    /// What `info` may return.
    open spec fn info_post(&self, res: AccessorInfo) -> bool {
        true
    }

    /// What `create_dir` may do.
    open spec fn create_dir_post(&self, path: Seq<char>, res: Result<RpCreateDir, Error>) -> bool {
        true
    }

    /// What `read` may do.
    open spec fn read_post(
        &self,
        path: Seq<char>,
        args: OpReadView,
        res: Result<(RpRead, Self::Reader), Error>,
    ) -> bool {
        true
    }

    /// What `write` may do.
    open spec fn write_post(
        &self,
        path: Seq<char>,
        args: OpWriteView,
        res: Result<(RpWrite, Self::Writer), Error>,
    ) -> bool {
        true
    }

    /// What `append` may do.
    open spec fn append_post(
        &self,
        path: Seq<char>,
        args: OpAppendView,
        res: Result<(RpAppend, Self::Appender), Error>,
    ) -> bool {
        true
    }

    /// What `stat` may do.
    open spec fn stat_post(&self, path: Seq<char>, res: Result<RpStat, Error>) -> bool {
        true
    }

    /// What `delete` may do.
    open spec fn delete_post(&self, path: Seq<char>, res: Result<RpDelete, Error>) -> bool {
        true
    }

    /// What `list` may do.
    open spec fn list_post(
        &self,
        path: Seq<char>,
        args: OpListView,
        res: Result<(RpList, Self::Pager), Error>,
    ) -> bool {
        true
    }

    /// What `copy` may do.
    open spec fn copy_post(&self, from: Seq<char>, to: Seq<char>, res: Result<RpCopy, Error>) -> bool {
        true
    }

    /// What `rename` may do.
    open spec fn rename_post(
        &self,
        from: Seq<char>,
        to: Seq<char>,
        res: Result<RpRename, Error>,
    ) -> bool {
        true
    }

    /// What `presign` may do.
    open spec fn presign_post(
        &self,
        path: Seq<char>,
        args: OpPresign,
        res: Result<RpPresign, Error>,
    ) -> bool {
        true
    }

    /// What `batch` may do, given the paths to delete.
    open spec fn batch_post(&self, paths: Seq<Seq<char>>, res: Result<RpBatch, Error>) -> bool {
        true
    }

    /// What `blocking_create_dir` may do.
    open spec fn blocking_create_dir_post(
        &self,
        path: Seq<char>,
        res: Result<RpCreateDir, Error>,
    ) -> bool {
        true
    }

    /// What `blocking_read` may do.
    open spec fn blocking_read_post(
        &self,
        path: Seq<char>,
        args: OpReadView,
        res: Result<(RpRead, Self::BlockingReader), Error>,
    ) -> bool {
        true
    }

    /// What `blocking_write` may do.
    open spec fn blocking_write_post(
        &self,
        path: Seq<char>,
        args: OpWriteView,
        res: Result<(RpWrite, Self::BlockingWriter), Error>,
    ) -> bool {
        true
    }

    /// What `blocking_stat` may do.
    open spec fn blocking_stat_post(&self, path: Seq<char>, res: Result<RpStat, Error>) -> bool {
        true
    }

    /// What `blocking_delete` may do.
    open spec fn blocking_delete_post(&self, path: Seq<char>, res: Result<RpDelete, Error>) -> bool {
        true
    }

    /// What `blocking_list` may do.
    open spec fn blocking_list_post(
        &self,
        path: Seq<char>,
        args: OpListView,
        res: Result<(RpList, Self::BlockingPager), Error>,
    ) -> bool {
        true
    }

    /// Who the accessor is and what it supports.
    fn info(&self) -> (res: AccessorInfo)
        ensures
            self.info_post(res),
    ;

    /// Creates the directory `path`.
    fn create_dir(&self, path: &str, args: OpCreateDir) -> (res: Result<RpCreateDir, Error>)
        ensures
            self.create_dir_post(path@, res),
    ;

    /// Opens `path` for reading.
    fn read(&self, path: &str, args: OpRead) -> (res: Result<(RpRead, Self::Reader), Error>)
        ensures
            self.read_post(path@, args@, res),
    ;

    /// Opens `path` for writing.
    fn write(&self, path: &str, args: OpWrite) -> (res: Result<(RpWrite, Self::Writer), Error>)
        ensures
            self.write_post(path@, args@, res),
    ;

    /// Opens `path` for appending.
    fn append(&self, path: &str, args: OpAppend) -> (res: Result<
        (RpAppend, Self::Appender),
        Error,
    >)
        ensures
            self.append_post(path@, args@, res),
    ;

    /// Looks `path` up.
    fn stat(&self, path: &str, args: OpStat) -> (res: Result<RpStat, Error>)
        ensures
            self.stat_post(path@, res),
    ;

    /// Deletes `path`.
    fn delete(&self, path: &str, args: OpDelete) -> (res: Result<RpDelete, Error>)
        ensures
            self.delete_post(path@, res),
    ;

    /// Lists what is under `path`.
    fn list(&self, path: &str, args: OpList) -> (res: Result<(RpList, Self::Pager), Error>)
        ensures
            self.list_post(path@, args@, res),
    ;

    /// Copies the file `from` to `to`.
    fn copy(&self, from: &str, to: &str, args: OpCopy) -> (res: Result<RpCopy, Error>)
        ensures
            self.copy_post(from@, to@, res),
    ;

    /// Renames the file `from` to `to`.
    fn rename(&self, from: &str, to: &str, args: OpRename) -> (res: Result<RpRename, Error>)
        ensures
            self.rename_post(from@, to@, res),
    ;

    /// Makes a request that stands for an operation on `path`.
    fn presign(&self, path: &str, args: OpPresign) -> (res: Result<RpPresign, Error>)
        ensures
            self.presign_post(path@, args, res),
    ;

    /// Runs the operations of a batch.
    fn batch(&self, args: OpBatch) -> (res: Result<RpBatch, Error>)
        ensures
            self.batch_post(args@, res),
    ;

    /// Creates the directory `path`.
    fn blocking_create_dir(&self, path: &str, args: OpCreateDir) -> (res: Result<
        RpCreateDir,
        Error,
    >)
        ensures
            self.blocking_create_dir_post(path@, res),
    ;

    /// Opens `path` for reading.
    fn blocking_read(&self, path: &str, args: OpRead) -> (res: Result<
        (RpRead, Self::BlockingReader),
        Error,
    >)
        ensures
            self.blocking_read_post(path@, args@, res),
    ;

    /// Opens `path` for writing.
    fn blocking_write(&self, path: &str, args: OpWrite) -> (res: Result<
        (RpWrite, Self::BlockingWriter),
        Error,
    >)
        ensures
            self.blocking_write_post(path@, args@, res),
    ;

    /// Looks `path` up.
    fn blocking_stat(&self, path: &str, args: OpStat) -> (res: Result<RpStat, Error>)
        ensures
            self.blocking_stat_post(path@, res),
    ;

    /// Deletes `path`.
    fn blocking_delete(&self, path: &str, args: OpDelete) -> (res: Result<RpDelete, Error>)
        ensures
            self.blocking_delete_post(path@, res),
    ;

    /// Lists what is under `path`.
    fn blocking_list(&self, path: &str, args: OpList) -> (res: Result<
        (RpList, Self::BlockingPager),
        Error,
    >)
        ensures
            self.blocking_list_post(path@, args@, res),
    ;
}

} // verus!
