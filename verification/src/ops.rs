//! The arguments of each operation.

use crate::metadata::text_view;
use vstd::prelude::*;

verus! {

/// A range of bytes: an offset and a size, each of which may be left open.
///
/// - offset and size: the bytes from `offset` up to `offset + size`;
/// - offset alone: from `offset` to the end;
/// - neither: the whole object;
/// - size alone: the last `size` bytes.
#[derive(Clone, Copy, Debug, PartialEq, Eq, Structural)]
pub struct BytesRange {
    pub offset: Option<u64>,
    pub size: Option<u64>,
}

impl BytesRange {
    /// The range with the given offset and size.
    pub fn new(offset: Option<u64>, size: Option<u64>) -> (r: BytesRange)
        ensures
            r == (BytesRange { offset, size }),
    {
        BytesRange { offset, size }
    }

    /// The whole object.
    pub open spec fn full() -> BytesRange {
        BytesRange { offset: None, size: None }
    }

    /// Whether the range asks for the last bytes of the object.
    pub open spec fn is_suffix(self) -> bool {
        self.offset is None && self.size is Some
    }

    /// The offset, where one is given.
    pub fn offset(&self) -> (r: Option<u64>)
        ensures
            r == self.offset,
    {
        self.offset
    }

    /// The size, where one is given.
    pub fn size(&self) -> (r: Option<u64>)
        ensures
            r == self.size,
    {
        self.size
    }

    /// Whether the range is the whole object.
    pub fn is_full(&self) -> (r: bool)
        ensures
            r == (*self == BytesRange::full()),
    {
        self.offset.is_none() && self.size.is_none()
    }
}

impl Default for BytesRange {
    fn default() -> (r: BytesRange)
        ensures
            r == BytesRange::full(),
    {
        BytesRange { offset: None, size: None }
    }
}

fn clone_text(s: &Option<String>) -> (r: Option<String>)
    ensures
        text_view(r) == text_view(*s),
{
    match s {
        Some(s) => Some(s.clone()),
        None => None,
    }
}

fn borrow_text(s: &Option<String>) -> (r: Option<&str>)
    ensures
        match r {
            Some(t) => text_view(*s) == Some(t@),
            None => text_view(*s) is None,
        },
{
    match s {
        Some(s) => Some(s.as_str()),
        None => None,
    }
}

/// The arguments of `read` as contracts see them.
pub struct OpReadView {
    pub range: BytesRange,
    pub if_match: Option<Seq<char>>,
    pub if_none_match: Option<Seq<char>>,
    pub override_content_disposition: Option<Seq<char>>,
    pub override_cache_control: Option<Seq<char>>,
}

impl OpReadView {
    /// A read of `range` without conditions or overrides.
    pub open spec fn of_range(range: BytesRange) -> OpReadView {
        OpReadView {
            range,
            if_match: None,
            if_none_match: None,
            override_content_disposition: None,
            override_cache_control: None,
        }
    }
}

/// The arguments of `read`.
#[derive(Debug)]
pub struct OpRead {
    br: BytesRange,
    if_match: Option<String>,
    if_none_match: Option<String>,
    override_content_disposition: Option<String>,
    override_cache_control: Option<String>,
}

impl View for OpRead {
    type V = OpReadView;

    closed spec fn view(&self) -> OpReadView {
        OpReadView {
            range: self.br,
            if_match: text_view(self.if_match),
            if_none_match: text_view(self.if_none_match),
            override_content_disposition: text_view(self.override_content_disposition),
            override_cache_control: text_view(self.override_cache_control),
        }
    }
}

impl Clone for OpRead {
    fn clone(&self) -> (r: OpRead)
        ensures
            r@ == self@,
    {
        OpRead {
            br: self.br,
            if_match: clone_text(&self.if_match),
            if_none_match: clone_text(&self.if_none_match),
            override_content_disposition: clone_text(&self.override_content_disposition),
            override_cache_control: clone_text(&self.override_cache_control),
        }
    }
}

impl Default for OpRead {
    fn default() -> (r: OpRead)
        ensures
            r@ == OpReadView::of_range(BytesRange::full()),
    {
        OpRead::new()
    }
}

impl OpRead {
    /// A read of the whole object.
    pub fn new() -> (r: OpRead)
        ensures
            r@ == OpReadView::of_range(BytesRange::full()),
    {
        OpRead {
            br: BytesRange { offset: None, size: None },
            if_match: None,
            if_none_match: None,
            override_content_disposition: None,
            override_cache_control: None,
        }
    }

    /// Reads `range` only.
    pub fn with_range(self, range: BytesRange) -> (r: OpRead)
        ensures
            r@ == (OpReadView { range, ..self@ }),
    {
        let mut op = self;
        op.br = range;
        op
    }

    /// The range to read.
    pub fn range(&self) -> (r: BytesRange)
        ensures
            r == self@.range,
    {
        self.br
    }

    /// Reads only if the entity tag is `etag`.
    pub fn with_if_match(self, etag: &str) -> (r: OpRead)
        ensures
            r@ == (OpReadView { if_match: Some(etag@), ..self@ }),
    {
        let mut op = self;
        op.if_match = Some(etag.to_owned());
        op
    }

    /// The entity tag that the object must have.
    pub fn if_match(&self) -> (r: Option<&str>)
        ensures
            match r {
                Some(t) => self@.if_match == Some(t@),
                None => self@.if_match is None,
            },
    {
        borrow_text(&self.if_match)
    }

    /// Reads only if the entity tag is not `etag`.
    pub fn with_if_none_match(self, etag: &str) -> (r: OpRead)
        ensures
            r@ == (OpReadView { if_none_match: Some(etag@), ..self@ }),
    {
        let mut op = self;
        op.if_none_match = Some(etag.to_owned());
        op
    }

    /// The entity tag that the object must not have.
    pub fn if_none_match(&self) -> (r: Option<&str>)
        ensures
            match r {
                Some(t) => self@.if_none_match == Some(t@),
                None => self@.if_none_match is None,
            },
    {
        borrow_text(&self.if_none_match)
    }

    /// Asks the backend to answer with this content disposition.
    pub fn with_override_content_disposition(self, value: &str) -> (r: OpRead)
        ensures
            r@ == (OpReadView { override_content_disposition: Some(value@), ..self@ }),
    {
        let mut op = self;
        op.override_content_disposition = Some(value.to_owned());
        op
    }

    /// The content disposition that the answer is to carry.
    pub fn override_content_disposition(&self) -> (r: Option<&str>)
        ensures
            match r {
                Some(t) => self@.override_content_disposition == Some(t@),
                None => self@.override_content_disposition is None,
            },
    {
        borrow_text(&self.override_content_disposition)
    }

    /// Asks the backend to answer with this cache control.
    pub fn with_override_cache_control(self, value: &str) -> (r: OpRead)
        ensures
            r@ == (OpReadView { override_cache_control: Some(value@), ..self@ }),
    {
        let mut op = self;
        op.override_cache_control = Some(value.to_owned());
        op
    }

    /// The cache control that the answer is to carry.
    pub fn override_cache_control(&self) -> (r: Option<&str>)
        ensures
            match r {
                Some(t) => self@.override_cache_control == Some(t@),
                None => self@.override_cache_control is None,
            },
    {
        borrow_text(&self.override_cache_control)
    }
}

/// The arguments of `write` as contracts see them.
pub struct OpWriteView {
    pub content_length: Option<u64>,
    pub content_type: Option<Seq<char>>,
    pub content_disposition: Option<Seq<char>>,
    pub cache_control: Option<Seq<char>>,
}

impl OpWriteView {
    /// A write about which nothing is declared.
    pub open spec fn plain() -> OpWriteView {
        OpWriteView {
            content_length: None,
            content_type: None,
            content_disposition: None,
            cache_control: None,
        }
    }
}

/// The arguments of `write`.
#[derive(Debug)]
pub struct OpWrite {
    content_length: Option<u64>,
    content_type: Option<String>,
    content_disposition: Option<String>,
    cache_control: Option<String>,
}

impl View for OpWrite {
    type V = OpWriteView;

    closed spec fn view(&self) -> OpWriteView {
        OpWriteView {
            content_length: self.content_length,
            content_type: text_view(self.content_type),
            content_disposition: text_view(self.content_disposition),
            cache_control: text_view(self.cache_control),
        }
    }
}

impl Default for OpWrite {
    fn default() -> (r: OpWrite)
        ensures
            r@ == OpWriteView::plain(),
    {
        OpWrite::new()
    }
}

impl OpWrite {
    /// A write about which nothing is declared.
    pub fn new() -> (r: OpWrite)
        ensures
            r@ == OpWriteView::plain(),
    {
        OpWrite {
            content_length: None,
            content_type: None,
            content_disposition: None,
            cache_control: None,
        }
    }

    /// Declares how many bytes will be written.
    pub fn with_content_length(self, n: u64) -> (r: OpWrite)
        ensures
            r@ == (OpWriteView { content_length: Some(n), ..self@ }),
    {
        let mut op = self;
        op.content_length = Some(n);
        op
    }

    /// The declared size, where one was declared.
    pub fn content_length(&self) -> (r: Option<u64>)
        ensures
            r == self@.content_length,
    {
        self.content_length
    }

    /// Declares the media type.
    pub fn with_content_type(self, value: &str) -> (r: OpWrite)
        ensures
            r@ == (OpWriteView { content_type: Some(value@), ..self@ }),
    {
        let mut op = self;
        op.content_type = Some(value.to_owned());
        op
    }

    /// The declared media type.
    pub fn content_type(&self) -> (r: Option<&str>)
        ensures
            match r {
                Some(t) => self@.content_type == Some(t@),
                None => self@.content_type is None,
            },
    {
        borrow_text(&self.content_type)
    }

    /// Declares the content disposition.
    pub fn with_content_disposition(self, value: &str) -> (r: OpWrite)
        ensures
            r@ == (OpWriteView { content_disposition: Some(value@), ..self@ }),
    {
        let mut op = self;
        op.content_disposition = Some(value.to_owned());
        op
    }

    /// The declared content disposition.
    pub fn content_disposition(&self) -> (r: Option<&str>)
        ensures
            match r {
                Some(t) => self@.content_disposition == Some(t@),
                None => self@.content_disposition is None,
            },
    {
        borrow_text(&self.content_disposition)
    }

    /// Declares the cache control.
    pub fn with_cache_control(self, value: &str) -> (r: OpWrite)
        ensures
            r@ == (OpWriteView { cache_control: Some(value@), ..self@ }),
    {
        let mut op = self;
        op.cache_control = Some(value.to_owned());
        op
    }

    /// The declared cache control.
    pub fn cache_control(&self) -> (r: Option<&str>)
        ensures
            match r {
                Some(t) => self@.cache_control == Some(t@),
                None => self@.cache_control is None,
            },
    {
        borrow_text(&self.cache_control)
    }
}

/// The arguments of `append` as contracts see them.
pub struct OpAppendView {
    pub content_type: Option<Seq<char>>,
    pub content_disposition: Option<Seq<char>>,
    pub cache_control: Option<Seq<char>>,
}

/// The arguments of `append`.
#[derive(Debug)]
pub struct OpAppend {
    content_type: Option<String>,
    content_disposition: Option<String>,
    cache_control: Option<String>,
}

impl View for OpAppend {
    type V = OpAppendView;

    closed spec fn view(&self) -> OpAppendView {
        OpAppendView {
            content_type: text_view(self.content_type),
            content_disposition: text_view(self.content_disposition),
            cache_control: text_view(self.cache_control),
        }
    }
}

impl Default for OpAppend {
    fn default() -> (r: OpAppend)
        ensures
            r@ == (OpAppendView {
                content_type: None,
                content_disposition: None,
                cache_control: None,
            }),
    {
        OpAppend::new()
    }
}

impl OpAppend {
    /// An append about which nothing is declared.
    pub fn new() -> (r: OpAppend)
        ensures
            r@ == (OpAppendView {
                content_type: None,
                content_disposition: None,
                cache_control: None,
            }),
    {
        OpAppend { content_type: None, content_disposition: None, cache_control: None }
    }

    /// Declares the media type.
    pub fn with_content_type(self, value: &str) -> (r: OpAppend)
        ensures
            r@ == (OpAppendView { content_type: Some(value@), ..self@ }),
    {
        let mut op = self;
        op.content_type = Some(value.to_owned());
        op
    }

    /// The declared media type.
    pub fn content_type(&self) -> (r: Option<&str>)
        ensures
            match r {
                Some(t) => self@.content_type == Some(t@),
                None => self@.content_type is None,
            },
    {
        borrow_text(&self.content_type)
    }
}

/// The arguments of `list` as contracts see them.
pub struct OpListView {
    /// Empty for a flat listing, `/` for one level.
    pub delimiter: Seq<char>,
    /// How many entries the backend is to return at a time.
    pub limit: Option<usize>,
    /// The path after which the listing starts.
    pub start_after: Option<Seq<char>>,
}

/// The arguments of `list`.
#[derive(Debug)]
pub struct OpList {
    delimiter: String,
    limit: Option<usize>,
    start_after: Option<String>,
}

impl View for OpList {
    type V = OpListView;

    closed spec fn view(&self) -> OpListView {
        OpListView {
            delimiter: self.delimiter@,
            limit: self.limit,
            start_after: text_view(self.start_after),
        }
    }
}

impl Default for OpList {
    fn default() -> (r: OpList)
        ensures
            r@ == (OpListView { delimiter: "/"@, limit: None, start_after: None }),
    {
        OpList::new()
    }
}

impl OpList {
    /// The arguments that `new` makes.
    pub open spec fn new_view() -> OpListView {
        OpListView { delimiter: "/"@, limit: None, start_after: None }
    }

    /// The arguments of a flat listing with the backend's own page size.
    pub open spec fn flat_view() -> OpListView {
        OpListView { delimiter: Seq::empty(), limit: None, start_after: None }
    }

    /// A listing of one level, with the backend's own page size.
    pub fn new() -> (r: OpList)
        ensures
            r@ == OpList::new_view(),
    {
        OpList { delimiter: "/".to_owned(), limit: None, start_after: None }
    }

    /// Sets the delimiter: empty for a flat listing, `/` for one level.
    pub fn with_delimiter(self, delimiter: &str) -> (r: OpList)
        ensures
            r@ == (OpListView { delimiter: delimiter@, ..self@ }),
    {
        let mut op = self;
        op.delimiter = delimiter.to_owned();
        op
    }

    /// The delimiter.
    pub fn delimiter(&self) -> (r: &str)
        ensures
            r@ == self@.delimiter,
    {
        self.delimiter.as_str()
    }

    /// Sets the page size.
    pub fn with_limit(self, limit: usize) -> (r: OpList)
        ensures
            r@ == (OpListView { limit: Some(limit), ..self@ }),
    {
        let mut op = self;
        op.limit = Some(limit);
        op
    }

    /// The page size, where one is set.
    pub fn limit(&self) -> (r: Option<usize>)
        ensures
            r == self@.limit,
    {
        self.limit
    }

    /// Starts the listing after `path`.
    pub fn with_start_after(self, path: &str) -> (r: OpList)
        ensures
            r@ == (OpListView { start_after: Some(path@), ..self@ }),
    {
        let mut op = self;
        op.start_after = Some(path.to_owned());
        op
    }

    /// The path after which the listing starts.
    pub fn start_after(&self) -> (r: Option<&str>)
        ensures
            match r {
                Some(t) => self@.start_after == Some(t@),
                None => self@.start_after is None,
            },
    {
        borrow_text(&self.start_after)
    }
}

/// The arguments of `stat`. There are none yet.
#[derive(Clone, Copy, Debug, Default)]
pub struct OpStat {}

impl OpStat {
    /// The arguments of a plain `stat`.
    pub fn new() -> OpStat {
        OpStat {  }
    }
}

/// The arguments of `delete`. There are none yet.
#[derive(Clone, Copy, Debug, Default)]
pub struct OpDelete {}

impl OpDelete {
    /// The arguments of a plain `delete`.
    pub fn new() -> OpDelete {
        OpDelete {  }
    }
}

/// The arguments of `create_dir`. There are none yet.
#[derive(Clone, Copy, Debug, Default)]
pub struct OpCreateDir {}

impl OpCreateDir {
    /// The arguments of a plain `create_dir`.
    pub fn new() -> OpCreateDir {
        OpCreateDir {  }
    }
}

/// The arguments of `copy`. There are none yet.
#[derive(Clone, Copy, Debug, Default)]
pub struct OpCopy {}

impl OpCopy {
    /// The arguments of a plain `copy`.
    pub fn new() -> OpCopy {
        OpCopy {  }
    }
}

/// The arguments of `rename`. There are none yet.
#[derive(Clone, Copy, Debug, Default)]
pub struct OpRename {}

impl OpRename {
    /// The arguments of a plain `rename`.
    pub fn new() -> OpRename {
        OpRename {  }
    }
}

} // verus!

verus! {

/// One operation of a batch.
#[derive(Clone, Copy, Debug)]
pub enum BatchOperation {
    /// Delete the path that the operation stands beside.
    Delete(OpDelete),
}

/// The paths of a batch, in order.
pub open spec fn batch_paths(ops: Seq<(String, BatchOperation)>) -> Seq<Seq<char>> {
    ops.map_values(|p: (String, BatchOperation)| p.0@)
}

/// The arguments of `batch`: paths, each with what is to be done to it. The
/// view is the paths in order; every operation is a delete.
#[derive(Debug)]
pub struct OpBatch {
    ops: Vec<(String, BatchOperation)>,
}

impl View for OpBatch {
    type V = Seq<Seq<char>>;

    closed spec fn view(&self) -> Seq<Seq<char>> {
        batch_paths(self.ops@)
    }
}

impl OpBatch {
    /// A batch of the given operations.
    pub fn new(ops: Vec<(String, BatchOperation)>) -> (r: OpBatch)
        ensures
            r@ == batch_paths(ops@),
    {
        OpBatch { ops }
    }

    /// The operations, in order.
    pub fn operation(&self) -> (r: &Vec<(String, BatchOperation)>)
        ensures
            batch_paths(r@) == self@,
    {
        &self.ops
    }

    /// The operations, in order.
    pub fn into_operation(self) -> (r: Vec<(String, BatchOperation)>)
        ensures
            batch_paths(r@) == self@,
    {
        self.ops
    }
}

/// The operation that a presigned request will stand for.
#[derive(Debug)]
pub enum PresignOperation {
    Stat(OpStat),
    Read(OpRead),
    Write(OpWrite),
}

/// The arguments of `presign`.
#[derive(Debug)]
pub struct OpPresign {
    expire: std::time::Duration,
    op: PresignOperation,
}

impl OpPresign {
    /// Asks for a request that stands for `op` and expires after `expire`.
    pub fn new(op: PresignOperation, expire: std::time::Duration) -> (r: OpPresign)
        ensures
            r.spec_operation() == op,
            r.spec_expire() == expire,
    {
        OpPresign { expire, op }
    }

    /// The operation to presign.
    pub closed spec fn spec_operation(&self) -> PresignOperation {
        self.op
    }

    /// The time after which the request expires.
    pub closed spec fn spec_expire(&self) -> std::time::Duration {
        self.expire
    }

    /// The operation to presign.
    pub fn operation(&self) -> (r: &PresignOperation)
        ensures
            *r == self.spec_operation(),
    {
        &self.op
    }

    /// The time after which the request expires.
    pub fn expire(&self) -> (r: std::time::Duration)
        ensures
            r == self.spec_expire(),
    {
        self.expire
    }
}

} // verus!
