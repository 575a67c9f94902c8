//! The replies of each operation.

use crate::metadata::{EntryMode, Metadata, MetadataView, Metakey};
use vstd::prelude::*;

verus! {

/// The reply to `read`: what is known of the bytes that the reader will yield.
/// Its view is the view of that metadata.
#[derive(Debug)]
pub struct RpRead {
    meta: Metadata,
}

impl View for RpRead {
    type V = MetadataView;

    closed spec fn view(&self) -> MetadataView {
        self.meta@
    }
}

impl RpRead {
    /// The reply for a reader that will yield `content_length` bytes of a
    /// file: the mode and the length are vouched for, and nothing else is
    /// known.
    pub fn new(content_length: u64) -> (r: RpRead)
        ensures
            r@ == (MetadataView {
                content_length: Some(content_length),
                bit: r@.bit,
                ..Metadata::spec_new(EntryMode::FILE)
            }),
            forall|k: Metakey|
                r@.bit.has(k) == (k == Metakey::Mode || k == Metakey::ContentLength),
    {
        RpRead { meta: Metadata::new(EntryMode::FILE).with_content_length(content_length) }
    }

    /// The reply that carries `meta`.
    pub fn with_metadata(meta: Metadata) -> (r: RpRead)
        ensures
            r@ == meta@,
    {
        RpRead { meta }
    }

    /// What is known of the bytes to come.
    pub fn metadata(&self) -> (r: &Metadata)
        ensures
            r@ == self@,
    {
        &self.meta
    }

    /// What is known of the bytes to come.
    pub fn into_metadata(self) -> (r: Metadata)
        ensures
            r@ == self@,
    {
        self.meta
    }
}

/// The reply to `stat`: the object's metadata, which is also its view.
#[derive(Debug)]
pub struct RpStat {
    meta: Metadata,
}

impl View for RpStat {
    type V = MetadataView;

    closed spec fn view(&self) -> MetadataView {
        self.meta@
    }
}

impl RpStat {
    /// The reply that carries `meta`.
    pub fn new(meta: Metadata) -> (r: RpStat)
        ensures
            r@ == meta@,
    {
        RpStat { meta }
    }

    /// The object's metadata.
    pub fn into_metadata(self) -> (r: Metadata)
        ensures
            r@ == self@,
    {
        self.meta
    }

    /// The same reply with every attribute marked authoritative.
    pub fn into_complete(self) -> (r: RpStat)
        ensures
            self@.completed_by(r@),
    {
        let bit = self.meta.bit().with(Metakey::Complete);
        RpStat { meta: self.meta.with_bit(bit) }
    }
}

/// The reply to `write`.
#[derive(Clone, Copy, Debug, Default)]
pub struct RpWrite {}

/// The reply to `append`.
#[derive(Clone, Copy, Debug, Default)]
pub struct RpAppend {}

/// The reply to `list`.
#[derive(Clone, Copy, Debug, Default)]
pub struct RpList {}

/// The reply to `delete`.
#[derive(Clone, Copy, Debug, Default)]
pub struct RpDelete {}

/// The reply to `create_dir`.
#[derive(Clone, Copy, Debug, Default)]
pub struct RpCreateDir {}

/// The reply to `copy`.
#[derive(Clone, Copy, Debug, Default)]
pub struct RpCopy {}

/// The reply to `rename`.
#[derive(Clone, Copy, Debug, Default)]
pub struct RpRename {}

} // verus!

verus! {

/// The reply to one operation of a batch.
#[derive(Clone, Copy, Debug)]
pub enum BatchedReply {
    Delete(RpDelete),
}

/// The reply to `batch`: for each path, in the order of the request, what
/// became of its operation.
#[derive(Debug)]
pub struct RpBatch {
    results: Vec<(String, Result<BatchedReply, crate::error::Error>)>,
}

impl RpBatch {
    /// The reply that carries `results`.
    pub fn new(results: Vec<(String, Result<BatchedReply, crate::error::Error>)>) -> (r: RpBatch)
        ensures
            r.spec_results() == results,
    {
        RpBatch { results }
    }

    /// The results, in order.
    pub closed spec fn spec_results(&self) -> Vec<
        (String, Result<BatchedReply, crate::error::Error>),
    > {
        self.results
    }

    /// The results, in order.
    pub fn into_results(self) -> (r: Vec<(String, Result<BatchedReply, crate::error::Error>)>)
        ensures
            r == self.spec_results(),
    {
        self.results
    }
}

/// A request that anyone may send until it expires.
#[derive(Debug)]
pub struct PresignedRequest {
    method: String,
    uri: String,
    headers: Vec<(String, String)>,
}

/// A presigned request as contracts see it.
pub struct PresignedRequestView {
    pub method: Seq<char>,
    pub uri: Seq<char>,
    pub headers: Seq<(Seq<char>, Seq<char>)>,
}

impl View for PresignedRequest {
    type V = PresignedRequestView;

    closed spec fn view(&self) -> PresignedRequestView {
        PresignedRequestView {
            method: self.method@,
            uri: self.uri@,
            headers: crate::error::pairs_view(self.headers@),
        }
    }
}

impl PresignedRequest {
    /// The request with the given method, address and headers.
    pub fn new(method: &str, uri: &str, headers: Vec<(String, String)>) -> (r: PresignedRequest)
        ensures
            r@ == (PresignedRequestView {
                method: method@,
                uri: uri@,
                headers: crate::error::pairs_view(headers@),
            }),
    {
        PresignedRequest { method: method.to_owned(), uri: uri.to_owned(), headers }
    }

    /// The request's method.
    pub fn method(&self) -> (r: &str)
        ensures
            r@ == self@.method,
    {
        self.method.as_str()
    }

    /// The request's address.
    pub fn uri(&self) -> (r: &str)
        ensures
            r@ == self@.uri,
    {
        self.uri.as_str()
    }

    /// The request's headers.
    pub fn header(&self) -> (r: &Vec<(String, String)>)
        ensures
            crate::error::pairs_view(r@) == self@.headers,
    {
        &self.headers
    }
}

/// The reply to `presign`; its view is the view of the request.
#[derive(Debug)]
pub struct RpPresign {
    req: PresignedRequest,
}

impl View for RpPresign {
    type V = PresignedRequestView;

    closed spec fn view(&self) -> PresignedRequestView {
        self.req@
    }
}

impl RpPresign {
    /// The reply that carries `req`.
    pub fn new(req: PresignedRequest) -> (r: RpPresign)
        ensures
            r@ == req@,
    {
        RpPresign { req }
    }

    /// The presigned request.
    pub fn into_presigned_request(self) -> (r: PresignedRequest)
        ensures
            r@ == self@,
    {
        self.req
    }
}

} // verus!
