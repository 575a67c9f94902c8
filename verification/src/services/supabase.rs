//! Supabase storage: the configuration of the backend and what it makes of
//! the service's answers. Sending the requests is left to the caller, who
//! hands the status of each answer in.

use crate::capability::{AccessorInfo, AccessorInfoView, Capability, Scheme};
use crate::error::{pairs_view, plain_error, Error, ErrorKind};
use crate::metadata::{text_view, EntryMode, Metadata};
use crate::ops::OpWrite;
use crate::raw::path::{collapse, collapse_slashes};
use crate::raw::rps::{RpCreateDir, RpDelete, RpRead, RpStat};
use crate::text::{ends_with_slash, has_trailing_slash, joined, same_text, take_chars};
use std::sync::Arc;
use vstd::prelude::*;
use vstd::string::StringExecFns;

verus! {

/// The status of an answer that carries what was asked for.
pub const STATUS_OK: u16 = 200;

/// The status of an answer that carries a part of what was asked for.
pub const STATUS_PARTIAL_CONTENT: u16 = 206;

/// The status of an answer for something that does not exist.
pub const STATUS_NOT_FOUND: u16 = 404;

/// Whether a status stands for success. Wraps `StatusCode::from_u16` and
/// `StatusCode::is_success` of the `http` crate: the first takes the numbers
/// from 100 to 999, the second holds of those from 200 to 299.
#[verifier::external_body]
fn status_is_success(code: u16) -> (r: bool)
    ensures
        r == (200 <= code < 300),
{
    match http::StatusCode::from_u16(code) {
        Ok(status) => status.is_success(),
        Err(_) => false,
    }
}

/// `s` without the slashes at its end.
pub open spec fn without_trailing_slashes(s: Seq<char>) -> Seq<char>
    decreases s.len(),
{
    if ends_with_slash(s) {
        without_trailing_slashes(s.drop_last())
    } else {
        s
    }
}

/// The root under which a backend works, made from what was configured: a
/// slash, the directories with one slash between them, and a slash.
pub open spec fn normalized_root(root: Seq<char>) -> Seq<char> {
    let c = collapse(root);
    if c.len() == 0 {
        "/"@
    } else if ends_with_slash(c) {
        "/"@ + c
    } else {
        "/"@ + c + "/"@
    }
}

/// Brings a configured root into its normal form.
pub fn normalize_root(root: &str) -> (r: String)
    ensures
        r@ == normalized_root(root@),
{
    let out = collapse_slashes(root);
    let last_is_slash = has_trailing_slash(out.as_str());
    if out.as_str().is_empty() {
        "/".to_owned()
    } else if last_is_slash {
        joined("/", out.as_str())
    } else {
        let mut r = joined("/", out.as_str());
        r.append("/");
        r
    }
}

/// A builder as contracts see it.
pub struct SupabaseBuilderView<C> {
    pub root: Option<Seq<char>>,
    pub bucket: Seq<char>,
    pub endpoint: Option<Seq<char>>,
    pub key: Option<Seq<char>>,
    pub http_client: Option<C>,
}

/// The configuration of a Supabase backend: `root`, the directory to work
/// under; `bucket`; `endpoint`, the service's address; `key`, which is left
/// unset for reading public buckets; and the client that sends the requests.
pub struct SupabaseBuilder<C> {
    root: Option<String>,
    bucket: String,
    endpoint: Option<String>,
    key: Option<String>,
    http_client: Option<C>,
}

impl<C> View for SupabaseBuilder<C> {
    type V = SupabaseBuilderView<C>;

    closed spec fn view(&self) -> SupabaseBuilderView<C> {
        SupabaseBuilderView {
            root: text_view(self.root),
            bucket: self.bucket@,
            endpoint: text_view(self.endpoint),
            key: text_view(self.key),
            http_client: self.http_client,
        }
    }
}

impl<C> Default for SupabaseBuilder<C> {
    fn default() -> (r: SupabaseBuilder<C>)
        ensures
            r@ == (SupabaseBuilderView {
                root: None,
                bucket: Seq::empty(),
                endpoint: None,
                key: None,
                http_client: None::<C>,
            }),
    {
        SupabaseBuilder {
            root: None,
            bucket: String::new(),
            endpoint: None,
            key: None,
            http_client: None,
        }
    }
}

/// The value that a list of settings gives to `key`: that of the last pair
/// with this key.
pub open spec fn setting(pairs: Seq<(Seq<char>, Seq<char>)>, key: Seq<char>) -> Option<Seq<char>>
    decreases pairs.len(),
{
    if pairs.len() == 0 {
        None
    } else if pairs.last().0 == key {
        Some(pairs.last().1)
    } else {
        setting(pairs.drop_last(), key)
    }
}

fn look_up<'a>(map: &'a Vec<(String, String)>, key: &str) -> (r: Option<&'a str>)
    ensures
        match r {
            Some(v) => setting(pairs_view(map@), key@) == Some(v@),
            None => setting(pairs_view(map@), key@) is None,
        },
{
    let ghost all = pairs_view(map@);
    let mut i: usize = map.len();
    proof {
        assert(all.take(i as int) =~= all);
    }
    while i > 0
        invariant
            all == pairs_view(map@),
            i <= map.len(),
            setting(all, key@) == setting(all.take(i as int), key@),
        decreases i,
    {
        i -= 1;
        proof {
            assert(all.take(i + 1).last() == all[i as int]);
            assert(all.take(i + 1).drop_last() =~= all.take(i as int));
            assert(all[i as int] == (map[i as int].0@, map[i as int].1@));
        }
        if same_text(map[i].0.as_str(), key) {
            return Some(map[i].1.as_str());
        }
    }
    None
}

impl<C> SupabaseBuilder<C> {
    /// A builder with the settings of `map`, a list of keys and values in
    /// which a later pair overrides an earlier one. The keys are `root`,
    /// `bucket`, `endpoint` and `key`; each setting is taken as by the method
    /// of that name.
    pub fn from_map(map: &Vec<(String, String)>) -> (r: SupabaseBuilder<C>)
        ensures
            r@ == (SupabaseBuilderView {
                root: match setting(pairs_view(map@), "root"@) {
                    Some(v) => if v.len() == 0 {
                        None
                    } else {
                        Some(v)
                    },
                    None => None,
                },
                bucket: match setting(pairs_view(map@), "bucket"@) {
                    Some(v) => v,
                    None => Seq::empty(),
                },
                endpoint: match setting(pairs_view(map@), "endpoint"@) {
                    Some(v) => if v.len() == 0 {
                        None
                    } else {
                        Some(without_trailing_slashes(v))
                    },
                    None => None,
                },
                key: setting(pairs_view(map@), "key"@),
                http_client: None::<C>,
            }),
    {
        let mut builder: SupabaseBuilder<C> = SupabaseBuilder::default();
        match look_up(map, "root") {
            Some(v) => {
                builder.root(v);
            },
            None => {},
        }
        match look_up(map, "bucket") {
            Some(v) => {
                builder.bucket(v);
            },
            None => {},
        }
        match look_up(map, "endpoint") {
            Some(v) => {
                builder.endpoint(v);
            },
            None => {},
        }
        match look_up(map, "key") {
            Some(v) => {
                builder.key(v);
            },
            None => {},
        }
        builder
    }

    /// Sets the directory under which the backend works. An empty root unsets
    /// it.
    pub fn root(&mut self, root: &str) -> (r: &mut Self)
        ensures
            *final(self) == *final(r),
            r@ == (SupabaseBuilderView {
                root: if root@.len() == 0 {
                    None
                } else {
                    Some(root@)
                },
                ..old(self)@
            }),
    {
        self.root = if root.is_empty() {
            None
        } else {
            Some(root.to_owned())
        };
        self
    }

    /// Sets the bucket.
    pub fn bucket(&mut self, bucket: &str) -> (r: &mut Self)
        ensures
            *final(self) == *final(r),
            r@ == (SupabaseBuilderView { bucket: bucket@, ..old(self)@ }),
    {
        self.bucket = bucket.to_owned();
        self
    }

    /// Sets the service's address, without the slashes at its end. An empty
    /// address unsets it.
    pub fn endpoint(&mut self, endpoint: &str) -> (r: &mut Self)
        ensures
            *final(self) == *final(r),
            r@ == (SupabaseBuilderView {
                endpoint: if endpoint@.len() == 0 {
                    None
                } else {
                    Some(without_trailing_slashes(endpoint@))
                },
                ..old(self)@
            }),
    {
        self.endpoint = if endpoint.is_empty() {
            None
        } else {
            let mut n = endpoint.unicode_len();
            proof {
                assert(endpoint@.take(n as int) =~= endpoint@);
            }
            while n > 0 && endpoint.get_char(n - 1) == '/'
                invariant
                    n <= endpoint@.len(),
                    without_trailing_slashes(endpoint@) == without_trailing_slashes(
                        endpoint@.take(n as int),
                    ),
                decreases n,
            {
                proof {
                    assert(endpoint@.take(n as int).drop_last() =~= endpoint@.take(n - 1));
                }
                n -= 1;
            }
            Some(take_chars(endpoint, n))
        };
        self
    }

    /// Sets the key that authorizes the requests.
    pub fn key(&mut self, key: &str) -> (r: &mut Self)
        ensures
            *final(self) == *final(r),
            r@ == (SupabaseBuilderView { key: Some(key@), ..old(self)@ }),
    {
        self.key = Some(key.to_owned());
        self
    }

    /// Sets the client that sends the requests.
    pub fn http_client(&mut self, client: C) -> (r: &mut Self)
        ensures
            *final(self) == *final(r),
            r@ == (SupabaseBuilderView { http_client: Some(client), ..old(self)@ }),
    {
        self.http_client = Some(client);
        self
    }

    /// Makes the backend. The root, the endpoint and the client leave the
    /// builder; `fallback` is the client of a backend for which none was set.
    pub fn build(&mut self, fallback: C) -> (r: SupabaseBackend<C>)
        ensures
            r@ == (SupabaseBackendView {
                root: normalized_root(
                    match old(self)@.root {
                        Some(root) => root,
                        None => Seq::empty(),
                    },
                ),
                bucket: old(self)@.bucket,
                endpoint: match old(self)@.endpoint {
                    Some(endpoint) => endpoint,
                    None => Seq::empty(),
                },
                key: old(self)@.key,
                http_client: match old(self)@.http_client {
                    Some(client) => client,
                    None => fallback,
                },
            }),
            final(self)@ == (SupabaseBuilderView {
                root: None,
                endpoint: None,
                http_client: None,
                ..old(self)@
            }),
    {
        let root = match self.root.take() {
            Some(root) => normalize_root(root.as_str()),
            None => normalize_root(""),
        };
        let endpoint = match self.endpoint.take() {
            Some(endpoint) => endpoint,
            None => String::new(),
        };
        let http_client = match self.http_client.take() {
            Some(client) => client,
            None => fallback,
        };
        let key = match &self.key {
            Some(key) => Some(key.clone()),
            None => None,
        };
        proof {
            reveal_strlit("");
            assert(""@ =~= Seq::<char>::empty());
        }
        let core = SupabaseCore { root, bucket: self.bucket.clone(), endpoint, key, http_client };
        SupabaseBackend { core: Arc::new(core) }
    }
}

/// What every request of a backend needs.
pub struct SupabaseCore<C> {
    pub root: String,
    pub bucket: String,
    pub endpoint: String,
    pub key: Option<String>,
    pub http_client: C,
}

/// A backend as contracts see it.
pub struct SupabaseBackendView<C> {
    pub root: Seq<char>,
    pub bucket: Seq<char>,
    pub endpoint: Seq<char>,
    pub key: Option<Seq<char>>,
    pub http_client: C,
}

/// A Supabase backend: it stats, reads, writes, creates directories and
/// deletes.
pub struct SupabaseBackend<C> {
    core: Arc<SupabaseCore<C>>,
}

impl<C> View for SupabaseBackend<C> {
    type V = SupabaseBackendView<C>;

    closed spec fn view(&self) -> SupabaseBackendView<C> {
        SupabaseBackendView {
            root: self.core.root@,
            bucket: self.core.bucket@,
            endpoint: self.core.endpoint@,
            key: text_view(self.core.key),
            http_client: self.core.http_client,
        }
    }
}

/// What a Supabase backend supports.
pub open spec fn supabase_capability() -> Capability {
    Capability {
        stat: true,
        read: true,
        write: true,
        create_dir: true,
        delete: true,
        ..Capability::nothing()
    }
}

/// The error of a write whose size is not declared.
pub open spec fn undeclared_length_error() -> crate::error::ErrorView {
    plain_error(ErrorKind::Unsupported, "write without content length is not supported"@)
}

impl<C> SupabaseBackend<C> {
    /// What every request of the backend needs.
    pub fn shared(&self) -> (r: &Arc<SupabaseCore<C>>)
        ensures
            r.root@ == self@.root,
            r.bucket@ == self@.bucket,
            r.endpoint@ == self@.endpoint,
            text_view(r.key) == self@.key,
            r.http_client == self@.http_client,
    {
        &self.core
    }

    /// Who the backend is and what it supports.
    pub fn info(&self) -> (r: AccessorInfo)
        ensures
            r@ == (AccessorInfoView {
                scheme: Scheme::Supabase,
                root: self@.root,
                name: self@.bucket,
                capability: supabase_capability(),
            }),
    {
        let capability = Capability {
            stat: true,
            read: true,
            write: true,
            create_dir: true,
            delete: true,
            ..Capability::default()
        };
        AccessorInfo::new(
            Scheme::Supabase,
            self.core.root.as_str(),
            self.core.bucket.as_str(),
            capability,
        )
    }

    /// What becomes of `create_dir` when the service answers the upload of an
    /// empty object with `status`, where `failure` is the error that the
    /// answer stands for if it is no success. A directory that exists already
    /// counts as created.
    pub fn settle_create_dir(status: u16, failure: Error) -> (res: Result<RpCreateDir, Error>)
        ensures
            match res {
                Ok(_) => 200 <= status < 300 || failure@.kind == ErrorKind::AlreadyExists,
                Err(e) => !(200 <= status < 300) && failure@.kind != ErrorKind::AlreadyExists
                    && e == failure,
            },
    {
        if status_is_success(status) {
            Ok(RpCreateDir {  })
        } else if failure.kind() == ErrorKind::AlreadyExists {
            Ok(RpCreateDir {  })
        } else {
            Err(failure)
        }
    }

    /// What becomes of `read` when the service answers with `status`, where
    /// `meta` is what the answer's headers say and `failure` the error that
    /// the answer stands for otherwise: the whole object and a part of it are
    /// both what was asked for.
    pub fn settle_read(status: u16, meta: Metadata, failure: Error) -> (res: Result<RpRead, Error>)
        ensures
            match res {
                Ok(rp) => (status == STATUS_OK || status == STATUS_PARTIAL_CONTENT) && rp@
                    == meta@,
                Err(e) => status != STATUS_OK && status != STATUS_PARTIAL_CONTENT && e == failure,
            },
    {
        if status == STATUS_OK || status == STATUS_PARTIAL_CONTENT {
            Ok(RpRead::with_metadata(meta))
        } else {
            Err(failure)
        }
    }

    /// Whether a write may be started: only with a declared size.
    pub fn check_write(args: &OpWrite) -> (res: Result<(), Error>)
        ensures
            match res {
                Ok(_) => args@.content_length is Some,
                Err(e) => args@.content_length is None && e@ == undeclared_length_error(),
            },
    {
        if args.content_length().is_none() {
            return Err(
                Error::new(
                    ErrorKind::Unsupported,
                    "write without content length is not supported",
                ),
            );
        }
        Ok(())
    }

    /// What `stat` answers without asking the service: the root is a
    /// directory.
    pub fn stat_without_request(path: &str) -> (res: Option<RpStat>)
        ensures
            match res {
                Some(rp) => path@ == "/"@ && rp@ == Metadata::spec_new(EntryMode::DIR),
                None => path@ != "/"@,
            },
    {
        if same_text(path, "/") {
            Some(RpStat::new(Metadata::new(EntryMode::DIR)))
        } else {
            None
        }
    }

    /// What becomes of `stat` when the service answers the request for the
    /// object's head with `status`, where `meta` is what the answer's headers
    /// say: the metadata on success; else `None`, and the object's
    /// information is asked for.
    pub fn settle_stat_head(status: u16, meta: Metadata) -> (res: Option<RpStat>)
        ensures
            match res {
                Some(rp) => status == STATUS_OK && rp@ == meta@,
                None => status != STATUS_OK,
            },
    {
        if status == STATUS_OK {
            Some(RpStat::new(meta))
        } else {
            None
        }
    }

    /// What becomes of `stat` when the service answers the request for the
    /// object's information with `status`, where `failure` is the error that
    /// the answer stands for: a directory that the service does not know is a
    /// directory all the same, and everything else is the error.
    pub fn settle_stat_info(path: &str, status: u16, failure: Error) -> (res: Result<
        RpStat,
        Error,
    >)
        ensures
            match res {
                Ok(rp) => status == STATUS_NOT_FOUND && ends_with_slash(path@) && rp@
                    == Metadata::spec_new(EntryMode::DIR),
                Err(e) => !(status == STATUS_NOT_FOUND && ends_with_slash(path@)) && e == failure,
            },
    {
        if status == STATUS_NOT_FOUND && has_trailing_slash(path) {
            Ok(RpStat::new(Metadata::new(EntryMode::DIR)))
        } else {
            Err(failure)
        }
    }

    /// What becomes of `delete` when the service answers with `status`, where
    /// `failure` is the error that the answer stands for if it is no success.
    /// An object that does not exist counts as deleted.
    pub fn settle_delete(status: u16, failure: Error) -> (res: Result<RpDelete, Error>)
        ensures
            match res {
                Ok(_) => 200 <= status < 300 || failure@.kind == ErrorKind::NotFound,
                Err(e) => !(200 <= status < 300) && failure@.kind != ErrorKind::NotFound && e
                    == failure,
            },
    {
        if status_is_success(status) {
            Ok(RpDelete {  })
        } else if failure.kind() == ErrorKind::NotFound {
            Ok(RpDelete {  })
        } else {
            Err(failure)
        }
    }
}

} // verus!
