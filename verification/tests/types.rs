use opendal::capability::{AccessorInfo, Capability, Scheme};
use opendal::error::{Error, ErrorKind};
use opendal::metadata::{EntryMode, Metadata, Metakey, MetakeySet};
use opendal::ops::{BytesRange, OpAppend, OpList, OpRead, OpWrite};
use opendal::raw::path::{collapse_slashes, normalize_path, normalize_trimmed, validate_path};
use opendal::raw::rps::{RpRead, RpStat};
use opendal::text::{
    decimal, find_char, has_trailing_slash, joined, same_text, starts_with, take_chars,
};
use opendal::Entry;

const ALL_KEYS: [Metakey; 11] = [
    Metakey::Complete,
    Metakey::Mode,
    Metakey::CacheControl,
    Metakey::ContentDisposition,
    Metakey::ContentLength,
    Metakey::ContentMd5,
    Metakey::ContentRange,
    Metakey::ContentType,
    Metakey::Etag,
    Metakey::LastModified,
    Metakey::Version,
];

#[test]
fn error_kinds_have_names() {
    let kinds = [
        (ErrorKind::Unexpected, "Unexpected"),
        (ErrorKind::Unsupported, "Unsupported"),
        (ErrorKind::NotFound, "NotFound"),
        (ErrorKind::AlreadyExists, "AlreadyExists"),
        (ErrorKind::NotADirectory, "NotADirectory"),
        (ErrorKind::IsADirectory, "IsADirectory"),
        (ErrorKind::IsSameFile, "IsSameFile"),
        (ErrorKind::PermissionDenied, "PermissionDenied"),
        (ErrorKind::ContentTruncated, "ContentTruncated"),
        (ErrorKind::ContentIncomplete, "ContentIncomplete"),
        (ErrorKind::ConditionNotMatch, "ConditionNotMatch"),
        (ErrorKind::RateLimited, "RateLimited"),
    ];
    for (kind, name) in kinds {
        assert_eq!(kind.into_static(), name);
    }
}

#[test]
fn error_carries_operation_and_context() {
    let e = Error::new(ErrorKind::NotFound, "gone");
    assert_eq!(e.kind(), ErrorKind::NotFound);
    assert_eq!(e.message(), "gone");
    assert_eq!(e.operation(), "");
    assert!(e.context().is_empty());
    let e = e.with_context("path", "a/b").with_operation("stat").with_context("service", "fs");
    assert_eq!(e.operation(), "stat");
    assert_eq!(
        e.context(),
        &vec![
            ("path".to_string(), "a/b".to_string()),
            ("service".to_string(), "fs".to_string())
        ]
    );
    let e = e.with_operation("read");
    assert_eq!(e.operation(), "read");
    assert_eq!(e.context().len(), 3);
    assert_eq!(e.context()[2], ("called".to_string(), "stat".to_string()));
    assert_eq!(e.message(), "gone");
}

#[test]
fn metakey_sets_are_sets() {
    let empty = MetakeySet::empty();
    for k in ALL_KEYS {
        assert!(!empty.contains_key(k));
        let one = MetakeySet::only(k);
        for l in ALL_KEYS {
            assert_eq!(one.contains_key(l), k == l);
        }
        assert!(one.contains(empty));
        assert!(one.contains(one));
        assert_eq!(empty.contains(one), false);
    }
    let a = MetakeySet::only(Metakey::Etag).with(Metakey::Mode);
    let b = MetakeySet::only(Metakey::ContentLength).with(Metakey::Mode);
    let both = a.union(b);
    for k in ALL_KEYS {
        assert_eq!(both.contains_key(k), a.contains_key(k) || b.contains_key(k));
    }
    assert!(both.contains(a) && both.contains(b));
    assert!(!a.contains(b) && !b.contains(a));
    assert!(a.contains(MetakeySet::only(Metakey::Mode)));
    assert_eq!(a.with(Metakey::Etag), a);
    assert!(empty.contains(empty));
}

#[test]
fn metadata_vouches_for_what_is_set() {
    let m = Metadata::new(EntryMode::FILE);
    assert_eq!(m.mode(), EntryMode::FILE);
    assert!(m.is_file() && !m.is_dir());
    assert_eq!(m.bit(), MetakeySet::only(Metakey::Mode));
    assert_eq!(m.content_length(), 0);
    assert_eq!(m.content_type(), None);
    assert_eq!(m.etag(), None);
    assert_eq!(m.last_modified(), None);
    let m = m
        .with_content_length(12)
        .with_content_type("text/plain")
        .with_etag("abc")
        .with_last_modified(1_700_000_000);
    assert_eq!(m.content_length(), 12);
    assert_eq!(m.content_type(), Some("text/plain"));
    assert_eq!(m.etag(), Some("abc"));
    assert_eq!(m.last_modified(), Some(1_700_000_000));
    for k in ALL_KEYS {
        let set = matches!(
            k,
            Metakey::Mode
                | Metakey::ContentLength
                | Metakey::ContentType
                | Metakey::Etag
                | Metakey::LastModified
        );
        assert_eq!(m.bit().contains_key(k), set);
    }
    let copy = m.clone();
    assert_eq!(copy.etag(), Some("abc"));
    assert_eq!(copy.bit(), m.bit());
    let m = m.with_bit(MetakeySet::only(Metakey::Complete));
    assert_eq!(m.bit(), MetakeySet::only(Metakey::Complete));
    assert_eq!(m.content_length(), 12);
}

#[test]
fn directories_are_complete_from_the_start() {
    let d = Metadata::new(EntryMode::DIR);
    assert!(d.is_dir());
    assert_eq!(d.bit(), MetakeySet::only(Metakey::Mode).with(Metakey::Complete));
    let u = Metadata::new(EntryMode::Unknown);
    assert!(!u.is_dir() && !u.is_file());
    assert!(!u.bit().contains_key(Metakey::Complete));
    assert!(EntryMode::DIR.is_dir() && !EntryMode::DIR.is_file());
    assert!(EntryMode::FILE.is_file() && !EntryMode::Unknown.is_file());
}

#[test]
fn entries_hold_path_and_metadata() {
    let e = Entry::new("dir/a", Metadata::new(EntryMode::FILE).with_content_length(3));
    assert_eq!(e.path(), "dir/a");
    assert_eq!(e.mode(), EntryMode::FILE);
    assert_eq!(e.metadata().content_length(), 3);
    let c = e.clone();
    assert_eq!(c.path(), "dir/a");
    assert_eq!(c.metadata().content_length(), 3);
}

#[test]
fn capability_defaults_to_nothing() {
    let c = Capability::default();
    assert!(!c.stat && !c.read && !c.read_can_seek && !c.read_can_next && !c.write);
    assert!(!c.list && !c.list_with_delimiter_slash && !c.list_without_delimiter);
    assert!(!c.batch && !c.blocking && !c.presign && !c.copy && !c.rename);
    assert_eq!(c.batch_max_operations, None);
    let done = Capability { read: true, batch_max_operations: Some(5), ..c }.complete();
    assert!(done.read_can_seek && done.read_can_next);
    assert!(done.list_with_delimiter_slash && done.list_without_delimiter);
    assert!(done.read && !done.list && !done.write);
    assert_eq!(done.batch_max_operations, Some(5));
}

#[test]
fn schemes_have_tags() {
    let tags = [
        (Scheme::Azblob, "azblob"),
        (Scheme::Fs, "fs"),
        (Scheme::Gcs, "gcs"),
        (Scheme::Http, "http"),
        (Scheme::Memory, "memory"),
        (Scheme::Supabase, "supabase"),
        (Scheme::Custom("mine"), "mine"),
    ];
    for (scheme, tag) in tags {
        assert_eq!(scheme.into_static(), tag);
    }
    let info = AccessorInfo::new(Scheme::Gcs, "/root/", "bucket", Capability::default());
    assert_eq!(info.scheme(), Scheme::Gcs);
    assert_eq!(info.root(), "/root/");
    assert_eq!(info.name(), "bucket");
    let info = info.with_capability(Capability { stat: true, ..Capability::default() });
    assert!(info.capability().stat);
    assert_eq!(info.clone().name(), "bucket");
}

#[test]
fn operation_arguments_hold_what_is_set() {
    let r = OpRead::new();
    assert!(r.range().is_full());
    assert_eq!(r.if_match(), None);
    let r = r
        .with_range(BytesRange::new(Some(1), Some(2)))
        .with_if_match("a")
        .with_if_none_match("b")
        .with_override_content_disposition("c")
        .with_override_cache_control("d");
    assert_eq!(r.range().offset(), Some(1));
    assert_eq!(r.range().size(), Some(2));
    assert!(!r.range().is_full());
    assert_eq!(r.if_match(), Some("a"));
    assert_eq!(r.if_none_match(), Some("b"));
    assert_eq!(r.override_content_disposition(), Some("c"));
    assert_eq!(r.override_cache_control(), Some("d"));
    assert_eq!(r.clone().if_none_match(), Some("b"));
    assert!(OpRead::default().range().is_full());
    assert!(BytesRange::default().is_full());

    let w = OpWrite::new();
    assert_eq!(w.content_length(), None);
    let w = w
        .with_content_length(9)
        .with_content_type("t")
        .with_content_disposition("d")
        .with_cache_control("c");
    assert_eq!(w.content_length(), Some(9));
    assert_eq!(w.content_type(), Some("t"));
    assert_eq!(w.content_disposition(), Some("d"));
    assert_eq!(w.cache_control(), Some("c"));
    assert_eq!(OpWrite::default().content_type(), None);

    let l = OpList::new();
    assert_eq!(l.delimiter(), "/");
    assert_eq!(l.limit(), None);
    assert_eq!(l.start_after(), None);
    let l = l.with_delimiter("").with_limit(10).with_start_after("x");
    assert_eq!(l.delimiter(), "");
    assert_eq!(l.limit(), Some(10));
    assert_eq!(l.start_after(), Some("x"));
    assert_eq!(OpList::default().delimiter(), "/");

    assert_eq!(OpAppend::new().with_content_type("t").content_type(), Some("t"));
    assert_eq!(OpAppend::default().content_type(), None);
}

#[test]
fn replies_carry_metadata() {
    let rp = RpRead::new(7);
    assert_eq!(rp.metadata().content_length(), 7);
    assert!(rp.metadata().is_file());
    let rp = RpRead::with_metadata(Metadata::new(EntryMode::FILE).with_etag("e"));
    assert_eq!(rp.into_metadata().etag(), Some("e"));
    let st = RpStat::new(Metadata::new(EntryMode::FILE).with_content_length(3)).into_complete();
    let m = st.into_metadata();
    assert_eq!(m.content_length(), 3);
    assert_eq!(
        m.bit(),
        MetakeySet::only(Metakey::Mode).with(Metakey::ContentLength).with(Metakey::Complete)
    );
}

#[test]
fn decimal_writes_base_ten() {
    assert_eq!(decimal(0), "0");
    assert_eq!(decimal(7), "7");
    assert_eq!(decimal(10), "10");
    assert_eq!(decimal(1_234_567_890), "1234567890");
    assert_eq!(decimal(u64::MAX as u128), u64::MAX.to_string());
    assert_eq!(decimal(u64::MAX as u128 + 1), "18446744073709551616");
    assert_eq!(decimal(u128::MAX), u128::MAX.to_string());
}

#[test]
fn text_helpers_see_characters() {
    assert!(has_trailing_slash("a/"));
    assert!(has_trailing_slash("/"));
    assert!(!has_trailing_slash("a"));
    assert!(!has_trailing_slash(""));
    assert!(starts_with("dir/a", "dir/"));
    assert!(starts_with("dir/", "dir/"));
    assert!(starts_with("x", ""));
    assert!(!starts_with("dir", "dir/"));
    assert!(!starts_with("dar/a", "dir/"));
    assert_eq!(find_char("dir/b/c", 0, '/'), Some(3));
    assert_eq!(find_char("dir/b/c", 4, '/'), Some(5));
    assert_eq!(find_char("dir/b/c", 6, '/'), None);
    assert_eq!(find_char("dir", 9, '/'), None);
    assert_eq!(find_char("日本/語", 0, '/'), Some(2));
    assert_eq!(take_chars("日本/語", 3), "日本/");
    assert_eq!(take_chars("abc", 0), "");
    assert_eq!(joined("ab", "cd"), "abcd");
    assert!(same_text("a/b", "a/b"));
    assert!(!same_text("a/b", "a/c"));
    assert!(!same_text("a", "ab"));
    assert!(same_text("", ""));
}

#[test]
fn paths_are_normalized() {
    assert_eq!(normalize_path("abc/def"), "abc/def");
    assert_eq!(normalize_path(" abc/def "), "abc/def");
    assert_eq!(normalize_path("///abc"), "abc");
    assert_eq!(normalize_path("abc///def"), "abc/def");
    assert_eq!(normalize_path("abc/def/"), "abc/def/");
    assert_eq!(normalize_path("abc/def//"), "abc/def/");
    assert_eq!(normalize_path(""), "/");
    assert_eq!(normalize_path("/"), "/");
    assert_eq!(normalize_path("  \t\n"), "/");
    assert_eq!(normalize_path("//"), "/");
    assert_eq!(normalize_trimmed(" a"), " a");
    assert_eq!(normalize_trimmed("/a//b//"), "a/b/");
    assert_eq!(normalize_trimmed(""), "/");
    assert_eq!(collapse_slashes("//a//"), "a/");
    assert_eq!(collapse_slashes("///"), "");
    assert_eq!(collapse_slashes("a"), "a");
}

#[test]
fn paths_are_validated_by_mode() {
    assert!(validate_path("a/", EntryMode::DIR));
    assert!(!validate_path("a", EntryMode::DIR));
    assert!(validate_path("a", EntryMode::FILE));
    assert!(!validate_path("a/", EntryMode::FILE));
    assert!(validate_path("/", EntryMode::DIR));
    assert!(!validate_path("a", EntryMode::Unknown));
    assert!(!validate_path("a/", EntryMode::Unknown));
}
