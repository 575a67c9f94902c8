use opendal::metadata::{EntryMode, Metadata, Metakey};
use opendal::ops::OpWrite;
use opendal::services::supabase::{normalize_root, SupabaseBackend, SupabaseBuilder};
use opendal::{Error, ErrorKind, Scheme};

fn failure(kind: ErrorKind) -> Error {
    Error::new(kind, "the service said no")
}

type Backend = SupabaseBackend<&'static str>;

#[test]
fn roots_are_normalized() {
    assert_eq!(normalize_root(""), "/");
    assert_eq!(normalize_root("/"), "/");
    assert_eq!(normalize_root("a"), "/a/");
    assert_eq!(normalize_root("/a/b"), "/a/b/");
    assert_eq!(normalize_root("a//b//"), "/a/b/");
    assert_eq!(normalize_root("///"), "/");
}

#[test]
fn builder_sets_and_unsets() {
    let mut builder: SupabaseBuilder<&'static str> = SupabaseBuilder::default();
    builder
        .root("/data")
        .bucket("test_bucket")
        .endpoint("http://127.0.0.1:54321///")
        .key("some_anon_key")
        .http_client("first");
    let backend = builder.build("fallback");
    let core = backend.shared();
    assert_eq!(core.root, "/data/");
    assert_eq!(core.bucket, "test_bucket");
    assert_eq!(core.endpoint, "http://127.0.0.1:54321");
    assert_eq!(core.key.as_deref(), Some("some_anon_key"));
    assert_eq!(core.http_client, "first");

    let again = builder.build("fallback");
    let core = again.shared();
    assert_eq!(core.root, "/");
    assert_eq!(core.bucket, "test_bucket");
    assert_eq!(core.endpoint, "");
    assert_eq!(core.key.as_deref(), Some("some_anon_key"));
    assert_eq!(core.http_client, "fallback");

    let mut builder: SupabaseBuilder<&'static str> = SupabaseBuilder::default();
    builder.root("x").root("").endpoint("e").endpoint("").endpoint("///");
    let backend = builder.build("c");
    assert_eq!(backend.shared().root, "/");
    assert_eq!(backend.shared().endpoint, "");
    assert_eq!(backend.shared().key, None);
}

#[test]
fn backend_says_what_it_supports() {
    let mut builder: SupabaseBuilder<&'static str> = SupabaseBuilder::default();
    builder.root("r").bucket("b");
    let info = builder.build("c").info();
    assert_eq!(info.scheme(), Scheme::Supabase);
    assert_eq!(info.root(), "/r/");
    assert_eq!(info.name(), "b");
    let cap = info.capability();
    assert!(cap.stat && cap.read && cap.write && cap.create_dir && cap.delete);
    assert!(!cap.list && !cap.copy && !cap.rename && !cap.presign && !cap.blocking);
    assert!(!cap.read_can_seek && !cap.read_can_next && !cap.batch);
}

#[test]
fn create_dir_takes_an_existing_directory() {
    for status in [200u16, 201, 204, 299] {
        assert!(Backend::settle_create_dir(status, failure(ErrorKind::Unexpected)).is_ok());
    }
    for status in [0u16, 99, 199, 300, 400, 409, 500, 1000, u16::MAX] {
        assert!(Backend::settle_create_dir(status, failure(ErrorKind::AlreadyExists)).is_ok());
        let err = Backend::settle_create_dir(status, failure(ErrorKind::PermissionDenied))
            .unwrap_err();
        assert_eq!(err.kind(), ErrorKind::PermissionDenied);
        assert_eq!(err.message(), "the service said no");
    }
}

#[test]
fn delete_takes_a_missing_object() {
    for status in [200u16, 204] {
        assert!(Backend::settle_delete(status, failure(ErrorKind::Unexpected)).is_ok());
    }
    for status in [199u16, 300, 404, 500] {
        assert!(Backend::settle_delete(status, failure(ErrorKind::NotFound)).is_ok());
        let err = Backend::settle_delete(status, failure(ErrorKind::RateLimited)).unwrap_err();
        assert_eq!(err.kind(), ErrorKind::RateLimited);
    }
}

#[test]
fn read_takes_whole_and_partial_content() {
    for status in [200u16, 206] {
        let meta = Metadata::new(EntryMode::FILE).with_content_length(9);
        let rp = Backend::settle_read(status, meta, failure(ErrorKind::Unexpected)).unwrap();
        assert_eq!(rp.metadata().content_length(), 9);
    }
    for status in [201u16, 204, 304, 404, 416] {
        let meta = Metadata::new(EntryMode::FILE);
        let err = Backend::settle_read(status, meta, failure(ErrorKind::NotFound)).unwrap_err();
        assert_eq!(err.kind(), ErrorKind::NotFound);
    }
}

#[test]
fn write_needs_a_declared_size() {
    assert!(Backend::check_write(&OpWrite::new().with_content_length(0)).is_ok());
    let err = Backend::check_write(&OpWrite::new().with_content_type("t")).unwrap_err();
    assert_eq!(err.kind(), ErrorKind::Unsupported);
    assert_eq!(err.message(), "write without content length is not supported");
}

#[test]
fn stat_knows_directories_without_the_service() {
    let root = Backend::stat_without_request("/").unwrap().into_metadata();
    assert!(root.is_dir());
    assert!(root.bit().contains_key(Metakey::Complete));
    assert!(Backend::stat_without_request("a/").is_none());
    assert!(Backend::stat_without_request("").is_none());

    let meta = Metadata::new(EntryMode::FILE).with_content_length(4);
    assert_eq!(Backend::settle_stat_head(200, meta).unwrap().into_metadata().content_length(), 4);
    assert!(Backend::settle_stat_head(404, Metadata::new(EntryMode::FILE)).is_none());
    assert!(Backend::settle_stat_head(206, Metadata::new(EntryMode::FILE)).is_none());

    let dir = Backend::settle_stat_info("a/", 404, failure(ErrorKind::NotFound)).unwrap();
    assert!(dir.into_metadata().is_dir());
    let err = Backend::settle_stat_info("a", 404, failure(ErrorKind::NotFound)).unwrap_err();
    assert_eq!(err.kind(), ErrorKind::NotFound);
    let err = Backend::settle_stat_info("a/", 403, failure(ErrorKind::PermissionDenied))
        .unwrap_err();
    assert_eq!(err.kind(), ErrorKind::PermissionDenied);
}

#[test]
fn builder_reads_settings() {
    let pair = |k: &str, v: &str| (k.to_string(), v.to_string());
    let map = vec![
        pair("root", "/first"),
        pair("bucket", "b"),
        pair("endpoint", "http://host//"),
        pair("unknown", "x"),
        pair("root", "/data"),
        pair("key", "k"),
    ];
    let mut builder: SupabaseBuilder<&'static str> = SupabaseBuilder::from_map(&map);
    let backend = builder.build("c");
    let core = backend.shared();
    assert_eq!(core.root, "/data/");
    assert_eq!(core.bucket, "b");
    assert_eq!(core.endpoint, "http://host");
    assert_eq!(core.key.as_deref(), Some("k"));
    assert_eq!(core.http_client, "c");
    let mut builder: SupabaseBuilder<&'static str> =
        SupabaseBuilder::from_map(&vec![pair("root", ""), pair("endpoint", "")]);
    let backend = builder.build("c");
    assert_eq!(backend.shared().root, "/");
    assert_eq!(backend.shared().bucket, "");
    assert_eq!(backend.shared().endpoint, "");
    assert_eq!(backend.shared().key, None);
}
