use datafusion_objectstore_gcs::error::{ErrorKind, GCSError, StoreError};
use datafusion_objectstore_gcs::object_store::gcs::{
    complete_sync_read, BridgeOutcome, GCSFileReader, GCSFileSystem, SYNC_READ_TIMEOUT_SECS,
};
use datafusion_objectstore_gcs::object_store::listing::{
    file_meta_of, listing_from_pages, ObjectEntry, Page, SizedFile, Timestamp,
};
use datafusion_objectstore_gcs::object_store::path::{split_path, ListRequest};

fn entry(name: &str, size: u64) -> ObjectEntry {
    ObjectEntry {
        name: name.to_string(),
        size,
        updated: Some(Timestamp { secs: 1_600_000_000, nanos: 5 }),
    }
}

fn sized(path: &str, size: u64) -> SizedFile {
    SizedFile { path: path.to_string(), size }
}

#[test]
fn uri_with_prefix_gives_bucket_and_prefix() {
    let req = ListRequest::from_uri("gcs://data/x/alltypes_plain.parquet").unwrap();
    assert_eq!(req.bucket, "data");
    assert_eq!(req.prefix, "x/alltypes_plain.parquet");
}

#[test]
fn uri_without_prefix_gives_empty_prefix() {
    let req = ListRequest::from_uri("gcs://data").unwrap();
    assert_eq!(req.bucket, "data");
    assert_eq!(req.prefix, "");
}

#[test]
fn uri_with_trailing_slash_gives_empty_prefix() {
    let req = ListRequest::from_uri("gcs://data/").unwrap();
    assert_eq!(req.bucket, "data");
    assert_eq!(req.prefix, "");
}

#[test]
fn uri_keeps_non_ascii_characters() {
    let req = ListRequest::from_uri("gcs://bücket/é/ß").unwrap();
    assert_eq!(req.bucket, "bücket");
    assert_eq!(req.prefix, "é/ß");
}

#[test]
fn uri_without_scheme_is_refused() {
    for uri in ["s3://data/x", "data/x", "", "gcs:/data", "xgcs://data/x"] {
        match ListRequest::from_uri(uri) {
            Err(GCSError::GCS(_)) => {}
            other => panic!("{:?} gave {:?}", uri, other),
        }
    }
}

#[test]
fn uri_with_empty_bucket_is_refused() {
    assert!(matches!(ListRequest::from_uri("gcs://"), Err(GCSError::GCS(_))));
    assert!(matches!(ListRequest::from_uri("gcs:///x"), Err(GCSError::GCS(_))));
}

#[test]
fn store_list_request_reports_kind_other() {
    let fs = GCSFileSystem::new();
    let err = fs.list_request("s3://data/x").unwrap_err();
    assert_eq!(err.kind, ErrorKind::Other);
    assert!(matches!(err.error, GCSError::GCS(_)));
    let req = fs.list_request("gcs://data/x/").unwrap();
    assert_eq!(req.bucket, "data");
    assert_eq!(req.prefix, "x/");
}

#[test]
fn split_path_cuts_at_first_slash() {
    assert_eq!(split_path("bucket/a/b.parquet"), ("bucket".to_string(), "a/b.parquet".to_string()));
    assert_eq!(split_path("bucket"), ("bucket".to_string(), String::new()));
    assert_eq!(split_path("/key"), (String::new(), "key".to_string()));
    assert_eq!(split_path(""), (String::new(), String::new()));
}

#[test]
fn file_meta_path_is_bucket_slash_name() {
    let m = file_meta_of("data", &entry("x/a.parquet", 42));
    assert_eq!(m.sized_file.path, "data/x/a.parquet");
    assert_eq!(m.sized_file.size, 42);
    assert_eq!(m.last_modified, Some(Timestamp { secs: 1_600_000_000, nanos: 5 }));
}

#[test]
fn listing_flattens_pages_in_order() {
    let pages: Vec<Page> = vec![
        Ok(vec![entry("x/a", 1), entry("x/b", 2)]),
        Ok(vec![]),
        Ok(vec![entry("x/c", 3)]),
    ];
    let items = listing_from_pages("data", pages);
    let got: Vec<(String, u64)> = items
        .into_iter()
        .map(|i| {
            let m = i.unwrap();
            (m.sized_file.path, m.sized_file.size)
        })
        .collect();
    assert_eq!(
        got,
        vec![
            ("data/x/a".to_string(), 1),
            ("data/x/b".to_string(), 2),
            ("data/x/c".to_string(), 3)
        ]
    );
}

#[test]
fn listing_of_no_pages_is_empty() {
    assert!(listing_from_pages("data", vec![]).is_empty());
}

#[test]
fn listing_stops_at_first_failed_page() {
    let pages: Vec<Page> = vec![
        Ok(vec![entry("x/a", 1)]),
        Err(GCSError::GCS("page two failed".to_string())),
        Ok(vec![entry("x/c", 3)]),
        Err(GCSError::GCS("page four failed".to_string())),
    ];
    let items = listing_from_pages("data", pages);
    assert_eq!(items.len(), 2);
    assert_eq!(items[0].as_ref().unwrap().sized_file.path, "data/x/a");
    assert_eq!(
        items[1].as_ref().unwrap_err(),
        &GCSError::GCS("page two failed".to_string())
    );
}

#[test]
fn listing_failing_on_first_page_has_only_the_error() {
    let pages: Vec<Page> = vec![Err(GCSError::GCS("denied".to_string())), Ok(vec![entry("x/a", 1)])];
    let items = listing_from_pages("data", pages);
    assert_eq!(items.len(), 1);
    assert!(items[0].is_err());
}

#[test]
fn store_list_file_uses_request_bucket() {
    let fs = GCSFileSystem::default();
    let req = fs.list_request("gcs://bkt/x/").unwrap();
    let items = fs.list_file(&req, vec![Ok(vec![entry("x/one", 10)])]);
    assert_eq!(items.len(), 1);
    assert_eq!(items[0].as_ref().unwrap().sized_file.path, "bkt/x/one");
    assert_eq!(items[0].as_ref().unwrap().sized_file.size, 10);
}

#[test]
fn list_dir_is_not_implemented() {
    let fs = GCSFileSystem::new();
    let err = fs.list_dir("gcs://data/", Some("/".to_string())).unwrap_err();
    assert_eq!(err.kind, ErrorKind::Other);
    assert!(matches!(err.error, GCSError::NotImplemented(_)));
    let err = fs.list_dir("", None).unwrap_err();
    assert!(matches!(err.error, GCSError::NotImplemented(_)));
}

#[test]
fn chunk_reader_is_not_implemented() {
    let reader = GCSFileReader::new(sized("data/a", 10));
    for (start, length) in [(0u64, 0usize), (3, 4), (u64::MAX, usize::MAX)] {
        let err = reader.chunk_reader(start, length).unwrap_err();
        assert_eq!(err.kind, ErrorKind::Other);
        assert!(matches!(err.error, GCSError::NotImplemented(_)));
    }
}

#[test]
fn reader_length_is_listed_size() {
    let fs = GCSFileSystem::new();
    let reader = fs.file_reader(sized("data/a.parquet", 1234)).unwrap();
    assert_eq!(reader.length(), 1234);
    assert_eq!(reader.file.path, "data/a.parquet");
}

#[test]
fn reader_bucket_and_key() {
    let reader = GCSFileReader::new(sized("data/x/a.parquet", 1));
    assert_eq!(reader.bucket_and_key(), ("data".to_string(), "x/a.parquet".to_string()));
    let reader = GCSFileReader::new(sized("lonely", 1));
    assert_eq!(reader.bucket_and_key(), ("lonely".to_string(), String::new()));
}

#[test]
fn sync_read_of_range_returns_exactly_length_bytes() {
    let body: Vec<u8> = (0u8..20).collect();
    let r = complete_sync_read(5, 4, BridgeOutcome::Delivered(Ok(body.clone()))).unwrap();
    assert_eq!(r, vec![5, 6, 7, 8]);
    let r = complete_sync_read(16, 4, BridgeOutcome::Delivered(Ok(body))).unwrap();
    assert_eq!(r, vec![16, 17, 18, 19]);
}

#[test]
fn sync_read_of_zero_length_returns_whole_object() {
    let body: Vec<u8> = vec![9, 8, 7];
    let r = complete_sync_read(1, 0, BridgeOutcome::Delivered(Ok(body.clone()))).unwrap();
    assert_eq!(r, body);
}

#[test]
fn sync_read_past_end_fails_with_other() {
    let body: Vec<u8> = vec![1, 2, 3];
    let err = complete_sync_read(2, 2, BridgeOutcome::Delivered(Ok(body.clone()))).unwrap_err();
    assert_eq!(err.kind, ErrorKind::Other);
    assert!(matches!(err.error, GCSError::GCS(_)));
    let err = complete_sync_read(u64::MAX, 1, BridgeOutcome::Delivered(Ok(body))).unwrap_err();
    assert_eq!(err.kind, ErrorKind::Other);
}

#[test]
fn sync_read_service_failure_is_other() {
    let err = complete_sync_read(0, 4, BridgeOutcome::Delivered(Err("not found".to_string()))).unwrap_err();
    assert_eq!(err.kind, ErrorKind::Other);
    assert_eq!(err.error, GCSError::GCS("not found".to_string()));
}

#[test]
fn sync_read_without_result_times_out() {
    let err = complete_sync_read(0, 4, BridgeOutcome::NoResult("Timeout".to_string())).unwrap_err();
    assert_eq!(err.kind, ErrorKind::TimedOut);
    assert_eq!(err.error, GCSError::GCS("Timeout".to_string()));
    assert_eq!(SYNC_READ_TIMEOUT_SECS, 10);
}

#[test]
fn sync_reads_of_different_files_keep_their_own_bytes() {
    let a = GCSFileReader::new(sized("data/a", 3));
    let b = GCSFileReader::new(sized("data/b", 3));
    let ra = complete_sync_read(0, 0, BridgeOutcome::Delivered(Ok(vec![1, 1, 1]))).unwrap();
    let rb = complete_sync_read(0, 0, BridgeOutcome::Delivered(Ok(vec![2, 2, 2]))).unwrap();
    assert_eq!(a.bucket_and_key().1, "a");
    assert_eq!(b.bucket_and_key().1, "b");
    assert_eq!(ra, vec![1, 1, 1]);
    assert_eq!(rb, vec![2, 2, 2]);
}

#[test]
fn error_messages() {
    assert_eq!(
        GCSError::NotImplemented("list_dir".to_string()).message(),
        "Not yet implemented: list_dir"
    );
    assert_eq!(GCSError::GCS("boom".to_string()).message(), "AWS error: boom");
    assert_eq!(
        StoreError::remote("boom".to_string()).message(),
        "AWS error: boom"
    );
}

#[test]
fn error_equality() {
    assert_eq!(GCSError::GCS("a".to_string()), GCSError::GCS("a".to_string()));
    assert_ne!(GCSError::GCS("a".to_string()), GCSError::GCS("b".to_string()));
    assert_ne!(
        GCSError::GCS("a".to_string()),
        GCSError::NotImplemented("a".to_string())
    );
}

#[test]
fn store_error_kinds() {
    let e = StoreError::timed_out(GCSError::GCS("t".to_string()));
    assert_eq!(e.kind, ErrorKind::TimedOut);
    let e = StoreError::other(GCSError::NotImplemented("n".to_string()));
    assert_eq!(e.kind, ErrorKind::Other);
}
