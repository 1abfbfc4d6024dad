//! The object store, uploads in parts, and the configuration.

use yatch::config::{
    default_db_path, default_host, default_log_level, default_port, default_presign_ttl,
    default_region, Config,
};
use yatch::db::{database_url, CREATE_MANIFESTS, CREATE_TAGS, CREATE_UPLOADS};
use yatch::digest::compute_digest;
use yatch::multipart::{Multipart, MultipartStep, PartWanted, MULTIPART_PART_SIZE};
use yatch::storage::{error_text, S3Store, StoreFailure, StoredObject};

fn config() -> Config {
    Config {
        host: default_host(),
        port: default_port(),
        s3_bucket: "bucket".into(),
        s3_region: default_region(),
        s3_endpoint: None,
        s3_public_url: None,
        presign_ttl_secs: default_presign_ttl(),
        db_path: default_db_path(),
        auth_token: None,
        log_level: default_log_level(),
    }
}

#[test]
fn defaults() {
    let config = config();
    assert_eq!(config.listen_address(), "0.0.0.0:5000");
    assert_eq!(config.s3_region, "us-east-1");
    assert_eq!(config.presign_ttl_secs, 3600);
    assert_eq!(config.db_path, "./yatch.db");
    assert_eq!(config.log_level, "info");
}

#[test]
fn databases() {
    assert_eq!(database_url("./yatch.db"), "sqlite:./yatch.db?mode=rwc");
    assert_eq!(database_url("sqlite::memory:"), "sqlite::memory:");
    for (table, statement) in
        [("tags", CREATE_TAGS), ("manifests", CREATE_MANIFESTS), ("uploads", CREATE_UPLOADS)]
    {
        assert!(statement.starts_with(&format!("CREATE TABLE IF NOT EXISTS {} (", table)));
        assert!(statement.contains("PRIMARY KEY"));
    }
}

#[test]
fn settings_of_the_store() {
    let store = S3Store::new(&config());
    assert_eq!(store.bucket, "bucket");
    assert_eq!(store.region, "us-east-1");
    assert!(!store.path_style);
    assert_eq!(store.presign_ttl_secs, 3600);
    let order = store.copy("uploads/u", "blobs/d");
    assert_eq!(order.bucket, "bucket");
    assert_eq!(order.source, "bucket/uploads/u");
    assert_eq!(order.key, "blobs/d");
    assert_eq!(store.blob_url("blobs/x"), None);
    let mut other = config();
    other.s3_endpoint = Some("http://localhost:9000".into());
    other.s3_public_url = Some("https://cdn.example.com/".into());
    let store = S3Store::new(&other);
    assert_eq!(store.blob_url("blobs/x"), Some("https://cdn.example.com/blobs/x".to_string()));
    assert!(store.path_style);
    assert_eq!(store.endpoint.as_deref(), Some("http://localhost:9000"));
}

fn store() -> S3Store {
    S3Store::new(&config())
}

#[test]
fn changes_of_the_store() {
    assert_eq!(store().put(Ok(())), Ok(()));
    assert_eq!(store().put(Err("oops".into())), Err("S3 put error: oops".to_string()));
    assert_eq!(store().delete(Ok(())), Ok(()));
    assert_eq!(store().delete(Err("oops".into())), Err("S3 delete error: oops".to_string()));
}

fn failure(status: Option<u16>, missing: bool) -> StoreFailure {
    StoreFailure { status, missing, message: "oops".into() }
}

#[test]
fn objects_from_the_store() {
    let object = StoredObject { data: vec![1, 2], content_type: None };
    assert_eq!(
        store().get(Ok(object)),
        Ok(Some((vec![1, 2], "application/octet-stream".to_string())))
    );
    let object = StoredObject { data: vec![], content_type: Some("text/plain".into()) };
    assert_eq!(store().get(Ok(object)), Ok(Some((vec![], "text/plain".to_string()))));
    assert_eq!(store().get(Err(failure(Some(404), true))), Ok(None));
    assert_eq!(store().get(Err(failure(Some(404), false))), Err("S3 get error: oops".to_string()));
}

#[test]
fn sizes_from_the_store() {
    assert_eq!(store().head(Ok(Some(7))), Ok(Some(7)));
    assert_eq!(store().head(Ok(None)), Ok(Some(0)));
    assert_eq!(store().head(Err(failure(Some(404), false))), Ok(None));
    assert_eq!(store().head(Err(failure(Some(400), true))), Ok(None));
    let error = Err("S3 head error: oops".to_string());
    assert_eq!(store().head(Err(failure(Some(500), false))), error);
    assert_eq!(store().head(Err(failure(None, true))), error);
    assert_eq!(error_text("a", "b"), "a: b");
}

/// Sends a stream in parts and gives the parts that were stored, with their numbers, and the
/// length and the digest that are reported.
fn stream(pieces: Vec<Vec<u8>>) -> (Vec<(i32, Vec<u8>)>, i64, String) {
    let mut pieces = pieces.into_iter();
    let mut stored: Vec<(i32, Vec<u8>)> = vec![];
    let mut step = store().put_multipart(&Ok(Some("upload".to_string())));
    loop {
        step = match step {
            MultipartStep::NextPiece { then } => {
                let piece = pieces.next();
                assert!(then.has_room(piece.as_ref().map(|p| p.len()).unwrap_or(0)));
                then.after_piece(Ok(piece))
            }
            MultipartStep::UploadPart { number, data, then } => {
                stored.push((number, data));
                assert!(then.has_next_number());
                then.after_part(Ok(Some(format!("tag-{}", number))))
            }
            MultipartStep::Complete { parts, then } => {
                let expected: Vec<(i32, String)> =
                    stored.iter().map(|part| (part.0, format!("tag-{}", part.0))).collect();
                assert_eq!(parts, expected);
                then.after_completion(Ok(()))
            }
            MultipartStep::Stored { total, digest } => return (stored, total, digest),
            MultipartStep::Abort { message } => panic!("aborted: {}", message),
            MultipartStep::Fail { message } => panic!("failed: {}", message),
        };
    }
}

#[test]
fn small_streams_are_one_part() {
    let (parts, total, digest) = stream(vec![b"hello ".to_vec(), vec![], b"world".to_vec()]);
    assert_eq!(parts, vec![(1, b"hello world".to_vec())]);
    assert_eq!(total, 11);
    assert_eq!(
        digest,
        "sha256:b94d27b9934d3e08a52e52d7da7dabfac484efe37a5380ee9088f7ace2efcde9"
    );
}

#[test]
fn empty_streams_are_one_empty_part() {
    let (parts, total, digest) = stream(vec![]);
    assert_eq!(parts, vec![(1, vec![])]);
    assert_eq!(total, 0);
    assert_eq!(digest, compute_digest(b""));
}

#[test]
fn large_streams_are_stored_whole() {
    assert_eq!(MULTIPART_PART_SIZE, 8 * 1024 * 1024);
    let sizes = [MULTIPART_PART_SIZE - 1, 1, 3, MULTIPART_PART_SIZE + 5, MULTIPART_PART_SIZE / 2];
    let mut all: Vec<u8> = vec![];
    let mut pieces: Vec<Vec<u8>> = vec![];
    for (i, size) in sizes.iter().enumerate() {
        let piece: Vec<u8> = (0..*size).map(|j| (i + j % 251) as u8).collect();
        all.extend_from_slice(&piece);
        pieces.push(piece);
    }
    let (parts, total, digest) = stream(pieces);
    let lengths: Vec<usize> = parts.iter().map(|part| part.1.len()).collect();
    assert_eq!(lengths, vec![MULTIPART_PART_SIZE, MULTIPART_PART_SIZE + 8, MULTIPART_PART_SIZE / 2]);
    let numbers: Vec<i32> = parts.iter().map(|part| part.0).collect();
    assert_eq!(numbers, vec![1, 2, 3]);
    let joined: Vec<u8> = parts.into_iter().flat_map(|part| part.1).collect();
    assert!(joined == all);
    assert_eq!(total, all.len() as i64);
    assert_eq!(digest, compute_digest(&all));
}

#[test]
fn a_stream_of_exactly_a_part_ends_with_an_empty_one() {
    let (parts, total, _) = stream(vec![vec![0; MULTIPART_PART_SIZE]]);
    let lengths: Vec<usize> = parts.iter().map(|part| part.1.len()).collect();
    assert_eq!(lengths, vec![MULTIPART_PART_SIZE, 0]);
    assert_eq!(total, MULTIPART_PART_SIZE as i64);
}

fn started() -> Multipart {
    match store().put_multipart(&Ok(Some("upload".to_string()))) {
        MultipartStep::NextPiece { then } => then,
        _ => panic!("not started"),
    }
}

fn last_part() -> PartWanted {
    match started().after_piece(Ok(None)) {
        MultipartStep::UploadPart { then, .. } => then,
        _ => panic!("no part"),
    }
}

fn aborted(step: MultipartStep) -> String {
    match step {
        MultipartStep::Abort { message } => message,
        _ => panic!("not aborted"),
    }
}

fn failed(step: MultipartStep) -> String {
    match step {
        MultipartStep::Fail { message } => message,
        _ => panic!("not failed"),
    }
}

#[test]
fn uploads_in_parts_that_do_not_start() {
    let message = failed(store().put_multipart(&Err("oops".to_string())));
    assert_eq!(message, "create_multipart_upload: oops");
    let message = failed(store().put_multipart(&Ok(None)));
    assert_eq!(message, "missing upload_id in multipart response");
}

#[test]
fn failed_uploads_are_dropped() {
    let message = aborted(started().after_piece(Err("oops".to_string())));
    assert_eq!(message, "body stream error: oops");
    let message = aborted(last_part().after_part(Err("oops".to_string())));
    assert_eq!(message, "upload_part 1: oops");
    match last_part().after_part(Ok(None)) {
        MultipartStep::Complete { parts, then } => {
            assert_eq!(parts, vec![(1, String::new())]);
            let message = aborted(then.after_completion(Err("oops".to_string())));
            assert_eq!(message, "complete_multipart_upload: oops");
        }
        _ => panic!("not complete"),
    }
}
