//! Whole requests, against a database and a store in memory.

use std::collections::{BTreeMap, BTreeSet};

use yatch::config::Config;
use yatch::db::{Bind, ManifestRow, Query, UploadRow};
use yatch::digest::compute_digest;
use yatch::keys::{blob_key, manifest_key, upload_key};
use yatch::params::parameter;
use yatch::reply::{Body, Reply};
use yatch::step::{Edition, Method, Part, Registry, Request, Step};

/// A database and a store in memory.
#[derive(Default, Clone, Debug, PartialEq)]
struct Outside {
    tags: BTreeMap<(String, String), String>,
    manifests: BTreeMap<(String, String), (String, i64)>,
    uploads: BTreeMap<String, (String, i64)>,
    objects: BTreeMap<String, (Vec<u8>, Option<String>)>,
    /// What fails: the name of a step.
    broken: Option<&'static str>,
}

/// How a request ends.
enum End {
    Replied(Reply),
    Raised(String),
}

impl Outside {
    fn check(&self, what: &str) -> Result<(), String> {
        if self.broken == Some(what) {
            Err(format!("{} is broken", what))
        } else {
            Ok(())
        }
    }

    fn execute(&mut self, query: Query) -> Result<(), String> {
        match query {
            Query::PutManifest { repo, digest, content_type, size } => {
                self.check("put_manifest")?;
                self.manifests.insert((repo, digest), (content_type, size));
            }
            Query::PutTag { repo, tag, digest } => {
                self.check("put_tag")?;
                self.tags.insert((repo, tag), digest);
            }
            Query::DeleteManifest { repo, digest } => {
                self.check("delete_manifest")?;
                self.manifests.remove(&(repo, digest));
            }
            Query::DeleteTagsOf { repo, digest } => {
                self.tags.retain(|at, to| !(at.0 == repo && *to == digest));
            }
            Query::DeleteTag { repo, tag } => {
                self.check("delete_tag")?;
                self.tags.remove(&(repo, tag));
            }
            Query::CreateUpload { uuid, repo } => {
                self.check("create_upload")?;
                self.uploads.insert(uuid, (repo, 0));
            }
            Query::UpdateUpload { uuid, offset } => {
                self.check("update_upload")?;
                if let Some(row) = self.uploads.get_mut(&uuid) {
                    row.1 = offset;
                }
            }
            Query::DeleteUpload { uuid } => {
                self.check("delete_upload")?;
                self.uploads.remove(&uuid);
            }
            other => panic!("not a change: {:?}", other),
        }
        Ok(())
    }

    fn names(&self, query: &Query) -> Vec<String> {
        match query {
            Query::ListTags { repo } => {
                self.tags.keys().filter(|at| at.0 == *repo).map(|at| at.1.clone()).collect()
            }
            Query::ListRepos => {
                let repos: BTreeSet<String> = self.manifests.keys().map(|at| at.0.clone()).collect();
                repos.into_iter().collect()
            }
            other => panic!("not a list: {:?}", other),
        }
    }

    /// Does a step and those that follow.
    fn run(&mut self, registry: &Registry, first: Step) -> End {
        let mut step = first;
        for _ in 0..6 {
            step = match step {
                Step::Reply(reply) => return End::Replied(reply),
                Step::Raise(message) => return End::Raised(message),
                Step::FindTag { query, then } => {
                    let answer = match query {
                        Query::FindTag { repo, tag } => self.tags.get(&(repo, tag)).cloned(),
                        other => panic!("not for a tag: {:?}", other),
                    };
                    registry.after_tag(then, self.check("find_tag").map(|_| answer))
                }
                Step::FindManifest { query, then } => {
                    let answer = match query {
                        Query::FindManifest { repo, digest } => self
                            .manifests
                            .get(&(repo, digest.clone()))
                            .map(|row| ManifestRow { digest, content_type: row.0.clone(), size: row.1 }),
                        other => panic!("not for a manifest: {:?}", other),
                    };
                    registry.after_manifest(then, self.check("find_manifest").map(|_| answer))
                }
                Step::FindUpload { query, then } => {
                    let answer = match query {
                        Query::FindUpload { uuid } => self
                            .uploads
                            .get(&uuid)
                            .map(|row| UploadRow { repo: row.0.clone(), offset: row.1 }),
                        other => panic!("not for an upload: {:?}", other),
                    };
                    registry.after_upload(then, self.check("find_upload").map(|_| answer))
                }
                Step::ListNames { query, then } => {
                    let answer = self.check("list").map(|_| self.names(&query));
                    registry.after_names(then, answer)
                }
                Step::Execute { queries, then } => {
                    let mut done = Ok(());
                    for query in queries {
                        done = self.execute(query);
                        if done.is_err() {
                            break;
                        }
                    }
                    registry.after_done(then, done)
                }
                Step::HeadObject { key, then } => {
                    let size = self.objects.get(&key).map(|object| object.0.len() as i64);
                    registry.after_size(then, self.check("head").map(|_| size))
                }
                Step::GetObject { key, then } => {
                    let data = self.objects.get(&key).map(|object| object.0.clone());
                    registry.after_object(then, self.check("get").map(|_| data))
                }
                Step::PutObject { key, content_type, data, then } => {
                    let done = self.check("put");
                    if done.is_ok() {
                        self.objects.insert(key, (data, content_type));
                    }
                    registry.after_done(then, done)
                }
                Step::DeleteObject { key, then } => {
                    let done = self.check("delete");
                    if done.is_ok() {
                        self.objects.remove(&key);
                    }
                    registry.after_done(then, done)
                }
                Step::PresignObject { key, then } => {
                    let answer = self.check("presign").map(|_| format!("https://signed/{}", key));
                    registry.after_url(then, answer)
                }
            };
        }
        panic!("more than five steps");
    }

    /// Sends a request to a registry and gets the reply.
    fn send(&mut self, registry: &Registry, request: Request) -> Reply {
        let step = start(registry, request);
        match self.run(registry, step) {
            End::Replied(reply) => reply,
            End::Raised(message) => panic!("raised: {}", message),
        }
    }

    /// Sends a request to a registry that raises a failure.
    fn send_raising(&mut self, registry: &Registry, request: Request) -> String {
        let step = start(registry, request);
        match self.run(registry, step) {
            End::Replied(reply) => panic!("replied: {:?}", reply),
            End::Raised(message) => message,
        }
    }
}

fn is_worker(registry: &Registry) -> bool {
    registry.edition == Edition::Worker
}

/// Starts a request; the path is below `/v2/`.
fn start(registry: &Registry, mut request: Request) -> Step {
    if is_worker(registry) {
        request.path = format!("/v2/{}", request.path);
        registry.fetch(request)
    } else {
        registry.dispatch(request)
    }
}

fn request(method: Method, path: &str) -> Request {
    Request {
        method,
        path: path.to_string(),
        authorization: None,
        content_type: None,
        mount: None,
        digest: None,
        body: vec![],
    }
}

fn with_body(method: Method, path: &str, body: &[u8]) -> Request {
    Request { body: body.to_vec(), ..request(method, path) }
}

fn complete(path: &str, digest: &str, body: &[u8]) -> Request {
    Request { digest: Some(digest.to_string()), ..with_body(Method::Put, path, body) }
}

fn config() -> Config {
    Config {
        host: "127.0.0.1".into(),
        port: 5000,
        s3_bucket: "bucket".into(),
        s3_region: "us-east-1".into(),
        s3_endpoint: None,
        s3_public_url: None,
        presign_ttl_secs: 3600,
        db_path: "./yatch.db".into(),
        auth_token: None,
        log_level: "info".into(),
    }
}

fn standalone() -> Registry {
    Registry::standalone(&config())
}

fn worker() -> Registry {
    Registry::worker(None, None)
}

fn header<'a>(reply: &'a Reply, name: &str) -> Option<&'a str> {
    let found: Vec<&str> =
        reply.headers.iter().filter(|h| h.0 == name).map(|h| h.1.as_str()).collect();
    assert!(found.len() <= 1, "{} twice", name);
    found.first().copied()
}

fn headers(reply: &Reply) -> Vec<(&str, &str)> {
    reply.headers.iter().map(|h| (h.0.as_str(), h.1.as_str())).collect()
}

fn text(reply: &Reply) -> &str {
    match &reply.body {
        Body::Text(text) => text,
        other => panic!("not a text: {:?}", other),
    }
}

fn bytes(reply: &Reply) -> &[u8] {
    match &reply.body {
        Body::Bytes(bytes) => bytes,
        other => panic!("not bytes: {:?}", other),
    }
}

fn is_empty(reply: &Reply) -> bool {
    matches!(reply.body, Body::Empty)
}

fn assert_error(reply: &Reply, status: u16, code: &str, message: &str) {
    assert_eq!(reply.status, status);
    assert_eq!(headers(reply), vec![("Content-Type", "application/json")]);
    assert_eq!(
        text(reply),
        format!(
            "{{\"errors\":[{{\"code\":\"{}\",\"message\":\"{}\",\"detail\":null}}]}}",
            code, message
        )
    );
}

/// Starts an upload and gives its identifier.
fn start_upload(outside: &mut Outside, registry: &Registry, repo: &str) -> String {
    let reply = outside.send(registry, request(Method::Post, &format!("{}/blobs/uploads/", repo)));
    assert_eq!(reply.status, 202);
    header(&reply, "Docker-Upload-UUID").unwrap().to_string()
}

// ---- Manifests ----

#[test]
fn manifest_is_got_back_standalone() {
    let registry = standalone();
    let mut outside = Outside::default();
    let data = b"{\"schemaVersion\":2}";
    let digest = compute_digest(data);
    let put = Request {
        content_type: Some("application/vnd.oci.image.manifest.v1+json".into()),
        ..with_body(Method::Put, "library/ubuntu/manifests/latest", data)
    };
    let reply = outside.send(&registry, put);
    assert_eq!(reply.status, 201);
    assert!(is_empty(&reply));
    let location = format!("/v2/library/ubuntu/manifests/{}", digest);
    assert_eq!(
        headers(&reply),
        vec![
            ("Docker-Content-Digest", digest.as_str()),
            ("Location", location.as_str()),
            ("Content-Length", "0"),
        ]
    );
    assert_eq!(
        outside.objects[&manifest_key("library/ubuntu", &digest)],
        (data.to_vec(), Some("application/vnd.oci.image.manifest.v1+json".to_string()))
    );
    for reference in ["latest", digest.as_str()] {
        let path = format!("library/ubuntu/manifests/{}", reference);
        let reply = outside.send(&registry, request(Method::Get, &path));
        assert_eq!(reply.status, 200);
        assert_eq!(bytes(&reply), data);
        let expected = vec![
            ("Content-Type", "application/vnd.oci.image.manifest.v1+json"),
            ("Docker-Content-Digest", digest.as_str()),
            ("Content-Length", "19"),
            ("Docker-Distribution-API-Version", "registry/2.0"),
        ];
        assert_eq!(headers(&reply), expected);
        let reply = outside.send(&registry, request(Method::Head, &path));
        assert_eq!(reply.status, 200);
        assert!(is_empty(&reply));
        assert_eq!(headers(&reply), expected);
    }
}

#[test]
fn manifest_is_got_back_worker() {
    let registry = worker();
    let mut outside = Outside::default();
    let digest = compute_digest(b"m");
    let reply = outside.send(&registry, with_body(Method::Put, "a/manifests/v1", b"m"));
    assert_eq!(reply.status, 201);
    let location = format!("/v2/a/manifests/{}", digest);
    assert_eq!(
        headers(&reply),
        vec![("Docker-Content-Digest", digest.as_str()), ("Location", location.as_str())]
    );
    let reply = outside.send(&registry, request(Method::Get, "a/manifests/v1"));
    assert_eq!(bytes(&reply), b"m");
    assert_eq!(
        headers(&reply),
        vec![
            ("Content-Type", "application/vnd.docker.distribution.manifest.v2+json"),
            ("Docker-Content-Digest", digest.as_str()),
            ("Docker-Distribution-API-Version", "registry/2.0"),
        ]
    );
    let reply = outside.send(&registry, request(Method::Head, "a/manifests/v1"));
    assert_eq!(header(&reply, "Content-Length"), Some("1"));
}

#[test]
fn manifest_put_by_digest_makes_no_tag() {
    let registry = standalone();
    let mut outside = Outside::default();
    outside.send(&registry, with_body(Method::Put, "a/manifests/sha256:other", b"m"));
    assert!(outside.tags.is_empty());
    assert!(outside.manifests.contains_key(&("a".to_string(), compute_digest(b"m"))));
    let reply = outside.send(&registry, request(Method::Get, "a/manifests/sha256:other"));
    assert_error(&reply, 404, "MANIFEST_UNKNOWN", "manifest unknown to registry");
}

#[test]
fn unknown_manifests() {
    let mut outside = Outside::default();
    for method in [Method::Get, Method::Head, Method::Delete] {
        for reference in ["latest", "sha256:00"] {
            let path = format!("a/manifests/{}", reference);
            let reply = outside.send(&standalone(), request(method, &path));
            assert_error(&reply, 404, "MANIFEST_UNKNOWN", "manifest unknown to registry");
            let reply = outside.send(&worker(), request(method, &path));
            assert_error(&reply, 404, "MANIFEST_UNKNOWN", "manifest unknown");
        }
    }
    assert_eq!(outside, Outside::default());
}

#[test]
fn manifests_without_content() {
    let mut outside = Outside::default();
    outside.send(&standalone(), with_body(Method::Put, "a/manifests/v1", b"m"));
    outside.objects.clear();
    let reply = outside.send(&standalone(), request(Method::Get, "a/manifests/v1"));
    assert_error(&reply, 404, "MANIFEST_UNKNOWN", "manifest unknown to registry");
    let reply = outside.send(&worker(), request(Method::Get, "a/manifests/v1"));
    assert_error(&reply, 404, "MANIFEST_UNKNOWN", "manifest not found in storage");
    let reply = outside.send(&worker(), request(Method::Head, "a/manifests/v1"));
    assert_eq!(reply.status, 200);
}

#[test]
fn deleting_a_tag_keeps_the_row() {
    let registry = standalone();
    let mut outside = Outside::default();
    outside.send(&registry, with_body(Method::Put, "a/manifests/v1", b"m"));
    outside.send(&registry, with_body(Method::Put, "a/manifests/v2", b"m"));
    outside.objects.insert(blob_key("sha256:b"), (vec![1], None));
    let rows = outside.manifests.clone();
    let reply = outside.send(&registry, request(Method::Delete, "a/manifests/v1"));
    assert_eq!(reply.status, 202);
    assert!(is_empty(&reply) && reply.headers.is_empty());
    assert_eq!(outside.manifests, rows);
    assert_eq!(outside.tags.len(), 1);
    assert!(outside.objects.contains_key(&blob_key("sha256:b")));
    let reply = outside.send(&registry, request(Method::Get, "a/manifests/v1"));
    assert_eq!(reply.status, 404);
    let reply = outside.send(&registry, request(Method::Head, "a/manifests/v2"));
    assert_eq!(reply.status, 200);
}

#[test]
fn deleting_a_digest_forgets_its_tags() {
    for registry in [standalone(), worker()] {
        let mut outside = Outside::default();
        outside.send(&registry, with_body(Method::Put, "a/manifests/v1", b"m"));
        outside.send(&registry, with_body(Method::Put, "a/manifests/v2", b"m"));
        outside.send(&registry, with_body(Method::Put, "a/manifests/v3", b"n"));
        outside.send(&registry, with_body(Method::Put, "b/manifests/v1", b"m"));
        let path = format!("a/manifests/{}", compute_digest(b"m"));
        assert_eq!(outside.send(&registry, request(Method::Delete, &path)).status, 202);
        assert_eq!(outside.send(&registry, request(Method::Get, &path)).status, 404);
        assert_eq!(outside.send(&registry, request(Method::Get, "a/manifests/v2")).status, 404);
        assert_eq!(outside.send(&registry, request(Method::Get, "a/manifests/v3")).status, 200);
        assert_eq!(outside.send(&registry, request(Method::Get, "b/manifests/v1")).status, 200);
    }
}

#[test]
fn failing_to_delete_content_does_not_matter() {
    let registry = standalone();
    let mut outside = Outside::default();
    outside.send(&registry, with_body(Method::Put, "a/manifests/v1", b"m"));
    outside.broken = Some("delete");
    let reply = outside.send(&registry, request(Method::Delete, "a/manifests/v1"));
    assert_eq!(reply.status, 202);
    assert!(outside.tags.is_empty());
}

#[test]
fn manifests_stay_until_they_are_deleted() {
    let registry = standalone();
    let mut outside = Outside::default();
    outside.send(&registry, with_body(Method::Put, "a/manifests/v1", b"m"));
    outside.send(&registry, with_body(Method::Put, "a/manifests/v2", b"n"));
    outside.send(&registry, with_body(Method::Put, "b/manifests/v1", b"o"));
    outside.send(&registry, request(Method::Delete, "b/manifests/v1"));
    let other = format!("a/manifests/{}", compute_digest(b"n"));
    assert_eq!(outside.send(&registry, request(Method::Delete, &other)).status, 202);
    outside.send(&registry, with_body(Method::Put, "a/manifests/v1", b"m"));
    let uuid = start_upload(&mut outside, &registry, "a");
    outside.send(&registry, request(Method::Delete, &format!("a/blobs/uploads/{}", uuid)));
    let reply = outside.send(&registry, request(Method::Get, "a/manifests/v1"));
    assert_eq!(bytes(&reply), b"m");
}

#[test]
fn tags_move() {
    let registry = standalone();
    let mut outside = Outside::default();
    outside.send(&registry, with_body(Method::Put, "a/manifests/v1", b"m"));
    outside.send(&registry, with_body(Method::Put, "a/manifests/v1", b"n"));
    let reply = outside.send(&registry, request(Method::Get, "a/manifests/v1"));
    assert_eq!(bytes(&reply), b"n");
    assert_eq!(outside.manifests.len(), 2);
}

// ---- Blobs ----

fn with_blob(data: &[u8]) -> (Outside, String) {
    let mut outside = Outside::default();
    let digest = compute_digest(data);
    outside.objects.insert(blob_key(&digest), (data.to_vec(), None));
    (outside, digest)
}

#[test]
fn blobs_are_redirected_to_a_signed_url() {
    let (mut outside, digest) = with_blob(b"layer");
    let before = outside.clone();
    for repo in ["a", "b/c"] {
        let path = format!("{}/blobs/{}", repo, digest);
        let reply = outside.send(&standalone(), request(Method::Get, &path));
        assert_eq!(reply.status, 307);
        assert!(is_empty(&reply));
        let url = format!("https://signed/blobs/{}", digest);
        assert_eq!(
            headers(&reply),
            vec![("Location", url.as_str()), ("Docker-Content-Digest", digest.as_str())]
        );
    }
    assert_eq!(outside, before);
}

#[test]
fn blobs_are_redirected_below_the_base_url() {
    let (mut outside, digest) = with_blob(b"layer");
    let mut with_base = config();
    with_base.s3_public_url = Some("https://cdn.example.com/".into());
    let registries = [
        Registry::standalone(&with_base),
        Registry::worker(None, Some("https://cdn.example.com".into())),
    ];
    for registry in registries {
        let reply = outside.send(&registry, request(Method::Get, &format!("a/blobs/{}", digest)));
        assert_eq!(reply.status, 307);
        let url = format!("https://cdn.example.com/blobs/{}", digest);
        assert_eq!(header(&reply, "Location"), Some(url.as_str()));
        assert!(is_empty(&reply));
    }
}

#[test]
fn empty_base_urls() {
    let (mut outside, digest) = with_blob(b"layer");
    let path = format!("a/blobs/{}", digest);
    let mut with_base = config();
    with_base.s3_public_url = Some("".into());
    let reply = outside.send(&Registry::standalone(&with_base), request(Method::Get, &path));
    let url = format!("/blobs/{}", digest);
    assert_eq!(header(&reply, "Location"), Some(url.as_str()));
    let registry = Registry::worker(None, Some("".into()));
    let reply = outside.send(&registry, request(Method::Get, &path));
    assert_eq!(reply.status, 200);
    assert_eq!(bytes(&reply), b"layer");
}

#[test]
fn worker_without_base_url_sends_blobs() {
    let (mut outside, digest) = with_blob(b"layer");
    let reply = outside.send(&worker(), request(Method::Get, &format!("a/blobs/{}", digest)));
    assert_eq!(reply.status, 200);
    assert_eq!(bytes(&reply), b"layer");
    assert_eq!(
        headers(&reply),
        vec![
            ("Docker-Content-Digest", digest.as_str()),
            ("Content-Type", "application/octet-stream"),
        ]
    );
}

#[test]
fn sizes_of_blobs() {
    let (mut outside, digest) = with_blob(b"layer");
    for registry in [standalone(), worker()] {
        let reply = outside.send(&registry, request(Method::Head, &format!("a/blobs/{}", digest)));
        assert_eq!(reply.status, 200);
        assert_eq!(
            headers(&reply),
            vec![
                ("Docker-Content-Digest", digest.as_str()),
                ("Content-Type", "application/octet-stream"),
                ("Content-Length", "5"),
            ]
        );
    }
}

#[test]
fn deleting_blobs() {
    for registry in [standalone(), worker()] {
        let (mut outside, digest) = with_blob(b"layer");
        let path = format!("a/blobs/{}", digest);
        let reply = outside.send(&registry, request(Method::Delete, &path));
        assert_eq!(reply.status, 202);
        assert!(outside.objects.is_empty());
        let reply = outside.send(&registry, request(Method::Delete, &path));
        let message =
            if is_worker(&registry) { "blob unknown" } else { "blob unknown to registry" };
        assert_error(&reply, 404, "BLOB_UNKNOWN", message);
        for method in [Method::Get, Method::Head] {
            let reply = outside.send(&registry, request(method, &path));
            assert_error(&reply, 404, "BLOB_UNKNOWN", "blob unknown to registry");
        }
    }
}

// ---- Uploads ----

#[test]
fn uploads_get_an_identifier() {
    for registry in [standalone(), worker()] {
        let mut outside = Outside::default();
        let reply = outside.send(&registry, request(Method::Post, "a/b/blobs/uploads/"));
        assert_eq!(reply.status, 202);
        let uuid = header(&reply, "Docker-Upload-UUID").unwrap().to_string();
        let location = format!("/v2/a/b/blobs/uploads/{}", uuid);
        assert_eq!(
            headers(&reply),
            vec![
                ("Docker-Upload-UUID", uuid.as_str()),
                ("Location", location.as_str()),
                ("Range", "0-0"),
                ("Content-Length", "0"),
            ]
        );
        assert_eq!(outside.uploads[&uuid], ("a/b".to_string(), 0));
        assert_eq!(uuid.len(), 36);
        for (i, c) in uuid.chars().enumerate() {
            match i {
                8 | 13 | 18 | 23 => assert_eq!(c, '-'),
                14 => assert_eq!(c, '4'),
                19 => assert!("89ab".contains(c)),
                _ => assert!("0123456789abcdef".contains(c)),
            }
        }
        let other = start_upload(&mut outside, &registry, "a/b");
        assert_ne!(uuid, other);
    }
}

#[test]
fn upload_becomes_blob() {
    for registry in [standalone(), worker()] {
        let mut outside = Outside::default();
        let uuid = start_upload(&mut outside, &registry, "a");
        let path = format!("a/blobs/uploads/{}", uuid);
        let reply = outside.send(&registry, with_body(Method::Patch, &path, b"hello world"));
        assert_eq!(reply.status, 202);
        assert_eq!(header(&reply, "Range"), Some("0-10"));
        assert_eq!(header(&reply, "Docker-Upload-UUID"), Some(uuid.as_str()));
        let location = format!("/v2/{}", path);
        assert_eq!(header(&reply, "Location"), Some(location.as_str()));
        assert_eq!(header(&reply, "Content-Length").is_some(), !is_worker(&registry));
        let kind = if is_worker(&registry) { None } else { Some("application/octet-stream") };
        let stored = &outside.objects[&upload_key(&uuid)];
        assert_eq!((stored.0.as_slice(), stored.1.as_deref()), (&b"hello world"[..], kind));

        let reply = outside.send(&registry, request(Method::Get, &path));
        assert_eq!(reply.status, 204);
        assert_eq!(header(&reply, "Range"), Some("0-10"));

        let digest = compute_digest(b"hello world");
        let reply = outside.send(&registry, complete(&path, &digest, b""));
        assert_eq!(reply.status, 201);
        let location = format!("/v2/a/blobs/{}", digest);
        assert_eq!(header(&reply, "Docker-Content-Digest"), Some(digest.as_str()));
        assert_eq!(header(&reply, "Location"), Some(location.as_str()));
        assert_eq!(header(&reply, "Content-Length").is_some(), !is_worker(&registry));
        assert!(outside.uploads.is_empty());
        assert_eq!(outside.objects.len(), 1);
        let stored = &outside.objects[&blob_key(&digest)];
        assert_eq!((stored.0.as_slice(), stored.1.as_deref()), (&b"hello world"[..], kind));

        let reply = outside.send(&registry, request(Method::Head, &format!("z/blobs/{}", digest)));
        assert_eq!(header(&reply, "Content-Length"), Some("11"));
    }
}

#[test]
fn upload_in_one_request() {
    for registry in [standalone(), worker()] {
        let mut outside = Outside::default();
        let uuid = start_upload(&mut outside, &registry, "a");
        let path = format!("a/blobs/uploads/{}", uuid);
        outside.send(&registry, with_body(Method::Patch, &path, b"replaced"));
        let digest = compute_digest(b"body");
        let reply = outside.send(&registry, complete(&path, &digest, b"body"));
        assert_eq!(reply.status, 201);
        assert_eq!(outside.objects.len(), 1);
        assert_eq!(outside.objects[&blob_key(&digest)].0, b"body");
    }
}

#[test]
fn status_of_uploads() {
    let mut outside = Outside::default();
    let uuid = start_upload(&mut outside, &standalone(), "a");
    let path = format!("a/blobs/uploads/{}", uuid);
    let location = format!("/v2/{}", path);
    let reply = outside.send(&standalone(), request(Method::Get, &path));
    assert_eq!(
        headers(&reply),
        vec![
            ("Docker-Upload-UUID", uuid.as_str()),
            ("Location", location.as_str()),
            ("Range", "0--1"),
        ]
    );
    let reply = outside.send(&worker(), request(Method::Get, &path));
    assert_eq!(headers(&reply), vec![("Range", "0--1"), ("Location", location.as_str())]);
    outside.send(&standalone(), with_body(Method::Patch, &path, b"abc"));
    outside.send(&standalone(), with_body(Method::Patch, &path, b"ab"));
    let reply = outside.send(&standalone(), request(Method::Get, &path));
    assert_eq!(header(&reply, "Range"), Some("0-1"));
}

#[test]
fn wrong_digests_store_nothing() {
    for registry in [standalone(), worker()] {
        let mut outside = Outside::default();
        let uuid = start_upload(&mut outside, &registry, "a");
        let path = format!("a/blobs/uploads/{}", uuid);
        let before = outside.clone();
        let reply = outside.send(&registry, complete(&path, &compute_digest(b"x"), b"y"));
        let message = if is_worker(&registry) {
            "digest mismatch"
        } else {
            "provided digest did not match uploaded content"
        };
        assert_error(&reply, 400, "DIGEST_INVALID", message);
        assert_eq!(outside, before);
    }
}

#[test]
fn completing_takes_a_digest_and_data() {
    let mut outside = Outside::default();
    let uuid = start_upload(&mut outside, &standalone(), "a");
    let path = format!("a/blobs/uploads/{}", uuid);
    let reply = outside.send(&standalone(), with_body(Method::Put, &path, b"x"));
    assert_error(&reply, 400, "UNSUPPORTED", "digest query parameter required");
    let reply = outside.send(&worker(), with_body(Method::Put, &path, b"x"));
    assert_error(&reply, 400, "DIGEST_INVALID", "digest query parameter required");
    let digest = compute_digest(b"");
    let reply = outside.send(&standalone(), complete(&path, &digest, b""));
    assert_error(&reply, 400, "UNSUPPORTED", "no blob data found for upload");
    let reply = outside.send(&worker(), complete(&path, &digest, b""));
    assert_error(&reply, 400, "BLOB_UPLOAD_UNKNOWN", "no blob data for upload");
}

#[test]
fn empty_blobs_can_be_uploaded() {
    let registry = standalone();
    let mut outside = Outside::default();
    let uuid = start_upload(&mut outside, &registry, "a");
    let path = format!("a/blobs/uploads/{}", uuid);
    let reply = outside.send(&registry, with_body(Method::Patch, &path, b""));
    assert_eq!(header(&reply, "Range"), Some("0--1"));
    let digest = compute_digest(b"");
    assert_eq!(outside.send(&registry, complete(&path, &digest, b"")).status, 201);
    assert_eq!(outside.objects[&blob_key(&digest)].0, b"");
}

#[test]
fn unknown_uploads() {
    let mut outside = Outside::default();
    for registry in [standalone(), worker()] {
        for method in [Method::Get, Method::Patch] {
            let reply = outside.send(&registry, with_body(method, "a/blobs/uploads/u", b"x"));
            assert_error(&reply, 404, "BLOB_UPLOAD_UNKNOWN", "upload not found");
        }
        let reply = outside.send(&registry, complete("a/blobs/uploads/u", "sha256:x", b"x"));
        assert_error(&reply, 404, "BLOB_UPLOAD_UNKNOWN", "upload not found");
    }
    assert_eq!(outside, Outside::default());
}

#[test]
fn cancelled_uploads_are_gone() {
    for registry in [standalone(), worker()] {
        let mut outside = Outside::default();
        let uuid = start_upload(&mut outside, &registry, "a");
        let path = format!("a/blobs/uploads/{}", uuid);
        outside.send(&registry, with_body(Method::Patch, &path, b"x"));
        let reply = outside.send(&registry, request(Method::Delete, &path));
        assert_eq!(reply.status, 204);
        assert!(is_empty(&reply) && reply.headers.is_empty());
        assert_eq!(outside, Outside::default());
        let reply = outside.send(&registry, request(Method::Get, &path));
        assert_error(&reply, 404, "BLOB_UPLOAD_UNKNOWN", "upload not found");
        assert_eq!(outside.send(&registry, request(Method::Delete, &path)).status, 204);
    }
}

#[test]
fn mounting_is_free() {
    for registry in [standalone(), worker()] {
        let (mut outside, digest) = with_blob(b"layer");
        let before = outside.clone();
        let mount = Request {
            mount: Some(digest.clone()),
            ..request(Method::Post, "other/blobs/uploads/")
        };
        let reply = outside.send(&registry, mount);
        assert_eq!(reply.status, 201);
        let location = format!("/v2/other/blobs/{}", digest);
        assert_eq!(header(&reply, "Location"), Some(location.as_str()));
        assert_eq!(header(&reply, "Docker-Content-Digest"), Some(digest.as_str()));
        assert_eq!(outside, before);

        let mount = Request {
            mount: Some("sha256:missing".into()),
            ..request(Method::Post, "other/blobs/uploads/")
        };
        assert_eq!(outside.send(&registry, mount).status, 202);
        assert_eq!(outside.uploads.len(), 1);
    }
}

#[test]
fn mounting_while_the_store_is_broken() {
    let mount = || Request {
        mount: Some("sha256:x".into()),
        ..request(Method::Post, "a/blobs/uploads/")
    };
    let mut outside = Outside { broken: Some("head"), ..Outside::default() };
    assert_eq!(outside.send(&standalone(), mount()).status, 202);
    assert_eq!(outside.uploads.len(), 1);
    assert_eq!(outside.send_raising(&worker(), mount()), "head is broken");
    assert_eq!(outside.uploads.len(), 1);
}

#[test]
fn blobs_are_stored_once() {
    let registry = standalone();
    let mut outside = Outside::default();
    let digest = compute_digest(b"layer");
    for repo in ["a", "b"] {
        let uuid = start_upload(&mut outside, &registry, repo);
        let path = format!("{}/blobs/uploads/{}", repo, uuid);
        assert_eq!(outside.send(&registry, complete(&path, &digest, b"layer")).status, 201);
        assert_eq!(outside.objects.len(), 1);
    }
}

#[test]
fn cleaning_up_does_not_matter_standalone() {
    for broken in ["delete", "delete_upload"] {
        let mut outside = Outside::default();
        let uuid = start_upload(&mut outside, &standalone(), "a");
        outside.broken = Some(broken);
        let path = format!("a/blobs/uploads/{}", uuid);
        let reply = outside.send(&standalone(), complete(&path, &compute_digest(b"x"), b"x"));
        assert_eq!(reply.status, 201);
        assert_eq!(outside.send(&standalone(), request(Method::Delete, &path)).status, 204);
    }
}

#[test]
fn cleaning_up_matters_to_a_worker() {
    let mut outside = Outside::default();
    let uuid = start_upload(&mut outside, &worker(), "a");
    let path = format!("a/blobs/uploads/{}", uuid);
    outside.broken = Some("delete_upload");
    let put = complete(&path, &compute_digest(b"x"), b"x");
    assert_eq!(outside.send_raising(&worker(), put), "delete_upload is broken");
    assert_eq!(outside.send(&worker(), request(Method::Delete, &path)).status, 204);
}

// ---- Failures ----

#[test]
fn failures_are_reported() {
    let (mut outside, digest) = with_blob(b"layer");
    outside.send(&standalone(), with_body(Method::Put, "a/manifests/v1", b"m"));
    let uuid = start_upload(&mut outside, &standalone(), "a");
    let upload = format!("a/blobs/uploads/{}", uuid);
    let blob = format!("a/blobs/{}", digest);
    let by_digest = format!("a/manifests/{}", compute_digest(b"m"));
    let requests: Vec<(&'static str, Method, String)> = vec![
        ("find_tag", Method::Get, "a/manifests/v1".into()),
        ("find_manifest", Method::Head, "a/manifests/v1".into()),
        ("find_manifest", Method::Delete, "a/manifests/v1".into()),
        ("get", Method::Get, "a/manifests/v1".into()),
        ("put", Method::Put, "a/manifests/v1".into()),
        ("put_manifest", Method::Put, "a/manifests/v1".into()),
        ("put_tag", Method::Put, "a/manifests/v1".into()),
        ("head", Method::Get, blob.clone()),
        ("head", Method::Head, blob.clone()),
        ("delete", Method::Delete, blob.clone()),
        ("create_upload", Method::Post, "a/blobs/uploads/".into()),
        ("find_upload", Method::Get, upload.clone()),
        ("put", Method::Patch, upload.clone()),
        ("update_upload", Method::Patch, upload.clone()),
        ("list", Method::Get, "a/tags/list".into()),
        ("delete_tag", Method::Delete, "a/manifests/v1".into()),
        ("delete_manifest", Method::Delete, by_digest),
    ];
    for (broken, method, path) in requests {
        let message = format!("{} is broken", broken);
        let mut copy = Outside { broken: Some(broken), ..outside.clone() };
        let reply = copy.send(&standalone(), request(method, &path));
        assert_error(&reply, 500, "INTERNAL_ERROR", &message);
        let mut copy = Outside { broken: Some(broken), ..outside.clone() };
        assert_eq!(copy.send_raising(&worker(), request(method, &path)), message);
    }
    let mut copy = Outside { broken: Some("presign"), ..outside.clone() };
    let reply = copy.send(&standalone(), request(Method::Get, &blob));
    assert_error(&reply, 500, "INTERNAL_ERROR", "presign is broken");
    let mut copy = Outside { broken: Some("get"), ..outside.clone() };
    assert_eq!(copy.send_raising(&worker(), request(Method::Get, &blob)), "get is broken");
}

#[test]
fn a_blob_that_vanishes_on_the_way() {
    let (mut outside, digest) = with_blob(b"layer");
    let step = start(&worker(), request(Method::Get, &format!("a/blobs/{}", digest)));
    let Step::HeadObject { then, .. } = step else { panic!("not a question for the size") };
    let step = worker().after_size(then, Ok(Some(5)));
    outside.objects.clear();
    match outside.run(&worker(), step) {
        End::Raised(message) => assert_eq!(message, "blob not found"),
        End::Replied(reply) => panic!("replied: {:?}", reply),
    }
}

// ---- Lists ----

#[test]
fn lists_of_names() {
    for registry in [standalone(), worker()] {
        let mut outside = Outside::default();
        outside.send(&registry, with_body(Method::Put, "b/manifests/v2", b"m"));
        outside.send(&registry, with_body(Method::Put, "b/manifests/v1", b"m"));
        outside.send(&registry, with_body(Method::Put, "a/x/manifests/latest", b"m"));
        let reply = outside.send(&registry, request(Method::Get, "b/tags/list"));
        assert_eq!(reply.status, 200);
        assert_eq!(headers(&reply), vec![("Content-Type", "application/json")]);
        assert_eq!(text(&reply), r#"{"name":"b","tags":["v1","v2"]}"#);
        outside.send(&registry, with_body(Method::Put, "d/manifests/é", b"m"));
        outside.send(&registry, with_body(Method::Put, "d/manifests/z", b"m"));
        outside.send(&registry, with_body(Method::Put, "d/manifests/Z", b"m"));
        let reply = outside.send(&registry, request(Method::Get, "d/tags/list"));
        assert_eq!(text(&reply), r#"{"name":"d","tags":["Z","z","é"]}"#);
        outside.tags.insert(("e".to_string(), "v1".to_string()), "sha256:x".to_string());
        start_upload(&mut outside, &registry, "f");
        let reply = outside.send(&registry, request(Method::Get, "c/tags/list"));
        assert_eq!(text(&reply), r#"{"name":"c","tags":[]}"#);
        let step = if is_worker(&registry) {
            registry.fetch(request(Method::Get, "/v2/_catalog"))
        } else {
            registry.list_repos(Method::Get, &None)
        };
        match outside.run(&registry, step) {
            End::Replied(reply) => {
                assert_eq!(reply.status, 200);
                assert_eq!(text(&reply), r#"{"repositories":["a/x","b","d"]}"#);
            }
            End::Raised(message) => panic!("raised: {}", message),
        }
    }
}

/// Whether what the database and the store hold fits together.
fn is_sound(outside: &Outside) -> bool {
    let blobs = outside.objects.iter().all(|(key, object)| match key.strip_prefix("blobs/") {
        Some(digest) => digest == compute_digest(&object.0),
        None => true,
    });
    let manifests = outside.manifests.iter().all(|((repo, digest), (_, size))| {
        match outside.objects.get(&manifest_key(repo, digest)) {
            Some(object) => {
                *digest == compute_digest(&object.0) && *size == object.0.len() as i64
            }
            None => true,
        }
    });
    let tags = outside
        .tags
        .iter()
        .all(|((repo, _), digest)| outside.manifests.contains_key(&(repo.clone(), digest.clone())));
    blobs && manifests && tags
}

#[test]
fn history_stays_sound() {
    for registry in [standalone(), worker()] {
        let mut outside = Outside::default();
        let layer = compute_digest(b"layer");
        let by_digest = format!("a/manifests/{}", compute_digest(b"m"));
        let uuid = start_upload(&mut outside, &registry, "a");
        let upload = format!("a/blobs/uploads/{}", uuid);
        let requests = vec![
            with_body(Method::Put, "a/manifests/v1", b"m"),
            with_body(Method::Put, "a/manifests/v2", b"m"),
            with_body(Method::Put, "a/manifests/sha256:odd", b"n"),
            with_body(Method::Patch, &upload, b"layer"),
            complete(&upload, "sha256:wrong", b""),
            complete(&upload, &layer, b""),
            request(Method::Delete, "a/manifests/v1"),
            with_body(Method::Put, "b/manifests/v1", b"m"),
            request(Method::Delete, &by_digest),
            request(Method::Delete, &format!("a/blobs/{}x", layer)),
        ];
        for requested in requests {
            outside.send(&registry, requested);
            assert!(is_sound(&outside), "{:?}", outside);
        }
        assert!(outside.objects.contains_key(&blob_key(&layer)));
        assert_eq!(outside.tags.len(), 1);
    }
}

#[test]
fn reading_changes_nothing() {
    let registry = standalone();
    let (mut outside, digest) = with_blob(b"layer");
    outside.send(&registry, with_body(Method::Put, "a/manifests/v1", b"m"));
    let uuid = start_upload(&mut outside, &registry, "a");
    let before = outside.clone();
    let paths = [
        "a/manifests/v1".to_string(),
        "a/manifests/none".to_string(),
        format!("a/blobs/{}", digest),
        format!("a/blobs/uploads/{}", uuid),
        "a/blobs/uploads/".to_string(),
        "a/tags/list".to_string(),
        "nothing".to_string(),
    ];
    for path in &paths {
        for method in [Method::Get, Method::Head] {
            outside.send(&registry, request(method, path));
            assert_eq!(outside, before);
        }
    }
}

// ---- Routing ----

#[test]
fn methods_that_paths_do_not_have() {
    let mut outside = Outside::default();
    for registry in [standalone(), worker()] {
        let wrong = [
            (Method::Post, "a/manifests/v1"),
            (Method::Patch, "a/manifests/v1"),
            (Method::Put, "a/blobs/sha256:x"),
            (Method::Other, "a/blobs/sha256:x"),
            (Method::Get, "a/blobs/uploads/"),
            (Method::Put, "a/blobs/uploads/"),
            (Method::Head, "a/blobs/uploads/u"),
            (Method::Post, "a/blobs/uploads/u"),
            (Method::Head, "a/tags/list"),
            (Method::Delete, "a/tags/list"),
        ];
        for (method, path) in wrong {
            let reply = outside.send(&registry, request(method, path));
            assert_eq!(reply.status, 405, "{:?} {}", method, path);
            assert!(is_empty(&reply) && reply.headers.is_empty());
        }
    }
    assert_eq!(outside, Outside::default());
}

#[test]
fn unknown_paths() {
    let mut outside = Outside::default();
    let reply = outside.send(&standalone(), request(Method::Get, "nothing"));
    assert_error(&reply, 404, "NAME_UNKNOWN", "path not found");
    let reply = outside.send(&worker(), request(Method::Get, "nothing"));
    assert_error(&reply, 404, "NAME_UNKNOWN", "path not recognized");
}

fn reply_of(step: Step) -> Reply {
    match step {
        Step::Reply(reply) => reply,
        other => panic!("not a reply: {:?}", other),
    }
}

#[test]
fn version_checks() {
    let replies = vec![
        standalone().api_version_check(Method::Get, &None),
        standalone().api_version_check(Method::Head, &None),
        worker().fetch(request(Method::Get, "/v2/")),
        worker().fetch(request(Method::Get, "/v2")),
        worker().fetch(request(Method::Post, "/v2/")),
    ];
    for step in replies {
        let reply = reply_of(step);
        assert_eq!(reply.status, 200);
        assert_eq!(text(&reply), "{}");
        assert_eq!(
            headers(&reply),
            vec![
                ("Content-Type", "application/json"),
                ("Docker-Distribution-API-Version", "registry/2.0"),
            ]
        );
    }
    for step in [
        standalone().api_version_check(Method::Post, &None),
        standalone().list_repos(Method::Delete, &None),
    ] {
        let reply = reply_of(step);
        assert_eq!(reply.status, 405);
        assert_eq!(headers(&reply), vec![("Allow", "GET,HEAD")]);
    }
}

#[test]
fn paths_of_a_worker() {
    let reply = reply_of(worker().fetch(request(Method::Get, "/v1/")));
    assert_error(&reply, 404, "NAME_UNKNOWN", "only /v2 paths are supported");
    let reply = reply_of(worker().fetch(request(Method::Post, "/v2/_catalog")));
    assert_error(&reply, 404, "NAME_UNKNOWN", "path not recognized");
    let step = worker().fetch(request(Method::Get, "/v2//v2/a/tags/list"));
    assert!(matches!(step, Step::ListNames { .. }));
}

#[test]
fn parts_that_are_wanted() {
    let all = [Part::ContentType, Part::Mount, Part::Digest, Part::Body];
    for registry in [standalone(), worker()] {
        let root = if is_worker(&registry) { "/v2/" } else { "" };
        let wanted = |method: Method, path: &str, digest: Option<&str>| -> Vec<Part> {
            let requested = Request {
                digest: digest.map(str::to_string),
                ..request(method, &format!("{}{}", root, path))
            };
            all.into_iter().filter(|part| registry.wants(&requested, *part)).collect()
        };
        let none: Vec<Part> = vec![];
        assert_eq!(
            wanted(Method::Put, "a/manifests/v1", None),
            vec![Part::ContentType, Part::Body]
        );
        assert_eq!(wanted(Method::Post, "a/blobs/uploads/", None), vec![Part::Mount]);
        assert_eq!(wanted(Method::Patch, "a/blobs/uploads/u", None), vec![Part::Body]);
        assert_eq!(wanted(Method::Put, "a/blobs/uploads/u", None), vec![Part::Digest]);
        assert_eq!(
            wanted(Method::Put, "a/blobs/uploads/u", Some("sha256:x")),
            vec![Part::Digest, Part::Body]
        );
        assert_eq!(wanted(Method::Get, "a/manifests/v1", None), none);
        assert_eq!(wanted(Method::Put, "a/blobs/sha256:x", None), none);
        assert_eq!(wanted(Method::Get, "a/tags/list", None), none);
        assert_eq!(wanted(Method::Put, "nothing", None), none);
    }
    for part in all {
        assert!(!worker().wants(&request(Method::Put, "/v1/a/manifests/v1"), part));
        assert!(!worker().wants(&request(Method::Put, "/v2/"), part));
        assert!(!guarded().wants(&request(Method::Put, "a/manifests/v1"), part));
    }
}

#[test]
fn parameters_that_are_given_twice() {
    let pair = |name: &str, value: &str| (name.to_string(), value.to_string());
    let pairs = vec![pair("a", "1"), pair("b", "2"), pair("a", "3"), pair("c", "")];
    let worker = |name: &str| parameter(Edition::Worker, &pairs, name);
    let standalone = |name: &str| parameter(Edition::Standalone, &pairs, name);
    assert_eq!(worker("a"), Some("1".to_string()));
    assert_eq!(standalone("a"), Some("3".to_string()));
    assert_eq!(worker("b"), standalone("b"));
    assert_eq!(standalone("c"), Some(String::new()));
    assert_eq!(worker("d"), None);
    assert_eq!(standalone("d"), None);
}

// ---- Tokens ----

fn guarded() -> Registry {
    let mut with_token = config();
    with_token.auth_token = Some("my-secret-token".into());
    Registry::standalone(&with_token)
}

fn assert_challenge(reply: &Reply, challenge: &str) {
    assert_eq!(reply.status, 401);
    assert_eq!(
        headers(reply),
        vec![("WWW-Authenticate", challenge), ("Content-Type", "application/json")]
    );
    assert_eq!(
        text(reply),
        r#"{"errors":[{"code":"UNAUTHORIZED","message":"authentication required","detail":null}]}"#
    );
}

#[test]
fn requests_need_the_token() {
    let challenge = r#"Bearer realm="/v2/token",service="registry""#;
    for authorization in [None, Some("Bearer wrong".to_string()), Some("Basic x".to_string())] {
        let requested = Request {
            authorization: authorization.clone(),
            ..with_body(Method::Put, "a/manifests/v1", b"m")
        };
        assert_challenge(&reply_of(guarded().dispatch(requested)), challenge);
        let step = guarded().api_version_check(Method::Get, &authorization);
        assert_challenge(&reply_of(step), challenge);
        let step = guarded().list_repos(Method::Get, &authorization);
        assert_challenge(&reply_of(step), challenge);
    }
    let token = Some("Bearer my-secret-token".to_string());
    let mut outside = Outside::default();
    let requested = Request {
        authorization: token.clone(),
        ..with_body(Method::Put, "a/manifests/v1", b"m")
    };
    assert_eq!(outside.send(&guarded(), requested).status, 201);
    assert_eq!(reply_of(guarded().api_version_check(Method::Get, &token)).status, 200);
    assert!(guarded().lets_in(&token));
    assert!(!guarded().lets_in(&None));
    assert!(standalone().lets_in(&None));
}

#[test]
fn workers_need_the_token() {
    let registry = Registry::worker(Some("t".into()), None);
    let challenge = r#"Bearer realm="https://registry.example.com/auth",service="registry""#;
    for path in ["/v2/", "/v2/_catalog", "/v2/a/tags/list", "/v2/nothing"] {
        assert_challenge(&reply_of(registry.fetch(request(Method::Get, path))), challenge);
    }
    let reply = reply_of(registry.fetch(request(Method::Get, "/")));
    assert_eq!(reply.status, 404);
    let requested =
        Request { authorization: Some("Bearer t".into()), ..request(Method::Get, "/v2/") };
    assert_eq!(reply_of(registry.fetch(requested)).status, 200);
}

#[test]
fn empty_tokens() {
    assert!(Registry::worker(Some("".into()), None).lets_in(&None));
    let mut with_token = config();
    with_token.auth_token = Some("".into());
    let registry = Registry::standalone(&with_token);
    assert!(!registry.lets_in(&None));
    assert!(registry.lets_in(&Some("Bearer ".to_string())));
}

// ---- Queries ----

fn bind_texts(query: &Query) -> Vec<String> {
    query
        .binds()
        .into_iter()
        .map(|bind| match bind {
            Bind::Text(text) => text,
            Bind::Integer(n) => n.to_string(),
        })
        .collect()
}

#[test]
fn statements_have_a_value_for_each_placeholder() {
    let text = |s: &str| s.to_string();
    let queries = vec![
        Query::FindTag { repo: text("r"), tag: text("t") },
        Query::FindManifest { repo: text("r"), digest: text("d") },
        Query::FindUpload { uuid: text("u") },
        Query::ListTags { repo: text("r") },
        Query::ListRepos,
        Query::PutManifest { repo: text("r"), digest: text("d"), content_type: text("c"), size: 7 },
        Query::PutTag { repo: text("r"), tag: text("t"), digest: text("d") },
        Query::DeleteManifest { repo: text("r"), digest: text("d") },
        Query::DeleteTagsOf { repo: text("r"), digest: text("d") },
        Query::DeleteTag { repo: text("r"), tag: text("t") },
        Query::CreateUpload { uuid: text("u"), repo: text("r") },
        Query::UpdateUpload { uuid: text("u"), offset: 9 },
        Query::DeleteUpload { uuid: text("u") },
    ];
    for query in &queries {
        assert_eq!(query.sql().matches('?').count(), query.binds().len(), "{}", query.sql());
    }
    assert_eq!(bind_texts(&queries[5]), vec!["r", "d", "c", "7"]);
    assert_eq!(
        queries[5].sql(),
        "INSERT OR REPLACE INTO manifests (repo, digest, content_type, size) VALUES (?, ?, ?, ?)"
    );
    assert_eq!(bind_texts(&queries[11]), vec!["9", "u"]);
    assert_eq!(queries[11].sql(), "UPDATE uploads SET offset = ? WHERE uuid = ?");
    assert_eq!(bind_texts(&queries[10]), vec!["u", "r"]);
    assert_eq!(bind_texts(&queries[6]), vec!["r", "t", "d"]);
}

#[test]
fn manifests_by_digest_and_by_tag() {
    assert!(yatch::db::is_digest("sha256:x"));
    assert!(!yatch::db::is_digest("latest"));
    assert!(matches!(yatch::db::get_manifest("r", "sha256:x"), Query::FindManifest { .. }));
    assert!(matches!(yatch::db::get_manifest("r", "latest"), Query::FindTag { .. }));
    assert_eq!(yatch::db::delete_manifest("r", "sha256:x").len(), 2);
    assert_eq!(yatch::db::delete_manifest("r", "latest").len(), 1);
}
