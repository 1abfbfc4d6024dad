//! Paths, keys, digests and the JSON of replies.

use yatch::digest::{compute_digest, format_digest, verify_digest};
use yatch::keys::{blob_key, manifest_key, upload_key};
use yatch::oci_error::{OciError, OciErrors};
use yatch::oci_path::{parse_oci_path, OciPath};
use yatch::types::{Catalog, ManifestInfo, TagList, UploadInfo};

#[test]
fn parse_manifests() {
    assert_eq!(
        parse_oci_path("library/ubuntu/manifests/latest"),
        Some(OciPath::Manifests {
            name: "library/ubuntu".into(),
            reference: "latest".into()
        })
    );
}

#[test]
fn parse_blob() {
    let p = parse_oci_path("myrepo/blobs/sha256:deadbeef").unwrap();
    assert!(matches!(p, OciPath::Blob { .. }));
}

#[test]
fn parse_upload_start() {
    let p = parse_oci_path("myrepo/blobs/uploads/").unwrap();
    assert!(matches!(p, OciPath::BlobUploadStart { .. }));
}

#[test]
fn parse_upload_uuid() {
    let p = parse_oci_path("myrepo/blobs/uploads/abc-123").unwrap();
    assert!(matches!(p, OciPath::BlobUpload { .. }));
}

#[test]
fn parse_tags_list() {
    let p = parse_oci_path("library/ubuntu/tags/list").unwrap();
    assert!(matches!(p, OciPath::TagsList { .. }));
}

#[test]
fn digest_round_trip() {
    let data = b"hello world";
    let d = compute_digest(data);
    assert!(verify_digest(data, &d));
}

fn manifests(name: &str, reference: &str) -> Option<OciPath> {
    Some(OciPath::Manifests { name: name.into(), reference: reference.into() })
}

fn blob(name: &str, digest: &str) -> Option<OciPath> {
    Some(OciPath::Blob { name: name.into(), digest: digest.into() })
}

fn upload_start(name: &str) -> Option<OciPath> {
    Some(OciPath::BlobUploadStart { name: name.into() })
}

fn upload(name: &str, uuid: &str) -> Option<OciPath> {
    Some(OciPath::BlobUpload { name: name.into(), uuid: uuid.into() })
}

fn tags(name: &str) -> Option<OciPath> {
    Some(OciPath::TagsList { name: name.into() })
}

#[test]
fn documented_paths() {
    assert_eq!(
        parse_oci_path("library/ubuntu/manifests/latest"),
        manifests("library/ubuntu", "latest")
    );
    assert_eq!(
        parse_oci_path("myrepo/blobs/sha256:deadbeef"),
        blob("myrepo", "sha256:deadbeef")
    );
    assert_eq!(parse_oci_path("myrepo/blobs/uploads/"), upload_start("myrepo"));
    assert_eq!(
        parse_oci_path("myrepo/blobs/uploads/abc-123-def"),
        upload("myrepo", "abc-123-def")
    );
    assert_eq!(parse_oci_path("library/ubuntu/tags/list"), tags("library/ubuntu"));
    assert_eq!(parse_oci_path("a/b/c/manifests/tag"), manifests("a/b/c", "tag"));
}

#[test]
fn leading_slashes_are_dropped() {
    assert_eq!(parse_oci_path("//a/manifests/b"), manifests("a", "b"));
    assert_eq!(parse_oci_path("/a/tags/list"), tags("a"));
}

#[test]
fn first_separator_ends_the_name() {
    assert_eq!(
        parse_oci_path("a/manifests/b/manifests/c"),
        manifests("a", "b/manifests/c")
    );
    assert_eq!(
        parse_oci_path("a/blobs/uploads/b/manifests/c"),
        manifests("a/blobs/uploads/b", "c")
    );
    assert_eq!(parse_oci_path("a/blobs/b/blobs/uploads/c"), upload("a/blobs/b", "c"));
}

#[test]
fn uploads_with_and_without_slashes() {
    assert_eq!(parse_oci_path("a/blobs/uploads"), upload_start("a"));
    assert_eq!(parse_oci_path("a/blobs/uploads///"), upload_start("a"));
    assert_eq!(parse_oci_path("a/blobs/uploads//u"), upload("a", "u"));
    assert_eq!(parse_oci_path("a/blobs/uploadsXYZ"), upload("a", "XYZ"));
}

#[test]
fn paths_that_are_not_recognised() {
    for path in [
        "",
        "/",
        "a",
        "_catalog",
        "manifests/latest",
        "a/manifests/",
        "a/blobs/",
        "blobs/uploads/u",
        "tags/list",
        "/tags/list",
        "a/tags/list/",
        "a/tags",
    ] {
        assert_eq!(parse_oci_path(path), None, "{}", path);
    }
}

#[test]
fn empty_parts_fall_through() {
    // Without a reference the path is not one of a manifest, but may be one of tags.
    assert_eq!(parse_oci_path("a/manifests/"), None);
    assert_eq!(parse_oci_path("x/blobs/y/manifests/"), blob("x", "y/manifests/"));
    assert_eq!(parse_oci_path("a/blobs/tags/list"), blob("a", "tags/list"));
}

#[test]
fn paths_in_other_scripts() {
    assert_eq!(parse_oci_path("ü/ß/manifests/ñ"), manifests("ü/ß", "ñ"));
}

#[test]
fn names_of_objects() {
    assert_eq!(blob_key("sha256:ab"), "blobs/sha256:ab");
    assert_eq!(
        manifest_key("library/ubuntu", "sha256:abc123"),
        "manifests/library/ubuntu/sha256:abc123"
    );
    assert_eq!(upload_key("u-1"), "uploads/u-1");
}

#[test]
fn kinds_of_names_are_apart() {
    let keys = [blob_key("x"), manifest_key("x", "x"), upload_key("x")];
    assert_ne!(keys[0], keys[1]);
    assert_ne!(keys[1], keys[2]);
    assert_ne!(keys[0], keys[2]);
    assert_ne!(manifest_key("a", "b"), manifest_key("a/b", "b"));
    assert_ne!(blob_key("a"), blob_key("b"));
    assert_ne!(upload_key("a"), upload_key("b"));
}

#[test]
fn digests_of_known_messages() {
    assert_eq!(
        compute_digest(b""),
        "sha256:e3b0c44298fc1c149afbf4c8996fb92427ae41e4649b934ca495991b7852b855"
    );
    assert_eq!(
        compute_digest(b"abc"),
        "sha256:ba7816bf8f01cfea414140de5dae2223b00361a396177a9cb410ff61f20015ad"
    );
    assert_eq!(
        compute_digest(b"hello world"),
        "sha256:b94d27b9934d3e08a52e52d7da7dabfac484efe37a5380ee9088f7ace2efcde9"
    );
    assert!(!compute_digest(b"/").contains('/'));
}

#[test]
fn digests_in_hexadecimal() {
    assert_eq!(format_digest(&[]), "sha256:");
    assert_eq!(format_digest(&[0x00, 0x0f, 0xa0, 0xff]), "sha256:000fa0ff");
}

#[test]
fn only_the_very_digest_is_verified() {
    let digest = compute_digest(b"abc");
    assert!(verify_digest(b"abc", &digest));
    assert!(!verify_digest(b"abd", &digest));
    assert!(!verify_digest(b"abc", &digest.to_uppercase()));
    assert!(!verify_digest(b"abc", &digest[7..]));
    assert!(!verify_digest(b"abc", ""));
}

#[test]
fn errors_in_json() {
    assert_eq!(
        OciErrors::blob_unknown().to_json(),
        r#"{"errors":[{"code":"BLOB_UNKNOWN","message":"blob unknown to registry","detail":null}]}"#
    );
    assert_eq!(
        OciErrors::manifest_unknown().to_json(),
        r#"{"errors":[{"code":"MANIFEST_UNKNOWN","message":"manifest unknown to registry","detail":null}]}"#
    );
    assert_eq!(
        OciErrors::digest_invalid().to_json(),
        r#"{"errors":[{"code":"DIGEST_INVALID","message":"provided digest did not match uploaded content","detail":null}]}"#
    );
    assert_eq!(
        OciErrors::not_found("nothing here").to_json(),
        r#"{"errors":[{"code":"NAME_UNKNOWN","message":"nothing here","detail":null}]}"#
    );
    assert_eq!(
        OciErrors::new("A", "b").to_json(),
        r#"{"errors":[{"code":"A","message":"b","detail":null}]}"#
    );
}

#[test]
fn no_errors_and_several_in_json() {
    assert_eq!(OciErrors { errors: vec![] }.to_json(), r#"{"errors":[]}"#);
    let one = OciError { code: "A".into(), message: "a".into(), detail: "null".into() };
    let two = OciError { code: "B".into(), message: "b".into(), detail: "{\"n\":1}".into() };
    assert_eq!(
        OciErrors { errors: vec![one, two] }.to_json(),
        r#"{"errors":[{"code":"A","message":"a","detail":null},{"code":"B","message":"b","detail":{"n":1}}]}"#
    );
}

#[test]
fn escapes_in_json() {
    let errors = OciErrors::new("\"\\", "\u{8}\t\n\u{c}\r\u{0}\u{1f}\u{7f}/ü\u{2028}");
    assert_eq!(
        errors.to_json(),
        "{\"errors\":[{\"code\":\"\\\"\\\\\",\"message\":\"\\b\\t\\n\\f\\r\\u0000\\u001f\u{7f}/ü\u{2028}\",\"detail\":null}]}"
    );
}

#[test]
fn escaped_json_is_read_back() {
    let message = "a \"quoted\" \\ line\nand\u{1}control ü";
    let text = OciErrors::new("CODE", message).to_json();
    let value: serde_json::Value = serde_json::from_str(&text).unwrap();
    assert_eq!(value["errors"][0]["message"], message);
    assert_eq!(value["errors"][0]["detail"], serde_json::Value::Null);
}

#[test]
fn lists_in_json() {
    let list = TagList { name: "a/b".into(), tags: vec!["latest".into(), "v\"1".into()] };
    assert_eq!(list.to_json(), r#"{"name":"a/b","tags":["latest","v\"1"]}"#);
    let none = TagList { name: "a".into(), tags: vec![] };
    assert_eq!(none.to_json(), r#"{"name":"a","tags":[]}"#);
    let catalog = Catalog { repositories: vec!["a".into()] };
    assert_eq!(catalog.to_json(), r#"{"repositories":["a"]}"#);
    let empty = Catalog { repositories: vec![] };
    assert_eq!(empty.to_json(), r#"{"repositories":[]}"#);
}

#[test]
fn infos_are_cloned() {
    let manifest = ManifestInfo {
        repo: "r".into(),
        digest: "d".into(),
        content_type: "t".into(),
        size: 3,
    };
    let copy = manifest.clone();
    assert_eq!(copy.repo, "r");
    assert_eq!(copy.digest, "d");
    assert_eq!(copy.content_type, "t");
    assert_eq!(copy.size, 3);
    let upload = UploadInfo { uuid: "u".into(), repo: "r".into(), offset: 4 };
    let copy = upload.clone();
    assert_eq!((copy.uuid, copy.repo, copy.offset), ("u".into(), "r".into(), 4));
}
