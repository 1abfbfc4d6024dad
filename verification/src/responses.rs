//! The replies of the registry to requests on manifests, blobs, uploads and tags.

use vstd::prelude::*;

use crate::db::{ManifestRow, ManifestRowView};
use crate::oci_error::OciErrors;
use crate::reply;
use crate::reply::{
    add_header, bad_request, empty_reply, no_headers, oci_error, Body, BodyView,
    Reply, ReplyView, API_VERSION, OCTETS,
};
use crate::step::Edition;
use crate::text;
use crate::text::{int_text, nat_text};

verus! {

/// The length of some data as the registry records it.
pub open spec fn length_spec(data: Seq<u8>) -> i64 {
    data.len() as i64
}

/// The range that has been received of an upload, by its length.
pub open spec fn range_spec(length: i64) -> Seq<char> {
    "0-"@ + text::decimal(
        if length == i64::MIN {
            i64::MIN as int
        } else {
            length - 1
        },
    )
}

/// The range that has been received of an upload, by its length.
pub fn range_text(length: i64) -> (res: String)
    ensures
        res@ == range_spec(length),
{
    let last: i64 = if length == i64::MIN {
        i64::MIN
    } else {
        length - 1
    };
    let last_text = int_text(last);
    let mut res = "0-".to_owned();
    res.append(&last_text);
    res
}

/// The location of a manifest.
pub open spec fn manifest_location_spec(repo: Seq<char>, digest: Seq<char>) -> Seq<char> {
    "/v2/"@ + repo + "/manifests/"@ + digest
}

/// The location of a blob.
pub open spec fn blob_location_spec(repo: Seq<char>, digest: Seq<char>) -> Seq<char> {
    "/v2/"@ + repo + "/blobs/"@ + digest
}

/// The location of an upload.
pub open spec fn upload_location_spec(repo: Seq<char>, uuid: Seq<char>) -> Seq<char> {
    "/v2/"@ + repo + "/blobs/uploads/"@ + uuid
}

/// A location below a repository.
fn location(repo: &str, marker: &str, rest: &str) -> (res: String)
    ensures
        res@ == "/v2/"@ + repo@ + marker@ + rest@,
{
    let mut res = "/v2/".to_owned();
    res.append(repo);
    res.append(marker);
    res.append(rest);
    res
}

/// The URL of an object below a public base URL.
pub open spec fn public_url_spec(base: Seq<char>, key: Seq<char>) -> Seq<char> {
    text::trim_end_spec(base, '/') + "/"@ + key
}

/// The URL of an object below a public base URL.
pub fn public_url(base: &str, key: &str) -> (res: String)
    ensures
        res@ == public_url_spec(base@, key@),
{
    let mut res = text::trim_end(base, '/');
    res.append("/");
    res.append(key);
    res
}

/// Slashes at the end of a base URL do not matter.
pub proof fn law_base_url_slashes(base: Seq<char>, key: Seq<char>)
    ensures
        public_url_spec(base + "/"@, key) == public_url_spec(base, key),
{
    reveal_strlit("/");
    assert((base + "/"@).drop_last() =~= base);
    assert((base + "/"@).last() == '/');
}

/// A reply without headers or a body.
pub open spec fn bare_reply(status: u16) -> ReplyView {
    reply::empty_reply_spec(status, Seq::empty())
}

/// A reply without headers or a body.
pub fn bare(status: u16) -> (res: Reply)
    ensures
        res.deep_view() == bare_reply(status),
{
    empty_reply(status, no_headers())
}

/// The reply to a version check.
pub open spec fn version_reply() -> ReplyView {
    ReplyView {
        status: 200,
        headers: seq![
            ("Content-Type"@, reply::JSON@),
            ("Docker-Distribution-API-Version"@, API_VERSION@),
        ],
        body: BodyView::Text("{}"@),
    }
}

/// The reply to a version check.
pub fn version() -> (res: Reply)
    ensures
        res.deep_view() == version_reply(),
{
    let mut headers = no_headers();
    add_header(&mut headers, "Content-Type", reply::JSON);
    add_header(&mut headers, "Docker-Distribution-API-Version", API_VERSION);
    assert(headers.deep_view() == version_reply().headers);
    Reply { status: 200, headers, body: Body::Text("{}".to_owned()) }
}

/// The reply to a method that a fixed path does not have.
pub open spec fn get_only_reply() -> ReplyView {
    reply::empty_reply_spec(405, seq![("Allow"@, "GET,HEAD"@)])
}

/// The reply to a method that a fixed path does not have.
pub fn get_only() -> (res: Reply)
    ensures
        res.deep_view() == get_only_reply(),
{
    let mut headers = no_headers();
    add_header(&mut headers, "Allow", "GET,HEAD");
    empty_reply(405, headers)
}

// ---- Manifests ----

/// A manifest with its content.
pub open spec fn manifest_reply(
    edition: Edition,
    row: ManifestRowView,
    data: Seq<u8>,
) -> ReplyView {
    ReplyView {
        status: 200,
        headers: if edition == Edition::Standalone {
            seq![
                ("Content-Type"@, row.content_type),
                ("Docker-Content-Digest"@, row.digest),
                ("Content-Length"@, text::decimal(data.len() as int)),
                ("Docker-Distribution-API-Version"@, API_VERSION@),
            ]
        } else {
            seq![
                ("Content-Type"@, row.content_type),
                ("Docker-Content-Digest"@, row.digest),
                ("Docker-Distribution-API-Version"@, API_VERSION@),
            ]
        },
        body: BodyView::Bytes(data),
    }
}

/// A manifest with its content.
pub fn manifest_found(edition: Edition, row: &ManifestRow, data: Vec<u8>) -> (res: Reply)
    ensures
        res.deep_view() == manifest_reply(edition, row.deep_view(), data@),
{
    let mut headers = no_headers();
    add_header(&mut headers, "Content-Type", &row.content_type);
    add_header(&mut headers, "Docker-Content-Digest", &row.digest);
    if edition == Edition::Standalone {
        let length = nat_text(data.len() as u64);
        add_header(&mut headers, "Content-Length", &length);
    }
    add_header(&mut headers, "Docker-Distribution-API-Version", API_VERSION);
    assert(headers.deep_view() == manifest_reply(edition, row.deep_view(), data@).headers);
    Reply { status: 200, headers, body: Body::Bytes(data) }
}

/// A manifest without its content.
pub open spec fn manifest_head_reply(row: ManifestRowView) -> ReplyView {
    reply::empty_reply_spec(
        200,
        seq![
            ("Content-Type"@, row.content_type),
            ("Docker-Content-Digest"@, row.digest),
            ("Content-Length"@, text::decimal(row.size as int)),
            ("Docker-Distribution-API-Version"@, API_VERSION@),
        ],
    )
}

/// A manifest without its content.
pub fn manifest_head(row: &ManifestRow) -> (res: Reply)
    ensures
        res.deep_view() == manifest_head_reply(row.deep_view()),
{
    let size = int_text(row.size);
    let mut headers = no_headers();
    add_header(&mut headers, "Content-Type", &row.content_type);
    add_header(&mut headers, "Docker-Content-Digest", &row.digest);
    add_header(&mut headers, "Content-Length", &size);
    add_header(&mut headers, "Docker-Distribution-API-Version", API_VERSION);
    assert(headers.deep_view() == manifest_head_reply(row.deep_view()).headers);
    empty_reply(200, headers)
}

/// Something that was created at a location, with its digest.
pub open spec fn created_reply(
    edition: Edition,
    digest: Seq<char>,
    location: Seq<char>,
) -> ReplyView {
    reply::empty_reply_spec(
        201,
        if edition == Edition::Standalone {
            seq![
                ("Docker-Content-Digest"@, digest),
                ("Location"@, location),
                ("Content-Length"@, "0"@),
            ]
        } else {
            seq![("Docker-Content-Digest"@, digest), ("Location"@, location)]
        },
    )
}

/// Something that was created at a location, with its digest.
fn created(edition: Edition, digest: &str, location: &str) -> (res: Reply)
    ensures
        res.deep_view() == created_reply(edition, digest@, location@),
{
    let mut headers = no_headers();
    add_header(&mut headers, "Docker-Content-Digest", digest);
    add_header(&mut headers, "Location", location);
    if edition == Edition::Standalone {
        add_header(&mut headers, "Content-Length", "0");
    }
    assert(headers.deep_view() == created_reply(edition, digest@, location@).headers);
    empty_reply(201, headers)
}

/// A manifest that was stored.
pub open spec fn manifest_created_reply(
    edition: Edition,
    repo: Seq<char>,
    digest: Seq<char>,
) -> ReplyView {
    created_reply(edition, digest, manifest_location_spec(repo, digest))
}

/// A manifest that was stored.
pub fn manifest_created(edition: Edition, repo: &str, digest: &str) -> (res: Reply)
    ensures
        res.deep_view() == manifest_created_reply(edition, repo@, digest@),
{
    let place = location(repo, "/manifests/", digest);
    created(edition, digest, &place)
}

/// A blob that was stored, or was there already.
pub open spec fn blob_created_reply(
    edition: Edition,
    repo: Seq<char>,
    digest: Seq<char>,
) -> ReplyView {
    created_reply(edition, digest, blob_location_spec(repo, digest))
}

/// A blob that was stored, or was there already.
pub fn blob_created(edition: Edition, repo: &str, digest: &str) -> (res: Reply)
    ensures
        res.deep_view() == blob_created_reply(edition, repo@, digest@),
{
    let place = location(repo, "/blobs/", digest);
    created(edition, digest, &place)
}

/// A manifest of which there is no metadata.
pub open spec fn manifest_unknown_reply(edition: Edition) -> ReplyView {
    reply::error_reply(
        404,
        "MANIFEST_UNKNOWN"@,
        if edition == Edition::Standalone {
            "manifest unknown to registry"@
        } else {
            "manifest unknown"@
        },
    )
}

/// A manifest of which there is no metadata.
pub fn manifest_unknown(edition: Edition) -> (res: Reply)
    ensures
        res.deep_view() == manifest_unknown_reply(edition),
{
    match edition {
        Edition::Standalone => oci_error(404, OciErrors::manifest_unknown()),
        Edition::Worker => oci_error(404, OciErrors::new("MANIFEST_UNKNOWN", "manifest unknown")),
    }
}

/// A manifest of which there is no content.
pub open spec fn manifest_lost_reply(edition: Edition) -> ReplyView {
    reply::error_reply(
        404,
        "MANIFEST_UNKNOWN"@,
        if edition == Edition::Standalone {
            "manifest unknown to registry"@
        } else {
            "manifest not found in storage"@
        },
    )
}

/// A manifest of which there is no content.
pub fn manifest_lost(edition: Edition) -> (res: Reply)
    ensures
        res.deep_view() == manifest_lost_reply(edition),
{
    match edition {
        Edition::Standalone => oci_error(404, OciErrors::manifest_unknown()),
        Edition::Worker => oci_error(
            404,
            OciErrors::new("MANIFEST_UNKNOWN", "manifest not found in storage"),
        ),
    }
}

// ---- Blobs ----

/// A blob that is not stored.
pub open spec fn blob_unknown_reply(edition: Edition, deleting: bool) -> ReplyView {
    reply::error_reply(
        404,
        "BLOB_UNKNOWN"@,
        if edition == Edition::Worker && deleting {
            "blob unknown"@
        } else {
            "blob unknown to registry"@
        },
    )
}

/// A blob that is not stored.
pub fn blob_unknown(edition: Edition, deleting: bool) -> (res: Reply)
    ensures
        res.deep_view() == blob_unknown_reply(edition, deleting),
{
    if edition == Edition::Worker && deleting {
        oci_error(404, OciErrors::new("BLOB_UNKNOWN", "blob unknown"))
    } else {
        oci_error(404, OciErrors::blob_unknown())
    }
}

/// Where to download a blob.
pub open spec fn blob_redirect_reply(url: Seq<char>, digest: Seq<char>) -> ReplyView {
    reply::empty_reply_spec(307, seq![("Location"@, url), ("Docker-Content-Digest"@, digest)])
}

/// Where to download a blob.
pub fn blob_redirect(url: &str, digest: &str) -> (res: Reply)
    ensures
        res.deep_view() == blob_redirect_reply(url@, digest@),
{
    let mut headers = no_headers();
    add_header(&mut headers, "Location", url);
    add_header(&mut headers, "Docker-Content-Digest", digest);
    assert(headers.deep_view() == blob_redirect_reply(url@, digest@).headers);
    empty_reply(307, headers)
}

/// A blob without its content.
pub open spec fn blob_head_reply(digest: Seq<char>, size: i64) -> ReplyView {
    reply::empty_reply_spec(
        200,
        seq![
            ("Docker-Content-Digest"@, digest),
            ("Content-Type"@, OCTETS@),
            ("Content-Length"@, text::decimal(size as int)),
        ],
    )
}

/// A blob without its content.
pub fn blob_head(digest: &str, size: i64) -> (res: Reply)
    ensures
        res.deep_view() == blob_head_reply(digest@, size),
{
    let size_text = int_text(size);
    let mut headers = no_headers();
    add_header(&mut headers, "Docker-Content-Digest", digest);
    add_header(&mut headers, "Content-Type", OCTETS);
    add_header(&mut headers, "Content-Length", &size_text);
    assert(headers.deep_view() == blob_head_reply(digest@, size).headers);
    empty_reply(200, headers)
}

/// A blob with its content.
pub open spec fn blob_reply(digest: Seq<char>, data: Seq<u8>) -> ReplyView {
    ReplyView {
        status: 200,
        headers: seq![("Docker-Content-Digest"@, digest), ("Content-Type"@, OCTETS@)],
        body: BodyView::Bytes(data),
    }
}

/// A blob with its content.
pub fn blob_found(digest: &str, data: Vec<u8>) -> (res: Reply)
    ensures
        res.deep_view() == blob_reply(digest@, data@),
{
    let mut headers = no_headers();
    add_header(&mut headers, "Docker-Content-Digest", digest);
    add_header(&mut headers, "Content-Type", OCTETS);
    assert(headers.deep_view() == blob_reply(digest@, data@).headers);
    Reply { status: 200, headers, body: Body::Bytes(data) }
}

// ---- Uploads ----

/// An upload that was started.
pub open spec fn upload_started_reply(repo: Seq<char>, uuid: Seq<char>) -> ReplyView {
    reply::empty_reply_spec(
        202,
        seq![
            ("Docker-Upload-UUID"@, uuid),
            ("Location"@, upload_location_spec(repo, uuid)),
            ("Range"@, "0-0"@),
            ("Content-Length"@, "0"@),
        ],
    )
}

/// An upload that was started.
pub fn upload_started(repo: &str, uuid: &str) -> (res: Reply)
    ensures
        res.deep_view() == upload_started_reply(repo@, uuid@),
{
    let place = location(repo, "/blobs/uploads/", uuid);
    let mut headers = no_headers();
    add_header(&mut headers, "Docker-Upload-UUID", uuid);
    add_header(&mut headers, "Location", &place);
    add_header(&mut headers, "Range", "0-0");
    add_header(&mut headers, "Content-Length", "0");
    assert(headers.deep_view() == upload_started_reply(repo@, uuid@).headers);
    empty_reply(202, headers)
}

/// How far an upload has come.
pub open spec fn upload_status_reply(
    edition: Edition,
    repo: Seq<char>,
    uuid: Seq<char>,
    offset: i64,
) -> ReplyView {
    reply::empty_reply_spec(
        204,
        if edition == Edition::Standalone {
            seq![
                ("Docker-Upload-UUID"@, uuid),
                ("Location"@, upload_location_spec(repo, uuid)),
                ("Range"@, range_spec(offset)),
            ]
        } else {
            seq![
                ("Range"@, range_spec(offset)),
                ("Location"@, upload_location_spec(repo, uuid)),
            ]
        },
    )
}

/// How far an upload has come.
pub fn upload_status(edition: Edition, repo: &str, uuid: &str, offset: i64) -> (res: Reply)
    ensures
        res.deep_view() == upload_status_reply(edition, repo@, uuid@, offset),
{
    let place = location(repo, "/blobs/uploads/", uuid);
    let range = range_text(offset);
    let mut headers = no_headers();
    match edition {
        Edition::Standalone => {
            add_header(&mut headers, "Docker-Upload-UUID", uuid);
            add_header(&mut headers, "Location", &place);
            add_header(&mut headers, "Range", &range);
        },
        Edition::Worker => {
            add_header(&mut headers, "Range", &range);
            add_header(&mut headers, "Location", &place);
        },
    }
    assert(headers.deep_view() == upload_status_reply(edition, repo@, uuid@, offset).headers);
    empty_reply(204, headers)
}

/// Data that an upload has received.
pub open spec fn chunk_reply(
    edition: Edition,
    repo: Seq<char>,
    uuid: Seq<char>,
    length: i64,
) -> ReplyView {
    reply::empty_reply_spec(
        202,
        if edition == Edition::Standalone {
            seq![
                ("Docker-Upload-UUID"@, uuid),
                ("Location"@, upload_location_spec(repo, uuid)),
                ("Range"@, range_spec(length)),
                ("Content-Length"@, "0"@),
            ]
        } else {
            seq![
                ("Docker-Upload-UUID"@, uuid),
                ("Location"@, upload_location_spec(repo, uuid)),
                ("Range"@, range_spec(length)),
            ]
        },
    )
}

/// Data that an upload has received.
pub fn chunk_received(edition: Edition, repo: &str, uuid: &str, length: i64) -> (res: Reply)
    ensures
        res.deep_view() == chunk_reply(edition, repo@, uuid@, length),
{
    let place = location(repo, "/blobs/uploads/", uuid);
    let range = range_text(length);
    let mut headers = no_headers();
    add_header(&mut headers, "Docker-Upload-UUID", uuid);
    add_header(&mut headers, "Location", &place);
    add_header(&mut headers, "Range", &range);
    if edition == Edition::Standalone {
        add_header(&mut headers, "Content-Length", "0");
    }
    assert(headers.deep_view() == chunk_reply(edition, repo@, uuid@, length).headers);
    empty_reply(202, headers)
}

/// An upload that is not known.
pub open spec fn upload_unknown_reply() -> ReplyView {
    reply::error_reply(404, "BLOB_UPLOAD_UNKNOWN"@, "upload not found"@)
}

/// An upload that is not known.
pub fn upload_unknown() -> (res: Reply)
    ensures
        res.deep_view() == upload_unknown_reply(),
{
    oci_error(404, OciErrors::new("BLOB_UPLOAD_UNKNOWN", "upload not found"))
}

/// An upload that is to be completed without saying with what digest.
pub open spec fn digest_missing_reply(edition: Edition) -> ReplyView {
    reply::error_reply(
        400,
        if edition == Edition::Standalone {
            "UNSUPPORTED"@
        } else {
            "DIGEST_INVALID"@
        },
        "digest query parameter required"@,
    )
}

/// An upload that is to be completed without saying with what digest.
pub fn digest_missing(edition: Edition) -> (res: Reply)
    ensures
        res.deep_view() == digest_missing_reply(edition),
{
    match edition {
        Edition::Standalone => bad_request("digest query parameter required"),
        Edition::Worker => oci_error(
            400,
            OciErrors::new("DIGEST_INVALID", "digest query parameter required"),
        ),
    }
}

/// An upload that is to be completed without data.
pub open spec fn data_missing_reply(edition: Edition) -> ReplyView {
    if edition == Edition::Standalone {
        reply::error_reply(400, "UNSUPPORTED"@, "no blob data found for upload"@)
    } else {
        reply::error_reply(400, "BLOB_UPLOAD_UNKNOWN"@, "no blob data for upload"@)
    }
}

/// An upload that is to be completed without data.
pub fn data_missing(edition: Edition) -> (res: Reply)
    ensures
        res.deep_view() == data_missing_reply(edition),
{
    match edition {
        Edition::Standalone => bad_request("no blob data found for upload"),
        Edition::Worker => oci_error(
            400,
            OciErrors::new("BLOB_UPLOAD_UNKNOWN", "no blob data for upload"),
        ),
    }
}

/// An upload whose data does not have the digest it is to be completed with.
pub open spec fn digest_wrong_reply(edition: Edition) -> ReplyView {
    reply::error_reply(
        400,
        "DIGEST_INVALID"@,
        if edition == Edition::Standalone {
            "provided digest did not match uploaded content"@
        } else {
            "digest mismatch"@
        },
    )
}

/// An upload whose data does not have the digest it is to be completed with.
pub fn digest_wrong(edition: Edition) -> (res: Reply)
    ensures
        res.deep_view() == digest_wrong_reply(edition),
{
    match edition {
        Edition::Standalone => oci_error(400, OciErrors::digest_invalid()),
        Edition::Worker => oci_error(400, OciErrors::new("DIGEST_INVALID", "digest mismatch")),
    }
}

} // verus!
