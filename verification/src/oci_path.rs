//! The paths of the distribution API, below `/v2/`.

use vstd::prelude::*;

use crate::text;
use crate::text::{split_once, strip_suffix, trim_start};

verus! {

/// A recognised path.
#[derive(Debug, PartialEq)]
pub enum OciPath {
    /// GET/HEAD/PUT/DELETE /v2/<name>/manifests/<reference>
    Manifests { name: String, reference: String },
    /// GET/HEAD/DELETE /v2/<name>/blobs/<digest>
    Blob { name: String, digest: String },
    /// POST /v2/<name>/blobs/uploads/
    BlobUploadStart { name: String },
    /// GET/PATCH/PUT/DELETE /v2/<name>/blobs/uploads/<uuid>
    BlobUpload { name: String, uuid: String },
    /// GET /v2/<name>/tags/list
    TagsList { name: String },
}

/// What an [`OciPath`] holds.
pub enum OciPathView {
    Manifests { name: Seq<char>, reference: Seq<char> },
    Blob { name: Seq<char>, digest: Seq<char> },
    BlobUploadStart { name: Seq<char> },
    BlobUpload { name: Seq<char>, uuid: Seq<char> },
    TagsList { name: Seq<char> },
}

impl DeepView for OciPath {
    type V = OciPathView;

    open spec fn deep_view(&self) -> OciPathView {
        match *self {
            OciPath::Manifests { name, reference } => OciPathView::Manifests {
                name: name@,
                reference: reference@,
            },
            OciPath::Blob { name, digest } => OciPathView::Blob { name: name@, digest: digest@ },
            OciPath::BlobUploadStart { name } => OciPathView::BlobUploadStart { name: name@ },
            OciPath::BlobUpload { name, uuid } => OciPathView::BlobUpload {
                name: name@,
                uuid: uuid@,
            },
            OciPath::TagsList { name } => OciPathView::TagsList { name: name@ },
        }
    }
}

/// A manifest path: a name and a reference around the leftmost `/manifests/`.
pub open spec fn manifest_form(path: Seq<char>) -> Option<OciPathView> {
    match text::split_once_spec(path, "/manifests/"@) {
        Some((name, reference)) => if name.len() > 0 && reference.len() > 0 {
            Some(OciPathView::Manifests { name, reference })
        } else {
            None
        },
        None => None,
    }
}

/// An upload path: a name before the leftmost `/blobs/uploads`, and after it the identifier of
/// the upload, without the slashes in front of it, or nothing where an upload is to start.
pub open spec fn upload_form(path: Seq<char>) -> Option<OciPathView> {
    match text::split_once_spec(path, "/blobs/uploads"@) {
        Some((name, rest)) => if name.len() > 0 {
            let uuid = text::trim_start_spec(rest, '/');
            if uuid.len() == 0 {
                Some(OciPathView::BlobUploadStart { name })
            } else {
                Some(OciPathView::BlobUpload { name, uuid })
            }
        } else {
            None
        },
        None => None,
    }
}

/// A blob path: a name and a digest around the leftmost `/blobs/`.
pub open spec fn blob_form(path: Seq<char>) -> Option<OciPathView> {
    match text::split_once_spec(path, "/blobs/"@) {
        Some((name, digest)) => if name.len() > 0 && digest.len() > 0 {
            Some(OciPathView::Blob { name, digest })
        } else {
            None
        },
        None => None,
    }
}

/// A tag list path: a name before a final `/tags/list`.
pub open spec fn tags_form(path: Seq<char>) -> Option<OciPathView> {
    match text::strip_suffix_spec(path, "/tags/list"@) {
        Some(name) => if name.len() > 0 {
            Some(OciPathView::TagsList { name })
        } else {
            None
        },
        None => None,
    }
}

/// What a path means: without its leading slashes, the first of the four forms that it has.
pub open spec fn oci_path(raw: Seq<char>) -> Option<OciPathView> {
    let path = text::trim_start_spec(raw, '/');
    if manifest_form(path) is Some {
        manifest_form(path)
    } else if upload_form(path) is Some {
        upload_form(path)
    } else if blob_form(path) is Some {
        blob_form(path)
    } else {
        tags_form(path)
    }
}

/// Parses the path segment after `/v2/` into an [`OciPath`].
/// Handles multi-component names like `library/ubuntu`.
pub fn parse_oci_path(path: &str) -> (res: Option<OciPath>)
    ensures
        res.deep_view() == oci_path(path@),
{
    let path = trim_start(path, '/');

    if let Some((name, reference)) = split_once(&path, "/manifests/") {
        if !name.as_str().is_empty() && !reference.as_str().is_empty() {
            return Some(OciPath::Manifests { name, reference });
        }
    }
    if let Some((name, rest)) = split_once(&path, "/blobs/uploads") {
        if !name.as_str().is_empty() {
            let uuid = trim_start(&rest, '/');
            if uuid.as_str().is_empty() {
                return Some(OciPath::BlobUploadStart { name });
            } else {
                return Some(OciPath::BlobUpload { name, uuid });
            }
        }
    }
    if let Some((name, digest)) = split_once(&path, "/blobs/") {
        if !name.as_str().is_empty() && !digest.as_str().is_empty() {
            return Some(OciPath::Blob { name, digest });
        }
    }
    if let Some(name) = strip_suffix(&path, "/tags/list") {
        if !name.as_str().is_empty() {
            return Some(OciPath::TagsList { name });
        }
    }
    None
}

/// The path that is written for a target, below `/v2/`.
pub open spec fn path_text(target: OciPathView) -> Seq<char> {
    match target {
        OciPathView::Manifests { name, reference } => name + "/manifests/"@ + reference,
        OciPathView::Blob { name, digest } => name + "/blobs/"@ + digest,
        OciPathView::BlobUploadStart { name } => name + "/blobs/uploads/"@,
        OciPathView::BlobUpload { name, uuid } => name + "/blobs/uploads/"@ + uuid,
        OciPathView::TagsList { name } => name + "/tags/list"@,
    }
}

/// The repository that a target names.
pub open spec fn target_name(target: OciPathView) -> Seq<char> {
    match target {
        OciPathView::Manifests { name, .. } => name,
        OciPathView::Blob { name, .. } => name,
        OciPathView::BlobUploadStart { name } => name,
        OciPathView::BlobUpload { name, .. } => name,
        OciPathView::TagsList { name } => name,
    }
}

/// That many slashes.
pub open spec fn slashes(count: nat) -> Seq<char> {
    Seq::new(count, |i: int| '/')
}

/// Whether a text is there and does not begin with a slash.
pub open spec fn is_plain(part: Seq<char>) -> bool {
    part.len() > 0 && part[0] != '/'
}

/// Whether the path of a target is read back as that target: its name begins with no slash and
/// does not itself hold the marker of its own form, and the path as a whole does not have a form
/// that comes first.
pub open spec fn is_readable(target: OciPathView) -> bool {
    let path = path_text(target);
    &&& is_plain(target_name(target))
    &&& match target {
        OciPathView::Manifests { name, reference } => {
            &&& reference.len() > 0
            &&& !text::contains(name + seq!['/'], "/manifests/"@)
        },
        OciPathView::Blob { name, digest } => {
            &&& digest.len() > 0
            &&& !text::contains(name + seq!['/'], "/blobs/"@)
            &&& manifest_form(path) is None
            &&& !text::contains(path, "/blobs/uploads"@)
        },
        OciPathView::BlobUploadStart { name } => {
            &&& !text::contains(name, "/blobs/uploads"@)
            &&& manifest_form(path) is None
        },
        OciPathView::BlobUpload { name, uuid } => {
            &&& is_plain(uuid)
            &&& !text::contains(name, "/blobs/uploads"@)
            &&& manifest_form(path) is None
        },
        OciPathView::TagsList { name } => {
            &&& manifest_form(path) is None
            &&& !text::contains(path, "/blobs/"@)
        },
    }
}

/// Trimming leaves a text that does not begin with what was trimmed, and removes nothing else.
proof fn lemma_trim_start(raw: Seq<char>, c: char)
    ensures
        ({
            let rest = text::trim_start_spec(raw, c);
            &&& rest.len() <= raw.len()
            &&& rest.len() > 0 ==> rest[0] != c
            &&& rest == raw.skip(raw.len() - rest.len())
            &&& forall|i: int| 0 <= i < raw.len() - rest.len() ==> raw[i] == c
        }),
    decreases raw.len(),
{
    let rest = text::trim_start_spec(raw, c);
    if raw.len() > 0 && raw[0] == c {
        lemma_trim_start(raw.drop_first(), c);
        assert(rest =~= raw.skip(raw.len() - rest.len()));
        assert forall|i: int| 0 <= i < raw.len() - rest.len() implies raw[i] == c by {
            if i > 0 {
                assert(raw[i] == raw.drop_first()[i - 1]);
            }
        }
    } else {
        assert(rest =~= raw.skip(0));
    }
}

/// A marker that is a word between slashes stands first right after the name, unless it already
/// stands in the name with a slash behind it.
proof fn lemma_word_first(name: Seq<char>, marker: Seq<char>, rest: Seq<char>)
    requires
        marker.len() >= 2,
        marker[0] == '/',
        marker.last() == '/',
        forall|k: int| 0 < k < marker.len() - 1 ==> marker[k] != '/',
    ensures
        text::occurs_first_at(name + marker + rest, marker, name.len() as int) <==> !text::contains(
            name + seq!['/'],
            marker,
        ),
{
    let path = name + marker + rest;
    let n = name.len() as int;
    let m = marker.len() as int;
    let stem = name + seq!['/'];
    assert(path.subrange(n, n + m) =~= marker);
    assert(text::occurs_at(path, marker, n));
    if text::contains(stem, marker) {
        let at = choose|at: int| text::occurs_at(stem, marker, at);
        assert(path.subrange(at, at + m) =~= stem.subrange(at, at + m));
        assert(text::occurs_at(path, marker, at));
        assert(at < n);
    } else {
        assert forall|before: int| before < n implies !text::occurs_at(path, marker, before) by {
            if text::occurs_at(path, marker, before) {
                if before + m > n {
                    assert(path.subrange(before, before + m)[n - before] == path[n]);
                    assert(marker[n - before] == '/');
                    assert(before + m == n + 1);
                }
                assert(stem.subrange(before, before + m) =~= path.subrange(before, before + m));
                assert(text::occurs_at(stem, marker, before));
            }
        }
    }
}

/// The marker of uploads stands first right after the name, unless it already stands in the name.
proof fn lemma_uploads_first(name: Seq<char>, rest: Seq<char>)
    ensures
        text::occurs_first_at(
            name + "/blobs/uploads"@ + rest,
            "/blobs/uploads"@,
            name.len() as int,
        ) <==> !text::contains(name, "/blobs/uploads"@),
{
    reveal_strlit("/blobs/uploads");
    let marker = "/blobs/uploads"@;
    let path = name + marker + rest;
    let n = name.len() as int;
    let m = marker.len() as int;
    assert(path.subrange(n, n + m) =~= marker);
    assert(text::occurs_at(path, marker, n));
    if text::contains(name, marker) {
        let at = choose|at: int| text::occurs_at(name, marker, at);
        assert(path.subrange(at, at + m) =~= name.subrange(at, at + m));
        assert(text::occurs_at(path, marker, at));
        assert(at < n);
    } else {
        assert forall|before: int| before < n implies !text::occurs_at(path, marker, before) by {
            if text::occurs_at(path, marker, before) {
                if before + m > n {
                    assert(path.subrange(before, before + m)[n - before] == path[n]);
                    assert(marker[n - before] == '/');
                    assert(n - before == 6);
                    assert(path.subrange(before, before + m)[7] == path[n + 1]);
                    assert(marker[7] == 'u');
                    assert(path[n + 1] == marker[1]);
                } else {
                    assert(name.subrange(before, before + m) =~= path.subrange(before, before + m));
                    assert(text::occurs_at(name, marker, before));
                }
            }
        }
    }
}

/// Where a text is a name, a separator and a rest, it is split there exactly when the separator
/// stands no further left.
proof fn lemma_split_here(path: Seq<char>, name: Seq<char>, sep: Seq<char>, rest: Seq<char>)
    requires
        path == name + sep + rest,
    ensures
        text::split_once_spec(path, sep) == Some((name, rest)) <==> text::occurs_first_at(
            path,
            sep,
            name.len() as int,
        ),
{
    text::lemma_split_parts(path, sep);
    if text::occurs_first_at(path, sep, name.len() as int) {
        text::lemma_split_at(path, sep, name.len() as int);
        assert(path.subrange(0, name.len() as int) =~= name);
        assert(path.subrange((name.len() + sep.len()) as int, path.len() as int) =~= rest);
    }
}

/// A path that holds the marker of uploads holds that of blobs.
proof fn lemma_uploads_hold_blobs(path: Seq<char>)
    ensures
        text::contains(path, "/blobs/uploads"@) ==> text::contains(path, "/blobs/"@),
{
    reveal_strlit("/blobs/uploads");
    reveal_strlit("/blobs/");
    if text::contains(path, "/blobs/uploads"@) {
        let at = choose|at: int| text::occurs_at(path, "/blobs/uploads"@, at);
        let whole = path.subrange(at, at + 14);
        assert(whole == "/blobs/uploads"@);
        assert forall|k: int| 0 <= k < 7 implies path[at + k] == "/blobs/"@[k] by {
            assert(path[at + k] == whole[k]);
        }
        assert(path.subrange(at, at + 7) =~= "/blobs/"@);
        assert(text::occurs_at(path, "/blobs/"@, at));
    }
}

/// Leading slashes of a path do not matter.
pub proof fn law_leading_slashes(raw: Seq<char>)
    ensures
        oci_path(seq!['/'] + raw) == oci_path(raw),
{
    assert((seq!['/'] + raw).drop_first() =~= raw);
}

/// In a path that does not begin with a slash, something stands before a separator that does.
proof fn lemma_split_plain(path: Seq<char>, sep: Seq<char>)
    requires
        is_plain(path),
        sep.len() > 0,
        sep[0] == '/',
    ensures
        text::split_once_spec(path, sep) matches Some((before, after)) ==> {
            &&& is_plain(before)
            &&& path == before + sep + after
        },
        text::split_once_spec(path, sep) is None <==> !text::contains(path, sep),
{
    text::lemma_split_parts(path, sep);
    if let Some((before, after)) = text::split_once_spec(path, sep) {
        if before.len() == 0 {
            assert(path[0] == sep[0]);
        } else {
            assert(path[0] == before[0]);
        }
    }
}

/// A target that is read from an upload path spells it, up to the slashes before the identifier.
proof fn lemma_upload_spells_path(path: Seq<char>)
    requires
        is_plain(path),
    ensures
        upload_form(path) matches Some(target) ==> spells(target, path),
{
    reveal_strlit("/blobs/uploads");
    lemma_split_plain(path, "/blobs/uploads"@);
    if let Some((name, rest)) = text::split_once_spec(path, "/blobs/uploads"@) {
        let uuid = text::trim_start_spec(rest, '/');
        lemma_trim_start(rest, '/');
        let count = (rest.len() - uuid.len()) as nat;
        assert(rest =~= slashes(count) + uuid);
        assert(path =~= name + "/blobs/uploads"@ + slashes(count) + uuid);
        if uuid.len() == 0 {
            assert(path =~= name + "/blobs/uploads"@ + slashes(count));
        }
    }
}

/// Whether a path is the one written for a target, up to the slashes between `/blobs/uploads`
/// and what follows it.
pub open spec fn spells(target: OciPathView, path: Seq<char>) -> bool {
    &&& is_plain(target_name(target))
    &&& match target {
        OciPathView::Manifests { reference, .. } => reference.len() > 0 && path == path_text(
            target,
        ),
        OciPathView::Blob { digest, .. } => digest.len() > 0 && path == path_text(target),
        OciPathView::TagsList { .. } => path == path_text(target),
        OciPathView::BlobUploadStart { name } => exists|count: nat|
            path == name + "/blobs/uploads"@ + #[trigger] slashes(count),
        OciPathView::BlobUpload { name, uuid } => is_plain(uuid) && exists|count: nat|
            path == name + "/blobs/uploads"@ + #[trigger] slashes(count) + uuid,
    }
}

/// What a path is read as spells that path, without its leading slashes.
pub proof fn law_read_spells_path(raw: Seq<char>)
    ensures
        oci_path(raw) matches Some(target) ==> spells(target, text::trim_start_spec(raw, '/')),
{
    reveal_strlit("/manifests/");
    reveal_strlit("/blobs/");
    reveal_strlit("/tags/list");
    let path = text::trim_start_spec(raw, '/');
    lemma_trim_start(raw, '/');
    if path.len() == 0 {
        text::lemma_split_parts(path, "/manifests/"@);
        text::lemma_split_parts(path, "/blobs/uploads"@);
        text::lemma_split_parts(path, "/blobs/"@);
    } else {
        lemma_split_plain(path, "/manifests/"@);
        lemma_split_plain(path, "/blobs/"@);
        lemma_upload_spells_path(path);
        if text::has_suffix(path, "/tags/list"@) {
            let name = path.take(path.len() - "/tags/list"@.len());
            assert(path =~= name + "/tags/list"@);
            assert(name.len() > 0 ==> name[0] == path[0]);
        }
    }
}

/// Reading back the path of a manifest.
proof fn lemma_manifest_read_back(name: Seq<char>, reference: Seq<char>)
    requires
        is_plain(name),
    ensures
        ({
            let target = OciPathView::Manifests { name, reference };
            oci_path(path_text(target)) == Some(target) <==> is_readable(target)
        }),
{
    reveal_strlit("/manifests/");
    let path = name + "/manifests/"@ + reference;
    assert(path[0] == name[0]);
    lemma_word_first(name, "/manifests/"@, reference);
    lemma_split_here(path, name, "/manifests/"@, reference);
}

/// Reading back the path of a blob.
proof fn lemma_blob_read_back(name: Seq<char>, digest: Seq<char>)
    requires
        is_plain(name),
    ensures
        ({
            let target = OciPathView::Blob { name, digest };
            oci_path(path_text(target)) == Some(target) <==> is_readable(target)
        }),
{
    reveal_strlit("/blobs/");
    let path = name + "/blobs/"@ + digest;
    assert(path[0] == name[0]);
    lemma_word_first(name, "/blobs/"@, digest);
    lemma_split_here(path, name, "/blobs/"@, digest);
    assert("/blobs/uploads"@[0] == '/') by {
        reveal_strlit("/blobs/uploads");
    }
    assert("/blobs/uploads"@.len() > 0) by {
        reveal_strlit("/blobs/uploads");
    }
    lemma_split_plain(path, "/blobs/uploads"@);
}

/// Reading back the path of an upload: its rest after `/blobs/uploads` is a slash and the
/// identifier, or a slash alone.
proof fn lemma_upload_read_back(name: Seq<char>, uuid: Seq<char>)
    requires
        is_plain(name),
    ensures
        ({
            let path = name + "/blobs/uploads"@ + (seq!['/'] + uuid);
            let target = if uuid.len() == 0 {
                OciPathView::BlobUploadStart { name }
            } else {
                OciPathView::BlobUpload { name, uuid }
            };
            oci_path(path) == Some(target) <==> {
                &&& manifest_form(path) is None
                &&& !text::contains(name, "/blobs/uploads"@)
                &&& uuid.len() > 0 ==> uuid[0] != '/'
            }
        }),
{
    let rest = seq!['/'] + uuid;
    let path = name + "/blobs/uploads"@ + rest;
    assert(path[0] == name[0]);
    assert(rest.drop_first() =~= uuid);
    lemma_trim_start(uuid, '/');
    lemma_uploads_first(name, rest);
    lemma_split_here(path, name, "/blobs/uploads"@, rest);
    assert("/blobs/uploads"@.len() > 0 && "/blobs/uploads"@[0] == '/') by {
        reveal_strlit("/blobs/uploads");
    }
    lemma_split_plain(path, "/blobs/uploads"@);
    let (before, after) = text::split_once_spec(path, "/blobs/uploads"@)->0;
    assert(text::occurs_at(path, "/blobs/uploads"@, name.len() as int)) by {
        assert(path.subrange(
            name.len() as int,
            name.len() + "/blobs/uploads"@.len() as int,
        ) =~= "/blobs/uploads"@);
    }
    assert(text::split_once_spec(path, "/blobs/uploads"@) is Some);
    if before == name {
        assert(after =~= rest) by {
            assert(path.skip((name.len() + "/blobs/uploads"@.len()) as int) =~= after);
            assert(path.skip((name.len() + "/blobs/uploads"@.len()) as int) =~= rest);
        }
    }
}

/// Reading back the path of a tag list.
proof fn lemma_tags_read_back(name: Seq<char>)
    requires
        is_plain(name),
    ensures
        ({
            let target = OciPathView::TagsList { name };
            oci_path(path_text(target)) == Some(target) <==> is_readable(target)
        }),
{
    reveal_strlit("/tags/list");
    let path = name + "/tags/list"@;
    assert(path[0] == name[0]);
    assert(path.take(path.len() - "/tags/list"@.len()) =~= name);
    assert("/blobs/uploads"@.len() > 0 && "/blobs/uploads"@[0] == '/') by {
        reveal_strlit("/blobs/uploads");
    }
    assert("/blobs/"@.len() > 0 && "/blobs/"@[0] == '/' && "/blobs/"@.last() == '/') by {
        reveal_strlit("/blobs/");
    }
    lemma_split_plain(path, "/blobs/uploads"@);
    lemma_split_plain(path, "/blobs/"@);
    lemma_uploads_hold_blobs(path);
    if let Some((before, after)) = text::split_once_spec(path, "/blobs/"@) {
        assert(path.last() == 't');
        assert(after.len() == 0 ==> path.last() == "/blobs/"@.last());
    }
}

/// A path that is written for a target is read back as that target exactly where the target is
/// readable.
pub proof fn law_written_path_is_read_back(target: OciPathView)
    ensures
        oci_path(path_text(target)) == Some(target) <==> is_readable(target),
{
    let path = path_text(target);
    law_read_spells_path(path);
    if is_plain(target_name(target)) {
        match target {
            OciPathView::Manifests { name, reference } => {
                lemma_manifest_read_back(name, reference);
            },
            OciPathView::Blob { name, digest } => {
                lemma_blob_read_back(name, digest);
            },
            OciPathView::BlobUploadStart { name } => {
                lemma_uploads_marker(name, Seq::empty());
                lemma_upload_read_back(name, Seq::empty());
            },
            OciPathView::BlobUpload { name, uuid } => {
                lemma_uploads_marker(name, uuid);
                lemma_upload_read_back(name, uuid);
            },
            OciPathView::TagsList { name } => {
                lemma_tags_read_back(name);
            },
        }
    }
}

/// The path of an upload, with the slash of its marker taken to the rest.
proof fn lemma_uploads_marker(name: Seq<char>, uuid: Seq<char>)
    ensures
        name + "/blobs/uploads/"@ + uuid == name + "/blobs/uploads"@ + (seq!['/'] + uuid),
        uuid.len() == 0 ==> name + "/blobs/uploads/"@ == name + "/blobs/uploads"@ + (seq!['/']
            + uuid),
{
    reveal_strlit("/blobs/uploads/");
    reveal_strlit("/blobs/uploads");
    assert("/blobs/uploads/"@ =~= "/blobs/uploads"@ + seq!['/']);
    assert(name + "/blobs/uploads/"@ + uuid =~= name + "/blobs/uploads"@ + (seq!['/'] + uuid));
    if uuid.len() == 0 {
        assert(name + "/blobs/uploads/"@ =~= name + "/blobs/uploads"@ + (seq!['/'] + uuid));
    }
}

// ---- Which paths are read as what ----

/// Whether a path is one of a manifest.
pub open spec fn is_manifest_path(path: Seq<char>, name: Seq<char>, reference: Seq<char>) -> bool {
    &&& name.len() > 0
    &&& reference.len() > 0
    &&& text::is_cut(path, name, "/manifests/"@, reference)
}

/// Whether a path is one of uploads: with what follows, from the slashes on.
pub open spec fn is_upload_path(path: Seq<char>, name: Seq<char>, rest: Seq<char>) -> bool {
    &&& name.len() > 0
    &&& text::is_cut(path, name, "/blobs/uploads"@, rest)
}

/// Whether a path is one of a blob.
pub open spec fn is_blob_path(path: Seq<char>, name: Seq<char>, digest: Seq<char>) -> bool {
    &&& name.len() > 0
    &&& digest.len() > 0
    &&& text::is_cut(path, name, "/blobs/"@, digest)
}

/// Whether a path is one of some manifest.
pub open spec fn of_manifest(path: Seq<char>) -> bool {
    exists|name: Seq<char>, reference: Seq<char>| is_manifest_path(path, name, reference)
}

/// Whether a path is one of some upload.
pub open spec fn of_upload(path: Seq<char>) -> bool {
    exists|name: Seq<char>, rest: Seq<char>| is_upload_path(path, name, rest)
}

/// Whether a path is one of some blob.
pub open spec fn of_blob(path: Seq<char>) -> bool {
    exists|name: Seq<char>, digest: Seq<char>| is_blob_path(path, name, digest)
}

proof fn lemma_no_leading_slash(path: Seq<char>)
    requires
        path.len() == 0 || path[0] != '/',
    ensures
        text::trim_start_spec(path, '/') == path,
{
}

proof fn lemma_forms(path: Seq<char>, name: Seq<char>, rest: Seq<char>)
    ensures
        manifest_form(path) == Some(OciPathView::Manifests { name, reference: rest })
            <==> is_manifest_path(path, name, rest),
        manifest_form(path) is Some <==> of_manifest(path),
        upload_form(path) is Some <==> of_upload(path),
        blob_form(path) == Some(OciPathView::Blob { name, digest: rest }) <==> is_blob_path(
            path,
            name,
            rest,
        ),
        blob_form(path) is Some <==> of_blob(path),
        manifest_form(path) matches Some(target) ==> target is Manifests,
        upload_form(path) matches Some(target) ==> target is BlobUpload || target
            is BlobUploadStart,
        blob_form(path) matches Some(target) ==> target is Blob,
        tags_form(path) matches Some(target) ==> target is TagsList,
{
    text::law_split_cuts(path, name, "/manifests/"@, rest);
    text::law_split_cuts(path, name, "/blobs/"@, rest);
    if let Some((a, b)) = text::split_once_spec(path, "/manifests/"@) {
        text::law_split_cuts(path, a, "/manifests/"@, b);
        assert(manifest_form(path) is Some ==> is_manifest_path(path, a, b));
    }
    if let Some((a, b)) = text::split_once_spec(path, "/blobs/uploads"@) {
        text::law_split_cuts(path, a, "/blobs/uploads"@, b);
        assert(upload_form(path) is Some ==> is_upload_path(path, a, b));
    }
    if let Some((a, b)) = text::split_once_spec(path, "/blobs/"@) {
        text::law_split_cuts(path, a, "/blobs/"@, b);
        assert(blob_form(path) is Some ==> is_blob_path(path, a, b));
    }
    if of_manifest(path) {
        let (a, b) = choose|a: Seq<char>, b: Seq<char>| is_manifest_path(path, a, b);
        text::law_split_cuts(path, a, "/manifests/"@, b);
    }
    if of_upload(path) {
        let (a, b) = choose|a: Seq<char>, b: Seq<char>| is_upload_path(path, a, b);
        text::law_split_cuts(path, a, "/blobs/uploads"@, b);
    }
    if of_blob(path) {
        let (a, b) = choose|a: Seq<char>, b: Seq<char>| is_blob_path(path, a, b);
        text::law_split_cuts(path, a, "/blobs/"@, b);
    }
}

/// A path is read as one of a manifest exactly when its first `/manifests/` has a name before it
/// and a reference after it.
pub proof fn law_manifest_paths(path: Seq<char>, name: Seq<char>, reference: Seq<char>)
    requires
        path.len() == 0 || path[0] != '/',
    ensures
        oci_path(path) == Some(OciPathView::Manifests { name, reference }) <==> is_manifest_path(
            path,
            name,
            reference,
        ),
{
    lemma_no_leading_slash(path);
    lemma_forms(path, name, reference);
}

/// A path that is not one of a manifest is read as one of an upload exactly when its first
/// `/blobs/uploads` has a name before it; what follows the slashes after it is the identifier, and
/// where nothing does, an upload is to start.
pub proof fn law_upload_paths(path: Seq<char>, name: Seq<char>, count: nat, uuid: Seq<char>)
    requires
        path.len() == 0 || path[0] != '/',
        uuid.len() == 0 || uuid[0] != '/',
        is_upload_path(path, name, slashes(count) + uuid),
        !of_manifest(path),
    ensures
        oci_path(path) == Some(
            if uuid.len() == 0 {
                OciPathView::BlobUploadStart { name }
            } else {
                OciPathView::BlobUpload { name, uuid }
            },
        ),
{
    let rest = slashes(count) + uuid;
    lemma_no_leading_slash(path);
    lemma_forms(path, name, rest);
    text::law_split_cuts(path, name, "/blobs/uploads"@, rest);
    text::law_trimmed_start(rest, '/');
    let trimmed = text::trim_start_spec(rest, '/');
    let cut = rest.len() - trimmed.len();
    if cut < count {
        assert(rest[cut] == '/');
        assert(rest == rest.take(cut) + trimmed);
        assert(trimmed[0] == rest[cut]);
    } else if cut > count {
        assert(rest.take(cut)[count as int] == '/');
        assert(rest[count as int] == uuid[0]);
    }
    assert(trimmed =~= uuid) by {
        assert(rest == rest.take(cut) + trimmed);
        assert(rest.skip(cut) =~= trimmed);
        assert(rest.skip(count as int) =~= uuid);
    }
}

/// A path is read as one of an upload only when it is one.
pub proof fn law_only_upload_paths(path: Seq<char>)
    requires
        path.len() == 0 || path[0] != '/',
    ensures
        (oci_path(path) matches Some(target) && (target is BlobUpload || target
            is BlobUploadStart)) <==> of_upload(path) && !of_manifest(path),
{
    lemma_no_leading_slash(path);
    lemma_forms(path, path, path);
}

/// A path that is not one of a manifest or of an upload is read as one of a blob exactly when its
/// first `/blobs/` has a name before it and a digest after it.
pub proof fn law_blob_paths(path: Seq<char>, name: Seq<char>, digest: Seq<char>)
    requires
        path.len() == 0 || path[0] != '/',
    ensures
        oci_path(path) == Some(OciPathView::Blob { name, digest }) <==> is_blob_path(
            path,
            name,
            digest,
        ) && !of_manifest(path) && !of_upload(path),
{
    lemma_no_leading_slash(path);
    lemma_forms(path, name, digest);
}

/// A path that is none of these is read as one of tags exactly when it is a name with
/// `/tags/list` behind it.
pub proof fn law_tags_paths(path: Seq<char>, name: Seq<char>)
    requires
        path.len() == 0 || path[0] != '/',
    ensures
        oci_path(path) == Some(OciPathView::TagsList { name }) <==> name.len() > 0 && path == name
            + "/tags/list"@ && !of_manifest(path) && !of_upload(path) && !of_blob(path),
{
    lemma_no_leading_slash(path);
    lemma_forms(path, name, path);
    text::law_suffixes(path, "/tags/list"@, name);
}

} // verus!
