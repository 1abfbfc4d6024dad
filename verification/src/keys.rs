//! The names of objects in the store.

use vstd::prelude::*;

verus! {

/// The key of a blob.
pub open spec fn blob_key_spec(digest: Seq<char>) -> Seq<char> {
    "blobs/"@ + digest
}

/// The key of a manifest.
pub open spec fn manifest_key_spec(repo: Seq<char>, digest: Seq<char>) -> Seq<char> {
    "manifests/"@ + repo + "/"@ + digest
}

/// The key of the data of an upload in progress.
pub open spec fn upload_key_spec(uuid: Seq<char>) -> Seq<char> {
    "uploads/"@ + uuid
}

/// Shared blob storage key: content-addressed, the same for all repositories.
pub fn blob_key(digest: &str) -> (key: String)
    ensures
        key@ == blob_key_spec(digest@),
{
    let mut key = "blobs/".to_owned();
    key.append(digest);
    key
}

/// Per-repository manifest key.
pub fn manifest_key(repo: &str, digest: &str) -> (key: String)
    ensures
        key@ == manifest_key_spec(repo@, digest@),
{
    let mut key = "manifests/".to_owned();
    key.append(repo);
    key.append("/");
    key.append(digest);
    key
}

/// Temporary upload key, deleted after the upload completes.
pub fn upload_key(uuid: &str) -> (key: String)
    ensures
        key@ == upload_key_spec(uuid@),
{
    let mut key = "uploads/".to_owned();
    key.append(uuid);
    key
}

/// No key of one kind is a key of another kind.
pub proof fn law_kinds_of_keys_are_apart(
    blob: Seq<char>,
    repo: Seq<char>,
    manifest: Seq<char>,
    uuid: Seq<char>,
)
    ensures
        blob_key_spec(blob) != manifest_key_spec(repo, manifest),
        blob_key_spec(blob) != upload_key_spec(uuid),
        manifest_key_spec(repo, manifest) != upload_key_spec(uuid),
{
    reveal_strlit("blobs/");
    reveal_strlit("manifests/");
    reveal_strlit("uploads/");
    assert(blob_key_spec(blob)[0] == 'b');
    assert(manifest_key_spec(repo, manifest)[0] == 'm');
    assert(upload_key_spec(uuid)[0] == 'u');
}

/// Blobs with different digests have different keys, whatever repository they are in.
pub proof fn law_blob_keys_differ(a: Seq<char>, b: Seq<char>)
    ensures
        blob_key_spec(a) == blob_key_spec(b) <==> a == b,
{
    if blob_key_spec(a) == blob_key_spec(b) {
        assert(blob_key_spec(a).skip("blobs/"@.len() as int) =~= a);
        assert(blob_key_spec(b).skip("blobs/"@.len() as int) =~= b);
    }
}

/// Different uploads have different keys.
pub proof fn law_upload_keys_differ(a: Seq<char>, b: Seq<char>)
    ensures
        upload_key_spec(a) == upload_key_spec(b) <==> a == b,
{
    if upload_key_spec(a) == upload_key_spec(b) {
        assert(upload_key_spec(a).skip("uploads/"@.len() as int) =~= a);
        assert(upload_key_spec(b).skip("uploads/"@.len() as int) =~= b);
    }
}

/// Manifests of different repositories, or with different digests, have different keys, as long
/// as the digests hold no slash.
pub proof fn law_manifest_keys_differ(
    repo_a: Seq<char>,
    digest_a: Seq<char>,
    repo_b: Seq<char>,
    digest_b: Seq<char>,
)
    requires
        !digest_a.contains('/'),
        !digest_b.contains('/'),
    ensures
        manifest_key_spec(repo_a, digest_a) == manifest_key_spec(repo_b, digest_b) <==> repo_a
            == repo_b && digest_a == digest_b,
{
    reveal_strlit("/");
    let a = manifest_key_spec(repo_a, digest_a);
    let b = manifest_key_spec(repo_b, digest_b);
    if a == b {
        let slash_a = a.len() - digest_a.len() - 1;
        let slash_b = b.len() - digest_b.len() - 1;
        assert(a[slash_a] == '/');
        assert(b[slash_b] == '/');
        if slash_a < slash_b {
            assert(a[slash_b] == digest_a[slash_b - slash_a - 1]);
        } else if slash_b < slash_a {
            assert(b[slash_a] == digest_b[slash_a - slash_b - 1]);
        }
        let head = "manifests/"@.len() as int;
        assert(a.subrange(head, slash_a) =~= repo_a);
        assert(b.subrange(head, slash_b) =~= repo_b);
        assert(a.skip(slash_a + 1) =~= digest_a);
        assert(b.skip(slash_b + 1) =~= digest_b);
    }
}

/// Where objects are kept: a blob below `blobs/` under its digest, a manifest below `manifests/`
/// and its repository under its digest, and the data of an upload below `uploads/` under its
/// identifier.
pub proof fn law_layout(repo: Seq<char>, digest: Seq<char>, uuid: Seq<char>)
    ensures
        blob_key_spec(digest).take(6) == "blobs/"@,
        blob_key_spec(digest).skip(6) == digest,
        manifest_key_spec(repo, digest).take(10) == "manifests/"@,
        manifest_key_spec(repo, digest).skip(10) == repo.push('/') + digest,
        upload_key_spec(uuid).take(8) == "uploads/"@,
        upload_key_spec(uuid).skip(8) == uuid,
{
    reveal_strlit("blobs/");
    reveal_strlit("manifests/");
    reveal_strlit("uploads/");
    reveal_strlit("/");
    assert(blob_key_spec(digest).take(6) =~= "blobs/"@);
    assert(blob_key_spec(digest).skip(6) =~= digest);
    assert(manifest_key_spec(repo, digest).take(10) =~= "manifests/"@);
    assert(manifest_key_spec(repo, digest).skip(10) =~= repo.push('/') + digest);
    assert(upload_key_spec(uuid).take(8) =~= "uploads/"@);
    assert(upload_key_spec(uuid).skip(8) =~= uuid);
}

} // verus!
