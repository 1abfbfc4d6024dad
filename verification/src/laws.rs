//! What holds of several requests in a row, and of any.

use vstd::prelude::*;

use crate::blobs;
use crate::db;
use crate::db::{ManifestRowView, QueryView, UploadRowView};
use crate::digest;
use crate::effects;
use crate::keys;
use crate::manifests;
use crate::oci_path;
use crate::oci_path::OciPathView;
use crate::reply;
use crate::responses;
use crate::routes;
use crate::step::{
    BlobPurpose, DoneWantedView, Edition, ManifestPurposeView, ManifestWantedView, Method,
    NamesWantedView, ObjectWantedView, Part, RegistryView, RequestView, SizeWantedView, StepView,
    UploadWantedView, UrlWantedView,
};
use crate::text;
use crate::uploads;
use crate::world;
use crate::world::{Services, World};

verus! {

// ---- Several requests in a row ----

/// What was put is got back: a manifest is served with its own content, content type and digest,
/// by its digest and, where it was put under a tag, by that tag.
pub proof fn law_manifest_is_got_back(
    registry: RegistryView,
    services: Services,
    world: World,
    repo: Seq<char>,
    reference: Seq<char>,
    content_type: Option<Seq<char>>,
    data: Seq<u8>,
    asked: Seq<char>,
    uuid: Seq<char>,
)
    requires
        asked == digest::digest_text(data) || asked == reference && !db::is_digest_spec(reference),
    ensures
        ({
            let put = manifests::put_manifest_step(repo, reference, content_type, data);
            let get = manifests::find_manifest_step(repo, asked, ManifestPurposeView::Get);
            let head = manifests::find_manifest_step(repo, asked, ManifestPurposeView::Head);
            let after = world::served(registry, services, world, put, uuid).0;
            let row = effects::put_row(content_type, data);
            &&& world::served(registry, services, after, get, uuid).1 == StepView::Reply(
                responses::manifest_reply(registry.edition, row, data),
            )
            &&& world::served(registry, services, after, head, uuid).1 == StepView::Reply(
                responses::manifest_head_reply(row),
            )
        }),
{
    let row = effects::put_row(content_type, data);
    let after = effects::with_manifest(world, repo, reference, row, data);
    effects::law_put_manifest(registry, services, world, repo, reference, content_type, data, uuid);
    effects::law_get_manifest(registry, services, after, repo, asked, uuid);
    effects::law_head_manifest(registry, services, after, repo, asked, uuid);
    lemma_digest_is_digest(digest::sha256(data));
    assert(effects::found(after, repo, asked) == Some(row));
}

proof fn lemma_digest_is_digest(hash: Seq<u8>)
    ensures
        db::is_digest_spec(digest::hash_text(hash)),
        !digest::hash_text(hash).contains('/'),
{
    digest::law_digests_hold_no_slash(hash);
    let text = digest::hash_text(hash);
    assert(text.subrange(0, "sha256:"@.len() as int) =~= "sha256:"@);
}

/// A repository is listed once a manifest was put there, and so is the reference, if that is a
/// tag; what else is listed stays the same.
pub proof fn law_what_is_put_is_listed(
    registry: RegistryView,
    services: Services,
    world: World,
    repo: Seq<char>,
    reference: Seq<char>,
    content_type: Option<Seq<char>>,
    data: Seq<u8>,
    uuid: Seq<char>,
)
    requires
        world::lists_in_order(services),
        world::is_finite(world),
    ensures
        ({
            let put = manifests::put_manifest_step(repo, reference, content_type, data);
            let after = world::served(registry, services, world, put, uuid).0;
            let list_tags = QueryView::ListTags { repo };
            let is_tag = !db::is_digest_spec(reference);
            &&& forall|name: Seq<char>| #[trigger]
                world::names_answer(services, after, list_tags).contains(name) <==> is_tag && name
                    == reference || world::names_answer(services, world, list_tags).contains(name)
            &&& forall|name: Seq<char>| #[trigger]
                world::names_answer(services, after, QueryView::ListRepos).contains(name) <==> name
                    == repo || world::names_answer(services, world, QueryView::ListRepos).contains(
                    name,
                )
        }),
{
    effects::law_put_manifest(registry, services, world, repo, reference, content_type, data, uuid);
    let row = effects::put_row(content_type, data);
    let after = effects::with_manifest(world, repo, reference, row, data);
    let list_tags = QueryView::ListTags { repo };
    let is_tag = !db::is_digest_spec(reference);
    world::law_tags_are_found(services, world, repo);
    world::law_tags_are_found(services, after, repo);
    world::law_repos_are_found(services, world);
    world::law_repos_are_found(services, after);
    assert forall|name: Seq<char>| #[trigger]
        world::names_answer(services, after, list_tags).contains(name) <==> is_tag && name
            == reference || world::names_answer(services, world, list_tags).contains(name) by {
        assert(after.tags.dom().contains((repo, name)) <==> is_tag && name == reference
            || world.tags.dom().contains((repo, name)));
    }
    assert forall|name: Seq<char>| #[trigger]
        world::names_answer(services, after, QueryView::ListRepos).contains(name) <==> name == repo
            || world::names_answer(services, world, QueryView::ListRepos).contains(name) by {
        if name == repo {
            assert(after.manifests.dom().contains((repo, row.digest)));
        } else if world::has_manifest(world, name) {
            let digest = choose|digest: Seq<char>| #[trigger]
                world.manifests.dom().contains((name, digest));
            assert(after.manifests.dom().contains((name, digest)));
        } else if world::has_manifest(after, name) {
            let digest = choose|digest: Seq<char>| #[trigger]
                after.manifests.dom().contains((name, digest));
            assert(world.manifests.dom().contains((name, digest)));
        }
    }
}

/// An upload that is started, sent in one piece and completed with the digest of what was sent
/// ends as a blob with that content, which is served by its digest; nothing else is left of it,
/// and nothing else has changed.
pub proof fn law_upload_becomes_blob(
    registry: RegistryView,
    services: Services,
    world: World,
    repo: Seq<char>,
    data: Seq<u8>,
    uuid: Seq<char>,
)
    requires
        !world.uploads.dom().contains(uuid),
    ensures
        ({
            let digest = digest::digest_text(data);
            let start = uploads::initiate_upload_step(repo, None, uuid);
            let patch = uploads::find_upload_step(
                uuid,
                UploadWantedView::Patch { repo, uuid, data },
            );
            let put = uploads::complete_upload_step(
                registry,
                repo,
                uuid,
                Some(digest),
                Seq::empty(),
            );
            let started = world::served(registry, services, world, start, uuid);
            let sent = world::served(registry, services, started.0, patch, uuid);
            let ended = world::served(registry, services, sent.0, put, uuid);
            let head = blobs::find_blob_step(digest, BlobPurpose::Head);
            &&& started.1 == StepView::Reply(responses::upload_started_reply(repo, uuid))
            &&& sent.1 == StepView::Reply(
                responses::chunk_reply(registry.edition, repo, uuid, data.len() as i64),
            )
            &&& ended.1 == StepView::Reply(
                responses::blob_created_reply(registry.edition, repo, digest),
            )
            &&& ended.0 == World {
                objects: world.objects.insert(keys::blob_key_spec(digest), data).remove(
                    keys::upload_key_spec(uuid),
                ),
                ..world
            }
            &&& world::lookup(ended.0.objects, keys::blob_key_spec(digest)) == Some(data)
            &&& world::served(registry, services, ended.0, head, uuid).1 == StepView::Reply(
                responses::blob_head_reply(digest, data.len() as i64),
            )
        }),
{
    let digest = digest::digest_text(data);
    let started = effects::with_upload(world, repo, uuid);
    let sent = effects::with_data(started, uuid, data);
    let ended = effects::completed(sent, uuid, digest, data);
    effects::law_initiate_upload(registry, services, world, repo, None, uuid);
    effects::law_patch_upload(registry, services, started, repo, uuid, data, uuid);
    let body = Seq::<u8>::empty();
    effects::law_complete_upload(registry, services, sent, repo, uuid, Some(digest), body, uuid);
    effects::law_head_blob(registry, services, ended, digest, uuid);
    keys::law_kinds_of_keys_are_apart(digest, repo, digest, uuid);
    let expected = World {
        objects: world.objects.insert(keys::blob_key_spec(digest), data).remove(
            keys::upload_key_spec(uuid),
        ),
        ..world
    };
    assert(ended.uploads =~= world.uploads);
    assert(ended.objects =~= expected.objects);
}

/// An upload whose data comes with the request that completes it ends as a blob too.
pub proof fn law_upload_in_one_request(
    registry: RegistryView,
    services: Services,
    world: World,
    repo: Seq<char>,
    upload: Seq<char>,
    data: Seq<u8>,
    uuid: Seq<char>,
)
    requires
        world.uploads.dom().contains(upload),
        data.len() > 0,
    ensures
        ({
            let digest = digest::digest_text(data);
            let put = uploads::complete_upload_step(registry, repo, upload, Some(digest), data);
            let ended = world::served(registry, services, world, put, uuid);
            &&& ended.1 == StepView::Reply(
                responses::blob_created_reply(registry.edition, repo, digest),
            )
            &&& world::lookup(ended.0.objects, keys::blob_key_spec(digest)) == Some(data)
            &&& !ended.0.uploads.dom().contains(upload)
            &&& !ended.0.objects.dom().contains(keys::upload_key_spec(upload))
        }),
{
    let digest = digest::digest_text(data);
    effects::law_complete_upload(registry, services, world, repo, upload, Some(digest), data, uuid);
    keys::law_kinds_of_keys_are_apart(digest, repo, digest, upload);
}

/// Data that does not have the expected digest is refused, and nothing is stored.
pub proof fn law_wrong_digest_stores_nothing(
    registry: RegistryView,
    services: Services,
    world: World,
    repo: Seq<char>,
    upload: Seq<char>,
    expected: Seq<char>,
    body: Seq<u8>,
    uuid: Seq<char>,
)
    requires
        world.uploads.dom().contains(upload),
        effects::final_data(world, upload, body) matches Some(data) && digest::digest_text(data)
            != expected,
    ensures
        world::served(
            registry,
            services,
            world,
            uploads::complete_upload_step(registry, repo, upload, Some(expected), body),
            uuid,
        ) == (world, StepView::Reply(responses::digest_wrong_reply(registry.edition))),
        responses::digest_wrong_reply(registry.edition).status == 400,
{
    let digest = Some(expected);
    effects::law_complete_upload(registry, services, world, repo, upload, digest, body, uuid);
}

/// An upload says how much it has received last, and an upload that was cancelled is not known
/// any more.
pub proof fn law_upload_status_follows(
    registry: RegistryView,
    services: Services,
    world: World,
    repo: Seq<char>,
    upload: Seq<char>,
    data: Seq<u8>,
    uuid: Seq<char>,
)
    requires
        world.uploads.dom().contains(upload),
    ensures
        ({
            let status = uploads::find_upload_step(
                upload,
                UploadWantedView::Status { repo, uuid: upload },
            );
            let patch = uploads::find_upload_step(
                upload,
                UploadWantedView::Patch { repo, uuid: upload, data },
            );
            let cancel = uploads::cancel_upload_step(upload);
            let sent = world::served(registry, services, world, patch, uuid).0;
            let cancelled = world::served(registry, services, world, cancel, uuid).0;
            &&& world::served(registry, services, sent, status, uuid).1 == StepView::Reply(
                responses::upload_status_reply(
                    registry.edition,
                    repo,
                    upload,
                    data.len() as i64,
                ),
            )
            &&& world::served(registry, services, cancelled, status, uuid).1 == StepView::Reply(
                responses::upload_unknown_reply(),
            )
            &&& !cancelled.objects.dom().contains(keys::upload_key_spec(upload))
        }),
{
    effects::law_patch_upload(registry, services, world, repo, upload, data, uuid);
    effects::law_upload_status(
        registry,
        services,
        effects::with_data(world, upload, data),
        repo,
        upload,
        uuid,
    );
    effects::law_cancel_upload(registry, services, world, upload, uuid);
    let cancelled = World {
        uploads: world.uploads.remove(upload),
        objects: world.objects.remove(keys::upload_key_spec(upload)),
        ..world
    };
    effects::law_upload_status(registry, services, cancelled, repo, upload, uuid);
}

/// The same data is stored once: uploading it again, to whatever repository, changes no object
/// but the temporary data of the upload.
pub proof fn law_blobs_are_stored_once(
    registry: RegistryView,
    services: Services,
    world: World,
    repo: Seq<char>,
    upload: Seq<char>,
    body: Seq<u8>,
    data: Seq<u8>,
    uuid: Seq<char>,
)
    requires
        world.uploads.dom().contains(upload),
        effects::final_data(world, upload, body) == Some(data),
        world::lookup(world.objects, keys::blob_key_spec(digest::digest_text(data))) == Some(data),
    ensures
        ({
            let digest = digest::digest_text(data);
            let put = uploads::complete_upload_step(registry, repo, upload, Some(digest), body);
            world::served(registry, services, world, put, uuid).0.objects == world.objects.remove(
                keys::upload_key_spec(upload),
            )
        }),
{
    let digest = digest::digest_text(data);
    effects::law_complete_upload(registry, services, world, repo, upload, Some(digest), body, uuid);
    assert(world.objects.insert(keys::blob_key_spec(digest), data) =~= world.objects);
}

/// A blob belongs to every repository: requests on it do not depend on the name.
pub proof fn law_blobs_are_in_every_repository(
    registry: RegistryView,
    request: RequestView,
    digest: Seq<char>,
    one: Seq<char>,
    other: Seq<char>,
    uuid: Seq<char>,
)
    ensures
        routes::target_step(registry, OciPathView::Blob { name: one, digest }, request, uuid)
            == routes::target_step(
            registry,
            OciPathView::Blob { name: other, digest },
            request,
            uuid,
        ),
{
}

/// Mounting a blob that is there is accepted at once: nothing changes, and no data is read.
pub proof fn law_mounting_is_free(
    registry: RegistryView,
    services: Services,
    world: World,
    repo: Seq<char>,
    digest: Seq<char>,
    uuid: Seq<char>,
)
    requires
        world.objects.dom().contains(keys::blob_key_spec(digest)),
    ensures
        world::run(
            registry,
            services,
            world,
            uploads::initiate_upload_step(repo, Some(digest), uuid),
            uuid,
            1,
        ) == (
            world,
            StepView::Reply(responses::blob_created_reply(registry.edition, repo, digest)),
        ),
{
    reveal_with_fuel(world::run, 2);
}

/// Deleting a tag forgets the tag, and keeps the metadata of all manifests, all other tags, all
/// uploads and all blobs.
pub proof fn law_deleting_a_tag(
    registry: RegistryView,
    services: Services,
    world: World,
    repo: Seq<char>,
    tag: Seq<char>,
    uuid: Seq<char>,
)
    requires
        !db::is_digest_spec(tag),
        effects::found(world, repo, tag) is Some,
    ensures
        ({
            let delete = manifests::find_manifest_step(
                repo,
                tag,
                ManifestPurposeView::Delete { reference: tag },
            );
            let after = world::served(registry, services, world, delete, uuid).0;
            &&& effects::found(after, repo, tag) is None
            &&& after.tags == world.tags.remove((repo, tag))
            &&& world::tags_of(after, repo) == world::tags_of(world, repo).remove(tag)
            &&& after.manifests == world.manifests
            &&& after.uploads == world.uploads
            &&& same_blobs(world, after)
        }),
{
    effects::law_delete_manifest(registry, services, world, repo, tag, uuid);
    let row = effects::found(world, repo, tag)->0;
    let after = effects::without_manifest(world, repo, tag, row);
    assert(world::tags_of(after, repo) =~= world::tags_of(world, repo).remove(tag));
    lemma_other_kinds_stay(world, after, repo, row.digest);
}

/// Deleting a manifest by digest forgets it and every tag that points at it, and keeps all other
/// tags and metadata, all uploads and all blobs.
pub proof fn law_deleting_a_manifest(
    registry: RegistryView,
    services: Services,
    world: World,
    repo: Seq<char>,
    digest: Seq<char>,
    other: (Seq<char>, Seq<char>),
    uuid: Seq<char>,
)
    requires
        db::is_digest_spec(digest),
        effects::found(world, repo, digest) is Some,
    ensures
        ({
            let delete = manifests::find_manifest_step(
                repo,
                digest,
                ManifestPurposeView::Delete { reference: digest },
            );
            let after = world::served(registry, services, world, delete, uuid).0;
            &&& effects::found(after, repo, digest) is None
            &&& world::lookup(after.tags, other) == if other.0 == repo && world::lookup(
                world.tags,
                other,
            ) == Some(digest) {
                None
            } else {
                world::lookup(world.tags, other)
            }
            &&& after.manifests == world.manifests.remove((repo, digest))
            &&& after.uploads == world.uploads
            &&& same_blobs(world, after)
        }),
{
    effects::law_delete_manifest(registry, services, world, repo, digest, uuid);
    let row = effects::found(world, repo, digest)->0;
    let after = effects::without_manifest(world, repo, digest, row);
    lemma_other_kinds_stay(world, after, repo, row.digest);
}

/// Deleting a blob removes it for every repository.
pub proof fn law_deleting_a_blob(
    registry: RegistryView,
    services: Services,
    world: World,
    digest: Seq<char>,
    uuid: Seq<char>,
)
    ensures
        ({
            let delete = blobs::find_blob_step(digest, BlobPurpose::Delete);
            let after = world::served(registry, services, world, delete, uuid).0;
            !after.objects.dom().contains(keys::blob_key_spec(digest))
        }),
{
    effects::law_delete_blob(registry, services, world, digest, uuid);
}

/// Whether two worlds hold the same blobs.
pub open spec fn same_blobs(one: World, other: World) -> bool {
    forall|digest: Seq<char>|
        world::lookup(one.objects, #[trigger] keys::blob_key_spec(digest)) == world::lookup(
            other.objects,
            keys::blob_key_spec(digest),
        )
}

proof fn lemma_other_kinds_stay(world: World, after: World, repo: Seq<char>, digest: Seq<char>)
    requires
        forall|key: Seq<char>|
            key != keys::manifest_key_spec(repo, digest) ==> world::lookup(world.objects, key)
                == #[trigger] world::lookup(after.objects, key),
    ensures
        same_blobs(world, after),
{
    assert forall|blob: Seq<char>|
        world::lookup(world.objects, #[trigger] keys::blob_key_spec(blob)) == world::lookup(
            after.objects,
            keys::blob_key_spec(blob),
        ) by {
        keys::law_kinds_of_keys_are_apart(blob, repo, digest, digest);
    }
}

// ---- Any request ----

/// The world after a request on a recognised path, by its method.
pub open spec fn effect(
    world: World,
    target: OciPathView,
    request: RequestView,
    uuid: Seq<char>,
) -> World {
    match (target, request.method) {
        (OciPathView::Manifests { name, reference }, Method::Put) => effects::with_manifest(
            world,
            name,
            reference,
            effects::put_row(request.content_type, request.body),
            request.body,
        ),
        (OciPathView::Manifests { name, reference }, Method::Delete) => match effects::found(
            world,
            name,
            reference,
        ) {
            Some(row) => effects::without_manifest(world, name, reference, row),
            None => world,
        },
        (OciPathView::Blob { digest, .. }, Method::Delete) => if world.objects.dom().contains(
            keys::blob_key_spec(digest),
        ) {
            World { objects: world.objects.remove(keys::blob_key_spec(digest)), ..world }
        } else {
            world
        },
        (OciPathView::BlobUploadStart { name }, Method::Post) => if effects::mountable(
            world,
            request.mount,
        ) || world.uploads.dom().contains(uuid) {
            world
        } else {
            effects::with_upload(world, name, uuid)
        },
        (OciPathView::BlobUpload { uuid: upload, .. }, Method::Patch) => {
            if world.uploads.dom().contains(upload) {
                effects::with_data(world, upload, request.body)
            } else {
                world
            }
        },
        (OciPathView::BlobUpload { uuid: upload, .. }, Method::Put) => match (
            request.digest,
            effects::final_data(world, upload, request.body),
        ) {
            (Some(digest), Some(data)) => {
                if world.uploads.dom().contains(upload) && digest::digest_text(data) == digest {
                    effects::completed(world, upload, digest, data)
                } else {
                    world
                }
            },
            _ => world,
        },
        (OciPathView::BlobUpload { uuid: upload, .. }, Method::Delete) => World {
            uploads: world.uploads.remove(upload),
            objects: world.objects.remove(keys::upload_key_spec(upload)),
            ..world
        },
        _ => world,
    }
}

#[verifier::rlimit(40)]
proof fn lemma_refused_upload(
    registry: RegistryView,
    services: Services,
    world: World,
    repo: Seq<char>,
    mount: Option<Seq<char>>,
    uuid: Seq<char>,
)
    requires
        world.uploads.dom().contains(uuid),
    ensures
        world::served(
            registry,
            services,
            world,
            uploads::initiate_upload_step(repo, mount, uuid),
            uuid,
        ).0 == world,
{
    reveal_with_fuel(world::run, 6);
    reveal_with_fuel(world::executed, 3);
}

/// What a request on a recognised path does to the world.
pub proof fn law_effect(
    registry: RegistryView,
    services: Services,
    world: World,
    target: OciPathView,
    request: RequestView,
    uuid: Seq<char>,
)
    ensures
        world::served(
            registry,
            services,
            world,
            routes::target_step(registry, target, request, uuid),
            uuid,
        ).0 == effect(world, target, request, uuid),
{
    match target {
        OciPathView::Manifests { name, reference } => {
            effects::law_get_manifest(registry, services, world, name, reference, uuid);
            effects::law_head_manifest(registry, services, world, name, reference, uuid);
            effects::law_delete_manifest(registry, services, world, name, reference, uuid);
            let content_type = request.content_type;
            let body = request.body;
            effects::law_put_manifest(
                registry,
                services,
                world,
                name,
                reference,
                content_type,
                body,
                uuid,
            );
        },
        OciPathView::Blob { digest, .. } => {
            effects::law_get_blob(registry, services, world, digest, uuid);
            effects::law_head_blob(registry, services, world, digest, uuid);
            effects::law_delete_blob(registry, services, world, digest, uuid);
        },
        OciPathView::BlobUploadStart { name } => {
            if world.uploads.dom().contains(uuid) {
                lemma_refused_upload(registry, services, world, name, request.mount, uuid);
            } else {
                effects::law_initiate_upload(registry, services, world, name, request.mount, uuid);
            }
        },
        OciPathView::BlobUpload { name, uuid: upload } => {
            let body = request.body;
            effects::law_upload_status(registry, services, world, name, upload, uuid);
            effects::law_patch_upload(registry, services, world, name, upload, body, uuid);
            effects::law_complete_upload(
                registry,
                services,
                world,
                name,
                upload,
                request.digest,
                body,
                uuid,
            );
            effects::law_cancel_upload(registry, services, world, upload, uuid);
        },
        OciPathView::TagsList { name } => {
            effects::lemma_listings(registry, services, world, name, uuid);
        },
    }
    reveal_with_fuel(world::run, 2);
}

/// Asking for something changes nothing.
pub proof fn law_reading_changes_nothing(
    registry: RegistryView,
    services: Services,
    world: World,
    target: OciPathView,
    request: RequestView,
    uuid: Seq<char>,
)
    requires
        request.method == Method::Get || request.method == Method::Head,
    ensures
        world::served(
            registry,
            services,
            world,
            routes::target_step(registry, target, request, uuid),
            uuid,
        ).0 == world,
{
    law_effect(registry, services, world, target, request, uuid);
}

/// Whether what the database and the store hold fits together:
/// each blob has the digest that it is stored under;
/// each manifest that is recorded has, where its content is there, the digest and the size of it;
/// and each tag points at a manifest that is recorded.
pub open spec fn sound(world: World) -> bool {
    &&& forall|digest: Seq<char>|
        world.objects.dom().contains(#[trigger] keys::blob_key_spec(digest)) ==> digest
            == digest::digest_text(world.objects[keys::blob_key_spec(digest)])
    &&& forall|repo: Seq<char>, digest: Seq<char>| #[trigger]
        world.manifests.dom().contains((repo, digest)) ==> recorded_soundly(world, repo, digest)
    &&& forall|repo: Seq<char>, tag: Seq<char>| #[trigger]
        world.tags.dom().contains((repo, tag)) ==> world.manifests.dom().contains(
            (repo, world.tags[(repo, tag)]),
        )
}

/// Whether the metadata of a manifest fits its content, where that is there.
pub open spec fn recorded_soundly(world: World, repo: Seq<char>, digest: Seq<char>) -> bool {
    let row = world.manifests[(repo, digest)];
    let key = keys::manifest_key_spec(repo, digest);
    &&& row.digest == digest
    &&& db::is_digest_spec(digest)
    &&& !digest.contains('/')
    &&& world.objects.dom().contains(key) ==> {
        &&& digest == digest::digest_text(world.objects[key])
        &&& row.size == world.objects[key].len() as i64
    }
}

/// A registry that holds nothing.
pub open spec fn empty_world() -> World {
    World {
        tags: Map::empty(),
        manifests: Map::empty(),
        uploads: Map::empty(),
        objects: Map::empty(),
    }
}

/// A registry that holds nothing is sound, and its database finite.
pub proof fn law_empty_is_sound()
    ensures
        sound(empty_world()),
        world::is_finite(empty_world()),
{
}

proof fn lemma_put_is_sound(
    world: World,
    repo: Seq<char>,
    reference: Seq<char>,
    content_type: Option<Seq<char>>,
    data: Seq<u8>,
)
    requires
        sound(world),
    ensures
        sound(
            effects::with_manifest(
                world,
                repo,
                reference,
                effects::put_row(content_type, data),
                data,
            ),
        ),
{
    let row = effects::put_row(content_type, data);
    let after = effects::with_manifest(world, repo, reference, row, data);
    lemma_digest_is_digest(digest::sha256(data));
    assert forall|digest: Seq<char>|
        after.objects.dom().contains(#[trigger] keys::blob_key_spec(digest)) implies digest
        == digest::digest_text(after.objects[keys::blob_key_spec(digest)]) by {
        keys::law_kinds_of_keys_are_apart(digest, repo, row.digest, digest);
    }
    assert forall|name: Seq<char>, digest: Seq<char>| #[trigger]
        after.manifests.dom().contains((name, digest)) implies recorded_soundly(
        after,
        name,
        digest,
    ) by {
        if !(name == repo && digest == row.digest) {
            assert(world.manifests.dom().contains((name, digest)));
            keys::law_manifest_keys_differ(name, digest, repo, row.digest);
        }
    }
}

proof fn lemma_delete_is_sound(
    world: World,
    repo: Seq<char>,
    reference: Seq<char>,
    row: ManifestRowView,
)
    requires
        sound(world),
        effects::found(world, repo, reference) == Some(row),
    ensures
        sound(effects::without_manifest(world, repo, reference, row)),
{
    let after = effects::without_manifest(world, repo, reference, row);
    assert forall|name: Seq<char>, digest: Seq<char>| #[trigger]
        after.manifests.dom().contains((name, digest)) implies recorded_soundly(
        after,
        name,
        digest,
    ) by {
        assert(world.manifests.dom().contains((name, digest)));
    }
    assert forall|name: Seq<char>, tag: Seq<char>| #[trigger]
        after.tags.dom().contains((name, tag)) implies after.manifests.dom().contains(
        (name, after.tags[(name, tag)]),
    ) by {
        assert(world.tags.dom().contains((name, tag)));
    }
}

/// Other objects than blobs and manifests, and blobs under their own digest, may come and go.
proof fn lemma_object_is_sound(world: World, after: World)
    requires
        sound(world),
        after.tags == world.tags,
        after.manifests == world.manifests,
        forall|digest: Seq<char>|
            after.objects.dom().contains(#[trigger] keys::blob_key_spec(digest)) ==> digest
                == digest::digest_text(after.objects[keys::blob_key_spec(digest)]),
        forall|repo: Seq<char>, digest: Seq<char>|
            world::lookup(after.objects, #[trigger] keys::manifest_key_spec(repo, digest))
                == world::lookup(world.objects, keys::manifest_key_spec(repo, digest)),
    ensures
        sound(after),
{
    assert forall|repo: Seq<char>, digest: Seq<char>| #[trigger]
        after.manifests.dom().contains((repo, digest)) implies recorded_soundly(
        after,
        repo,
        digest,
    ) by {
        assert(recorded_soundly(world, repo, digest));
        let key = keys::manifest_key_spec(repo, digest);
        assert(world::lookup(after.objects, key) == world::lookup(world.objects, key));
    }
}

/// Whatever is requested, what the database and the store hold goes on fitting together.
pub proof fn law_requests_keep_it_sound(
    registry: RegistryView,
    services: Services,
    world: World,
    target: OciPathView,
    request: RequestView,
    uuid: Seq<char>,
)
    requires
        sound(world),
    ensures
        sound(
            world::served(
                registry,
                services,
                world,
                routes::target_step(registry, target, request, uuid),
                uuid,
            ).0,
        ),
{
    law_effect(registry, services, world, target, request, uuid);
    lemma_effect_is_sound(world, target, request, uuid);
}

proof fn lemma_effect_is_sound(
    world: World,
    target: OciPathView,
    request: RequestView,
    uuid: Seq<char>,
)
    requires
        sound(world),
    ensures
        sound(effect(world, target, request, uuid)),
{
    let after = effect(world, target, request, uuid);
    match target {
        OciPathView::Manifests { name, reference } => {
            if request.method == Method::Put {
                lemma_put_is_sound(world, name, reference, request.content_type, request.body);
            } else if request.method == Method::Delete {
                if let Some(row) = effects::found(world, name, reference) {
                    lemma_delete_is_sound(world, name, reference, row);
                }
            }
        },
        OciPathView::Blob { digest, .. } => {
            lemma_kinds_apart();
            lemma_object_is_sound(world, after);
        },
        OciPathView::BlobUploadStart { .. } => {
            lemma_object_is_sound(world, after);
        },
        OciPathView::BlobUpload { uuid: upload, .. } => {
            lemma_kinds_apart();
            lemma_blob_keys();
            lemma_object_is_sound(world, after);
        },
        OciPathView::TagsList { .. } => {},
    }
}

proof fn lemma_kinds_apart()
    ensures
        forall|blob: Seq<char>, repo: Seq<char>, digest: Seq<char>| #[trigger]
            keys::blob_key_spec(blob) != #[trigger] keys::manifest_key_spec(repo, digest),
        forall|blob: Seq<char>, uuid: Seq<char>| #[trigger]
            keys::blob_key_spec(blob) != #[trigger] keys::upload_key_spec(uuid),
        forall|repo: Seq<char>, digest: Seq<char>, uuid: Seq<char>| #[trigger]
            keys::manifest_key_spec(repo, digest) != #[trigger] keys::upload_key_spec(uuid),
{
    assert forall|blob: Seq<char>, repo: Seq<char>, digest: Seq<char>| #[trigger]
        keys::blob_key_spec(blob) != #[trigger] keys::manifest_key_spec(repo, digest) by {
        keys::law_kinds_of_keys_are_apart(blob, repo, digest, digest);
    }
    assert forall|blob: Seq<char>, uuid: Seq<char>| #[trigger]
        keys::blob_key_spec(blob) != #[trigger] keys::upload_key_spec(uuid) by {
        keys::law_kinds_of_keys_are_apart(blob, uuid, uuid, uuid);
    }
    assert forall|repo: Seq<char>, digest: Seq<char>, uuid: Seq<char>| #[trigger]
        keys::manifest_key_spec(repo, digest) != #[trigger] keys::upload_key_spec(uuid) by {
        keys::law_kinds_of_keys_are_apart(repo, repo, digest, uuid);
    }
}

proof fn lemma_blob_keys()
    ensures
        forall|a: Seq<char>, b: Seq<char>| #[trigger]
            keys::blob_key_spec(a) == #[trigger] keys::blob_key_spec(b) ==> a == b,
{
    assert forall|a: Seq<char>, b: Seq<char>| #[trigger]
        keys::blob_key_spec(a) == #[trigger] keys::blob_key_spec(b) implies a == b by {
        keys::law_blob_keys_differ(a, b);
    }
}

/// The path of a request on a target: below `/v2/` standalone, the whole path for a worker.
pub open spec fn request_path(registry: RegistryView, target: OciPathView) -> Seq<char> {
    if registry.edition == Edition::Standalone {
        oci_path::path_text(target)
    } else {
        "/v2/"@ + oci_path::path_text(target)
    }
}

/// A request that is let in reaches the target that its path spells.
pub proof fn law_path_reaches_target(
    registry: RegistryView,
    request: RequestView,
    target: OciPathView,
)
    requires
        routes::admits(registry, request.authorization),
        oci_path::is_readable(target),
        request.path == request_path(registry, target),
    ensures
        routes::reached(registry, request) == Some(target),
{
    oci_path::law_written_path_is_read_back(target);
    let rest = oci_path::path_text(target);
    let name = oci_path::target_name(target);
    assert(name.len() < rest.len() && rest[0] == name[0] && rest[name.len() as int] == '/') by {
        reveal_strlit("/manifests/");
        reveal_strlit("/blobs/");
        reveal_strlit("/blobs/uploads/");
        reveal_strlit("/tags/list");
    }
    if registry.edition == Edition::Worker {
        reveal_strlit("/v2");
        reveal_strlit("/v2/");
        reveal_strlit("/v2/_catalog");
        let path = request.path;
        assert(path.subrange(0, 3) =~= "/v2"@);
        assert(path.subrange(0, 4) =~= "/v2/"@);
        assert(path.skip(4) =~= rest);
        assert(path[4 + name.len() as int] == '/');
        assert(!text::has_prefix(rest, "/v2/"@)) by {
            if text::has_prefix(rest, "/v2/"@) {
                assert(rest.subrange(0, 4)[0] == '/');
            }
        }
        reveal_with_fuel(text::trim_prefixes_spec, 3);
    }
}

/// The start of a request to a registry.
pub open spec fn start_step(
    registry: RegistryView,
    request: RequestView,
    uuid: Seq<char>,
) -> StepView {
    if registry.edition == Edition::Standalone {
        routes::dispatch_step(registry, request, uuid)
    } else {
        routes::fetch_step(registry, request, uuid)
    }
}

/// The world after a request. The identifier is the one that a new upload is given.
pub open spec fn after_request(
    registry: RegistryView,
    services: Services,
    world: World,
    request: RequestView,
    uuid: Seq<char>,
) -> World {
    world::served(registry, services, world, start_step(registry, request, uuid), uuid).0
}

/// What a request does to the world: what a request on the target that it reaches does, or
/// nothing.
pub proof fn law_request_effect(
    registry: RegistryView,
    services: Services,
    world: World,
    request: RequestView,
    uuid: Seq<char>,
)
    ensures
        after_request(registry, services, world, request, uuid) == match routes::reached(
            registry,
            request,
        ) {
            Some(target) => effect(world, target, request, uuid),
            None => world,
        },
{
    match routes::reached(registry, request) {
        Some(target) => {
            law_effect(registry, services, world, target, request, uuid);
        },
        None => {
            effects::lemma_listings(registry, services, world, Seq::empty(), uuid);
            reveal_with_fuel(world::run, 2);
        },
    }
}

/// The parts of a request that are not wanted do not matter: whatever they are, the request starts
/// the same way.
pub proof fn law_unwanted_parts_do_not_matter(
    registry: RegistryView,
    request: RequestView,
    other: RequestView,
    uuid: Seq<char>,
)
    requires
        other.method == request.method,
        other.path == request.path,
        other.authorization == request.authorization,
        routes::wants_spec(registry, request, Part::ContentType) ==> other.content_type
            == request.content_type,
        routes::wants_spec(registry, request, Part::Mount) ==> other.mount == request.mount,
        routes::wants_spec(registry, request, Part::Digest) ==> other.digest == request.digest,
        routes::wants_spec(registry, request, Part::Body) ==> other.body == request.body,
    ensures
        start_step(registry, other, uuid) == start_step(registry, request, uuid),
{
}

/// A request that does not carry the token is answered with a challenge: nothing is read, and
/// nothing changes.
pub proof fn law_token_is_needed(
    registry: RegistryView,
    services: Services,
    world: World,
    request: RequestView,
    uuid: Seq<char>,
)
    requires
        !routes::admits(registry, request.authorization),
        registry.edition == Edition::Worker ==> text::has_prefix(request.path, "/v2"@),
    ensures
        start_step(registry, request, uuid) == StepView::Reply(
            reply::auth_challenge_spec(routes::realm_spec(registry.edition)),
        ),
        reply::auth_challenge_spec(routes::realm_spec(registry.edition)).status == 401,
        after_request(registry, services, world, request, uuid) == world,
        routes::version_step(registry, request.method, request.authorization) is Reply,
        routes::version_step(registry, request.method, request.authorization)->Reply_0.status
            == 401,
        routes::list_repos_step(registry, request.method, request.authorization) is Reply,
        routes::list_repos_step(registry, request.method, request.authorization)->Reply_0.status
            == 401,
{
    reveal_with_fuel(world::run, 2);
}

/// Without a token every request is let in.
pub proof fn law_no_token_no_challenge(
    registry: RegistryView,
    authorization: Option<Seq<char>>,
)
    requires
        registry.auth_token is None,
    ensures
        routes::admits(registry, authorization),
{
}

/// The requests of a history, one after the other, each with the identifier that a new upload is
/// given.
pub open spec fn history(
    registry: RegistryView,
    services: Services,
    world: World,
    requests: Seq<(RequestView, Seq<char>)>,
) -> World
    decreases requests.len(),
{
    if requests.len() == 0 {
        world
    } else {
        let before = history(registry, services, world, requests.drop_last());
        after_request(registry, services, before, requests.last().0, requests.last().1)
    }
}

/// Whatever the history of a registry, what its database and its store hold fits together.
pub proof fn law_history_is_sound(
    registry: RegistryView,
    services: Services,
    world: World,
    requests: Seq<(RequestView, Seq<char>)>,
)
    requires
        sound(world),
    ensures
        sound(history(registry, services, world, requests)),
    decreases requests.len(),
{
    if requests.len() > 0 {
        law_history_is_sound(registry, services, world, requests.drop_last());
        let before = history(registry, services, world, requests.drop_last());
        let (request, uuid) = requests.last();
        law_request_effect(registry, services, before, request, uuid);
        if let Some(target) = routes::reached(registry, request) {
            lemma_effect_is_sound(before, target, request, uuid);
        }
    }
}

/// Whatever the history of a registry, its database holds finitely many rows.
pub proof fn law_history_is_finite(
    registry: RegistryView,
    services: Services,
    world: World,
    requests: Seq<(RequestView, Seq<char>)>,
)
    requires
        world::is_finite(world),
    ensures
        world::is_finite(history(registry, services, world, requests)),
    decreases requests.len(),
{
    if requests.len() > 0 {
        law_history_is_finite(registry, services, world, requests.drop_last());
        let before = history(registry, services, world, requests.drop_last());
        let (request, uuid) = requests.last();
        law_request_effect(registry, services, before, request, uuid);
        if let Some(target) = routes::reached(registry, request) {
            let after = effect(before, target, request, uuid);
            if let OciPathView::Manifests { name, reference } = target {
                if after.tags == world::without_tags_of(before.tags, name, reference) {
                    vstd::set_lib::lemma_set_subset_finite(before.tags.dom(), after.tags.dom());
                }
            }
        }
    }
}

/// Whether a request is one to delete a blob.
pub open spec fn deletes_blob(
    registry: RegistryView,
    request: RequestView,
    digest: Seq<char>,
) -> bool {
    &&& request.method == Method::Delete
    &&& routes::reached(registry, request) matches Some(OciPathView::Blob { digest: deleted, .. })
    &&& deleted == digest
}

/// A blob stays until it is deleted, whatever else is requested: deleting manifests and tags
/// never deletes a blob.
pub proof fn law_blob_stays(
    registry: RegistryView,
    services: Services,
    world: World,
    requests: Seq<(RequestView, Seq<char>)>,
    digest: Seq<char>,
)
    requires
        world.objects.dom().contains(keys::blob_key_spec(digest)),
        forall|i: int|
            0 <= i < requests.len() ==> !deletes_blob(
                registry,
                (#[trigger] requests[i]).0,
                digest,
            ),
    ensures
        history(registry, services, world, requests).objects.dom().contains(
            keys::blob_key_spec(digest),
        ),
    decreases requests.len(),
{
    if requests.len() > 0 {
        let (request, uuid) = requests.last();
        assert(!deletes_blob(registry, requests[requests.len() - 1].0, digest));
        assert forall|i: int| 0 <= i < requests.drop_last().len() implies !deletes_blob(
            registry,
            (#[trigger] requests.drop_last()[i]).0,
            digest,
        ) by {
            assert(requests.drop_last()[i] == requests[i]);
        }
        law_blob_stays(registry, services, world, requests.drop_last(), digest);
        let before = history(registry, services, world, requests.drop_last());
        law_request_effect(registry, services, before, request, uuid);
        lemma_kinds_apart();
        lemma_blob_keys();
    }
}

/// Whether a request is one to delete a manifest by digest.
pub open spec fn deletes_manifest(
    registry: RegistryView,
    request: RequestView,
    repo: Seq<char>,
    digest: Seq<char>,
) -> bool {
    &&& request.method == Method::Delete
    &&& routes::reached(registry, request) matches Some(OciPathView::Manifests { name, reference })
    &&& name == repo
    &&& reference == digest
}

/// A manifest stays recorded until it is deleted by digest, whatever else is requested: deleting
/// a tag does not delete the manifest behind it.
pub proof fn law_manifest_stays_recorded(
    registry: RegistryView,
    services: Services,
    world: World,
    requests: Seq<(RequestView, Seq<char>)>,
    repo: Seq<char>,
    digest: Seq<char>,
)
    requires
        world.manifests.dom().contains((repo, digest)),
        forall|i: int|
            0 <= i < requests.len() ==> !deletes_manifest(
                registry,
                (#[trigger] requests[i]).0,
                repo,
                digest,
            ),
    ensures
        history(registry, services, world, requests).manifests.dom().contains((repo, digest)),
    decreases requests.len(),
{
    if requests.len() > 0 {
        let (request, uuid) = requests.last();
        assert(!deletes_manifest(registry, requests[requests.len() - 1].0, repo, digest));
        assert forall|i: int| 0 <= i < requests.drop_last().len() implies !deletes_manifest(
            registry,
            (#[trigger] requests.drop_last()[i]).0,
            repo,
            digest,
        ) by {
            assert(requests.drop_last()[i] == requests[i]);
        }
        law_manifest_stays_recorded(
            registry,
            services,
            world,
            requests.drop_last(),
            repo,
            digest,
        );
        let before = history(registry, services, world, requests.drop_last());
        law_request_effect(registry, services, before, request, uuid);
    }
}

/// Whether a reference to a manifest leads to a digest, and the content is there.
pub open spec fn leads_to(
    world: World,
    repo: Seq<char>,
    reference: Seq<char>,
    digest: Seq<char>,
) -> bool {
    &&& effects::found(world, repo, reference) matches Some(row)
    &&& row.digest == digest
    &&& world.objects.dom().contains(keys::manifest_key_spec(repo, digest))
}

/// Whether a request on a target moves a tag to another digest, or deletes a reference of the
/// repository that leads to the digest.
pub open spec fn takes_away(
    world: World,
    target: OciPathView,
    request: RequestView,
    repo: Seq<char>,
    reference: Seq<char>,
    digest: Seq<char>,
) -> bool {
    match (target, request.method) {
        (OciPathView::Manifests { name, reference: other }, Method::Put) => {
            &&& name == repo
            &&& other == reference
            &&& !db::is_digest_spec(reference)
            &&& digest::digest_text(request.body) != digest
        },
        (OciPathView::Manifests { name, reference: other }, Method::Delete) => {
            &&& name == repo
            &&& effects::found(world, repo, other) matches Some(row)
            &&& row.digest == digest
        },
        _ => false,
    }
}

/// Whether a request to a registry takes a manifest away from a reference.
pub open spec fn request_takes_away(
    registry: RegistryView,
    world: World,
    request: RequestView,
    repo: Seq<char>,
    reference: Seq<char>,
    digest: Seq<char>,
) -> bool {
    routes::reached(registry, request) matches Some(target) && takes_away(
        world,
        target,
        request,
        repo,
        reference,
        digest,
    )
}

/// A manifest that is served by a reference is served by it after a request too, exactly unless
/// the request moves that reference to another manifest or deletes a reference that leads to it.
pub proof fn law_what_takes_a_manifest_away(
    registry: RegistryView,
    services: Services,
    world: World,
    request: RequestView,
    repo: Seq<char>,
    reference: Seq<char>,
    digest: Seq<char>,
    uuid: Seq<char>,
)
    requires
        sound(world),
        leads_to(world, repo, reference, digest),
    ensures
        leads_to(
            after_request(registry, services, world, request, uuid),
            repo,
            reference,
            digest,
        ) <==> !request_takes_away(registry, world, request, repo, reference, digest),
{
    law_request_effect(registry, services, world, request, uuid);
    if let Some(target) = routes::reached(registry, request) {
        lemma_leads_on(world, target, request, uuid, repo, reference, digest);
    }
}

proof fn lemma_leads_on(
    world: World,
    target: OciPathView,
    request: RequestView,
    uuid: Seq<char>,
    repo: Seq<char>,
    reference: Seq<char>,
    digest: Seq<char>,
)
    requires
        sound(world),
        leads_to(world, repo, reference, digest),
    ensures
        leads_to(effect(world, target, request, uuid), repo, reference, digest) <==> !takes_away(
            world,
            target,
            request,
            repo,
            reference,
            digest,
        ),
{
    lemma_kinds_apart();
    let found_digest = if db::is_digest_spec(reference) {
        reference
    } else {
        world.tags[(repo, reference)]
    };
    assert(recorded_soundly(world, repo, found_digest));
    if let OciPathView::Manifests { name, reference: other } = target {
        if request.method == Method::Put {
            lemma_digest_is_digest(digest::sha256(request.body));
        } else if request.method == Method::Delete {
            if let Some(row) = effects::found(world, name, other) {
                let at = if db::is_digest_spec(other) {
                    other
                } else {
                    world.tags[(name, other)]
                };
                assert(recorded_soundly(world, name, at));
                keys::law_manifest_keys_differ(repo, digest, name, row.digest);
            }
        }
    }
}

/// A manifest goes on being served by a reference through any history of which no request takes
/// it away.
pub proof fn law_manifest_is_served_until_taken_away(
    registry: RegistryView,
    services: Services,
    world: World,
    requests: Seq<(RequestView, Seq<char>)>,
    repo: Seq<char>,
    reference: Seq<char>,
    digest: Seq<char>,
)
    requires
        sound(world),
        leads_to(world, repo, reference, digest),
        forall|i: int|
            0 <= i < requests.len() ==> !request_takes_away(
                registry,
                history(registry, services, world, requests.take(i)),
                (#[trigger] requests[i]).0,
                repo,
                reference,
                digest,
            ),
    ensures
        leads_to(history(registry, services, world, requests), repo, reference, digest),
    decreases requests.len(),
{
    if requests.len() > 0 {
        let shorter = requests.drop_last();
        let (request, uuid) = requests.last();
        assert forall|i: int| 0 <= i < shorter.len() implies !request_takes_away(
            registry,
            history(registry, services, world, shorter.take(i)),
            (#[trigger] shorter[i]).0,
            repo,
            reference,
            digest,
        ) by {
            assert(shorter[i] == requests[i]);
            assert(shorter.take(i) =~= requests.take(i));
        }
        law_manifest_is_served_until_taken_away(
            registry,
            services,
            world,
            shorter,
            repo,
            reference,
            digest,
        );
        law_history_is_sound(registry, services, world, shorter);
        let before = history(registry, services, world, shorter);
        assert(requests.take(requests.len() - 1) =~= shorter);
        assert(requests[requests.len() - 1].0 == request);
        law_what_takes_a_manifest_away(
            registry,
            services,
            before,
            request,
            repo,
            reference,
            digest,
            uuid,
        );
    }
}

/// Whether a request leaves a reference to a manifest alone, whatever the registry holds: it
/// neither puts a manifest under that reference, nor deletes, in that repository, that digest or
/// a tag.
pub open spec fn leaves_alone(
    registry: RegistryView,
    request: RequestView,
    repo: Seq<char>,
    reference: Seq<char>,
    digest: Seq<char>,
) -> bool {
    routes::reached(registry, request) matches Some(
        OciPathView::Manifests { name, reference: other },
    ) ==> {
        &&& !(request.method == Method::Put && name == repo && other == reference)
        &&& !(request.method == Method::Delete && name == repo && (other == digest
            || !db::is_digest_spec(other)))
    }
}

/// A manifest goes on being served by its reference until another one is put under that reference,
/// or its digest or a tag is deleted in that repository, whatever else is requested.
pub proof fn law_manifest_is_served_on(
    registry: RegistryView,
    services: Services,
    world: World,
    requests: Seq<(RequestView, Seq<char>)>,
    repo: Seq<char>,
    reference: Seq<char>,
    digest: Seq<char>,
)
    requires
        sound(world),
        leads_to(world, repo, reference, digest),
        forall|i: int|
            0 <= i < requests.len() ==> leaves_alone(
                registry,
                (#[trigger] requests[i]).0,
                repo,
                reference,
                digest,
            ),
    ensures
        leads_to(history(registry, services, world, requests), repo, reference, digest),
{
    assert forall|i: int| 0 <= i < requests.len() implies !request_takes_away(
        registry,
        history(registry, services, world, requests.take(i)),
        (#[trigger] requests[i]).0,
        repo,
        reference,
        digest,
    ) by {
        law_history_is_sound(registry, services, world, requests.take(i));
        let before = history(registry, services, world, requests.take(i));
        let request = requests[i].0;
        if let Some(OciPathView::Manifests { name, reference: other }) = routes::reached(
            registry,
            request,
        ) {
            if effects::found(before, repo, other) is Some && db::is_digest_spec(other) {
                assert(recorded_soundly(before, repo, other));
            }
        }
    }
    law_manifest_is_served_until_taken_away(
        registry,
        services,
        world,
        requests,
        repo,
        reference,
        digest,
    );
}

/// A standalone registry, and a worker with a base URL, never send the content of a blob: a blob
/// that is there is answered with a redirect.
pub proof fn law_blobs_are_redirected(
    registry: RegistryView,
    services: Services,
    world: World,
    digest: Seq<char>,
    uuid: Seq<char>,
)
    requires
        world.objects.dom().contains(keys::blob_key_spec(digest)),
        registry.edition == Edition::Standalone || blobs::download_base(registry) is Some,
    ensures
        world::served(
            registry,
            services,
            world,
            blobs::find_blob_step(digest, BlobPurpose::Get),
            uuid,
        ).1 == StepView::Reply(
            responses::blob_redirect_reply(
                match blobs::download_base(registry) {
                    Some(base) => responses::public_url_spec(base, keys::blob_key_spec(digest)),
                    None => (services.url)(keys::blob_key_spec(digest)),
                },
                digest,
            ),
        ),
{
    effects::law_get_blob(registry, services, world, digest, uuid);
}

// ---- Whatever fails outside ----

/// Whether what a step stores is stored where it belongs: a blob and the content of a manifest
/// under their own digest, and anything else as the data of an upload.
pub open spec fn stores_truly(step: StepView) -> bool {
    step matches StepView::PutObject { key, data, then, .. } ==> match then {
        DoneWantedView::ManifestStored { repo, digest, size, .. } => {
            &&& digest == digest::digest_text(data)
            &&& key == keys::manifest_key_spec(repo, digest)
            &&& size == data.len() as i64
        },
        DoneWantedView::BlobStored { digest, .. } => {
            &&& digest == digest::digest_text(data)
            &&& key == keys::blob_key_spec(digest)
        },
        DoneWantedView::ChunkStored { uuid, .. } => key == keys::upload_key_spec(uuid),
        _ => false,
    }
}

/// Whatever the answers from outside, nothing is stored as a blob or as the content of a manifest
/// but under its own digest.
pub proof fn law_content_is_stored_truly(
    registry: RegistryView,
    request: RequestView,
    uuid: Seq<char>,
    found_for: ManifestWantedView,
    digest: Result<Option<Seq<char>>, Seq<char>>,
    manifest: Result<Option<ManifestRowView>, Seq<char>>,
    upload_for: UploadWantedView,
    upload: Result<Option<UploadRowView>, Seq<char>>,
    names_for: NamesWantedView,
    names: Result<Seq<Seq<char>>, Seq<char>>,
    size_for: SizeWantedView,
    size: Result<Option<i64>, Seq<char>>,
    data_for: ObjectWantedView,
    data: Result<Option<Seq<u8>>, Seq<char>>,
    url_for: UrlWantedView,
    url: Result<Seq<char>, Seq<char>>,
    done_for: DoneWantedView,
    done: Result<(), Seq<char>>,
)
    ensures
        stores_truly(routes::dispatch_step(registry, request, uuid)),
        stores_truly(routes::fetch_step(registry, request, uuid)),
        stores_truly(manifests::after_tag_step(registry, found_for, digest)),
        stores_truly(manifests::after_manifest_step(registry, found_for, manifest)),
        stores_truly(uploads::after_upload_step(registry, upload_for, upload)),
        stores_truly(routes::after_names_step(registry, names_for, names)),
        stores_truly(routes::after_size_step(registry, size_for, size, uuid)),
        stores_truly(routes::after_object_step(registry, data_for, data)),
        stores_truly(blobs::after_url_step(registry, url_for, url)),
        stores_truly(routes::after_done_step(registry, done_for, done)),
{
}

/// What fails outside is reported: a standalone registry answers with the message, and a worker
/// raises it; but for what is deleted on the way, which does not matter, and, standalone, a blob
/// to be mounted that cannot be looked up, for which an upload is started.
pub proof fn law_failures_are_reported(
    registry: RegistryView,
    message: Seq<char>,
    found_for: ManifestWantedView,
    upload_for: UploadWantedView,
    names_for: NamesWantedView,
    data_for: ObjectWantedView,
    url_for: UrlWantedView,
    done_for: DoneWantedView,
    digest: Seq<char>,
    purpose: BlobPurpose,
    uuid: Seq<char>,
)
    requires
        !(done_for is ManifestDropped),
        !(done_for is TemporaryDropped),
        !(done_for is CancelledDropped),
        !(done_for is CancelledForgotten),
        !(done_for is UploadForgotten && registry.edition == Edition::Standalone),
    ensures
        ({
            let reported = manifests::failure_step(registry.edition, message);
            let asked = SizeWantedView::Blob { digest, purpose };
            &&& manifests::after_tag_step(registry, found_for, Err(message)) == reported
            &&& manifests::after_manifest_step(registry, found_for, Err(message)) == reported
            &&& uploads::after_upload_step(registry, upload_for, Err(message)) == reported
            &&& routes::after_names_step(registry, names_for, Err(message)) == reported
            &&& routes::after_size_step(registry, asked, Err(message), uuid) == reported
            &&& routes::after_object_step(registry, data_for, Err(message)) == reported
            &&& blobs::after_url_step(registry, url_for, Err(message)) == reported
            &&& routes::after_done_step(registry, done_for, Err(message)) == reported
        }),
{
}

} // verus!
