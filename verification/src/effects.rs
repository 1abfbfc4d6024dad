//! What each request does, from start to end.

use vstd::prelude::*;

use crate::blobs;
use crate::db;
use crate::db::{ManifestRowView, UploadRowView};
use crate::digest;
use crate::keys;
use crate::manifests;
use crate::order;
use crate::reply;
use crate::responses;
use crate::routes;
use crate::step::{
    BlobPurpose, Edition, ManifestPurposeView, RegistryView, RequestView, StepView,
    UploadWantedView,
};
use crate::types;
use crate::uploads;
use crate::world;
use crate::world::{Services, World};

verus! {

// ---- Every request comes to an end ----

/// No request starts with more than five steps to do.
pub proof fn law_work_starts_small(registry: RegistryView, request: RequestView, uuid: Seq<char>)
    ensures
        world::steps_left(routes::dispatch_step(registry, request, uuid)) <= world::most_steps(),
        world::steps_left(routes::fetch_step(registry, request, uuid)) <= world::most_steps(),
        world::steps_left(
            routes::version_step(registry, request.method, request.authorization),
        ) <= world::most_steps(),
        world::steps_left(
            routes::list_repos_step(registry, request.method, request.authorization),
        ) <= world::most_steps(),
{
}

/// Whatever the answer to what a step asks for, the step that follows leaves less to do.
pub proof fn law_work_shrinks(
    registry: RegistryView,
    step: StepView,
    uuid: Seq<char>,
    digest: Result<Option<Seq<char>>, Seq<char>>,
    manifest: Result<Option<ManifestRowView>, Seq<char>>,
    upload: Result<Option<UploadRowView>, Seq<char>>,
    names: Result<Seq<Seq<char>>, Seq<char>>,
    size: Result<Option<i64>, Seq<char>>,
    data: Result<Option<Seq<u8>>, Seq<char>>,
    url: Result<Seq<char>, Seq<char>>,
    done: Result<(), Seq<char>>,
)
    ensures
        match step {
            StepView::Reply(_) => world::steps_left(step) == 0,
            StepView::Raise(_) => world::steps_left(step) == 0,
            StepView::FindTag { then, .. } => world::steps_left(
                manifests::after_tag_step(registry, then, digest),
            ) < world::steps_left(step),
            StepView::FindManifest { then, .. } => world::steps_left(
                manifests::after_manifest_step(registry, then, manifest),
            ) < world::steps_left(step),
            StepView::FindUpload { then, .. } => world::steps_left(
                uploads::after_upload_step(registry, then, upload),
            ) < world::steps_left(step),
            StepView::ListNames { then, .. } => world::steps_left(
                routes::after_names_step(registry, then, names),
            ) < world::steps_left(step),
            StepView::Execute { then, .. } => world::steps_left(
                routes::after_done_step(registry, then, done),
            ) < world::steps_left(step),
            StepView::HeadObject { then, .. } => world::steps_left(
                routes::after_size_step(registry, then, size, uuid),
            ) < world::steps_left(step),
            StepView::GetObject { then, .. } => world::steps_left(
                routes::after_object_step(registry, then, data),
            ) < world::steps_left(step),
            StepView::PutObject { then, .. } => world::steps_left(
                routes::after_done_step(registry, then, done),
            ) < world::steps_left(step),
            StepView::DeleteObject { then, .. } => world::steps_left(
                routes::after_done_step(registry, then, done),
            ) < world::steps_left(step),
            StepView::PresignObject { then, .. } => world::steps_left(
                blobs::after_url_step(registry, then, url),
            ) < world::steps_left(step),
        },
{
}

proof fn lemma_run_ends(
    registry: RegistryView,
    services: Services,
    world: World,
    step: StepView,
    uuid: Seq<char>,
    steps: nat,
)
    requires
        world::steps_left(step) <= steps,
    ensures
        world::is_done(world::run(registry, services, world, step, uuid, steps).1),
    decreases steps,
{
    if steps > 0 && !world::is_done(step) {
        let (after, following) = world::next(registry, services, world, step, uuid);
        lemma_run_ends(registry, services, after, following, uuid, (steps - 1) as nat);
    }
}

/// Every request is answered, or raises what failed outside.
pub proof fn law_requests_are_answered(
    registry: RegistryView,
    services: Services,
    world: World,
    request: RequestView,
    uuid: Seq<char>,
)
    ensures
        world::is_done(
            world::served(
                registry,
                services,
                world,
                routes::dispatch_step(registry, request, uuid),
                uuid,
            ).1,
        ),
        world::is_done(
            world::served(
                registry,
                services,
                world,
                routes::fetch_step(registry, request, uuid),
                uuid,
            ).1,
        ),
{
    law_work_starts_small(registry, request, uuid);
    let most = world::most_steps();
    let dispatch = routes::dispatch_step(registry, request, uuid);
    lemma_run_ends(registry, services, world, dispatch, uuid, most);
    let fetch = routes::fetch_step(registry, request, uuid);
    lemma_run_ends(registry, services, world, fetch, uuid, most);
}

// ---- What each request does ----

/// The metadata of a manifest by reference: by digest directly, by tag through the digest behind
/// it.
pub open spec fn found(
    world: World,
    repo: Seq<char>,
    reference: Seq<char>,
) -> Option<ManifestRowView> {
    if db::is_digest_spec(reference) {
        world::lookup(world.manifests, (repo, reference))
    } else {
        match world::lookup(world.tags, (repo, reference)) {
            Some(digest) => world::lookup(world.manifests, (repo, digest)),
            None => None,
        }
    }
}

/// Getting a manifest changes nothing, and gives its content, where there are both metadata and
/// content.
#[verifier::rlimit(40)]
pub proof fn law_get_manifest(
    registry: RegistryView,
    services: Services,
    world: World,
    repo: Seq<char>,
    reference: Seq<char>,
    uuid: Seq<char>,
)
    ensures
        world::served(
            registry,
            services,
            world,
            manifests::find_manifest_step(repo, reference, ManifestPurposeView::Get),
            uuid,
        ) == (
            world,
            StepView::Reply(
                match found(world, repo, reference) {
                    Some(row) => match world::lookup(
                        world.objects,
                        keys::manifest_key_spec(repo, row.digest),
                    ) {
                        Some(data) => responses::manifest_reply(registry.edition, row, data),
                        None => responses::manifest_lost_reply(registry.edition),
                    },
                    None => responses::manifest_unknown_reply(registry.edition),
                },
            ),
        ),
{
    reveal_with_fuel(world::run, 6);
}

/// Asking for a manifest changes nothing, and gives its metadata.
#[verifier::rlimit(40)]
pub proof fn law_head_manifest(
    registry: RegistryView,
    services: Services,
    world: World,
    repo: Seq<char>,
    reference: Seq<char>,
    uuid: Seq<char>,
)
    ensures
        world::served(
            registry,
            services,
            world,
            manifests::find_manifest_step(repo, reference, ManifestPurposeView::Head),
            uuid,
        ) == (
            world,
            StepView::Reply(
                match found(world, repo, reference) {
                    Some(row) => responses::manifest_head_reply(row),
                    None => responses::manifest_unknown_reply(registry.edition),
                },
            ),
        ),
{
    reveal_with_fuel(world::run, 6);
}

/// The world after a manifest was put.
pub open spec fn with_manifest(
    world: World,
    repo: Seq<char>,
    reference: Seq<char>,
    row: ManifestRowView,
    data: Seq<u8>,
) -> World {
    World {
        tags: if db::is_digest_spec(reference) {
            world.tags
        } else {
            world.tags.insert((repo, reference), row.digest)
        },
        manifests: world.manifests.insert((repo, row.digest), row),
        objects: world.objects.insert(keys::manifest_key_spec(repo, row.digest), data),
        ..world
    }
}

/// The metadata of a manifest that is put.
pub open spec fn put_row(content_type: Option<Seq<char>>, data: Seq<u8>) -> ManifestRowView {
    ManifestRowView {
        digest: digest::digest_text(data),
        content_type: match content_type {
            Some(given) => given,
            None => manifests::DEFAULT_MANIFEST_TYPE@,
        },
        size: data.len() as i64,
    }
}

/// Putting a manifest stores its content under its own digest, whatever the reference, records
/// its metadata, and points the reference at it if that is a tag.
#[verifier::rlimit(40)]
pub proof fn law_put_manifest(
    registry: RegistryView,
    services: Services,
    world: World,
    repo: Seq<char>,
    reference: Seq<char>,
    content_type: Option<Seq<char>>,
    data: Seq<u8>,
    uuid: Seq<char>,
)
    ensures
        world::served(
            registry,
            services,
            world,
            manifests::put_manifest_step(repo, reference, content_type, data),
            uuid,
        ) == (
            with_manifest(world, repo, reference, put_row(content_type, data), data),
            StepView::Reply(
                responses::manifest_created_reply(
                    registry.edition,
                    repo,
                    digest::digest_text(data),
                ),
            ),
        ),
{
    reveal_with_fuel(world::run, 6);
    reveal_with_fuel(world::executed, 3);
}

/// The world after a manifest, or a tag, was deleted. The content goes in either case; by digest,
/// the metadata and the tags that point at it go too; by tag, the tag alone.
pub open spec fn without_manifest(
    world: World,
    repo: Seq<char>,
    reference: Seq<char>,
    row: ManifestRowView,
) -> World {
    let objects = world.objects.remove(keys::manifest_key_spec(repo, row.digest));
    if db::is_digest_spec(reference) {
        World {
            tags: world::without_tags_of(world.tags, repo, reference),
            manifests: world.manifests.remove((repo, reference)),
            objects,
            ..world
        }
    } else {
        World { tags: world.tags.remove((repo, reference)), objects, ..world }
    }
}

proof fn lemma_forgetting(world: World, repo: Seq<char>, reference: Seq<char>)
    ensures
        world::executed(world, db::delete_manifest_spec(repo, reference)) == (
            if db::is_digest_spec(reference) {
                World {
                    tags: world::without_tags_of(world.tags, repo, reference),
                    manifests: world.manifests.remove((repo, reference)),
                    ..world
                }
            } else {
                World { tags: world.tags.remove((repo, reference)), ..world }
            },
            true,
        ),
{
    reveal_with_fuel(world::executed, 3);
}

/// Deleting a manifest or a tag removes what there is of it, where it is known.
#[verifier::rlimit(40)]
pub proof fn law_delete_manifest(
    registry: RegistryView,
    services: Services,
    world: World,
    repo: Seq<char>,
    reference: Seq<char>,
    uuid: Seq<char>,
)
    ensures
        world::served(
            registry,
            services,
            world,
            manifests::find_manifest_step(
                repo,
                reference,
                ManifestPurposeView::Delete { reference },
            ),
            uuid,
        ) == match found(world, repo, reference) {
            Some(row) => (
                without_manifest(world, repo, reference, row),
                StepView::Reply(responses::bare_reply(202)),
            ),
            None => (
                world,
                StepView::Reply(responses::manifest_unknown_reply(registry.edition)),
            ),
        },
{
    if let Some(row) = found(world, repo, reference) {
        let objects = world.objects.remove(keys::manifest_key_spec(repo, row.digest));
        lemma_forgetting(World { objects, ..world }, repo, reference);
    }
    reveal_with_fuel(world::run, 6);
}

/// Getting a blob changes nothing. Where it is there, the client is sent to where it can be
/// downloaded: below the base URL, or, standalone, at a URL that the store gives. A worker without
/// a base URL sends the content itself.
#[verifier::rlimit(40)]
pub proof fn law_get_blob(
    registry: RegistryView,
    services: Services,
    world: World,
    digest: Seq<char>,
    uuid: Seq<char>,
)
    ensures
        world::served(
            registry,
            services,
            world,
            blobs::find_blob_step(digest, BlobPurpose::Get),
            uuid,
        ) == (
            world,
            StepView::Reply(
                match world::lookup(world.objects, keys::blob_key_spec(digest)) {
                    Some(data) => match blobs::download_base(registry) {
                        Some(base) => responses::blob_redirect_reply(
                            responses::public_url_spec(base, keys::blob_key_spec(digest)),
                            digest,
                        ),
                        None => if registry.edition == Edition::Standalone {
                            responses::blob_redirect_reply(
                                (services.url)(keys::blob_key_spec(digest)),
                                digest,
                            )
                        } else {
                            responses::blob_reply(digest, data)
                        },
                    },
                    None => responses::blob_unknown_reply(registry.edition, false),
                },
            ),
        ),
{
    reveal_with_fuel(world::run, 6);
}

/// Asking for a blob changes nothing, and gives its size.
#[verifier::rlimit(40)]
pub proof fn law_head_blob(
    registry: RegistryView,
    services: Services,
    world: World,
    digest: Seq<char>,
    uuid: Seq<char>,
)
    ensures
        world::served(
            registry,
            services,
            world,
            blobs::find_blob_step(digest, BlobPurpose::Head),
            uuid,
        ) == (
            world,
            StepView::Reply(
                match world::lookup(world.objects, keys::blob_key_spec(digest)) {
                    Some(data) => responses::blob_head_reply(digest, data.len() as i64),
                    None => responses::blob_unknown_reply(registry.edition, false),
                },
            ),
        ),
{
    reveal_with_fuel(world::run, 6);
}

/// Deleting a blob removes it, where it is there.
#[verifier::rlimit(40)]
pub proof fn law_delete_blob(
    registry: RegistryView,
    services: Services,
    world: World,
    digest: Seq<char>,
    uuid: Seq<char>,
)
    ensures
        world::served(
            registry,
            services,
            world,
            blobs::find_blob_step(digest, BlobPurpose::Delete),
            uuid,
        ) == if world.objects.dom().contains(keys::blob_key_spec(digest)) {
            (
                World { objects: world.objects.remove(keys::blob_key_spec(digest)), ..world },
                StepView::Reply(responses::bare_reply(202)),
            )
        } else {
            (
                world,
                StepView::Reply(responses::blob_unknown_reply(registry.edition, true)),
            )
        },
{
    reveal_with_fuel(world::run, 6);
}

/// Whether a blob is to be mounted that is there.
pub open spec fn mountable(world: World, mount: Option<Seq<char>>) -> bool {
    mount matches Some(digest) && world.objects.dom().contains(keys::blob_key_spec(digest))
}

/// The world after an upload was started.
pub open spec fn with_upload(world: World, repo: Seq<char>, uuid: Seq<char>) -> World {
    World {
        uploads: world.uploads.insert(uuid, UploadRowView { repo, offset: 0 }),
        ..world
    }
}

/// Starting an upload records it under its new identifier. Where a blob that is there is to be
/// mounted instead, nothing changes: it is in every repository already.
#[verifier::rlimit(40)]
pub proof fn law_initiate_upload(
    registry: RegistryView,
    services: Services,
    world: World,
    repo: Seq<char>,
    mount: Option<Seq<char>>,
    uuid: Seq<char>,
)
    requires
        !world.uploads.dom().contains(uuid),
    ensures
        world::served(
            registry,
            services,
            world,
            uploads::initiate_upload_step(repo, mount, uuid),
            uuid,
        ) == if mountable(world, mount) {
            (
                world,
                StepView::Reply(
                    responses::blob_created_reply(registry.edition, repo, mount->0),
                ),
            )
        } else {
            (
                with_upload(world, repo, uuid),
                StepView::Reply(responses::upload_started_reply(repo, uuid)),
            )
        },
{
    reveal_with_fuel(world::run, 6);
    reveal_with_fuel(world::executed, 3);
}

/// Asking how far an upload has come changes nothing.
#[verifier::rlimit(40)]
pub proof fn law_upload_status(
    registry: RegistryView,
    services: Services,
    world: World,
    repo: Seq<char>,
    upload: Seq<char>,
    uuid: Seq<char>,
)
    ensures
        world::served(
            registry,
            services,
            world,
            uploads::find_upload_step(
                upload,
                UploadWantedView::Status { repo, uuid: upload },
            ),
            uuid,
        ) == (
            world,
            StepView::Reply(
                match world::lookup(world.uploads, upload) {
                    Some(row) => responses::upload_status_reply(
                        registry.edition,
                        repo,
                        upload,
                        row.offset,
                    ),
                    None => responses::upload_unknown_reply(),
                },
            ),
        ),
{
    reveal_with_fuel(world::run, 6);
}

/// The world after an upload received data, in place of what it had received.
pub open spec fn with_data(world: World, upload: Seq<char>, data: Seq<u8>) -> World {
    World {
        uploads: world.uploads.insert(
            upload,
            UploadRowView { offset: data.len() as i64, ..world.uploads[upload] },
        ),
        objects: world.objects.insert(keys::upload_key_spec(upload), data),
        ..world
    }
}

/// Data for an upload that is known is stored in place of what it had received; for any other
/// nothing changes.
#[verifier::rlimit(40)]
pub proof fn law_patch_upload(
    registry: RegistryView,
    services: Services,
    world: World,
    repo: Seq<char>,
    upload: Seq<char>,
    data: Seq<u8>,
    uuid: Seq<char>,
)
    ensures
        world::served(
            registry,
            services,
            world,
            uploads::find_upload_step(
                upload,
                UploadWantedView::Patch { repo, uuid: upload, data },
            ),
            uuid,
        ) == if world.uploads.dom().contains(upload) {
            (
                with_data(world, upload, data),
                StepView::Reply(
                    responses::chunk_reply(registry.edition, repo, upload, data.len() as i64),
                ),
            )
        } else {
            (world, StepView::Reply(responses::upload_unknown_reply()))
        },
{
    reveal_with_fuel(world::run, 6);
    reveal_with_fuel(world::executed, 3);
}

/// The data with which an upload is completed: what comes with the request, or, where nothing
/// comes, what it has received.
pub open spec fn final_data(world: World, upload: Seq<char>, body: Seq<u8>) -> Option<Seq<u8>> {
    if body.len() > 0 {
        Some(body)
    } else {
        world::lookup(world.objects, keys::upload_key_spec(upload))
    }
}

/// The world after an upload was completed: its data is a blob, and nothing else is left of it.
pub open spec fn completed(
    world: World,
    upload: Seq<char>,
    digest: Seq<char>,
    data: Seq<u8>,
) -> World {
    World {
        uploads: world.uploads.remove(upload),
        objects: world.objects.insert(keys::blob_key_spec(digest), data).remove(
            keys::upload_key_spec(upload),
        ),
        ..world
    }
}

/// Completing an upload takes a digest, an upload that is known, and data that has the digest;
/// then the data is stored as a blob, and the upload is forgotten. Else nothing changes.
#[verifier::rlimit(40)]
pub proof fn law_complete_upload(
    registry: RegistryView,
    services: Services,
    world: World,
    repo: Seq<char>,
    upload: Seq<char>,
    expected: Option<Seq<char>>,
    body: Seq<u8>,
    uuid: Seq<char>,
)
    ensures
        world::served(
            registry,
            services,
            world,
            uploads::complete_upload_step(registry, repo, upload, expected, body),
            uuid,
        ) == match expected {
            None => (world, StepView::Reply(responses::digest_missing_reply(registry.edition))),
            Some(digest) => if !world.uploads.dom().contains(upload) {
                (world, StepView::Reply(responses::upload_unknown_reply()))
            } else {
                match final_data(world, upload, body) {
                    None => (
                        world,
                        StepView::Reply(responses::data_missing_reply(registry.edition)),
                    ),
                    Some(data) => if digest::digest_text(data) == digest {
                        (
                            completed(world, upload, digest, data),
                            StepView::Reply(
                                responses::blob_created_reply(registry.edition, repo, digest),
                            ),
                        )
                    } else {
                        (world, StepView::Reply(responses::digest_wrong_reply(registry.edition)))
                    },
                }
            },
        },
{
    reveal_with_fuel(world::run, 6);
    reveal_with_fuel(world::executed, 3);
}

/// Cancelling an upload removes what there is of it, if anything.
#[verifier::rlimit(40)]
pub proof fn law_cancel_upload(
    registry: RegistryView,
    services: Services,
    world: World,
    upload: Seq<char>,
    uuid: Seq<char>,
)
    ensures
        world::served(
            registry,
            services,
            world,
            uploads::cancel_upload_step(upload),
            uuid,
        ) == (
            World {
                uploads: world.uploads.remove(upload),
                objects: world.objects.remove(keys::upload_key_spec(upload)),
                ..world
            },
            StepView::Reply(responses::bare_reply(204)),
        ),
{
    reveal_with_fuel(world::run, 6);
    reveal_with_fuel(world::executed, 3);
}

/// The reply to a listing, by what the database lists.
#[verifier::rlimit(40)]
pub(crate) proof fn lemma_listings(
    registry: RegistryView,
    services: Services,
    world: World,
    repo: Seq<char>,
    uuid: Seq<char>,
)
    ensures
        world::served(registry, services, world, routes::list_tags_step(repo), uuid) == (
            world,
            StepView::Reply(
                reply::json_response_spec(
                    200,
                    types::tag_list_json(repo, (services.listed)(world::tags_of(world, repo))),
                ),
            ),
        ),
        world::served(registry, services, world, routes::catalog_step(), uuid) == (
            world,
            StepView::Reply(
                reply::json_response_spec(
                    200,
                    types::catalog_json((services.listed)(world::repos_of(world))),
                ),
            ),
        ),
{
    reveal_with_fuel(world::run, 6);
}

/// Listing the tags of a repository changes nothing. The reply lists those that there are, each
/// once and in order, and none of another repository; without any it is an empty list.
pub proof fn law_list_tags(
    registry: RegistryView,
    services: Services,
    world: World,
    repo: Seq<char>,
    uuid: Seq<char>,
)
    requires
        world::lists_in_order(services),
        world::is_finite(world),
    ensures
        ({
            let names = (services.listed)(world::tags_of(world, repo));
            &&& world::served(registry, services, world, routes::list_tags_step(repo), uuid) == (
                world,
                StepView::Reply(
                    reply::json_response_spec(200, types::tag_list_json(repo, names)),
                ),
            )
            &&& order::increasing(names)
            &&& names.no_duplicates()
            &&& forall|tag: Seq<char>| #[trigger]
                names.contains(tag) <==> world.tags.dom().contains((repo, tag))
            &&& (forall|tag: Seq<char>| !#[trigger] world.tags.dom().contains((repo, tag)))
                ==> names.len() == 0
        }),
{
    lemma_listings(registry, services, world, repo, uuid);
    world::law_tags_are_found(services, world, repo);
}

/// Listing the repositories changes nothing. The reply lists those that hold a manifest, each
/// once and in order, and no other.
pub proof fn law_catalog(
    registry: RegistryView,
    services: Services,
    world: World,
    uuid: Seq<char>,
)
    requires
        world::lists_in_order(services),
        world::is_finite(world),
    ensures
        ({
            let names = (services.listed)(world::repos_of(world));
            &&& world::served(registry, services, world, routes::catalog_step(), uuid) == (
                world,
                StepView::Reply(reply::json_response_spec(200, types::catalog_json(names))),
            )
            &&& order::increasing(names)
            &&& names.no_duplicates()
            &&& forall|repo: Seq<char>| #[trigger]
                names.contains(repo) <==> world::has_manifest(world, repo)
        }),
{
    lemma_listings(registry, services, world, Seq::empty(), uuid);
    world::law_repos_are_found(services, world);
}

} // verus!
