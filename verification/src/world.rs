//! What the work on requests comes to, with a database and a store that do as they are told.
//!
//! Nothing here runs: it is a model of what stands around the registry, for stating what a whole
//! request does.

use vstd::prelude::*;

use crate::blobs;
use crate::db::{ManifestRowView, QueryView, UploadRowView};
use crate::manifests;
use crate::order;
use crate::routes;
use crate::step::{DoneWantedView, ObjectWantedView, RegistryView, StepView};
use crate::uploads;

verus! {

/// What the database and the store hold.
#[verifier::ext_equal]
pub struct World {
    /// The digest behind each tag of each repository.
    pub tags: Map<(Seq<char>, Seq<char>), Seq<char>>,
    /// The metadata of each manifest, by its repository and digest.
    pub manifests: Map<(Seq<char>, Seq<char>), ManifestRowView>,
    /// The metadata of each upload in progress.
    pub uploads: Map<Seq<char>, UploadRowView>,
    /// The data of each object of the store, by its key.
    pub objects: Map<Seq<char>, Seq<u8>>,
}

/// What is left open of the database and the store.
pub struct Services {
    /// The URL that the store gives for a key.
    pub url: spec_fn(Seq<char>) -> Seq<char>,
    /// The list that the database makes of a set of names.
    pub listed: spec_fn(Set<Seq<char>>) -> Seq<Seq<char>>,
    /// The message with which the database refuses a second upload of the same identifier.
    pub conflict: Seq<char>,
}

/// Whether the database lists names as it is asked to: exactly those of a set, each once, in the
/// order of their bytes.
pub open spec fn lists_in_order(services: Services) -> bool {
    forall|set: Set<Seq<char>>|
        #![trigger (services.listed)(set)]
        set.finite() ==> order::lists((services.listed)(set), set)
}

/// Whether the database holds finitely many rows.
pub open spec fn is_finite(world: World) -> bool {
    &&& world.tags.dom().finite()
    &&& world.manifests.dom().finite()
}

/// A database can list names as it is asked to.
pub proof fn law_listing_is_possible(url: spec_fn(Seq<char>) -> Seq<char>, conflict: Seq<char>)
    ensures
        exists|services: Services|
            services.url == url && services.conflict == conflict && lists_in_order(services),
{
    let listed = |set: Set<Seq<char>>| choose|names: Seq<Seq<char>>| order::lists(names, set);
    let services = Services { url, listed, conflict };
    assert forall|set: Set<Seq<char>>|
        #![trigger (services.listed)(set)]
        set.finite() implies order::lists((services.listed)(set), set) by {
        order::law_names_can_be_listed(set);
    }
    assert(lists_in_order(services));
}

/// The value of a key, if it has one.
pub open spec fn lookup<K, V>(map: Map<K, V>, key: K) -> Option<V> {
    if map.dom().contains(key) {
        Some(map[key])
    } else {
        None
    }
}

/// The tags of a repository.
pub open spec fn tags_of(world: World, repo: Seq<char>) -> Set<Seq<char>> {
    Set::new(|tag: Seq<char>| world.tags.dom().contains((repo, tag)))
}

/// Whether a repository holds a manifest.
pub open spec fn has_manifest(world: World, repo: Seq<char>) -> bool {
    exists|digest: Seq<char>| #[trigger] world.manifests.dom().contains((repo, digest))
}

/// The repositories that hold a manifest.
pub open spec fn repos_of(world: World) -> Set<Seq<char>> {
    Set::new(|repo: Seq<char>| has_manifest(world, repo))
}

pub(crate) proof fn lemma_finite_names(world: World, repo: Seq<char>)
    requires
        is_finite(world),
    ensures
        tags_of(world, repo).finite(),
        repos_of(world).finite(),
{
    let tag = |at: (Seq<char>, Seq<char>)| at.1;
    world.tags.dom().lemma_map_finite(tag);
    assert forall|name: Seq<char>| #[trigger] tags_of(world, repo).contains(name) implies
        world.tags.dom().map(tag).contains(name) by {
        assert(tag((repo, name)) == name);
    }
    vstd::set_lib::lemma_set_subset_finite(world.tags.dom().map(tag), tags_of(world, repo));
    let owner = |at: (Seq<char>, Seq<char>)| at.0;
    world.manifests.dom().lemma_map_finite(owner);
    assert forall|name: Seq<char>| #[trigger] repos_of(world).contains(name) implies
        world.manifests.dom().map(owner).contains(name) by {
        let digest = choose|digest: Seq<char>| #[trigger]
            world.manifests.dom().contains((name, digest));
        assert(owner((name, digest)) == name);
    }
    vstd::set_lib::lemma_set_subset_finite(world.manifests.dom().map(owner), repos_of(world));
}

/// The names that a question for the tags of a repository finds are those of the rows of that
/// repository, each once and in order; none where there is no such row.
pub proof fn law_tags_are_found(services: Services, world: World, repo: Seq<char>)
    requires
        lists_in_order(services),
        is_finite(world),
    ensures
        ({
            let names = names_answer(services, world, QueryView::ListTags { repo });
            &&& order::increasing(names)
            &&& names.no_duplicates()
            &&& forall|tag: Seq<char>| #[trigger]
                names.contains(tag) <==> world.tags.dom().contains((repo, tag))
            &&& (forall|tag: Seq<char>| !#[trigger] world.tags.dom().contains((repo, tag)))
                ==> names.len() == 0
        }),
{
    lemma_finite_names(world, repo);
    let names = names_answer(services, world, QueryView::ListTags { repo });
    assert(order::lists(names, tags_of(world, repo)));
    order::law_increasing_lists_hold_each_once(names);
    if names.len() > 0 {
        assert(names.contains(names[0]));
        assert(world.tags.dom().contains((repo, names[0])));
    }
}

/// The names that a question for the repositories finds are those with a manifest, each once,
/// however many manifests it has, and in order.
pub proof fn law_repos_are_found(services: Services, world: World)
    requires
        lists_in_order(services),
        is_finite(world),
    ensures
        ({
            let names = names_answer(services, world, QueryView::ListRepos);
            &&& order::increasing(names)
            &&& names.no_duplicates()
            &&& forall|repo: Seq<char>| #[trigger]
                names.contains(repo) <==> has_manifest(world, repo)
        }),
{
    lemma_finite_names(world, Seq::empty());
    let names = names_answer(services, world, QueryView::ListRepos);
    assert(order::lists(names, repos_of(world)));
    order::law_increasing_lists_hold_each_once(names);
}

/// The digest that a question for a tag finds.
pub open spec fn tag_answer(world: World, query: QueryView) -> Option<Seq<char>> {
    match query {
        QueryView::FindTag { repo, tag } => lookup(world.tags, (repo, tag)),
        _ => None,
    }
}

/// The metadata that a question for a manifest finds.
pub open spec fn manifest_answer(world: World, query: QueryView) -> Option<ManifestRowView> {
    match query {
        QueryView::FindManifest { repo, digest } => lookup(world.manifests, (repo, digest)),
        _ => None,
    }
}

/// The metadata that a question for an upload finds.
pub open spec fn upload_answer(world: World, query: QueryView) -> Option<UploadRowView> {
    match query {
        QueryView::FindUpload { uuid } => lookup(world.uploads, uuid),
        _ => None,
    }
}

/// The names that a question for a list finds.
pub open spec fn names_answer(
    services: Services,
    world: World,
    query: QueryView,
) -> Seq<Seq<char>> {
    match query {
        QueryView::ListTags { repo } => (services.listed)(tags_of(world, repo)),
        QueryView::ListRepos => (services.listed)(repos_of(world)),
        _ => Seq::empty(),
    }
}

/// Whether the database refuses a change: there is one row for each upload.
pub open spec fn refused(world: World, query: QueryView) -> bool {
    query matches QueryView::CreateUpload { uuid, .. } && world.uploads.dom().contains(uuid)
}

/// The world after a change of the database.
pub open spec fn changed(world: World, query: QueryView) -> World {
    match query {
        QueryView::PutManifest { repo, digest, content_type, size } => World {
            manifests: world.manifests.insert(
                (repo, digest),
                ManifestRowView { digest, content_type, size },
            ),
            ..world
        },
        QueryView::PutTag { repo, tag, digest } => World {
            tags: world.tags.insert((repo, tag), digest),
            ..world
        },
        QueryView::DeleteManifest { repo, digest } => World {
            manifests: world.manifests.remove((repo, digest)),
            ..world
        },
        QueryView::DeleteTagsOf { repo, digest } => World {
            tags: without_tags_of(world.tags, repo, digest),
            ..world
        },
        QueryView::DeleteTag { repo, tag } => World {
            tags: world.tags.remove((repo, tag)),
            ..world
        },
        QueryView::CreateUpload { uuid, repo } => World {
            uploads: world.uploads.insert(uuid, UploadRowView { repo, offset: 0 }),
            ..world
        },
        QueryView::UpdateUpload { uuid, offset } => if world.uploads.dom().contains(uuid) {
            World {
                uploads: world.uploads.insert(
                    uuid,
                    UploadRowView { offset, ..world.uploads[uuid] },
                ),
                ..world
            }
        } else {
            world
        },
        QueryView::DeleteUpload { uuid } => World {
            uploads: world.uploads.remove(uuid),
            ..world
        },
        _ => world,
    }
}

/// Tags, without those of a repository that point at a digest.
pub open spec fn without_tags_of(
    tags: Map<(Seq<char>, Seq<char>), Seq<char>>,
    repo: Seq<char>,
    digest: Seq<char>,
) -> Map<(Seq<char>, Seq<char>), Seq<char>> {
    tags.restrict(
        Set::new(|at: (Seq<char>, Seq<char>)| !(at.0 == repo && tags[at] == digest)),
    )
}

/// The world after changes of the database, up to the first that is refused, and whether all of
/// them were made.
pub open spec fn executed(world: World, queries: Seq<QueryView>) -> (World, bool)
    decreases queries.len(),
{
    if queries.len() == 0 {
        (world, true)
    } else if refused(world, queries[0]) {
        (world, false)
    } else {
        executed(changed(world, queries[0]), queries.skip(1))
    }
}

/// The size of an object.
pub open spec fn size_of(world: World, key: Seq<char>) -> Option<i64> {
    match lookup(world.objects, key) {
        Some(data) => Some(data.len() as i64),
        None => None,
    }
}

/// What doing a step brings: the world after it, and the step that follows.
pub open spec fn next(
    registry: RegistryView,
    services: Services,
    world: World,
    step: StepView,
    uuid: Seq<char>,
) -> (World, StepView) {
    match step {
        StepView::Reply(_) => (world, step),
        StepView::Raise(_) => (world, step),
        StepView::FindTag { query, then } => (
            world,
            manifests::after_tag_step(registry, then, Ok(tag_answer(world, query))),
        ),
        StepView::FindManifest { query, then } => (
            world,
            manifests::after_manifest_step(registry, then, Ok(manifest_answer(world, query))),
        ),
        StepView::FindUpload { query, then } => (
            world,
            uploads::after_upload_step(registry, then, Ok(upload_answer(world, query))),
        ),
        StepView::ListNames { query, then } => (
            world,
            routes::after_names_step(registry, then, Ok(names_answer(services, world, query))),
        ),
        StepView::Execute { queries, then } => {
            let (after, all) = executed(world, queries);
            let done = if all {
                Ok(())
            } else {
                Err(services.conflict)
            };
            (after, routes::after_done_step(registry, then, done))
        },
        StepView::HeadObject { key, then } => (
            world,
            routes::after_size_step(registry, then, Ok(size_of(world, key)), uuid),
        ),
        StepView::GetObject { key, then } => (
            world,
            routes::after_object_step(registry, then, Ok(lookup(world.objects, key))),
        ),
        StepView::PutObject { key, data, then, .. } => (
            World { objects: world.objects.insert(key, data), ..world },
            routes::after_done_step(registry, then, Ok(())),
        ),
        StepView::DeleteObject { key, then } => (
            World { objects: world.objects.remove(key), ..world },
            routes::after_done_step(registry, then, Ok(())),
        ),
        StepView::PresignObject { key, then } => (
            world,
            blobs::after_url_step(registry, then, Ok((services.url)(key))),
        ),
    }
}

/// Whether the work on a request is done.
pub open spec fn is_done(step: StepView) -> bool {
    step is Reply || step is Raise
}

/// What doing a step and those that follow brings, for a number of steps at most. The identifier
/// is the one that a new upload is given.
pub open spec fn run(
    registry: RegistryView,
    services: Services,
    world: World,
    step: StepView,
    uuid: Seq<char>,
    steps: nat,
) -> (World, StepView)
    decreases steps,
{
    if steps == 0 || is_done(step) {
        (world, step)
    } else {
        let (after, following) = next(registry, services, world, step, uuid);
        run(registry, services, after, following, uuid, (steps - 1) as nat)
    }
}

/// How many steps the work on a request can take from here on, at most.
pub open spec fn steps_left(step: StepView) -> nat {
    match step {
        StepView::Reply(_) => 0,
        StepView::Raise(_) => 0,
        StepView::FindTag { .. } => 4,
        StepView::FindManifest { .. } => 3,
        StepView::FindUpload { .. } => 5,
        StepView::ListNames { .. } => 1,
        StepView::Execute { then, .. } => done_left(then),
        StepView::HeadObject { .. } => 2,
        StepView::GetObject { then, .. } => match then {
            ObjectWantedView::Upload { .. } => 4,
            _ => 1,
        },
        StepView::PutObject { then, .. } => done_left(then),
        StepView::DeleteObject { then, .. } => done_left(then),
        StepView::PresignObject { .. } => 1,
    }
}

/// How many steps the work on a request can take until and after something is done, at most.
pub open spec fn done_left(then: DoneWantedView) -> nat {
    match then {
        DoneWantedView::ManifestStored { .. } => 3,
        DoneWantedView::ManifestRecorded { .. } => 2,
        DoneWantedView::ManifestDropped { .. } => 2,
        DoneWantedView::ChunkStored { .. } => 2,
        DoneWantedView::BlobStored { .. } => 3,
        DoneWantedView::TemporaryDropped { .. } => 2,
        DoneWantedView::CancelledDropped { .. } => 2,
        _ => 1,
    }
}

/// The most steps that the work on a request takes.
pub open spec fn most_steps() -> nat {
    5
}

/// What a request that starts with a step brings: the world after it, and how it ends.
pub open spec fn served(
    registry: RegistryView,
    services: Services,
    world: World,
    step: StepView,
    uuid: Seq<char>,
) -> (World, StepView) {
    run(registry, services, world, step, uuid, most_steps())
}

} // verus!
