//! Requests to the registry: which handler they go to, and how their work goes on.

use vstd::prelude::*;

use crate::auth;
use crate::auth::check_auth;
use crate::blobs;
use crate::config::Config;
use crate::db;
use crate::db::QueryView;
use crate::keys;
use crate::keys::upload_key;
use crate::manifests;
use crate::manifests::{failure, not_allowed, one};
use crate::oci_path;
use crate::oci_path::{parse_oci_path, OciPath, OciPathView};
use crate::reply;
use crate::reply::{auth_challenge, json_response, not_found, Reply};
use crate::responses;
use crate::step;
use crate::step::{
    BlobPurpose, DoneWanted, DoneWantedView, Edition, ManifestPurposeView, Method, NamesWanted,
    NamesWantedView, ObjectWanted, ObjectWantedView, Part, Registry, RegistryView, Request,
    RequestView, SizeWanted, SizeWantedView, Step, StepView, UploadWantedView,
};
use crate::text;
use crate::text::{same_text, starts_with, trim_prefixes};
use crate::types;
use crate::types::{Catalog, TagList};
use crate::uploads;

verus! {

/// Whether a request is let in: every one where there is no token, else those that carry it. For
/// a worker an empty token is as good as none.
pub open spec fn admits(registry: RegistryView, authorization: Option<Seq<char>>) -> bool {
    match registry.auth_token {
        Some(token) => {
            ||| registry.edition == Edition::Worker && token.len() == 0
            ||| auth::carries_token(authorization, token)
        },
        None => true,
    }
}

/// The realm that a request without the token is referred to.
pub open spec fn realm_spec(edition: Edition) -> Seq<char> {
    if edition == Edition::Standalone {
        "/v2/token"@
    } else {
        "https://registry.example.com/auth"@
    }
}

/// The reply to a request that is not let in.
pub open spec fn challenge_step(registry: RegistryView) -> StepView {
    StepView::Reply(reply::auth_challenge_spec(realm_spec(registry.edition)))
}

/// The start of listing the repositories.
pub open spec fn catalog_step() -> StepView {
    StepView::ListNames { query: QueryView::ListRepos, then: NamesWantedView::Repositories }
}

/// The start of listing the tags of a repository.
pub open spec fn list_tags_step(repo: Seq<char>) -> StepView {
    StepView::ListNames {
        query: QueryView::ListTags { repo },
        then: NamesWantedView::Tags { repo },
    }
}

/// Once a list of names is there, it is the reply.
pub open spec fn after_names_step(
    registry: RegistryView,
    then: NamesWantedView,
    answer: Result<Seq<Seq<char>>, Seq<char>>,
) -> StepView {
    match answer {
        Ok(names) => StepView::Reply(
            reply::json_response_spec(
                200,
                match then {
                    NamesWantedView::Tags { repo } => types::tag_list_json(repo, names),
                    NamesWantedView::Repositories => types::catalog_json(names),
                },
            ),
        ),
        Err(message) => manifests::failure_step(registry.edition, message),
    }
}

/// What follows the size of a blob.
pub open spec fn after_size_step(
    registry: RegistryView,
    then: SizeWantedView,
    answer: Result<Option<i64>, Seq<char>>,
    uuid: Seq<char>,
) -> StepView {
    match then {
        SizeWantedView::Blob { digest, purpose } => blobs::after_blob_size_step(
            registry,
            digest,
            purpose,
            answer,
        ),
        SizeWantedView::Mount { repo, digest } => uploads::after_mount_size_step(
            registry,
            repo,
            digest,
            answer,
            uuid,
        ),
    }
}

/// What follows the data of an object.
pub open spec fn after_object_step(
    registry: RegistryView,
    then: ObjectWantedView,
    answer: Result<Option<Seq<u8>>, Seq<char>>,
) -> StepView {
    match then {
        ObjectWantedView::Manifest { row } => manifests::after_manifest_content_step(
            registry,
            row,
            answer,
        ),
        ObjectWantedView::Blob { digest } => blobs::after_blob_content_step(
            registry,
            digest,
            answer,
        ),
        ObjectWantedView::Upload { repo, uuid, digest } => uploads::after_upload_content_step(
            registry,
            repo,
            uuid,
            digest,
            answer,
        ),
    }
}

/// The next step, if something was done.
pub open spec fn if_done(
    registry: RegistryView,
    done: Result<(), Seq<char>>,
    next: StepView,
) -> StepView {
    match done {
        Ok(()) => next,
        Err(message) => manifests::failure_step(registry.edition, message),
    }
}

/// What follows when something was done, or failed.
///
/// Failing to delete the content of a manifest or the temporary data of an upload does not
/// matter, nor does failing to forget a cancelled upload. Failing to forget a completed upload
/// matters to a worker only.
pub open spec fn after_done_step(
    registry: RegistryView,
    then: DoneWantedView,
    done: Result<(), Seq<char>>,
) -> StepView {
    let edition = registry.edition;
    match then {
        DoneWantedView::ManifestStored { repo, reference, digest, content_type, size } => {
            let next = StepView::Execute {
                queries: seq![QueryView::PutManifest { repo, digest, content_type, size }],
                then: DoneWantedView::ManifestRecorded { repo, reference, digest },
            };
            if_done(registry, done, next)
        },
        DoneWantedView::ManifestRecorded { repo, reference, digest } => {
            let next = if db::is_digest_spec(reference) {
                StepView::Reply(responses::manifest_created_reply(edition, repo, digest))
            } else {
                StepView::Execute {
                    queries: seq![QueryView::PutTag { repo, tag: reference, digest }],
                    then: DoneWantedView::TagRecorded { repo, digest },
                }
            };
            if_done(registry, done, next)
        },
        DoneWantedView::TagRecorded { repo, digest } => {
            let next = StepView::Reply(responses::manifest_created_reply(edition, repo, digest));
            if_done(registry, done, next)
        },
        DoneWantedView::ManifestDropped { repo, reference } => StepView::Execute {
            queries: db::delete_manifest_spec(repo, reference),
            then: DoneWantedView::ManifestForgotten,
        },
        DoneWantedView::ManifestForgotten => {
            if_done(registry, done, StepView::Reply(responses::bare_reply(202)))
        },
        DoneWantedView::BlobDeleted => {
            if_done(registry, done, StepView::Reply(responses::bare_reply(202)))
        },
        DoneWantedView::UploadCreated { repo, uuid } => {
            let next = StepView::Reply(responses::upload_started_reply(repo, uuid));
            if_done(registry, done, next)
        },
        DoneWantedView::ChunkStored { repo, uuid, length } => {
            let next = StepView::Execute {
                queries: seq![QueryView::UpdateUpload { uuid, offset: length }],
                then: DoneWantedView::OffsetRecorded { repo, uuid, length },
            };
            if_done(registry, done, next)
        },
        DoneWantedView::OffsetRecorded { repo, uuid, length } => {
            let next = StepView::Reply(responses::chunk_reply(edition, repo, uuid, length));
            if_done(registry, done, next)
        },
        DoneWantedView::BlobStored { repo, uuid, digest } => {
            let next = StepView::DeleteObject {
                key: keys::upload_key_spec(uuid),
                then: DoneWantedView::TemporaryDropped { repo, uuid, digest },
            };
            if_done(registry, done, next)
        },
        DoneWantedView::TemporaryDropped { repo, uuid, digest } => StepView::Execute {
            queries: seq![QueryView::DeleteUpload { uuid }],
            then: DoneWantedView::UploadForgotten { repo, digest },
        },
        DoneWantedView::UploadForgotten { repo, digest } => {
            let next = StepView::Reply(responses::blob_created_reply(edition, repo, digest));
            if edition == Edition::Standalone {
                next
            } else {
                if_done(registry, done, next)
            }
        },
        DoneWantedView::CancelledDropped { uuid } => StepView::Execute {
            queries: seq![QueryView::DeleteUpload { uuid }],
            then: DoneWantedView::CancelledForgotten,
        },
        DoneWantedView::CancelledForgotten => StepView::Reply(responses::bare_reply(204)),
    }
}

/// The start of a request on a recognised path, by its method.
pub open spec fn target_step(
    registry: RegistryView,
    target: OciPathView,
    request: RequestView,
    uuid: Seq<char>,
) -> StepView {
    match (target, request.method) {
        (OciPathView::Manifests { name, reference }, Method::Get) => {
            manifests::find_manifest_step(name, reference, ManifestPurposeView::Get)
        },
        (OciPathView::Manifests { name, reference }, Method::Head) => {
            manifests::find_manifest_step(name, reference, ManifestPurposeView::Head)
        },
        (OciPathView::Manifests { name, reference }, Method::Put) => {
            manifests::put_manifest_step(name, reference, request.content_type, request.body)
        },
        (OciPathView::Manifests { name, reference }, Method::Delete) => {
            manifests::find_manifest_step(
                name,
                reference,
                ManifestPurposeView::Delete { reference },
            )
        },
        (OciPathView::Blob { digest, .. }, Method::Get) => {
            blobs::find_blob_step(digest, BlobPurpose::Get)
        },
        (OciPathView::Blob { digest, .. }, Method::Head) => {
            blobs::find_blob_step(digest, BlobPurpose::Head)
        },
        (OciPathView::Blob { digest, .. }, Method::Delete) => {
            blobs::find_blob_step(digest, BlobPurpose::Delete)
        },
        (OciPathView::BlobUploadStart { name }, Method::Post) => {
            uploads::initiate_upload_step(name, request.mount, uuid)
        },
        (OciPathView::BlobUpload { name, uuid: upload }, Method::Get) => {
            uploads::find_upload_step(
                upload,
                UploadWantedView::Status { repo: name, uuid: upload },
            )
        },
        (OciPathView::BlobUpload { name, uuid: upload }, Method::Patch) => {
            uploads::find_upload_step(
                upload,
                UploadWantedView::Patch { repo: name, uuid: upload, data: request.body },
            )
        },
        (OciPathView::BlobUpload { name, uuid: upload }, Method::Put) => {
            uploads::complete_upload_step(registry, name, upload, request.digest, request.body)
        },
        (OciPathView::BlobUpload { uuid: upload, .. }, Method::Delete) => {
            uploads::cancel_upload_step(upload)
        },
        (OciPathView::TagsList { name }, Method::Get) => list_tags_step(name),
        _ => manifests::not_allowed_step(),
    }
}

/// The start of a request on a path below `/v2/`: the handler of what the path is read as.
pub open spec fn path_step(
    registry: RegistryView,
    path: Seq<char>,
    request: RequestView,
    uuid: Seq<char>,
) -> StepView {
    match oci_path::oci_path(path) {
        Some(target) => target_step(registry, target, request, uuid),
        None => StepView::Reply(
            reply::error_reply(
                404,
                "NAME_UNKNOWN"@,
                if registry.edition == Edition::Standalone {
                    "path not found"@
                } else {
                    "path not recognized"@
                },
            ),
        ),
    }
}

/// The start of a request to a standalone registry.
pub open spec fn dispatch_step(
    registry: RegistryView,
    request: RequestView,
    uuid: Seq<char>,
) -> StepView {
    if !admits(registry, request.authorization) {
        challenge_step(registry)
    } else {
        path_step(registry, request.path, request, uuid)
    }
}

/// The reply of a standalone registry to a version check.
pub open spec fn version_step(
    registry: RegistryView,
    method: Method,
    authorization: Option<Seq<char>>,
) -> StepView {
    if !admits(registry, authorization) {
        challenge_step(registry)
    } else if method == Method::Get || method == Method::Head {
        StepView::Reply(responses::version_reply())
    } else {
        StepView::Reply(responses::get_only_reply())
    }
}

/// The start of a request to a standalone registry for the list of repositories.
pub open spec fn list_repos_step(
    registry: RegistryView,
    method: Method,
    authorization: Option<Seq<char>>,
) -> StepView {
    if !admits(registry, authorization) {
        challenge_step(registry)
    } else if method == Method::Get || method == Method::Head {
        catalog_step()
    } else {
        StepView::Reply(responses::get_only_reply())
    }
}

/// The start of a request to a worker.
pub open spec fn fetch_step(
    registry: RegistryView,
    request: RequestView,
    uuid: Seq<char>,
) -> StepView {
    let path = request.path;
    if !text::has_prefix(path, "/v2"@) {
        StepView::Reply(
            reply::error_reply(404, "NAME_UNKNOWN"@, "only /v2 paths are supported"@),
        )
    } else if !admits(registry, request.authorization) {
        challenge_step(registry)
    } else if path == "/v2/"@ || path == "/v2"@ {
        StepView::Reply(responses::version_reply())
    } else if path == "/v2/_catalog"@ && request.method == Method::Get {
        catalog_step()
    } else {
        path_step(registry, text::trim_prefixes_spec(path, "/v2/"@), request, uuid)
    }
}

/// The target that a request is let through to: none where it does not carry the token, or where
/// its path is not recognised.
pub open spec fn reached(registry: RegistryView, request: RequestView) -> Option<OciPathView> {
    if !admits(registry, request.authorization) {
        None
    } else if registry.edition == Edition::Standalone {
        oci_path::oci_path(request.path)
    } else if text::has_prefix(request.path, "/v2"@) && !fixed_path(request) {
        oci_path::oci_path(text::trim_prefixes_spec(request.path, "/v2/"@))
    } else {
        None
    }
}

/// Whether a request to a worker is one for the version or for the list of repositories.
pub open spec fn fixed_path(request: RequestView) -> bool {
    ||| request.path == "/v2/"@
    ||| request.path == "/v2"@
    ||| request.path == "/v2/_catalog"@ && request.method == Method::Get
}

/// Whether a part of a request on a target is read.
pub open spec fn takes(target: OciPathView, request: RequestView, part: Part) -> bool {
    match part {
        Part::ContentType => target is Manifests && request.method == Method::Put,
        Part::Mount => target is BlobUploadStart && request.method == Method::Post,
        Part::Digest => target is BlobUpload && request.method == Method::Put,
        Part::Body => {
            ||| target is Manifests && request.method == Method::Put
            ||| target is BlobUpload && request.method == Method::Patch
            ||| target is BlobUpload && request.method == Method::Put && request.digest is Some
        },
    }
}

/// Whether a part of a request is wanted: the request is let in, its path is recognised, and the
/// part is read.
pub open spec fn wants_spec(registry: RegistryView, request: RequestView, part: Part) -> bool {
    reached(registry, request) matches Some(target) && takes(target, request, part)
}

impl Registry {
    /// The registry of a standalone configuration.
    pub fn standalone(config: &Config) -> (registry: Self)
        ensures
            registry.deep_view() == (RegistryView {
                edition: Edition::Standalone,
                auth_token: config.auth_token.deep_view(),
                public_url: config.s3_public_url.deep_view(),
            }),
    {
        Registry {
            edition: Edition::Standalone,
            auth_token: config.auth_token.clone(),
            public_url: config.s3_public_url.clone(),
        }
    }

    /// The registry of a worker with these settings.
    pub fn worker(auth_token: Option<String>, public_url: Option<String>) -> (registry: Self)
        ensures
            registry.deep_view() == (RegistryView {
                edition: Edition::Worker,
                auth_token: auth_token.deep_view(),
                public_url: public_url.deep_view(),
            }),
    {
        Registry { edition: Edition::Worker, auth_token, public_url }
    }

    /// Whether a request is let in.
    pub fn lets_in(&self, authorization: &Option<String>) -> (res: bool)
        ensures
            res == admits(self.deep_view(), authorization.deep_view()),
    {
        match &self.auth_token {
            Some(token) => (self.edition == Edition::Worker && token.as_str().is_empty())
                || check_auth(authorization, token),
            None => true,
        }
    }

    /// The target that a request is let through to.
    fn reached(&self, request: &Request) -> (target: Option<OciPath>)
        ensures
            target.deep_view() == reached(self.deep_view(), request.deep_view()),
    {
        if !self.lets_in(&request.authorization) {
            return None;
        }
        match self.edition {
            Edition::Standalone => parse_oci_path(&request.path),
            Edition::Worker => {
                if !starts_with(&request.path, "/v2") || same_text(&request.path, "/v2/")
                    || same_text(&request.path, "/v2") || (same_text(
                    &request.path,
                    "/v2/_catalog",
                ) && request.method == Method::Get) {
                    return None;
                }
                let path = trim_prefixes(&request.path, "/v2/");
                parse_oci_path(&path)
            },
        }
    }

    /// Whether a part of a request is wanted, whatever it is. One that is not wanted need not be
    /// filled in before the request is started. The body may be wanted only where there is a
    /// digest.
    pub fn wants(&self, request: &Request, part: Part) -> (res: bool)
        ensures
            res == wants_spec(self.deep_view(), request.deep_view(), part),
    {
        let method = request.method;
        match self.reached(request) {
            Some(OciPath::Manifests { .. }) => method == Method::Put && (part == Part::ContentType
                || part == Part::Body),
            Some(OciPath::BlobUploadStart { .. }) => method == Method::Post && part == Part::Mount,
            Some(OciPath::BlobUpload { .. }) => match part {
                Part::Digest => method == Method::Put,
                Part::Body => method == Method::Patch || (method == Method::Put
                    && request.digest.is_some()),
                _ => false,
            },
            _ => false,
        }
    }

    /// The reply to a request that is not let in.
    fn challenge(&self) -> (step: Step)
        ensures
            step.deep_view() == challenge_step(self.deep_view()),
    {
        match self.edition {
            Edition::Standalone => Step::Reply(auth_challenge("/v2/token")),
            Edition::Worker => Step::Reply(auth_challenge("https://registry.example.com/auth")),
        }
    }

    /// Answers a version check, standalone.
    pub fn api_version_check(&self, method: Method, authorization: &Option<String>) -> (step: Step)
        ensures
            step.deep_view() == version_step(
                self.deep_view(),
                method,
                authorization.deep_view(),
            ),
    {
        if !self.lets_in(authorization) {
            self.challenge()
        } else if method == Method::Get || method == Method::Head {
            Step::Reply(responses::version())
        } else {
            Step::Reply(responses::get_only())
        }
    }

    /// Lists the repositories, standalone.
    pub fn list_repos(&self, method: Method, authorization: &Option<String>) -> (step: Step)
        ensures
            step.deep_view() == list_repos_step(
                self.deep_view(),
                method,
                authorization.deep_view(),
            ),
    {
        if !self.lets_in(authorization) {
            self.challenge()
        } else if method == Method::Get || method == Method::Head {
            self.catalog()
        } else {
            Step::Reply(responses::get_only())
        }
    }

    /// Lists the repositories.
    pub fn catalog(&self) -> (step: Step)
        ensures
            step.deep_view() == catalog_step(),
    {
        Step::ListNames { query: db::list_repos(), then: NamesWanted::Repositories }
    }

    /// Lists the tags of a repository.
    pub fn list_tags(&self, repo: String) -> (step: Step)
        ensures
            step.deep_view() == list_tags_step(repo@),
    {
        let query = db::list_tags(&repo);
        Step::ListNames { query, then: NamesWanted::Tags { repo } }
    }

    /// Goes on with a list of names.
    pub fn after_names(
        &self,
        then: NamesWanted,
        answer: Result<Vec<String>, String>,
    ) -> (step: Step)
        ensures
            step.deep_view() == after_names_step(
                self.deep_view(),
                then.deep_view(),
                step::answer_view(answer),
            ),
    {
        match answer {
            Ok(names) => {
                let text = match then {
                    NamesWanted::Tags { repo } => TagList { name: repo, tags: names }.to_json(),
                    NamesWanted::Repositories => Catalog { repositories: names }.to_json(),
                };
                Step::Reply(json_response(200, text))
            },
            Err(message) => failure(self.edition, message),
        }
    }

    /// Goes on with the size of a blob.
    pub fn after_size(
        &self,
        then: SizeWanted,
        answer: Result<Option<i64>, String>,
    ) -> (step: Step)
        ensures
            exists|uuid: Seq<char>| #[trigger]
                uploads::is_uuid(uuid) && step.deep_view() == after_size_step(
                    self.deep_view(),
                    then.deep_view(),
                    step::answer_view(answer),
                    uuid,
                ),
    {
        match then {
            SizeWanted::Blob { digest, purpose } => {
                proof {
                    let uuid = uploads::lemma_some_uuid();
                }
                self.after_blob_size(digest, purpose, answer)
            },
            SizeWanted::Mount { repo, digest } => self.after_mount_size(repo, digest, answer),
        }
    }

    /// Goes on with the data of an object.
    pub fn after_object(
        &self,
        then: ObjectWanted,
        answer: Result<Option<Vec<u8>>, String>,
    ) -> (step: Step)
        ensures
            step.deep_view() == after_object_step(
                self.deep_view(),
                then.deep_view(),
                step::object_view(answer),
            ),
    {
        match then {
            ObjectWanted::Manifest { row } => self.after_manifest_content(row, answer),
            ObjectWanted::Blob { digest } => self.after_blob_content(digest, answer),
            ObjectWanted::Upload { repo, uuid, digest } => self.after_upload_content(
                repo,
                uuid,
                digest,
                answer,
            ),
        }
    }

    /// Goes on when something was done.
    pub fn after_done(&self, then: DoneWanted, done: Result<(), String>) -> (step: Step)
        ensures
            step.deep_view() == after_done_step(
                self.deep_view(),
                then.deep_view(),
                step::done_view(done),
            ),
    {
        match then {
            DoneWanted::ManifestDropped { repo, reference } => {
                let queries = db::delete_manifest(&repo, &reference);
                return Step::Execute { queries, then: DoneWanted::ManifestForgotten };
            },
            DoneWanted::TemporaryDropped { repo, uuid, digest } => {
                let queries = one(db::delete_upload(&uuid));
                return Step::Execute {
                    queries,
                    then: DoneWanted::UploadForgotten { repo, digest },
                };
            },
            DoneWanted::CancelledDropped { uuid } => {
                let queries = one(db::delete_upload(&uuid));
                return Step::Execute { queries, then: DoneWanted::CancelledForgotten };
            },
            DoneWanted::CancelledForgotten => {
                return Step::Reply(responses::bare(204));
            },
            DoneWanted::UploadForgotten { repo, digest } => {
                if let Err(message) = done {
                    if self.edition == Edition::Worker {
                        return failure(self.edition, message);
                    }
                }
                return Step::Reply(responses::blob_created(self.edition, &repo, &digest));
            },
            _ => {},
        }
        if let Err(message) = done {
            return failure(self.edition, message);
        }
        match then {
            DoneWanted::ManifestStored { repo, reference, digest, content_type, size } => {
                let queries = one(db::put_manifest(&repo, &digest, &content_type, size));
                Step::Execute {
                    queries,
                    then: DoneWanted::ManifestRecorded { repo, reference, digest },
                }
            },
            DoneWanted::ManifestRecorded { repo, reference, digest } => {
                if db::is_digest(&reference) {
                    Step::Reply(responses::manifest_created(self.edition, &repo, &digest))
                } else {
                    let queries = one(db::put_tag(&repo, &reference, &digest));
                    Step::Execute { queries, then: DoneWanted::TagRecorded { repo, digest } }
                }
            },
            DoneWanted::TagRecorded { repo, digest } => Step::Reply(
                responses::manifest_created(self.edition, &repo, &digest),
            ),
            DoneWanted::UploadCreated { repo, uuid } => Step::Reply(
                responses::upload_started(&repo, &uuid),
            ),
            DoneWanted::ChunkStored { repo, uuid, length } => {
                let queries = one(db::update_upload_offset(&uuid, length));
                Step::Execute {
                    queries,
                    then: DoneWanted::OffsetRecorded { repo, uuid, length },
                }
            },
            DoneWanted::OffsetRecorded { repo, uuid, length } => Step::Reply(
                responses::chunk_received(self.edition, &repo, &uuid, length),
            ),
            DoneWanted::BlobStored { repo, uuid, digest } => {
                let key = upload_key(&uuid);
                Step::DeleteObject {
                    key,
                    then: DoneWanted::TemporaryDropped { repo, uuid, digest },
                }
            },
            _ => Step::Reply(responses::bare(202)),
        }
    }

    /// Starts a request on a recognised path, by its method.
    fn target(&self, target: OciPath, request: Request) -> (step: Step)
        ensures
            exists|uuid: Seq<char>| #[trigger]
                uploads::is_uuid(uuid) && step.deep_view() == target_step(
                    self.deep_view(),
                    target.deep_view(),
                    request.deep_view(),
                    uuid,
                ),
    {
        proof {
            let uuid = uploads::lemma_some_uuid();
        }
        match target {
            OciPath::Manifests { name, reference } => match request.method {
                Method::Get => self.get_manifest(name, reference),
                Method::Head => self.head_manifest(name, reference),
                Method::Put => self.put_manifest(
                    name,
                    reference,
                    request.content_type,
                    request.body,
                ),
                Method::Delete => self.delete_manifest(name, reference),
                _ => not_allowed(),
            },
            OciPath::Blob { name: _, digest } => match request.method {
                Method::Get => self.get_blob(digest),
                Method::Head => self.head_blob(digest),
                Method::Delete => self.delete_blob(digest),
                _ => not_allowed(),
            },
            OciPath::BlobUploadStart { name } => {
                if request.method == Method::Post {
                    self.initiate_upload(name, request.mount)
                } else {
                    not_allowed()
                }
            },
            OciPath::BlobUpload { name, uuid } => match request.method {
                Method::Get => self.upload_status(name, uuid),
                Method::Patch => self.patch_upload(name, uuid, request.body),
                Method::Put => self.complete_upload(name, uuid, request.digest, request.body),
                Method::Delete => self.cancel_upload(uuid),
                _ => not_allowed(),
            },
            OciPath::TagsList { name } => {
                if request.method == Method::Get {
                    self.list_tags(name)
                } else {
                    not_allowed()
                }
            },
        }
    }

    /// Starts a request on a path below `/v2/`.
    fn path(&self, path: &str, request: Request) -> (step: Step)
        ensures
            exists|uuid: Seq<char>| #[trigger]
                uploads::is_uuid(uuid) && step.deep_view() == path_step(
                    self.deep_view(),
                    path@,
                    request.deep_view(),
                    uuid,
                ),
    {
        match parse_oci_path(path) {
            Some(target) => self.target(target, request),
            None => {
                proof {
                    let uuid = uploads::lemma_some_uuid();
                }
                match self.edition {
                    Edition::Standalone => Step::Reply(not_found("path not found")),
                    Edition::Worker => Step::Reply(not_found("path not recognized")),
                }
            },
        }
    }

    /// Starts a request to a standalone registry on a path below `/v2/`.
    pub fn dispatch(&self, request: Request) -> (step: Step)
        ensures
            exists|uuid: Seq<char>| #[trigger]
                uploads::is_uuid(uuid) && step.deep_view() == dispatch_step(
                    self.deep_view(),
                    request.deep_view(),
                    uuid,
                ),
    {
        if !self.lets_in(&request.authorization) {
            proof {
                let uuid = uploads::lemma_some_uuid();
            }
            return self.challenge();
        }
        let path = request.path.clone();
        self.path(&path, request)
    }

    /// Starts a request to a worker.
    pub fn fetch(&self, request: Request) -> (step: Step)
        ensures
            exists|uuid: Seq<char>| #[trigger]
                uploads::is_uuid(uuid) && step.deep_view() == fetch_step(
                    self.deep_view(),
                    request.deep_view(),
                    uuid,
                ),
    {
        proof {
            let uuid = uploads::lemma_some_uuid();
        }
        if !starts_with(&request.path, "/v2") {
            return Step::Reply(not_found("only /v2 paths are supported"));
        }
        if !self.lets_in(&request.authorization) {
            return self.challenge();
        }
        if same_text(&request.path, "/v2/") || same_text(&request.path, "/v2") {
            return Step::Reply(responses::version());
        }
        if same_text(&request.path, "/v2/_catalog") && request.method == Method::Get {
            return self.catalog();
        }
        let path = trim_prefixes(&request.path, "/v2/");
        self.path(&path, request)
    }
}

} // verus!
