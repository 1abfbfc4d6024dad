//! What clients see: the replies to requests, header by header.

use vstd::prelude::*;

use crate::config::Config;
use crate::db;
use crate::db::UploadRowView;
use crate::digest;
use crate::effects;
use crate::json;
use crate::keys;
use crate::laws;
use crate::manifests;
use crate::oci_error;
use crate::oci_path;
use crate::oci_path::OciPathView;
use crate::reply;
use crate::reply::{BodyView, ReplyView};
use crate::responses;
use crate::routes;
use crate::step::{
    DoneWantedView, Edition, Method, NamesWantedView, ObjectWantedView, Part, Registry,
    RegistryView, RequestView, SizeWantedView, StepView, UploadWantedView,
};
use crate::text;
use crate::types;
use crate::uploads;
use crate::world;
use crate::world::{Services, World};

verus! {

/// How a request on a target ends.
pub open spec fn ending(
    registry: RegistryView,
    services: Services,
    world: World,
    target: OciPathView,
    request: RequestView,
    uuid: Seq<char>,
) -> StepView {
    let step = routes::target_step(registry, target, request, uuid);
    world::served(registry, services, world, step, uuid).1
}

/// A reply that has headers only.
pub open spec fn headers_only(
    status: u16,
    headers: Seq<(Seq<char>, Seq<char>)>,
) -> StepView {
    StepView::Reply(ReplyView { status, headers, body: BodyView::Empty })
}

/// The JSON of one error.
pub open spec fn error_text(code: Seq<char>, message: Seq<char>) -> Seq<char> {
    json::object(
        seq![
            (
                "errors"@,
                json::array(
                    seq![
                        json::object(
                            seq![
                                ("code"@, json::string(code)),
                                ("message"@, json::string(message)),
                                ("detail"@, "null"@),
                            ],
                        ),
                    ],
                ),
            ),
        ],
    )
}

/// A reply that reports one error.
pub open spec fn reports(status: u16, code: Seq<char>, message: Seq<char>) -> StepView {
    StepView::Reply(
        ReplyView {
            status,
            headers: seq![("Content-Type"@, "application/json"@)],
            body: BodyView::Text(error_text(code, message)),
        },
    )
}

proof fn lemma_error_text(code: Seq<char>, message: Seq<char>)
    ensures
        oci_error::errors_json(seq![oci_error::plain_error(code, message)]) == error_text(
            code,
            message,
        ),
{
    let error = oci_error::plain_error(code, message);
    oci_error::law_errors_are_an_object(seq![error]);
    oci_error::law_error_is_an_object(error);
    let one = seq![oci_error::error_json(error)];
    assert(Seq::new(
        seq![error].len(),
        |i: int| oci_error::error_json(seq![error][i]),
    ) =~= one);
}

/// An error is reported as JSON, with its code, its message and no detail.
pub proof fn law_errors_are_reported(status: u16, code: Seq<char>, message: Seq<char>)
    ensures
        StepView::Reply(reply::error_reply(status, code, message)) == reports(
            status,
            code,
            message,
        ),
{
    lemma_error_text(code, message);
}

/// What fails outside is answered with 500 and its message standalone, and raised by a worker.
pub proof fn law_failures(edition: Edition, message: Seq<char>)
    ensures
        manifests::failure_step(Edition::Standalone, message) == reports(
            500,
            "INTERNAL_ERROR"@,
            message,
        ),
        manifests::failure_step(Edition::Worker, message) == StepView::Raise(message),
{
    law_errors_are_reported(500, "INTERNAL_ERROR"@, message);
}

// ---- Tokens ----

/// Whether a request carries the token that is asked for, if one is.
pub open spec fn may_enter(registry: RegistryView, authorization: Option<Seq<char>>) -> bool {
    match registry.auth_token {
        None => true,
        Some(token) => {
            ||| authorization == Some("Bearer "@ + token)
            ||| registry.edition == Edition::Worker && token == Seq::<char>::empty()
        },
    }
}

/// A request is let in exactly when it carries the token that is asked for, if one is.
pub proof fn law_who_is_let_in(registry: RegistryView, authorization: Option<Seq<char>>)
    ensures
        routes::admits(registry, authorization) <==> may_enter(registry, authorization),
{
    if let Some(token) = registry.auth_token {
        if token.len() == 0 {
            assert(token =~= Seq::<char>::empty());
        }
    }
}

/// The challenge to a request that is not let in.
pub open spec fn challenge(edition: Edition) -> StepView {
    StepView::Reply(
        ReplyView {
            status: 401,
            headers: seq![
                (
                    "WWW-Authenticate"@,
                    if edition == Edition::Standalone {
                        "Bearer realm=\"/v2/token\",service=\"registry\""@
                    } else {
                        "Bearer realm=\"https://registry.example.com/auth\",service=\"registry\""@
                    },
                ),
                ("Content-Type"@, "application/json"@),
            ],
            body: BodyView::Text(error_text("UNAUTHORIZED"@, "authentication required"@)),
        },
    )
}

proof fn lemma_challenge(registry: RegistryView)
    ensures
        routes::challenge_step(registry) == challenge(registry.edition),
{
    lemma_error_text("UNAUTHORIZED"@, "authentication required"@);
    reveal_strlit("Bearer realm=\"");
    reveal_strlit("\",service=\"registry\"");
    reveal_strlit("/v2/token");
    reveal_strlit("https://registry.example.com/auth");
    reveal_strlit("Bearer realm=\"/v2/token\",service=\"registry\"");
    reveal_strlit("Bearer realm=\"https://registry.example.com/auth\",service=\"registry\"");
    assert("Bearer realm=\""@ + "/v2/token"@ + "\",service=\"registry\""@
        =~= "Bearer realm=\"/v2/token\",service=\"registry\""@);
    assert("Bearer realm=\""@ + "https://registry.example.com/auth"@
        + "\",service=\"registry\""@
        =~= "Bearer realm=\"https://registry.example.com/auth\",service=\"registry\""@);
}

/// Every request that does not carry the token is answered with the challenge, and no other is
/// answered so at its start.
pub proof fn law_challenges(registry: RegistryView, request: RequestView, uuid: Seq<char>)
    ensures
        routes::dispatch_step(registry, request, uuid) == challenge(registry.edition)
            <==> !may_enter(registry, request.authorization),
        routes::version_step(registry, request.method, request.authorization) == challenge(
            registry.edition,
        ) <==> !may_enter(registry, request.authorization),
        routes::list_repos_step(registry, request.method, request.authorization) == challenge(
            registry.edition,
        ) <==> !may_enter(registry, request.authorization),
        text::has_prefix(request.path, "/v2"@) ==> (routes::fetch_step(registry, request, uuid)
            == challenge(registry.edition) <==> !may_enter(registry, request.authorization)),
{
    law_who_is_let_in(registry, request.authorization);
    lemma_challenge(registry);
}

// ---- Fixed paths ----

/// The reply to a version check.
pub open spec fn version() -> StepView {
    StepView::Reply(
        ReplyView {
            status: 200,
            headers: seq![
                ("Content-Type"@, "application/json"@),
                ("Docker-Distribution-API-Version"@, "registry/2.0"@),
            ],
            body: BodyView::Text("{}"@),
        },
    )
}

/// A version check that is let in is answered with the version; a list of repositories that is let
/// in is asked for; and with another method than GET or HEAD neither is.
pub proof fn law_fixed_paths(
    registry: RegistryView,
    method: Method,
    authorization: Option<Seq<char>>,
)
    requires
        may_enter(registry, authorization),
    ensures
        method == Method::Get || method == Method::Head ==> {
            &&& routes::version_step(registry, method, authorization) == version()
            &&& routes::list_repos_step(registry, method, authorization) == StepView::ListNames {
                query: db::QueryView::ListRepos,
                then: NamesWantedView::Repositories,
            }
        },
        method != Method::Get && method != Method::Head ==> {
            let refusal = headers_only(405, seq![("Allow"@, "GET,HEAD"@)]);
            &&& routes::version_step(registry, method, authorization) == refusal
            &&& routes::list_repos_step(registry, method, authorization) == refusal
        },
{
    law_who_is_let_in(registry, authorization);
}

/// A worker answers a version check on `/v2` and `/v2/`, asks for the list of repositories on a
/// GET of `/v2/_catalog`, and knows nothing but below `/v2`.
pub proof fn law_fixed_paths_of_a_worker(
    registry: RegistryView,
    request: RequestView,
    uuid: Seq<char>,
)
    ensures
        may_enter(registry, request.authorization) && (request.path == "/v2"@ || request.path
            == "/v2/"@) ==> routes::fetch_step(registry, request, uuid) == version(),
        may_enter(registry, request.authorization) && request.path == "/v2/_catalog"@
            && request.method == Method::Get ==> routes::fetch_step(registry, request, uuid)
            == (StepView::ListNames {
            query: db::QueryView::ListRepos,
            then: NamesWantedView::Repositories,
        }),
        request.path.len() < 3 || request.path.take(3) != "/v2"@ ==> routes::fetch_step(
            registry,
            request,
            uuid,
        ) == reports(404, "NAME_UNKNOWN"@, "only /v2 paths are supported"@),
{
    law_who_is_let_in(registry, request.authorization);
    law_errors_are_reported(404, "NAME_UNKNOWN"@, "only /v2 paths are supported"@);
    reveal_strlit("/v2");
    reveal_strlit("/v2/");
    reveal_strlit("/v2/_catalog");
    let path = request.path;
    assert("/v2"@.subrange(0, 3) =~= "/v2"@);
    assert("/v2/"@.subrange(0, 3) =~= "/v2"@);
    assert("/v2/_catalog"@.subrange(0, 3) =~= "/v2"@);
    if text::has_prefix(path, "/v2"@) {
        assert(path.take(3) =~= path.subrange(0, 3));
    }
}

/// The reply to a request on a path that is not recognised.
pub open spec fn unknown_path(edition: Edition) -> StepView {
    reports(
        404,
        "NAME_UNKNOWN"@,
        if edition == Edition::Standalone {
            "path not found"@
        } else {
            "path not recognized"@
        },
    )
}

/// A request that is let in and whose path is not recognised is answered so; for a worker that is
/// the path without the copies of `/v2/` at its beginning.
pub proof fn law_unknown_paths(registry: RegistryView, request: RequestView, uuid: Seq<char>)
    requires
        may_enter(registry, request.authorization),
    ensures
        oci_path::oci_path(request.path) is None ==> routes::dispatch_step(
            registry,
            request,
            uuid,
        ) == unknown_path(registry.edition),
        ({
            &&& text::has_prefix(request.path, "/v2"@)
            &&& request.path != "/v2"@
            &&& request.path != "/v2/"@
            &&& request.path != "/v2/_catalog"@ || request.method != Method::Get
            &&& oci_path::oci_path(text::trim_prefixes_spec(request.path, "/v2/"@)) is None
        }) ==> routes::fetch_step(registry, request, uuid) == unknown_path(registry.edition),
{
    law_who_is_let_in(registry, request.authorization);
    law_errors_are_reported(404, "NAME_UNKNOWN"@, "path not found"@);
    law_errors_are_reported(404, "NAME_UNKNOWN"@, "path not recognized"@);
}

/// A request that is let in goes to the handler of the target that its path is read as: standalone
/// the path itself, for a worker what follows `/v2/`.
pub proof fn law_requests_reach_their_target(
    registry: RegistryView,
    request: RequestView,
    target: OciPathView,
    uuid: Seq<char>,
)
    requires
        may_enter(registry, request.authorization),
        oci_path::is_readable(target),
        request.path == if registry.edition == Edition::Standalone {
            oci_path::path_text(target)
        } else {
            "/v2/"@ + oci_path::path_text(target)
        },
    ensures
        laws::start_step(registry, request, uuid) == routes::target_step(
            registry,
            target,
            request,
            uuid,
        ),
{
    law_who_is_let_in(registry, request.authorization);
    laws::law_path_reaches_target(registry, request, target);
}

/// A method that a target does not have is refused.
pub proof fn law_other_methods(
    registry: RegistryView,
    target: OciPathView,
    request: RequestView,
    uuid: Seq<char>,
)
    requires
        match target {
            OciPathView::Manifests { .. } => request.method == Method::Post || request.method
                == Method::Patch || request.method == Method::Other,
            OciPathView::Blob { .. } => request.method == Method::Put || request.method
                == Method::Post || request.method == Method::Patch || request.method
                == Method::Other,
            OciPathView::BlobUploadStart { .. } => request.method != Method::Post,
            OciPathView::BlobUpload { .. } => request.method == Method::Head || request.method
                == Method::Post || request.method == Method::Other,
            OciPathView::TagsList { .. } => request.method != Method::Get,
        },
    ensures
        routes::target_step(registry, target, request, uuid) == headers_only(405, Seq::empty()),
{
}

/// A request to a standalone registry that is let in is started as one on what its path is read
/// as.
pub proof fn law_paths_are_read(
    registry: RegistryView,
    request: RequestView,
    target: OciPathView,
    uuid: Seq<char>,
)
    requires
        may_enter(registry, request.authorization),
        oci_path::oci_path(request.path) == Some(target),
    ensures
        routes::dispatch_step(registry, request, uuid) == routes::target_step(
            registry,
            target,
            request,
            uuid,
        ),
{
    law_who_is_let_in(registry, request.authorization);
}

/// To a worker it does not matter how often `/v2/` stands at the beginning of a path: a request
/// that is let in is started as one on what the rest of its path is read as.
pub proof fn law_paths_of_a_worker(
    registry: RegistryView,
    request: RequestView,
    rest: Seq<char>,
    count: nat,
    target: OciPathView,
    uuid: Seq<char>,
)
    requires
        may_enter(registry, request.authorization),
        count > 0,
        request.path == text::times("/v2/"@, count) + rest,
        rest.len() < 4 || rest.take(4) != "/v2/"@,
        request.path != "/v2/"@,
        request.path != "/v2/_catalog"@ || request.method != Method::Get,
        oci_path::oci_path(rest) == Some(target),
    ensures
        routes::fetch_step(registry, request, uuid) == routes::target_step(
            registry,
            target,
            request,
            uuid,
        ),
{
    law_who_is_let_in(registry, request.authorization);
    reveal_strlit("/v2");
    reveal_strlit("/v2/");
    let path = request.path;
    let shorter = text::times("/v2/"@, (count - 1) as nat);
    assert(path =~= "/v2/"@ + (shorter + rest));
    assert(path.subrange(0, 3) =~= "/v2"@);
    lemma_trimmed(rest, count);
}

proof fn lemma_trimmed(rest: Seq<char>, count: nat)
    requires
        rest.len() < 4 || rest.take(4) != "/v2/"@,
    ensures
        text::trim_prefixes_spec(text::times("/v2/"@, count) + rest, "/v2/"@) == rest,
    decreases count,
{
    reveal_strlit("/v2/");
    let path = text::times("/v2/"@, count) + rest;
    if count == 0 {
        assert(path =~= rest);
        assert(rest.len() >= 4 ==> rest.take(4) =~= rest.subrange(0, 4));
    } else {
        let shorter = text::times("/v2/"@, (count - 1) as nat) + rest;
        assert(path =~= "/v2/"@ + shorter);
        assert(path.subrange(0, 4) =~= "/v2/"@);
        assert(path.skip(4) =~= shorter);
        lemma_trimmed(rest, (count - 1) as nat);
    }
}

/// A part of a request is wanted exactly where the start of the request depends on it.
#[verifier::spinoff_prover]
#[verifier::rlimit(60)]
pub proof fn law_wanted_parts_matter(
    registry: RegistryView,
    request: RequestView,
    one: Seq<char>,
    other: Seq<char>,
    data: Seq<u8>,
    others: Seq<u8>,
    uuid: Seq<char>,
)
    requires
        one != other,
        data != others,
    ensures
        routes::wants_spec(registry, request, Part::ContentType) <==> laws::start_step(
            registry,
            RequestView { content_type: Some(one), ..request },
            uuid,
        ) != laws::start_step(
            registry,
            RequestView { content_type: Some(other), ..request },
            uuid,
        ),
        routes::wants_spec(registry, request, Part::Mount) <==> laws::start_step(
            registry,
            RequestView { mount: Some(one), ..request },
            uuid,
        ) != laws::start_step(registry, RequestView { mount: Some(other), ..request }, uuid),
        routes::wants_spec(registry, request, Part::Digest) <==> laws::start_step(
            registry,
            RequestView { digest: Some(one), ..request },
            uuid,
        ) != laws::start_step(registry, RequestView { digest: Some(other), ..request }, uuid),
        routes::wants_spec(registry, request, Part::Body) <==> laws::start_step(
            registry,
            RequestView { body: data, ..request },
            uuid,
        ) != laws::start_step(registry, RequestView { body: others, ..request }, uuid),
{
}

// ---- Manifests ----

/// A manifest of which metadata and content are there is served with its content, its content type
/// and its digest; one of which either is not there is unknown.
#[verifier::spinoff_prover]
#[verifier::rlimit(60)]
pub proof fn law_manifest_is_served(
    registry: RegistryView,
    services: Services,
    world: World,
    name: Seq<char>,
    reference: Seq<char>,
    request: RequestView,
    uuid: Seq<char>,
)
    requires
        request.method == Method::Get,
    ensures
        ({
            let end = ending(
                registry,
                services,
                world,
                OciPathView::Manifests { name, reference },
                request,
                uuid,
            );
            let standalone = registry.edition == Edition::Standalone;
            match effects::found(world, name, reference) {
                Some(row) => match world::lookup(
                    world.objects,
                    keys::manifest_key_spec(name, row.digest),
                ) {
                    Some(data) => {
                        &&& end matches StepView::Reply(reply)
                        &&& reply.status == 200
                        &&& reply.body == BodyView::Bytes(data)
                        &&& if standalone {
                            &&& text::writes(reply.headers[2].1, data.len() as int)
                            &&& reply.headers == seq![
                                ("Content-Type"@, row.content_type),
                                ("Docker-Content-Digest"@, row.digest),
                                ("Content-Length"@, reply.headers[2].1),
                                ("Docker-Distribution-API-Version"@, "registry/2.0"@),
                            ]
                        } else {
                            reply.headers == seq![
                                ("Content-Type"@, row.content_type),
                                ("Docker-Content-Digest"@, row.digest),
                                ("Docker-Distribution-API-Version"@, "registry/2.0"@),
                            ]
                        }
                    },
                    None => end == reports(
                        404,
                        "MANIFEST_UNKNOWN"@,
                        if standalone {
                            "manifest unknown to registry"@
                        } else {
                            "manifest not found in storage"@
                        },
                    ),
                },
                None => end == unknown_manifest(registry.edition),
            }
        }),
{
    effects::law_get_manifest(registry, services, world, name, reference, uuid);
    lemma_unknown_manifest(registry.edition);
    if let Some(row) = effects::found(world, name, reference) {
        if let Some(data) = world::lookup(
            world.objects,
            keys::manifest_key_spec(name, row.digest),
        ) {
            text::law_decimal_writes(data.len() as int);
        }
    }
}

/// The reply to a request for a manifest that is not known.
pub open spec fn unknown_manifest(edition: Edition) -> StepView {
    reports(
        404,
        "MANIFEST_UNKNOWN"@,
        if edition == Edition::Standalone {
            "manifest unknown to registry"@
        } else {
            "manifest unknown"@
        },
    )
}

proof fn lemma_unknown_manifest(edition: Edition)
    ensures
        StepView::Reply(responses::manifest_unknown_reply(edition)) == unknown_manifest(edition),
        StepView::Reply(responses::manifest_lost_reply(Edition::Standalone)) == reports(
            404,
            "MANIFEST_UNKNOWN"@,
            "manifest unknown to registry"@,
        ),
        StepView::Reply(responses::manifest_lost_reply(Edition::Worker)) == reports(
            404,
            "MANIFEST_UNKNOWN"@,
            "manifest not found in storage"@,
        ),
{
    law_errors_are_reported(404, "MANIFEST_UNKNOWN"@, "manifest unknown to registry"@);
    law_errors_are_reported(404, "MANIFEST_UNKNOWN"@, "manifest unknown"@);
    law_errors_are_reported(404, "MANIFEST_UNKNOWN"@, "manifest not found in storage"@);
}

/// HEAD of a manifest that is recorded gives its content type, its digest and its size.
pub proof fn law_manifest_is_described(
    registry: RegistryView,
    services: Services,
    world: World,
    name: Seq<char>,
    reference: Seq<char>,
    request: RequestView,
    uuid: Seq<char>,
)
    requires
        request.method == Method::Head,
    ensures
        ({
            let end = ending(
                registry,
                services,
                world,
                OciPathView::Manifests { name, reference },
                request,
                uuid,
            );
            match effects::found(world, name, reference) {
                Some(row) => {
                    &&& end matches StepView::Reply(reply)
                    &&& reply.status == 200
                    &&& reply.body == BodyView::Empty
                    &&& text::writes(reply.headers[2].1, row.size as int)
                    &&& reply.headers == seq![
                        ("Content-Type"@, row.content_type),
                        ("Docker-Content-Digest"@, row.digest),
                        ("Content-Length"@, reply.headers[2].1),
                        ("Docker-Distribution-API-Version"@, "registry/2.0"@),
                    ]
                },
                None => end == unknown_manifest(registry.edition),
            }
        }),
{
    effects::law_head_manifest(registry, services, world, name, reference, uuid);
    lemma_unknown_manifest(registry.edition);
    if let Some(row) = effects::found(world, name, reference) {
        text::law_decimal_writes(row.size as int);
    }
}

/// The reply that something is there now, or was there already, at a location.
pub open spec fn created(edition: Edition, digest: Seq<char>, location: Seq<char>) -> StepView {
    headers_only(
        201,
        if edition == Edition::Standalone {
            seq![
                ("Docker-Content-Digest"@, digest),
                ("Location"@, location),
                ("Content-Length"@, "0"@),
            ]
        } else {
            seq![("Docker-Content-Digest"@, digest), ("Location"@, location)]
        },
    )
}

/// A manifest that is put is stored under its digest, with the content type that came with it or
/// the one of Docker manifests, and with its size; the tag, if the reference is one, leads to it;
/// and the reply gives its digest and its location.
#[verifier::spinoff_prover]
#[verifier::rlimit(60)]
pub proof fn law_manifest_is_put(
    registry: RegistryView,
    services: Services,
    world: World,
    name: Seq<char>,
    reference: Seq<char>,
    request: RequestView,
    uuid: Seq<char>,
)
    requires
        request.method == Method::Put,
        request.body.len() <= i64::MAX,
    ensures
        ({
            let target = OciPathView::Manifests { name, reference };
            let step = routes::target_step(registry, target, request, uuid);
            let (after, end) = world::served(registry, services, world, step, uuid);
            let digest = digest::digest_text(request.body);
            let content_type = match request.content_type {
                Some(given) => given,
                None => "application/vnd.docker.distribution.manifest.v2+json"@,
            };
            let row = after.manifests[(name, digest)];
            &&& end == created(
                registry.edition,
                digest,
                "/v2/"@ + name + "/manifests/"@ + digest,
            )
            &&& after.manifests.dom().contains((name, digest))
            &&& row.digest == digest
            &&& row.content_type == content_type
            &&& row.size == request.body.len()
            &&& world::lookup(after.objects, keys::manifest_key_spec(name, digest)) == Some(
                request.body,
            )
            &&& !db::is_digest_spec(reference) ==> world::lookup(after.tags, (name, reference))
                == Some(digest)
            &&& step matches StepView::PutObject { content_type: stored_as, .. }
            &&& stored_as == Some(content_type)
        }),
{
    let body = request.body;
    effects::law_put_manifest(
        registry,
        services,
        world,
        name,
        reference,
        request.content_type,
        body,
        uuid,
    );
}

/// A manifest or tag that is known is deleted, and the reply says no more.
pub proof fn law_manifest_is_deleted(
    registry: RegistryView,
    services: Services,
    world: World,
    name: Seq<char>,
    reference: Seq<char>,
    request: RequestView,
    uuid: Seq<char>,
)
    requires
        request.method == Method::Delete,
    ensures
        ending(
            registry,
            services,
            world,
            OciPathView::Manifests { name, reference },
            request,
            uuid,
        ) == if effects::found(world, name, reference) is Some {
            headers_only(202, Seq::empty())
        } else {
            unknown_manifest(registry.edition)
        },
{
    effects::law_delete_manifest(registry, services, world, name, reference, uuid);
    lemma_unknown_manifest(registry.edition);
}

/// References that begin with `sha256:` are digests, and no others are; the digest of any data is
/// one.
pub proof fn law_references(reference: Seq<char>, rest: Seq<char>, data: Seq<u8>)
    ensures
        reference == "sha256:"@ + rest ==> db::is_digest_spec(reference),
        db::is_digest_spec(reference) ==> reference == "sha256:"@ + reference.skip(7),
        db::is_digest_spec(digest::digest_text(data)),
{
    reveal_strlit("sha256:");
    text::law_prefixes(reference, "sha256:"@, rest);
    text::law_prefixes(reference, "sha256:"@, digest::hex_text(digest::sha256(data)));
}

// ---- Blobs ----

/// The reply to a request for a blob that is not there.
pub open spec fn unknown_blob() -> StepView {
    reports(404, "BLOB_UNKNOWN"@, "blob unknown to registry"@)
}

/// A client that asks for a blob that is there is sent, with its digest, to the URL of its key: as
/// the store gives it, or, where there is a base URL, below that. A worker without a base URL sends
/// the content.
#[verifier::spinoff_prover]
#[verifier::rlimit(60)]
pub proof fn law_blob_is_sent(
    registry: RegistryView,
    services: Services,
    world: World,
    name: Seq<char>,
    digest: Seq<char>,
    request: RequestView,
    uuid: Seq<char>,
)
    requires
        request.method == Method::Get,
    ensures
        ({
            let end = ending(
                registry,
                services,
                world,
                OciPathView::Blob { name, digest },
                request,
                uuid,
            );
            let key = keys::blob_key_spec(digest);
            match world::lookup(world.objects, key) {
                None => end == unknown_blob(),
                Some(data) => match registry.public_url {
                    Some(base) if registry.edition == Edition::Standalone || base.len() > 0 => {
                        let start = text::trim_end_spec(base, '/');
                        end == headers_only(
                            307,
                            seq![
                                ("Location"@, start.push('/') + key),
                                ("Docker-Content-Digest"@, digest),
                            ],
                        )
                    },
                    _ => if registry.edition == Edition::Standalone {
                        end == headers_only(
                            307,
                            seq![
                                ("Location"@, (services.url)(key)),
                                ("Docker-Content-Digest"@, digest),
                            ],
                        )
                    } else {
                        end == StepView::Reply(
                            ReplyView {
                                status: 200,
                                headers: seq![
                                    ("Docker-Content-Digest"@, digest),
                                    ("Content-Type"@, "application/octet-stream"@),
                                ],
                                body: BodyView::Bytes(data),
                            },
                        )
                    },
                },
            }
        }),
{
    effects::law_get_blob(registry, services, world, digest, uuid);
    law_errors_are_reported(404, "BLOB_UNKNOWN"@, "blob unknown to registry"@);
    reveal_strlit("/");
    if let Some(base) = registry.public_url {
        let start = text::trim_end_spec(base, '/');
        let key = keys::blob_key_spec(digest);
        assert(start + "/"@ + key =~= start.push('/') + key);
    }
}

/// HEAD of a blob that is there gives its digest and the length of its data.
#[verifier::spinoff_prover]
#[verifier::rlimit(60)]
pub proof fn law_blob_is_described(
    registry: RegistryView,
    services: Services,
    world: World,
    name: Seq<char>,
    digest: Seq<char>,
    request: RequestView,
    uuid: Seq<char>,
)
    requires
        request.method == Method::Head,
    ensures
        ({
            let end = ending(
                registry,
                services,
                world,
                OciPathView::Blob { name, digest },
                request,
                uuid,
            );
            match world::lookup(world.objects, keys::blob_key_spec(digest)) {
                Some(data) => data.len() <= i64::MAX ==> {
                    &&& end matches StepView::Reply(reply)
                    &&& reply.status == 200
                    &&& reply.body == BodyView::Empty
                    &&& text::writes(reply.headers[2].1, data.len() as int)
                    &&& reply.headers == seq![
                        ("Docker-Content-Digest"@, digest),
                        ("Content-Type"@, "application/octet-stream"@),
                        ("Content-Length"@, reply.headers[2].1),
                    ]
                },
                None => end == unknown_blob(),
            }
        }),
{
    effects::law_head_blob(registry, services, world, digest, uuid);
    law_errors_are_reported(404, "BLOB_UNKNOWN"@, "blob unknown to registry"@);
    if let Some(data) = world::lookup(world.objects, keys::blob_key_spec(digest)) {
        text::law_decimal_writes(data.len() as int);
    }
}

/// A blob that is there is deleted, and the reply says no more.
#[verifier::spinoff_prover]
#[verifier::rlimit(60)]
pub proof fn law_blob_is_deleted(
    registry: RegistryView,
    services: Services,
    world: World,
    name: Seq<char>,
    digest: Seq<char>,
    request: RequestView,
    uuid: Seq<char>,
)
    requires
        request.method == Method::Delete,
    ensures
        ending(
            registry,
            services,
            world,
            OciPathView::Blob { name, digest },
            request,
            uuid,
        ) == if world.objects.dom().contains(keys::blob_key_spec(digest)) {
            headers_only(202, Seq::empty())
        } else if registry.edition == Edition::Standalone {
            unknown_blob()
        } else {
            reports(404, "BLOB_UNKNOWN"@, "blob unknown"@)
        },
{
    effects::law_delete_blob(registry, services, world, digest, uuid);
    law_errors_are_reported(404, "BLOB_UNKNOWN"@, "blob unknown to registry"@);
    law_errors_are_reported(404, "BLOB_UNKNOWN"@, "blob unknown"@);
}

// ---- Uploads ----

/// An upload is started under its new identifier, with nothing received, and the reply gives the
/// identifier and the location; where a blob that is there is to be mounted, the reply gives that
/// one.
#[verifier::spinoff_prover]
#[verifier::rlimit(60)]
pub proof fn law_upload_is_started(
    registry: RegistryView,
    services: Services,
    world: World,
    name: Seq<char>,
    request: RequestView,
    uuid: Seq<char>,
)
    requires
        request.method == Method::Post,
        !world.uploads.dom().contains(uuid),
    ensures
        ({
            let target = OciPathView::BlobUploadStart { name };
            let step = routes::target_step(registry, target, request, uuid);
            let (after, end) = world::served(registry, services, world, step, uuid);
            if request.mount is Some && world.objects.dom().contains(
                keys::blob_key_spec(request.mount->0),
            ) {
                &&& after == world
                &&& end == created(
                    registry.edition,
                    request.mount->0,
                    "/v2/"@ + name + "/blobs/"@ + request.mount->0,
                )
            } else {
                &&& after.uploads.dom().contains(uuid)
                &&& after.uploads[uuid].repo == name
                &&& after.uploads[uuid].offset == 0
                &&& end == headers_only(
                    202,
                    seq![
                        ("Docker-Upload-UUID"@, uuid),
                        ("Location"@, "/v2/"@ + name + "/blobs/uploads/"@ + uuid),
                        ("Range"@, "0-0"@),
                        ("Content-Length"@, "0"@),
                    ],
                )
            }
        }),
{
    effects::law_initiate_upload(registry, services, world, name, request.mount, uuid);
}

/// The reply to a request on an upload that is not known.
pub open spec fn unknown_upload() -> StepView {
    reports(404, "BLOB_UPLOAD_UNKNOWN"@, "upload not found"@)
}

/// Whether a text is the range of that many bytes, from the first on.
pub open spec fn is_range(range: Seq<char>, length: int) -> bool {
    &&& range.len() > 2
    &&& range[0] == '0'
    &&& range[1] == '-'
    &&& text::writes(range.skip(2), length - 1)
}

/// The range of a length ends one before it, as far as there is a number before it.
pub proof fn law_ranges(length: i64)
    ensures
        is_range(
            responses::range_spec(length),
            if length > i64::MIN {
                length as int
            } else {
                length + 1
            },
        ),
{
    let last = if length > i64::MIN {
        length - 1
    } else {
        length as int
    };
    text::law_decimal_writes(last);
    reveal_strlit("0-");
    assert(responses::range_spec(length).skip(2) =~= text::decimal(last));
}

/// How far an upload has come is given as the range that it has received.
#[verifier::spinoff_prover]
#[verifier::rlimit(60)]
pub proof fn law_upload_is_described(
    registry: RegistryView,
    services: Services,
    world: World,
    name: Seq<char>,
    upload: Seq<char>,
    request: RequestView,
    uuid: Seq<char>,
)
    requires
        request.method == Method::Get,
    ensures
        ({
            let end = ending(
                registry,
                services,
                world,
                OciPathView::BlobUpload { name, uuid: upload },
                request,
                uuid,
            );
            let location = "/v2/"@ + name + "/blobs/uploads/"@ + upload;
            match world::lookup(world.uploads, upload) {
                Some(row) => row.offset > i64::MIN ==> {
                    &&& end matches StepView::Reply(reply)
                    &&& reply.status == 204
                    &&& reply.body == BodyView::Empty
                    &&& if registry.edition == Edition::Standalone {
                        &&& is_range(reply.headers[2].1, row.offset as int)
                        &&& reply.headers == seq![
                            ("Docker-Upload-UUID"@, upload),
                            ("Location"@, location),
                            ("Range"@, reply.headers[2].1),
                        ]
                    } else {
                        &&& is_range(reply.headers[0].1, row.offset as int)
                        &&& reply.headers == seq![
                            ("Range"@, reply.headers[0].1),
                            ("Location"@, location),
                        ]
                    }
                },
                None => end == unknown_upload(),
            }
        }),
{
    effects::law_upload_status(registry, services, world, name, upload, uuid);
    law_errors_are_reported(404, "BLOB_UPLOAD_UNKNOWN"@, "upload not found"@);
    if let Some(row) = world::lookup(world.uploads, upload) {
        if row.offset > i64::MIN {
            law_ranges(row.offset);
        }
    }
}

/// Data for an upload is stored and its length recorded, and the reply gives it as a range.
#[verifier::spinoff_prover]
#[verifier::rlimit(60)]
pub proof fn law_upload_receives_data(
    registry: RegistryView,
    services: Services,
    world: World,
    name: Seq<char>,
    upload: Seq<char>,
    request: RequestView,
    uuid: Seq<char>,
)
    requires
        request.method == Method::Patch,
        request.body.len() <= i64::MAX,
    ensures
        ({
            let target = OciPathView::BlobUpload { name, uuid: upload };
            let step = routes::target_step(registry, target, request, uuid);
            let (after, end) = world::served(registry, services, world, step, uuid);
            let location = "/v2/"@ + name + "/blobs/uploads/"@ + upload;
            if world.uploads.dom().contains(upload) {
                &&& world::lookup(after.objects, keys::upload_key_spec(upload)) == Some(
                    request.body,
                )
                &&& after.uploads.dom().contains(upload)
                &&& after.uploads[upload].repo == world.uploads[upload].repo
                &&& after.uploads[upload].offset == request.body.len()
                &&& end matches StepView::Reply(reply)
                &&& reply.status == 202
                &&& reply.body == BodyView::Empty
                &&& is_range(reply.headers[2].1, request.body.len() as int)
                &&& reply.headers == if registry.edition == Edition::Standalone {
                    seq![
                        ("Docker-Upload-UUID"@, upload),
                        ("Location"@, location),
                        ("Range"@, reply.headers[2].1),
                        ("Content-Length"@, "0"@),
                    ]
                } else {
                    seq![
                        ("Docker-Upload-UUID"@, upload),
                        ("Location"@, location),
                        ("Range"@, reply.headers[2].1),
                    ]
                }
            } else {
                end == unknown_upload() && after == world
            }
        }),
{
    let body = request.body;
    effects::law_patch_upload(registry, services, world, name, upload, body, uuid);
    law_errors_are_reported(404, "BLOB_UPLOAD_UNKNOWN"@, "upload not found"@);
    law_ranges(body.len() as i64);
}

/// An upload is completed with data that has the digest it is said to have, and the reply gives
/// that digest and the location of the blob; else the reply says what is missing or wrong.
#[verifier::spinoff_prover]
#[verifier::rlimit(60)]
pub proof fn law_upload_is_completed(
    registry: RegistryView,
    services: Services,
    world: World,
    name: Seq<char>,
    upload: Seq<char>,
    request: RequestView,
    uuid: Seq<char>,
)
    requires
        request.method == Method::Put,
    ensures
        ({
            let target = OciPathView::BlobUpload { name, uuid: upload };
            let step = routes::target_step(registry, target, request, uuid);
            let (after, end) = world::served(registry, services, world, step, uuid);
            let standalone = registry.edition == Edition::Standalone;
            let sent = world::lookup(world.objects, keys::upload_key_spec(upload));
            let data = if request.body.len() > 0 {
                Some(request.body)
            } else {
                sent
            };
            match request.digest {
                None => end == reports(
                    400,
                    if standalone {
                        "UNSUPPORTED"@
                    } else {
                        "DIGEST_INVALID"@
                    },
                    "digest query parameter required"@,
                ),
                Some(digest) => if !world.uploads.dom().contains(upload) {
                    end == unknown_upload()
                } else if data is None {
                    end == if standalone {
                        reports(400, "UNSUPPORTED"@, "no blob data found for upload"@)
                    } else {
                        reports(400, "BLOB_UPLOAD_UNKNOWN"@, "no blob data for upload"@)
                    }
                } else if digest::digest_text(data->0) != digest {
                    end == reports(
                        400,
                        "DIGEST_INVALID"@,
                        if standalone {
                            "provided digest did not match uploaded content"@
                        } else {
                            "digest mismatch"@
                        },
                    )
                } else {
                    &&& end == created(
                        registry.edition,
                        digest,
                        "/v2/"@ + name + "/blobs/"@ + digest,
                    )
                    &&& world::lookup(after.objects, keys::blob_key_spec(digest)) == data
                },
            }
        }),
{
    let body = request.body;
    effects::law_complete_upload(
        registry,
        services,
        world,
        name,
        upload,
        request.digest,
        body,
        uuid,
    );
    law_errors_are_reported(400, "UNSUPPORTED"@, "digest query parameter required"@);
    law_errors_are_reported(400, "DIGEST_INVALID"@, "digest query parameter required"@);
    law_errors_are_reported(404, "BLOB_UPLOAD_UNKNOWN"@, "upload not found"@);
    law_errors_are_reported(400, "UNSUPPORTED"@, "no blob data found for upload"@);
    law_errors_are_reported(400, "BLOB_UPLOAD_UNKNOWN"@, "no blob data for upload"@);
    law_errors_are_reported(
        400,
        "DIGEST_INVALID"@,
        "provided digest did not match uploaded content"@,
    );
    law_errors_are_reported(400, "DIGEST_INVALID"@, "digest mismatch"@);
    if let Some(digest) = request.digest {
        keys::law_kinds_of_keys_are_apart(digest, name, digest, upload);
    }
}

/// An upload is cancelled, known or not, and the reply says no more.
pub proof fn law_upload_is_cancelled(
    registry: RegistryView,
    services: Services,
    world: World,
    name: Seq<char>,
    upload: Seq<char>,
    request: RequestView,
    uuid: Seq<char>,
)
    requires
        request.method == Method::Delete,
    ensures
        ending(
            registry,
            services,
            world,
            OciPathView::BlobUpload { name, uuid: upload },
            request,
            uuid,
        ) == headers_only(204, Seq::empty()),
{
    effects::law_cancel_upload(registry, services, world, upload, uuid);
}

// ---- Lists ----

/// The tags of a repository are given as an object with its name and the array of the tags.
pub proof fn law_tags_are_given(
    registry: RegistryView,
    repo: Seq<char>,
    names: Seq<Seq<char>>,
)
    ensures
        routes::after_names_step(registry, NamesWantedView::Tags { repo }, Ok(names))
            == StepView::Reply(
            ReplyView {
                status: 200,
                headers: seq![("Content-Type"@, "application/json"@)],
                body: BodyView::Text(
                    json::object(
                        seq![
                            ("name"@, json::string(repo)),
                            (
                                "tags"@,
                                json::array(
                                    Seq::new(names.len(), |i: int| json::string(names[i])),
                                ),
                            ),
                        ],
                    ),
                ),
            },
        ),
{
    types::law_tag_list_is_an_object(repo, names);
}

/// The repositories are given as an object with the array of them.
pub proof fn law_repositories_are_given(registry: RegistryView, names: Seq<Seq<char>>)
    ensures
        routes::after_names_step(registry, NamesWantedView::Repositories, Ok(names))
            == StepView::Reply(
            ReplyView {
                status: 200,
                headers: seq![("Content-Type"@, "application/json"@)],
                body: BodyView::Text(
                    json::object(
                        seq![
                            (
                                "repositories"@,
                                json::array(
                                    Seq::new(names.len(), |i: int| json::string(names[i])),
                                ),
                            ),
                        ],
                    ),
                ),
            },
        ),
{
    types::law_catalog_is_an_object(names);
}

/// A list of tags is asked of the database for the repository that is named.
pub proof fn law_tags_are_asked_for(
    registry: RegistryView,
    name: Seq<char>,
    request: RequestView,
    uuid: Seq<char>,
)
    requires
        request.method == Method::Get,
    ensures
        routes::target_step(registry, OciPathView::TagsList { name }, request, uuid)
            == (StepView::ListNames {
            query: db::QueryView::ListTags { repo: name },
            then: NamesWantedView::Tags { repo: name },
        }),
{
}

// ---- Settings ----

/// A registry takes its token and its base URL from the settings that it is made of.
pub proof fn law_settings(
    config: Config,
    standalone: Registry,
    auth_token: Option<String>,
    public_url: Option<String>,
    worker: Registry,
)
    requires
        call_ensures(Registry::standalone, (&config,), standalone),
        call_ensures(Registry::worker, (auth_token, public_url), worker),
    ensures
        standalone.edition == Edition::Standalone,
        standalone.auth_token is Some <==> config.auth_token is Some,
        standalone.auth_token is Some ==> standalone.auth_token->0@ == config.auth_token->0@,
        standalone.public_url is Some <==> config.s3_public_url is Some,
        standalone.public_url is Some ==> standalone.public_url->0@ == config.s3_public_url->0@,
        worker.edition == Edition::Worker,
        worker.auth_token is Some <==> auth_token is Some,
        worker.auth_token is Some ==> worker.auth_token->0@ == auth_token->0@,
        worker.public_url is Some <==> public_url is Some,
        worker.public_url is Some ==> worker.public_url->0@ == public_url->0@,
{
    let one = standalone.deep_view();
    let two = worker.deep_view();
    assert(one.auth_token == config.auth_token.deep_view());
    assert(one.public_url == config.s3_public_url.deep_view());
    assert(two.auth_token == auth_token.deep_view());
    assert(two.public_url == public_url.deep_view());
}

// ---- Failures on the way ----

/// What is deleted on the way need not succeed: whether it does or not, the request goes on in the
/// same way. Standalone, that holds of what is recorded of a completed upload as well, and of a
/// blob to be mounted, which is as good as not there where the store fails.
pub proof fn law_failures_that_do_not_matter(
    registry: RegistryView,
    repo: Seq<char>,
    reference: Seq<char>,
    digest: Seq<char>,
    upload: Seq<char>,
    message: Seq<char>,
    uuid: Seq<char>,
)
    ensures
        ({
            let standalone = registry.edition == Edition::Standalone;
            let manifest = DoneWantedView::ManifestDropped { repo, reference };
            let data = DoneWantedView::TemporaryDropped { repo, uuid: upload, digest };
            let cancelled = DoneWantedView::CancelledDropped { uuid: upload };
            let forgotten = DoneWantedView::CancelledForgotten;
            let recorded = DoneWantedView::UploadForgotten { repo, digest };
            let mount = SizeWantedView::Mount { repo, digest };
            &&& routes::after_done_step(registry, manifest, Err(message))
                == routes::after_done_step(registry, manifest, Ok(()))
            &&& routes::after_done_step(registry, data, Err(message)) == routes::after_done_step(
                registry,
                data,
                Ok(()),
            )
            &&& routes::after_done_step(registry, cancelled, Err(message))
                == routes::after_done_step(registry, cancelled, Ok(()))
            &&& routes::after_done_step(registry, forgotten, Err(message))
                == routes::after_done_step(registry, forgotten, Ok(()))
            &&& standalone ==> routes::after_done_step(registry, recorded, Err(message))
                == routes::after_done_step(registry, recorded, Ok(()))
            &&& standalone ==> routes::after_size_step(registry, mount, Err(message), uuid)
                == routes::after_size_step(registry, mount, Ok(None), uuid)
            &&& !standalone ==> routes::after_size_step(registry, mount, Err(message), uuid)
                == StepView::Raise(message)
        }),
{
}

/// A blob whose content is gone when it is asked for is a failure.
pub proof fn law_lost_content(registry: RegistryView, digest: Seq<char>)
    ensures
        routes::after_object_step(registry, ObjectWantedView::Blob { digest }, Ok(None)) == if
            registry.edition == Edition::Standalone {
            reports(500, "INTERNAL_ERROR"@, "blob not found"@)
        } else {
            StepView::Raise("blob not found"@)
        },
{
    law_errors_are_reported(500, "INTERNAL_ERROR"@, "blob not found"@);
}

/// Data that comes with a request on an upload, and the data of a blob, is stored with the content
/// type of data that is not looked into standalone, and by a worker without one; the data is what
/// came.
pub proof fn law_stored_data(
    registry: RegistryView,
    repo: Seq<char>,
    upload: Seq<char>,
    row: UploadRowView,
    data: Seq<u8>,
)
    requires
        data.len() > 0,
    ensures
        ({
            let content_type = if registry.edition == Edition::Standalone {
                Some("application/octet-stream"@)
            } else {
                None
            };
            let digest = digest::digest_text(data);
            let patch = UploadWantedView::Patch { repo, uuid: upload, data };
            let complete = UploadWantedView::Complete { repo, uuid: upload, digest, data };
            let received = ObjectWantedView::Upload { repo, uuid: upload, digest };
            &&& is_stored_as(
                uploads::after_upload_step(registry, patch, Ok(Some(row))),
                data,
                content_type,
            )
            &&& is_stored_as(
                uploads::after_upload_step(registry, complete, Ok(Some(row))),
                data,
                content_type,
            )
            &&& is_stored_as(
                routes::after_object_step(registry, received, Ok(Some(data))),
                data,
                content_type,
            )
        }),
{
}

/// Whether a step is to store some data with a content type.
pub open spec fn is_stored_as(
    step: StepView,
    expected: Seq<u8>,
    expected_type: Option<Seq<char>>,
) -> bool {
    &&& step matches StepView::PutObject { content_type, data, .. }
    &&& data == expected
    &&& content_type == expected_type
}

// ---- Locations ----

/// The value of a header of a reply.
pub open spec fn gives(end: StepView, name: Seq<char>, value: Seq<char>) -> bool {
    &&& end matches StepView::Reply(reply)
    &&& exists|i: int| 0 <= i < reply.headers.len() && #[trigger] reply.headers[i] == (name, value)
}

/// Whether a location, below `/v2/`, is read as a target.
pub open spec fn leads(location: Seq<char>, target: OciPathView) -> bool {
    &&& location.len() >= 4
    &&& location.take(4) == "/v2/"@
    &&& oci_path::oci_path(location.skip(4)) == Some(target)
}

/// The location of what is created is read as that very thing: the repository and the digest, or
/// the identifier, are those that it was created with.
pub proof fn law_locations_are_read_back(
    edition: Edition,
    name: Seq<char>,
    digest: Seq<char>,
    uuid: Seq<char>,
    length: i64,
)
    ensures
        oci_path::is_readable(OciPathView::Blob { name, digest }) ==> exists|location: Seq<char>|
            #[trigger]
            leads(location, OciPathView::Blob { name, digest }) && gives(
                StepView::Reply(responses::blob_created_reply(edition, name, digest)),
                "Location"@,
                location,
            ),
        oci_path::is_readable(OciPathView::Manifests { name, reference: digest }) ==> exists|
            location: Seq<char>,
        | #[trigger]
            leads(location, OciPathView::Manifests { name, reference: digest }) && gives(
                StepView::Reply(responses::manifest_created_reply(edition, name, digest)),
                "Location"@,
                location,
            ),
        oci_path::is_readable(OciPathView::BlobUpload { name, uuid }) ==> exists|
            location: Seq<char>,
        | #[trigger]
            leads(location, OciPathView::BlobUpload { name, uuid }) && gives(
                StepView::Reply(responses::upload_started_reply(name, uuid)),
                "Location"@,
                location,
            ) && gives(
                StepView::Reply(responses::chunk_reply(edition, name, uuid, length)),
                "Location"@,
                location,
            ) && gives(
                StepView::Reply(responses::upload_status_reply(edition, name, uuid, length)),
                "Location"@,
                location,
            ),
{
    reveal_strlit("/v2/");
    let blob = OciPathView::Blob { name, digest };
    if oci_path::is_readable(blob) {
        oci_path::law_written_path_is_read_back(blob);
        let location = responses::blob_location_spec(name, digest);
        assert(location.take(4) =~= "/v2/"@);
        assert(location.skip(4) =~= oci_path::path_text(blob));
        assert(leads(location, blob));
        let reply = responses::blob_created_reply(edition, name, digest);
        assert(reply.headers[1] == ("Location"@, location));
    }
    let manifest = OciPathView::Manifests { name, reference: digest };
    if oci_path::is_readable(manifest) {
        oci_path::law_written_path_is_read_back(manifest);
        let location = responses::manifest_location_spec(name, digest);
        assert(location.take(4) =~= "/v2/"@);
        assert(location.skip(4) =~= oci_path::path_text(manifest));
        assert(leads(location, manifest));
        let reply = responses::manifest_created_reply(edition, name, digest);
        assert(reply.headers[1] == ("Location"@, location));
    }
    let upload = OciPathView::BlobUpload { name, uuid };
    if oci_path::is_readable(upload) {
        oci_path::law_written_path_is_read_back(upload);
        let location = responses::upload_location_spec(name, uuid);
        assert(location.take(4) =~= "/v2/"@);
        assert(location.skip(4) =~= oci_path::path_text(upload));
        assert(leads(location, upload));
        assert(responses::upload_started_reply(name, uuid).headers[1] == ("Location"@, location));
        let chunk = responses::chunk_reply(edition, name, uuid, length);
        assert(chunk.headers[1] == ("Location"@, location));
        let status = responses::upload_status_reply(edition, name, uuid, length);
        assert(status.headers[1] == ("Location"@, location));
    }
}

/// Where an upload was completed, with data that came along or that it had received, the location
/// that the client is given is read as the blob with the repository and the digest of the request.
pub proof fn law_completed_upload_is_found_at_its_location(
    registry: RegistryView,
    services: Services,
    world: World,
    name: Seq<char>,
    upload: Seq<char>,
    digest: Seq<char>,
    request: RequestView,
    uuid: Seq<char>,
)
    requires
        request.method == Method::Put,
        request.digest == Some(digest),
        request.body.len() > 0 ==> digest::digest_text(request.body) == digest,
        request.body.len() == 0 ==> {
            let received = world::lookup(world.objects, keys::upload_key_spec(upload));
            received is Some && digest::digest_text(received->0) == digest
        },
        world.uploads.dom().contains(upload),
        oci_path::is_readable(OciPathView::Blob { name, digest }),
    ensures
        exists|location: Seq<char>| #[trigger]
            leads(location, OciPathView::Blob { name, digest }) && gives(
                ending(
                    registry,
                    services,
                    world,
                    OciPathView::BlobUpload { name, uuid: upload },
                    request,
                    uuid,
                ),
                "Location"@,
                location,
            ),
{
    law_upload_is_completed(registry, services, world, name, upload, request, uuid);
    effects::law_complete_upload(
        registry,
        services,
        world,
        name,
        upload,
        request.digest,
        request.body,
        uuid,
    );
    law_locations_are_read_back(registry.edition, name, digest, upload, 0);
}

} // verus!
