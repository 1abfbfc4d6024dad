//! Requests on manifests.

use vstd::prelude::*;

use crate::db;
use crate::db::{ManifestRow, ManifestRowView, Query, QueryView};
use crate::digest;
use crate::digest::compute_digest;
use crate::keys;
use crate::keys::manifest_key;
use crate::reply;
use crate::reply::{internal_error, method_not_allowed};
use crate::responses;
use crate::step;
use crate::step::{
    DoneWanted, DoneWantedView, Edition, ManifestPurpose,
    ManifestPurposeView, ManifestWanted, ManifestWantedView, ObjectWanted, ObjectWantedView,
    Registry, RegistryView, Step, StepView,
};

verus! {

/// A failure outside: reported to the client, or passed on to what runs the registry.
pub open spec fn failure_step(edition: Edition, message: Seq<char>) -> StepView {
    if edition == Edition::Standalone {
        StepView::Reply(reply::error_reply(500, "INTERNAL_ERROR"@, message))
    } else {
        StepView::Raise(message)
    }
}

/// A failure outside.
pub(crate) fn failure(edition: Edition, message: String) -> (step: Step)
    ensures
        step.deep_view() == failure_step(edition, message@),
{
    match edition {
        Edition::Standalone => Step::Reply(internal_error(&message)),
        Edition::Worker => Step::Raise(message),
    }
}

/// The reply to a method that a path does not have.
pub open spec fn not_allowed_step() -> StepView {
    StepView::Reply(reply::empty_reply_spec(405, Seq::empty()))
}

/// The reply to a method that a path does not have.
pub(crate) fn not_allowed() -> (step: Step)
    ensures
        step.deep_view() == not_allowed_step(),
{
    Step::Reply(method_not_allowed())
}

/// The start of looking up a manifest, by digest or by tag.
pub open spec fn find_manifest_step(
    repo: Seq<char>,
    reference: Seq<char>,
    purpose: ManifestPurposeView,
) -> StepView {
    let query = db::get_manifest_spec(repo, reference);
    let then = ManifestWantedView { repo, purpose };
    if db::is_digest_spec(reference) {
        StepView::FindManifest { query, then }
    } else {
        StepView::FindTag { query, then }
    }
}

/// Once the digest behind a tag is there, the metadata of the manifest is asked for.
pub open spec fn after_tag_step(
    registry: RegistryView,
    then: ManifestWantedView,
    answer: Result<Option<Seq<char>>, Seq<char>>,
) -> StepView {
    match answer {
        Ok(Some(digest)) => StepView::FindManifest {
            query: QueryView::FindManifest { repo: then.repo, digest },
            then,
        },
        Ok(None) => StepView::Reply(responses::manifest_unknown_reply(registry.edition)),
        Err(message) => failure_step(registry.edition, message),
    }
}

/// Once the metadata of a manifest is there, it is the reply, or the content of the manifest is
/// asked for or deleted.
pub open spec fn after_manifest_step(
    registry: RegistryView,
    then: ManifestWantedView,
    answer: Result<Option<ManifestRowView>, Seq<char>>,
) -> StepView {
    match answer {
        Ok(Some(row)) => {
            let key = keys::manifest_key_spec(then.repo, row.digest);
            match then.purpose {
                ManifestPurposeView::Get => StepView::GetObject {
                    key,
                    then: ObjectWantedView::Manifest { row },
                },
                ManifestPurposeView::Head => StepView::Reply(responses::manifest_head_reply(row)),
                ManifestPurposeView::Delete { reference } => StepView::DeleteObject {
                    key,
                    then: DoneWantedView::ManifestDropped { repo: then.repo, reference },
                },
            }
        },
        Ok(None) => StepView::Reply(responses::manifest_unknown_reply(registry.edition)),
        Err(message) => failure_step(registry.edition, message),
    }
}

/// Once the content of a manifest is there, it is the reply.
pub open spec fn after_manifest_content_step(
    registry: RegistryView,
    row: ManifestRowView,
    answer: Result<Option<Seq<u8>>, Seq<char>>,
) -> StepView {
    match answer {
        Ok(Some(data)) => StepView::Reply(
            responses::manifest_reply(registry.edition, row, data),
        ),
        Ok(None) => StepView::Reply(responses::manifest_lost_reply(registry.edition)),
        Err(message) => failure_step(registry.edition, message),
    }
}

/// The content type of a manifest that comes without one.
pub const DEFAULT_MANIFEST_TYPE: &'static str =
    "application/vnd.docker.distribution.manifest.v2+json";

/// The start of storing a manifest: its content is stored under its own digest.
pub open spec fn put_manifest_step(
    repo: Seq<char>,
    reference: Seq<char>,
    content_type: Option<Seq<char>>,
    data: Seq<u8>,
) -> StepView {
    let digest = digest::digest_text(data);
    let content_type = match content_type {
        Some(given) => given,
        None => DEFAULT_MANIFEST_TYPE@,
    };
    StepView::PutObject {
        key: keys::manifest_key_spec(repo, digest),
        content_type: Some(content_type),
        data,
        then: DoneWantedView::ManifestStored {
            repo,
            reference,
            digest,
            content_type,
            size: responses::length_spec(data),
        },
    }
}

/// A list of one query.
pub(crate) fn one(query: Query) -> (queries: Vec<Query>)
    ensures
        queries.deep_view() == seq![query.deep_view()],
{
    let queries = vec![query];
    assert(queries.deep_view() =~= seq![query.deep_view()]);
    queries
}

impl Registry {
    /// Starts looking up a manifest.
    fn find_manifest(
        &self,
        repo: String,
        reference: String,
        purpose: ManifestPurpose,
    ) -> (step: Step)
        ensures
            step.deep_view() == find_manifest_step(repo@, reference@, purpose.deep_view()),
    {
        let query = db::get_manifest(&repo, &reference);
        let by_digest = db::is_digest(&reference);
        let then = ManifestWanted { repo, purpose };
        if by_digest {
            Step::FindManifest { query, then }
        } else {
            Step::FindTag { query, then }
        }
    }

    /// Serves a manifest with its content.
    pub fn get_manifest(&self, repo: String, reference: String) -> (step: Step)
        ensures
            step.deep_view() == find_manifest_step(repo@, reference@, ManifestPurposeView::Get),
    {
        self.find_manifest(repo, reference, ManifestPurpose::Get)
    }

    /// Serves the metadata of a manifest.
    pub fn head_manifest(&self, repo: String, reference: String) -> (step: Step)
        ensures
            step.deep_view() == find_manifest_step(repo@, reference@, ManifestPurposeView::Head),
    {
        self.find_manifest(repo, reference, ManifestPurpose::Head)
    }

    /// Deletes a manifest, or a tag.
    pub fn delete_manifest(&self, repo: String, reference: String) -> (step: Step)
        ensures
            step.deep_view() == find_manifest_step(
                repo@,
                reference@,
                ManifestPurposeView::Delete { reference: reference@ },
            ),
    {
        let purpose = ManifestPurpose::Delete { reference: reference.clone() };
        self.find_manifest(repo, reference, purpose)
    }

    /// Goes on with the digest behind a tag.
    pub fn after_tag(
        &self,
        then: ManifestWanted,
        answer: Result<Option<String>, String>,
    ) -> (step: Step)
        ensures
            step.deep_view() == after_tag_step(
                self.deep_view(),
                then.deep_view(),
                step::answer_view(answer),
            ),
    {
        match answer {
            Ok(Some(digest)) => {
                let query = Query::FindManifest { repo: then.repo.clone(), digest };
                Step::FindManifest { query, then }
            },
            Ok(None) => Step::Reply(responses::manifest_unknown(self.edition)),
            Err(message) => failure(self.edition, message),
        }
    }

    /// Goes on with the metadata of a manifest.
    pub fn after_manifest(
        &self,
        then: ManifestWanted,
        answer: Result<Option<ManifestRow>, String>,
    ) -> (step: Step)
        ensures
            step.deep_view() == after_manifest_step(
                self.deep_view(),
                then.deep_view(),
                step::answer_view(answer),
            ),
    {
        match answer {
            Ok(Some(row)) => {
                let key = manifest_key(&then.repo, &row.digest);
                match then.purpose {
                    ManifestPurpose::Get => Step::GetObject {
                        key,
                        then: ObjectWanted::Manifest { row },
                    },
                    ManifestPurpose::Head => Step::Reply(responses::manifest_head(&row)),
                    ManifestPurpose::Delete { reference } => Step::DeleteObject {
                        key,
                        then: DoneWanted::ManifestDropped { repo: then.repo, reference },
                    },
                }
            },
            Ok(None) => Step::Reply(responses::manifest_unknown(self.edition)),
            Err(message) => failure(self.edition, message),
        }
    }

    /// Goes on with the content of a manifest.
    pub(crate) fn after_manifest_content(
        &self,
        row: ManifestRow,
        answer: Result<Option<Vec<u8>>, String>,
    ) -> (step: Step)
        ensures
            step.deep_view() == after_manifest_content_step(
                self.deep_view(),
                row.deep_view(),
                step::object_view(answer),
            ),
    {
        match answer {
            Ok(Some(data)) => Step::Reply(responses::manifest_found(self.edition, &row, data)),
            Ok(None) => Step::Reply(responses::manifest_lost(self.edition)),
            Err(message) => failure(self.edition, message),
        }
    }

    /// Stores a manifest.
    pub fn put_manifest(
        &self,
        repo: String,
        reference: String,
        content_type: Option<String>,
        data: Vec<u8>,
    ) -> (step: Step)
        ensures
            step.deep_view() == put_manifest_step(
                repo@,
                reference@,
                content_type.deep_view(),
                data@,
            ),
    {
        let content_type = match content_type {
            Some(given) => given,
            None => DEFAULT_MANIFEST_TYPE.to_owned(),
        };
        let digest = compute_digest(&data);
        let size: i64 = data.len() as i64;
        let key = manifest_key(&repo, &digest);
        let then = DoneWanted::ManifestStored {
            repo,
            reference,
            digest,
            content_type: content_type.clone(),
            size,
        };
        Step::PutObject { key, content_type: Some(content_type), data, then }
    }
}

} // verus!
