//! Requests on blob uploads.

use vstd::prelude::*;

use crate::db;
use crate::db::{QueryView, UploadRow, UploadRowView};
use crate::digest;
use crate::digest::verify_digest;
use crate::keys;
use crate::keys::{blob_key, upload_key};
use crate::manifests;
use crate::manifests::{failure, one};
use crate::reply::OCTETS;
use crate::responses;
use crate::step;
use crate::step::{
    DoneWanted, DoneWantedView, Edition, ObjectWanted, ObjectWantedView, Registry, RegistryView,
    SizeWanted, SizeWantedView, Step, StepView, UploadWanted, UploadWantedView,
};

verus! {

/// Whether a character is a lower-case hexadecimal digit.
pub open spec fn is_hex_digit(c: char) -> bool {
    '0' <= c <= '9' || 'a' <= c <= 'f'
}

/// Whether a text is a random (version 4) UUID in its hyphenated, lower-case form.
pub open spec fn is_uuid(text: Seq<char>) -> bool {
    &&& text.len() == 36
    &&& forall|i: int|
        0 <= i < 36 ==> if i == 8 || i == 13 || i == 18 || i == 23 {
            #[trigger] text[i] == '-'
        } else {
            is_hex_digit(text[i])
        }
    &&& text[14] == '4'
    &&& text[19] == '8' || text[19] == '9' || text[19] == 'a' || text[19] == 'b'
}

/// A new identifier for an upload, from `uuid::Uuid::new_v4` and its `to_string`.
///
/// The identifier is random. The contract claims of every outcome that it is the hyphenated,
/// lower-case text of a version 4 UUID, and nothing of which one.
#[verifier::external_body]
fn new_uuid() -> (uuid: String)
    ensures
        is_uuid(uuid@),
{
    uuid::Uuid::new_v4().to_string()
}

/// The content type that the data of uploads and blobs is stored with.
pub open spec fn data_type(edition: Edition) -> Option<Seq<char>> {
    if edition == Edition::Standalone {
        Some(OCTETS@)
    } else {
        None
    }
}

/// The content type that the data of uploads and blobs is stored with.
fn stored_type(edition: Edition) -> (res: Option<String>)
    ensures
        res.deep_view() == data_type(edition),
{
    match edition {
        Edition::Standalone => Some(OCTETS.to_owned()),
        Edition::Worker => None,
    }
}

/// The start of an upload under a given identifier: it is recorded.
pub open spec fn create_upload_step(repo: Seq<char>, uuid: Seq<char>) -> StepView {
    StepView::Execute {
        queries: seq![QueryView::CreateUpload { uuid, repo }],
        then: DoneWantedView::UploadCreated { repo, uuid },
    }
}

/// The start of an upload: where a blob is to be mounted, whether it is there already; else an
/// upload under a new identifier.
pub open spec fn initiate_upload_step(
    repo: Seq<char>,
    mount: Option<Seq<char>>,
    uuid: Seq<char>,
) -> StepView {
    match mount {
        Some(digest) => StepView::HeadObject {
            key: keys::blob_key_spec(digest),
            then: SizeWantedView::Mount { repo, digest },
        },
        None => create_upload_step(repo, uuid),
    }
}

/// Once it is known whether a blob to be mounted is there, it is accepted, or an upload is
/// started.
pub open spec fn after_mount_size_step(
    registry: RegistryView,
    repo: Seq<char>,
    digest: Seq<char>,
    answer: Result<Option<i64>, Seq<char>>,
    uuid: Seq<char>,
) -> StepView {
    match answer {
        Ok(Some(_)) => StepView::Reply(
            responses::blob_created_reply(registry.edition, repo, digest),
        ),
        Ok(None) => create_upload_step(repo, uuid),
        Err(message) => if registry.edition == Edition::Standalone {
            create_upload_step(repo, uuid)
        } else {
            StepView::Raise(message)
        },
    }
}

/// The start of a request that needs the metadata of an upload.
pub open spec fn find_upload_step(uuid: Seq<char>, then: UploadWantedView) -> StepView {
    StepView::FindUpload { query: QueryView::FindUpload { uuid }, then }
}

/// The start of completing an upload, which needs a digest.
pub open spec fn complete_upload_step(
    registry: RegistryView,
    repo: Seq<char>,
    uuid: Seq<char>,
    digest: Option<Seq<char>>,
    data: Seq<u8>,
) -> StepView {
    match digest {
        Some(digest) => find_upload_step(
            uuid,
            UploadWantedView::Complete { repo, uuid, digest, data },
        ),
        None => StepView::Reply(responses::digest_missing_reply(registry.edition)),
    }
}

/// Data is stored as a blob under the expected digest, if it has that digest.
pub open spec fn store_blob_step(
    registry: RegistryView,
    repo: Seq<char>,
    uuid: Seq<char>,
    digest: Seq<char>,
    data: Seq<u8>,
) -> StepView {
    if digest::digest_text(data) == digest {
        StepView::PutObject {
            key: keys::blob_key_spec(digest),
            content_type: data_type(registry.edition),
            data,
            then: DoneWantedView::BlobStored { repo, uuid, digest },
        }
    } else {
        StepView::Reply(responses::digest_wrong_reply(registry.edition))
    }
}

/// Once the metadata of an upload is there, it is the reply, or the data that came with the
/// request is stored, or, where none came, the data that the upload has received is asked for.
pub open spec fn after_upload_step(
    registry: RegistryView,
    then: UploadWantedView,
    answer: Result<Option<UploadRowView>, Seq<char>>,
) -> StepView {
    match answer {
        Ok(Some(row)) => match then {
            UploadWantedView::Status { repo, uuid } => StepView::Reply(
                responses::upload_status_reply(registry.edition, repo, uuid, row.offset),
            ),
            UploadWantedView::Patch { repo, uuid, data } => StepView::PutObject {
                key: keys::upload_key_spec(uuid),
                content_type: data_type(registry.edition),
                data,
                then: DoneWantedView::ChunkStored {
                    repo,
                    uuid,
                    length: responses::length_spec(data),
                },
            },
            UploadWantedView::Complete { repo, uuid, digest, data } => if data.len() > 0 {
                store_blob_step(registry, repo, uuid, digest, data)
            } else {
                StepView::GetObject {
                    key: keys::upload_key_spec(uuid),
                    then: ObjectWantedView::Upload { repo, uuid, digest },
                }
            },
        },
        Ok(None) => StepView::Reply(responses::upload_unknown_reply()),
        Err(message) => manifests::failure_step(registry.edition, message),
    }
}

/// Once the data that an upload has received is there, it is stored as a blob.
pub open spec fn after_upload_content_step(
    registry: RegistryView,
    repo: Seq<char>,
    uuid: Seq<char>,
    digest: Seq<char>,
    answer: Result<Option<Seq<u8>>, Seq<char>>,
) -> StepView {
    match answer {
        Ok(Some(data)) => store_blob_step(registry, repo, uuid, digest, data),
        Ok(None) => StepView::Reply(responses::data_missing_reply(registry.edition)),
        Err(message) => manifests::failure_step(registry.edition, message),
    }
}

/// The start of cancelling an upload: its data is deleted.
pub open spec fn cancel_upload_step(uuid: Seq<char>) -> StepView {
    StepView::DeleteObject {
        key: keys::upload_key_spec(uuid),
        then: DoneWantedView::CancelledDropped { uuid },
    }
}

impl Registry {
    /// Starts an upload under a given identifier.
    pub fn create_upload(&self, repo: String, uuid: String) -> (step: Step)
        ensures
            step.deep_view() == create_upload_step(repo@, uuid@),
    {
        let queries = one(db::create_upload(&uuid, &repo));
        Step::Execute { queries, then: DoneWanted::UploadCreated { repo, uuid } }
    }

    /// Starts an upload, or asks for a blob that is to be mounted.
    pub fn initiate_upload(&self, repo: String, mount: Option<String>) -> (step: Step)
        ensures
            exists|uuid: Seq<char>| #[trigger]
                is_uuid(uuid) && step.deep_view() == initiate_upload_step(
                    repo@,
                    mount.deep_view(),
                    uuid,
                ),
    {
        match mount {
            Some(digest) => {
                proof {
                    let uuid = lemma_some_uuid();
                }
                let key = blob_key(&digest);
                Step::HeadObject { key, then: SizeWanted::Mount { repo, digest } }
            },
            None => {
                let uuid = new_uuid();
                self.create_upload(repo, uuid)
            },
        }
    }

    /// Goes on with the size of a blob that is to be mounted.
    pub(crate) fn after_mount_size(
        &self,
        repo: String,
        digest: String,
        answer: Result<Option<i64>, String>,
    ) -> (step: Step)
        ensures
            exists|uuid: Seq<char>| #[trigger]
                is_uuid(uuid) && step.deep_view() == after_mount_size_step(
                    self.deep_view(),
                    repo@,
                    digest@,
                    step::answer_view(answer),
                    uuid,
                ),
    {
        if let Ok(Some(_)) = &answer {
            proof {
                let uuid = lemma_some_uuid();
            }
            return Step::Reply(responses::blob_created(self.edition, &repo, &digest));
        }
        if let Err(message) = answer {
            if self.edition == Edition::Worker {
                proof {
                    let uuid = lemma_some_uuid();
                }
                return Step::Raise(message);
            }
        }
        let uuid = new_uuid();
        self.create_upload(repo, uuid)
    }

    /// Serves how far an upload has come.
    pub fn upload_status(&self, repo: String, uuid: String) -> (step: Step)
        ensures
            step.deep_view() == find_upload_step(
                uuid@,
                UploadWantedView::Status { repo: repo@, uuid: uuid@ },
            ),
    {
        let query = db::get_upload(&uuid);
        Step::FindUpload { query, then: UploadWanted::Status { repo, uuid } }
    }

    /// Receives data for an upload.
    pub fn patch_upload(&self, repo: String, uuid: String, data: Vec<u8>) -> (step: Step)
        ensures
            step.deep_view() == find_upload_step(
                uuid@,
                UploadWantedView::Patch { repo: repo@, uuid: uuid@, data: data@ },
            ),
    {
        let query = db::get_upload(&uuid);
        Step::FindUpload { query, then: UploadWanted::Patch { repo, uuid, data } }
    }

    /// Completes an upload.
    pub fn complete_upload(
        &self,
        repo: String,
        uuid: String,
        digest: Option<String>,
        data: Vec<u8>,
    ) -> (step: Step)
        ensures
            step.deep_view() == complete_upload_step(
                self.deep_view(),
                repo@,
                uuid@,
                digest.deep_view(),
                data@,
            ),
    {
        match digest {
            Some(digest) => {
                let query = db::get_upload(&uuid);
                Step::FindUpload {
                    query,
                    then: UploadWanted::Complete { repo, uuid, digest, data },
                }
            },
            None => Step::Reply(responses::digest_missing(self.edition)),
        }
    }

    /// Stores data as a blob, if it has the expected digest.
    fn store_blob(
        &self,
        repo: String,
        uuid: String,
        digest: String,
        data: Vec<u8>,
    ) -> (step: Step)
        ensures
            step.deep_view() == store_blob_step(self.deep_view(), repo@, uuid@, digest@, data@),
    {
        if !verify_digest(&data, &digest) {
            return Step::Reply(responses::digest_wrong(self.edition));
        }
        let key = blob_key(&digest);
        Step::PutObject {
            key,
            content_type: stored_type(self.edition),
            data,
            then: DoneWanted::BlobStored { repo, uuid, digest },
        }
    }

    /// Goes on with the metadata of an upload.
    pub fn after_upload(
        &self,
        then: UploadWanted,
        answer: Result<Option<UploadRow>, String>,
    ) -> (step: Step)
        ensures
            step.deep_view() == after_upload_step(
                self.deep_view(),
                then.deep_view(),
                step::answer_view(answer),
            ),
    {
        match answer {
            Ok(Some(row)) => match then {
                UploadWanted::Status { repo, uuid } => Step::Reply(
                    responses::upload_status(self.edition, &repo, &uuid, row.offset),
                ),
                UploadWanted::Patch { repo, uuid, data } => {
                    let length: i64 = data.len() as i64;
                    let key = upload_key(&uuid);
                    Step::PutObject {
                        key,
                        content_type: stored_type(self.edition),
                        data,
                        then: DoneWanted::ChunkStored { repo, uuid, length },
                    }
                },
                UploadWanted::Complete { repo, uuid, digest, data } => {
                    if data.len() > 0 {
                        self.store_blob(repo, uuid, digest, data)
                    } else {
                        let key = upload_key(&uuid);
                        Step::GetObject { key, then: ObjectWanted::Upload { repo, uuid, digest } }
                    }
                },
            },
            Ok(None) => Step::Reply(responses::upload_unknown()),
            Err(message) => failure(self.edition, message),
        }
    }

    /// Goes on with the data that an upload has received.
    pub(crate) fn after_upload_content(
        &self,
        repo: String,
        uuid: String,
        digest: String,
        answer: Result<Option<Vec<u8>>, String>,
    ) -> (step: Step)
        ensures
            step.deep_view() == after_upload_content_step(
                self.deep_view(),
                repo@,
                uuid@,
                digest@,
                step::object_view(answer),
            ),
    {
        match answer {
            Ok(Some(data)) => self.store_blob(repo, uuid, digest, data),
            Ok(None) => Step::Reply(responses::data_missing(self.edition)),
            Err(message) => failure(self.edition, message),
        }
    }

    /// Cancels an upload.
    pub fn cancel_upload(&self, uuid: String) -> (step: Step)
        ensures
            step.deep_view() == cancel_upload_step(uuid@),
    {
        let key = upload_key(&uuid);
        Step::DeleteObject { key, then: DoneWanted::CancelledDropped { uuid } }
    }
}

/// There is a UUID.
pub proof fn lemma_some_uuid() -> (uuid: Seq<char>)
    ensures
        is_uuid(uuid),
{
    Seq::new(
        36,
        |i: int|
            if i == 8 || i == 13 || i == 18 || i == 23 {
                '-'
            } else if i == 14 {
                '4'
            } else if i == 19 {
                '8'
            } else {
                '0'
            },
    )
}

} // verus!
