//! The work on a request, step by step.
//!
//! The registry does no input or output itself. It answers a request with a [`Step`]: a reply,
//! or something to be done outside, together with what it is waiting for. Whoever does that
//! hands the outcome back, and gets the next step.

use vstd::prelude::*;

use crate::db::{ManifestRow, ManifestRowView, Query, QueryView};
use crate::reply::{Reply, ReplyView};

verus! {

/// The two ways in which the registry runs.
#[derive(Debug, Clone, Copy, PartialEq, Eq, Structural)]
pub enum Edition {
    /// A server of its own, with S3 and SQLite.
    Standalone,
    /// A Cloudflare Worker, with R2 and D1.
    Worker,
}

/// The methods of requests.
#[derive(Debug, Clone, Copy, PartialEq, Eq, Structural)]
pub enum Method {
    Get,
    Head,
    Put,
    Post,
    Patch,
    Delete,
    Other,
}

/// What the registry reads of a request.
#[derive(Debug)]
pub struct Request {
    pub method: Method,
    /// The path: below `/v2/` for [`Edition::Standalone`], the whole path for
    /// [`Edition::Worker`].
    pub path: String,
    /// The `Authorization` header.
    pub authorization: Option<String>,
    /// The `Content-Type` header.
    pub content_type: Option<String>,
    /// The query parameter `mount`.
    pub mount: Option<String>,
    /// The query parameter `digest`.
    pub digest: Option<String>,
    pub body: Vec<u8>,
}

/// What a [`Request`] holds.
pub struct RequestView {
    pub method: Method,
    pub path: Seq<char>,
    pub authorization: Option<Seq<char>>,
    pub content_type: Option<Seq<char>>,
    pub mount: Option<Seq<char>>,
    pub digest: Option<Seq<char>>,
    pub body: Seq<u8>,
}

impl DeepView for Request {
    type V = RequestView;

    open spec fn deep_view(&self) -> RequestView {
        RequestView {
            method: self.method,
            path: self.path@,
            authorization: self.authorization.deep_view(),
            content_type: self.content_type.deep_view(),
            mount: self.mount.deep_view(),
            digest: self.digest.deep_view(),
            body: self.body@,
        }
    }
}

/// The parts of a request that are read only where they are wanted.
#[derive(Debug, Clone, Copy, PartialEq, Eq, Structural)]
pub enum Part {
    ContentType,
    Mount,
    Digest,
    Body,
}

/// The settings that requests are answered by.
#[derive(Debug)]
pub struct Registry {
    pub edition: Edition,
    /// The token that requests have to carry, if any.
    pub auth_token: Option<String>,
    /// The base URL below which objects can be downloaded, if any.
    pub public_url: Option<String>,
}

/// What a [`Registry`] holds.
pub struct RegistryView {
    pub edition: Edition,
    pub auth_token: Option<Seq<char>>,
    pub public_url: Option<Seq<char>>,
}

impl DeepView for Registry {
    type V = RegistryView;

    open spec fn deep_view(&self) -> RegistryView {
        RegistryView {
            edition: self.edition,
            auth_token: self.auth_token.deep_view(),
            public_url: self.public_url.deep_view(),
        }
    }
}

/// What a manifest is looked up for.
#[derive(Debug)]
pub enum ManifestPurpose {
    Get,
    Head,
    Delete { reference: String },
}

/// What a [`ManifestPurpose`] holds.
pub enum ManifestPurposeView {
    Get,
    Head,
    Delete { reference: Seq<char> },
}

impl DeepView for ManifestPurpose {
    type V = ManifestPurposeView;

    open spec fn deep_view(&self) -> ManifestPurposeView {
        match *self {
            ManifestPurpose::Get => ManifestPurposeView::Get,
            ManifestPurpose::Head => ManifestPurposeView::Head,
            ManifestPurpose::Delete { reference } => ManifestPurposeView::Delete {
                reference: reference@,
            },
        }
    }
}

/// What a blob is looked up for.
#[derive(Debug, Clone, Copy, PartialEq, Eq, Structural)]
pub enum BlobPurpose {
    Get,
    Head,
    Delete,
}

/// Waiting for the digest behind a tag, or for the metadata of a manifest.
#[derive(Debug)]
pub struct ManifestWanted {
    pub repo: String,
    pub purpose: ManifestPurpose,
}

/// What a [`ManifestWanted`] holds.
pub struct ManifestWantedView {
    pub repo: Seq<char>,
    pub purpose: ManifestPurposeView,
}

impl DeepView for ManifestWanted {
    type V = ManifestWantedView;

    open spec fn deep_view(&self) -> ManifestWantedView {
        ManifestWantedView { repo: self.repo@, purpose: self.purpose.deep_view() }
    }
}

/// Waiting for the metadata of an upload.
#[derive(Debug)]
pub enum UploadWanted {
    Status { repo: String, uuid: String },
    Patch { repo: String, uuid: String, data: Vec<u8> },
    Complete { repo: String, uuid: String, digest: String, data: Vec<u8> },
}

/// What an [`UploadWanted`] holds.
pub enum UploadWantedView {
    Status { repo: Seq<char>, uuid: Seq<char> },
    Patch { repo: Seq<char>, uuid: Seq<char>, data: Seq<u8> },
    Complete { repo: Seq<char>, uuid: Seq<char>, digest: Seq<char>, data: Seq<u8> },
}

impl DeepView for UploadWanted {
    type V = UploadWantedView;

    open spec fn deep_view(&self) -> UploadWantedView {
        match *self {
            UploadWanted::Status { repo, uuid } => UploadWantedView::Status {
                repo: repo@,
                uuid: uuid@,
            },
            UploadWanted::Patch { repo, uuid, data } => UploadWantedView::Patch {
                repo: repo@,
                uuid: uuid@,
                data: data@,
            },
            UploadWanted::Complete { repo, uuid, digest, data } => UploadWantedView::Complete {
                repo: repo@,
                uuid: uuid@,
                digest: digest@,
                data: data@,
            },
        }
    }
}

/// Waiting for a list of names.
#[derive(Debug)]
pub enum NamesWanted {
    Tags { repo: String },
    Repositories,
}

/// What a [`NamesWanted`] holds.
pub enum NamesWantedView {
    Tags { repo: Seq<char> },
    Repositories,
}

impl DeepView for NamesWanted {
    type V = NamesWantedView;

    open spec fn deep_view(&self) -> NamesWantedView {
        match *self {
            NamesWanted::Tags { repo } => NamesWantedView::Tags { repo: repo@ },
            NamesWanted::Repositories => NamesWantedView::Repositories,
        }
    }
}

/// Waiting for the size of a blob.
#[derive(Debug)]
pub enum SizeWanted {
    Blob { digest: String, purpose: BlobPurpose },
    Mount { repo: String, digest: String },
}

/// What a [`SizeWanted`] holds.
pub enum SizeWantedView {
    Blob { digest: Seq<char>, purpose: BlobPurpose },
    Mount { repo: Seq<char>, digest: Seq<char> },
}

impl DeepView for SizeWanted {
    type V = SizeWantedView;

    open spec fn deep_view(&self) -> SizeWantedView {
        match *self {
            SizeWanted::Blob { digest, purpose } => SizeWantedView::Blob {
                digest: digest@,
                purpose,
            },
            SizeWanted::Mount { repo, digest } => SizeWantedView::Mount {
                repo: repo@,
                digest: digest@,
            },
        }
    }
}

/// Waiting for the data of an object.
#[derive(Debug)]
pub enum ObjectWanted {
    Manifest { row: ManifestRow },
    Blob { digest: String },
    Upload { repo: String, uuid: String, digest: String },
}

/// What an [`ObjectWanted`] holds.
pub enum ObjectWantedView {
    Manifest { row: ManifestRowView },
    Blob { digest: Seq<char> },
    Upload { repo: Seq<char>, uuid: Seq<char>, digest: Seq<char> },
}

impl DeepView for ObjectWanted {
    type V = ObjectWantedView;

    open spec fn deep_view(&self) -> ObjectWantedView {
        match *self {
            ObjectWanted::Manifest { row } => ObjectWantedView::Manifest { row: row.deep_view() },
            ObjectWanted::Blob { digest } => ObjectWantedView::Blob { digest: digest@ },
            ObjectWanted::Upload { repo, uuid, digest } => ObjectWantedView::Upload {
                repo: repo@,
                uuid: uuid@,
                digest: digest@,
            },
        }
    }
}

/// Waiting for the URL of a blob.
#[derive(Debug)]
pub struct UrlWanted {
    pub digest: String,
}

/// What a [`UrlWanted`] holds.
pub struct UrlWantedView {
    pub digest: Seq<char>,
}

impl DeepView for UrlWanted {
    type V = UrlWantedView;

    open spec fn deep_view(&self) -> UrlWantedView {
        UrlWantedView { digest: self.digest@ }
    }
}

/// Waiting for something to be done.
#[derive(Debug)]
pub enum DoneWanted {
    /// The content of a manifest is being stored.
    ManifestStored {
        repo: String,
        reference: String,
        digest: String,
        content_type: String,
        size: i64,
    },
    /// The metadata of a manifest is being recorded.
    ManifestRecorded { repo: String, reference: String, digest: String },
    /// The tag of a manifest is being recorded.
    TagRecorded { repo: String, digest: String },
    /// The content of a manifest is being deleted.
    ManifestDropped { repo: String, reference: String },
    /// The metadata of a manifest is being deleted.
    ManifestForgotten,
    /// A blob is being deleted.
    BlobDeleted,
    /// A new upload is being recorded.
    UploadCreated { repo: String, uuid: String },
    /// The data of an upload is being stored.
    ChunkStored { repo: String, uuid: String, length: i64 },
    /// The length of the data of an upload is being recorded.
    OffsetRecorded { repo: String, uuid: String, length: i64 },
    /// The data of a completed upload is being stored as a blob.
    BlobStored { repo: String, uuid: String, digest: String },
    /// The temporary data of a completed upload is being deleted.
    TemporaryDropped { repo: String, uuid: String, digest: String },
    /// The metadata of a completed upload is being deleted.
    UploadForgotten { repo: String, digest: String },
    /// The temporary data of a cancelled upload is being deleted.
    CancelledDropped { uuid: String },
    /// The metadata of a cancelled upload is being deleted.
    CancelledForgotten,
}

/// What a [`DoneWanted`] holds.
pub enum DoneWantedView {
    ManifestStored {
        repo: Seq<char>,
        reference: Seq<char>,
        digest: Seq<char>,
        content_type: Seq<char>,
        size: i64,
    },
    ManifestRecorded { repo: Seq<char>, reference: Seq<char>, digest: Seq<char> },
    TagRecorded { repo: Seq<char>, digest: Seq<char> },
    ManifestDropped { repo: Seq<char>, reference: Seq<char> },
    ManifestForgotten,
    BlobDeleted,
    UploadCreated { repo: Seq<char>, uuid: Seq<char> },
    ChunkStored { repo: Seq<char>, uuid: Seq<char>, length: i64 },
    OffsetRecorded { repo: Seq<char>, uuid: Seq<char>, length: i64 },
    BlobStored { repo: Seq<char>, uuid: Seq<char>, digest: Seq<char> },
    TemporaryDropped { repo: Seq<char>, uuid: Seq<char>, digest: Seq<char> },
    UploadForgotten { repo: Seq<char>, digest: Seq<char> },
    CancelledDropped { uuid: Seq<char> },
    CancelledForgotten,
}

impl DeepView for DoneWanted {
    type V = DoneWantedView;

    open spec fn deep_view(&self) -> DoneWantedView {
        match *self {
            DoneWanted::ManifestStored { repo, reference, digest, content_type, size } => {
                DoneWantedView::ManifestStored {
                    repo: repo@,
                    reference: reference@,
                    digest: digest@,
                    content_type: content_type@,
                    size,
                }
            },
            DoneWanted::ManifestRecorded { repo, reference, digest } => {
                DoneWantedView::ManifestRecorded {
                    repo: repo@,
                    reference: reference@,
                    digest: digest@,
                }
            },
            DoneWanted::TagRecorded { repo, digest } => DoneWantedView::TagRecorded {
                repo: repo@,
                digest: digest@,
            },
            DoneWanted::ManifestDropped { repo, reference } => DoneWantedView::ManifestDropped {
                repo: repo@,
                reference: reference@,
            },
            DoneWanted::ManifestForgotten => DoneWantedView::ManifestForgotten,
            DoneWanted::BlobDeleted => DoneWantedView::BlobDeleted,
            DoneWanted::UploadCreated { repo, uuid } => DoneWantedView::UploadCreated {
                repo: repo@,
                uuid: uuid@,
            },
            DoneWanted::ChunkStored { repo, uuid, length } => DoneWantedView::ChunkStored {
                repo: repo@,
                uuid: uuid@,
                length,
            },
            DoneWanted::OffsetRecorded { repo, uuid, length } => DoneWantedView::OffsetRecorded {
                repo: repo@,
                uuid: uuid@,
                length,
            },
            DoneWanted::BlobStored { repo, uuid, digest } => DoneWantedView::BlobStored {
                repo: repo@,
                uuid: uuid@,
                digest: digest@,
            },
            DoneWanted::TemporaryDropped { repo, uuid, digest } => {
                DoneWantedView::TemporaryDropped { repo: repo@, uuid: uuid@, digest: digest@ }
            },
            DoneWanted::UploadForgotten { repo, digest } => DoneWantedView::UploadForgotten {
                repo: repo@,
                digest: digest@,
            },
            DoneWanted::CancelledDropped { uuid } => DoneWantedView::CancelledDropped {
                uuid: uuid@,
            },
            DoneWanted::CancelledForgotten => DoneWantedView::CancelledForgotten,
        }
    }
}

/// The next step in the work on a request.
#[allow(inconsistent_fields)]
#[derive(Debug)]
pub enum Step {
    /// Send this reply; the work is done.
    Reply(Reply),
    /// Fail with this message; the work is done.
    Raise(String),
    /// Ask the database for the digest behind a tag.
    FindTag { query: Query, then: ManifestWanted },
    /// Ask the database for the metadata of a manifest.
    FindManifest { query: Query, then: ManifestWanted },
    /// Ask the database for the metadata of an upload.
    FindUpload { query: Query, then: UploadWanted },
    /// Ask the database for a list of names.
    ListNames { query: Query, then: NamesWanted },
    /// Change the database: by these queries in order, up to the first that fails.
    Execute { queries: Vec<Query>, then: DoneWanted },
    /// Ask the store for the size of an object.
    HeadObject { key: String, then: SizeWanted },
    /// Ask the store for the data of an object.
    GetObject { key: String, then: ObjectWanted },
    /// Store an object.
    PutObject { key: String, content_type: Option<String>, data: Vec<u8>, then: DoneWanted },
    /// Delete an object.
    DeleteObject { key: String, then: DoneWanted },
    /// Ask the store for a URL from which an object can be downloaded for a while.
    PresignObject { key: String, then: UrlWanted },
}

/// What a [`Step`] holds.
#[allow(inconsistent_fields)]
pub enum StepView {
    Reply(ReplyView),
    Raise(Seq<char>),
    FindTag { query: QueryView, then: ManifestWantedView },
    FindManifest { query: QueryView, then: ManifestWantedView },
    FindUpload { query: QueryView, then: UploadWantedView },
    ListNames { query: QueryView, then: NamesWantedView },
    Execute { queries: Seq<QueryView>, then: DoneWantedView },
    HeadObject { key: Seq<char>, then: SizeWantedView },
    GetObject { key: Seq<char>, then: ObjectWantedView },
    PutObject {
        key: Seq<char>,
        content_type: Option<Seq<char>>,
        data: Seq<u8>,
        then: DoneWantedView,
    },
    DeleteObject { key: Seq<char>, then: DoneWantedView },
    PresignObject { key: Seq<char>, then: UrlWantedView },
}

impl DeepView for Step {
    type V = StepView;

    open spec fn deep_view(&self) -> StepView {
        match *self {
            Step::Reply(reply) => StepView::Reply(reply.deep_view()),
            Step::Raise(message) => StepView::Raise(message@),
            Step::FindTag { query, then } => StepView::FindTag {
                query: query.deep_view(),
                then: then.deep_view(),
            },
            Step::FindManifest { query, then } => StepView::FindManifest {
                query: query.deep_view(),
                then: then.deep_view(),
            },
            Step::FindUpload { query, then } => StepView::FindUpload {
                query: query.deep_view(),
                then: then.deep_view(),
            },
            Step::ListNames { query, then } => StepView::ListNames {
                query: query.deep_view(),
                then: then.deep_view(),
            },
            Step::Execute { queries, then } => StepView::Execute {
                queries: queries.deep_view(),
                then: then.deep_view(),
            },
            Step::HeadObject { key, then } => StepView::HeadObject {
                key: key@,
                then: then.deep_view(),
            },
            Step::GetObject { key, then } => StepView::GetObject {
                key: key@,
                then: then.deep_view(),
            },
            Step::PutObject { key, content_type, data, then } => StepView::PutObject {
                key: key@,
                content_type: content_type.deep_view(),
                data: data@,
                then: then.deep_view(),
            },
            Step::DeleteObject { key, then } => StepView::DeleteObject {
                key: key@,
                then: then.deep_view(),
            },
            Step::PresignObject { key, then } => StepView::PresignObject {
                key: key@,
                then: then.deep_view(),
            },
        }
    }
}

/// What came back from outside: an answer, or the message of a failure.
pub open spec fn answer_view<T: DeepView>(answer: Result<T, String>) -> Result<T::V, Seq<char>> {
    match answer {
        Ok(value) => Ok(value.deep_view()),
        Err(message) => Err(message@),
    }
}

/// Whether something was done, or the message of its failure.
pub open spec fn done_view(done: Result<(), String>) -> Result<(), Seq<char>> {
    match done {
        Ok(()) => Ok(()),
        Err(message) => Err(message@),
    }
}

/// The data of an object, if there is one, or the message of a failure.
pub open spec fn object_view(
    answer: Result<Option<Vec<u8>>, String>,
) -> Result<Option<Seq<u8>>, Seq<char>> {
    match answer {
        Ok(Some(data)) => Ok(Some(data@)),
        Ok(None) => Ok(None),
        Err(message) => Err(message@),
    }
}

/// What a request holds tells it apart from any other.
pub proof fn law_requests_are_told_apart(one: Request, other: Request)
    requires
        one.deep_view() == other.deep_view(),
    ensures
        one.method == other.method,
        one.path@ == other.path@,
        same_option(one.authorization, other.authorization),
        same_option(one.content_type, other.content_type),
        same_option(one.mount, other.mount),
        same_option(one.digest, other.digest),
        one.body@ == other.body@,
{
    let held = one.deep_view();
    let same = other.deep_view();
    assert(held.authorization == same.authorization);
    assert(held.content_type == same.content_type);
    assert(held.mount == same.mount);
    assert(held.digest == same.digest);
}

/// Whether two optional texts are the same.
pub open spec fn same_option(one: Option<String>, other: Option<String>) -> bool {
    match (one, other) {
        (Some(a), Some(b)) => a@ == b@,
        (None, None) => true,
        _ => false,
    }
}

/// What the settings of a registry hold tells them apart from any others.
pub proof fn law_settings_are_told_apart(one: Registry, other: Registry)
    requires
        one.deep_view() == other.deep_view(),
    ensures
        one.edition == other.edition,
        same_option(one.auth_token, other.auth_token),
        same_option(one.public_url, other.public_url),
{
    let held = one.deep_view();
    let same = other.deep_view();
    assert(held.auth_token == same.auth_token);
    assert(held.public_url == same.public_url);
}

} // verus!
