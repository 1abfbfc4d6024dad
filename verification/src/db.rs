//! Metadata: what is asked of the SQLite database.
//!
//! Its tables:
//!   tags      — (repo, tag) → digest
//!   manifests — (repo, digest) → content_type, size
//!   uploads   — uuid → (repo, offset) for in-progress blob uploads

use vstd::prelude::*;

use crate::text;
use crate::text::starts_with;

verus! {

/// Creates the table of tags.
pub const CREATE_TAGS: &'static str =
    "CREATE TABLE IF NOT EXISTS tags (
    repo    TEXT NOT NULL,
    tag     TEXT NOT NULL,
    digest  TEXT NOT NULL,
    created INTEGER NOT NULL DEFAULT (strftime('%s','now')),
    PRIMARY KEY (repo, tag)
)";

/// Creates the table of manifests.
pub const CREATE_MANIFESTS: &'static str =
    "CREATE TABLE IF NOT EXISTS manifests (
    repo         TEXT NOT NULL,
    digest       TEXT NOT NULL,
    content_type TEXT NOT NULL,
    size         INTEGER NOT NULL,
    created      INTEGER NOT NULL DEFAULT (strftime('%s','now')),
    PRIMARY KEY (repo, digest)
)";

/// Creates the table of uploads in progress.
pub const CREATE_UPLOADS: &'static str =
    "CREATE TABLE IF NOT EXISTS uploads (
    uuid    TEXT PRIMARY KEY,
    repo    TEXT NOT NULL,
    offset  INTEGER NOT NULL DEFAULT 0,
    created INTEGER NOT NULL DEFAULT (strftime('%s','now'))
)";

/// The metadata of a manifest.
#[derive(Debug)]
pub struct ManifestRow {
    pub digest: String,
    pub content_type: String,
    pub size: i64,
}

/// The metadata of an upload.
#[derive(Debug)]
pub struct UploadRow {
    pub repo: String,
    pub offset: i64,
}

/// What a [`ManifestRow`] holds.
pub struct ManifestRowView {
    pub digest: Seq<char>,
    pub content_type: Seq<char>,
    pub size: i64,
}

/// What an [`UploadRow`] holds.
pub struct UploadRowView {
    pub repo: Seq<char>,
    pub offset: i64,
}

impl DeepView for ManifestRow {
    type V = ManifestRowView;

    open spec fn deep_view(&self) -> ManifestRowView {
        ManifestRowView {
            digest: self.digest@,
            content_type: self.content_type@,
            size: self.size,
        }
    }
}

impl DeepView for UploadRow {
    type V = UploadRowView;

    open spec fn deep_view(&self) -> UploadRowView {
        UploadRowView { repo: self.repo@, offset: self.offset }
    }
}

/// A question to the database, or a change of it.
#[derive(Debug)]
pub enum Query {
    /// The digest behind a tag.
    FindTag { repo: String, tag: String },
    /// The metadata of a manifest.
    FindManifest { repo: String, digest: String },
    /// The metadata of an upload.
    FindUpload { uuid: String },
    /// The tags of a repository, in order.
    ListTags { repo: String },
    /// The repositories that hold a manifest, in order and each once.
    ListRepos,
    /// Records a manifest, in place of one with the same repository and digest.
    PutManifest { repo: String, digest: String, content_type: String, size: i64 },
    /// Points a tag at a digest, in place of what it pointed at.
    PutTag { repo: String, tag: String, digest: String },
    /// Forgets a manifest.
    DeleteManifest { repo: String, digest: String },
    /// Forgets the tags that point at a digest.
    DeleteTagsOf { repo: String, digest: String },
    /// Forgets a tag.
    DeleteTag { repo: String, tag: String },
    /// Records an upload that has received nothing.
    CreateUpload { uuid: String, repo: String },
    /// Records how much an upload has received.
    UpdateUpload { uuid: String, offset: i64 },
    /// Forgets an upload.
    DeleteUpload { uuid: String },
}

/// What a [`Query`] holds.
pub enum QueryView {
    FindTag { repo: Seq<char>, tag: Seq<char> },
    FindManifest { repo: Seq<char>, digest: Seq<char> },
    FindUpload { uuid: Seq<char> },
    ListTags { repo: Seq<char> },
    ListRepos,
    PutManifest { repo: Seq<char>, digest: Seq<char>, content_type: Seq<char>, size: i64 },
    PutTag { repo: Seq<char>, tag: Seq<char>, digest: Seq<char> },
    DeleteManifest { repo: Seq<char>, digest: Seq<char> },
    DeleteTagsOf { repo: Seq<char>, digest: Seq<char> },
    DeleteTag { repo: Seq<char>, tag: Seq<char> },
    CreateUpload { uuid: Seq<char>, repo: Seq<char> },
    UpdateUpload { uuid: Seq<char>, offset: i64 },
    DeleteUpload { uuid: Seq<char> },
}

impl DeepView for Query {
    type V = QueryView;

    open spec fn deep_view(&self) -> QueryView {
        match *self {
            Query::FindTag { repo, tag } => QueryView::FindTag { repo: repo@, tag: tag@ },
            Query::FindManifest { repo, digest } => QueryView::FindManifest {
                repo: repo@,
                digest: digest@,
            },
            Query::FindUpload { uuid } => QueryView::FindUpload { uuid: uuid@ },
            Query::ListTags { repo } => QueryView::ListTags { repo: repo@ },
            Query::ListRepos => QueryView::ListRepos,
            Query::PutManifest { repo, digest, content_type, size } => QueryView::PutManifest {
                repo: repo@,
                digest: digest@,
                content_type: content_type@,
                size,
            },
            Query::PutTag { repo, tag, digest } => QueryView::PutTag {
                repo: repo@,
                tag: tag@,
                digest: digest@,
            },
            Query::DeleteManifest { repo, digest } => QueryView::DeleteManifest {
                repo: repo@,
                digest: digest@,
            },
            Query::DeleteTagsOf { repo, digest } => QueryView::DeleteTagsOf {
                repo: repo@,
                digest: digest@,
            },
            Query::DeleteTag { repo, tag } => QueryView::DeleteTag { repo: repo@, tag: tag@ },
            Query::CreateUpload { uuid, repo } => QueryView::CreateUpload {
                uuid: uuid@,
                repo: repo@,
            },
            Query::UpdateUpload { uuid, offset } => QueryView::UpdateUpload {
                uuid: uuid@,
                offset,
            },
            Query::DeleteUpload { uuid } => QueryView::DeleteUpload { uuid: uuid@ },
        }
    }
}

/// A value that is bound to a placeholder of a statement.
#[derive(Debug)]
pub enum Bind {
    Text(String),
    Integer(i64),
}

/// What a [`Bind`] holds.
pub enum BindView {
    Text(Seq<char>),
    Integer(i64),
}

impl DeepView for Bind {
    type V = BindView;

    open spec fn deep_view(&self) -> BindView {
        match *self {
            Bind::Text(text) => BindView::Text(text@),
            Bind::Integer(n) => BindView::Integer(n),
        }
    }
}

/// The SQL of a query.
pub open spec fn sql_spec(query: QueryView) -> Seq<char> {
    match query {
        QueryView::FindTag { .. } => "SELECT digest FROM tags WHERE repo = ? AND tag = ?"@,
        QueryView::FindManifest { .. } => {
            "SELECT digest, content_type, size FROM manifests WHERE repo = ? AND digest = ?"@
        },
        QueryView::FindUpload { .. } => "SELECT repo, offset FROM uploads WHERE uuid = ?"@,
        QueryView::ListTags { .. } => "SELECT tag FROM tags WHERE repo = ? ORDER BY tag"@,
        QueryView::ListRepos => "SELECT DISTINCT repo FROM manifests ORDER BY repo"@,
        QueryView::PutManifest { .. } => {
            "INSERT OR REPLACE INTO manifests (repo, digest, content_type, size) VALUES (?, ?, ?, ?)"@
        },
        QueryView::PutTag { .. } => {
            "INSERT OR REPLACE INTO tags (repo, tag, digest) VALUES (?, ?, ?)"@
        },
        QueryView::DeleteManifest { .. } => "DELETE FROM manifests WHERE repo = ? AND digest = ?"@,
        QueryView::DeleteTagsOf { .. } => "DELETE FROM tags WHERE repo = ? AND digest = ?"@,
        QueryView::DeleteTag { .. } => "DELETE FROM tags WHERE repo = ? AND tag = ?"@,
        QueryView::CreateUpload { .. } => {
            "INSERT INTO uploads (uuid, repo, offset) VALUES (?, ?, 0)"@
        },
        QueryView::UpdateUpload { .. } => "UPDATE uploads SET offset = ? WHERE uuid = ?"@,
        QueryView::DeleteUpload { .. } => "DELETE FROM uploads WHERE uuid = ?"@,
    }
}

/// The values of the placeholders of a query, in order.
pub open spec fn binds_spec(query: QueryView) -> Seq<BindView> {
    match query {
        QueryView::FindTag { repo, tag } => seq![BindView::Text(repo), BindView::Text(tag)],
        QueryView::FindManifest { repo, digest } => {
            seq![BindView::Text(repo), BindView::Text(digest)]
        },
        QueryView::FindUpload { uuid } => seq![BindView::Text(uuid)],
        QueryView::ListTags { repo } => seq![BindView::Text(repo)],
        QueryView::ListRepos => Seq::empty(),
        QueryView::PutManifest { repo, digest, content_type, size } => seq![
            BindView::Text(repo),
            BindView::Text(digest),
            BindView::Text(content_type),
            BindView::Integer(size),
        ],
        QueryView::PutTag { repo, tag, digest } => seq![
            BindView::Text(repo),
            BindView::Text(tag),
            BindView::Text(digest),
        ],
        QueryView::DeleteManifest { repo, digest } => {
            seq![BindView::Text(repo), BindView::Text(digest)]
        },
        QueryView::DeleteTagsOf { repo, digest } => {
            seq![BindView::Text(repo), BindView::Text(digest)]
        },
        QueryView::DeleteTag { repo, tag } => seq![BindView::Text(repo), BindView::Text(tag)],
        QueryView::CreateUpload { uuid, repo } => seq![BindView::Text(uuid), BindView::Text(repo)],
        QueryView::UpdateUpload { uuid, offset } => {
            seq![BindView::Integer(offset), BindView::Text(uuid)]
        },
        QueryView::DeleteUpload { uuid } => seq![BindView::Text(uuid)],
    }
}

/// Adds a text behind the other values.
fn bind_text(binds: &mut Vec<Bind>, text: &str)
    ensures
        final(binds).deep_view() == old(binds).deep_view().push(BindView::Text(text@)),
{
    binds.push(Bind::Text(text.to_owned()));
    assert(binds.deep_view() =~= old(binds).deep_view().push(BindView::Text(text@)));
}

/// Adds an integer behind the other values.
fn bind_integer(binds: &mut Vec<Bind>, n: i64)
    ensures
        final(binds).deep_view() == old(binds).deep_view().push(BindView::Integer(n)),
{
    binds.push(Bind::Integer(n));
    assert(binds.deep_view() =~= old(binds).deep_view().push(BindView::Integer(n)));
}

impl Query {
    /// The SQL of the query.
    pub fn sql(&self) -> (res: &'static str)
        ensures
            res@ == sql_spec(self.deep_view()),
    {
        match self {
            Query::FindTag { .. } => "SELECT digest FROM tags WHERE repo = ? AND tag = ?",
            Query::FindManifest { .. } => {
                "SELECT digest, content_type, size FROM manifests WHERE repo = ? AND digest = ?"
            },
            Query::FindUpload { .. } => "SELECT repo, offset FROM uploads WHERE uuid = ?",
            Query::ListTags { .. } => "SELECT tag FROM tags WHERE repo = ? ORDER BY tag",
            Query::ListRepos => "SELECT DISTINCT repo FROM manifests ORDER BY repo",
            Query::PutManifest { .. } => {
                "INSERT OR REPLACE INTO manifests (repo, digest, content_type, size) VALUES (?, ?, ?, ?)"
            },
            Query::PutTag { .. } => {
                "INSERT OR REPLACE INTO tags (repo, tag, digest) VALUES (?, ?, ?)"
            },
            Query::DeleteManifest { .. } => "DELETE FROM manifests WHERE repo = ? AND digest = ?",
            Query::DeleteTagsOf { .. } => "DELETE FROM tags WHERE repo = ? AND digest = ?",
            Query::DeleteTag { .. } => "DELETE FROM tags WHERE repo = ? AND tag = ?",
            Query::CreateUpload { .. } => {
                "INSERT INTO uploads (uuid, repo, offset) VALUES (?, ?, 0)"
            },
            Query::UpdateUpload { .. } => "UPDATE uploads SET offset = ? WHERE uuid = ?",
            Query::DeleteUpload { .. } => "DELETE FROM uploads WHERE uuid = ?",
        }
    }

    /// The values of the placeholders of the query, in order.
    pub fn binds(&self) -> (res: Vec<Bind>)
        ensures
            res.deep_view() == binds_spec(self.deep_view()),
    {
        let mut binds: Vec<Bind> = Vec::new();
        assert(binds.deep_view() =~= Seq::<BindView>::empty());
        match self {
            Query::FindTag { repo, tag } => {
                bind_text(&mut binds, repo);
                bind_text(&mut binds, tag);
            },
            Query::FindManifest { repo, digest } => {
                bind_text(&mut binds, repo);
                bind_text(&mut binds, digest);
            },
            Query::FindUpload { uuid } => {
                bind_text(&mut binds, uuid);
            },
            Query::ListTags { repo } => {
                bind_text(&mut binds, repo);
            },
            Query::ListRepos => {},
            Query::PutManifest { repo, digest, content_type, size } => {
                bind_text(&mut binds, repo);
                bind_text(&mut binds, digest);
                bind_text(&mut binds, content_type);
                bind_integer(&mut binds, *size);
            },
            Query::PutTag { repo, tag, digest } => {
                bind_text(&mut binds, repo);
                bind_text(&mut binds, tag);
                bind_text(&mut binds, digest);
            },
            Query::DeleteManifest { repo, digest } => {
                bind_text(&mut binds, repo);
                bind_text(&mut binds, digest);
            },
            Query::DeleteTagsOf { repo, digest } => {
                bind_text(&mut binds, repo);
                bind_text(&mut binds, digest);
            },
            Query::DeleteTag { repo, tag } => {
                bind_text(&mut binds, repo);
                bind_text(&mut binds, tag);
            },
            Query::CreateUpload { uuid, repo } => {
                bind_text(&mut binds, uuid);
                bind_text(&mut binds, repo);
            },
            Query::UpdateUpload { uuid, offset } => {
                bind_integer(&mut binds, *offset);
                bind_text(&mut binds, uuid);
            },
            Query::DeleteUpload { uuid } => {
                bind_text(&mut binds, uuid);
            },
        }
        binds
    }
}

/// Whether a reference is a digest rather than a tag.
pub open spec fn is_digest_spec(reference: Seq<char>) -> bool {
    text::has_prefix(reference, "sha256:"@)
}

/// Whether a reference is a digest rather than a tag.
pub fn is_digest(reference: &str) -> (res: bool)
    ensures
        res == is_digest_spec(reference@),
{
    starts_with(reference, "sha256:")
}

/// The first question for a manifest: by digest, its metadata; by tag, the digest behind it.
pub open spec fn get_manifest_spec(repo: Seq<char>, reference: Seq<char>) -> QueryView {
    if is_digest_spec(reference) {
        QueryView::FindManifest { repo, digest: reference }
    } else {
        QueryView::FindTag { repo, tag: reference }
    }
}

/// Looks up a manifest by digest or tag.
pub fn get_manifest(repo: &str, reference: &str) -> (query: Query)
    ensures
        query.deep_view() == get_manifest_spec(repo@, reference@),
{
    if is_digest(reference) {
        Query::FindManifest { repo: repo.to_owned(), digest: reference.to_owned() }
    } else {
        Query::FindTag { repo: repo.to_owned(), tag: reference.to_owned() }
    }
}

/// What forgetting a manifest takes: by digest, the manifest and the tags that point at it; by
/// tag, the tag alone.
pub open spec fn delete_manifest_spec(repo: Seq<char>, reference: Seq<char>) -> Seq<QueryView> {
    if is_digest_spec(reference) {
        seq![
            QueryView::DeleteManifest { repo, digest: reference },
            QueryView::DeleteTagsOf { repo, digest: reference },
        ]
    } else {
        seq![QueryView::DeleteTag { repo, tag: reference }]
    }
}

/// Forgets a manifest by digest, or a tag.
pub fn delete_manifest(repo: &str, reference: &str) -> (queries: Vec<Query>)
    ensures
        queries.deep_view() == delete_manifest_spec(repo@, reference@),
{
    let mut queries: Vec<Query> = Vec::new();
    if is_digest(reference) {
        queries.push(
            Query::DeleteManifest { repo: repo.to_owned(), digest: reference.to_owned() },
        );
        queries.push(Query::DeleteTagsOf { repo: repo.to_owned(), digest: reference.to_owned() });
    } else {
        queries.push(Query::DeleteTag { repo: repo.to_owned(), tag: reference.to_owned() });
    }
    assert(queries.deep_view() =~= delete_manifest_spec(repo@, reference@));
    queries
}

/// Records a manifest.
pub fn put_manifest(repo: &str, digest: &str, content_type: &str, size: i64) -> (query: Query)
    ensures
        query.deep_view() == (QueryView::PutManifest {
            repo: repo@,
            digest: digest@,
            content_type: content_type@,
            size,
        }),
{
    Query::PutManifest {
        repo: repo.to_owned(),
        digest: digest.to_owned(),
        content_type: content_type.to_owned(),
        size,
    }
}

/// Points a tag at a digest.
pub fn put_tag(repo: &str, tag: &str, digest: &str) -> (query: Query)
    ensures
        query.deep_view() == (QueryView::PutTag { repo: repo@, tag: tag@, digest: digest@ }),
{
    Query::PutTag { repo: repo.to_owned(), tag: tag.to_owned(), digest: digest.to_owned() }
}

/// Lists the tags of a repository.
pub fn list_tags(repo: &str) -> (query: Query)
    ensures
        query.deep_view() == (QueryView::ListTags { repo: repo@ }),
{
    Query::ListTags { repo: repo.to_owned() }
}

/// Lists the repositories.
pub fn list_repos() -> (query: Query)
    ensures
        query.deep_view() == QueryView::ListRepos,
{
    Query::ListRepos
}

/// Records an upload that has received nothing.
pub fn create_upload(uuid: &str, repo: &str) -> (query: Query)
    ensures
        query.deep_view() == (QueryView::CreateUpload { uuid: uuid@, repo: repo@ }),
{
    Query::CreateUpload { uuid: uuid.to_owned(), repo: repo.to_owned() }
}

/// Looks up an upload.
pub fn get_upload(uuid: &str) -> (query: Query)
    ensures
        query.deep_view() == (QueryView::FindUpload { uuid: uuid@ }),
{
    Query::FindUpload { uuid: uuid.to_owned() }
}

/// Records how much an upload has received.
pub fn update_upload_offset(uuid: &str, offset: i64) -> (query: Query)
    ensures
        query.deep_view() == (QueryView::UpdateUpload { uuid: uuid@, offset }),
{
    Query::UpdateUpload { uuid: uuid.to_owned(), offset }
}

/// Forgets an upload.
pub fn delete_upload(uuid: &str) -> (query: Query)
    ensures
        query.deep_view() == (QueryView::DeleteUpload { uuid: uuid@ }),
{
    Query::DeleteUpload { uuid: uuid.to_owned() }
}

/// The URL of the database at a path: a path that already is one stands for itself, any other is
/// a file that is created if it does not exist.
pub open spec fn database_url_spec(path: Seq<char>) -> Seq<char> {
    if text::has_prefix(path, "sqlite:"@) {
        path
    } else {
        "sqlite:"@ + path + "?mode=rwc"@
    }
}

/// The URL of the database at a path.
pub fn database_url(path: &str) -> (url: String)
    ensures
        url@ == database_url_spec(path@),
{
    if starts_with(path, "sqlite:") {
        path.to_owned()
    } else {
        let mut url = "sqlite:".to_owned();
        url.append(path);
        url.append("?mode=rwc");
        url
    }
}

/// The URL of a database begins with `sqlite:`, and is its own URL. What is not yet a URL stands in
/// it unchanged, and the file is opened for reading and writing, and created where it is not there.
pub proof fn law_database_urls(path: Seq<char>)
    ensures
        ({
            let url = database_url_spec(path);
            let n = path.len() as int;
            &&& url.take(7) == "sqlite:"@
            &&& database_url_spec(url) == url
            &&& n >= 7 && path.take(7) == "sqlite:"@ ==> url == path
            &&& n < 7 || path.take(7) != "sqlite:"@ ==> {
                &&& url.subrange(7, 7 + n) == path
                &&& url.skip(7 + n) == "?mode=rwc"@
            }
        }),
{
    reveal_strlit("sqlite:");
    let url = database_url_spec(path);
    let n = path.len() as int;
    if text::has_prefix(path, "sqlite:"@) {
        assert(path.take(7) =~= path.subrange(0, 7));
    } else {
        assert(url.take(7) =~= "sqlite:"@);
        assert(url.subrange(7, 7 + n) =~= path);
        assert(url.skip(7 + n) =~= "?mode=rwc"@);
        assert(n >= 7 ==> path.take(7) =~= path.subrange(0, 7));
    }
    assert(url.subrange(0, 7) =~= url.take(7));
}

/// What a query holds tells it apart from any other.
pub proof fn law_queries_are_told_apart(one: Query, other: Query)
    requires
        one.deep_view() == other.deep_view(),
    ensures
        match (one, other) {
            (
                Query::FindTag { repo, tag },
                Query::FindTag { repo: other_repo, tag: other_tag },
            ) => repo@ == other_repo@ && tag@ == other_tag@,
            (
                Query::FindManifest { repo, digest },
                Query::FindManifest { repo: other_repo, digest: other_digest },
            ) => repo@ == other_repo@ && digest@ == other_digest@,
            (
                Query::FindUpload { uuid },
                Query::FindUpload { uuid: other_uuid },
            ) => uuid@ == other_uuid@,
            (
                Query::ListTags { repo },
                Query::ListTags { repo: other_repo },
            ) => repo@ == other_repo@,
            (
                Query::PutManifest { repo, digest, content_type, size },
                Query::PutManifest {
                    repo: other_repo,
                    digest: other_digest,
                    content_type: other_content_type,
                    size: other_size,
                },
            ) => repo@ == other_repo@ && digest@ == other_digest@
                && content_type@ == other_content_type@ && size == other_size,
            (
                Query::PutTag { repo, tag, digest },
                Query::PutTag { repo: other_repo, tag: other_tag, digest: other_digest },
            ) => repo@ == other_repo@ && tag@ == other_tag@ && digest@ == other_digest@,
            (
                Query::DeleteManifest { repo, digest },
                Query::DeleteManifest { repo: other_repo, digest: other_digest },
            ) => repo@ == other_repo@ && digest@ == other_digest@,
            (
                Query::DeleteTagsOf { repo, digest },
                Query::DeleteTagsOf { repo: other_repo, digest: other_digest },
            ) => repo@ == other_repo@ && digest@ == other_digest@,
            (
                Query::DeleteTag { repo, tag },
                Query::DeleteTag { repo: other_repo, tag: other_tag },
            ) => repo@ == other_repo@ && tag@ == other_tag@,
            (
                Query::CreateUpload { uuid, repo },
                Query::CreateUpload { uuid: other_uuid, repo: other_repo },
            ) => uuid@ == other_uuid@ && repo@ == other_repo@,
            (
                Query::UpdateUpload { uuid, offset },
                Query::UpdateUpload { uuid: other_uuid, offset: other_offset },
            ) => uuid@ == other_uuid@ && offset == other_offset,
            (
                Query::DeleteUpload { uuid },
                Query::DeleteUpload { uuid: other_uuid },
            ) => uuid@ == other_uuid@,
            (Query::ListRepos, Query::ListRepos) => true,
            _ => false,
        },
{
}

/// What a value of a placeholder and what rows hold tells them apart from any others.
pub proof fn law_values_are_told_apart(
    one: Bind,
    other: Bind,
    manifest: ManifestRow,
    other_manifest: ManifestRow,
    upload: UploadRow,
    other_upload: UploadRow,
)
    requires
        one.deep_view() == other.deep_view(),
        manifest.deep_view() == other_manifest.deep_view(),
        upload.deep_view() == other_upload.deep_view(),
    ensures
        match (one, other) {
            (Bind::Text(a), Bind::Text(b)) => a@ == b@,
            (Bind::Integer(a), Bind::Integer(b)) => a == b,
            _ => false,
        },
        manifest.digest@ == other_manifest.digest@,
        manifest.content_type@ == other_manifest.content_type@,
        manifest.size == other_manifest.size,
        upload.repo@ == other_upload.repo@,
        upload.offset == other_upload.offset,
{
}

} // verus!
