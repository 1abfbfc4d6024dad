//! Requests on blobs.

use vstd::prelude::*;

use crate::keys;
use crate::keys::blob_key;
use crate::manifests;
use crate::manifests::failure;
use crate::responses;
use crate::responses::public_url;
use crate::step;
use crate::step::{
    BlobPurpose, DoneWanted, DoneWantedView, Edition, ObjectWanted, ObjectWantedView, Registry,
    RegistryView, SizeWanted, SizeWantedView, Step, StepView, UrlWanted, UrlWantedView,
};

verus! {

/// The base URL below which blobs can be downloaded. For a worker an empty one is as good as
/// none.
pub open spec fn download_base(registry: RegistryView) -> Option<Seq<char>> {
    match registry.public_url {
        Some(base) => if registry.edition == Edition::Worker && base.len() == 0 {
            None
        } else {
            Some(base)
        },
        None => None,
    }
}

/// The start of a request on a blob: whether it is there, and how large.
pub open spec fn find_blob_step(digest: Seq<char>, purpose: BlobPurpose) -> StepView {
    StepView::HeadObject {
        key: keys::blob_key_spec(digest),
        then: SizeWantedView::Blob { digest, purpose },
    }
}

/// Once it is known where a blob can be downloaded, the client is sent there.
///
/// Where there is no base URL, a standalone registry asks for a URL, and a worker sends the
/// content itself.
pub open spec fn send_blob_step(registry: RegistryView, digest: Seq<char>) -> StepView {
    let key = keys::blob_key_spec(digest);
    match download_base(registry) {
        Some(base) => StepView::Reply(
            responses::blob_redirect_reply(responses::public_url_spec(base, key), digest),
        ),
        None => if registry.edition == Edition::Standalone {
            StepView::PresignObject { key, then: UrlWantedView { digest } }
        } else {
            StepView::GetObject { key, then: ObjectWantedView::Blob { digest } }
        },
    }
}

/// Once it is known whether a blob is there, it is served or deleted.
pub open spec fn after_blob_size_step(
    registry: RegistryView,
    digest: Seq<char>,
    purpose: BlobPurpose,
    answer: Result<Option<i64>, Seq<char>>,
) -> StepView {
    match answer {
        Ok(Some(size)) => match purpose {
            BlobPurpose::Get => send_blob_step(registry, digest),
            BlobPurpose::Head => StepView::Reply(responses::blob_head_reply(digest, size)),
            BlobPurpose::Delete => StepView::DeleteObject {
                key: keys::blob_key_spec(digest),
                then: DoneWantedView::BlobDeleted,
            },
        },
        Ok(None) => StepView::Reply(
            responses::blob_unknown_reply(registry.edition, purpose == BlobPurpose::Delete),
        ),
        Err(message) => manifests::failure_step(registry.edition, message),
    }
}

/// Once the URL of a blob is there, the client is sent there.
pub open spec fn after_url_step(
    registry: RegistryView,
    then: UrlWantedView,
    answer: Result<Seq<char>, Seq<char>>,
) -> StepView {
    match answer {
        Ok(url) => StepView::Reply(responses::blob_redirect_reply(url, then.digest)),
        Err(message) => manifests::failure_step(registry.edition, message),
    }
}

/// Once the content of a blob is there, it is the reply.
pub open spec fn after_blob_content_step(
    registry: RegistryView,
    digest: Seq<char>,
    answer: Result<Option<Seq<u8>>, Seq<char>>,
) -> StepView {
    match answer {
        Ok(Some(data)) => StepView::Reply(responses::blob_reply(digest, data)),
        Ok(None) => manifests::failure_step(registry.edition, "blob not found"@),
        Err(message) => manifests::failure_step(registry.edition, message),
    }
}

impl Registry {
    /// Starts a request on a blob.
    fn find_blob(&self, digest: String, purpose: BlobPurpose) -> (step: Step)
        ensures
            step.deep_view() == find_blob_step(digest@, purpose),
    {
        let key = blob_key(&digest);
        Step::HeadObject { key, then: SizeWanted::Blob { digest, purpose } }
    }

    /// Sends the client to where a blob can be downloaded.
    pub fn get_blob(&self, digest: String) -> (step: Step)
        ensures
            step.deep_view() == find_blob_step(digest@, BlobPurpose::Get),
    {
        self.find_blob(digest, BlobPurpose::Get)
    }

    /// Serves the size of a blob.
    pub fn head_blob(&self, digest: String) -> (step: Step)
        ensures
            step.deep_view() == find_blob_step(digest@, BlobPurpose::Head),
    {
        self.find_blob(digest, BlobPurpose::Head)
    }

    /// Deletes a blob.
    pub fn delete_blob(&self, digest: String) -> (step: Step)
        ensures
            step.deep_view() == find_blob_step(digest@, BlobPurpose::Delete),
    {
        self.find_blob(digest, BlobPurpose::Delete)
    }

    /// Sends a blob that is there.
    fn send_blob(&self, digest: String) -> (step: Step)
        ensures
            step.deep_view() == send_blob_step(self.deep_view(), digest@),
    {
        let key = blob_key(&digest);
        if let Some(base) = &self.public_url {
            if self.edition == Edition::Standalone || !base.as_str().is_empty() {
                let url = public_url(base, &key);
                return Step::Reply(responses::blob_redirect(&url, &digest));
            }
        }
        match self.edition {
            Edition::Standalone => Step::PresignObject { key, then: UrlWanted { digest } },
            Edition::Worker => Step::GetObject { key, then: ObjectWanted::Blob { digest } },
        }
    }

    /// Goes on with the size of a blob.
    pub(crate) fn after_blob_size(
        &self,
        digest: String,
        purpose: BlobPurpose,
        answer: Result<Option<i64>, String>,
    ) -> (step: Step)
        ensures
            step.deep_view() == after_blob_size_step(
                self.deep_view(),
                digest@,
                purpose,
                step::answer_view(answer),
            ),
    {
        match answer {
            Ok(Some(size)) => match purpose {
                BlobPurpose::Get => self.send_blob(digest),
                BlobPurpose::Head => Step::Reply(responses::blob_head(&digest, size)),
                BlobPurpose::Delete => {
                    let key = blob_key(&digest);
                    Step::DeleteObject { key, then: DoneWanted::BlobDeleted }
                },
            },
            Ok(None) => Step::Reply(
                responses::blob_unknown(self.edition, purpose == BlobPurpose::Delete),
            ),
            Err(message) => failure(self.edition, message),
        }
    }

    /// Goes on with the URL of a blob.
    pub fn after_url(&self, then: UrlWanted, answer: Result<String, String>) -> (step: Step)
        ensures
            step.deep_view() == after_url_step(
                self.deep_view(),
                then.deep_view(),
                step::answer_view(answer),
            ),
    {
        match answer {
            Ok(url) => Step::Reply(responses::blob_redirect(&url, &then.digest)),
            Err(message) => failure(self.edition, message),
        }
    }

    /// Goes on with the content of a blob.
    pub(crate) fn after_blob_content(
        &self,
        digest: String,
        answer: Result<Option<Vec<u8>>, String>,
    ) -> (step: Step)
        ensures
            step.deep_view() == after_blob_content_step(
                self.deep_view(),
                digest@,
                step::object_view(answer),
            ),
    {
        match answer {
            Ok(Some(data)) => Step::Reply(responses::blob_found(&digest, data)),
            Ok(None) => failure(self.edition, "blob not found".to_owned()),
            Err(message) => failure(self.edition, message),
        }
    }
}

} // verus!
