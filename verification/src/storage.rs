//! The object store: S3, or what speaks its protocol.

use vstd::prelude::*;

use crate::config::Config;
use crate::reply::OCTETS;
use crate::responses;
use crate::responses::public_url;
use crate::text;

verus! {

/// The settings of the store.
#[derive(Debug)]
pub struct S3Store {
    pub bucket: String,
    pub region: String,
    /// An endpoint other than that of AWS.
    pub endpoint: Option<String>,
    /// Whether the bucket stands in the path of URLs rather than in the host.
    pub path_style: bool,
    /// How long presigned URLs are valid, in seconds.
    pub presign_ttl_secs: u64,
    /// The base URL below which objects can be downloaded, if any.
    pub public_url: Option<String>,
}

/// An object as the store sent it.
#[derive(Debug)]
pub struct StoredObject {
    pub data: Vec<u8>,
    pub content_type: Option<String>,
}

/// A copy within the bucket.
#[derive(Debug)]
pub struct CopyOrder {
    pub bucket: String,
    /// The bucket and the key that are copied from.
    pub source: String,
    /// The key that is copied to.
    pub key: String,
}

/// How a request to the store failed.
#[derive(Debug)]
pub struct StoreFailure {
    /// The HTTP status, where the store itself refused the request.
    pub status: Option<u16>,
    /// Whether the error says that there is no such object.
    pub missing: bool,
    pub message: String,
}

/// A message with what failed in front.
pub open spec fn error_spec(what: Seq<char>, message: Seq<char>) -> Seq<char> {
    what + ": "@ + message
}

/// A message with what failed in front.
pub fn error_text(what: &str, message: &str) -> (res: String)
    ensures
        res@ == error_spec(what@, message@),
{
    let mut res = what.to_owned();
    res.append(": ");
    res.append(message);
    res
}

/// What a request to the store that brings nothing back comes to.
pub open spec fn done_result(what: Seq<char>, outcome: Result<(), String>) -> Result<
    (),
    Seq<char>,
> {
    match outcome {
        Ok(()) => Ok(()),
        Err(message) => Err(error_spec(what, message@)),
    }
}

impl S3Store {
    /// The settings of a configuration. With an endpoint of its own the bucket stands in the
    /// path, which R2 and MinIO need.
    pub fn new(cfg: &Config) -> (store: Self)
        ensures
            store.bucket@ == cfg.s3_bucket@,
            store.region@ == cfg.s3_region@,
            store.endpoint.deep_view() == cfg.s3_endpoint.deep_view(),
            store.path_style == (cfg.s3_endpoint is Some),
            store.presign_ttl_secs == cfg.presign_ttl_secs,
            store.public_url.deep_view() == cfg.s3_public_url.deep_view(),
    {
        S3Store {
            bucket: cfg.s3_bucket.clone(),
            region: cfg.s3_region.clone(),
            endpoint: cfg.s3_endpoint.clone(),
            path_style: cfg.s3_endpoint.is_some(),
            presign_ttl_secs: cfg.presign_ttl_secs,
            public_url: cfg.s3_public_url.clone(),
        }
    }

    /// What storing an object comes to.
    pub fn put(&self, outcome: Result<(), String>) -> (res: Result<(), String>)
        ensures
            crate::step::done_view(res) == done_result("S3 put error"@, outcome),
    {
        match outcome {
            Ok(()) => Ok(()),
            Err(message) => Err(error_text("S3 put error", &message)),
        }
    }

    /// What getting an object comes to: its data and content type; nothing, where there is no
    /// such object; else an error.
    pub fn get(&self, outcome: Result<StoredObject, StoreFailure>) -> (res: Result<
        Option<(Vec<u8>, String)>,
        String,
    >)
        ensures
            match outcome {
                Ok(object) => {
                    &&& res matches Ok(Some((data, content_type)))
                    &&& data@ == object.data@
                    &&& content_type@ == match object.content_type {
                        Some(given) => given@,
                        None => OCTETS@,
                    }
                },
                Err(failure) => if failure.missing {
                    res == Ok::<Option<(Vec<u8>, String)>, String>(None)
                } else {
                    &&& res matches Err(message)
                    &&& message@ == error_spec("S3 get error"@, failure.message@)
                },
            },
    {
        match outcome {
            Ok(object) => {
                let content_type = match object.content_type {
                    Some(given) => given,
                    None => OCTETS.to_owned(),
                };
                Ok(Some((object.data, content_type)))
            },
            Err(failure) => {
                if failure.missing {
                    Ok(None)
                } else {
                    Err(error_text("S3 get error", &failure.message))
                }
            },
        }
    }

    /// What asking for the size of an object comes to: its size, zero where the store does not
    /// say; nothing, where there is no such object; else an error.
    ///
    /// Some stores say only by the status of their refusal that there is no such object.
    pub fn head(&self, outcome: Result<Option<i64>, StoreFailure>) -> (res: Result<
        Option<i64>,
        String,
    >)
        ensures
            match outcome {
                Ok(Some(size)) => res == Ok::<Option<i64>, String>(Some(size)),
                Ok(None) => res == Ok::<Option<i64>, String>(Some(0)),
                Err(failure) => if failure.status matches Some(status) && (status == 404
                    || failure.missing) {
                    res == Ok::<Option<i64>, String>(None)
                } else {
                    &&& res matches Err(message)
                    &&& message@ == error_spec("S3 head error"@, failure.message@)
                },
            },
    {
        match outcome {
            Ok(Some(size)) => Ok(Some(size)),
            Ok(None) => Ok(Some(0)),
            Err(failure) => {
                if let Some(status) = failure.status {
                    if status == 404 || failure.missing {
                        return Ok(None);
                    }
                }
                Err(error_text("S3 head error", &failure.message))
            },
        }
    }

    /// What deleting an object comes to.
    pub fn delete(&self, outcome: Result<(), String>) -> (res: Result<(), String>)
        ensures
            crate::step::done_view(res) == done_result("S3 delete error"@, outcome),
    {
        match outcome {
            Ok(()) => Ok(()),
            Err(message) => Err(error_text("S3 delete error", &message)),
        }
    }

    /// The URL of an object below the base URL. Without a base URL there is none, and one has to
    /// be signed.
    pub fn blob_url(&self, key: &str) -> (url: Option<String>)
        ensures
            url.deep_view() == match self.public_url {
                Some(base) => Some(responses::public_url_spec(base@, key@)),
                None => None,
            },
    {
        match &self.public_url {
            Some(base) => Some(public_url(base, key)),
            None => None,
        }
    }

    /// A copy of an object within the bucket.
    pub fn copy(&self, src_key: &str, dst_key: &str) -> (order: CopyOrder)
        ensures
            order.bucket@ == self.bucket@,
            order.source@ == self.bucket@ + "/"@ + src_key@,
            order.key@ == dst_key@,
    {
        let mut source = self.bucket.clone();
        source.append("/");
        source.append(src_key);
        CopyOrder { bucket: self.bucket.clone(), source, key: dst_key.to_owned() }
    }
}

/// Whether a text says what failed and, after a colon and a space, why.
pub open spec fn says(text: Seq<char>, what: Seq<char>, why: Seq<char>) -> bool {
    let n = what.len() as int;
    &&& text.len() == n + 2 + why.len()
    &&& text.take(n) == what
    &&& text[n] == ':'
    &&& text[n + 1] == ' '
    &&& text.skip(n + 2) == why
}

/// A message of an error says what failed, and the whole of why.
pub proof fn law_errors_say_why(what: Seq<char>, why: Seq<char>)
    ensures
        says(error_spec(what, why), what, why),
{
    reveal_strlit(": ");
    let n = what.len() as int;
    assert(error_spec(what, why).take(n) =~= what);
    assert(error_spec(what, why).skip(n + 2) =~= why);
}

/// Storing or deleting an object succeeds exactly where the store did it, and else says why not.
pub proof fn law_what_is_done(
    store: S3Store,
    outcome: Result<(), String>,
    put: Result<(), String>,
    deleted: Result<(), String>,
)
    requires
        call_ensures(S3Store::put, (&store, outcome), put),
        call_ensures(S3Store::delete, (&store, outcome), deleted),
    ensures
        put is Ok <==> outcome is Ok,
        deleted is Ok <==> outcome is Ok,
        outcome matches Err(why) ==> says(put->Err_0@, "S3 put error"@, why@),
        outcome matches Err(why) ==> says(deleted->Err_0@, "S3 delete error"@, why@),
{
    if let Err(why) = outcome {
        law_errors_say_why("S3 put error"@, why@);
        law_errors_say_why("S3 delete error"@, why@);
    }
}

/// An object that the store sends is got whole, with the content type that it came with, if any;
/// one that is missing is none; and any other failure says why.
pub proof fn law_what_is_got(
    store: S3Store,
    outcome: Result<StoredObject, StoreFailure>,
    got: Result<Option<(Vec<u8>, String)>, String>,
)
    requires
        call_ensures(S3Store::get, (&store, outcome), got),
    ensures
        got is Err <==> outcome is Err && !outcome->Err_0.missing,
        got is Ok && got->Ok_0 is Some <==> outcome is Ok,
        outcome is Ok ==> (got->Ok_0->0).0@ == outcome->Ok_0.data@,
        outcome is Ok && outcome->Ok_0.content_type is Some ==> (got->Ok_0->0).1@
            == outcome->Ok_0.content_type->0@,
        outcome is Ok && outcome->Ok_0.content_type is None ==> (got->Ok_0->0).1@
            == "application/octet-stream"@,
        got is Err ==> says(got->Err_0@, "S3 get error"@, outcome->Err_0.message@),
{
    if let Err(failure) = outcome {
        law_errors_say_why("S3 get error"@, failure.message@);
    }
}

/// The size of an object is what the store says, or zero where it does not say; an object is none
/// exactly where the store refuses the request with status 404, or because it is missing; and any
/// other failure says why.
pub proof fn law_what_size_is_told(
    store: S3Store,
    outcome: Result<Option<i64>, StoreFailure>,
    told: Result<Option<i64>, String>,
)
    requires
        call_ensures(S3Store::head, (&store, outcome), told),
    ensures
        outcome is Ok ==> told is Ok && told->Ok_0 is Some,
        outcome is Ok && outcome->Ok_0 is Some ==> told->Ok_0->0 == outcome->Ok_0->0,
        outcome is Ok && outcome->Ok_0 is None ==> told->Ok_0->0 == 0,
        told is Ok && told->Ok_0 is None <==> outcome is Err && outcome->Err_0.status is Some && (
        outcome->Err_0.status->0 == 404 || outcome->Err_0.missing),
        told is Err ==> says(told->Err_0@, "S3 head error"@, outcome->Err_0.message@),
{
    if let Err(failure) = outcome {
        law_errors_say_why("S3 head error"@, failure.message@);
    }
}

/// Objects have URLs exactly where there is a base URL: that without the slashes at its end, a
/// slash, and the key.
pub proof fn law_urls_of_objects(store: S3Store, key: &str, url: Option<String>)
    requires
        call_ensures(S3Store::blob_url, (&store, key), url),
    ensures
        url is Some <==> store.public_url is Some,
        url is Some ==> {
            let base = store.public_url->0@;
            let n = url->0@.len() - key@.len() - 1;
            &&& 0 <= n <= base.len()
            &&& url->0@.take(n) == base.take(n)
            &&& url->0@[n] == '/'
            &&& url->0@.skip(n + 1) == key@
            &&& text::only(base.skip(n), '/')
            &&& n > 0 ==> base[n - 1] != '/'
        },
{
    if let Some(base) = store.public_url {
        reveal_strlit("/");
        let start = text::trim_end_spec(base@, '/');
        text::law_trimmed_end(base@, '/');
        let n = start.len() as int;
        let full = url->0@;
        assert(full.take(n) =~= start);
        assert(full.skip(n + 1) =~= key@);
    }
}

/// A copy is from one key of the bucket of the store to another.
pub proof fn law_copies(store: S3Store, from: &str, to: &str, order: CopyOrder)
    requires
        call_ensures(S3Store::copy, (&store, from, to), order),
    ensures
        order.bucket@ == store.bucket@,
        order.key@ == to@,
        order.source@.len() == store.bucket@.len() + 1 + from@.len(),
        order.source@.take(store.bucket@.len() as int) == store.bucket@,
        order.source@[store.bucket@.len() as int] == '/',
        order.source@.skip((store.bucket@.len() + 1) as int) == from@,
{
    reveal_strlit("/");
    let n = store.bucket@.len() as int;
    assert(order.source@.take(n) =~= store.bucket@);
    assert(order.source@.skip(n + 1) =~= from@);
}

/// The store has the settings of the configuration; the bucket stands in the path of URLs exactly
/// where there is an endpoint other than that of AWS.
pub proof fn law_settings_of_the_store(config: Config, store: S3Store)
    requires
        call_ensures(S3Store::new, (&config,), store),
    ensures
        store.bucket@ == config.s3_bucket@,
        store.region@ == config.s3_region@,
        store.endpoint is Some <==> config.s3_endpoint is Some,
        store.endpoint is Some ==> store.endpoint->0@ == config.s3_endpoint->0@,
        store.path_style <==> config.s3_endpoint is Some,
        store.presign_ttl_secs == config.presign_ttl_secs,
        store.public_url is Some <==> config.s3_public_url is Some,
        store.public_url is Some ==> store.public_url->0@ == config.s3_public_url->0@,
{
}

} // verus!
