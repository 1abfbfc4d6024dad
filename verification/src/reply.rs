//! HTTP replies, as plain values.

use vstd::prelude::*;

use crate::oci_error;
use crate::oci_error::OciErrors;

verus! {

/// The version of the API, as its header gives it.
pub const API_VERSION: &'static str = "registry/2.0";

/// The content type of JSON.
pub const JSON: &'static str = "application/json";

/// The content type of data that is not looked into.
pub const OCTETS: &'static str = "application/octet-stream";

/// The names and values of headers, in order.
pub type Headers = Vec<(String, String)>;

/// The body of a reply.
#[derive(Debug)]
pub enum Body {
    Empty,
    Text(String),
    Bytes(Vec<u8>),
}

/// A reply.
#[derive(Debug)]
pub struct Reply {
    pub status: u16,
    pub headers: Headers,
    pub body: Body,
}

/// What a [`Body`] holds.
pub enum BodyView {
    Empty,
    Text(Seq<char>),
    Bytes(Seq<u8>),
}

/// What a [`Reply`] holds.
pub struct ReplyView {
    pub status: u16,
    pub headers: Seq<(Seq<char>, Seq<char>)>,
    pub body: BodyView,
}

impl DeepView for Body {
    type V = BodyView;

    open spec fn deep_view(&self) -> BodyView {
        match *self {
            Body::Empty => BodyView::Empty,
            Body::Text(text) => BodyView::Text(text@),
            Body::Bytes(bytes) => BodyView::Bytes(bytes@),
        }
    }
}

impl DeepView for Reply {
    type V = ReplyView;

    open spec fn deep_view(&self) -> ReplyView {
        ReplyView {
            status: self.status,
            headers: self.headers.deep_view(),
            body: self.body.deep_view(),
        }
    }
}

/// A reply without a body.
pub open spec fn empty_reply_spec(
    status: u16,
    headers: Seq<(Seq<char>, Seq<char>)>,
) -> ReplyView {
    ReplyView { status, headers, body: BodyView::Empty }
}

/// A reply with a JSON body.
pub open spec fn json_response_spec(status: u16, text: Seq<char>) -> ReplyView {
    ReplyView { status, headers: seq![("Content-Type"@, JSON@)], body: BodyView::Text(text) }
}

/// A reply that reports one error.
pub open spec fn error_reply(status: u16, code: Seq<char>, message: Seq<char>) -> ReplyView {
    json_response_spec(
        status,
        oci_error::errors_json(seq![oci_error::plain_error(code, message)]),
    )
}

/// No headers.
pub fn no_headers() -> (headers: Headers)
    ensures
        headers.deep_view() == Seq::<(Seq<char>, Seq<char>)>::empty(),
{
    let headers: Headers = Vec::new();
    assert(headers.deep_view() =~= Seq::empty());
    headers
}

/// Adds a header behind the others.
pub fn add_header(headers: &mut Headers, name: &str, value: &str)
    ensures
        final(headers).deep_view() == old(headers).deep_view().push((name@, value@)),
{
    headers.push((name.to_owned(), value.to_owned()));
    assert(headers.deep_view() =~= old(headers).deep_view().push((name@, value@)));
}

/// A reply without a body.
pub fn empty_reply(status: u16, headers: Headers) -> (reply: Reply)
    ensures
        reply.deep_view() == empty_reply_spec(status, headers.deep_view()),
{
    Reply { status, headers, body: Body::Empty }
}

/// A reply with a JSON body.
pub fn json_response(status: u16, text: String) -> (reply: Reply)
    ensures
        reply.deep_view() == json_response_spec(status, text@),
{
    let mut headers = no_headers();
    add_header(&mut headers, "Content-Type", JSON);
    Reply { status, headers, body: Body::Text(text) }
}

/// A reply that reports errors.
pub fn oci_error(status: u16, errors: OciErrors) -> (reply: Reply)
    ensures
        reply.deep_view() == json_response_spec(
            status,
            oci_error::errors_json(errors.deep_view()),
        ),
{
    json_response(status, errors.to_json())
}

/// Something that the registry does not know.
pub fn not_found(detail: &str) -> (reply: Reply)
    ensures
        reply.deep_view() == error_reply(404, "NAME_UNKNOWN"@, detail@),
{
    oci_error(404, OciErrors::not_found(detail))
}

/// A request that cannot be served as it stands.
pub fn bad_request(message: &str) -> (reply: Reply)
    ensures
        reply.deep_view() == error_reply(400, "UNSUPPORTED"@, message@),
{
    oci_error(400, OciErrors::new("UNSUPPORTED", message))
}

/// A failure behind the registry.
pub fn internal_error(message: &str) -> (reply: Reply)
    ensures
        reply.deep_view() == error_reply(500, "INTERNAL_ERROR"@, message@),
{
    oci_error(500, OciErrors::new("INTERNAL_ERROR", message))
}

/// A method that a path does not have.
pub fn method_not_allowed() -> (reply: Reply)
    ensures
        reply.deep_view() == empty_reply_spec(405, Seq::empty()),
{
    empty_reply(405, no_headers())
}

/// The reply to a request without the token, which names the realm to get one from.
pub open spec fn auth_challenge_spec(realm: Seq<char>) -> ReplyView {
    ReplyView {
        status: 401,
        headers: seq![
            ("WWW-Authenticate"@, "Bearer realm=\""@ + realm + "\",service=\"registry\""@),
            ("Content-Type"@, JSON@),
        ],
        body: BodyView::Text(
            oci_error::errors_json(
                seq![oci_error::plain_error("UNAUTHORIZED"@, "authentication required"@)],
            ),
        ),
    }
}

/// The reply to a request without the token, which names the realm to get one from.
pub fn auth_challenge(realm: &str) -> (reply: Reply)
    ensures
        reply.deep_view() == auth_challenge_spec(realm@),
{
    let mut challenge = "Bearer realm=\"".to_owned();
    challenge.append(realm);
    challenge.append("\",service=\"registry\"");
    let mut headers = no_headers();
    add_header(&mut headers, "WWW-Authenticate", &challenge);
    add_header(&mut headers, "Content-Type", JSON);
    let errors = OciErrors::new("UNAUTHORIZED", "authentication required");
    assert(challenge@ == "Bearer realm=\""@ + realm@ + "\",service=\"registry\""@);
    assert(headers.deep_view() == auth_challenge_spec(realm@).headers);
    Reply { status: 401, headers, body: Body::Text(errors.to_json()) }
}

/// What a reply holds tells it apart from any other: replies that hold the same are the same in
/// status, in every header and in the body.
pub proof fn law_replies_are_told_apart(one: Reply, other: Reply)
    requires
        one.deep_view() == other.deep_view(),
    ensures
        one.status == other.status,
        one.headers@.len() == other.headers@.len(),
        forall|i: int|
            0 <= i < one.headers@.len() ==> (#[trigger] one.headers@[i]).0@ == other.headers@[i].0@
                && one.headers@[i].1@ == other.headers@[i].1@,
        match (one.body, other.body) {
            (Body::Empty, Body::Empty) => true,
            (Body::Text(a), Body::Text(b)) => a@ == b@,
            (Body::Bytes(a), Body::Bytes(b)) => a@ == b@,
            _ => false,
        },
{
    let all = one.headers.deep_view();
    assert(all == other.headers.deep_view());
    assert forall|i: int| 0 <= i < one.headers@.len() implies (#[trigger] one.headers@[i]).0@
        == other.headers@[i].0@ && one.headers@[i].1@ == other.headers@[i].1@ by {
        assert(all[i] == (one.headers@[i].0@, one.headers@[i].1@));
        assert(all[i] == (other.headers@[i].0@, other.headers@[i].1@));
    }
}

} // verus!
