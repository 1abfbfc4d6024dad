//! Errors in the format of the distribution API.

use vstd::prelude::*;

use crate::json;
use crate::json::string_json;

verus! {

/// One error. The detail is JSON text.
#[derive(Debug)]
pub struct OciError {
    pub code: String,
    pub message: String,
    pub detail: String,
}

/// The errors of a response.
#[derive(Debug)]
pub struct OciErrors {
    pub errors: Vec<OciError>,
}

/// What an [`OciError`] holds.
pub struct OciErrorView {
    pub code: Seq<char>,
    pub message: Seq<char>,
    pub detail: Seq<char>,
}

impl DeepView for OciError {
    type V = OciErrorView;

    open spec fn deep_view(&self) -> OciErrorView {
        OciErrorView { code: self.code@, message: self.message@, detail: self.detail@ }
    }
}

impl DeepView for OciErrors {
    type V = Seq<OciErrorView>;

    open spec fn deep_view(&self) -> Seq<OciErrorView> {
        self.errors.deep_view()
    }
}

/// An error without detail.
pub open spec fn plain_error(code: Seq<char>, message: Seq<char>) -> OciErrorView {
    OciErrorView { code, message, detail: "null"@ }
}

/// One error as a JSON object.
pub open spec fn error_json(error: OciErrorView) -> Seq<char> {
    "{\"code\":"@ + json::string_json_spec(error.code) + ",\"message\":"@ + json::string_json_spec(
        error.message,
    ) + ",\"detail\":"@ + error.detail + "}"@
}

/// Errors as JSON objects with commas between them.
pub open spec fn errors_between_commas(errors: Seq<OciErrorView>) -> Seq<char>
    decreases errors.len(),
{
    if errors.len() == 0 {
        Seq::empty()
    } else if errors.len() == 1 {
        error_json(errors[0])
    } else {
        errors_between_commas(errors.drop_last()) + ","@ + error_json(errors.last())
    }
}

/// The errors of a response as JSON.
pub open spec fn errors_json(errors: Seq<OciErrorView>) -> Seq<char> {
    "{\"errors\":["@ + errors_between_commas(errors) + "]}"@
}

impl OciErrors {
    /// A single error without detail.
    pub fn new(code: &str, message: &str) -> (res: Self)
        ensures
            res.deep_view() == seq![plain_error(code@, message@)],
    {
        let error = OciError {
            code: code.to_owned(),
            message: message.to_owned(),
            detail: "null".to_owned(),
        };
        let res = OciErrors { errors: vec![error] };
        assert(res.deep_view() =~= seq![plain_error(code@, message@)]);
        res
    }

    /// Something that the registry does not know.
    pub fn not_found(detail: &str) -> (res: Self)
        ensures
            res.deep_view() == seq![plain_error("NAME_UNKNOWN"@, detail@)],
    {
        Self::new("NAME_UNKNOWN", detail)
    }

    /// A blob that is not stored.
    pub fn blob_unknown() -> (res: Self)
        ensures
            res.deep_view() == seq![plain_error("BLOB_UNKNOWN"@, "blob unknown to registry"@)],
    {
        Self::new("BLOB_UNKNOWN", "blob unknown to registry")
    }

    /// A manifest that is not stored.
    pub fn manifest_unknown() -> (res: Self)
        ensures
            res.deep_view() == seq![
                plain_error("MANIFEST_UNKNOWN"@, "manifest unknown to registry"@),
            ],
    {
        Self::new("MANIFEST_UNKNOWN", "manifest unknown to registry")
    }

    /// Uploaded content that does not have the digest it was sent with.
    pub fn digest_invalid() -> (res: Self)
        ensures
            res.deep_view() == seq![
                plain_error(
                    "DIGEST_INVALID"@,
                    "provided digest did not match uploaded content"@,
                ),
            ],
    {
        Self::new("DIGEST_INVALID", "provided digest did not match uploaded content")
    }

    /// The errors as JSON.
    pub fn to_json(&self) -> (res: String)
        ensures
            res@ == errors_json(self.deep_view()),
    {
        let ghost all = self.deep_view();
        let mut items = String::new();
        let mut i: usize = 0;
        while i < self.errors.len()
            invariant
                all == self.deep_view(),
                i <= self.errors@.len(),
                items@ == errors_between_commas(all.take(i as int)),
            decreases self.errors@.len() - i,
        {
            let error = &self.errors[i];
            assert(all[i as int] == error.deep_view());
            assert(all.take(i + 1).drop_last() =~= all.take(i as int));
            if i > 0 {
                items.append(",");
            }
            let code = string_json(&error.code);
            let message = string_json(&error.message);
            let mut item = "{\"code\":".to_owned();
            item.append(&code);
            item.append(",\"message\":");
            item.append(&message);
            item.append(",\"detail\":");
            item.append(&error.detail);
            item.append("}");
            items.append(&item);
            assert(items@ =~= errors_between_commas(all.take(i + 1)));
            i += 1;
        }
        assert(all.take(all.len() as int) =~= all);
        let mut res = "{\"errors\":[".to_owned();
        res.append(&items);
        res.append("]}");
        res
    }
}

/// An error is written as an object with its code, its message and its detail.
pub proof fn law_error_is_an_object(error: OciErrorView)
    ensures
        error_json(error) == json::object(
            seq![
                ("code"@, json::string(error.code)),
                ("message"@, json::string(error.message)),
                ("detail"@, error.detail),
            ],
        ),
{
    let x = json::string(error.code);
    let y = json::string(error.message);
    reveal_strlit("code");
    reveal_strlit("message");
    reveal_strlit("detail");
    json::lemma_object_three("code"@, x, "message"@, y, "detail"@, error.detail);
    reveal_strlit("{\"code\":");
    reveal_strlit(",\"message\":");
    reveal_strlit(",\"detail\":");
    reveal_strlit("{\"");
    reveal_strlit("\"");
    reveal_strlit("\":");
    reveal_strlit(",\"");
    assert(json::string_json_spec(error.code) =~= x);
    assert(json::string_json_spec(error.message) =~= y);
    assert("{\"code\":"@ =~= "{\""@ + "code"@ + "\":"@);
    assert(",\"message\":"@ =~= ",\""@ + "message"@ + "\":"@);
    assert(",\"detail\":"@ =~= ",\""@ + "detail"@ + "\":"@);
    assert(error_json(error) =~= "{\""@ + "code"@ + "\":"@ + x + ",\""@ + "message"@ + "\":"@ + y
        + ",\""@ + "detail"@ + "\":"@ + error.detail + "}"@);
}

/// The errors of a response are written as an object with the array of all of them, in order.
pub proof fn law_errors_are_an_object(errors: Seq<OciErrorView>)
    ensures
        errors_json(errors) == json::object(
            seq![
                (
                    "errors"@,
                    json::array(Seq::new(errors.len(), |i: int| error_json(errors[i]))),
                ),
            ],
        ),
{
    let items = Seq::new(errors.len(), |i: int| error_json(errors[i]));
    lemma_errors_between_commas(errors);
    reveal_strlit("errors");
    json::lemma_object_one("errors"@, json::array(items));
    reveal_strlit("{\"errors\":[");
    reveal_strlit("]}");
    reveal_strlit("[");
    reveal_strlit("]");
    reveal_strlit("}");
    reveal_strlit("{\"");
    reveal_strlit("\":");
    assert("{\"errors\":["@ =~= "{\""@ + "errors"@ + "\":"@ + "["@);
    assert("]}"@ =~= "]"@ + "}"@);
    assert(errors_json(errors) =~= "{\""@ + "errors"@ + "\":"@ + json::array(items) + "}"@);
}

proof fn lemma_errors_between_commas(errors: Seq<OciErrorView>)
    ensures
        errors_between_commas(errors) == json::between_commas(
            Seq::new(errors.len(), |i: int| error_json(errors[i])),
        ),
    decreases errors.len(),
{
    let items = Seq::new(errors.len(), |i: int| error_json(errors[i]));
    if errors.len() > 0 {
        let front = errors.drop_last();
        lemma_errors_between_commas(front);
        assert(items.drop_last() =~= Seq::new(front.len(), |i: int| error_json(front[i])));
    }
}

} // verus!
