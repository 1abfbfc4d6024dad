//! What the registry answers about repositories, manifests and uploads.

use vstd::prelude::*;

use crate::json;
use crate::json::{string_json, strings_json};

verus! {

/// A manifest.
#[derive(Debug, Clone)]
pub struct ManifestInfo {
    pub repo: String,
    pub digest: String,
    pub content_type: String,
    pub size: i64,
}

/// An upload in progress.
#[derive(Debug, Clone)]
pub struct UploadInfo {
    pub uuid: String,
    pub repo: String,
    pub offset: i64,
}

/// The tags of a repository.
#[derive(Debug)]
pub struct TagList {
    pub name: String,
    pub tags: Vec<String>,
}

/// The repositories of the registry.
#[derive(Debug)]
pub struct Catalog {
    pub repositories: Vec<String>,
}

/// A tag list as JSON.
pub open spec fn tag_list_json(name: Seq<char>, tags: Seq<Seq<char>>) -> Seq<char> {
    "{\"name\":"@ + json::string_json_spec(name) + ",\"tags\":"@ + json::strings_json_spec(tags)
        + "}"@
}

/// A catalog as JSON.
pub open spec fn catalog_json(repositories: Seq<Seq<char>>) -> Seq<char> {
    "{\"repositories\":"@ + json::strings_json_spec(repositories) + "}"@
}

impl TagList {
    /// The tag list as JSON.
    pub fn to_json(&self) -> (res: String)
        ensures
            res@ == tag_list_json(self.name@, self.tags.deep_view()),
    {
        let name = string_json(&self.name);
        let tags = strings_json(&self.tags);
        let mut res = "{\"name\":".to_owned();
        res.append(&name);
        res.append(",\"tags\":");
        res.append(&tags);
        res.append("}");
        res
    }
}

impl Catalog {
    /// The catalog as JSON.
    pub fn to_json(&self) -> (res: String)
        ensures
            res@ == catalog_json(self.repositories.deep_view()),
    {
        let repositories = strings_json(&self.repositories);
        let mut res = "{\"repositories\":".to_owned();
        res.append(&repositories);
        res.append("}");
        res
    }
}

/// A tag list is written as an object with the name and the array of all tags, in order.
pub proof fn law_tag_list_is_an_object(name: Seq<char>, tags: Seq<Seq<char>>)
    ensures
        tag_list_json(name, tags) == json::object(
            seq![
                ("name"@, json::string(name)),
                ("tags"@, json::array(Seq::new(tags.len(), |i: int| json::string(tags[i])))),
            ],
        ),
{
    let x = json::string(name);
    let y = json::array(Seq::new(tags.len(), |i: int| json::string(tags[i])));
    reveal_strlit("name");
    reveal_strlit("tags");
    json::law_strings_are_an_array(tags);
    json::lemma_object_two("name"@, x, "tags"@, y);
    reveal_strlit("{\"name\":");
    reveal_strlit(",\"tags\":");
    reveal_strlit("{\"");
    reveal_strlit("\"");
    reveal_strlit("\":");
    reveal_strlit(",\"");
    assert(json::string_json_spec(name) =~= x);
    assert("{\"name\":"@ =~= "{\""@ + "name"@ + "\":"@);
    assert(",\"tags\":"@ =~= ",\""@ + "tags"@ + "\":"@);
    assert(tag_list_json(name, tags) =~= "{\""@ + "name"@ + "\":"@ + x + ",\""@ + "tags"@
        + "\":"@ + y + "}"@);
}

/// A catalog is written as an object with the array of all repositories, in order.
pub proof fn law_catalog_is_an_object(repositories: Seq<Seq<char>>)
    ensures
        catalog_json(repositories) == json::object(
            seq![
                (
                    "repositories"@,
                    json::array(
                        Seq::new(repositories.len(), |i: int| json::string(repositories[i])),
                    ),
                ),
            ],
        ),
{
    let x = json::array(Seq::new(repositories.len(), |i: int| json::string(repositories[i])));
    reveal_strlit("repositories");
    json::law_strings_are_an_array(repositories);
    json::lemma_object_one("repositories"@, x);
    reveal_strlit("{\"repositories\":");
    reveal_strlit("{\"");
    reveal_strlit("\":");
    assert("{\"repositories\":"@ =~= "{\""@ + "repositories"@ + "\":"@);
    assert(catalog_json(repositories) =~= "{\""@ + "repositories"@ + "\":"@ + x + "}"@);
}

} // verus!
