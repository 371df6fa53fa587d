//! A workspace's variables: key/value attributes attached to exactly one
//! workspace for the duration of a run, and the URL their collection is
//! fetched from.
use vstd::prelude::*;

use crate::base_url;
use crate::error::FilterError;
use crate::str_concat;

verus! {

/// The attributes of a variable: a key, and a value that may be absent
/// (key present, value unset).
#[derive(Clone, Debug, PartialEq)]
pub struct Attributes {
    pub key: String,
    pub value: Option<String>,
}

/// A variable of one workspace.
#[derive(Clone, Debug, PartialEq)]
pub struct Variable {
    pub id: String,
    pub attributes: Attributes,
}

/// What `url::Url::parse` makes of a text: the normalized URL, or nothing
/// where the text is not an acceptable absolute URL.
pub uninterp spec fn parsed_url(text: Seq<char>) -> Option<Seq<char>>;

/// Relies on `url::Url::parse`: parsing an absolute URL is a function of the
/// text alone, and either yields a URL or rejects the text.
#[verifier::external_body]
fn parse_url(text: &str) -> (r: Option<String>)
    ensures
        match r {
            Some(u) => parsed_url(text@) == Some(u@),
            None => parsed_url(text@) is None,
        },
{
    match url::Url::parse(text) {
        Ok(u) => Some(String::from(u)),
        Err(_) => None,
    }
}

/// The endpoint text of one workspace's variables collection.
pub open spec fn variables_endpoint(workspace_id: Seq<char>) -> Seq<char> {
    base_url() + "/workspaces/"@ + workspace_id + "/vars/"@
}

/// Builds the URL of one workspace's variables collection; a malformed
/// endpoint is a fatal error.
pub fn variables_url(workspace_id: &str) -> (r: Result<String, FilterError>)
    ensures
        match r {
            Ok(u) => parsed_url(variables_endpoint(workspace_id@)) == Some(u@),
            Err(e) => parsed_url(variables_endpoint(workspace_id@)) is None && e is Url,
        },
{
    let endpoint0 = str_concat(crate::base_url_str(), "/workspaces/");
    let endpoint1 = str_concat(endpoint0.as_str(), workspace_id);
    let endpoint = str_concat(endpoint1.as_str(), "/vars/");
    assert(endpoint@ == variables_endpoint(workspace_id@));
    match parse_url(endpoint.as_str()) {
        Some(u) => Ok(u),
        None => Err(FilterError::Url("could not build the variables URL".to_owned())),
    }
}

} // verus!
