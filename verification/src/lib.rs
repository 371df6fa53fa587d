//! Queries a resource-management API for a paginated collection of
//! workspaces, optionally fetches each workspace's key/value variables, and
//! retains only the workspaces whose variables satisfy a conjunctive set of
//! rules.
//!
//! The fetch planning, response assembly, rule evaluation and configuration
//! parsing live here with contracts; the transport that performs the HTTP
//! requests is the caller's concern.
use vstd::prelude::*;

pub mod error;
pub mod filter;
pub mod settings;
pub mod variable;
pub mod workspace;

verus! {

/// Root of the service the requests are sent to.
pub open spec fn base_url() -> Seq<char> {
    "https://app.terraform.io/api/v2"@
}

/// Root of the service the requests are sent to.
pub fn base_url_str() -> (s: &'static str)
    ensures
        s@ == base_url(),
{
    "https://app.terraform.io/api/v2"
}

/// Relies on `alloc`'s `String::push_str`: appends the given text to the
/// string.
#[verifier::external_body]
pub(crate) fn push_str(s: &mut String, t: &str)
    ensures
        final(s)@ == old(s)@ + t@,
{
    s.push_str(t);
}

/// The left text followed by the right text.
pub(crate) fn str_concat(a: &str, b: &str) -> (r: String)
    ensures
        r@ == a@ + b@,
{
    let mut s = a.to_owned();
    push_str(&mut s, b);
    s
}

/// The workspaces that survived filtering.
#[derive(Clone, Debug)]
pub struct FilteredResultInner {
    pub workspaces: Vec<workspace::Workspace>,
}

/// The outcome of a run: the query that was asked, and the workspaces that
/// satisfied it.
#[derive(Clone, Debug)]
pub struct FilteredResultOuter {
    pub query: settings::Query,
    pub result: FilteredResultInner,
}

/// The workspaces with their variables resolved, as handed to the filter
/// engine.
pub struct WorkspaceVariablesOuter {
    pub workspaces: Vec<WorkspaceVariables>,
}

/// One workspace together with its variables.
pub struct WorkspaceVariables {
    pub workspace: workspace::Workspace,
    pub variables: Vec<variable::Variable>,
}

} // verus!
