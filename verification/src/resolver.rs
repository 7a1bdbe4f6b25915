//! Project identifier resolution: a user-supplied identifier is either a
//! canonical node id (returned unchanged, no lookup) or `owner/number`,
//! resolved by an organization-owned lookup first and, if that fails for
//! any reason, a user-owned lookup.
//!
//! The lookups themselves are transport work; this module supplies the
//! decisions as pure steps. A driver performs the action each step asks
//! for and feeds the outcome back in.

use vstd::prelude::*;
use crate::models::{api_error_messages, collect_error_messages, has_api_errors, GraphQLResponse};
use crate::strutil::{parse_u32_spec, parse_u32_str, split_at_char, split_char, str_eq};

verus! {

/// An identifier bearing the canonical node-id prefix is already resolved.
pub open spec fn is_node_id(s: Seq<char>) -> bool {
    s.len() >= 4 && s.subrange(0, 4) == "PVT_"@
}

#[derive(Debug, Clone, PartialEq, Eq)]
pub enum ResolveError {
    /// The identifier is not a node id and not `owner/number`.
    InvalidFormat,
    /// The number segment is not a positive integer.
    InvalidNumber,
    /// The response carried error messages.
    ApiErrors { messages: Vec<String> },
    /// The organization is missing or not accessible.
    OrgNotFound { org: String },
    /// The organization exists but has no such project; the project number
    /// or the token's scopes may be wrong.
    OrgProjectNotFound { org: String, number: u32 },
    /// The organization lookup returned no payload at all.
    OrgLookupFailed,
    /// Neither an organization- nor a user-owned project matched.
    ProjectNotFound { owner: String, number: u32 },
}

/// One step of the resolution dialogue.
#[derive(Debug)]
pub enum ResolveStep {
    /// The canonical node id is known; no further action.
    Resolved { id: String },
    /// An organization-owned project lookup should be tried next.
    NeedOrgLookup { owner: String, number: u32 },
    /// A user-owned project lookup should be tried next.
    NeedUserLookup { owner: String, number: u32 },
    /// Resolution is over; nothing matched.
    Failed { error: ResolveError },
}

/// First step: classify the identifier. A node id resolves immediately;
/// `owner/number` asks for an organization lookup; anything else fails.
pub fn resolve_project_id_start(project_id: &str) -> (r: ResolveStep)
    ensures
        is_node_id(project_id@) ==> (r matches ResolveStep::Resolved { id } && id@
            == project_id@),
        !is_node_id(project_id@) && split_at_char(project_id@, '/').len() != 2 ==> (r
            == ResolveStep::Failed { error: ResolveError::InvalidFormat }),
        !is_node_id(project_id@) && split_at_char(project_id@, '/').len() == 2 ==> (match
            parse_u32_spec(split_at_char(project_id@, '/')[1]) {
            Some(n) => r matches ResolveStep::NeedOrgLookup { owner, number } && owner@
                == split_at_char(project_id@, '/')[0] && number == n,
            None => r == ResolveStep::Failed { error: ResolveError::InvalidNumber },
        }),
{
    let n = project_id.unicode_len();
    if n >= 4 {
        let prefix = project_id.substring_char(0, 4);
        if str_eq(prefix, "PVT_") {
            return ResolveStep::Resolved { id: project_id.to_owned() };
        }
    }
    let parts = split_char(project_id, '/');
    proof {
        assert(parts@.map_values(|p: &str| p@).len() == parts@.len());
    }
    if parts.len() != 2 {
        return ResolveStep::Failed { error: ResolveError::InvalidFormat };
    }
    proof {
        assert(parts@.map_values(|p: &str| p@)[0] == parts@[0]@);
        assert(parts@.map_values(|p: &str| p@)[1] == parts@[1]@);
    }
    let owner = parts[0].to_owned();
    match parse_u32_str(parts[1]) {
        Some(number) => ResolveStep::NeedOrgLookup { owner, number },
        None => ResolveStep::Failed { error: ResolveError::InvalidNumber },
    }
}

// Payload shapes of the two lookup queries.

#[derive(Debug)]
pub struct ProjectRef {
    pub id: String,
}

#[derive(Debug)]
pub struct OrgNode {
    pub project_v2: Option<ProjectRef>,
}

#[derive(Debug)]
pub struct OrgData {
    pub organization: Option<OrgNode>,
}

#[derive(Debug)]
pub struct UserNode {
    pub project_v2: Option<ProjectRef>,
}

#[derive(Debug)]
pub struct UserData {
    pub user: Option<UserNode>,
}

/// Decides the outcome of an organization-owned project lookup from its
/// decoded response.
pub fn lookup_org_outcome(resp: GraphQLResponse<OrgData>, org: &str, number: u32) -> (r: Result<
    String,
    ResolveError,
>)
    ensures
        has_api_errors(resp) ==> (r matches Err(ResolveError::ApiErrors { messages })
            && messages@.map_values(|s: String| s@) == api_error_messages(resp)),
        !has_api_errors(resp) ==> (match resp.data {
            Some(OrgData { organization: Some(OrgNode { project_v2: Some(p) }) }) => r matches Ok(
                id,
            ) && id@ == p.id@,
            Some(OrgData { organization: Some(OrgNode { project_v2: None }) }) => r matches Err(
                ResolveError::OrgProjectNotFound { org: o, number: n },
            ) && o@ == org@ && n == number,
            Some(OrgData { organization: None }) => r matches Err(
                ResolveError::OrgNotFound { org: o },
            ) && o@ == org@,
            None => r == Err::<String, ResolveError>(ResolveError::OrgLookupFailed),
        }),
{
    if let Some(errors) = &resp.errors {
        if errors.len() > 0 {
            let messages = collect_error_messages(errors);
            return Err(ResolveError::ApiErrors { messages });
        }
    }
    match resp.data {
        Some(data) => match data.organization {
            Some(org_node) => match org_node.project_v2 {
                Some(p) => Ok(p.id),
                None => Err(ResolveError::OrgProjectNotFound { org: org.to_owned(), number }),
            },
            None => Err(ResolveError::OrgNotFound { org: org.to_owned() }),
        },
        None => Err(ResolveError::OrgLookupFailed),
    }
}

/// Decides the outcome of a user-owned project lookup from its decoded
/// response. Anything short of a project id means the owner/number pair
/// could not be resolved.
pub fn lookup_user_outcome(resp: GraphQLResponse<UserData>, owner: &str, number: u32) -> (r: Result<
    String,
    ResolveError,
>)
    ensures
        (match resp.data {
            Some(UserData { user: Some(UserNode { project_v2: Some(p) }) }) => r matches Ok(id)
                && id@ == p.id@,
            _ => r matches Err(ResolveError::ProjectNotFound { owner: o, number: n }) && o@
                == owner@ && n == number,
        }),
{
    match resp.data {
        Some(data) => match data.user {
            Some(user_node) => match user_node.project_v2 {
                Some(p) => Ok(p.id),
                None => Err(
                    ResolveError::ProjectNotFound { owner: owner.to_owned(), number },
                ),
            },
            None => Err(ResolveError::ProjectNotFound { owner: owner.to_owned(), number }),
        },
        None => Err(ResolveError::ProjectNotFound { owner: owner.to_owned(), number }),
    }
}

/// After the organization lookup: success resolves; any failure falls
/// through to the user lookup, whatever the reason.
pub fn resolve_after_org(owner: String, number: u32, outcome: Result<String, ResolveError>) -> (r:
    ResolveStep)
    ensures
        outcome matches Ok(id) ==> (r matches ResolveStep::Resolved { id: rid } && rid@ == id@),
        outcome is Err ==> (r matches ResolveStep::NeedUserLookup { owner: o, number: n } && o@
            == owner@ && n == number),
{
    match outcome {
        Ok(id) => ResolveStep::Resolved { id },
        Err(_) => ResolveStep::NeedUserLookup { owner, number },
    }
}

/// After the user lookup: success resolves; failure ends the resolution
/// with the user lookup's error.
pub fn resolve_after_user(outcome: Result<String, ResolveError>) -> (r: ResolveStep)
    ensures
        outcome matches Ok(id) ==> (r matches ResolveStep::Resolved { id: rid } && rid@ == id@),
        outcome matches Err(e) ==> (r matches ResolveStep::Failed { error } && error == e),
{
    match outcome {
        Ok(id) => ResolveStep::Resolved { id },
        Err(e) => ResolveStep::Failed { error: e },
    }
}

} // verus!
