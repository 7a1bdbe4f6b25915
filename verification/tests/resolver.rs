use doner::models::{GraphQLError, GraphQLResponse};
use doner::resolver::{
    lookup_org_outcome, lookup_user_outcome, resolve_after_org, resolve_after_user,
    resolve_project_id_start, OrgData, OrgNode, ProjectRef, ResolveError, ResolveStep, UserData,
    UserNode,
};

#[test]
fn node_ids_resolve_unchanged_without_lookup() {
    match resolve_project_id_start("PVT_kwDOAbc123") {
        ResolveStep::Resolved { id } => assert_eq!(id, "PVT_kwDOAbc123"),
        other => panic!("expected immediate resolution, got {:?}", other),
    }
}

#[test]
fn owner_number_asks_for_org_lookup_first() {
    match resolve_project_id_start("acme/42") {
        ResolveStep::NeedOrgLookup { owner, number } => {
            assert_eq!(owner, "acme");
            assert_eq!(number, 42);
        }
        other => panic!("expected an organization lookup, got {:?}", other),
    }
}

#[test]
fn malformed_identifiers_fail_before_any_lookup() {
    assert!(matches!(
        resolve_project_id_start("acme"),
        ResolveStep::Failed { error: ResolveError::InvalidFormat }
    ));
    assert!(matches!(
        resolve_project_id_start("a/b/c"),
        ResolveStep::Failed { error: ResolveError::InvalidFormat }
    ));
    assert!(matches!(
        resolve_project_id_start("acme/five"),
        ResolveStep::Failed { error: ResolveError::InvalidNumber }
    ));
    assert!(matches!(
        resolve_project_id_start("acme/-3"),
        ResolveStep::Failed { error: ResolveError::InvalidNumber }
    ));
    assert!(matches!(
        resolve_project_id_start("acme/"),
        ResolveStep::Failed { error: ResolveError::InvalidNumber }
    ));
}

#[test]
fn org_failure_falls_through_to_user_lookup_then_fails() {
    // The organization lookup comes back empty; resolution must try the
    // user lookup before giving up with the user lookup's error.
    let step = resolve_project_id_start("acme/42");
    let (owner, number) = match step {
        ResolveStep::NeedOrgLookup { owner, number } => (owner, number),
        other => panic!("expected an organization lookup, got {:?}", other),
    };
    let org_resp: GraphQLResponse<OrgData> = GraphQLResponse { data: None, errors: None };
    let org_outcome = lookup_org_outcome(org_resp, &owner, number);
    assert!(matches!(org_outcome, Err(ResolveError::OrgLookupFailed)));
    let step = resolve_after_org(owner, number, org_outcome);
    let (owner, number) = match step {
        ResolveStep::NeedUserLookup { owner, number } => (owner, number),
        other => panic!("expected a user lookup, got {:?}", other),
    };
    let user_resp: GraphQLResponse<UserData> =
        GraphQLResponse { data: Some(UserData { user: None }), errors: None };
    let user_outcome = lookup_user_outcome(user_resp, &owner, number);
    match resolve_after_user(user_outcome) {
        ResolveStep::Failed { error: ResolveError::ProjectNotFound { owner, number } } => {
            assert_eq!(owner, "acme");
            assert_eq!(number, 42);
        }
        other => panic!("expected a final failure, got {:?}", other),
    }
}

#[test]
fn org_lookup_success_resolves() {
    let resp = GraphQLResponse {
        data: Some(OrgData {
            organization: Some(OrgNode {
                project_v2: Some(ProjectRef { id: "PVT_org".to_string() }),
            }),
        }),
        errors: None,
    };
    assert_eq!(lookup_org_outcome(resp, "acme", 42), Ok("PVT_org".to_string()));
}

#[test]
fn org_lookup_distinguishes_failures() {
    let no_project = GraphQLResponse {
        data: Some(OrgData { organization: Some(OrgNode { project_v2: None }) }),
        errors: None,
    };
    match lookup_org_outcome(no_project, "acme", 42) {
        Err(ResolveError::OrgProjectNotFound { org, number }) => {
            assert_eq!(org, "acme");
            assert_eq!(number, 42);
        }
        other => panic!("expected a missing project, got {:?}", other),
    }
    let no_org = GraphQLResponse { data: Some(OrgData { organization: None }), errors: None };
    match lookup_org_outcome(no_org, "acme", 42) {
        Err(ResolveError::OrgNotFound { org }) => assert_eq!(org, "acme"),
        other => panic!("expected a missing organization, got {:?}", other),
    }
    let api_errors = GraphQLResponse {
        data: Some(OrgData { organization: None }),
        errors: Some(vec![
            GraphQLError { message: "bad scope".to_string() },
            GraphQLError { message: "try again".to_string() },
        ]),
    };
    match lookup_org_outcome(api_errors, "acme", 42) {
        Err(ResolveError::ApiErrors { messages }) => {
            assert_eq!(messages, vec!["bad scope".to_string(), "try again".to_string()]);
        }
        other => panic!("expected API errors, got {:?}", other),
    }
    // An empty error list is not a failure by itself.
    let empty_errors =
        GraphQLResponse { data: Some(OrgData { organization: None }), errors: Some(vec![]) };
    assert!(matches!(
        lookup_org_outcome(empty_errors, "acme", 42),
        Err(ResolveError::OrgNotFound { .. })
    ));
}

#[test]
fn user_lookup_success_resolves() {
    let resp = GraphQLResponse {
        data: Some(UserData {
            user: Some(UserNode { project_v2: Some(ProjectRef { id: "PVT_user".to_string() }) }),
        }),
        errors: None,
    };
    let outcome = lookup_user_outcome(resp, "jane", 3);
    match resolve_after_user(outcome) {
        ResolveStep::Resolved { id } => assert_eq!(id, "PVT_user"),
        other => panic!("expected resolution, got {:?}", other),
    }
}
