use actions_token::{Privileges, Scope};

const TOKENS: [&str; 34] = [
    "actions",
    "administration",
    "checks",
    "contents",
    "deployments",
    "environments",
    "issues",
    "metadata",
    "packages",
    "pages",
    "pull-requests",
    "repository-hooks",
    "repository-projects",
    "secret-scanning-alerts",
    "secrets",
    "security-events",
    "single-file",
    "statuses",
    "vulnerability-alerts",
    "workflows",
    "members",
    "organization-administration",
    "organization-custom-roles",
    "organization-announcement-banners",
    "organization-hooks",
    "organization-personal-access-tokens",
    "organization-personal-access-token-requests",
    "organization-plan",
    "organization-projects",
    "organization-packages",
    "organization-secrets",
    "organization-self-hosted-runners",
    "organization-user-blocking",
    "team-discussions",
];

#[test]
fn every_scope_has_its_token() {
    for (rank, token) in TOKENS.iter().enumerate() {
        let scope = Scope::from_ordinal(rank as u8).unwrap();
        assert_eq!(scope.ordinal() as usize, rank);
        assert_eq!(scope.as_str(), *token);
        assert_eq!(Scope::from_token(token), Some(scope));
    }
}

#[test]
fn the_closed_set_has_thirty_four_scopes() {
    assert_eq!(actions_token::scope::SCOPE_COUNT, 34);
    assert_eq!(Scope::from_ordinal(0), Some(Scope::Actions));
    assert_eq!(Scope::from_ordinal(33), Some(Scope::TeamDiscussions));
    assert_eq!(Scope::from_ordinal(34), None);
    assert_eq!(Scope::from_ordinal(255), None);
}

#[test]
fn some_scopes_by_name() {
    assert_eq!(Scope::PullRequests.as_str(), "pull-requests");
    assert_eq!(Scope::OrganizationPersonalAccessTokenRequests.as_str(), "organization-personal-access-token-requests");
    assert_eq!(Scope::from_token("single-file"), Some(Scope::SingleFile));
    assert_eq!(Scope::Members.ordinal(), 20);
}

#[test]
fn what_is_no_scope_token_names_no_scope() {
    for text in ["", "Actions", "actions ", " actions", "pull_requests", "pullrequests", "organization", "team-discussion", "team-discussionss"] {
        assert_eq!(Scope::from_token(text), None);
    }
}

#[test]
fn scopes_are_ordered_as_declared() {
    assert!(Scope::Actions < Scope::Administration);
    assert!(Scope::Workflows < Scope::Members);
    assert!(Scope::OrganizationUserBlocking < Scope::TeamDiscussions);
}

#[test]
fn every_privilege_has_its_token() {
    for (privilege, token) in [(Privileges::Read, "read"), (Privileges::Write, "write"), (Privileges::Admin, "admin")] {
        assert_eq!(privilege.as_str(), token);
        assert_eq!(Privileges::from_token(token), Some(privilege));
    }
}

#[test]
fn what_is_no_privilege_token_names_no_privilege() {
    for text in ["", "READ", "reads", "rea", "owner", "admin "] {
        assert_eq!(Privileges::from_token(text), None);
    }
}
