use actions_token::options::DEFAULT_DURATION;
use actions_token::{Permissions, Privileges, Scope, Target, TokenOptions};

#[test]
fn options_for_an_organization_start_from_the_defaults() {
    let options = TokenOptions::organization("acme");
    assert_eq!(options.target(), &Target::Organization("acme".to_string()));
    assert_eq!(options.duration(), 10);
    assert_eq!(options.permissions(), None);
}

#[test]
fn options_for_a_repository_start_from_the_defaults() {
    let options = TokenOptions::repository("acme/widgets");
    assert_eq!(options.target(), &Target::Repository("acme/widgets".to_string()));
    assert_eq!(options.duration(), DEFAULT_DURATION);
    assert_eq!(options.permissions(), None);
}

#[test]
fn options_for_a_user_start_from_the_defaults() {
    let options = TokenOptions::user("octocat");
    assert_eq!(options.target(), &Target::User("octocat".to_string()));
    assert_eq!(options.duration(), 10);
    assert_eq!(options.permissions(), None);
}

#[test]
fn the_last_permissions_stay() {
    let first = Permissions::new_with_scopes(&[(Scope::Actions, Privileges::Read)]);
    let second = Permissions::new_with_repositories(&["acme/widgets".to_string()]);
    let third = Permissions::new_with_scopes(&[(Scope::Contents, Privileges::Write)]);
    let options = TokenOptions::repository("acme/widgets")
        .with_permissions(first)
        .with_permissions(second)
        .with_permissions(third.clone());
    assert_eq!(options.permissions(), Some(&third));
    assert_eq!(options.target(), &Target::Repository("acme/widgets".to_string()));
    assert_eq!(options.duration(), 10);
}

#[test]
fn any_duration_is_taken() {
    assert_eq!(TokenOptions::user("octocat").with_duration(0).duration(), 0);
    assert_eq!(TokenOptions::user("octocat").with_duration(1).duration(), 1);
    assert_eq!(TokenOptions::user("octocat").with_duration(60).duration(), 60);
    assert_eq!(TokenOptions::user("octocat").with_duration(61).duration(), 61);
    assert_eq!(TokenOptions::user("octocat").with_duration(u64::MAX).duration(), u64::MAX);
}

#[test]
fn the_duration_leaves_the_rest_alone() {
    let permissions = Permissions::new_with_scopes(&[(Scope::Issues, Privileges::Admin)]);
    let options = TokenOptions::organization("acme").with_permissions(permissions.clone()).with_duration(5);
    assert_eq!(options.permissions(), Some(&permissions));
    assert_eq!(options.target(), &Target::Organization("acme".to_string()));
    assert_eq!(options.duration(), 5);
    assert_eq!(options.clone(), options);
}
