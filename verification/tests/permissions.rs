use actions_token::error::{Input, Reason, TokenError};
use actions_token::{Permissions, Privileges, Scope};

fn owned(items: &[&str]) -> Vec<String> {
    items.iter().map(|item| item.to_string()).collect()
}

#[test]
fn test_deserialize() {
    let permissions = Permissions::new()
        .with_repositories(&owned(&["dev-bio/actions-token"]))
        .with_scopes(&[
            (Scope::Actions, Privileges::Read),
            (Scope::Administration, Privileges::Write),
        ]);

    assert_eq!(permissions.to_yaml().unwrap(), {
        "repositories:\n- dev-bio/actions-token\npermissions:\n  actions: read\n  administration: write\n"
    });

    let expected = Permissions::from_yaml({
        "repositories: [ 'dev-bio/actions-token' ]\nscopes:\n  actions: read\n  administration: write\n"
    })
    .unwrap();

    assert_eq!(permissions, expected);
}

#[test]
fn new_permissions_hold_nothing() {
    let permissions = Permissions::new();
    assert!(permissions.repositories().is_empty());
    assert_eq!(permissions.privilege(Scope::Actions), None);
    assert_eq!(permissions.privilege(Scope::TeamDiscussions), None);
    assert_eq!(permissions, Permissions::default());
}

#[test]
fn repositories_keep_order_and_repetitions() {
    let permissions = Permissions::new()
        .with_repositories(&owned(&["acme/widgets", "acme/gears"]))
        .with_repositories(&owned(&["acme/widgets"]))
        .with_repositories(&owned(&[]))
        .with_repositories(&owned(&["zeta/alpha", "acme/gears"]));
    assert_eq!(
        permissions.repositories(),
        &owned(&["acme/widgets", "acme/gears", "acme/widgets", "zeta/alpha", "acme/gears"])
    );
}

#[test]
fn two_calls_append_like_one() {
    let twice = Permissions::new()
        .with_repositories(&owned(&["a/b", "c/d/e"]))
        .with_repositories(&owned(&["f", "a/b"]));
    let once = Permissions::new().with_repositories(&owned(&["a/b", "c/d/e", "f", "a/b"]));
    assert_eq!(twice, once);
}

#[test]
fn repositories_are_cut_to_two_segments() {
    let permissions = Permissions::new().with_repositories(&owned(&[
        "acme/widgets/tree/main",
        "acme/widgets",
        "widgets",
        "",
        "acme//x",
        "/widgets/x",
        "acme/",
        "/",
        "//",
    ]));
    assert_eq!(
        permissions.repositories(),
        &owned(&["acme/widgets", "acme/widgets", "widgets", "", "acme/", "/widgets", "acme/", "/", "/"])
    );
}

#[test]
fn repositories_with_wide_characters_are_cut_by_character() {
    let permissions =
        Permissions::new().with_repositories(&owned(&["\u{e9}t\u{e9}/caf\u{e9}/\u{1f980}"]));
    assert_eq!(permissions.repositories(), &owned(&["\u{e9}t\u{e9}/caf\u{e9}"]));
}

#[test]
fn new_with_repositories_is_the_builder_on_nothing() {
    let list = owned(&["acme/widgets/x", "gears"]);
    assert_eq!(
        Permissions::new_with_repositories(&list),
        Permissions::new().with_repositories(&list)
    );
    assert_eq!(
        Permissions::new_with_repositories(&list).repositories(),
        &owned(&["acme/widgets", "gears"])
    );
}

#[test]
fn new_with_scopes_is_the_builder_on_nothing() {
    let pairs = [(Scope::Contents, Privileges::Write), (Scope::Metadata, Privileges::Read)];
    let permissions = Permissions::new_with_scopes(&pairs);
    assert_eq!(permissions, Permissions::new().with_scopes(&pairs));
    assert_eq!(permissions.privilege(Scope::Contents), Some(Privileges::Write));
    assert_eq!(permissions.privilege(Scope::Metadata), Some(Privileges::Read));
    assert_eq!(permissions.privilege(Scope::Actions), None);
}

#[test]
fn a_later_scope_overwrites_an_earlier_one() {
    let permissions = Permissions::new()
        .with_scopes(&[
            (Scope::Issues, Privileges::Read),
            (Scope::Pages, Privileges::Admin),
            (Scope::Issues, Privileges::Write),
        ])
        .with_scopes(&[(Scope::Pages, Privileges::Read)]);
    assert_eq!(permissions.privilege(Scope::Issues), Some(Privileges::Write));
    assert_eq!(permissions.privilege(Scope::Pages), Some(Privileges::Read));
    assert_eq!(
        permissions,
        Permissions::new_with_scopes(&[
            (Scope::Pages, Privileges::Read),
            (Scope::Issues, Privileges::Write),
        ])
    );
}

#[test]
fn scopes_and_repositories_do_not_touch_each_other() {
    let permissions = Permissions::new()
        .with_scopes(&[(Scope::Checks, Privileges::Read)])
        .with_repositories(&owned(&["acme/widgets"]))
        .with_scopes(&[(Scope::Statuses, Privileges::Write)]);
    assert_eq!(permissions.repositories(), &owned(&["acme/widgets"]));
    assert_eq!(permissions.privilege(Scope::Checks), Some(Privileges::Read));
    assert_eq!(permissions.privilege(Scope::Statuses), Some(Privileges::Write));
}

#[test]
fn a_clone_is_equal() {
    let permissions = Permissions::new()
        .with_repositories(&owned(&["acme/widgets", "acme/gears"]))
        .with_scopes(&[(Scope::Secrets, Privileges::Admin)]);
    assert_eq!(permissions.clone(), permissions);
}

#[test]
fn nothing_chosen_is_written_without_fields() {
    let permissions = Permissions::new();
    assert_eq!(permissions.to_yaml().unwrap(), "{}\n");
    assert_eq!(permissions.to_json(), "{}");
    let emptied = Permissions::new().with_repositories(&owned(&[])).with_scopes(&[]);
    assert_eq!(emptied.to_yaml().unwrap(), "{}\n");
    assert_eq!(emptied.to_json(), "{}");
}

#[test]
fn scopes_alone_are_written_without_repositories() {
    let permissions = Permissions::new_with_scopes(&[
        (Scope::Contents, Privileges::Write),
        (Scope::Actions, Privileges::Read),
    ]);
    assert_eq!(permissions.to_json(), "{\"permissions\":{\"actions\":\"read\",\"contents\":\"write\"}}");
    assert_eq!(permissions.to_yaml().unwrap(), "permissions:\n  actions: read\n  contents: write\n");
}

#[test]
fn repositories_alone_are_written_without_scopes() {
    let permissions = Permissions::new_with_repositories(&owned(&["acme/widgets"]));
    assert_eq!(permissions.to_json(), "{\"repositories\":[\"acme/widgets\"]}");
    assert_eq!(permissions.to_yaml().unwrap(), "repositories:\n- acme/widgets\n");
}

#[test]
fn both_fields_are_written_repositories_first() {
    let permissions = Permissions::new()
        .with_scopes(&[(Scope::Metadata, Privileges::Read)])
        .with_repositories(&owned(&["acme/widgets", "acme/gears"]));
    assert_eq!(
        permissions.to_json(),
        "{\"repositories\":[\"acme/widgets\",\"acme/gears\"],\"permissions\":{\"metadata\":\"read\"}}"
    );
}

#[test]
fn scopes_are_written_in_the_order_of_the_closed_set() {
    let permissions = Permissions::new_with_scopes(&[
        (Scope::TeamDiscussions, Privileges::Read),
        (Scope::Members, Privileges::Write),
        (Scope::Workflows, Privileges::Admin),
        (Scope::PullRequests, Privileges::Read),
    ]);
    assert_eq!(
        permissions.to_json(),
        "{\"permissions\":{\"pull-requests\":\"read\",\"workflows\":\"admin\",\"members\":\"write\",\"team-discussions\":\"read\"}}"
    );
}

#[test]
fn text_that_needs_quoting_is_quoted() {
    let permissions = Permissions::new_with_repositories(&owned(&["a\"b\\c", "true", "12"]));
    assert_eq!(permissions.to_json(), "{\"repositories\":[\"a\\\"b\\\\c\",\"true\",\"12\"]}");
    let read = Permissions::from_yaml(&permissions.to_yaml().unwrap()).unwrap();
    assert_eq!(read, permissions);
}

#[test]
fn yaml_round_trip_gives_the_same_permissions() {
    let samples = [
        Permissions::new(),
        Permissions::new_with_repositories(&owned(&["acme/widgets", "gears", "acme/widgets"])),
        Permissions::new_with_scopes(&[(Scope::OrganizationPlan, Privileges::Admin)]),
        Permissions::new()
            .with_repositories(&owned(&["x/y/z", "-", "a: b", "#"]))
            .with_scopes(&[
                (Scope::SingleFile, Privileges::Read),
                (Scope::Actions, Privileges::Write),
                (Scope::OrganizationPersonalAccessTokenRequests, Privileges::Admin),
            ]),
    ];
    for permissions in samples.iter() {
        let text = permissions.to_yaml().unwrap();
        assert!(!text.contains("scopes"));
        assert_eq!(&Permissions::from_yaml(&text).unwrap(), permissions);
    }
}

#[test]
fn every_scope_round_trips_through_yaml() {
    let mut pairs = Vec::new();
    for rank in 0..34u8 {
        let scope = Scope::from_ordinal(rank).unwrap();
        let privilege = match rank % 3 {
            0 => Privileges::Read,
            1 => Privileges::Write,
            _ => Privileges::Admin,
        };
        pairs.push((scope, privilege));
    }
    let permissions = Permissions::new_with_scopes(&pairs);
    let read = Permissions::from_yaml(&permissions.to_yaml().unwrap()).unwrap();
    assert_eq!(read, permissions);
    for (scope, privilege) in pairs {
        assert_eq!(read.privilege(scope), Some(privilege));
    }
}

#[test]
fn both_names_of_the_scopes_table_are_read() {
    let under_permissions =
        Permissions::from_yaml("permissions:\n  actions: read\n  administration: write\n").unwrap();
    let under_scopes =
        Permissions::from_yaml("scopes:\n  actions: read\n  administration: write\n").unwrap();
    assert_eq!(under_permissions, under_scopes);
    assert_eq!(under_scopes.privilege(Scope::Actions), Some(Privileges::Read));
    assert_eq!(under_scopes.privilege(Scope::Administration), Some(Privileges::Write));
    assert_eq!(
        under_scopes.to_yaml().unwrap(),
        "permissions:\n  actions: read\n  administration: write\n"
    );
}

#[test]
fn repositories_read_from_yaml_are_cut() {
    let permissions = Permissions::from_yaml("repositories:\n  - acme/widgets/extra\n  - gears\n").unwrap();
    assert_eq!(permissions.repositories(), &owned(&["acme/widgets", "gears"]));
}

#[test]
fn other_fields_are_passed_over() {
    let permissions = Permissions::from_yaml("note: hello\nrepositories: [a/b]\nextra:\n  - 1\n").unwrap();
    assert_eq!(permissions, Permissions::new_with_repositories(&owned(&["a/b"])));
}

#[test]
fn empty_fields_are_read_as_nothing() {
    assert_eq!(Permissions::from_yaml("{}").unwrap(), Permissions::new());
    assert_eq!(Permissions::from_yaml("repositories: ~\npermissions: ~\n").unwrap(), Permissions::new());
    assert_eq!(Permissions::from_yaml("repositories: []\nscopes: {}\n").unwrap(), Permissions::new());
}

#[test]
fn an_unknown_scope_is_refused() {
    assert_eq!(
        Permissions::from_yaml("permissions:\n  actions: read\n  bogus: write\n"),
        Err(TokenError::InvalidInput(Input::Permissions, Reason::UnknownScope("bogus".to_string())))
    );
    assert_eq!(
        Permissions::from_yaml("scopes:\n  pull_requests: read\n"),
        Err(TokenError::InvalidInput(
            Input::Permissions,
            Reason::UnknownScope("pull_requests".to_string())
        ))
    );
}

#[test]
fn an_unknown_privilege_is_refused() {
    assert_eq!(
        Permissions::from_yaml("permissions:\n  actions: execute\n"),
        Err(TokenError::InvalidInput(
            Input::Permissions,
            Reason::UnknownPrivilege("execute".to_string())
        ))
    );
    assert_eq!(
        Permissions::from_yaml("permissions:\n  actions: Read\n"),
        Err(TokenError::InvalidInput(Input::Permissions, Reason::UnknownPrivilege("Read".to_string())))
    );
}

#[test]
fn the_first_fault_of_the_scopes_table_is_reported() {
    assert_eq!(
        Permissions::from_yaml("permissions:\n  actions: nope\n  bogus: read\n"),
        Err(TokenError::InvalidInput(Input::Permissions, Reason::UnknownPrivilege("nope".to_string())))
    );
    assert_eq!(
        Permissions::from_yaml("permissions:\n  bogus: read\n  actions: nope\n"),
        Err(TokenError::InvalidInput(Input::Permissions, Reason::UnknownScope("bogus".to_string())))
    );
}

#[test]
fn a_document_of_another_shape_is_refused() {
    let malformed = Err(TokenError::InvalidInput(Input::Permissions, Reason::Malformed));
    assert_eq!(Permissions::from_yaml("- a\n- b\n"), malformed);
    assert_eq!(Permissions::from_yaml("just text"), malformed);
    assert_eq!(Permissions::from_yaml(""), malformed);
    assert_eq!(Permissions::from_yaml("repositories: acme/widgets\n"), malformed);
    assert_eq!(Permissions::from_yaml("repositories:\n  - [a, b]\n"), malformed);
    assert_eq!(Permissions::from_yaml("repositories:\n  - 12\n"), malformed);
    assert_eq!(Permissions::from_yaml("permissions:\n  - actions\n"), malformed);
    assert_eq!(Permissions::from_yaml("permissions:\n  actions: [read]\n"), malformed);
    assert_eq!(Permissions::from_yaml("permissions:\n  actions: ~\n"), malformed);
}

#[test]
fn the_scopes_table_under_both_names_is_refused() {
    assert_eq!(
        Permissions::from_yaml("permissions:\n  actions: read\nscopes:\n  checks: read\n"),
        Err(TokenError::InvalidInput(Input::Permissions, Reason::Malformed))
    );
}

#[test]
fn text_that_is_no_yaml_is_refused() {
    let unreadable = Err(TokenError::InvalidInput(Input::Permissions, Reason::Unreadable));
    assert_eq!(Permissions::from_yaml("permissions: [unclosed"), unreadable);
    assert_eq!(Permissions::from_yaml("a: b: c: d"), unreadable);
    assert_eq!(Permissions::from_yaml("\"unterminated"), unreadable);
}

#[test]
fn a_fault_in_the_repositories_comes_before_one_in_the_scopes() {
    assert_eq!(
        Permissions::from_yaml("permissions:\n  bogus: read\nrepositories: 5\n"),
        Err(TokenError::InvalidInput(Input::Permissions, Reason::Malformed))
    );
}
