use actions_token::document::Node;
use actions_token::error::Reason;
use actions_token::secret::SecretText;
use actions_token::{Permissions, Privileges, Scope};

fn text(value: &str) -> Node {
    Node::Text(value.to_string())
}

#[test]
fn json_is_read_into_a_tree() {
    let read = Node::from_json("{\"b\": [1, -2, 1.5, true, null, \"x\"], \"a\": {\"c\": \"d\"}}").unwrap();
    let expected = Node::Table(vec![
        (
            "b".to_string(),
            Node::List(vec![
                Node::Number("1".to_string()),
                Node::Number("-2".to_string()),
                Node::Number("1.5".to_string()),
                Node::Flag(true),
                Node::Null,
                text("x"),
            ]),
        ),
        ("a".to_string(), Node::Table(vec![("c".to_string(), text("d"))])),
    ]);
    assert_eq!(read, expected);
}

#[test]
fn text_that_is_no_json_is_not_read() {
    for input in ["", "{", "{\"a\": }", "[1, 2", "{'a': 1}", "{\"a\": 1} x", "nul"] {
        assert_eq!(Node::from_json(input), None);
    }
}

#[test]
fn yaml_is_read_into_a_tree() {
    let read = Node::from_yaml("repositories:\n  - a/b\n  - c\npermissions:\n  actions: read\nflag: true\ncount: 3\n").unwrap();
    let expected = Node::Table(vec![
        ("repositories".to_string(), Node::List(vec![text("a/b"), text("c")])),
        ("permissions".to_string(), Node::Table(vec![("actions".to_string(), text("read"))])),
        ("flag".to_string(), Node::Flag(true)),
        ("count".to_string(), Node::Number("3".to_string())),
    ]);
    assert_eq!(read, expected);
    assert_eq!(Node::from_yaml(""), Some(Node::Null));
    assert_eq!(Node::from_yaml("[unclosed"), None);
}

#[test]
fn a_member_is_found_where_it_stands_once() {
    let table = Node::from_json("{\"id\": 5, \"name\": \"x\"}").unwrap();
    assert_eq!(table.member("id"), Some(&Node::Number("5".to_string())));
    assert_eq!(table.member("name"), Some(&text("x")));
    assert_eq!(table.member("other"), None);
    assert_eq!(table.member(""), None);
    assert_eq!(Node::List(vec![text("id")]).member("id"), None);
    assert_eq!(text("id").member("id"), None);
    let twice = Node::Table(vec![("id".to_string(), text("a")), ("id".to_string(), text("b"))]);
    assert_eq!(twice.member("id"), None);
}

#[test]
fn permissions_are_written_as_a_tree() {
    let permissions = Permissions::new()
        .with_repositories(&["acme/widgets".to_string()])
        .with_scopes(&[(Scope::Contents, Privileges::Write), (Scope::Actions, Privileges::Read)]);
    let expected = Node::Table(vec![
        ("repositories".to_string(), Node::List(vec![text("acme/widgets")])),
        (
            "permissions".to_string(),
            Node::Table(vec![
                ("actions".to_string(), text("read")),
                ("contents".to_string(), text("write")),
            ]),
        ),
    ]);
    assert_eq!(permissions.to_document(), expected);
    assert_eq!(Permissions::new().to_document(), Node::Table(vec![]));
    assert_eq!(Permissions::from_document(&expected), Ok(permissions));
}

#[test]
fn a_tree_of_permissions_reads_back() {
    let samples = [
        Permissions::new(),
        Permissions::new_with_repositories(&["a/b".to_string(), "a/b".to_string(), "c".to_string()]),
        Permissions::new_with_scopes(&[(Scope::Pages, Privileges::Admin), (Scope::Actions, Privileges::Read)]),
    ];
    for permissions in samples.iter() {
        assert_eq!(&Permissions::from_document(&permissions.to_document()).unwrap(), permissions);
    }
}

#[test]
fn a_repeated_field_in_a_tree_is_refused() {
    let twice = Node::Table(vec![
        ("repositories".to_string(), Node::List(vec![])),
        ("repositories".to_string(), Node::List(vec![])),
    ]);
    assert_eq!(Permissions::from_document(&twice), Err(Reason::Malformed));
    let both = Node::Table(vec![
        ("scopes".to_string(), Node::Table(vec![])),
        ("permissions".to_string(), Node::Table(vec![])),
    ]);
    assert_eq!(Permissions::from_document(&both), Err(Reason::Malformed));
    let repeated_scope = Node::Table(vec![(
        "scopes".to_string(),
        Node::Table(vec![("issues".to_string(), text("read")), ("issues".to_string(), text("admin"))]),
    )]);
    assert_eq!(
        Permissions::from_document(&repeated_scope),
        Ok(Permissions::new_with_scopes(&[(Scope::Issues, Privileges::Admin)]))
    );
}

#[test]
fn a_secret_keeps_its_text_to_itself() {
    let secret = SecretText::new("correct horse battery staple".to_string());
    assert_eq!(secret.expose(), "correct horse battery staple");
    assert!(!format!("{:?}", secret).contains("horse"));
    assert!(format!("{:?}", secret).contains("REDACTED"));
}
