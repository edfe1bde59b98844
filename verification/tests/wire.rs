use actions_token::wire::{parse_decimal, path_of_access_tokens, path_of_installation, push_decimal};
use actions_token::Target;

#[test]
fn the_installation_of_an_organization() {
    assert_eq!(path_of_installation(&Target::Organization("acme".to_string())), "orgs/acme/installation");
}

#[test]
fn the_installation_of_a_user() {
    assert_eq!(path_of_installation(&Target::User("octocat".to_string())), "users/octocat/installation");
}

#[test]
fn the_installation_of_a_repository() {
    assert_eq!(
        path_of_installation(&Target::Repository("acme/widgets".to_string())),
        "repos/acme/widgets/installation"
    );
}

#[test]
fn a_repository_of_more_segments_uses_the_first_two() {
    assert_eq!(
        path_of_installation(&Target::Repository("acme/widgets/tree/main".to_string())),
        "repos/acme/widgets/installation"
    );
}

#[test]
fn a_repository_of_one_segment_is_sent_as_it_is() {
    assert_eq!(path_of_installation(&Target::Repository("widgets".to_string())), "repos/widgets/installation");
}

#[test]
fn the_path_of_the_token_request() {
    assert_eq!(path_of_access_tokens(42), "app/installations/42/access_tokens");
    assert_eq!(path_of_access_tokens(0), "app/installations/0/access_tokens");
    assert_eq!(
        path_of_access_tokens(u64::MAX),
        "app/installations/18446744073709551615/access_tokens"
    );
}

#[test]
fn numbers_are_written_in_decimal() {
    for n in [0u64, 1, 9, 10, 11, 99, 100, 101, 1234567890, u64::MAX - 1, u64::MAX] {
        let mut text = String::from("n=");
        push_decimal(&mut text, n);
        assert_eq!(text, format!("n={}", n));
    }
}

#[test]
fn numbers_are_read_from_decimal() {
    assert_eq!(parse_decimal("0"), Some(0));
    assert_eq!(parse_decimal("7"), Some(7));
    assert_eq!(parse_decimal("10"), Some(10));
    assert_eq!(parse_decimal("007"), Some(7));
    assert_eq!(parse_decimal("18446744073709551615"), Some(u64::MAX));
    assert_eq!(parse_decimal("00018446744073709551615"), Some(u64::MAX));
}

#[test]
fn what_is_no_number_is_not_read() {
    for text in ["", " ", "+1", "-1", "1 ", " 1", "1.0", "1e3", "12a", "a12", "0x10", "١٢", "1_000"] {
        assert_eq!(parse_decimal(text), None);
    }
}

#[test]
fn a_number_too_large_is_not_read() {
    assert_eq!(parse_decimal("18446744073709551616"), None);
    assert_eq!(parse_decimal("18446744073709551620"), None);
    assert_eq!(parse_decimal("99999999999999999999"), None);
    assert_eq!(parse_decimal("184467440737095516150"), None);
}

#[test]
fn what_is_written_is_read_back() {
    for n in [0u64, 5, 60, 4096, 9_999_999_999, u64::MAX] {
        let mut text = String::new();
        push_decimal(&mut text, n);
        assert_eq!(parse_decimal(&text), Some(n));
    }
}
