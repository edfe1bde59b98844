use std::cell::RefCell;

use actions_token::error::{Input, Reason, Stage, TokenError};
use actions_token::exchange::{fetch_token, Method, Reply, Request};
use actions_token::inputs::{plan, Inputs};
use actions_token::secret::SecretText;
use actions_token::wire::{ACCEPT, API_BASE, USER_AGENT};
use actions_token::{Permissions, Privileges, Scope, Target, TokenOptions};
use jwt_simple::prelude::RS256KeyPair;

/// What a server that was never there saw of a request.
#[derive(Debug, Clone, PartialEq, Eq)]
struct Seen {
    method: Method,
    path: String,
    url: String,
    body: Option<String>,
    bearer: String,
    authorization: String,
}

fn see(request: &Request) -> Seen {
    Seen {
        method: request.method(),
        path: request.path().to_string(),
        url: request.url(),
        body: request.body().cloned(),
        bearer: request.bearer().expose().to_string(),
        authorization: request.authorization().expose().to_string(),
    }
}

fn key() -> SecretText {
    SecretText::new(RS256KeyPair::generate(2048).unwrap().to_pem().unwrap())
}

fn id() -> SecretText {
    SecretText::new("123456".to_string())
}

fn reply_of(status: u16, body: &str) -> Reply {
    Reply::Received { status, body: body.to_string() }
}

#[test]
fn a_token_is_fetched_in_two_requests() {
    let seen = RefCell::new(Vec::new());
    let options = TokenOptions::organization("acme");
    let fetched = fetch_token(&id(), &key(), &options, |request: &Request| {
        seen.borrow_mut().push(see(request));
        match request.method() {
            Method::Get => reply_of(200, "{\"id\": 99}"),
            Method::Post => reply_of(201, "{\"token\": \"ghs_issued\"}"),
        }
    });
    assert_eq!(fetched.unwrap().expose(), "ghs_issued");
    let seen = seen.into_inner();
    assert_eq!(seen.len(), 2);
    assert_eq!(seen[0].method, Method::Get);
    assert_eq!(seen[0].path, "orgs/acme/installation");
    assert_eq!(seen[0].url, "https://api.github.com/orgs/acme/installation");
    assert_eq!(seen[0].body, None);
    assert_eq!(seen[1].method, Method::Post);
    assert_eq!(seen[1].path, "app/installations/99/access_tokens");
    assert_eq!(seen[1].url, "https://api.github.com/app/installations/99/access_tokens");
    assert_eq!(seen[1].body, None);
    assert_eq!(seen[0].bearer, seen[1].bearer);
    assert_eq!(seen[0].bearer.split('.').count(), 3);
    assert_eq!(seen[0].authorization, format!("Bearer {}", seen[0].bearer));
    assert_eq!(seen[1].authorization, format!("Bearer {}", seen[1].bearer));
}

#[test]
fn the_permissions_go_out_with_the_token_request() {
    let seen = RefCell::new(Vec::new());
    let options = TokenOptions::repository("acme/widgets/x").with_permissions(
        Permissions::new()
            .with_repositories(&["acme/widgets".to_string(), "acme/gears/more".to_string()])
            .with_scopes(&[(Scope::Metadata, Privileges::Read)]),
    );
    let fetched = fetch_token(&id(), &key(), &options, |request: &Request| {
        seen.borrow_mut().push(see(request));
        match request.method() {
            Method::Get => reply_of(200, "{\"id\": 5}"),
            Method::Post => reply_of(200, "{\"token\": \"t\"}"),
        }
    });
    assert_eq!(fetched.unwrap().expose(), "t");
    let seen = seen.into_inner();
    assert_eq!(seen.len(), 2);
    assert_eq!(seen[0].path, "repos/acme/widgets/installation");
    assert_eq!(seen[0].body, None);
    assert_eq!(seen[1].path, "app/installations/5/access_tokens");
    assert_eq!(
        seen[1].body,
        Some("{\"repositories\":[\"acme/widgets\",\"acme/gears\"],\"permissions\":{\"metadata\":\"read\"}}".to_string())
    );
}

#[test]
fn nothing_is_sent_where_the_key_is_no_key() {
    let seen = RefCell::new(Vec::new());
    let fetched = fetch_token(
        &id(),
        &SecretText::new("not-a-key".to_string()),
        &TokenOptions::repository("acme/widgets"),
        |request: &Request| {
            seen.borrow_mut().push(see(request));
            reply_of(200, "{\"id\": 1, \"token\": \"t\"}")
        },
    );
    match fetched {
        Err(error) => assert_eq!(error, TokenError::InvalidKey),
        Ok(token) => panic!("no token was expected, but {:?}", token),
    }
    assert!(seen.into_inner().is_empty());
}

#[test]
fn no_token_is_asked_for_where_the_lookup_is_refused() {
    let seen = RefCell::new(Vec::new());
    let fetched = fetch_token(&id(), &key(), &TokenOptions::repository("nobody/nothing"), |request: &Request| {
        seen.borrow_mut().push(see(request));
        reply_of(404, "{\"message\": \"Not Found\"}")
    });
    match fetched {
        Err(error) => {
            assert_eq!(error, TokenError::ResolverHttpFailure(404, "{\"message\": \"Not Found\"}".to_string()))
        }
        Ok(token) => panic!("no token was expected, but {:?}", token),
    }
    let seen = seen.into_inner();
    assert_eq!(seen.len(), 1);
    assert_eq!(seen[0].path, "repos/nobody/nothing/installation");
}

#[test]
fn each_failure_ends_the_fetching() {
    let cases: Vec<(Reply, Reply, TokenError, usize)> = vec![
        (Reply::Lost, Reply::Lost, TokenError::TransportFailure(Stage::Resolve), 1),
        (reply_of(200, "{}"), Reply::Lost, TokenError::DecodeFailure(Stage::Resolve), 1),
        (reply_of(500, "oops"), Reply::Lost, TokenError::ResolverHttpFailure(500, "oops".to_string()), 1),
        (reply_of(200, "{\"id\":1}"), Reply::Lost, TokenError::TransportFailure(Stage::Exchange), 2),
        (reply_of(200, "{\"id\":1}"), reply_of(200, "[]"), TokenError::DecodeFailure(Stage::Exchange), 2),
        (
            reply_of(200, "{\"id\":1}"),
            reply_of(422, "unknown"),
            TokenError::ExchangeHttpFailure(422, "unknown".to_string()),
            2,
        ),
    ];
    let key = key();
    for (first, second, expected, requests) in cases {
        let count = RefCell::new(0usize);
        let replies = RefCell::new(vec![second, first]);
        let fetched = fetch_token(&id(), &key, &TokenOptions::user("octocat"), |_request: &Request| {
            *count.borrow_mut() += 1;
            replies.borrow_mut().pop().unwrap()
        });
        match fetched {
            Err(error) => assert_eq!(error, expected),
            Ok(token) => panic!("no token was expected, but {:?}", token),
        }
        assert_eq!(count.into_inner(), requests);
    }
}

#[test]
fn the_adapter_is_told_where_and_how_to_ask() {
    assert_eq!(API_BASE, "https://api.github.com");
    assert_eq!(ACCEPT, "application/vnd.github+json");
    assert_eq!(USER_AGENT, "actions-token");
}

fn inputs(repository: Option<&str>, app_id: Option<&str>, app_pk: Option<&str>) -> Inputs {
    Inputs {
        repository: repository.map(str::to_string),
        app_id: app_id.map(str::to_string),
        app_pk: app_pk.map(str::to_string),
        permissions: None,
        duration: None,
    }
}

fn refused(inputs: Inputs) -> TokenError {
    match plan(inputs) {
        Err(error) => error,
        Ok(job) => panic!("no job was expected, but {:?}", job),
    }
}

#[test]
fn the_required_inputs_make_a_job() {
    let job = plan(inputs(Some("acme/widgets"), Some("123"), Some("pem"))).unwrap();
    assert_eq!(job.app_id.expose(), "123");
    assert_eq!(job.app_pk.expose(), "pem");
    assert_eq!(job.options.target(), &Target::Repository("acme/widgets".to_string()));
    assert_eq!(job.options.duration(), 10);
    assert_eq!(job.options.permissions(), None);
    assert_eq!(job.options, TokenOptions::repository("acme/widgets"));
}

#[test]
fn the_first_missing_input_is_named() {
    assert_eq!(refused(inputs(None, None, None)), TokenError::MissingInput(Input::Repository));
    assert_eq!(refused(inputs(None, Some("1"), Some("k"))), TokenError::MissingInput(Input::Repository));
    assert_eq!(refused(inputs(Some("a/b"), None, None)), TokenError::MissingInput(Input::AppId));
    assert_eq!(refused(inputs(Some("a/b"), None, Some("k"))), TokenError::MissingInput(Input::AppId));
    assert_eq!(refused(inputs(Some("a/b"), Some("1"), None)), TokenError::MissingInput(Input::AppKey));
}

#[test]
fn a_missing_input_comes_before_an_invalid_one() {
    let mut given = inputs(Some("a/b"), Some("1"), None);
    given.permissions = Some("permissions:\n  bogus: read\n".to_string());
    given.duration = Some("soon".to_string());
    assert_eq!(refused(given), TokenError::MissingInput(Input::AppKey));
}

#[test]
fn permissions_and_duration_are_read_from_the_inputs() {
    let mut given = inputs(Some("acme/widgets"), Some("1"), Some("k"));
    given.permissions = Some("repositories:\n  - acme/widgets\nscopes:\n  contents: write\n".to_string());
    given.duration = Some("30".to_string());
    let job = plan(given).unwrap();
    let permissions = Permissions::new()
        .with_repositories(&["acme/widgets".to_string()])
        .with_scopes(&[(Scope::Contents, Privileges::Write)]);
    assert_eq!(job.options.permissions(), Some(&permissions));
    assert_eq!(job.options.duration(), 30);
    assert_eq!(
        job.options,
        TokenOptions::repository("acme/widgets").with_permissions(permissions).with_duration(30)
    );
}

#[test]
fn a_duration_of_nothing_or_of_one_minute_is_taken() {
    for (text, minutes) in [("0", 0u64), ("1", 1), ("60", 60), ("1440", 1440)] {
        let mut given = inputs(Some("a/b"), Some("1"), Some("k"));
        given.duration = Some(text.to_string());
        assert_eq!(plan(given).unwrap().options.duration(), minutes);
    }
}

#[test]
fn an_input_without_a_character_counts_as_not_set() {
    assert_eq!(refused(inputs(Some(""), Some("1"), Some("k"))), TokenError::MissingInput(Input::Repository));
    assert_eq!(refused(inputs(Some("a/b"), Some(""), Some("k"))), TokenError::MissingInput(Input::AppId));
    assert_eq!(refused(inputs(Some("a/b"), Some("1"), Some(""))), TokenError::MissingInput(Input::AppKey));
    let mut given = inputs(Some("a/b"), Some("1"), Some("k"));
    given.permissions = Some(String::new());
    given.duration = Some(String::new());
    let job = plan(given).unwrap();
    assert_eq!(job.options, TokenOptions::repository("a/b"));
    assert_eq!(job.options.duration(), 10);
    assert_eq!(job.options.permissions(), None);
    assert_eq!(actions_token::inputs::input_set(Some(String::new())), None);
    assert_eq!(actions_token::inputs::input_set(Some(" ".to_string())), Some(" ".to_string()));
    assert_eq!(actions_token::inputs::input_set(None), None);
}

#[test]
fn a_duration_that_is_no_number_is_refused() {
    for text in [" ", "ten", "-1", "1.5", "10m", " 10", "18446744073709551616"] {
        let mut given = inputs(Some("a/b"), Some("1"), Some("k"));
        given.duration = Some(text.to_string());
        assert_eq!(refused(given), TokenError::InvalidInput(Input::Duration, Reason::Unreadable));
    }
}

#[test]
fn permissions_with_an_unknown_scope_are_refused_with_the_inputs() {
    let mut given = inputs(Some("a/b"), Some("1"), Some("k"));
    given.permissions = Some("permissions:\n  bogus: read\n".to_string());
    given.duration = Some("never".to_string());
    assert_eq!(
        refused(given),
        TokenError::InvalidInput(Input::Permissions, Reason::UnknownScope("bogus".to_string()))
    );
}
