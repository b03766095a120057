use egocms_updater::communicator::{Communicator, HttpMethod};
use egocms_updater::config::{open_connection, parse_arguments, ArgsError, EXPECTED_AMOUNT_OF_ARGUMENTS};

fn communicator() -> Communicator {
    Communicator::new(
        "https://localhost/rest/".to_string(),
        "materialkit/de/".to_string(),
        "12345".to_string(),
        "67890".to_string(),
        false,
    )
}

fn pairs(query: &[(String, String)]) -> Vec<(&str, &str)> {
    query.iter().map(|(k, v)| (k.as_str(), v.as_str())).collect()
}

#[test]
fn get_page_asks_the_site_for_the_id() {
    let request = communicator().get_page("56");
    assert_eq!(request.method, HttpMethod::Get);
    assert_eq!(request.url, "https://localhost/rest/materialkit/de/getPage");
    assert_eq!(pairs(&request.query), vec![("id", "56")]);
    assert!(request.json_body.is_none());
}

#[test]
fn update_extra_puts_the_document_to_the_page() {
    let request = communicator().update_extra("58", "{\"extra\":{}}".to_string());
    assert_eq!(request.method, HttpMethod::Put);
    assert_eq!(request.url, "https://localhost/rest/materialkit/de/58/updateExtra");
    assert!(request.query.is_empty());
    assert_eq!(request.json_body.as_deref(), Some("{\"extra\":{}}"));
}

#[test]
fn start_session_sends_user_and_token() {
    let request = communicator().start_session();
    assert_eq!(request.method, HttpMethod::Put);
    assert_eq!(request.url, "https://localhost/rest/startSession");
    assert_eq!(pairs(&request.query), vec![("user_id", "12345"), ("token", "67890")]);
    assert!(request.json_body.is_none());
}

#[test]
fn close_session_is_a_bare_put() {
    let request = communicator().close_session();
    assert_eq!(request.method, HttpMethod::Put);
    assert_eq!(request.url, "https://localhost/rest/closeSession");
    assert!(request.query.is_empty());
    assert!(request.json_body.is_none());
}

#[test]
fn test_environment_only_when_true() {
    let make = |flag: &str| {
        open_connection("r/".into(), "s/".into(), "u".into(), "t".into(), flag).is_test_environment()
    };
    assert!(make("true"));
    assert!(!make("false"));
    assert!(!make("True"));
    assert!(!make("true "));
    assert!(!make(""));
}

#[test]
fn open_connection_keeps_the_urls() {
    let c = open_connection("https://a/rest/".into(), "site/".into(), "u".into(), "t".into(), "false");
    assert_eq!(c.get_page("1").url, "https://a/rest/site/getPage");
    assert_eq!(c.start_session().url, "https://a/rest/startSession");
}

#[test]
fn parse_arguments_takes_exactly_three_after_the_binary() {
    let args: Vec<String> = ["bin", "./config/config.toml", "12345", "abcde"].iter().map(|s| s.to_string()).collect();
    assert_eq!(args.len(), EXPECTED_AMOUNT_OF_ARGUMENTS);
    let parsed = parse_arguments(&args).ok().unwrap();
    assert_eq!(parsed.config_path, "./config/config.toml");
    assert_eq!(parsed.user_id, "12345");
    assert_eq!(parsed.user_token, "abcde");
}

#[test]
fn parse_arguments_refuses_other_counts() {
    for n in [0usize, 1, 3, 5] {
        let args: Vec<String> = (0..n).map(|i| i.to_string()).collect();
        assert!(matches!(parse_arguments(&args), Err(ArgsError::InvalidNumberOfArguments)));
    }
}
