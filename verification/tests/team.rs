use std::cell::RefCell;

use slack::api::{finish, DecodeError, Error, TransportError};
use slack::params::Params;
use slack::sender::{MockSlackWebRequestSender, SlackWebRequestSender};
use slack::team::{access_logs, access_logs_params, info, AccessLogsResponse, InfoResponse};

const ACCESS_LOGS_BODY: &str = r#"{
            "ok": true,
            "logins": [
                {
                    "user_id": "U12345",
                    "username": "bob",
                    "date_first": 1422922864,
                    "date_last": 1422922864,
                    "count": 1,
                    "ip": "127.0.0.1",
                    "user_agent": "SlackWeb Mozilla\/5.0 (Macintosh; Intel Mac OS X 10_10_2) AppleWebKit\/537.36 (KHTML, like Gecko) Chrome\/41.0.2272.35 Safari\/537.36",
                    "isp": "BigCo ISP",
                    "country": "US",
                    "region": "CA"
                },
                {
                    "user_id": "U45678",
                    "username": "alice",
                    "date_first": 1422922493,
                    "date_last": 1422922493,
                    "count": 1,
                    "ip": "127.0.0.1",
                    "user_agent": "SlackWeb Mozilla\/5.0 (iPhone; CPU iPhone OS 8_1_3 like Mac OS X) AppleWebKit\/600.1.4 (KHTML, like Gecko) Version\/8.0 Mobile\/12B466 Safari\/600.1.4",
                    "isp": "BigCo ISP",
                    "country": "US",
                    "region": "CA"
                }
            ],
            "paging": {
                "count": 100,
                "total": 2,
                "page": 1,
                "pages": 1
            }
        }"#;

const INFO_BODY: &str = r#"{
            "ok": true,
            "team": {
                "id": "T12345",
                "name": "My Team",
                "domain": "example",
                "email_domain": "",
                "icon": {
                    "image_34": "https:\/\/...",
                    "image_44": "https:\/\/...",
                    "image_68": "https:\/\/...",
                    "image_88": "https:\/\/...",
                    "image_102": "https:\/\/...",
                    "image_132": "https:\/\/...",
                    "image_default": true
                }
            }
        }"#;

/// A sender that fails every time.
struct Unreachable;

impl SlackWebRequestSender for Unreachable {
    fn send_authed(
        &self,
        _method: &str,
        _token: &str,
        _params: Params,
    ) -> Result<String, TransportError> {
        Err(TransportError { message: "connection refused".to_string() })
    }
}

/// A sender that keeps what it was asked to send.
struct Recorder {
    seen: RefCell<Vec<(String, String, Vec<(String, String)>)>>,
}

impl SlackWebRequestSender for Recorder {
    fn send_authed(
        &self,
        method: &str,
        token: &str,
        params: Params,
    ) -> Result<String, TransportError> {
        self.seen.borrow_mut().push((
            method.to_string(),
            token.to_string(),
            params.entries().clone(),
        ));
        Ok(r#"{"ok": false, "err": "recorded"}"#.to_string())
    }
}

#[test]
fn general_api_error_response() {
    let client = MockSlackWebRequestSender::respond_with(r#"{"ok": false, "err": "some_error"}"#);
    let result = access_logs(&client, "TEST_TOKEN", None, None);
    assert!(result.is_err());
}

#[test]
fn access_logs_ok_response() {
    let client = MockSlackWebRequestSender::respond_with(ACCESS_LOGS_BODY);
    let result = access_logs(&client, "TEST_TOKEN", None, None);
    if let Err(err) = result {
        panic!("{:?}", err);
    }
    let result = result.unwrap();
    assert_eq!(result.logins[0].username, "bob");
    assert_eq!(result.logins[1].username, "alice");
}

#[test]
fn info_ok_response() {
    let client = MockSlackWebRequestSender::respond_with(INFO_BODY);
    let result = info(&client, "TEST_TOKEN");
    if let Err(err) = result {
        panic!("{:?}", err);
    }
    let result = result.unwrap();
    assert_eq!(result.team.name, "My Team");
    assert_eq!(result.team.icon.image_default, true);
}

#[test]
fn api_error_carries_the_message_exactly() {
    let client = MockSlackWebRequestSender::respond_with(r#"{"ok": false, "err": "some_error"}"#);
    assert_eq!(
        access_logs(&client, "TEST_TOKEN", None, None),
        Err(Error::Api("some_error".to_string()))
    );
    assert_eq!(info(&client, "TEST_TOKEN"), Err(Error::Api("some_error".to_string())));
}

#[test]
fn api_error_wins_over_payload_fields() {
    let client = MockSlackWebRequestSender::respond_with(
        r#"{"team": 3, "err": "account_inactive", "ok": false, "logins": []}"#,
    );
    assert_eq!(info(&client, "T"), Err(Error::Api("account_inactive".to_string())));
    assert_eq!(
        access_logs(&client, "T", Some(1), Some(2)),
        Err(Error::Api("account_inactive".to_string()))
    );
}

#[test]
fn api_error_message_is_unescaped() {
    let body = format!(r#"{{"ok": false, "err": "a\"b\\c{}u00e9\n"}}"#, '\\');
    let client = MockSlackWebRequestSender::respond_with(&body);
    assert_eq!(info(&client, "T"), Err(Error::Api("a\"b\\c\u{e9}\n".to_string())));
}

#[test]
fn refusal_without_message_is_a_decode_error() {
    let client = MockSlackWebRequestSender::respond_with(r#"{"ok": false}"#);
    assert_eq!(info(&client, "T"), Err(Error::Decode(DecodeError::Schema)));
    let client = MockSlackWebRequestSender::respond_with(r#"{"ok": false, "err": 7}"#);
    assert_eq!(info(&client, "T"), Err(Error::Decode(DecodeError::Schema)));
}

#[test]
fn access_logs_decodes_every_field() {
    let client = MockSlackWebRequestSender::respond_with(ACCESS_LOGS_BODY);
    let result = access_logs(&client, "TEST_TOKEN", Some(100), Some(1)).unwrap();
    assert_eq!(result.logins.len(), 2);
    let bob = &result.logins[0];
    assert_eq!(bob.user_id, "U12345");
    assert_eq!(bob.username, "bob");
    assert_eq!(bob.date_first, 1422922864);
    assert_eq!(bob.date_last, 1422922864);
    assert_eq!(bob.count, 1);
    assert_eq!(bob.ip, "127.0.0.1");
    assert_eq!(
        bob.user_agent,
        "SlackWeb Mozilla/5.0 (Macintosh; Intel Mac OS X 10_10_2) AppleWebKit/537.36 (KHTML, like Gecko) Chrome/41.0.2272.35 Safari/537.36"
    );
    assert_eq!(bob.isp, "BigCo ISP");
    assert_eq!(bob.country, "US");
    assert_eq!(bob.region, "CA");
    let alice = &result.logins[1];
    assert_eq!(alice.user_id, "U45678");
    assert_eq!(alice.date_first, 1422922493);
    assert_eq!(result.paging.count, 100);
    assert_eq!(result.paging.total, 2);
    assert_eq!(result.paging.page, 1);
    assert_eq!(result.paging.pages, 1);
}

#[test]
fn access_logs_keeps_order_and_duplicates() {
    let login = |name: &str| {
        format!(
            r#"{{"user_id": "U1", "username": "{}", "date_first": 1, "date_last": 2, "count": 3, "ip": "", "user_agent": "", "isp": "", "country": "", "region": ""}}"#,
            name
        )
    };
    let body = format!(
        r#"{{"ok": true, "logins": [{}, {}, {}, {}], "paging": {{"count": 4, "total": 4, "page": 1, "pages": 1}}}}"#,
        login("bob"),
        login("alice"),
        login("bob"),
        login("alice")
    );
    let client = MockSlackWebRequestSender::respond_with(&body);
    let result = access_logs(&client, "T", None, None).unwrap();
    let names: Vec<&str> = result.logins.iter().map(|l| l.username.as_str()).collect();
    assert_eq!(names, vec!["bob", "alice", "bob", "alice"]);
    assert_eq!(result.logins[0], result.logins[2]);
}

#[test]
fn access_logs_with_no_logins() {
    let client = MockSlackWebRequestSender::respond_with(
        r#"{"ok":true,"logins":[],"paging":{"count":100,"total":0,"page":1,"pages":0}}"#,
    );
    let result = access_logs(&client, "T", None, None).unwrap();
    assert!(result.logins.is_empty());
    assert_eq!(result.paging.total, 0);
}

#[test]
fn info_decodes_every_field() {
    let client = MockSlackWebRequestSender::respond_with(INFO_BODY);
    let team = info(&client, "TEST_TOKEN").unwrap().team;
    assert_eq!(team.id, "T12345");
    assert_eq!(team.name, "My Team");
    assert_eq!(team.domain, "example");
    assert_eq!(team.email_domain, "");
    assert_eq!(team.icon.image_34, "https://...");
    assert_eq!(team.icon.image_44, "https://...");
    assert_eq!(team.icon.image_68, "https://...");
    assert_eq!(team.icon.image_88, "https://...");
    assert_eq!(team.icon.image_102, "https://...");
    assert_eq!(team.icon.image_132, "https://...");
    assert!(team.icon.image_default);
}

#[test]
fn info_keeps_a_false_flag() {
    let body = INFO_BODY.replace("\"image_default\": true", "\"image_default\": false");
    let client = MockSlackWebRequestSender::respond_with(&body);
    assert_eq!(info(&client, "T").unwrap().team.icon.image_default, false);
}

#[test]
fn info_without_team_id_is_a_decode_error() {
    let body = INFO_BODY.replace("\"id\": \"T12345\",", "");
    let client = MockSlackWebRequestSender::respond_with(&body);
    assert_eq!(info(&client, "T"), Err(Error::Decode(DecodeError::Schema)));
}

#[test]
fn info_without_team_is_a_decode_error() {
    let client = MockSlackWebRequestSender::respond_with(r#"{"ok": true}"#);
    assert_eq!(info(&client, "T"), Err(Error::Decode(DecodeError::Schema)));
}

#[test]
fn mistyped_fields_are_decode_errors() {
    let body = INFO_BODY.replace("\"image_default\": true", "\"image_default\": \"true\"");
    let client = MockSlackWebRequestSender::respond_with(&body);
    assert_eq!(info(&client, "T"), Err(Error::Decode(DecodeError::Schema)));
    let body = INFO_BODY.replace("\"name\": \"My Team\"", "\"name\": 12");
    let client = MockSlackWebRequestSender::respond_with(&body);
    assert_eq!(info(&client, "T"), Err(Error::Decode(DecodeError::Schema)));
    let body = ACCESS_LOGS_BODY.replace("\"total\": 2", "\"total\": \"2\"");
    let client = MockSlackWebRequestSender::respond_with(&body);
    assert_eq!(access_logs(&client, "T", None, None), Err(Error::Decode(DecodeError::Schema)));
    let body = ACCESS_LOGS_BODY.replace("\"total\": 2", "\"total\": 4294967296");
    let client = MockSlackWebRequestSender::respond_with(&body);
    assert_eq!(access_logs(&client, "T", None, None), Err(Error::Decode(DecodeError::Schema)));
    let body = ACCESS_LOGS_BODY.replace("\"total\": 2", "\"total\": 4294967295");
    let client = MockSlackWebRequestSender::respond_with(&body);
    assert_eq!(access_logs(&client, "T", None, None).unwrap().paging.total, 4294967295);
}

#[test]
fn one_bad_login_fails_the_whole_list() {
    let body = ACCESS_LOGS_BODY.replace("\"username\": \"alice\",", "");
    let client = MockSlackWebRequestSender::respond_with(&body);
    assert_eq!(access_logs(&client, "T", None, None), Err(Error::Decode(DecodeError::Schema)));
}

#[test]
fn body_that_is_no_json_is_a_syntax_error() {
    for body in ["", "ok", "{\"ok\": true", "{\"ok\": true} x", "<html></html>"] {
        let client = MockSlackWebRequestSender::respond_with(body);
        assert_eq!(info(&client, "T"), Err(Error::Decode(DecodeError::Syntax)), "{}", body);
    }
}

#[test]
fn body_that_is_no_envelope_is_a_schema_error() {
    for body in ["[]", "true", "{}", "{\"ok\": 1}", "{\"ok\": \"true\"}", "\"ok\""] {
        let client = MockSlackWebRequestSender::respond_with(body);
        assert_eq!(info(&client, "T"), Err(Error::Decode(DecodeError::Schema)), "{}", body);
    }
}

#[test]
fn transport_error_is_handed_on_unchanged() {
    let expected = Err(Error::Transport(TransportError {
        message: "connection refused".to_string(),
    }));
    assert_eq!(info(&Unreachable, "T"), expected);
    assert_eq!(
        access_logs(&Unreachable, "T", Some(1), None),
        Err(Error::Transport(TransportError { message: "connection refused".to_string() }))
    );
}

#[test]
fn finish_decodes_a_body_and_keeps_an_error() {
    let done: Result<InfoResponse, Error> = finish(Ok(INFO_BODY.to_string()));
    assert_eq!(done.unwrap().team.id, "T12345");
    let done: Result<AccessLogsResponse, Error> =
        finish(Err(TransportError { message: "timed out".to_string() }));
    assert_eq!(done, Err(Error::Transport(TransportError { message: "timed out".to_string() })));
}

#[test]
fn access_logs_sends_method_token_and_given_parameters() {
    let client = Recorder { seen: RefCell::new(Vec::new()) };
    let _ = access_logs(&client, "TEST_TOKEN", Some(100), Some(7));
    let _ = access_logs(&client, "OTHER", None, Some(3));
    let _ = access_logs(&client, "TEST_TOKEN", None, None);
    let seen = client.seen.borrow();
    assert_eq!(seen.len(), 3);
    assert_eq!(seen[0].0, "team.accessLogs");
    assert_eq!(seen[0].1, "TEST_TOKEN");
    assert_eq!(
        seen[0].2,
        vec![("count".to_string(), "100".to_string()), ("page".to_string(), "7".to_string())]
    );
    assert_eq!(seen[1].1, "OTHER");
    assert_eq!(seen[1].2, vec![("page".to_string(), "3".to_string())]);
    assert!(seen[2].2.is_empty());
}

#[test]
fn info_sends_method_token_and_no_parameters() {
    let client = Recorder { seen: RefCell::new(Vec::new()) };
    assert_eq!(info(&client, "TEST_TOKEN"), Err(Error::Api("recorded".to_string())));
    let seen = client.seen.borrow();
    assert_eq!(seen.len(), 1);
    assert_eq!(seen[0].0, "team.info");
    assert_eq!(seen[0].1, "TEST_TOKEN");
    assert!(seen[0].2.is_empty());
}

#[test]
fn absent_arguments_are_left_out() {
    let params = access_logs_params(None, None);
    assert!(params.is_empty());
    assert_eq!(params.len(), 0);
    assert_eq!(params.get("count"), None);
    assert_eq!(params.get("page"), None);
    let params = access_logs_params(Some(5), None);
    assert_eq!(params.len(), 1);
    assert_eq!(params.get("count"), Some(&"5".to_string()));
    assert_eq!(params.get("page"), None);
    let params = access_logs_params(None, Some(0));
    assert_eq!(params.len(), 1);
    assert_eq!(params.get("count"), None);
    assert_eq!(params.get("page"), Some(&"0".to_string()));
}

#[test]
fn count_of_one_hundred_is_sent_as_its_digits() {
    let params = access_logs_params(Some(100), None);
    assert_eq!(params.get("count").map(|s| s.as_str()), Some("100"));
    assert_eq!(slack::decimal::parse_u32(params.get("count").unwrap()), Some(100));
    let params = access_logs_params(Some(u32::MAX), Some(u32::MAX));
    assert_eq!(params.get("count").map(|s| s.as_str()), Some("4294967295"));
    assert_eq!(params.get("page").map(|s| s.as_str()), Some("4294967295"));
}
