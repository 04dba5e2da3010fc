use sdi_desktop::autonomy::{
    breaker_outcome, circuit_breaker, circuit_breaker_request, first_project_id, first_project_in,
    http_get_body, mode_in, projects_request, resolve_mode, resolve_mode_path,
    resolve_mode_request, url_encode, AutonomyMode, BreakerError,
};
use sdi_desktop::http::{HttpError, HttpResp};
use sdi_desktop::json::{parse_json, Json};

fn ok(body: &str) -> Vec<u8> {
    format!("HTTP/1.1 200 OK\r\nContent-Type: application/json\r\n\r\n{body}").into_bytes()
}

#[test]
fn url_encode_escapes_path_components() {
    assert_eq!(url_encode("PROJ-abc_123"), "PROJ-abc_123");
    assert_eq!(url_encode("a b"), "a%20b");
}

#[test]
fn mode_labels_match_protocol() {
    assert_eq!(AutonomyMode::L3.label(), "L3");
    assert_eq!(AutonomyMode::L4.label(), "L4");
    assert_eq!(AutonomyMode::L5.label(), "L5");
    assert_eq!(AutonomyMode::Unknown.label(), "\u{2014}");
}

#[test]
fn url_encode_writes_upper_case_hexadecimal() {
    assert_eq!(url_encode(""), "");
    assert_eq!(url_encode("-_.~"), "-_.~");
    assert_eq!(url_encode("/?&=+%"), "%2F%3F%26%3D%2B%25");
    assert_eq!(url_encode("\u{e9}"), "%C3%A9");
    assert_eq!(url_encode("\u{0}\u{7f}"), "%00%7F");
    assert_eq!(url_encode("@[`{"), "%40%5B%60%7B");
}

#[test]
fn paths_differ_where_ids_differ() {
    assert_eq!(
        resolve_mode_path("a b"),
        "/autonomy_policies/resolve?project_id=a%20b"
    );
    assert_eq!(
        resolve_mode_path("a%20b"),
        "/autonomy_policies/resolve?project_id=a%2520b"
    );
}

#[test]
fn request_line_holds_the_path_whatever_the_id() {
    let request = resolve_mode_request("a\r\nb c");
    let line = request.lines().next().unwrap();
    assert_eq!(
        line,
        "GET /autonomy_policies/resolve?project_id=a%0D%0Ab%20c HTTP/1.1"
    );
    assert_eq!(
        line.split_whitespace().nth(1),
        Some("/autonomy_policies/resolve?project_id=a%0D%0Ab%20c")
    );
    assert!(projects_request().starts_with("GET /projects HTTP/1.1\r\n"));
}

#[test]
fn get_body_refuses_from_400_on() {
    assert_eq!(http_get_body("/projects", &ok("[]")).unwrap(), "[]");
    assert_eq!(
        http_get_body("/projects", b"HTTP/1.1 404 Not Found\r\n\r\n").unwrap_err(),
        "GET /projects HTTP 404"
    );
    assert_eq!(
        http_get_body("/projects", b"\r\n\r\n").unwrap_err(),
        "no status line"
    );
    assert_eq!(http_get_body("/p", b"x").unwrap_err(), "no header/body split");
}

#[test]
fn first_project_is_read_from_a_list() {
    assert_eq!(
        first_project_id(Some(&ok(r#"[{"id":"P1"},{"id":"P2"}]"#))),
        Some("P1".to_string())
    );
    assert_eq!(
        first_project_id(Some(&ok(r#"{"projects":[{"id":"P7"}]}"#))),
        Some("P7".to_string())
    );
}

#[test]
fn first_field_of_an_object_is_the_first_by_key() {
    assert_eq!(
        first_project_id(Some(&ok(r#"{"z":[{"id":"last"}],"a":[{"id":"first"}]}"#))),
        Some("first".to_string())
    );
    assert_eq!(
        first_project_id(Some(&ok(r#"{"projects":[{"id":"P7"}],"count":1}"#))),
        None
    );
}

#[test]
fn no_first_project_where_none_can_be_read() {
    assert_eq!(first_project_id(None), None);
    assert_eq!(first_project_id(Some(&ok("[]"))), None);
    assert_eq!(first_project_id(Some(&ok("{}"))), None);
    assert_eq!(first_project_id(Some(&ok("3"))), None);
    assert_eq!(first_project_id(Some(&ok("[{\"id\":7}]"))), None);
    assert_eq!(first_project_id(Some(&ok("[{\"name\":\"x\"}]"))), None);
    assert_eq!(first_project_id(Some(&ok("no json"))), None);
    assert_eq!(
        first_project_id(Some(b"HTTP/1.1 500 x\r\n\r\n[{\"id\":\"P1\"}]")),
        None
    );
}

#[test]
fn first_project_of_a_document() {
    let document = Json::Array(vec![Json::Object(vec![(
        "id".to_string(),
        Json::Text("P".to_string()),
    )])]);
    assert_eq!(first_project_in(&document), Some("P".to_string()));
    assert_eq!(first_project_in(&Json::Array(vec![])), None);
    assert_eq!(first_project_in(&Json::Null), None);
}

#[test]
fn mode_is_what_the_policy_names() {
    assert_eq!(
        resolve_mode("P", Some(&ok(r#"{"policy":{"mode":"L3"}}"#))),
        AutonomyMode::L3
    );
    assert_eq!(
        resolve_mode("P", Some(&ok(r#"{"policy":{"mode":"L4"}}"#))),
        AutonomyMode::L4
    );
    assert_eq!(
        resolve_mode("P", Some(&ok(r#"{"policy":{"mode":"L5"}}"#))),
        AutonomyMode::L5
    );
}

#[test]
fn mode_is_unknown_where_the_daemon_names_none() {
    assert_eq!(resolve_mode("P", None), AutonomyMode::Unknown);
    assert_eq!(
        resolve_mode("P", Some(&ok(r#"{"policy":null}"#))),
        AutonomyMode::Unknown
    );
    assert_eq!(
        resolve_mode("P", Some(&ok(r#"{"mode":"L3"}"#))),
        AutonomyMode::Unknown
    );
    assert_eq!(
        resolve_mode("P", Some(&ok(r#"{"policy":{"mode":"l3"}}"#))),
        AutonomyMode::Unknown
    );
    assert_eq!(
        resolve_mode("P", Some(&ok(r#"{"policy":{"mode":3}}"#))),
        AutonomyMode::Unknown
    );
    assert_eq!(resolve_mode("P", Some(&ok("[]"))), AutonomyMode::Unknown);
    assert_eq!(resolve_mode("P", Some(&ok("{"))), AutonomyMode::Unknown);
    assert_eq!(
        resolve_mode(
            "P",
            Some(b"HTTP/1.1 404 x\r\n\r\n{\"policy\":{\"mode\":\"L3\"}}")
        ),
        AutonomyMode::Unknown
    );
}

#[test]
fn mode_of_a_document() {
    let document = parse_json(r#"{"policy":{"mode":"L4","plan":null}}"#).unwrap();
    assert_eq!(mode_in(&document), AutonomyMode::L4);
    assert_eq!(mode_in(&Json::Null), AutonomyMode::Unknown);
}

#[test]
fn breaker_posts_project_actor_and_reason() {
    let request = circuit_breaker_request("P \"1\"", "a\nb \u{1F534}").unwrap();
    let (head, body) = request.split_once("\r\n\r\n").unwrap();
    assert!(head.starts_with("POST /autonomy_policies/circuit_breaker HTTP/1.1\r\n"));
    assert!(head.contains(&format!("Content-Length: {}\r\n", body.len())));
    let value: serde_json::Value = serde_json::from_str(body).unwrap();
    let object = value.as_object().unwrap();
    assert_eq!(object.len(), 3);
    assert_eq!(object["project_id"].as_str(), Some("P \"1\""));
    assert_eq!(object["actor"].as_str(), Some("sdi-desktop"));
    assert_eq!(object["reason"].as_str(), Some("a\nb \u{1F534}"));
    assert_eq!(
        body,
        "{\"actor\":\"sdi-desktop\",\"project_id\":\"P \\\"1\\\"\",\"reason\":\"a\\nb \u{1F534}\"}"
    );
}

#[test]
fn breaker_reports_how_many_were_demoted() {
    assert_eq!(circuit_breaker(&ok(r#"{"demoted":4}"#)).unwrap(), 4);
    assert_eq!(circuit_breaker(&ok(r#"{"demoted":-1}"#)).unwrap(), 0);
    assert_eq!(circuit_breaker(&ok(r#"{"demoted":1.5}"#)).unwrap(), 0);
    assert_eq!(circuit_breaker(&ok(r#"{"demoted":"4"}"#)).unwrap(), 0);
    assert_eq!(circuit_breaker(&ok("{}")).unwrap(), 0);
    assert_eq!(circuit_breaker(&ok("[]")).unwrap(), 0);
}

#[test]
fn breaker_error_when_the_answer_is_no_response() {
    let e = circuit_breaker(b"nothing").unwrap_err();
    assert!(matches!(e, BreakerError::Http(HttpError::NoSplit)));
    assert_eq!(e.message(), "no header/body split");
}

#[test]
fn breaker_error_when_the_body_is_no_json() {
    let e = circuit_breaker(b"HTTP/1.1 500 x\r\n\r\noops").unwrap_err();
    let wanted = serde_json::from_str::<serde_json::Value>("oops").unwrap_err();
    assert!(matches!(e, BreakerError::Json(_)));
    assert_eq!(e.message(), wanted.to_string());
}

#[test]
fn breaker_error_when_the_daemon_refuses() {
    let e = circuit_breaker(b"HTTP/1.1 409 x\r\n\r\n{\"error\":\"busy\"}").unwrap_err();
    assert!(matches!(e, BreakerError::Refused { status: 409, .. }));
    assert_eq!(
        e.message(),
        "circuit_breaker HTTP 409 \u{2014} {\"error\":\"busy\"}"
    );
}

#[test]
fn breaker_outcome_follows_status_and_document() {
    let resp = |status: u16| HttpResp { status, body: "b".to_string() };
    let demoted = || {
        Ok(Json::Object(vec![(
            "demoted".to_string(),
            Json::Number(Some(2)),
        )]))
    };
    assert_eq!(breaker_outcome(resp(399), demoted()).unwrap(), 2);
    assert!(matches!(
        breaker_outcome(resp(400), demoted()),
        Err(BreakerError::Refused { status: 400, .. })
    ));
    assert!(matches!(
        breaker_outcome(resp(200), Err("bad".to_string())),
        Err(BreakerError::Json(_))
    ));
}

#[test]
fn percent_signs_begin_escapes_alone() {
    for code in 0u32..0x3000 {
        let Some(c) = char::from_u32(code) else { continue };
        let out = url_encode(&c.to_string());
        if c.is_ascii_alphanumeric() || "-_.~".contains(c) {
            assert_eq!(out, c.to_string());
        } else {
            let wanted: String = c.to_string().bytes().map(|b| format!("%{b:02X}")).collect();
            assert_eq!(out, wanted);
        }
    }
}
