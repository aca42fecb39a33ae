use garage_door::dispatch::{
    amend_id_token, authorization_subject, finish_token_response, logout_action, needs_id_token,
    select_flow, should_amend, GrantFlow, LogoutAction,
};
use garage_door::error::Error;
use garage_door::secrets::Key;
use garage_door::token::JwtIdGenerator;

fn generator() -> JwtIdGenerator {
    JwtIdGenerator::new(
        Key::new("k".to_string(), b"key".to_vec()),
        "https://id.example/t".to_string(),
    )
}

#[test]
fn flow_selection() {
    assert_eq!(select_flow(Some("client_credentials")), GrantFlow::ClientCredentials);
    assert_eq!(select_flow(Some("refresh_token")), GrantFlow::Refresh);
    assert_eq!(select_flow(Some("authorization_code")), GrantFlow::AuthorizationCode);
    assert_eq!(select_flow(Some("")), GrantFlow::AuthorizationCode);
    assert_eq!(select_flow(None), GrantFlow::AuthorizationCode);
    assert!(GrantFlow::AuthorizationCode.amends_id_token());
    assert!(!GrantFlow::Refresh.amends_id_token());
    assert!(!GrantFlow::ClientCredentials.amends_id_token());
}

#[test]
fn consent_subjects() {
    assert_eq!(
        GrantFlow::ClientCredentials.consent_subject("svc"),
        Some("svc".to_string())
    );
    assert_eq!(GrantFlow::Refresh.consent_subject("svc"), None);
    assert_eq!(GrantFlow::AuthorizationCode.consent_subject("svc"), None);
    assert_eq!(authorization_subject(), "Marvin");
}

#[test]
fn amend_adds_id_token() {
    let body = r#"{"access_token":"x","token_type":"bearer"}"#.to_string();
    let out = amend_id_token(body, &generator(), 1000).unwrap();
    let v: serde_json::Value = serde_json::from_str(&out).unwrap();
    assert_eq!(v["access_token"], "x");
    assert_eq!(v["token_type"], "bearer");
    let id = v["id_token"].as_str().unwrap();
    assert!(!id.is_empty());
    assert_eq!(id, generator().create_at(1000).unwrap());
}

#[test]
fn amend_keeps_body_without_access_token() {
    for body in [
        r#"{"error":"invalid_grant"}"#,
        r#"{ "token_type" : "bearer" }"#,
        r#"{"access_token":""}"#,
        r#"{"access_token":5}"#,
        "not json at all",
    ] {
        let out = amend_id_token(body.to_string(), &generator(), 1000).unwrap();
        assert_eq!(out, body);
    }
}

#[test]
fn refresh_is_never_amended() {
    let body = r#"{"access_token":"x","token_type":"bearer"}"#.to_string();
    let out = finish_token_response(GrantFlow::Refresh, body.clone(), &generator(), 1000).unwrap();
    assert_eq!(out, body);
    let out =
        finish_token_response(GrantFlow::ClientCredentials, body.clone(), &generator(), 1000).unwrap();
    assert_eq!(out, body);
    let out =
        finish_token_response(GrantFlow::AuthorizationCode, body.clone(), &generator(), 1000).unwrap();
    assert!(out.contains("id_token"));
}

#[test]
fn unknown_issuer_error_body() {
    let e = Error::UnknownIssuer("ghost".to_string());
    assert_eq!(e.status(), 404);
    let b = e.to_body();
    assert_eq!(b.error, "UnknownIssuer");
    assert_eq!(b.message, "unknown issuer: ghost");
}

#[test]
fn other_errors_are_internal() {
    assert_eq!(Error::Url.status(), 500);
    assert_eq!(Error::Url.to_body().message, "url error");
    assert_eq!(Error::Serde.name(), "Serde");
    assert_eq!(Error::Generic("x".to_string()).message(), "generic error: x");
    let parse = url::Url::parse("nope").unwrap_err();
    let e = Error::UrlParse(parse);
    assert_eq!(e.status(), 500);
    assert_eq!(e.message(), format!("url parse error: {parse}"));
}

#[test]
fn amend_decision() {
    assert!(should_amend(&Some("x".to_string())));
    assert!(!should_amend(&Some(String::new())));
    assert!(!should_amend(&None));
}

#[test]
fn logout_answers() {
    assert_eq!(
        logout_action(Some("https://app.example/bye".to_string())),
        LogoutAction::Redirect("https://app.example/bye".to_string())
    );
    assert_eq!(logout_action(None), LogoutAction::NoContent);
}

#[test]
fn id_token_needed_only_for_code_exchange_with_token() {
    let with = r#"{"access_token":"x"}"#;
    let without = r#"{"error":"invalid_grant"}"#;
    assert!(needs_id_token(GrantFlow::AuthorizationCode, with));
    assert!(!needs_id_token(GrantFlow::AuthorizationCode, without));
    assert!(!needs_id_token(GrantFlow::Refresh, with));
    assert!(!needs_id_token(GrantFlow::ClientCredentials, with));
}

#[test]
fn amend_fails_only_on_non_object() {
    let out = amend_id_token(r#"{"access_token":"x"}"#.to_string(), &generator(), 0).unwrap();
    assert!(out.contains("id_token"));
}
