use garage_door::context::ConnectionInformationData;
use garage_door::error::Error;
use garage_door::issuer::{Client, IssueBuildError, Issuer};
use garage_door::redirect::RedirectUrl;
use garage_door::secrets::Key;
use garage_door::server::{Error as ServerError, Server};
use garage_door::state::{ApplicationState, TenantConfig};

fn tenant(name: &str) -> TenantConfig {
    TenantConfig {
        name: name.to_string(),
        issuer: Issuer::new(vec!["openid".to_string()]),
        key: Key::new(name.to_string(), name.as_bytes().to_vec()),
    }
}

fn conn(scheme: &str, host: &str) -> ConnectionInformationData {
    ConnectionInformationData {
        scheme: scheme.to_string(),
        host: host.to_string(),
    }
}

#[test]
fn server_defaults_and_setters() {
    let mut s = Server::new();
    assert_eq!(s.get_port(), 8080);
    assert_eq!(s.get_base(), None);
    assert_eq!(s.get_workers(), None);
    s.port(9000);
    s.base("idp".to_string());
    s.workers(4);
    assert_eq!(s.get_port(), 9000);
    assert_eq!(s.get_base(), Some("idp"));
    assert_eq!(s.get_workers(), Some(4));
}

#[test]
fn duplicate_issuer_refused() {
    let mut s = Server::new();
    assert!(s.add_issuer("a".to_string(), Issuer::new(vec![])).is_ok());
    assert!(s.add_issuer("b".to_string(), Issuer::new(vec![])).is_ok());
    assert!(s.has_issuer("a"));
    let r = s.add_issuer("a".to_string(), Issuer::new(vec!["x".to_string()]));
    assert!(matches!(r, Err(ServerError::DuplicateIssuer(n)) if n == "a"));
    assert!(!s.has_issuer("a"));
    assert!(s.has_issuer("b"));
    let tenants = s.into_issuers();
    assert_eq!(tenants.len(), 1);
    assert_eq!(tenants[0].0, "b");
}

#[test]
fn duplicate_in_list_refuses_all() {
    let list = vec![
        ("a".to_string(), Issuer::new(vec![])),
        ("b".to_string(), Issuer::new(vec![])),
        ("a".to_string(), Issuer::new(vec![])),
    ];
    let r = Server::new().add_issuers(list);
    assert!(matches!(r, Err(ServerError::DuplicateIssuer(n)) if n == "a"));
    let list = vec![
        ("a".to_string(), Issuer::new(vec![])),
        ("b".to_string(), Issuer::new(vec![])),
    ];
    let s = Server::new().add_issuers(list).ok().unwrap();
    let names: Vec<String> = s.into_issuers().into_iter().map(|(n, _)| n).collect();
    assert_eq!(names, vec!["a".to_string(), "b".to_string()]);
}

#[test]
fn state_builds_tenants_under_base() {
    let st = ApplicationState::new(
        vec![tenant("t1"), tenant("t2")],
        "http://127.0.0.1:8080",
        None,
    )
    .ok()
    .unwrap();
    assert_eq!(st.issuers(), vec!["t1".to_string(), "t2".to_string()]);
    assert_eq!(st.issuer("t1").unwrap().issuer_base, "/t1");
    assert_eq!(st.issuer("t2").unwrap().key.id(), "t2");
    assert!(st.issuer("ghost").is_none());
    assert_eq!(st.build_base(&conn("https", "id.example")).unwrap(), "https://id.example/");
    assert_eq!(
        st.issuer_url(&conn("https", "id.example"), "t1").unwrap(),
        "https://id.example/t1"
    );
}

#[test]
fn state_with_base_path() {
    let st = ApplicationState::new(
        vec![tenant("t1")],
        "http://127.0.0.1:8080",
        Some("idp".to_string()),
    )
    .ok()
    .unwrap();
    assert_eq!(st.issuer("t1").unwrap().issuer_base, "/idp/t1");
    assert_eq!(
        st.build_base(&conn("http", "proxy.example:81")).unwrap(),
        "http://proxy.example:81/idp"
    );
}

#[test]
fn state_refuses_bad_tenant() {
    let bad = TenantConfig {
        name: "t".to_string(),
        issuer: Issuer::new(vec![]).add_client(Client::Public {
            id: "p".to_string(),
            redirect_urls: Vec::<RedirectUrl>::new(),
            default_scope: "openid".to_string(),
        }),
        key: Key::new("k".to_string(), vec![]),
    };
    let r = ApplicationState::new(vec![tenant("ok"), bad], "http://localhost", None);
    assert!(matches!(r, Err(IssueBuildError::MissingRedirectUri)));
    let r = ApplicationState::new(vec![tenant("ok")], "mailto:x@example.com", None);
    assert!(matches!(r, Err(IssueBuildError::CannotBeABase)));
}

#[test]
fn id_generator_per_request() {
    let st = ApplicationState::new(vec![tenant("t1")], "http://127.0.0.1:8080", None)
        .ok()
        .unwrap();
    let g = st.id_generator(&conn("https", "id.example"), "t1").ok().unwrap();
    let token = g.create_at(5).unwrap();
    assert_eq!(token.split('.').count(), 3);
    let e = st.id_generator(&conn("https", "id.example"), "ghost").err().unwrap();
    assert!(matches!(e, Error::UnknownIssuer(n) if n == "ghost"));
    let e = st.id_generator(&conn("https", "bad host name"), "t1").err().unwrap();
    assert!(matches!(e, Error::UrlParse(_)));
}

#[test]
fn server_default_is_new() {
    let s = Server::default();
    assert_eq!(s.get_port(), 8080);
    assert!(s.into_issuers().is_empty());
}

#[test]
fn state_refuses_duplicate_tenants() {
    let r = ApplicationState::new(
        vec![tenant("a"), tenant("b"), tenant("a")],
        "http://localhost",
        None,
    );
    assert!(matches!(r, Err(IssueBuildError::DuplicateIssuer(n)) if n == "a"));
}
