use garage_door::issuer::{default_scope, ClientType, Client, IssueBuildError, Issuer};
use garage_door::redirect::{RedirectUrl, RegisteredUrl};
use garage_door::secrets::{Key, SignatureAlgorithm};

fn key() -> Key {
    Key::new("k1".to_string(), b"secret".to_vec())
}

fn public(id: &str, urls: Vec<RedirectUrl>, scope: &str) -> Client {
    Client::Public {
        id: id.to_string(),
        redirect_urls: urls,
        default_scope: scope.to_string(),
    }
}

fn exact(url: &str, ignore_localhost_port: bool) -> RedirectUrl {
    RedirectUrl::Exact {
        url: url.to_string(),
        ignore_localhost_port,
    }
}

#[test]
fn key_accessors() {
    let k = key();
    assert_eq!(k.id(), "k1");
    assert_eq!(k.secret(), b"secret");
    assert_eq!(k.algorithm(), SignatureAlgorithm::HS256);
    let d = k.duplicate();
    assert_eq!(d.id(), "k1");
    assert_eq!(d.secret(), b"secret");
}

#[test]
fn client_ids_and_defaults() {
    assert_eq!(default_scope(), "openid");
    let c = Client::Confidential {
        id: "conf".to_string(),
        secret: "s".to_string(),
        default_scope: default_scope(),
    };
    assert_eq!(c.id(), "conf");
    assert_eq!(public("pub", vec![], "openid").id(), "pub");
}

#[test]
fn issuer_builder() {
    let i = Issuer::new(vec!["openid".to_string()]);
    assert!(i.clients.is_empty());
    let i = i.add_client(public("a", vec![], "openid"));
    assert_eq!(i.clients.len(), 1);
    assert_eq!(i.scopes, vec!["openid".to_string()]);
}

#[test]
fn build_registers_clients_in_order() {
    let issuer = Issuer::new(vec!["openid".to_string(), "profile email".to_string()])
        .add_client(Client::Confidential {
            id: "conf".to_string(),
            secret: "pw".to_string(),
            default_scope: "openid".to_string(),
        })
        .add_client(public(
            "web",
            vec![
                exact("http://localhost/cb", true),
                exact("https://app.example/cb", false),
            ],
            "openid profile",
        ));
    let st = issuer.build("http://127.0.0.1:8080/tenant", key()).unwrap();
    assert_eq!(st.issuer_base, "/tenant");
    assert_eq!(st.scopes, vec!["openid".to_string(), "profile email".to_string()]);
    assert_eq!(st.registrar.len(), 2);
    assert_eq!(st.registrar[0].client_id, "conf");
    assert!(st.registrar[0].redirect_uris.is_empty());
    assert!(matches!(&st.registrar[0].client_type, ClientType::Confidential { secret } if secret == "pw"));
    assert_eq!(st.registrar[1].client_id, "web");
    assert!(matches!(st.registrar[1].client_type, ClientType::Public));
    assert_eq!(
        st.registrar[1].redirect_uris,
        vec![
            RegisteredUrl::IgnorePortOnLocalhost("http://localhost/cb".to_string()),
            RegisteredUrl::Exact("https://app.example/cb".to_string()),
        ]
    );
    assert!(st.check_redirect("web", "http://localhost:4711/cb"));
    assert!(st.check_redirect("web", "https://app.example/cb"));
    assert!(!st.check_redirect("web", "https://app.example:444/cb"));
    assert!(!st.check_redirect("conf", "http://localhost/cb"));
    assert!(!st.check_redirect("nobody", "http://localhost/cb"));
    assert_eq!(st.key.id(), "k1");
}

#[test]
fn build_refuses_public_client_without_redirect() {
    let issuer = Issuer::new(vec![]).add_client(public("p", vec![], "openid"));
    assert!(matches!(
        issuer.build("http://localhost/t", key()),
        Err(IssueBuildError::MissingRedirectUri)
    ));
}

#[test]
fn build_refuses_bad_redirect_url() {
    let issuer = Issuer::new(vec![]).add_client(public("p", vec![exact("no url", false)], "openid"));
    assert!(matches!(
        issuer.build("http://localhost/t", key()),
        Err(IssueBuildError::Url(_))
    ));
}

#[test]
fn build_refuses_bad_scopes() {
    let issuer = Issuer::new(vec![]).add_client(public(
        "p",
        vec![exact("http://localhost/", false)],
        "open\"id",
    ));
    assert!(matches!(
        issuer.build("http://localhost/t", key()),
        Err(IssueBuildError::Scope(_))
    ));
    let issuer = Issuer::new(vec!["ok".to_string(), "bad\\scope".to_string()]);
    assert!(matches!(
        issuer.build("http://localhost/t", key()),
        Err(IssueBuildError::Scope(_))
    ));
}

#[test]
fn build_refuses_bad_base() {
    let issuer = Issuer::new(vec![]);
    assert!(matches!(issuer.build("not a url", key()), Err(IssueBuildError::Url(_))));
}

#[test]
fn keys_and_userinfo() {
    let st = Issuer::new(vec![]).build("http://localhost/t", key()).unwrap();
    assert!(st.keys().is_empty());
    assert_eq!(st.userinfo().subject, "Marvin");
}

#[test]
fn discovery_document() {
    let st = Issuer::new(vec!["openid".to_string(), "email".to_string()])
        .build("https://id.example/t1", key())
        .unwrap();
    let d = st.discovery("https://id.example/t1").unwrap();
    assert_eq!(d.issuer, "https://id.example/t1");
    assert_eq!(d.authorization_endpoint, "https://id.example/t1/auth");
    assert_eq!(d.jwks_uri, "https://id.example/t1/keys");
    assert_eq!(d.token_endpoint, "https://id.example/t1/token");
    assert_eq!(d.userinfo_endpoint, "https://id.example/t1/userinfo");
    assert_eq!(d.response_types_supported, vec!["token".to_string()]);
    assert_eq!(d.subject_types_supported, vec!["public".to_string()]);
    assert!(d.id_token_signing_alg_values_supported.is_empty());
    assert_eq!(d.scopes_supported, vec!["openid".to_string(), "email".to_string()]);
    assert_eq!(
        d.grant_types_supported,
        vec!["client_credentials".to_string(), "authorization_code".to_string()]
    );
    assert_eq!(
        d.token_endpoint_auth_methods_supported,
        vec!["client_secret_basic".to_string(), "client_secret_post".to_string()]
    );
    assert!(st.discovery("mailto:someone@example.com").is_err());
}
