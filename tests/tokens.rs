use biscuit::jwa::SignatureAlgorithm;
use biscuit::jws::Secret;
use biscuit::CompactPart;
use garage_door::context::{ConnectionInformation, ConnectionInformationData};
use garage_door::oidc::AccessTokenClaims;
use garage_door::secrets::Key;
use garage_door::token::{
    encode, header, Grant, GrantExtension, JwtAccessGenerator, JwtIdGenerator, TokenError,
};

fn key() -> Key {
    Key::new("k1".to_string(), b"0123456789abcdef".to_vec())
}

fn part(token: &str, i: usize) -> Vec<u8> {
    let p = token.split('.').nth(i).unwrap();
    Vec::<u8>::from_base64(&p).unwrap()
}

fn json_part(token: &str, i: usize) -> serde_json::Value {
    serde_json::from_slice(&part(token, i)).unwrap()
}

fn signature_ok(token: &str, secret: &[u8]) -> bool {
    let mut it = token.rsplitn(2, '.');
    let sig = it.next().unwrap();
    let input = it.next().unwrap();
    let sig = Vec::<u8>::from_base64(&sig).unwrap();
    SignatureAlgorithm::HS256
        .verify(&sig, input.as_bytes(), &Secret::Bytes(secret.to_vec()))
        .is_ok()
}

fn grant_with(extensions: Vec<GrantExtension>) -> Grant {
    Grant {
        owner_id: "owner".to_string(),
        client_id: "client".to_string(),
        scope: "openid profile".to_string(),
        until: 1_700_000_600,
        extensions,
    }
}

fn context_extension(scheme: &str, host: &str) -> GrantExtension {
    GrantExtension {
        id: ConnectionInformation::id().to_string(),
        private: Some(
            ConnectionInformation(ConnectionInformationData {
                scheme: scheme.to_string(),
                host: host.to_string(),
            })
            .encode(),
        ),
    }
}

#[test]
fn jws_header_names_key() {
    assert_eq!(header(&key()), r#"{"alg":"HS256","kid":"k1","typ":"JWT"}"#);
}

#[test]
fn encode_signs_with_hmac() {
    let t = encode(&key(), r#"{"a":1}"#).unwrap();
    assert_eq!(t.split('.').count(), 3);
    assert!(t.starts_with("eyJhbGciOiJIUzI1NiIsImtpZCI6ImsxIiwidHlwIjoiSldUIn0.eyJhIjoxfQ."));
    assert_eq!(part(&t, 1), br#"{"a":1}"#.to_vec());
    assert_eq!(json_part(&t, 0)["alg"], "HS256");
    assert!(signature_ok(&t, b"0123456789abcdef"));
    assert!(!signature_ok(&t, b"another secret"));
}

#[test]
fn access_token_claims() {
    let g = JwtAccessGenerator::new("/tenant".to_string(), key());
    let grant = grant_with(vec![
        GrantExtension {
            id: "other".to_string(),
            private: Some("x".to_string()),
        },
        GrantExtension {
            id: ConnectionInformation::id().to_string(),
            private: Some("not a context".to_string()),
        },
        context_extension("https", "id.example:8443"),
        context_extension("http", "second.example"),
    ]);
    let t = g.create_at(&grant, 1_700_000_000).unwrap();
    let claims = json_part(&t, 1);
    assert_eq!(claims["iss"], "https://id.example:8443/tenant");
    assert_eq!(claims["sub"], "owner");
    assert_eq!(claims["aud"], "some-audience");
    assert_eq!(claims["exp"], 1_700_000_600i64);
    assert_eq!(claims["iat"], 1_700_000_000i64);
    assert_eq!(claims["azp"], "client");
    assert_eq!(claims["scope"], "openid profile");
    assert_eq!(claims.as_object().unwrap().len(), 7);
    assert_eq!(json_part(&t, 0)["kid"], "k1");
    assert!(signature_ok(&t, b"0123456789abcdef"));
}

#[test]
fn access_token_negative_times_and_empty_scope() {
    let g = JwtAccessGenerator::new("".to_string(), key());
    let mut grant = grant_with(vec![context_extension("http", "h")]);
    grant.scope = String::new();
    grant.until = -42;
    let t = g.create_at(&grant, i64::MIN).unwrap();
    let claims = json_part(&t, 1);
    assert_eq!(claims["exp"], -42);
    assert_eq!(claims["iat"], i64::MIN);
    assert!(claims.get("scope").is_none());
    assert_eq!(claims["iss"], "http://h");
}

#[test]
fn access_token_needs_context() {
    let g = JwtAccessGenerator::new("/t".to_string(), key());
    let grant = grant_with(vec![GrantExtension {
        id: ConnectionInformation::id().to_string(),
        private: None,
    }]);
    assert!(matches!(
        g.create_at(&grant, 0),
        Err(TokenError::MissingConnectionContext)
    ));
    assert!(matches!(
        g.create(&grant_with(vec![])),
        Err(TokenError::MissingConnectionContext)
    ));
    assert!(g.create(&grant_with(vec![context_extension("http", "h")])).is_ok());
}

#[test]
fn id_token_claims() {
    let g = JwtIdGenerator::new(key(), "https://id.example/t1".to_string());
    let t = g.create_at(1000).unwrap();
    let claims = json_part(&t, 1);
    assert_eq!(claims["iss"], "https://id.example/t1");
    assert_eq!(claims["aud"], "some-audience");
    assert_eq!(claims["iat"], 1000);
    assert_eq!(claims["exp"], 1600);
    assert_eq!(claims["sub"], "Marvin");
    assert!(signature_ok(&t, b"0123456789abcdef"));
    assert!(g.create().is_ok());
}

#[test]
fn access_claims_default() {
    let c = AccessTokenClaims::default();
    assert!(c.azp.is_none() && c.auth_time.is_none() && c.scope.is_empty());
    assert!(c.preferred_username.is_none() && c.email_verified.is_none());
}
