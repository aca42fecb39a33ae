use garage_door::redirect::{
    deserialize_vec, host_is_localhost, is_localhost, same_parts_except_fragment,
    same_parts_except_port, RedirectUrl, RedirectUrlOrString, RegisteredUrl,
};
use garage_door::uri::parse_url;

fn exact(url: &str, ignore_localhost_port: bool) -> RedirectUrl {
    RedirectUrl::Exact {
        url: url.to_string(),
        ignore_localhost_port,
    }
}

fn registered(rule: RedirectUrl) -> RegisteredUrl {
    RegisteredUrl::try_from(rule).unwrap()
}

#[test]
fn deser_client() {
    let items = vec![
        RedirectUrlOrString::Bare("https://example.com/foo".to_string()),
        RedirectUrlOrString::Bare("https://localhost/foo".to_string()),
        RedirectUrlOrString::Bare("https://localhost:1234/foo".to_string()),
        RedirectUrlOrString::Rule(RedirectUrl::Semantic(
            parse_url("https://example.com/bar").unwrap(),
        )),
        RedirectUrlOrString::Rule(exact("https://example.com/foo/bar", false)),
        RedirectUrlOrString::Rule(exact("https://example.com/foo/bar/baz", true)),
    ];
    assert_eq!(
        deserialize_vec(items),
        vec![
            exact("https://example.com/foo", false),
            exact("https://localhost/foo", true),
            exact("https://localhost:1234/foo", true),
            RedirectUrl::Semantic(parse_url("https://example.com/bar").unwrap()),
            exact("https://example.com/foo/bar", false),
            exact("https://example.com/foo/bar/baz", true),
        ]
    );
}

#[test]
fn bare_localhost_upgrades() {
    let r = RedirectUrlOrString::Bare("http://localhost/foo".to_string()).into_redirect_url();
    assert_eq!(r, exact("http://localhost/foo", true));
}

#[test]
fn bare_other_host_stays_exact() {
    let r = RedirectUrlOrString::Bare("http://example.com/foo".to_string()).into_redirect_url();
    assert_eq!(r, exact("http://example.com/foo", false));
}

#[test]
fn bare_non_url_stays_exact() {
    let r = RedirectUrlOrString::Bare("not a url".to_string()).into_redirect_url();
    assert_eq!(r, exact("not a url", false));
    assert!(!is_localhost("localhost"));
    assert!(is_localhost("http://localhost:9/"));
    assert!(!is_localhost("http://127.0.0.1/"));
}

#[test]
fn parse_url_components() {
    let u = parse_url("HTTP://user:pw@Example.COM:80/a/b?x=1#frag").unwrap();
    assert_eq!(u.scheme, "http");
    assert_eq!(u.username, "user");
    assert_eq!(u.password.as_deref(), Some("pw"));
    assert_eq!(u.host.as_deref(), Some("example.com"));
    assert_eq!(u.port, None);
    assert_eq!(u.path, "/a/b");
    assert_eq!(u.query.as_deref(), Some("x=1"));
    assert_eq!(u.fragment.as_deref(), Some("frag"));
    assert!(parse_url("no scheme").is_err());
}

#[test]
fn semantic_rule_follows_normalisation() {
    let rule = RegisteredUrl::Semantic(parse_url("http://example.com/foo").unwrap());
    assert!(rule.matches("http://example.com/foo"));
    assert!(rule.matches("http://EXAMPLE.com:80/foo"));
    assert!(rule.matches("http://example.com/bar/../foo"));
    assert!(rule.matches("http://example.com/foo#fragment"));
    assert!(!rule.matches("http://example.com/foo/"));
    assert!(!rule.matches("http://example.com/foo?x=1"));
    assert!(!rule.matches("https://example.com/foo"));
    assert!(!rule.matches("garbage"));
}

#[test]
fn exact_rule_needs_every_byte() {
    let rule = registered(exact("http://example.com/foo", false));
    assert_eq!(rule, RegisteredUrl::Exact("http://example.com/foo".to_string()));
    assert!(rule.matches("http://example.com/foo"));
    assert!(!rule.matches("http://EXAMPLE.com/foo"));
    assert!(!rule.matches("http://example.com:80/foo"));
    assert!(!rule.matches("http://example.com/foo/"));
}

#[test]
fn localhost_rule_ignores_port() {
    let rule = registered(exact("http://localhost/foo", true));
    assert!(rule.matches("http://localhost:9/foo"));
    assert!(rule.matches("http://localhost/foo"));
    assert!(rule.matches("http://localhost:65535/foo"));
    assert!(!rule.matches("http://localhost:9/bar"));
    assert!(!rule.matches("https://localhost:9/foo"));
}

#[test]
fn other_host_rule_keeps_port() {
    let rule = registered(exact("http://example.com/foo", true));
    assert!(!rule.matches("http://example.com:9/foo"));
    assert!(rule.matches("http://example.com/foo"));
}

#[test]
fn registering_needs_a_url() {
    assert!(RegisteredUrl::try_from(exact("not a url", false)).is_err());
    assert!(RegisteredUrl::try_from(exact("not a url", true)).is_err());
    assert_eq!(
        registered(exact("http://localhost", true)),
        RegisteredUrl::IgnorePortOnLocalhost("http://localhost".to_string())
    );
}

#[test]
fn component_comparisons() {
    let a = parse_url("http://localhost:9/cb?x=1#f").unwrap();
    let b = parse_url("http://localhost/cb?x=1#f").unwrap();
    let c = parse_url("http://localhost:9/cb?x=1#g").unwrap();
    assert!(host_is_localhost(&a));
    assert!(!host_is_localhost(&parse_url("http://localhost.example/").unwrap()));
    assert!(same_parts_except_port(&a, &b));
    assert!(!same_parts_except_fragment(&a, &b));
    assert!(same_parts_except_fragment(&a, &c));
    assert!(!same_parts_except_port(&a, &c));
}
