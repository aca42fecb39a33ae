//! Redirect-URI rules of public clients and how a requested redirect URI is
//! matched against them.
use crate::uri::{opt_str_eq, parse_url, parsed_url, UrlParts, UrlPartsView};
use crate::text::same_text;
use vstd::prelude::*;

verus! {

/// A redirect rule as a client configuration states it.
#[derive(Clone, Debug, PartialEq, Eq)]
pub enum RedirectUrl {
    /// Matches any URL that parses to the same components.
    Semantic(UrlParts),
    /// Matches the text itself; where `ignore_localhost_port` is set and the
    /// host is `localhost`, any port is accepted.
    Exact { url: String, ignore_localhost_port: bool },
}

/// A redirect rule in one of its two written forms: a bare URL text, or a
/// rule spelled out.
#[derive(Clone, Debug, PartialEq, Eq)]
pub enum RedirectUrlOrString {
    Bare(String),
    Rule(RedirectUrl),
}

/// A redirect rule ready for matching.
#[derive(Clone, Debug, PartialEq, Eq)]
pub enum RegisteredUrl {
    Exact(String),
    Semantic(UrlParts),
    IgnorePortOnLocalhost(String),
}

pub ghost enum RedirectUrlView {
    Semantic(UrlPartsView),
    Exact { url: Seq<char>, ignore_localhost_port: bool },
}

pub ghost enum RegisteredUrlView {
    Exact(Seq<char>),
    Semantic(UrlPartsView),
    IgnorePortOnLocalhost(Seq<char>),
}

impl View for RedirectUrl {
    type V = RedirectUrlView;

    open spec fn view(&self) -> RedirectUrlView {
        match self {
            RedirectUrl::Semantic(u) => RedirectUrlView::Semantic(u@),
            RedirectUrl::Exact { url, ignore_localhost_port } => RedirectUrlView::Exact {
                url: url@,
                ignore_localhost_port: *ignore_localhost_port,
            },
        }
    }
}

impl View for RegisteredUrl {
    type V = RegisteredUrlView;

    open spec fn view(&self) -> RegisteredUrlView {
        match self {
            RegisteredUrl::Exact(s) => RegisteredUrlView::Exact(s@),
            RegisteredUrl::Semantic(u) => RegisteredUrlView::Semantic(u@),
            RegisteredUrl::IgnorePortOnLocalhost(s) => RegisteredUrlView::IgnorePortOnLocalhost(s@),
        }
    }
}

pub open spec fn localhost() -> Seq<char> {
    "localhost"@
}

/// Whether a text parses to a URL whose host is `localhost`.
pub open spec fn is_localhost_url(s: Seq<char>) -> bool {
    match parsed_url(s) {
        Some(u) => u.host == Some(localhost()),
        None => false,
    }
}

/// Two parsed URLs agree in everything but the fragment.
pub open spec fn same_except_fragment(a: UrlPartsView, b: UrlPartsView) -> bool {
    &&& a.scheme == b.scheme
    &&& a.username == b.username
    &&& a.password == b.password
    &&& a.host == b.host
    &&& a.port == b.port
    &&& a.path == b.path
    &&& a.query == b.query
}

/// Two parsed URLs agree in everything but the port.
pub open spec fn same_except_port(a: UrlPartsView, b: UrlPartsView) -> bool {
    &&& a.scheme == b.scheme
    &&& a.username == b.username
    &&& a.password == b.password
    &&& a.host == b.host
    &&& a.path == b.path
    &&& a.query == b.query
    &&& a.fragment == b.fragment
}

/// Whether a requested redirect URI is allowed by a rule.
pub open spec fn rule_matches(rule: RegisteredUrlView, requested: Seq<char>) -> bool {
    match rule {
        RegisteredUrlView::Exact(s) => requested == s,
        RegisteredUrlView::Semantic(u) => match parsed_url(requested) {
            Some(p) => same_except_fragment(p, u),
            None => false,
        },
        RegisteredUrlView::IgnorePortOnLocalhost(s) => {
            if is_localhost_url(s) {
                match parsed_url(requested) {
                    Some(p) => same_except_port(p, parsed_url(s)->Some_0),
                    None => false,
                }
            } else {
                requested == s
            }
        },
    }
}

/// The rule that a bare URL text stands for.
pub open spec fn bare_rule(s: Seq<char>) -> RedirectUrlView {
    RedirectUrlView::Exact { url: s, ignore_localhost_port: is_localhost_url(s) }
}

/// The rule written in either form.
pub open spec fn written_rule(w: RedirectUrlOrString) -> RedirectUrlView {
    match w {
        RedirectUrlOrString::Bare(s) => bare_rule(s@),
        RedirectUrlOrString::Rule(r) => r@,
    }
}

/// What a redirect rule becomes for matching, where its text is a URL.
pub open spec fn registered_of(r: RedirectUrlView) -> Option<RegisteredUrlView> {
    match r {
        RedirectUrlView::Semantic(u) => Some(RegisteredUrlView::Semantic(u)),
        RedirectUrlView::Exact { url, ignore_localhost_port } => {
            if parsed_url(url) is None {
                None
            } else if ignore_localhost_port {
                Some(RegisteredUrlView::IgnorePortOnLocalhost(url))
            } else {
                Some(RegisteredUrlView::Exact(url))
            }
        },
    }
}

/// Under a semantic rule, two requested URIs that the URL parser brings to
/// the same components (the fragment aside) are both allowed or both refused.
pub proof fn lemma_semantic_match_is_normalised(u: UrlPartsView, a: Seq<char>, b: Seq<char>)
    requires
        parsed_url(a) is Some,
        parsed_url(b) is Some,
        same_except_fragment(parsed_url(a)->Some_0, parsed_url(b)->Some_0),
    ensures
        rule_matches(RegisteredUrlView::Semantic(u), a) == rule_matches(
            RegisteredUrlView::Semantic(u),
            b,
        ),
{
}

/// Under an exact rule, a requested URI is allowed only when it is the rule's
/// text, character for character.
pub proof fn lemma_exact_match_is_equality(s: Seq<char>, requested: Seq<char>)
    ensures
        rule_matches(RegisteredUrlView::Exact(s), requested) <==> requested == s,
{
}

/// Under a port-ignoring rule for `localhost`, a requested URI that differs
/// from the rule only in its port is allowed.
pub proof fn lemma_localhost_port_ignored(s: Seq<char>, requested: Seq<char>)
    requires
        is_localhost_url(s),
        parsed_url(requested) is Some,
        same_except_port(parsed_url(requested)->Some_0, parsed_url(s)->Some_0),
    ensures
        rule_matches(RegisteredUrlView::IgnorePortOnLocalhost(s), requested),
{
}

/// Under a port-ignoring rule whose host is not `localhost`, a requested URI
/// is allowed only when it is the rule's text, port included.
pub proof fn lemma_other_host_port_kept(s: Seq<char>, requested: Seq<char>)
    requires
        !is_localhost_url(s),
    ensures
        rule_matches(RegisteredUrlView::IgnorePortOnLocalhost(s), requested) <==> requested == s,
{
}

/// Whether the host of a parsed URL is `localhost`.
pub fn host_is_localhost(u: &UrlParts) -> (r: bool)
    ensures
        r == (u@.host == Some(localhost())),
{
    match &u.host {
        Some(h) => same_text(h.as_str(), "localhost"),
        None => false,
    }
}

/// Whether `s` parses to a URL whose host is `localhost`.
pub fn is_localhost(s: &str) -> (r: bool)
    ensures
        r == is_localhost_url(s@),
{
    match parse_url(s) {
        Ok(u) => host_is_localhost(&u),
        Err(_) => false,
    }
}

/// Whether two parsed URLs agree in everything but the fragment.
pub fn same_parts_except_fragment(a: &UrlParts, b: &UrlParts) -> (r: bool)
    ensures
        r == same_except_fragment(a@, b@),
{
    a.scheme.eq(&b.scheme) && a.username.eq(&b.username) && opt_str_eq(&a.password, &b.password)
        && opt_str_eq(&a.host, &b.host) && a.port == b.port && a.path.eq(&b.path) && opt_str_eq(
        &a.query,
        &b.query,
    )
}

/// Whether two parsed URLs agree in everything but the port.
pub fn same_parts_except_port(a: &UrlParts, b: &UrlParts) -> (r: bool)
    ensures
        r == same_except_port(a@, b@),
{
    a.scheme.eq(&b.scheme) && a.username.eq(&b.username) && opt_str_eq(&a.password, &b.password)
        && opt_str_eq(&a.host, &b.host) && a.path.eq(&b.path) && opt_str_eq(&a.query, &b.query)
        && opt_str_eq(&a.fragment, &b.fragment)
}

impl RedirectUrlOrString {
    /// The rule in its spelled-out form. A bare text is an exact rule, which
    /// ignores the port exactly when the text's host is `localhost`.
    pub fn into_redirect_url(self) -> (r: RedirectUrl)
        ensures
            r@ == written_rule(self),
    {
        match self {
            RedirectUrlOrString::Bare(s) => {
                let ignore_localhost_port = is_localhost(s.as_str());
                RedirectUrl::Exact { url: s, ignore_localhost_port }
            },
            RedirectUrlOrString::Rule(r) => r,
        }
    }
}

/// Brings a list of rules, each in either written form, to spelled-out rules.
pub fn deserialize_vec(items: Vec<RedirectUrlOrString>) -> (r: Vec<RedirectUrl>)
    ensures
        r@.len() == items@.len(),
        forall|i: int| 0 <= i < items@.len() ==> #[trigger] r@[i]@ == written_rule(items@[i]),
{
    let ghost all = items@;
    let mut rest = items;
    let mut reversed: Vec<RedirectUrl> = Vec::new();
    while rest.len() > 0
        invariant
            rest@.len() + reversed@.len() == all.len(),
            rest@ == all.take(rest@.len() as int),
            forall|j: int|
                0 <= j < reversed@.len() ==> #[trigger] reversed@[j]@ == written_rule(
                    all[all.len() - 1 - j],
                ),
        decreases rest@.len(),
    {
        let item = rest.pop().unwrap();
        proof {
            assert(item == all[rest@.len() as int]);
        }
        reversed.push(item.into_redirect_url());
        proof {
            assert(rest@ =~= all.take(rest@.len() as int));
        }
    }
    let mut out: Vec<RedirectUrl> = Vec::new();
    while reversed.len() > 0
        invariant
            reversed@.len() + out@.len() == all.len(),
            forall|j: int|
                0 <= j < reversed@.len() ==> #[trigger] reversed@[j]@ == written_rule(
                    all[all.len() - 1 - j],
                ),
            forall|j: int| 0 <= j < out@.len() ==> #[trigger] out@[j]@ == written_rule(all[j]),
        decreases reversed@.len(),
    {
        let rule = reversed.pop().unwrap();
        out.push(rule);
    }
    out
}

impl RegisteredUrl {
    /// Whether `requested` is allowed by this rule.
    pub fn matches(&self, requested: &str) -> (r: bool)
        ensures
            r == rule_matches(self@, requested@),
    {
        match self {
            RegisteredUrl::Exact(s) => same_text(requested, s.as_str()),
            RegisteredUrl::Semantic(u) => match parse_url(requested) {
                Ok(p) => same_parts_except_fragment(&p, u),
                Err(_) => false,
            },
            RegisteredUrl::IgnorePortOnLocalhost(s) => {
                match parse_url(s.as_str()) {
                    Ok(rule) => {
                        if host_is_localhost(&rule) {
                            match parse_url(requested) {
                                Ok(p) => same_parts_except_port(&p, &rule),
                                Err(_) => false,
                            }
                        } else {
                            same_text(requested, s.as_str())
                        }
                    },
                    Err(_) => same_text(requested, s.as_str()),
                }
            },
        }
    }

    /// The rule for matching that a configured rule stands for; fails where
    /// the configured text is no URL.
    pub fn try_from(value: RedirectUrl) -> (r: Result<RegisteredUrl, url::ParseError>)
        ensures
            match r {
                Ok(g) => registered_of(value@) == Some(g@),
                Err(_) => registered_of(value@) is None,
            },
    {
        match value {
            RedirectUrl::Semantic(u) => Ok(RegisteredUrl::Semantic(u)),
            RedirectUrl::Exact { url, ignore_localhost_port } => {
                match parse_url(url.as_str()) {
                    Err(e) => Err(e),
                    Ok(_) => {
                        if ignore_localhost_port {
                            Ok(RegisteredUrl::IgnorePortOnLocalhost(url))
                        } else {
                            Ok(RegisteredUrl::Exact(url))
                        }
                    },
                }
            },
        }
    }
}

} // verus!
