//! URLs as the library sees them: parsed into plain components, and built by
//! joining and appending path segments.
use vstd::prelude::*;

verus! {

#[verifier::external_type_specification]
#[verifier::external_body]
pub struct ExParseError(url::ParseError);

/// The components of a parsed URL, as the URL parser normalised them.
#[derive(Clone, Debug, PartialEq, Eq)]
pub struct UrlParts {
    /// The whole URL in its normalised form.
    pub serialization: String,
    pub scheme: String,
    pub username: String,
    pub password: Option<String>,
    pub host: Option<String>,
    pub port: Option<u16>,
    pub path: String,
    pub query: Option<String>,
    pub fragment: Option<String>,
}

pub ghost struct UrlPartsView {
    pub serialization: Seq<char>,
    pub scheme: Seq<char>,
    pub username: Seq<char>,
    pub password: Option<Seq<char>>,
    pub host: Option<Seq<char>>,
    pub port: Option<u16>,
    pub path: Seq<char>,
    pub query: Option<Seq<char>>,
    pub fragment: Option<Seq<char>>,
}

pub open spec fn opt_view(o: Option<String>) -> Option<Seq<char>> {
    match o {
        Some(s) => Some(s@),
        None => None,
    }
}

impl View for UrlParts {
    type V = UrlPartsView;

    open spec fn view(&self) -> UrlPartsView {
        UrlPartsView {
            serialization: self.serialization@,
            scheme: self.scheme@,
            username: self.username@,
            password: opt_view(self.password),
            host: opt_view(self.host),
            port: self.port,
            path: self.path@,
            query: opt_view(self.query),
            fragment: opt_view(self.fragment),
        }
    }
}

/// What the URL parser makes of a text: its components, or nothing where the
/// text is no URL.
pub uninterp spec fn parsed_url(s: Seq<char>) -> Option<UrlPartsView>;

/// What joining a reference onto a base URL gives, in serialised form.
pub uninterp spec fn joined_url(base: Seq<char>, reference: Seq<char>) -> Option<Seq<char>>;

/// A URL with one more path segment appended, in serialised form; nothing
/// where the text is no URL or cannot be a base.
pub uninterp spec fn url_with_segment(url: Seq<char>, segment: Seq<char>) -> Option<Seq<char>>;

/// Relies on url::Url::parse, its serialisation and its component getters.
#[verifier::external_body]
pub fn parse_url(s: &str) -> (r: Result<UrlParts, url::ParseError>)
    ensures
        match r {
            Ok(u) => parsed_url(s@) == Some(u@),
            Err(_) => parsed_url(s@) is None,
        },
{
    let u = url::Url::parse(s)?;
    Ok(UrlParts {
        serialization: u.as_str().to_string(),
        scheme: u.scheme().to_string(),
        username: u.username().to_string(),
        password: u.password().map(|p| p.to_string()),
        host: u.host_str().map(|h| h.to_string()),
        port: u.port(),
        path: u.path().to_string(),
        query: u.query().map(|q| q.to_string()),
        fragment: u.fragment().map(|f| f.to_string()),
    })
}

/// The serialised form of a parsed URL.
pub uninterp spec fn serialized_url(s: Seq<char>) -> Option<Seq<char>>;

/// Relies on url::Url::parse and the URL's serialisation.
#[verifier::external_body]
pub fn serialize_url(s: &str) -> (r: Result<String, url::ParseError>)
    ensures
        match r {
            Ok(u) => serialized_url(s@) == Some(u@),
            Err(_) => serialized_url(s@) is None,
        },
{
    Ok(url::Url::parse(s)?.to_string())
}

/// Relies on url::Url::join, applied to the parsed base.
#[verifier::external_body]
pub fn join_url(base: &str, reference: &str) -> (r: Result<String, url::ParseError>)
    ensures
        match r {
            Ok(u) => joined_url(base@, reference@) == Some(u@),
            Err(_) => joined_url(base@, reference@) is None,
        },
{
    Ok(url::Url::parse(base)?.join(reference)?.to_string())
}

/// Relies on url::PathSegmentsMut::push, applied to the parsed URL.
#[verifier::external_body]
pub fn push_segment(url: &str, segment: &str) -> (r: Option<String>)
    ensures
        match r {
            Some(u) => url_with_segment(url@, segment@) == Some(u@),
            None => url_with_segment(url@, segment@) is None,
        },
{
    let mut u = url::Url::parse(url).ok()?;
    u.path_segments_mut().ok()?.push(segment);
    Some(u.to_string())
}

/// Equality of two optional texts.
pub fn opt_str_eq(a: &Option<String>, b: &Option<String>) -> (r: bool)
    ensures
        r == (opt_view(*a) == opt_view(*b)),
{
    match a {
        Some(x) => match b {
            Some(y) => x.eq(y),
            None => false,
        },
        None => b.is_none(),
    }
}

} // verus!
