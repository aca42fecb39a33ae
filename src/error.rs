//! Errors of the request handlers and the bodies and statuses they answer
//! with.
use crate::token::TokenError;
use vstd::prelude::*;

verus! {

/// Relies on the `Display` impl of `url::ParseError`: its description.
#[verifier::external_body]
fn parse_error_text(e: &url::ParseError) -> (r: String) {
    e.to_string()
}

/// An error while handling a request.
#[derive(Debug)]
pub enum Error {
    /// No tenant has this name.
    UnknownIssuer(String),
    /// A URL could not be extended by a path segment.
    Url,
    /// A URL could not be parsed.
    UrlParse(url::ParseError),
    /// A response body could not be re-encoded.
    Serde,
    /// A token could not be made.
    Token(TokenError),
    Generic(String),
}

/// The body of an error response.
#[derive(Clone, Debug, PartialEq, Eq)]
pub struct ErrorInformation {
    pub error: String,
    pub message: String,
}

pub open spec fn error_name(e: Error) -> Seq<char> {
    match e {
        Error::UnknownIssuer(_) => "UnknownIssuer"@,
        Error::Url => "Url"@,
        Error::UrlParse(_) => "UrlParse"@,
        Error::Serde => "Serde"@,
        Error::Token(_) => "Token"@,
        Error::Generic(_) => "Generic"@,
    }
}

pub open spec fn error_status(e: Error) -> u16 {
    match e {
        Error::UnknownIssuer(_) => 404,
        _ => 500,
    }
}

/// `m` is the description of `e`. A URL parse error is described by its
/// prefix followed by the parser's own description of the error.
pub open spec fn message_of(e: Error, m: Seq<char>) -> bool {
    match e {
        Error::UnknownIssuer(n) => m == "unknown issuer: "@ + n@,
        Error::Url => m == "url error"@,
        Error::UrlParse(_) => exists|d: Seq<char>| m == "url parse error: "@ + d,
        Error::Serde => m == "json error"@,
        Error::Token(t) => match t {
            TokenError::MissingConnectionContext => m == "missing connection information"@,
            TokenError::TimeOutOfRange => m == "time out of range"@,
            TokenError::Signing(_) => m == "unable to sign token"@,
        },
        Error::Generic(g) => m == "generic error: "@ + g@,
    }
}

impl Error {
    /// The short machine-readable code of the error.
    pub fn name(&self) -> (r: &'static str)
        ensures
            r@ == error_name(*self),
    {
        match self {
            Error::UnknownIssuer(_) => "UnknownIssuer",
            Error::Url => "Url",
            Error::UrlParse(_) => "UrlParse",
            Error::Serde => "Serde",
            Error::Token(_) => "Token",
            Error::Generic(_) => "Generic",
        }
    }

    /// The human-readable description of the error.
    pub fn message(&self) -> (r: String)
        ensures
            message_of(*self, r@),
    {
        match self {
            Error::UnknownIssuer(n) => {
                let mut s = String::from_str("unknown issuer: ");
                s.append(n.as_str());
                s
            },
            Error::Url => String::from_str("url error"),
            Error::UrlParse(e) => {
                let mut s = String::from_str("url parse error: ");
                let t = parse_error_text(e);
                s.append(t.as_str());
                proof {
                    assert(s@ == "url parse error: "@ + t@);
                }
                s
            },
            Error::Serde => String::from_str("json error"),
            Error::Token(TokenError::MissingConnectionContext) => String::from_str(
                "missing connection information",
            ),
            Error::Token(TokenError::TimeOutOfRange) => String::from_str("time out of range"),
            Error::Token(TokenError::Signing(_)) => String::from_str("unable to sign token"),
            Error::Generic(m) => {
                let mut s = String::from_str("generic error: ");
                s.append(m.as_str());
                s
            },
        }
    }

    /// The HTTP status the error answers with.
    pub fn status(&self) -> (r: u16)
        ensures
            r == error_status(*self),
    {
        match self {
            Error::UnknownIssuer(_) => 404,
            _ => 500,
        }
    }

    /// The body the error answers with.
    pub fn to_body(&self) -> (r: ErrorInformation)
        ensures
            r.error@ == error_name(*self),
            message_of(*self, r.message@),
    {
        ErrorInformation { error: String::from_str(self.name()), message: self.message() }
    }
}

} // verus!
