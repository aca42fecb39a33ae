//! Which flow a token request takes, and the amendment of token responses
//! with an ID token.
use crate::error::Error;
use crate::issuer::fixed_subject;
use crate::token::{compact, id_payload, jws_header, JwtIdGenerator, ID_TOKEN_LIFETIME};
use crate::text::same_text;
use vstd::prelude::*;

verus! {

/// The string value of a top-level member of a JSON object text; nothing
/// where the text is no JSON, or the member is absent or no string.
pub uninterp spec fn json_str_member_of(body: Seq<char>, name: Seq<char>) -> Option<Seq<char>>;

/// A JSON object text with a string member set, re-encoded; nothing where
/// the text is no JSON object.
pub uninterp spec fn json_with_str_member_of(
    body: Seq<char>,
    name: Seq<char>,
    value: Seq<char>,
) -> Option<Seq<char>>;

/// Relies on serde_json's `from_str` into a `Value`, `Value::get` and
/// `Value::as_str`.
#[verifier::external_body]
fn json_str_member(body: &str, name: &str) -> (r: Option<String>)
    ensures
        match r {
            Some(s) => json_str_member_of(body@, name@) == Some(s@),
            None => json_str_member_of(body@, name@) is None,
        },
{
    let v: serde_json::Value = serde_json::from_str(body).ok()?;
    v.get(name)?.as_str().map(|s| s.to_string())
}

/// Relies on serde_json's `from_str` into a `Value`, `Map::insert` on the
/// object and `to_string`.
#[verifier::external_body]
fn json_with_str_member(body: &str, name: &str, value: &str) -> (r: Option<String>)
    ensures
        match r {
            Some(s) => json_with_str_member_of(body@, name@, value@) == Some(s@),
            None => json_with_str_member_of(body@, name@, value@) is None,
        },
{
    let mut v: serde_json::Value = serde_json::from_str(body).ok()?;
    v.as_object_mut()?.insert(name.to_string(), serde_json::Value::String(value.to_string()));
    serde_json::to_string(&v).ok()
}

/// The flows a token request can take.
#[derive(Clone, Copy, Debug, PartialEq, Eq)]
pub enum GrantFlow {
    /// The client acts on its own behalf and is the subject of the grant.
    ClientCredentials,
    /// A refresh token is exchanged; consent was given before.
    Refresh,
    /// An authorization code is exchanged; the response gets an ID token.
    AuthorizationCode,
}

/// The flow for the `grant_type` parameter of a token request.
pub open spec fn flow_for(grant_type: Option<Seq<char>>) -> GrantFlow {
    if grant_type == Some("client_credentials"@) {
        GrantFlow::ClientCredentials
    } else if grant_type == Some("refresh_token"@) {
        GrantFlow::Refresh
    } else {
        GrantFlow::AuthorizationCode
    }
}

pub open spec fn opt_str_view(o: Option<&str>) -> Option<Seq<char>> {
    match o {
        Some(s) => Some(s@),
        None => None,
    }
}

/// Whether the response of a flow is amended with an ID token.
pub open spec fn flow_amends(flow: GrantFlow) -> bool {
    flow is AuthorizationCode
}

/// Whether a token response body carries an access token to amend.
pub open spec fn carries_access_token(body: Seq<char>) -> bool {
    json_str_member_of(body, "access_token"@) matches Some(t) && t.len() > 0
}

/// Whether a token response whose `access_token` member reads as given is
/// amended: where it is a non-empty string.
pub fn should_amend(access_token: &Option<String>) -> (r: bool)
    ensures
        r == (crate::uri::opt_view(*access_token) matches Some(t) && t.len() > 0),
{
    match access_token {
        Some(t) => t.as_str().unicode_len() > 0,
        None => false,
    }
}

/// Selects the flow of a token request by its `grant_type` parameter.
pub fn select_flow(grant_type: Option<&str>) -> (r: GrantFlow)
    ensures
        r == flow_for(opt_str_view(grant_type)),
{
    match grant_type {
        Some(g) => {
            if same_text(g, "client_credentials") {
                GrantFlow::ClientCredentials
            } else if same_text(g, "refresh_token") {
                GrantFlow::Refresh
            } else {
                GrantFlow::AuthorizationCode
            }
        },
        None => GrantFlow::AuthorizationCode,
    }
}

impl GrantFlow {
    /// Whether the response of this flow is amended with an ID token.
    pub fn amends_id_token(&self) -> (r: bool)
        ensures
            r == flow_amends(*self),
    {
        match self {
            GrantFlow::AuthorizationCode => true,
            _ => false,
        }
    }

    /// The subject that consent is given for in this flow, where the flow
    /// asks for consent: the requesting client itself under client
    /// credentials.
    pub fn consent_subject(&self, client_id: &str) -> (r: Option<String>)
        ensures
            *self is ClientCredentials ==> (r matches Some(s) && s@ == client_id@),
            !(*self is ClientCredentials) ==> r is None,
    {
        match self {
            GrantFlow::ClientCredentials => Some(String::from_str(client_id)),
            _ => None,
        }
    }
}

/// What the logout endpoint answers.
#[derive(Clone, Debug, PartialEq, Eq)]
pub enum LogoutAction {
    /// Redirect to the given post-logout URI.
    Redirect(String),
    /// Acknowledge without content.
    NoContent,
}

/// The answer of the stateless logout endpoint: a redirect where a
/// post-logout redirect URI is given, an acknowledgement otherwise.
pub fn logout_action(post_logout_redirect_uri: Option<String>) -> (r: LogoutAction)
    ensures
        match post_logout_redirect_uri {
            Some(u) => r matches LogoutAction::Redirect(v) && v@ == u@,
            None => r is NoContent,
        },
{
    match post_logout_redirect_uri {
        Some(u) => LogoutAction::Redirect(u),
        None => LogoutAction::NoContent,
    }
}

/// The subject that the authorization endpoint grants to.
pub fn authorization_subject() -> (r: String)
    ensures
        r@ == fixed_subject(),
{
    String::from_str("Marvin")
}

/// Under client credentials neither the refresh nor the code exchange is
/// taken, and the response of a refresh is never amended with an ID token.
pub proof fn lemma_dispatch_separates_flows()
    ensures
        flow_for(Some("client_credentials"@)) == GrantFlow::ClientCredentials,
        !flow_amends(flow_for(Some("refresh_token"@))),
        !flow_amends(flow_for(Some("client_credentials"@))),
{
    reveal_strlit("client_credentials");
    reveal_strlit("refresh_token");
    assert("client_credentials"@.len() != "refresh_token"@.len());
}

/// The ID token that a tenant's generator issues at `now`.
pub open spec fn id_token_at(generator: JwtIdGenerator, now: int) -> Seq<char> {
    compact(
        jws_header(generator.key_view().id_view()),
        id_payload(generator.issuer_view(), now, fixed_subject()),
        generator.key_view().secret_view(),
    )
}

/// Amends a token response body with an ID token issued at `now`, where the
/// body carries a non-empty access token; returns other bodies unchanged.
/// Fails only where the amended body cannot be re-encoded.
pub fn amend_id_token(body: String, generator: &JwtIdGenerator, now: i64) -> (r: Result<String, Error>)
    requires
        now <= i64::MAX - ID_TOKEN_LIFETIME,
    ensures
        !carries_access_token(body@) ==> (r matches Ok(b) && b@ == body@),
        carries_access_token(body@) ==> {
            let amended = json_with_str_member_of(body@, "id_token"@, id_token_at(*generator, now as int));
            &&& r is Ok <==> amended is Some
            &&& r matches Ok(b) ==> Some(b@) == amended
        },
        r matches Err(e) ==> e is Serde,
{
    let access_token = json_str_member(body.as_str(), "access_token");
    if !should_amend(&access_token) {
        return Ok(body);
    }
    let token = match generator.create_at(now) {
        Ok(t) => t,
        Err(e) => {
            return Err(Error::Token(e));
        },
    };
    match json_with_str_member(body.as_str(), "id_token", token.as_str()) {
        Some(b) => Ok(b),
        None => Err(Error::Serde),
    }
}

/// Whether the response of a token request in this flow is amended with an
/// ID token: under the authorization-code flow, where the body carries a
/// non-empty access token.
pub fn needs_id_token(flow: GrantFlow, body: &str) -> (r: bool)
    ensures
        r == (flow_amends(flow) && carries_access_token(body@)),
{
    flow.amends_id_token() && should_amend(&json_str_member(body, "access_token"))
}

/// Finishes the response of a token request: amended with an ID token
/// under the authorization-code flow, unchanged under the others.
pub fn finish_token_response(
    flow: GrantFlow,
    body: String,
    generator: &JwtIdGenerator,
    now: i64,
) -> (r: Result<String, Error>)
    requires
        now <= i64::MAX - ID_TOKEN_LIFETIME,
    ensures
        !(flow_amends(flow) && carries_access_token(body@)) ==> (r matches Ok(b) && b@ == body@),
        flow_amends(flow) && carries_access_token(body@) ==> {
            let amended = json_with_str_member_of(body@, "id_token"@, id_token_at(*generator, now as int));
            &&& r is Ok <==> amended is Some
            &&& r matches Ok(b) ==> Some(b@) == amended
        },
        r matches Err(e) ==> e is Serde,
{
    if flow.amends_id_token() {
        amend_id_token(body, generator, now)
    } else {
        Ok(body)
    }
}

} // verus!
