//! The provider metadata a tenant publishes.
use crate::error::Error;
use crate::issuer::IssuerState;
use crate::uri::{push_segment, url_with_segment};
use vstd::prelude::*;

verus! {

/// The provider-metadata document of a tenant.
#[derive(Clone, Debug)]
pub struct DiscoveryDocument {
    pub issuer: String,
    pub authorization_endpoint: String,
    pub jwks_uri: String,
    pub token_endpoint: String,
    pub userinfo_endpoint: String,
    pub response_types_supported: Vec<String>,
    pub subject_types_supported: Vec<String>,
    pub id_token_signing_alg_values_supported: Vec<String>,
    pub scopes_supported: Vec<String>,
    pub grant_types_supported: Vec<String>,
    pub token_endpoint_auth_methods_supported: Vec<String>,
}

/// The texts of a list of strings.
pub open spec fn texts(v: Seq<String>) -> Seq<Seq<char>> {
    v.map_values(|s: String| s@)
}

/// All endpoint URLs can be formed under `base`.
pub open spec fn endpoints_ok(base: Seq<char>) -> bool {
    &&& url_with_segment(base, "auth"@) is Some
    &&& url_with_segment(base, "keys"@) is Some
    &&& url_with_segment(base, "token"@) is Some
    &&& url_with_segment(base, "userinfo"@) is Some
}

fn literal_list1(a: &str) -> (r: Vec<String>)
    ensures
        texts(r@) == seq![a@],
{
    let mut v: Vec<String> = Vec::new();
    v.push(String::from_str(a));
    proof {
        assert(texts(v@) =~= seq![a@]);
    }
    v
}

fn literal_list2(a: &str, b: &str) -> (r: Vec<String>)
    ensures
        texts(r@) == seq![a@, b@],
{
    let mut v: Vec<String> = Vec::new();
    v.push(String::from_str(a));
    v.push(String::from_str(b));
    proof {
        assert(texts(v@) =~= seq![a@, b@]);
    }
    v
}

fn copy_strings(v: &Vec<String>) -> (r: Vec<String>)
    ensures
        texts(r@) == texts(v@),
{
    let mut out: Vec<String> = Vec::new();
    let mut i: usize = 0;
    while i < v.len()
        invariant
            i <= v@.len(),
            texts(out@) == texts(v@.take(i as int)),
        decreases v@.len() - i,
    {
        let ghost before = out@;
        let c = v[i].clone();
        out.push(c);
        proof {
            assert(out@ =~= before.push(c));
            assert(texts(before.push(c)) =~= texts(before).push(c@));
            assert(v@.take(i + 1) =~= v@.take(i as int).push(v@[i as int]));
            assert(texts(v@.take(i as int).push(v@[i as int])) =~= texts(v@.take(i as int)).push(
                v@[i as int]@,
            ));
            assert(texts(out@) =~= texts(v@.take(i + 1)));
        }
        i = i + 1;
    }
    proof {
        assert(v@.take(v@.len() as int) =~= v@);
    }
    out
}

fn endpoint(base: &str, segment: &str) -> (r: Result<String, Error>)
    ensures
        match r {
            Ok(u) => url_with_segment(base@, segment@) == Some(u@),
            Err(e) => url_with_segment(base@, segment@) is None && e is Url,
        },
{
    match push_segment(base, segment) {
        Some(u) => Ok(u),
        None => Err(Error::Url),
    }
}

impl IssuerState {
    /// The provider metadata of this tenant under its base URL `base`.
    pub fn discovery(&self, base: &str) -> (r: Result<DiscoveryDocument, Error>)
        ensures
            r is Ok <==> endpoints_ok(base@),
            r matches Err(e) ==> e is Url,
            r matches Ok(d) ==> {
                &&& d.issuer@ == base@
                &&& url_with_segment(base@, "auth"@) == Some(d.authorization_endpoint@)
                &&& url_with_segment(base@, "keys"@) == Some(d.jwks_uri@)
                &&& url_with_segment(base@, "token"@) == Some(d.token_endpoint@)
                &&& url_with_segment(base@, "userinfo"@) == Some(d.userinfo_endpoint@)
                &&& texts(d.response_types_supported@) == seq!["token"@]
                &&& texts(d.subject_types_supported@) == seq!["public"@]
                &&& d.id_token_signing_alg_values_supported@.len() == 0
                &&& texts(d.scopes_supported@) == texts(self.scopes@)
                &&& texts(d.grant_types_supported@) == seq![
                    "client_credentials"@,
                    "authorization_code"@,
                ]
                &&& texts(d.token_endpoint_auth_methods_supported@) == seq![
                    "client_secret_basic"@,
                    "client_secret_post"@,
                ]
            },
    {
        let authorization_endpoint = endpoint(base, "auth")?;
        let jwks_uri = endpoint(base, "keys")?;
        let token_endpoint = endpoint(base, "token")?;
        let userinfo_endpoint = endpoint(base, "userinfo")?;
        Ok(
            DiscoveryDocument {
                issuer: String::from_str(base),
                authorization_endpoint,
                jwks_uri,
                token_endpoint,
                userinfo_endpoint,
                response_types_supported: literal_list1("token"),
                subject_types_supported: literal_list1("public"),
                id_token_signing_alg_values_supported: Vec::new(),
                scopes_supported: copy_strings(&self.scopes),
                grant_types_supported: literal_list2("client_credentials", "authorization_code"),
                token_endpoint_auth_methods_supported: literal_list2(
                    "client_secret_basic",
                    "client_secret_post",
                ),
            },
        )
    }
}

} // verus!
