//! Signed tokens: access tokens minted from grants and ID tokens appended to
//! token responses, both as JWS compact serialisations signed with HS256.
use crate::context::{decoded, extension_id, ConnectionInformation};
use crate::oidc::AccessTokenClaims;
use crate::secrets::Key;
use crate::text::{push_quoted, push_signed, quoted, signed_decimal};
use vstd::prelude::*;
use vstd::utf8::encode_utf8;
use biscuit::errors::Error as BiscuitError;

verus! {

#[verifier::external_type_specification]
#[verifier::external_body]
pub struct ExBiscuitError(BiscuitError);

/// The base64url alphabet, by value.
pub open spec fn base64url_alphabet() -> Seq<char> {
    "ABCDEFGHIJKLMNOPQRSTUVWXYZabcdefghijklmnopqrstuvwxyz0123456789-_"@
}

/// The base64url form (no padding) of some bytes: each group of three bytes
/// gives four characters of six bits each; a last group of one or two bytes
/// gives two or three characters, its missing low bits zero.
pub open spec fn base64url_of(b: Seq<u8>) -> Seq<char>
    decreases b.len(),
{
    let a = base64url_alphabet();
    let x: int = if b.len() > 0 { b[0] as int } else { 0 };
    let y: int = if b.len() > 1 { b[1] as int } else { 0 };
    let z: int = if b.len() > 2 { b[2] as int } else { 0 };
    if b.len() == 0 {
        Seq::empty()
    } else if b.len() == 1 {
        seq![a[x / 4], a[(x % 4) * 16]]
    } else if b.len() == 2 {
        seq![a[x / 4], a[(x % 4) * 16 + y / 16], a[(y % 16) * 4]]
    } else {
        seq![a[x / 4], a[(x % 4) * 16 + y / 16], a[(y % 16) * 4 + z / 64], a[z % 64]]
            + base64url_of(b.skip(3))
    }
}

/// The HMAC-SHA-256 tag of `data` under `key`.
pub uninterp spec fn hmac_sha256_of(key: Seq<u8>, data: Seq<u8>) -> Seq<u8>;

/// Relies on biscuit's `CompactPart::to_base64` for byte vectors: the
/// base64url encoding without padding.
#[verifier::external_body]
fn base64url(b: &[u8]) -> (r: Result<String, BiscuitError>)
    ensures
        r is Ok,
        r matches Ok(s) ==> s@ == base64url_of(b@),
{
    Ok(biscuit::CompactPart::to_base64(&b.to_vec())?.unwrap())
}

/// Relies on biscuit's `SignatureAlgorithm::HS256.sign` with a byte secret:
/// the HMAC-SHA-256 tag of the data.
#[verifier::external_body]
fn hmac_sha256(key: &[u8], data: &[u8]) -> (r: Result<Vec<u8>, BiscuitError>)
    ensures
        r is Ok,
        r matches Ok(t) ==> t@ == hmac_sha256_of(key@, data@),
{
    biscuit::jwa::SignatureAlgorithm::HS256.sign(data, &biscuit::jws::Secret::Bytes(key.to_vec()))
}

/// Relies on `SystemTime::duration_since` applied to `SystemTime::now()`:
/// the current time in whole seconds since the Unix epoch; nothing where the
/// clock reads before the epoch or the seconds do not fit.
#[verifier::external_body]
fn unix_now() -> (r: Option<i64>) {
    let elapsed = std::time::SystemTime::now().duration_since(std::time::UNIX_EPOCH).ok()?;
    i64::try_from(elapsed.as_secs()).ok()
}

/// The audience every token is issued for.
pub open spec fn audience() -> Seq<char> {
    "some-audience"@
}

/// How long an ID token stays valid, in seconds.
pub const ID_TOKEN_LIFETIME: i64 = 600;

/// Why a token could not be made.
#[derive(Debug)]
pub enum TokenError {
    /// The grant carries no connection context.
    MissingConnectionContext,
    /// Encoding or signing failed.
    Signing(BiscuitError),
    /// The expiry time does not fit the time range.
    TimeOutOfRange,
}

pub open spec fn comma() -> Seq<char> {
    seq![',']
}

/// A JSON object member with a string value.
pub open spec fn str_member(name: Seq<char>, value: Seq<char>) -> Seq<char> {
    quoted(name) + seq![':'] + quoted(value)
}

/// A JSON object member with an integer value.
pub open spec fn int_member(name: Seq<char>, value: int) -> Seq<char> {
    quoted(name) + seq![':'] + signed_decimal(value)
}

/// The JWS header: the algorithm and the key identifier.
pub open spec fn jws_header(kid: Seq<char>) -> Seq<char> {
    seq!['{'] + str_member("alg"@, "HS256"@) + comma() + str_member("kid"@, kid) + comma()
        + str_member("typ"@, "JWT"@) + seq!['}']
}

/// The compact serialisation of a header and a payload signed under `key`.
pub open spec fn compact(header: Seq<char>, payload: Seq<char>, key: Seq<u8>) -> Seq<char> {
    let input = base64url_of(encode_utf8(header)) + seq!['.'] + base64url_of(
        encode_utf8(payload),
    );
    input + seq!['.'] + base64url_of(hmac_sha256_of(key, encode_utf8(input)))
}

/// An optional string member, after a comma; nothing where it is absent.
pub open spec fn opt_str_part(name: Seq<char>, o: Option<String>) -> Seq<char> {
    match o {
        Some(a) => comma() + str_member(name, a@),
        None => Seq::empty(),
    }
}

pub open spec fn auth_time_part(o: Option<u64>) -> Seq<char> {
    match o {
        Some(t) => comma() + int_member("auth_time"@, t as int),
        None => Seq::empty(),
    }
}

pub open spec fn scope_part(scope: Seq<char>) -> Seq<char> {
    if scope.len() == 0 {
        Seq::empty()
    } else {
        comma() + str_member("scope"@, scope)
    }
}

pub open spec fn email_verified_part(o: Option<bool>) -> Seq<char> {
    match o {
        Some(b) => comma() + quoted("email_verified"@) + seq![':'] + (if b {
            "true"@
        } else {
            "false"@
        }),
        None => Seq::empty(),
    }
}

/// The members that the private claims add, each after a comma; absent
/// values and an empty scope are left out.
pub open spec fn private_members(c: AccessTokenClaims) -> Seq<char> {
    opt_str_part("azp"@, c.azp) + auth_time_part(c.auth_time) + scope_part(c.scope@)
        + opt_str_part("preferred_username"@, c.preferred_username) + email_verified_part(
        c.email_verified,
    )
}

/// The payload of an access token, with `private` the members that the
/// private claims add.
pub open spec fn access_payload(
    issuer: Seq<char>,
    subject: Seq<char>,
    expiry: int,
    issued_at: int,
    private: Seq<char>,
) -> Seq<char> {
    seq!['{'] + str_member("iss"@, issuer) + comma() + str_member("sub"@, subject) + comma()
        + str_member("aud"@, audience()) + comma() + int_member("exp"@, expiry) + comma()
        + int_member("iat"@, issued_at) + private + seq!['}']
}

/// The private members of an access token for a grant: the authorized
/// party, then the scope where it is not empty.
pub open spec fn grant_members(client_id: Seq<char>, scope: Seq<char>) -> Seq<char> {
    comma() + str_member("azp"@, client_id) + scope_part(scope)
}

/// The payload of an ID token.
pub open spec fn id_payload(issuer: Seq<char>, issued_at: int, subject: Seq<char>) -> Seq<char> {
    seq!['{'] + str_member("iss"@, issuer) + comma() + str_member("aud"@, audience()) + comma()
        + int_member("exp"@, issued_at + 600) + comma() + int_member("iat"@, issued_at) + comma()
        + str_member("sub"@, subject) + seq!['}']
}

/// The issuer URL of an access token: the origin the request reached, then
/// the tenant's base path.
pub open spec fn issuer_of(scheme: Seq<char>, host: Seq<char>, base: Seq<char>) -> Seq<char> {
    scheme + "://"@ + host + base
}

/// One entry of a grant's extension bag: its identifier and its private
/// payload, if any.
#[derive(Clone, Debug)]
pub struct GrantExtension {
    pub id: String,
    pub private: Option<String>,
}

/// The part of a grant that tokens are made from.
#[derive(Clone, Debug)]
pub struct Grant {
    pub owner_id: String,
    pub client_id: String,
    pub scope: String,
    /// Expiry, in seconds since the Unix epoch.
    pub until: i64,
    pub extensions: Vec<GrantExtension>,
}

/// The connection context of an extension bag: the first entry under the
/// context's identifier whose payload decodes.
pub open spec fn context_in(exts: Seq<GrantExtension>) -> Option<(Seq<char>, Seq<char>)>
    decreases exts.len(),
{
    if exts.len() == 0 {
        None
    } else if exts[0].id@ == extension_id() && exts[0].private is Some && decoded(
        exts[0].private->Some_0@,
    ) is Some {
        decoded(exts[0].private->Some_0@)
    } else {
        context_in(exts.skip(1))
    }
}

/// Appends `"name":"value"`.
fn push_str_member(out: &mut String, name: &str, value: &str)
    ensures
        final(out)@ == old(out)@ + str_member(name@, value@),
{
    push_quoted(out, name);
    out.append(":");
    proof {
        reveal_strlit(":");
    }
    push_quoted(out, value);
    proof {
        assert(final(out)@ =~= old(out)@ + str_member(name@, value@));
    }
}

/// Appends `"name":value` for an integer value.
fn push_int_member(out: &mut String, name: &str, value: i64)
    ensures
        final(out)@ == old(out)@ + int_member(name@, value as int),
{
    push_quoted(out, name);
    out.append(":");
    proof {
        reveal_strlit(":");
    }
    push_signed(out, value);
    proof {
        assert(final(out)@ =~= old(out)@ + int_member(name@, value as int));
    }
}

fn push_comma(out: &mut String)
    ensures
        final(out)@ == old(out)@ + comma(),
{
    out.append(",");
    proof {
        reveal_strlit(",");
    }
}

fn open_object() -> (r: String)
    ensures
        r@ == seq!['{'],
{
    proof {
        reveal_strlit("{");
    }
    String::from_str("{")
}

fn close_object(out: &mut String)
    ensures
        final(out)@ == old(out)@ + seq!['}'],
{
    out.append("}");
    proof {
        reveal_strlit("}");
    }
}

/// The JWS header for tokens signed under `key`.
pub fn header(key: &Key) -> (r: String)
    ensures
        r@ == jws_header(key.id_view()),
{
    let mut out = open_object();
    push_str_member(&mut out, "alg", "HS256");
    push_comma(&mut out);
    push_str_member(&mut out, "kid", key.id());
    push_comma(&mut out);
    push_str_member(&mut out, "typ", "JWT");
    close_object(&mut out);
    proof {
        assert(out@ =~= jws_header(key.id_view()));
    }
    out
}

/// Signs a payload under `key`: the compact serialisation of the header and
/// the payload, and their HMAC-SHA-256 signature.
pub fn encode(key: &Key, payload: &str) -> (r: Result<String, TokenError>)
    ensures
        r matches Ok(t) && t@ == compact(jws_header(key.id_view()), payload@, key.secret_view()),
{
    let h = header(key);
    let hb = h.as_str().as_bytes_vec();
    let pb = payload.as_bytes_vec();
    let h64 = match base64url(hb.as_slice()) {
        Ok(s) => s,
        Err(e) => {
            return Err(TokenError::Signing(e));
        },
    };
    let p64 = match base64url(pb.as_slice()) {
        Ok(s) => s,
        Err(e) => {
            return Err(TokenError::Signing(e));
        },
    };
    let mut input = h64;
    input.append(".");
    input.append(p64.as_str());
    proof {
        reveal_strlit(".");
    }
    let ib = input.as_str().as_bytes_vec();
    let tag = match hmac_sha256(key.secret(), ib.as_slice()) {
        Ok(t) => t,
        Err(e) => {
            return Err(TokenError::Signing(e));
        },
    };
    let s64 = match base64url(tag.as_slice()) {
        Ok(s) => s,
        Err(e) => {
            return Err(TokenError::Signing(e));
        },
    };
    let ghost signed_input = input@;
    proof {
        assert(signed_input =~= h64@ + seq!['.'] + p64@);
        assert(tag@ == hmac_sha256_of(key.secret_view(), encode_utf8(signed_input)));
    }
    let mut out = input;
    out.append(".");
    out.append(s64.as_str());
    proof {
        assert(hb@ == encode_utf8(jws_header(key.id_view())));
        assert(pb@ == encode_utf8(payload@));
        assert(h64@ == base64url_of(encode_utf8(jws_header(key.id_view()))));
        assert(p64@ == base64url_of(encode_utf8(payload@)));
        assert(out@ =~= compact(jws_header(key.id_view()), payload@, key.secret_view()));
    }
    Ok(out)
}

fn push_opt_str(out: &mut String, name: &str, o: &Option<String>)
    ensures
        final(out)@ == old(out)@ + opt_str_part(name@, *o),
{
    match o {
        Some(a) => {
            push_comma(out);
            push_str_member(out, name, a.as_str());
            proof {
                assert(final(out)@ =~= old(out)@ + opt_str_part(name@, *o));
            }
        },
        None => {
            proof {
                assert(out@ =~= old(out)@ + opt_str_part(name@, *o));
            }
        },
    }
}

fn push_auth_time(out: &mut String, o: Option<u64>)
    ensures
        final(out)@ == old(out)@ + auth_time_part(o),
{
    match o {
        Some(t) => {
            push_comma(out);
            push_quoted(out, "auth_time");
            out.append(":");
            proof {
                reveal_strlit(":");
            }
            crate::text::push_decimal(out, t);
            proof {
                assert(final(out)@ =~= old(out)@ + auth_time_part(o));
            }
        },
        None => {
            proof {
                assert(out@ =~= old(out)@ + auth_time_part(o));
            }
        },
    }
}

fn push_scope(out: &mut String, scope: &str)
    ensures
        final(out)@ == old(out)@ + scope_part(scope@),
{
    if scope.unicode_len() > 0 {
        push_comma(out);
        push_str_member(out, "scope", scope);
        proof {
            assert(final(out)@ =~= old(out)@ + scope_part(scope@));
        }
    } else {
        proof {
            assert(out@ =~= old(out)@ + scope_part(scope@));
        }
    }
}

fn push_email_verified(out: &mut String, o: Option<bool>)
    ensures
        final(out)@ == old(out)@ + email_verified_part(o),
{
    match o {
        Some(b) => {
            push_comma(out);
            push_quoted(out, "email_verified");
            out.append(":");
            if b {
                out.append("true");
            } else {
                out.append("false");
            }
            proof {
                reveal_strlit(":");
                assert(final(out)@ =~= old(out)@ + email_verified_part(o));
            }
        },
        None => {
            proof {
                assert(out@ =~= old(out)@ + email_verified_part(o));
            }
        },
    }
}

/// Appends the private claims, each after a comma.
fn push_private_claims(out: &mut String, c: &AccessTokenClaims)
    ensures
        final(out)@ == old(out)@ + private_members(*c),
{
    push_opt_str(out, "azp", &c.azp);
    push_auth_time(out, c.auth_time);
    push_scope(out, c.scope.as_str());
    push_opt_str(out, "preferred_username", &c.preferred_username);
    push_email_verified(out, c.email_verified);
    proof {
        assert(final(out)@ =~= old(out)@ + private_members(*c));
    }
}

/// Makes access tokens for the grants of one tenant.
pub struct JwtAccessGenerator {
    /// The path of the tenant's base URL.
    issuer_base: String,
    key: Key,
}

impl JwtAccessGenerator {
    pub closed spec fn base_view(&self) -> Seq<char> {
        self.issuer_base@
    }

    pub closed spec fn key_view(&self) -> Key {
        self.key
    }

    pub fn new(issuer_base: String, key: Key) -> (r: JwtAccessGenerator)
        ensures
            r.base_view() == issuer_base@,
            r.key_view() == key,
    {
        JwtAccessGenerator { issuer_base, key }
    }

    /// The connection context that the grant carries.
    pub fn find_context(exts: &Vec<GrantExtension>) -> (r: Option<crate::context::ConnectionInformationData>)
        ensures
            match r {
                Some(d) => context_in(exts@) == Some((d.scheme@, d.host@)),
                None => context_in(exts@) is None,
            },
    {
        let mut j: usize = 0;
        proof {
            assert(exts@.skip(0) =~= exts@);
        }
        while j < exts.len()
            invariant
                j <= exts@.len(),
                context_in(exts@) == context_in(exts@.skip(j as int)),
            decreases exts@.len() - j,
        {
            let e = &exts[j];
            proof {
                assert(exts@.skip(j as int)[0] == exts@[j as int]);
                assert(exts@.skip(j as int).skip(1) =~= exts@.skip(j + 1));
            }
            if crate::text::same_text(e.id.as_str(), ConnectionInformation::id()) {
                match &e.private {
                    Some(p) => match ConnectionInformation::decode(p.as_str()) {
                        Some(d) => {
                            return Some(d);
                        },
                        None => {},
                    },
                    None => {},
                }
            }
            j = j + 1;
        }
        proof {
            assert(exts@.skip(j as int).len() == 0);
        }
        None
    }

    /// The access token for `grant`, issued at `now`.
    pub fn create_at(&self, grant: &Grant, now: i64) -> (r: Result<String, TokenError>)
        ensures
            context_in(grant.extensions@) is None ==> r matches Err(
                TokenError::MissingConnectionContext,
            ),
            context_in(grant.extensions@) matches Some((scheme, host)) ==> {
                &&& r matches Ok(t) && t@ == compact(
                    jws_header(self.key_view().id_view()),
                    access_payload(
                        issuer_of(scheme, host, self.base_view()),
                        grant.owner_id@,
                        grant.until as int,
                        now as int,
                        grant_members(grant.client_id@, grant.scope@),
                    ),
                    self.key_view().secret_view(),
                )
            },
    {
        let conn = match Self::find_context(&grant.extensions) {
            Some(d) => d,
            None => {
                return Err(TokenError::MissingConnectionContext);
            },
        };
        let mut issuer = conn.scheme;
        issuer.append("://");
        issuer.append(conn.host.as_str());
        issuer.append(self.issuer_base.as_str());
        let mut claims = AccessTokenClaims::default();
        claims.azp = Some(grant.client_id.clone());
        claims.scope = grant.scope.clone();
        let mut out = open_object();
        push_str_member(&mut out, "iss", issuer.as_str());
        push_comma(&mut out);
        push_str_member(&mut out, "sub", grant.owner_id.as_str());
        push_comma(&mut out);
        push_str_member(&mut out, "aud", "some-audience");
        push_comma(&mut out);
        push_int_member(&mut out, "exp", grant.until);
        push_comma(&mut out);
        push_int_member(&mut out, "iat", now);
        push_private_claims(&mut out, &claims);
        close_object(&mut out);
        proof {
            assert(issuer@ =~= issuer_of(conn.scheme@, conn.host@, self.base_view()));
            assert(private_members(claims) =~= grant_members(grant.client_id@, grant.scope@));
            assert(out@ =~= access_payload(
                issuer_of(conn.scheme@, conn.host@, self.base_view()),
                grant.owner_id@,
                grant.until as int,
                now as int,
                grant_members(grant.client_id@, grant.scope@),
            ));
        }
        encode(&self.key, out.as_str())
    }

    /// The access token for `grant`, issued now; `TimeOutOfRange` where the
    /// clock cannot be read.
    pub fn create(&self, grant: &Grant) -> (r: Result<String, TokenError>)
        ensures
            context_in(grant.extensions@) is None <==> r matches Err(
                TokenError::MissingConnectionContext,
            ),
            r matches Err(e) ==> e is MissingConnectionContext || e is TimeOutOfRange,
            context_in(grant.extensions@) matches Some((scheme, host)) ==> (r matches Ok(t)
                ==> exists|now: i64|
                t@ == compact(
                    jws_header(self.key_view().id_view()),
                    access_payload(
                        issuer_of(scheme, host, self.base_view()),
                        grant.owner_id@,
                        grant.until as int,
                        now as int,
                        grant_members(grant.client_id@, grant.scope@),
                    ),
                    self.key_view().secret_view(),
                )),
    {
        if Self::find_context(&grant.extensions).is_none() {
            return Err(TokenError::MissingConnectionContext);
        }
        match unix_now() {
            Some(now) => self.create_at(grant, now),
            None => Err(TokenError::TimeOutOfRange),
        }
    }
}

/// Makes ID tokens for one tenant.
pub struct JwtIdGenerator {
    issuer: String,
    key: Key,
}

impl JwtIdGenerator {
    pub closed spec fn issuer_view(&self) -> Seq<char> {
        self.issuer@
    }

    pub closed spec fn key_view(&self) -> Key {
        self.key
    }

    pub fn new(key: Key, issuer: String) -> (r: JwtIdGenerator)
        ensures
            r.issuer_view() == issuer@,
            r.key_view() == key,
    {
        JwtIdGenerator { issuer, key }
    }

    /// The ID token issued at `now`; it expires ten minutes later.
    pub fn create_at(&self, now: i64) -> (r: Result<String, TokenError>)
        requires
            now <= i64::MAX - ID_TOKEN_LIFETIME,
        ensures
            r matches Ok(t) && t@ == compact(
                jws_header(self.key_view().id_view()),
                id_payload(self.issuer_view(), now as int, crate::issuer::fixed_subject()),
                self.key_view().secret_view(),
            ),
    {
        let mut out = open_object();
        push_str_member(&mut out, "iss", self.issuer.as_str());
        push_comma(&mut out);
        push_str_member(&mut out, "aud", "some-audience");
        push_comma(&mut out);
        push_int_member(&mut out, "exp", now + ID_TOKEN_LIFETIME);
        push_comma(&mut out);
        push_int_member(&mut out, "iat", now);
        push_comma(&mut out);
        push_str_member(&mut out, "sub", "Marvin");
        close_object(&mut out);
        proof {
            assert(out@ =~= id_payload(self.issuer_view(), now as int, crate::issuer::fixed_subject()));
        }
        encode(&self.key, out.as_str())
    }

    /// The ID token issued now; `TimeOutOfRange` where the clock cannot be
    /// read or the expiry would not fit.
    pub fn create(&self) -> (r: Result<String, TokenError>)
        ensures
            r matches Err(e) ==> e is TimeOutOfRange,
            r matches Ok(t) ==> exists|now: i64|
                now <= i64::MAX - ID_TOKEN_LIFETIME && t@ == compact(
                    jws_header(self.key_view().id_view()),
                    id_payload(self.issuer_view(), now as int, crate::issuer::fixed_subject()),
                    self.key_view().secret_view(),
                ),
    {
        let now = match unix_now() {
            Some(now) => now,
            None => {
                return Err(TokenError::TimeOutOfRange);
            },
        };
        if now > i64::MAX - ID_TOKEN_LIFETIME {
            return Err(TokenError::TimeOutOfRange);
        }
        self.create_at(now)
    }
}

} // verus!
