//! Issuer configuration (scopes and clients) and the per-tenant state built
//! from it: the registered clients, the scopes and the signing key.
use crate::redirect::{registered_of, rule_matches, RedirectUrl, RegisteredUrl};
use crate::secrets::Key;
use crate::uri::{parse_url, parsed_url};
use vstd::prelude::*;

verus! {

#[verifier::external_type_specification]
#[verifier::external_body]
pub struct ExParseScopeErr(oxide_auth::primitives::scope::ParseScopeErr);

/// The characters a scope text may hold: the scope-token characters and the
/// space that separates tokens.
pub open spec fn scope_char_ok(c: char) -> bool {
    c == '!' || ('#' <= c && c <= '[') || (']' <= c && c <= '~') || c == ' '
}

/// A valid scope text: space-separated scope tokens.
pub open spec fn scope_text_ok(s: Seq<char>) -> bool {
    forall|i: int| 0 <= i < s.len() ==> scope_char_ok(#[trigger] s[i])
}

/// Relies on oxide_auth's `Scope::from_str`: it refuses a text exactly when
/// one of its characters is no scope-token character and no space.
#[verifier::external_body]
fn check_scope(s: &str) -> (r: Result<(), oxide_auth::primitives::scope::ParseScopeErr>)
    ensures
        r is Ok <==> scope_text_ok(s@),
{
    s.parse::<oxide_auth::primitives::scope::Scope>().map(|_| ())
}

/// A client as the configuration states it.
#[derive(Clone, Debug)]
pub enum Client {
    /// Authenticates with a shared secret; has no redirect URI.
    Confidential { id: String, secret: String, default_scope: String },
    /// Has one or more redirect rules; the first is the primary one.
    Public { id: String, redirect_urls: Vec<RedirectUrl>, default_scope: String },
}

/// The scope a client gets where its configuration names none.
pub fn default_scope() -> (r: String)
    ensures
        r@ == "openid"@,
{
    String::from_str("openid")
}

impl Client {
    pub open spec fn id_view(&self) -> Seq<char> {
        match self {
            Client::Confidential { id, .. } => id@,
            Client::Public { id, .. } => id@,
        }
    }

    pub fn id(&self) -> (r: &str)
        ensures
            r@ == self.id_view(),
    {
        match self {
            Client::Confidential { id, .. } => id.as_str(),
            Client::Public { id, .. } => id.as_str(),
        }
    }
}

/// Why an issuer could not be built from its configuration.
#[derive(Debug)]
pub enum IssueBuildError {
    Url(url::ParseError),
    Scope(oxide_auth::primitives::scope::ParseScopeErr),
    MissingRedirectUri,
    /// A tenant's base URL cannot take path segments.
    CannotBeABase,
    /// Two tenants were given the same name.
    DuplicateIssuer(String),
}

/// One tenant's configuration: its scopes and clients.
#[derive(Clone, Debug)]
pub struct Issuer {
    pub scopes: Vec<String>,
    pub clients: Vec<Client>,
}

/// How a registered client authenticates.
#[derive(Clone, Debug)]
pub enum ClientType {
    Public,
    Confidential { secret: String },
}

/// A client as the registrar holds it: its redirect rules ready for matching.
#[derive(Clone, Debug)]
pub struct RegisteredClient {
    pub client_id: String,
    pub redirect_uris: Vec<RegisteredUrl>,
    pub default_scope: String,
    pub client_type: ClientType,
}

/// The state of one tenant, built from its configuration.
pub struct IssuerState {
    pub registrar: Vec<RegisteredClient>,
    pub scopes: Vec<String>,
    /// The path of the tenant's base URL.
    pub issuer_base: String,
    pub key: Key,
}

/// Every rule of the list can be registered.
pub open spec fn rules_register(v: Seq<RedirectUrl>) -> bool {
    forall|k: int| 0 <= k < v.len() ==> (#[trigger] registered_of(v[k]@)) is Some
}

/// A client registers: a public one has at least one redirect rule and all
/// of them are URLs, and its default scope is a valid scope text.
pub open spec fn client_ok(c: Client) -> bool {
    match c {
        Client::Confidential { default_scope, .. } => scope_text_ok(default_scope@),
        Client::Public { redirect_urls, default_scope, .. } => {
            &&& redirect_urls@.len() >= 1
            &&& rules_register(redirect_urls@)
            &&& scope_text_ok(default_scope@)
        },
    }
}

/// A public client without any redirect rule.
pub open spec fn lacks_redirect(c: Client) -> bool {
    match c {
        Client::Public { redirect_urls, .. } => redirect_urls@.len() == 0,
        _ => false,
    }
}

/// A public client with a redirect rule that is no URL.
pub open spec fn has_bad_rule(c: Client) -> bool {
    match c {
        Client::Public { redirect_urls, .. } => !rules_register(redirect_urls@),
        _ => false,
    }
}

/// A client whose default scope is no valid scope text.
pub open spec fn has_bad_scope(c: Client) -> bool {
    match c {
        Client::Confidential { default_scope, .. } => !scope_text_ok(default_scope@),
        Client::Public { default_scope, .. } => !scope_text_ok(default_scope@),
    }
}

/// `r` is what the registrar holds for the configured client `c`.
pub open spec fn registers(c: Client, r: RegisteredClient) -> bool {
    match c {
        Client::Confidential { id, secret, default_scope } => {
            &&& r.client_id@ == id@
            &&& r.redirect_uris@.len() == 0
            &&& r.default_scope@ == default_scope@
            &&& match r.client_type {
                ClientType::Confidential { secret: s } => s@ == secret@,
                ClientType::Public => false,
            }
        },
        Client::Public { id, redirect_urls, default_scope } => {
            &&& r.client_id@ == id@
            &&& r.redirect_uris@.len() == redirect_urls@.len()
            &&& forall|k: int|
                0 <= k < redirect_urls@.len() ==> registered_of(#[trigger] redirect_urls@[k]@)
                    == Some(r.redirect_uris@[k]@)
            &&& r.default_scope@ == default_scope@
            &&& r.client_type is Public
        },
    }
}

/// Every client of the list registers.
pub open spec fn clients_ok(cs: Seq<Client>) -> bool {
    forall|j: int| 0 <= j < cs.len() ==> client_ok(#[trigger] cs[j])
}

/// Every scope text of the list is valid.
pub open spec fn scopes_ok(ss: Seq<String>) -> bool {
    forall|j: int| 0 <= j < ss.len() ==> scope_text_ok((#[trigger] ss[j])@)
}

/// The configuration builds under `base`.
pub open spec fn build_ok(cfg: Issuer, base: Seq<char>) -> bool {
    &&& parsed_url(base) is Some
    &&& clients_ok(cfg.clients@)
    &&& scopes_ok(cfg.scopes@)
}

/// `st` is the state built from `cfg` under `base` with `key`.
pub open spec fn built_from(cfg: Issuer, base: Seq<char>, key: Key, st: IssuerState) -> bool {
    &&& parsed_url(base) is Some
    &&& st.registrar@.len() == cfg.clients@.len()
    &&& forall|j: int|
        0 <= j < cfg.clients@.len() ==> registers(#[trigger] cfg.clients@[j], st.registrar@[j])
    &&& st.scopes@ == cfg.scopes@
    &&& st.issuer_base@ == parsed_url(base)->Some_0.path
    &&& st.key == key
}

/// Registers each rule of a list, in order.
fn register_rules(urls: Vec<RedirectUrl>) -> (r: Result<Vec<RegisteredUrl>, url::ParseError>)
    ensures
        r is Ok <==> rules_register(urls@),
        r matches Ok(v) ==> v@.len() == urls@.len() && forall|k: int|
            0 <= k < urls@.len() ==> registered_of(#[trigger] urls@[k]@) == Some(v@[k]@),
{
    let ghost all = urls@;
    let mut rest = urls;
    let mut reversed: Vec<RegisteredUrl> = Vec::new();
    while rest.len() > 0
        invariant
            all == urls@,
            rest@.len() + reversed@.len() == all.len(),
            rest@ == all.take(rest@.len() as int),
            forall|j: int|
                0 <= j < reversed@.len() ==> registered_of(#[trigger] all[all.len() - 1 - j]@)
                    == Some(reversed@[j]@),
        decreases rest@.len(),
    {
        let item = rest.pop().unwrap();
        proof {
            assert(item == all[rest@.len() as int]);
        }
        match RegisteredUrl::try_from(item) {
            Ok(g) => reversed.push(g),
            Err(e) => {
                proof {
                    let k = rest@.len() as int;
                    assert(registered_of(all[k]@) is None);
                    assert(!rules_register(all));
                }
                return Err(e);
            },
        }
        proof {
            assert(rest@ =~= all.take(rest@.len() as int));
            assert forall|j: int| 0 <= j < reversed@.len() implies registered_of(
                #[trigger] all[all.len() - 1 - j]@,
            ) == Some(reversed@[j]@) by {}
        }
    }
    let mut out: Vec<RegisteredUrl> = Vec::new();
    while reversed.len() > 0
        invariant
            reversed@.len() + out@.len() == all.len(),
            forall|j: int|
                0 <= j < reversed@.len() ==> registered_of(#[trigger] all[all.len() - 1 - j]@)
                    == Some(reversed@[j]@),
            forall|j: int| 0 <= j < out@.len() ==> registered_of(#[trigger] all[j]@) == Some(out@[j]@),
        decreases reversed@.len(),
    {
        proof {
            let j = reversed@.len() - 1;
            assert(registered_of(all[all.len() - 1 - j]@) == Some(reversed@[j]@));
        }
        let g = reversed.pop().unwrap();
        out.push(g);
    }
    Ok(out)
}

/// Registers one configured client.
pub fn register_client(c: Client) -> (r: Result<RegisteredClient, IssueBuildError>)
    ensures
        r is Ok <==> client_ok(c),
        r matches Ok(g) ==> registers(c, g),
        r matches Err(IssueBuildError::MissingRedirectUri) ==> lacks_redirect(c),
        r matches Err(IssueBuildError::Url(_)) ==> has_bad_rule(c),
        r matches Err(IssueBuildError::Scope(_)) ==> has_bad_scope(c),
        !(r matches Err(IssueBuildError::CannotBeABase)),
        !(r matches Err(IssueBuildError::DuplicateIssuer(_))),
{
    match c {
        Client::Confidential { id, secret, default_scope } => {
            match check_scope(default_scope.as_str()) {
                Err(e) => Err(IssueBuildError::Scope(e)),
                Ok(()) => Ok(
                    RegisteredClient {
                        client_id: id,
                        redirect_uris: Vec::new(),
                        default_scope,
                        client_type: ClientType::Confidential { secret },
                    },
                ),
            }
        },
        Client::Public { id, redirect_urls, default_scope } => {
            if redirect_urls.len() == 0 {
                return Err(IssueBuildError::MissingRedirectUri);
            }
            match register_rules(redirect_urls) {
                Err(e) => Err(IssueBuildError::Url(e)),
                Ok(uris) => {
                    match check_scope(default_scope.as_str()) {
                        Err(e) => Err(IssueBuildError::Scope(e)),
                        Ok(()) => Ok(
                            RegisteredClient {
                                client_id: id,
                                redirect_uris: uris,
                                default_scope,
                                client_type: ClientType::Public,
                            },
                        ),
                    }
                },
            }
        },
    }
}

impl Issuer {
    pub fn new(scopes: Vec<String>) -> (r: Issuer)
        ensures
            r.scopes@ == scopes@,
            r.clients@.len() == 0,
    {
        Issuer { scopes, clients: Vec::new() }
    }

    pub fn add_client(self, client: Client) -> (r: Issuer)
        ensures
            r.scopes@ == self.scopes@,
            r.clients@ == self.clients@.push(client),
    {
        let mut s = self;
        s.clients.push(client);
        s
    }

    /// Builds the tenant's state under the base URL `base`, with `key` as
    /// its signing key.
    pub fn build(self, base: &str, key: Key) -> (r: Result<IssuerState, IssueBuildError>)
        ensures
            r is Ok <==> build_ok(self, base@),
            r matches Ok(st) ==> built_from(self, base@, key, st),
            r matches Err(IssueBuildError::MissingRedirectUri) ==> exists|j: int|
                0 <= j < self.clients@.len() && lacks_redirect(#[trigger] self.clients@[j]),
            r matches Err(IssueBuildError::Url(_)) ==> parsed_url(base@) is None || exists|j: int|
                0 <= j < self.clients@.len() && has_bad_rule(#[trigger] self.clients@[j]),
            !(r matches Err(IssueBuildError::CannotBeABase)),
            !(r matches Err(IssueBuildError::DuplicateIssuer(_))),
            r matches Err(IssueBuildError::Scope(_)) ==> (exists|j: int|
                0 <= j < self.clients@.len() && has_bad_scope(#[trigger] self.clients@[j])) || !scopes_ok(
                self.scopes@,
            ),
    {
        let parts = match parse_url(base) {
            Ok(p) => p,
            Err(e) => {
                return Err(IssueBuildError::Url(e));
            },
        };
        let ghost all = self.clients@;
        let Issuer { scopes, clients } = self;
        let mut rest = clients;
        let mut reversed: Vec<RegisteredClient> = Vec::new();
        while rest.len() > 0
            invariant
                all == self.clients@,
                rest@.len() + reversed@.len() == all.len(),
                rest@ == all.take(rest@.len() as int),
                forall|j: int|
                    0 <= j < reversed@.len() ==> registers(
                        #[trigger] all[all.len() - 1 - j],
                        reversed@[j],
                    ),
                forall|j: int| rest@.len() <= j < all.len() ==> client_ok(#[trigger] all[j]),
            decreases rest@.len(),
        {
            let c = rest.pop().unwrap();
            let ghost k = rest@.len() as int;
            proof {
                assert(c == all[k]);
            }
            match register_client(c) {
                Ok(g) => reversed.push(g),
                Err(e) => {
                    return Err(e);
                },
            }
            proof {
                assert(rest@ =~= all.take(rest@.len() as int));
                assert forall|j: int| 0 <= j < reversed@.len() implies registers(
                    #[trigger] all[all.len() - 1 - j],
                    reversed@[j],
                ) by {}
            }
        }
        proof {
            assert(rest@.len() == 0);
            assert forall|j: int| 0 <= j < all.len() implies client_ok(#[trigger] all[j]) by {}
        }
        let mut registrar: Vec<RegisteredClient> = Vec::new();
        while reversed.len() > 0
            invariant
                all == self.clients@,
                clients_ok(all),
                reversed@.len() + registrar@.len() == all.len(),
                forall|j: int|
                    0 <= j < reversed@.len() ==> registers(
                        #[trigger] all[all.len() - 1 - j],
                        reversed@[j],
                    ),
                forall|j: int| 0 <= j < registrar@.len() ==> registers(#[trigger] all[j], registrar@[j]),
            decreases reversed@.len(),
        {
            proof {
                let j = reversed@.len() - 1;
                assert(registers(all[all.len() - 1 - j], reversed@[j]));
            }
            let g = reversed.pop().unwrap();
            registrar.push(g);
        }
        let mut i: usize = 0;
        while i < scopes.len()
            invariant
                all == self.clients@,
                clients_ok(all),
                scopes@ == self.scopes@,
                parsed_url(base@) == Some(parts@),
                registrar@.len() == all.len(),
                forall|j: int| 0 <= j < registrar@.len() ==> registers(#[trigger] all[j], registrar@[j]),
                i <= scopes@.len(),
                forall|j: int| 0 <= j < i ==> scope_text_ok((#[trigger] scopes@[j])@),
            decreases scopes@.len() - i,
        {
            match check_scope(scopes[i].as_str()) {
                Ok(()) => {},
                Err(e) => {
                    proof {
                        assert(!scope_text_ok(scopes@[i as int]@));
                    }
                    return Err(IssueBuildError::Scope(e));
                },
            }
            i = i + 1;
        }
        Ok(IssuerState { registrar, scopes, issuer_base: parts.path, key })
    }
}

/// Whether some rule of a list allows `requested`.
pub open spec fn some_rule_matches(rules: Seq<RegisteredUrl>, requested: Seq<char>) -> bool {
    exists|k: int| 0 <= k < rules.len() && rule_matches((#[trigger] rules[k])@, requested)
}

/// Whether a registered client with this id allows the redirect URI.
pub open spec fn redirect_allowed(
    registrar: Seq<RegisteredClient>,
    client_id: Seq<char>,
    requested: Seq<char>,
) -> bool {
    exists|j: int|
        0 <= j < registrar.len() && (#[trigger] registrar[j]).client_id@ == client_id
            && some_rule_matches(registrar[j].redirect_uris@, requested)
}

fn any_rule_matches(rules: &Vec<RegisteredUrl>, requested: &str) -> (r: bool)
    ensures
        r == some_rule_matches(rules@, requested@),
{
    let mut k: usize = 0;
    while k < rules.len()
        invariant
            k <= rules@.len(),
            forall|q: int| 0 <= q < k ==> !rule_matches((#[trigger] rules@[q])@, requested@),
        decreases rules@.len() - k,
    {
        if rules[k].matches(requested) {
            return true;
        }
        k = k + 1;
    }
    false
}

/// The claims the user-info endpoint answers with.
#[derive(Clone, Debug, PartialEq, Eq)]
pub struct UserInfoClaims {
    pub subject: String,
}

/// The subject that every authorization is granted to: no resource-owner
/// authentication stands in front of the authorization endpoint.
pub open spec fn fixed_subject() -> Seq<char> {
    "Marvin"@
}

impl IssuerState {
    /// The generator of access tokens for this tenant.
    pub fn access_generator(&self) -> (r: crate::token::JwtAccessGenerator)
        ensures
            r.base_view() == self.issuer_base@,
            r.key_view().id_view() == self.key.id_view(),
            r.key_view().secret_view() == self.key.secret_view(),
    {
        crate::token::JwtAccessGenerator::new(self.issuer_base.clone(), self.key.duplicate())
    }

    /// Whether the registered client `client_id` may be redirected to
    /// `requested`.
    pub fn check_redirect(&self, client_id: &str, requested: &str) -> (r: bool)
        ensures
            r == redirect_allowed(self.registrar@, client_id@, requested@),
    {
        let mut j: usize = 0;
        while j < self.registrar.len()
            invariant
                j <= self.registrar@.len(),
                forall|q: int|
                    0 <= q < j ==> !((#[trigger] self.registrar@[q]).client_id@ == client_id@
                        && some_rule_matches(self.registrar@[q].redirect_uris@, requested@)),
            decreases self.registrar@.len() - j,
        {
            let c = &self.registrar[j];
            if crate::text::same_text(c.client_id.as_str(), client_id) {
                if any_rule_matches(&c.redirect_uris, requested) {
                    return true;
                }
            }
            j = j + 1;
        }
        false
    }

    /// The keys the tenant publishes: none so far.
    pub fn keys(&self) -> (r: Vec<Key>)
        ensures
            r@.len() == 0,
    {
        Vec::new()
    }

    /// The user-info claims: those of the fixed subject.
    pub fn userinfo(&self) -> (r: UserInfoClaims)
        ensures
            r.subject@ == fixed_subject(),
    {
        UserInfoClaims { subject: String::from_str("Marvin") }
    }
}

} // verus!
