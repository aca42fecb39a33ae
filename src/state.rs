//! The registry of tenants: built once from the configuration, then looked
//! up by name for each request.
use crate::context::ConnectionInformationData;
use crate::error::Error;
use crate::issuer::{
    build_ok, built_from, has_bad_rule, has_bad_scope, lacks_redirect, scopes_ok, IssueBuildError,
    Issuer, IssuerState,
};
use crate::secrets::Key;
use crate::text::same_text;
use crate::token::JwtIdGenerator;
use crate::uri::{
    join_url, joined_url, parsed_url, push_segment, serialize_url, serialized_url,
    url_with_segment,
};
use vstd::prelude::*;

verus! {

/// One tenant's configuration: its name, its issuer and its signing key.
pub struct TenantConfig {
    pub name: String,
    pub issuer: Issuer,
    pub key: Key,
}

/// The tenants of a running server.
pub struct ApplicationState {
    base_path: Option<String>,
    issuers: Vec<(String, IssuerState)>,
}

/// The base URL of all tenants: the public base, joined with the base path
/// where there is one.
pub open spec fn common_base(public_base: Seq<char>, base_path: Option<Seq<char>>) -> Option<
    Seq<char>,
> {
    match base_path {
        Some(p) => joined_url(public_base, p),
        None => Some(public_base),
    }
}

/// The base URL of one tenant.
pub open spec fn tenant_base(base: Seq<char>, name: Seq<char>) -> Option<Seq<char>> {
    url_with_segment(base, name)
}

/// Every tenant of the list builds under the common base.
pub open spec fn tenants_ok(base: Seq<char>, ts: Seq<TenantConfig>) -> bool {
    forall|j: int|
        0 <= j < ts.len() ==> tenant_base(base, (#[trigger] ts[j]).name@) is Some && build_ok(
            ts[j].issuer,
            tenant_base(base, ts[j].name@)->Some_0,
        )
}

/// No two tenants of the list share a name.
pub open spec fn tenant_names_distinct(ts: Seq<TenantConfig>) -> bool {
    forall|a: int, b: int|
        0 <= a < b < ts.len() ==> (#[trigger] ts[a]).name@ != (#[trigger] ts[b]).name@
}

/// A public client of the tenant has no redirect rule.
pub open spec fn tenant_lacks_redirect(t: TenantConfig) -> bool {
    exists|i: int|
        0 <= i < t.issuer.clients@.len() && lacks_redirect(#[trigger] t.issuer.clients@[i])
}

/// The tenant's base URL does not parse, or a redirect rule is no URL.
pub open spec fn tenant_url_fault(base: Seq<char>, t: TenantConfig) -> bool {
    parsed_url(tenant_base(base, t.name@)->Some_0) is None || exists|i: int|
        0 <= i < t.issuer.clients@.len() && has_bad_rule(#[trigger] t.issuer.clients@[i])
}

/// A scope text of the tenant is not valid.
pub open spec fn tenant_scope_fault(t: TenantConfig) -> bool {
    (exists|i: int|
        0 <= i < t.issuer.clients@.len() && has_bad_scope(#[trigger] t.issuer.clients@[i]))
        || !scopes_ok(t.issuer.scopes@)
}

/// The base URL seen by a request: its scheme and host, then the base path
/// where there is one.
pub open spec fn request_base(
    scheme: Seq<char>,
    host: Seq<char>,
    base_path: Option<Seq<char>>,
) -> Option<Seq<char>> {
    match serialized_url(scheme + "://"@ + host) {
        Some(u) => match base_path {
            Some(p) => url_with_segment(u, p),
            None => Some(u),
        },
        None => None,
    }
}

pub open spec fn opt_text(o: Option<String>) -> Option<Seq<char>> {
    match o {
        Some(s) => Some(s@),
        None => None,
    }
}

impl ApplicationState {
    pub closed spec fn tenants(&self) -> Seq<(String, IssuerState)> {
        self.issuers@
    }

    pub closed spec fn base_path_view(&self) -> Option<Seq<char>> {
        opt_text(self.base_path)
    }

    /// Builds every tenant under the public base URL (joined with the base
    /// path, where there is one) followed by the tenant's name.
    pub fn new(issuers: Vec<TenantConfig>, public_base: &str, base_path: Option<String>) -> (r: Result<
        ApplicationState,
        IssueBuildError,
    >)
        ensures
            r is Ok <==> (common_base(public_base@, opt_text(base_path)) matches Some(b)
                && tenant_names_distinct(issuers@) && tenants_ok(b, issuers@)),
            r matches Err(IssueBuildError::DuplicateIssuer(n)) ==> exists|a: int, b: int|
                0 <= a < b < issuers@.len() && (#[trigger] issuers@[a]).name@ == n@
                    && (#[trigger] issuers@[b]).name@ == n@,
            r matches Err(IssueBuildError::CannotBeABase) ==> (common_base(
                public_base@,
                opt_text(base_path),
            ) matches Some(b) && exists|j: int|
                0 <= j < issuers@.len() && tenant_base(b, (#[trigger] issuers@[j]).name@) is None),
            r matches Err(IssueBuildError::MissingRedirectUri) ==> exists|j: int|
                0 <= j < issuers@.len() && tenant_lacks_redirect(#[trigger] issuers@[j]),
            r matches Err(IssueBuildError::Url(_)) ==> (common_base(
                public_base@,
                opt_text(base_path),
            ) matches Some(b) ==> exists|j: int|
                0 <= j < issuers@.len() && tenant_url_fault(b, #[trigger] issuers@[j])),
            r matches Err(IssueBuildError::Scope(_)) ==> exists|j: int|
                0 <= j < issuers@.len() && tenant_scope_fault(#[trigger] issuers@[j]),
            r matches Ok(st) ==> {
                let b = common_base(public_base@, opt_text(base_path))->Some_0;
                &&& st.base_path_view() == opt_text(base_path)
                &&& st.tenants().len() == issuers@.len()
                &&& forall|j: int|
                    0 <= j < issuers@.len() ==> (#[trigger] st.tenants()[j]).0@ == issuers@[j].name@
                        && built_from(
                        issuers@[j].issuer,
                        tenant_base(b, issuers@[j].name@)->Some_0,
                        issuers@[j].key,
                        st.tenants()[j].1,
                    )
            },
    {
        let base = match &base_path {
            Some(p) => match join_url(public_base, p.as_str()) {
                Ok(b) => b,
                Err(e) => {
                    return Err(IssueBuildError::Url(e));
                },
            },
            None => String::from_str(public_base),
        };
        let n = issuers.len();
        let mut i: usize = 0;
        while i < n
            invariant
                n == issuers@.len(),
                i <= n,
                forall|a: int, b: int|
                    0 <= a < b < i ==> (#[trigger] issuers@[a]).name@ != (
                    #[trigger] issuers@[b]).name@,
            decreases n - i,
        {
            let mut k: usize = 0;
            while k < i
                invariant
                    n == issuers@.len(),
                    k <= i < n,
                    forall|a: int| 0 <= a < k ==> (#[trigger] issuers@[a]).name@ != issuers@[i as int].name@,
                decreases i - k,
            {
                if same_text(issuers[k].name.as_str(), issuers[i].name.as_str()) {
                    return Err(IssueBuildError::DuplicateIssuer(issuers[i].name.clone()));
                }
                k = k + 1;
            }
            i = i + 1;
        }
        proof {
            assert(tenant_names_distinct(issuers@));
        }
        let ghost all = issuers@;
        let mut rest = issuers;
        let mut reversed: Vec<(String, IssuerState)> = Vec::new();
        while rest.len() > 0
            invariant
                all == issuers@,
                tenant_names_distinct(all),
                common_base(public_base@, opt_text(base_path)) == Some(base@),
                rest@.len() + reversed@.len() == all.len(),
                rest@ == all.take(rest@.len() as int),
                forall|j: int|
                    0 <= j < reversed@.len() ==> (#[trigger] reversed@[j]).0@ == all[all.len() - 1
                        - j].name@ && built_from(
                        all[all.len() - 1 - j].issuer,
                        tenant_base(base@, all[all.len() - 1 - j].name@)->Some_0,
                        all[all.len() - 1 - j].key,
                        reversed@[j].1,
                    ),
                forall|j: int|
                    rest@.len() <= j < all.len() ==> tenant_base(base@, (#[trigger] all[j]).name@)
                        is Some && build_ok(all[j].issuer, tenant_base(base@, all[j].name@)->Some_0),
            decreases rest@.len(),
        {
            let t = rest.pop().unwrap();
            let ghost k = rest@.len() as int;
            proof {
                assert(t == all[k]);
            }
            let TenantConfig { name, issuer, key } = t;
            let tb = match push_segment(base.as_str(), name.as_str()) {
                Some(u) => u,
                None => {
                    proof {
                        assert(tenant_base(base@, all[k].name@) is None);
                    }
                    return Err(IssueBuildError::CannotBeABase);
                },
            };
            let ghost cfg = issuer;
            match issuer.build(tb.as_str(), key) {
                Ok(st) => reversed.push((name, st)),
                Err(e) => {
                    proof {
                        assert(cfg == all[k].issuer);
                        match e {
                            IssueBuildError::MissingRedirectUri => {
                                assert(tenant_lacks_redirect(all[k]));
                            },
                            IssueBuildError::Url(_) => {
                                assert(tenant_url_fault(base@, all[k]));
                            },
                            IssueBuildError::Scope(_) => {
                                assert(tenant_scope_fault(all[k]));
                            },
                            _ => {},
                        }
                    }
                    return Err(e);
                },
            }
            proof {
                assert(rest@ =~= all.take(rest@.len() as int));
                assert forall|j: int| 0 <= j < reversed@.len() implies (#[trigger] reversed@[j]).0@
                    == all[all.len() - 1 - j].name@ && built_from(
                    all[all.len() - 1 - j].issuer,
                    tenant_base(base@, all[all.len() - 1 - j].name@)->Some_0,
                    all[all.len() - 1 - j].key,
                    reversed@[j].1,
                ) by {
                    if j == reversed@.len() - 1 {
                        assert(all.len() - 1 - j == k);
                    }
                }
            }
        }
        let mut tenants: Vec<(String, IssuerState)> = Vec::new();
        while reversed.len() > 0
            invariant
                reversed@.len() + tenants@.len() == all.len(),
                forall|j: int|
                    0 <= j < reversed@.len() ==> (#[trigger] reversed@[j]).0@ == all[all.len() - 1
                        - j].name@ && built_from(
                        all[all.len() - 1 - j].issuer,
                        tenant_base(base@, all[all.len() - 1 - j].name@)->Some_0,
                        all[all.len() - 1 - j].key,
                        reversed@[j].1,
                    ),
                forall|j: int|
                    0 <= j < tenants@.len() ==> (#[trigger] tenants@[j]).0@ == all[j].name@
                        && built_from(
                        all[j].issuer,
                        tenant_base(base@, all[j].name@)->Some_0,
                        all[j].key,
                        tenants@[j].1,
                    ),
            decreases reversed@.len(),
        {
            proof {
                let j = reversed@.len() - 1;
                assert(reversed@[j].0@ == all[all.len() - 1 - j].name@);
            }
            let g = reversed.pop().unwrap();
            tenants.push(g);
        }
        Ok(ApplicationState { base_path, issuers: tenants })
    }

    /// The tenant of this name.
    pub fn issuer(&self, name: &str) -> (r: Option<&IssuerState>)
        ensures
            match r {
                Some(s) => exists|j: int|
                    0 <= j < self.tenants().len() && (#[trigger] self.tenants()[j]).0@ == name@ && *s
                        == self.tenants()[j].1,
                None => forall|j: int|
                    0 <= j < self.tenants().len() ==> (#[trigger] self.tenants()[j]).0@ != name@,
            },
    {
        let mut j: usize = 0;
        while j < self.issuers.len()
            invariant
                j <= self.issuers@.len(),
                forall|q: int| 0 <= q < j ==> (#[trigger] self.issuers@[q]).0@ != name@,
            decreases self.issuers@.len() - j,
        {
            let n = &self.issuers[j].0;
            if crate::text::same_text(n.as_str(), name) {
                proof {
                    assert(self.tenants()[j as int] == self.issuers@[j as int]);
                }
                return Some(&self.issuers[j].1);
            }
            j = j + 1;
        }
        None
    }

    /// The names of all tenants.
    pub fn issuers(&self) -> (r: Vec<String>)
        ensures
            r@.len() == self.tenants().len(),
            forall|j: int| 0 <= j < r@.len() ==> (#[trigger] r@[j])@ == self.tenants()[j].0@,
    {
        let mut out: Vec<String> = Vec::new();
        let mut j: usize = 0;
        while j < self.issuers.len()
            invariant
                j <= self.issuers@.len(),
                out@.len() == j,
                forall|q: int| 0 <= q < j ==> (#[trigger] out@[q])@ == self.issuers@[q].0@,
            decreases self.issuers@.len() - j,
        {
            out.push(self.issuers[j].0.clone());
            j = j + 1;
        }
        out
    }

    /// The base URL as the request `conn` sees it.
    pub fn build_base(&self, conn: &ConnectionInformationData) -> (r: Result<String, Error>)
        ensures
            match r {
                Ok(u) => request_base(conn.scheme@, conn.host@, self.base_path_view()) == Some(u@),
                Err(e) => request_base(conn.scheme@, conn.host@, self.base_path_view()) is None && (
                e is Url || e is UrlParse),
            },
    {
        let mut origin = conn.scheme.clone();
        origin.append("://");
        origin.append(conn.host.as_str());
        let url = match serialize_url(origin.as_str()) {
            Ok(u) => u,
            Err(e) => {
                return Err(Error::UrlParse(e));
            },
        };
        proof {
            reveal_strlit("://");
            assert(origin@ =~= conn.scheme@ + "://"@ + conn.host@);
        }
        match &self.base_path {
            Some(p) => match push_segment(url.as_str(), p.as_str()) {
                Some(u) => Ok(u),
                None => Err(Error::Url),
            },
            None => Ok(url),
        }
    }

    /// The base URL of the tenant `name` as the request `conn` sees it.
    pub fn issuer_url(&self, conn: &ConnectionInformationData, name: &str) -> (r: Result<
        String,
        Error,
    >)
        ensures
            r is Ok <==> (request_base(conn.scheme@, conn.host@, self.base_path_view()) matches Some(
                b,
            ) && url_with_segment(b, name@) is Some),
            r matches Ok(u) ==> url_with_segment(
                request_base(conn.scheme@, conn.host@, self.base_path_view())->Some_0,
                name@,
            ) == Some(u@),
            r matches Err(e) ==> e is Url || e is UrlParse,
    {
        let base = self.build_base(conn)?;
        match push_segment(base.as_str(), name) {
            Some(u) => Ok(u),
            None => Err(Error::Url),
        }
    }

    /// The generator of ID tokens for the tenant `name` as the request
    /// `conn` sees it.
    pub fn id_generator(&self, conn: &ConnectionInformationData, name: &str) -> (r: Result<
        JwtIdGenerator,
        Error,
    >)
        ensures
            r is Ok <==> ((exists|j: int|
                0 <= j < self.tenants().len() && (#[trigger] self.tenants()[j]).0@ == name@)
                && (request_base(conn.scheme@, conn.host@, self.base_path_view()) matches Some(b)
                && url_with_segment(b, name@) is Some)),
            r matches Err(Error::UnknownIssuer(_)) <==> forall|j: int|
                0 <= j < self.tenants().len() ==> (#[trigger] self.tenants()[j]).0@ != name@,
            r matches Err(Error::UnknownIssuer(n)) ==> n@ == name@,
            r matches Err(e) ==> e is UnknownIssuer || e is Url || e is UrlParse,
            r matches Ok(g) ==> exists|j: int|
                0 <= j < self.tenants().len() && (#[trigger] self.tenants()[j]).0@ == name@
                    && g.key_view().id_view() == self.tenants()[j].1.key.id_view()
                    && g.key_view().secret_view() == self.tenants()[j].1.key.secret_view()
                    && url_with_segment(
                    request_base(conn.scheme@, conn.host@, self.base_path_view())->Some_0,
                    name@,
                ) == Some(g.issuer_view()),
    {
        let issuer = match self.issuer(name) {
            Some(i) => i,
            None => {
                return Err(Error::UnknownIssuer(String::from_str(name)));
            },
        };
        let url = self.issuer_url(conn, name)?;
        Ok(JwtIdGenerator::new(issuer.key.duplicate(), url))
    }
}

} // verus!
