//! The server's configuration as it is assembled before start-up: port,
//! base path and the tenants under their names.
use crate::issuer::Issuer;
use crate::text::same_text;
use vstd::prelude::*;

verus! {

/// Why the server's configuration was refused.
#[derive(Debug)]
pub enum Error {
    /// Two tenants were given the same name.
    DuplicateIssuer(String),
}

/// The configuration of a server.
pub struct Server {
    port: u16,
    base: Option<String>,
    issuers: Vec<(String, Issuer)>,
    workers: Option<usize>,
}

/// Whether a name is taken in a list of tenants.
pub open spec fn name_taken(issuers: Seq<(String, Issuer)>, name: Seq<char>) -> bool {
    exists|j: int| 0 <= j < issuers.len() && (#[trigger] issuers[j]).0@ == name
}

/// No two tenants of a list share a name.
pub open spec fn names_distinct(issuers: Seq<(String, Issuer)>) -> bool {
    forall|i: int, j: int|
        0 <= i < issuers.len() && 0 <= j < issuers.len() && i != j ==> (#[trigger] issuers[i]).0@
            != (#[trigger] issuers[j]).0@
}

impl Default for Server {
    fn default() -> (r: Server)
        ensures
            r.wf(),
            r.port_view() == 8080,
            r.base_view() is None,
            r.tenants().len() == 0,
            r.workers_view() is None,
    {
        Server::new()
    }
}

impl Server {
    pub closed spec fn port_view(&self) -> u16 {
        self.port
    }

    pub closed spec fn base_view(&self) -> Option<Seq<char>> {
        match self.base {
            Some(b) => Some(b@),
            None => None,
        }
    }

    pub closed spec fn tenants(&self) -> Seq<(String, Issuer)> {
        self.issuers@
    }

    pub closed spec fn workers_view(&self) -> Option<usize> {
        self.workers
    }

    /// Tenant names are distinct.
    pub open spec fn wf(&self) -> bool {
        names_distinct(self.tenants())
    }

    /// A server on port 8080, without base path and without tenants.
    pub fn new() -> (r: Server)
        ensures
            r.wf(),
            r.port_view() == 8080,
            r.base_view() is None,
            r.tenants().len() == 0,
            r.workers_view() is None,
    {
        Server { port: 8080, base: None, issuers: Vec::new(), workers: None }
    }

    pub fn port(&mut self, port: u16)
        ensures
            final(self).port_view() == port,
            final(self).base_view() == old(self).base_view(),
            final(self).tenants() == old(self).tenants(),
            final(self).workers_view() == old(self).workers_view(),
    {
        self.port = port;
    }

    pub fn base(&mut self, base: String)
        ensures
            final(self).base_view() == Some(base@),
            final(self).port_view() == old(self).port_view(),
            final(self).tenants() == old(self).tenants(),
            final(self).workers_view() == old(self).workers_view(),
    {
        self.base = Some(base);
    }

    pub fn workers(&mut self, workers: usize)
        ensures
            final(self).workers_view() == Some(workers),
            final(self).port_view() == old(self).port_view(),
            final(self).base_view() == old(self).base_view(),
            final(self).tenants() == old(self).tenants(),
    {
        self.workers = Some(workers);
    }

    pub fn get_port(&self) -> (r: u16)
        ensures
            r == self.port_view(),
    {
        self.port
    }

    pub fn get_base(&self) -> (r: Option<&str>)
        ensures
            match r {
                Some(b) => self.base_view() == Some(b@),
                None => self.base_view() is None,
            },
    {
        match &self.base {
            Some(b) => Some(b.as_str()),
            None => None,
        }
    }

    pub fn get_workers(&self) -> (r: Option<usize>)
        ensures
            r == self.workers_view(),
    {
        self.workers
    }

    /// The position of the tenant of this name, if one is registered.
    fn position(&self, name: &str) -> (r: Option<usize>)
        ensures
            match r {
                Some(j) => j < self.tenants().len() && self.tenants()[j as int].0@ == name@,
                None => !name_taken(self.tenants(), name@),
            },
    {
        let mut j: usize = 0;
        while j < self.issuers.len()
            invariant
                j <= self.issuers@.len(),
                forall|q: int| 0 <= q < j ==> (#[trigger] self.issuers@[q]).0@ != name@,
            decreases self.issuers@.len() - j,
        {
            if same_text(self.issuers[j].0.as_str(), name) {
                return Some(j);
            }
            j = j + 1;
        }
        None
    }

    /// Whether a tenant of this name is registered.
    pub fn has_issuer(&self, name: &str) -> (r: bool)
        ensures
            r == name_taken(self.tenants(), name@),
    {
        self.position(name).is_some()
    }

    /// Registers a tenant. A name that is taken is refused, and neither
    /// registration under it is kept: the tenant registered before under
    /// that name is removed too.
    pub fn add_issuer(&mut self, name: String, issuer: Issuer) -> (r: Result<(), Error>)
        requires
            old(self).wf(),
        ensures
            final(self).wf(),
            final(self).port_view() == old(self).port_view(),
            final(self).base_view() == old(self).base_view(),
            final(self).workers_view() == old(self).workers_view(),
            name_taken(old(self).tenants(), name@) ==> {
                &&& r matches Err(Error::DuplicateIssuer(n)) && n@ == name@
                &&& !name_taken(final(self).tenants(), name@)
                &&& exists|j: int|
                    0 <= j < old(self).tenants().len() && (#[trigger] old(self).tenants()[j]).0@
                        == name@ && final(self).tenants() == old(self).tenants().remove(j)
            },
            !name_taken(old(self).tenants(), name@) ==> (r is Ok && final(self).tenants() == old(
                self,
            ).tenants().push((name, issuer))),
    {
        match self.position(name.as_str()) {
            Some(j) => {
                let ghost before = self.issuers@;
                self.issuers.remove(j);
                proof {
                    let after = self.issuers@;
                    assert forall|i: int| 0 <= i < after.len() implies (#[trigger] after[i]).0@
                        != name@ by {
                        if i < j {
                            assert(after[i] == before[i]);
                            assert(before[i].0@ != before[j as int].0@);
                        } else {
                            assert(after[i] == before[i + 1]);
                            assert(before[i + 1].0@ != before[j as int].0@);
                        }
                    }
                    assert forall|a: int, b: int|
                        0 <= a < after.len() && 0 <= b < after.len() && a != b implies (
                    #[trigger] after[a]).0@ != (#[trigger] after[b]).0@ by {
                        let a2 = if a < j {
                            a
                        } else {
                            a + 1
                        };
                        let b2 = if b < j {
                            b
                        } else {
                            b + 1
                        };
                        assert(after[a] == before[a2]);
                        assert(after[b] == before[b2]);
                        assert(before[a2].0@ != before[b2].0@);
                    }
                }
                Err(Error::DuplicateIssuer(name))
            },
            None => {
                let ghost before = self.issuers@;
                self.issuers.push((name, issuer));
                proof {
                    assert forall|i: int, j: int|
                        0 <= i < self.issuers@.len() && 0 <= j < self.issuers@.len() && i != j implies (
                    #[trigger] self.issuers@[i]).0@ != (#[trigger] self.issuers@[j]).0@ by {
                        if i == before.len() as int {
                            assert(self.issuers@[j] == before[j]);
                        } else if j == before.len() as int {
                            assert(self.issuers@[i] == before[i]);
                        } else {
                            assert(self.issuers@[i] == before[i]);
                            assert(self.issuers@[j] == before[j]);
                        }
                    }
                }
                Ok(())
            },
        }
    }

    /// Registers every tenant of a list, in order. Where a name comes twice
    /// the whole configuration is refused: no server results.
    pub fn add_issuers(self, list: Vec<(String, Issuer)>) -> (r: Result<Server, Error>)
        requires
            self.wf(),
        ensures
            r is Ok <==> names_distinct(self.tenants() + list@),
            r matches Ok(s) ==> s.wf() && s.tenants() == self.tenants() + list@ && s.port_view()
                == self.port_view() && s.base_view() == self.base_view(),
            r matches Err(Error::DuplicateIssuer(n)) ==> exists|i: int, j: int|
                0 <= i < j < (self.tenants() + list@).len() && (self.tenants() + list@)[i].0@ == n@
                    && (self.tenants() + list@)[j].0@ == n@,
    {
        let ghost all = list@;
        let ghost start = self.tenants();
        let mut server = self;
        let mut pending: Vec<(String, Issuer)> = Vec::new();
        let mut rest = list;
        while rest.len() > 0
            invariant
                all == list@,
                rest@.len() + pending@.len() == all.len(),
                forall|q: int| 0 <= q < pending@.len() ==> pending@[q] == all[all.len() - 1 - q],
                rest@ == all.take(rest@.len() as int),
            decreases rest@.len(),
        {
            let item = rest.pop().unwrap();
            proof {
                assert(item == all[rest@.len() as int]);
                assert(rest@ =~= all.take(rest@.len() as int));
            }
            pending.push(item);
        }
        let n = pending.len();
        let mut k: usize = 0;
        while pending.len() > 0
            invariant
                n == all.len(),
                all == list@,
                start == self.tenants(),
                server.wf(),
                pending@.len() + k == all.len(),
                forall|q: int| 0 <= q < pending@.len() ==> pending@[q] == all[all.len() - 1 - q],
                server.tenants() == start + all.take(k as int),
                server.port_view() == self.port_view(),
                server.base_view() == self.base_view(),
            decreases pending@.len(),
        {
            proof {
                assert(pending@[pending@.len() - 1] == all[k as int]);
            }
            let (name, issuer) = pending.pop().unwrap();
            let ghost before = server.tenants();
            match server.add_issuer(name, issuer) {
                Ok(()) => {},
                Err(e) => {
                    proof {
                        let combined = start + all;
                        let n = all[k as int].0@;
                        let i = choose|i: int| 0 <= i < before.len() && (#[trigger] before[i]).0@ == n;
                        assert(combined[i] == before[i]);
                        assert(combined[start.len() + k] == all[k as int]);
                        assert(combined[i].0@ == combined[start.len() + k].0@);
                        assert(!names_distinct(combined));
                        assert(0 <= i < start.len() + k < combined.len());
                    }
                    return Err(e);
                },
            }
            k = k + 1;
            proof {
                assert(all.take(k as int) =~= all.take(k - 1).push(all[k - 1]));
                assert(server.tenants() =~= start + all.take(k as int));
            }
        }
        proof {
            assert(all.take(k as int) =~= all);
        }
        Ok(server)
    }

    /// The tenants, in the order they were registered.
    pub fn into_issuers(self) -> (r: Vec<(String, Issuer)>)
        ensures
            r@ == self.tenants(),
    {
        self.issuers
    }
}

} // verus!
