//! Signing keys of the issuers.
use vstd::prelude::*;

verus! {

/// The signature algorithms a key can be used with.
#[derive(Clone, Copy, Debug, PartialEq, Eq)]
pub enum SignatureAlgorithm {
    /// HMAC with SHA-256 over a shared secret.
    HS256,
}

/// A symmetric signing key: its identifier and its secret bytes.
#[derive(Clone, Debug)]
pub struct Key {
    id: String,
    key: Vec<u8>,
}

impl Key {
    pub closed spec fn id_view(&self) -> Seq<char> {
        self.id@
    }

    pub closed spec fn secret_view(&self) -> Seq<u8> {
        self.key@
    }

    pub fn new(id: String, key: Vec<u8>) -> (r: Key)
        ensures
            r.id_view() == id@,
            r.secret_view() == key@,
    {
        Key { id, key }
    }

    pub fn id(&self) -> (r: &str)
        ensures
            r@ == self.id_view(),
    {
        self.id.as_str()
    }

    /// The secret bytes of the key.
    pub fn secret(&self) -> (r: &[u8])
        ensures
            r@ == self.secret_view(),
    {
        self.key.as_slice()
    }

    /// A copy of the key.
    pub fn duplicate(&self) -> (r: Key)
        ensures
            r.id_view() == self.id_view(),
            r.secret_view() == self.secret_view(),
    {
        let key = self.key.clone();
        proof {
            assert(key@ =~= self.key@);
        }
        Key { id: self.id.clone(), key }
    }

    /// The algorithm tokens are signed with under this key.
    pub fn algorithm(&self) -> (r: SignatureAlgorithm)
        ensures
            r == SignatureAlgorithm::HS256,
    {
        SignatureAlgorithm::HS256
    }
}

} // verus!
