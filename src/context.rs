//! The connection context (scheme and host of one request) and its encoding
//! as the private payload of a grant extension.
use crate::text::{
    escaped, has_literal_at, lemma_unescape_escaped, push_escaped, read_escaped,
    unescape_prefix,
};
use vstd::prelude::*;

verus! {

/// Scheme and host under which a request reached the server.
#[derive(Clone, Debug, PartialEq, Eq)]
pub struct ConnectionInformationData {
    pub scheme: String,
    pub host: String,
}

/// The connection context attached to a grant while it is processed.
#[derive(Clone, Debug)]
pub struct ConnectionInformation(pub ConnectionInformationData);

pub open spec fn extension_id() -> Seq<char> {
    "garage_door::connection_information"@
}

pub open spec fn encoded_prefix() -> Seq<char> {
    "{\"scheme\":\""@
}

pub open spec fn encoded_middle() -> Seq<char> {
    "\",\"host\":\""@
}

pub open spec fn encoded_suffix() -> Seq<char> {
    "\"}"@
}

/// The encoded form of a context: a JSON object with two string fields.
pub open spec fn encoded(scheme: Seq<char>, host: Seq<char>) -> Seq<char> {
    encoded_prefix() + escaped(scheme) + encoded_middle() + escaped(host) + encoded_suffix()
}

/// What an encoded text reads back to, if it is one.
pub open spec fn decoded(t: Seq<char>) -> Option<(Seq<char>, Seq<char>)> {
    let p = encoded_prefix();
    let m = encoded_middle();
    let x = encoded_suffix();
    if t.len() >= p.len() && t.take(p.len() as int) == p {
        match unescape_prefix(t.skip(p.len() as int)) {
            Some((a, k)) => {
                let p1: int = p.len() + k as int;
                if t.len() >= p1 + m.len() && t.subrange(p1, p1 + m.len()) == m {
                    let p2: int = p1 + m.len();
                    match unescape_prefix(t.skip(p2)) {
                        Some((b, k2)) => {
                            if t.skip(p2 + k2) == x {
                                Some((a, b))
                            } else {
                                None
                            }
                        },
                        None => None,
                    }
                } else {
                    None
                }
            },
            None => None,
        }
    } else {
        None
    }
}

/// Decoding an encoded context gives back its scheme and host.
pub proof fn lemma_round_trip(scheme: Seq<char>, host: Seq<char>)
    ensures
        decoded(encoded(scheme, host)) == Some((scheme, host)),
{
    reveal_strlit("{\"scheme\":\"");
    reveal_strlit("\",\"host\":\"");
    reveal_strlit("\"}");
    let p = encoded_prefix();
    let m = encoded_middle();
    let x = encoded_suffix();
    let t = encoded(scheme, host);
    let ea = escaped(scheme);
    let eb = escaped(host);
    assert(t.take(p.len() as int) =~= p);
    assert(t.skip(p.len() as int) =~= ea + seq!['"'] + (m.skip(1) + eb + x));
    lemma_unescape_escaped(scheme, m.skip(1) + eb + x);
    let p1: int = p.len() + ea.len() as int;
    assert(t.subrange(p1, p1 + m.len()) =~= m);
    let p2: int = p1 + m.len();
    assert(t.skip(p2) =~= eb + seq!['"'] + x.skip(1));
    lemma_unescape_escaped(host, x.skip(1));
    assert(t.skip(p2 + eb.len()) =~= x);
}

impl ConnectionInformationData {
    pub open spec fn encoded_view(&self) -> Seq<char> {
        encoded(self.scheme@, self.host@)
    }

    /// Encodes the context.
    pub fn encode(&self) -> (r: String)
        ensures
            r@ == self.encoded_view(),
    {
        let mut out = String::from_str("{\"scheme\":\"");
        push_escaped(&mut out, self.scheme.as_str());
        out.append("\",\"host\":\"");
        push_escaped(&mut out, self.host.as_str());
        out.append("\"}");
        out
    }
}

impl ConnectionInformation {
    /// The identifier of the grant extension that carries the context.
    pub fn id() -> (r: &'static str)
        ensures
            r@ == extension_id(),
    {
        "garage_door::connection_information"
    }

    /// The private payload that carries this context on a grant.
    pub fn encode(&self) -> (r: String)
        ensures
            r@ == self.0.encoded_view(),
    {
        self.0.encode()
    }

    /// Reads a payload back; `None` where it is no encoded context.
    pub fn decode(s: &str) -> (r: Option<ConnectionInformationData>)
        ensures
            match r {
                Some(d) => decoded(s@) == Some((d.scheme@, d.host@)),
                None => decoded(s@) is None,
            },
    {
        let n = s.unicode_len();
        let pre = "{\"scheme\":\"";
        if !has_literal_at(s, 0, pre) {
            return None;
        }
        let p0 = pre.unicode_len();
        proof {
            assert(s@.subrange(0, p0 as int) =~= s@.take(p0 as int));
            assert(s@.take(p0 as int) == encoded_prefix());
        }
        match read_escaped(s, p0) {
            None => None,
            Some((scheme, p1)) => {
                let mid = "\",\"host\":\"";
                if !has_literal_at(s, p1, mid) {
                    return None;
                }
                let p2 = p1 + mid.unicode_len();
                match read_escaped(s, p2) {
                    None => None,
                    Some((host, p3)) => {
                        let suf = "\"}";
                        let k = suf.unicode_len();
                        let fits = has_literal_at(s, p3, suf);
                        proof {
                            if fits && p3 + k == n {
                                assert(s@.skip(p3 as int) =~= s@.subrange(p3 as int, p3 + k));
                            }
                            crate::text::lemma_unescape_sound(s@.skip(p2 as int));
                            if s@.skip(p3 as int) == suf@ {
                                assert(s@.skip(p3 as int).len() == k);
                                assert(s@.skip(p3 as int) =~= s@.subrange(p3 as int, p3 + k));
                            }
                        }
                        if fits && p3 + k == n {
                            Some(ConnectionInformationData { scheme, host })
                        } else {
                            None
                        }
                    },
                }
            },
        }
    }
}

} // verus!
