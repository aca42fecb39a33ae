//! Text framing shared by the encoders of this crate: quoting of string
//! values inside a double-quoted field, and its inverse.
use vstd::prelude::*;

verus! {

/// The lower-case hexadecimal digits, by value.
pub open spec fn hex_table() -> Seq<char> {
    "0123456789abcdef"@
}

/// Characters below the space, which JSON strings cannot hold as they are.
pub open spec fn is_control(c: char) -> bool {
    (c as u32) < 32
}

/// The value of a lower-case hexadecimal digit.
pub open spec fn hex_value(d: char) -> Option<nat> {
    if 48 <= (d as u32) && (d as u32) <= 57 {
        Some((d as u32 - 48) as nat)
    } else if 97 <= (d as u32) && (d as u32) <= 102 {
        Some((d as u32 - 87) as nat)
    } else {
        None
    }
}

/// The escaped form of one character: a quote or a backslash gets a
/// backslash in front, a control character becomes `\u00` and two hex
/// digits, every other character stands for itself.
pub open spec fn escape_char(c: char) -> Seq<char> {
    if c == '"' || c == '\\' {
        seq!['\\', c]
    } else if is_control(c) {
        seq![
            '\\',
            'u',
            '0',
            '0',
            hex_table()[(c as u32 / 16) as int],
            hex_table()[(c as u32 % 16) as int],
        ]
    } else {
        seq![c]
    }
}

/// The escaped form of a whole string, character by character.
pub open spec fn escaped(s: Seq<char>) -> Seq<char>
    decreases s.len(),
{
    if s.len() == 0 {
        Seq::empty()
    } else {
        escaped(s.drop_last()) + escape_char(s.last())
    }
}

/// Reads an escaped string up to the first unescaped quote. On success gives
/// the unescaped text and the number of characters before that quote.
pub open spec fn unescape_prefix(t: Seq<char>) -> Option<(Seq<char>, nat)>
    decreases t.len(),
{
    if t.len() == 0 {
        None
    } else if t[0] == '"' {
        Some((Seq::empty(), 0))
    } else if t[0] == '\\' {
        if t.len() >= 2 && (t[1] == '"' || t[1] == '\\') {
            match unescape_prefix(t.skip(2)) {
                Some((s, n)) => Some((seq![t[1]] + s, n + 2)),
                None => None,
            }
        } else if t.len() >= 6 && t[1] == 'u' && t[2] == '0' && t[3] == '0' && hex_value(t[4]) is Some
            && hex_value(t[4])->Some_0 < 2 && hex_value(t[5]) is Some {
            let code = hex_value(t[4])->Some_0 * 16 + hex_value(t[5])->Some_0;
            match unescape_prefix(t.skip(6)) {
                Some((s, n)) => Some((seq![(code as u32) as char] + s, n + 6)),
                None => None,
            }
        } else {
            None
        }
    } else if is_control(t[0]) {
        None
    } else {
        match unescape_prefix(t.skip(1)) {
            Some((s, n)) => Some((seq![t[0]] + s, n + 1)),
            None => None,
        }
    }
}

/// Prepends what was already read to the outcome of reading the rest.
pub open spec fn prepend_read(
    done: Seq<char>,
    used: nat,
    rest: Option<(Seq<char>, nat)>,
) -> Option<(Seq<char>, nat)> {
    match rest {
        Some((s, n)) => Some((done + s, n + used)),
        None => None,
    }
}

proof fn lemma_hex_digit(v: nat)
    requires
        v < 16,
    ensures
        hex_table().len() == 16,
        hex_value(hex_table()[v as int]) == Some(v),
{
    reveal_strlit("0123456789abcdef");
}

proof fn lemma_hex_inverse(d: char)
    requires
        hex_value(d) is Some,
    ensures
        hex_value(d)->Some_0 < 16,
        hex_table()[hex_value(d)->Some_0 as int] == d,
{
    reveal_strlit("0123456789abcdef");
}

proof fn lemma_char_code(c: char)
    requires
        is_control(c),
    ensures
        ((c as u32) as char) == c,
{
}

proof fn lemma_control_code(k: nat)
    requires
        k < 32,
    ensures
        (((k as u32) as char) as u32) == k,
{
}

pub proof fn lemma_escaped_concat(a: Seq<char>, b: Seq<char>)
    ensures
        escaped(a + b) == escaped(a) + escaped(b),
    decreases b.len(),
{
    if b.len() == 0 {
        assert(a + b =~= a);
        assert(escaped(b) =~= Seq::<char>::empty());
        assert(escaped(a) + escaped(b) =~= escaped(a));
    } else {
        let ab = a + b;
        assert(ab.drop_last() =~= a + b.drop_last());
        assert(ab.last() == b.last());
        lemma_escaped_concat(a, b.drop_last());
        assert(escaped(a + b) =~= escaped(a) + escaped(b));
    }
}

pub proof fn lemma_escaped_cons(c: char, s: Seq<char>)
    ensures
        escaped(seq![c] + s) == escape_char(c) + escaped(s),
{
    lemma_escaped_concat(seq![c], s);
    assert(seq![c].drop_last() =~= Seq::<char>::empty());
    assert(seq![c].last() == c);
    assert(escaped(Seq::<char>::empty()) =~= Seq::<char>::empty());
    assert(escaped(seq![c]) =~= escaped(Seq::<char>::empty()) + escape_char(c));
}

/// Reading back an escaped string followed by a quote gives the string.
pub proof fn lemma_unescape_escaped(s: Seq<char>, rest: Seq<char>)
    ensures
        unescape_prefix(escaped(s) + seq!['"'] + rest) == Some((s, escaped(s).len())),
    decreases s.len(),
{
    if s.len() == 0 {
        assert(escaped(s) =~= Seq::<char>::empty());
        let t = escaped(s) + seq!['"'] + rest;
        assert(t[0] == '"');
        assert(s =~= Seq::<char>::empty());
    } else {
        let c = s[0];
        let tail = s.skip(1);
        assert(s =~= seq![c] + tail);
        lemma_escaped_cons(c, tail);
        lemma_unescape_escaped(tail, rest);
        let t = escaped(s) + seq!['"'] + rest;
        if c == '"' || c == '\\' {
            assert(t.skip(2) =~= escaped(tail) + seq!['"'] + rest);
            assert(t[0] == '\\');
            assert(t[1] == c);
        } else if is_control(c) {
            let code = c as u32;
            let hi = (code / 16) as nat;
            let lo = (code % 16) as nat;
            lemma_hex_digit(hi);
            lemma_hex_digit(lo);
            assert(hi * 16 + lo == code);
            lemma_char_code(c);
            assert(t.skip(6) =~= escaped(tail) + seq!['"'] + rest);
            assert(t[0] == '\\' && t[1] == 'u' && t[2] == '0' && t[3] == '0');
            assert(t[4] == hex_table()[hi as int]);
            assert(t[5] == hex_table()[lo as int]);
        } else {
            assert(t.skip(1) =~= escaped(tail) + seq!['"'] + rest);
            assert(t[0] == c);
        }
    }
}

/// What was read is exactly the escaped form of the result, and a quote
/// follows it.
pub proof fn lemma_unescape_sound(t: Seq<char>)
    ensures
        match unescape_prefix(t) {
            Some((s, n)) => n < t.len() && t.take(n as int) == escaped(s) && t[n as int] == '"',
            None => true,
        },
    decreases t.len(),
{
    if t.len() == 0 {
    } else if t[0] == '"' {
        assert(t.take(0) =~= Seq::<char>::empty());
        assert(escaped(Seq::<char>::empty()) =~= Seq::<char>::empty());
    } else if t[0] == '\\' {
        if t.len() >= 2 && (t[1] == '"' || t[1] == '\\') {
            lemma_unescape_sound(t.skip(2));
            match unescape_prefix(t.skip(2)) {
                Some((s, n)) => {
                    lemma_escaped_cons(t[1], s);
                    assert(t.take(n + 2int) =~= escape_char(t[1]) + t.skip(2).take(n as int));
                },
                None => {},
            }
        } else if t.len() >= 6 && t[1] == 'u' && t[2] == '0' && t[3] == '0' && hex_value(t[4]) is Some
            && hex_value(t[4])->Some_0 < 2 && hex_value(t[5]) is Some {
            let h = hex_value(t[4])->Some_0;
            let l = hex_value(t[5])->Some_0;
            let code = h * 16 + l;
            lemma_hex_inverse(t[4]);
            lemma_hex_inverse(t[5]);
            lemma_control_code(code);
            let d = (code as u32) as char;
            assert(code / 16 == h && code % 16 == l);
            assert(escape_char(d) =~= t.take(6));
            lemma_unescape_sound(t.skip(6));
            match unescape_prefix(t.skip(6)) {
                Some((s, n)) => {
                    lemma_escaped_cons(d, s);
                    assert(t.take(n + 6int) =~= escape_char(d) + t.skip(6).take(n as int));
                },
                None => {},
            }
        }
    } else if is_control(t[0]) {
    } else {
        lemma_unescape_sound(t.skip(1));
        match unescape_prefix(t.skip(1)) {
            Some((s, n)) => {
                lemma_escaped_cons(t[0], s);
                assert(t.take(n + 1int) =~= escape_char(t[0]) + t.skip(1).take(n as int));
            },
            None => {},
        }
    }
}

/// Appends the escaped form of `s` to `out`.
pub fn push_escaped(out: &mut String, s: &str)
    ensures
        final(out)@ == old(out)@ + escaped(s@),
{
    let n = s.unicode_len();
    let mut i: usize = 0;
    proof {
        assert(s@.take(0) =~= Seq::<char>::empty());
        assert(out@ + escaped(s@.take(0)) =~= out@);
    }
    while i < n
        invariant
            n == s@.len(),
            i <= n,
            out@ == old(out)@ + escaped(s@.take(i as int)),
        decreases n - i,
    {
        let c = s.get_char(i);
        let piece = s.substring_char(i, i + 1);
        proof {
            assert(piece@ =~= seq![c]);
            assert(s@.take(i + 1).drop_last() =~= s@.take(i as int));
            assert(s@.take(i + 1).last() == c);
        }
        if c == '"' || c == '\\' {
            out.append("\\");
            proof {
                reveal_strlit("\\");
            }
            out.append(piece);
        } else if (c as u32) < 32 {
            let code = c as u32;
            let hex = "0123456789abcdef";
            proof {
                reveal_strlit("0123456789abcdef");
                reveal_strlit("\\u00");
            }
            out.append("\\u00");
            let hi = (code / 16) as usize;
            let lo = (code % 16) as usize;
            out.append(hex.substring_char(hi, hi + 1));
            out.append(hex.substring_char(lo, lo + 1));
        } else {
            out.append(piece);
        }
        proof {
            assert(out@ =~= old(out)@ + escaped(s@.take(i + 1)));
        }
        i = i + 1;
    }
    proof {
        assert(s@.take(n as int) =~= s@);
    }
}

/// Relies on `String::push`: appends one character.
#[verifier::external_body]
fn push_char(s: &mut String, c: char)
    ensures
        final(s)@ == old(s)@.push(c),
{
    s.push(c)
}

fn hex_digit_value(d: char) -> (r: Option<u32>)
    ensures
        match r {
            Some(v) => hex_value(d) == Some(v as nat),
            None => hex_value(d) is None,
        },
{
    let x = d as u32;
    if 48 <= x && x <= 57 {
        Some(x - 48)
    } else if 97 <= x && x <= 102 {
        Some(x - 87)
    } else {
        None
    }
}

/// Reads an escaped string of `t` from `start` up to its closing quote:
/// gives the unescaped text and the position of that quote.
pub fn read_escaped(t: &str, start: usize) -> (r: Option<(String, usize)>)
    requires
        start <= t@.len(),
    ensures
        match r {
            Some((s, e)) => start <= e < t@.len() && unescape_prefix(t@.skip(start as int)) == Some(
                (s@, (e - start) as nat),
            ),
            None => unescape_prefix(t@.skip(start as int)) is None,
        },
{
    let n = t.unicode_len();
    let mut i: usize = start;
    let mut out = String::new();
    proof {
        assert(out@ + Seq::<char>::empty() =~= Seq::<char>::empty());
    }
    loop
        invariant
            n == t@.len(),
            start <= i <= n,
            unescape_prefix(t@.skip(start as int)) == prepend_read(
                out@,
                (i - start) as nat,
                unescape_prefix(t@.skip(i as int)),
            ),
        decreases n - i,
    {
        if i >= n {
            return None;
        }
        let c = t.get_char(i);
        if c == '"' {
            proof {
                assert(out@ + Seq::<char>::empty() =~= out@);
            }
            return Some((out, i));
        }
        if c == '\\' {
            if i + 1 >= n {
                return None;
            }
            let d = t.get_char(i + 1);
            if d == '"' || d == '\\' {
                let piece = t.substring_char(i + 1, i + 2);
                proof {
                    assert(piece@ =~= seq![d]);
                    assert(t@.skip(i as int).skip(2) =~= t@.skip(i + 2));
                    let rest = unescape_prefix(t@.skip(i + 2));
                    match rest {
                        Some((s, m)) => {
                            assert(out@ + (seq![d] + s) =~= (out@ + seq![d]) + s);
                        },
                        None => {},
                    }
                }
                out.append(piece);
                i = i + 2;
            } else {
                if d != 'u' || n - i <= 5 {
                    return None;
                }
                if t.get_char(i + 2) != '0' || t.get_char(i + 3) != '0' {
                    return None;
                }
                let h = match hex_digit_value(t.get_char(i + 4)) {
                    Some(h) => h,
                    None => {
                        return None;
                    },
                };
                let l = match hex_digit_value(t.get_char(i + 5)) {
                    Some(l) => l,
                    None => {
                        return None;
                    },
                };
                if h >= 2 {
                    return None;
                }
                let code = (h * 16 + l) as u8;
                let cc = code as char;
                let ghost before = out@;
                push_char(&mut out, cc);
                proof {
                    assert(cc == ((h * 16 + l) as u32) as char);
                    assert(t@.skip(i as int).skip(6) =~= t@.skip(i + 6));
                    let rest = unescape_prefix(t@.skip(i + 6));
                    match rest {
                        Some((s, m)) => {
                            assert(before + (seq![cc] + s) =~= (before + seq![cc]) + s);
                        },
                        None => {},
                    }
                }
                i = i + 6;
            }
        } else if (c as u32) < 32 {
            return None;
        } else {
            let piece = t.substring_char(i, i + 1);
            proof {
                assert(piece@ =~= seq![c]);
                assert(t@.skip(i as int).skip(1) =~= t@.skip(i + 1));
                let rest = unescape_prefix(t@.skip(i + 1));
                match rest {
                    Some((s, m)) => {
                        assert(out@ + (seq![c] + s) =~= (out@ + seq![c]) + s);
                    },
                    None => {},
                }
            }
            out.append(piece);
            i = i + 1;
        }
    }
}

/// Whether `lit` stands in `t` at position `i`.
pub fn has_literal_at(t: &str, i: usize, lit: &str) -> (r: bool)
    ensures
        r == (i + lit@.len() <= t@.len() && t@.subrange(i as int, i + lit@.len()) == lit@),
{
    let n = t.unicode_len();
    let k = lit.unicode_len();
    if i > n || k > n - i {
        return false;
    }
    let mut j: usize = 0;
    while j < k
        invariant
            n == t@.len(),
            k == lit@.len(),
            i + k <= n,
            j <= k,
            forall|q: int| 0 <= q < j ==> t@[i + q] == lit@[q],
        decreases k - j,
    {
        if t.get_char(i + j) != lit.get_char(j) {
            proof {
                assert(t@.subrange(i as int, i + k)[j as int] != lit@[j as int]);
            }
            return false;
        }
        j = j + 1;
    }
    proof {
        assert(t@.subrange(i as int, i + k) =~= lit@);
    }
    true
}

/// Whether two texts are equal.
pub fn same_text(a: &str, b: &str) -> (r: bool)
    ensures
        r == (a@ == b@),
{
    let x = String::from_str(a);
    let y = String::from_str(b);
    x.eq(&y)
}

/// A string value written as a JSON string: escaped, between quotes.
pub open spec fn quoted(s: Seq<char>) -> Seq<char> {
    seq!['"'] + escaped(s) + seq!['"']
}

pub open spec fn digit_chars() -> Seq<char> {
    "0123456789"@
}

/// The decimal digits of a natural number.
pub open spec fn decimal(n: nat) -> Seq<char>
    decreases n,
{
    if n < 10 {
        seq![digit_chars()[n as int]]
    } else {
        decimal(n / 10) + seq![digit_chars()[(n % 10) as int]]
    }
}

/// An integer in decimal, with a minus sign where it is negative.
pub open spec fn signed_decimal(v: int) -> Seq<char> {
    if v < 0 {
        seq!['-'] + decimal((-v) as nat)
    } else {
        decimal(v as nat)
    }
}

/// Appends `s` as a JSON string.
pub fn push_quoted(out: &mut String, s: &str)
    ensures
        final(out)@ == old(out)@ + quoted(s@),
{
    proof {
        reveal_strlit("\"");
    }
    out.append("\"");
    push_escaped(out, s);
    out.append("\"");
    proof {
        assert(final(out)@ =~= old(out)@ + quoted(s@));
    }
}

/// Appends the decimal digits of `n`.
pub fn push_decimal(out: &mut String, n: u64)
    ensures
        final(out)@ == old(out)@ + decimal(n as nat),
    decreases n,
{
    let digits = "0123456789";
    proof {
        reveal_strlit("0123456789");
    }
    if n >= 10 {
        push_decimal(out, n / 10);
    }
    let d = (n % 10) as usize;
    let piece = digits.substring_char(d, d + 1);
    proof {
        assert(piece@ =~= seq![digit_chars()[d as int]]);
    }
    out.append(piece);
    proof {
        assert(final(out)@ =~= old(out)@ + decimal(n as nat));
    }
}

/// Appends `v` in decimal, with a minus sign where it is negative.
pub fn push_signed(out: &mut String, v: i64)
    ensures
        final(out)@ == old(out)@ + signed_decimal(v as int),
{
    if v < 0 {
        out.append("-");
        proof {
            reveal_strlit("-");
        }
        let m: u64 = ((-(v + 1)) as u64) + 1;
        push_decimal(out, m);
        proof {
            assert(final(out)@ =~= old(out)@ + signed_decimal(v as int));
        }
    } else {
        push_decimal(out, v as u64);
    }
}

} // verus!
