//! JSON string literals: a reversible text-safe transform. Quotes and
//! backslashes are escaped, control characters are written as `\u00..`
//! sequences, and everything else stands as itself.

use vstd::prelude::*;
use vstd::string::*;
use crate::numfmt::{hex_char, hex_val, is_hex, hex_char_x, hex_val_x, is_hex_x};

verus! {

/// How one character is written inside a JSON string literal.
pub open spec fn esc_char(c: char) -> Seq<char> {
    if c == '"' {
        seq!['\\', '"']
    } else if c == '\\' {
        seq!['\\', '\\']
    } else if (c as u32) < 32 {
        seq![
            '\\',
            'u',
            '0',
            '0',
            hex_char(((c as u32) / 16) as nat),
            hex_char(((c as u32) % 16) as nat),
        ]
    } else {
        seq![c]
    }
}

/// The escaped body of a JSON string literal.
pub open spec fn esc(s: Seq<char>) -> Seq<char>
    decreases s.len(),
{
    if s.len() == 0 {
        Seq::empty()
    } else {
        esc_char(s[0]) + esc(s.drop_first())
    }
}

/// A whole JSON string literal, quotes included.
pub open spec fn jstr(s: Seq<char>) -> Seq<char> {
    seq!['"'] + esc(s) + seq!['"']
}

/// Reads an escaped string body up to its closing quote, returning the
/// unescaped text and what follows the quote.
pub open spec fn parse_strbody(s: Seq<char>) -> Option<(Seq<char>, Seq<char>)>
    decreases s.len(),
{
    if s.len() == 0 {
        None
    } else if s[0] == '"' {
        Some((Seq::empty(), s.drop_first()))
    } else if s[0] == '\\' {
        if s.len() >= 2 && s[1] == '"' {
            match parse_strbody(s.skip(2)) {
                Some((v, r)) => Some((seq!['"'] + v, r)),
                None => None,
            }
        } else if s.len() >= 2 && s[1] == '\\' {
            match parse_strbody(s.skip(2)) {
                Some((v, r)) => Some((seq!['\\'] + v, r)),
                None => None,
            }
        } else if s.len() >= 6 && s[1] == 'u' && s[2] == '0' && s[3] == '0' && is_hex(s[4])
            && is_hex(s[5]) && hex_val(s[4]) * 16 + hex_val(s[5]) < 32 {
            match parse_strbody(s.skip(6)) {
                Some((v, r)) => Some(
                    (seq![((hex_val(s[4]) * 16 + hex_val(s[5])) as u8) as char] + v, r),
                ),
                None => None,
            }
        } else {
            None
        }
    } else if (s[0] as u32) < 32 {
        None
    } else {
        match parse_strbody(s.drop_first()) {
            Some((v, r)) => Some((seq![s[0]] + v, r)),
            None => None,
        }
    }
}

/// Reads a whole JSON string literal, opening quote included.
pub open spec fn parse_jstr(s: Seq<char>) -> Option<(Seq<char>, Seq<char>)> {
    if s.len() > 0 && s[0] == '"' {
        parse_strbody(s.drop_first())
    } else {
        None
    }
}

/// Reads an expected literal text, returning what follows it.
pub open spec fn parse_lit(s: Seq<char>, lit: Seq<char>) -> Option<Seq<char>> {
    if s.len() >= lit.len() && s.take(lit.len() as int) == lit {
        Some(s.skip(lit.len() as int))
    } else {
        None
    }
}

pub proof fn lemma_parse_lit_roundtrip(lit: Seq<char>, rest: Seq<char>)
    ensures
        parse_lit(lit + rest, lit) == Some(rest),
{
    let s = lit + rest;
    assert(s.take(lit.len() as int) =~= lit);
    assert(s.skip(lit.len() as int) =~= rest);
}

/// Reads an expected literal starting at `i`.
pub fn parse_lit_at(s: &Vec<char>, i: usize, lit: &str) -> (r: Option<usize>)
    requires
        i <= s@.len(),
    ensures
        match r {
            Some(j) => i <= j <= s@.len() && j == i + lit@.len() && parse_lit(
                s@.skip(i as int),
                lit@,
            ) == Some(s@.skip(j as int)),
            None => parse_lit(s@.skip(i as int), lit@) is None,
        },
{
    let n = lit.unicode_len();
    if s.len() - i < n {
        assert(s@.skip(i as int).len() < lit@.len());
        return None;
    }
    let ghost t = s@.skip(i as int).take(n as int);
    let jend: usize = i + n;
    let mut k: usize = 0;
    while k < n
        invariant
            0 <= k <= n,
            n == lit@.len(),
            jend == i + n,
            i + n <= s@.len(),
            t == s@.skip(i as int).take(n as int),
            forall|m: int| 0 <= m < k ==> t[m] == lit@[m],
        decreases n - k,
    {
        let c = s[i + k];
        assert(t[k as int] == c);
        let lc = lit.get_char(k);
        if c != lc {
            assert(t != lit@);
            return None;
        }
        k = k + 1;
    }
    proof {
        assert(t =~= lit@);
        assert(s@.skip(i as int).skip(n as int) =~= s@.skip(i + n));
    }
    Some(i + n)
}

pub proof fn lemma_esc_append(a: Seq<char>, b: Seq<char>)
    ensures
        esc(a + b) == esc(a) + esc(b),
    decreases a.len(),
{
    if a.len() == 0 {
        assert(a + b =~= b);
        assert(esc(a) + esc(b) =~= esc(b));
    } else {
        assert((a + b)[0] == a[0]);
        assert((a + b).drop_first() =~= a.drop_first() + b);
        lemma_esc_append(a.drop_first(), b);
        assert(esc_char(a[0]) + (esc(a.drop_first()) + esc(b)) =~= (esc_char(a[0]) + esc(
            a.drop_first(),
        )) + esc(b));
    }
}

pub proof fn lemma_strbody_roundtrip(v: Seq<char>, rest: Seq<char>)
    ensures
        parse_strbody(esc(v) + seq!['"'] + rest) == Some((v, rest)),
    decreases v.len(),
{
    let s = esc(v) + seq!['"'] + rest;
    if v.len() == 0 {
        assert(s =~= seq!['"'] + rest);
        assert(s[0] == '"');
        assert(s.drop_first() =~= rest);
        assert(parse_strbody(s) == Some((Seq::<char>::empty(), rest)));
    } else {
        let c = v[0];
        let tail = esc(v.drop_first()) + seq!['"'] + rest;
        assert(esc(v) =~= esc_char(c) + esc(v.drop_first()));
        assert(s =~= esc_char(c) + tail);
        lemma_strbody_roundtrip(v.drop_first(), rest);
        if c == '"' {
            assert(s[0] == '\\' && s[1] == '"');
            assert(s.len() >= 2);
            assert(s.skip(2) =~= tail);
            assert(seq!['"'] + v.drop_first() =~= v);
        } else if c == '\\' {
            assert(s[0] == '\\' && s[1] == '\\');
            assert(s.skip(2) =~= tail);
            assert(seq!['\\'] + v.drop_first() =~= v);
        } else if (c as u32) < 32 {
            let code = c as u32;
            assert(s[0] == '\\' && s[1] == 'u' && s[2] == '0' && s[3] == '0');
            assert(s[4] == hex_char((code / 16) as nat));
            assert(s[5] == hex_char((code % 16) as nat));
            assert(code / 16 < 16 && code % 16 < 16);
            assert(is_hex(s[4]) && is_hex(s[5]));
            assert(hex_val(s[4]) == code / 16 && hex_val(s[5]) == code % 16);
            assert(hex_val(s[4]) * 16 + hex_val(s[5]) == code) by {
                vstd::arithmetic::div_mod::lemma_fundamental_div_mod(code as int, 16);
            }
            assert(s.len() >= 6);
            assert(s.skip(6) =~= tail);
            assert(((code as u8) as char) == c) by {
                assert(code < 32 ==> (code as u8) as u32 == code) by (bit_vector);
                vstd::utf8::char_u32_cast(c, code);
            }
            assert(seq![c] + v.drop_first() =~= v);
        } else {
            assert(s[0] == c);
            assert(s[0] != '"' && s[0] != '\\');
            assert(s.drop_first() =~= tail);
            assert(seq![c] + v.drop_first() =~= v);
        }
    }
}

pub proof fn lemma_jstr_roundtrip(v: Seq<char>, rest: Seq<char>)
    ensures
        parse_jstr(jstr(v) + rest) == Some((v, rest)),
{
    let s = jstr(v) + rest;
    assert(s[0] == '"');
    assert(s.drop_first() =~= esc(v) + seq!['"'] + rest);
    lemma_strbody_roundtrip(v, rest);
}

/// Appends the JSON string literal for `s`, quotes included.
pub fn push_jstr(out: &mut String, s: &str)
    ensures
        final(out)@ == old(out)@ + jstr(s@),
{
    out.push('"');
    let n = s.unicode_len();
    let mut i: usize = 0;
    while i < n
        invariant
            0 <= i <= n,
            n == s@.len(),
            out@ == old(out)@ + seq!['"'] + esc(s@.take(i as int)),
        decreases n - i,
    {
        let c = s.get_char(i);
        if c == '"' {
            out.push('\\');
            out.push('"');
        } else if c == '\\' {
            out.push('\\');
            out.push('\\');
        } else if (c as u32) < 32 {
            let code = c as u32;
            out.push('\\');
            out.push('u');
            out.push('0');
            out.push('0');
            out.push(hex_char_x((code / 16) as u64));
            out.push(hex_char_x((code % 16) as u64));
        } else {
            out.push(c);
        }
        proof {
            let ci = s@[i as int];
            assert(s@.take(i as int + 1) =~= s@.take(i as int) + seq![ci]);
            lemma_esc_append(s@.take(i as int), seq![ci]);
            assert(seq![ci].drop_first() =~= Seq::<char>::empty());
            assert(esc(Seq::<char>::empty()) =~= Seq::<char>::empty());
            assert(seq![ci][0] == ci);
            assert(esc(seq![ci]) =~= esc_char(ci));
            assert(out@ =~= old(out)@ + seq!['"'] + esc(s@.take(i as int + 1)));
        }
        i = i + 1;
    }
    out.push('"');
    proof {
        assert(s@.take(n as int) =~= s@);
        assert(out@ =~= old(out)@ + jstr(s@));
    }
}

/// Reads a JSON string literal starting at `i`, returning the unescaped
/// text and the position after the closing quote.
pub fn parse_jstr_at(s: &Vec<char>, i: usize) -> (r: Option<(String, usize)>)
    requires
        i <= s@.len(),
    ensures
        match r {
            Some(p) => i < p.1 <= s@.len() && parse_jstr(s@.skip(i as int)) == Some(
                (p.0@, s@.skip(p.1 as int)),
            ),
            None => parse_jstr(s@.skip(i as int)) is None,
        },
{
    if i >= s.len() || s[i] != '"' {
        proof {
            if i < s.len() {
                assert(s@.skip(i as int)[0] == s@[i as int]);
            }
        }
        return None;
    }
    proof {
        assert(s@.skip(i as int)[0] == s@[i as int]);
        assert(s@.skip(i as int).drop_first() =~= s@.skip(i as int + 1));
    }
    let mut acc = String::new();
    let mut p: usize = i + 1;
    loop
        invariant
            i + 1 <= p <= s@.len(),
            parse_jstr(s@.skip(i as int)) == parse_strbody(s@.skip(i as int + 1)),
            parse_strbody(s@.skip(i as int + 1)) == match parse_strbody(s@.skip(p as int)) {
                Some(q) => Some((acc@ + q.0, q.1)),
                None => None,
            },
        decreases s@.len() - p,
    {
        if p >= s.len() {
            assert(s@.skip(p as int).len() == 0);
            return None;
        }
        let c = s[p];
        assert(s@.skip(p as int)[0] == c);
        if c == '"' {
            proof {
                assert(s@.skip(p as int).drop_first() =~= s@.skip(p as int + 1));
                assert(acc@ + Seq::<char>::empty() =~= acc@);
            }
            return Some((acc, p + 1));
        } else if c == '\\' {
            if s.len() - p < 2 {
                assert(s@.skip(p as int).len() < 2);
                return None;
            }
            let c2 = s[p + 1];
            assert(s@.skip(p as int)[1] == c2);
            if c2 == '"' || c2 == '\\' {
                proof {
                    assert(s@.skip(p as int).skip(2) =~= s@.skip(p as int + 2));
                }
                acc.push(c2);
                let ghost prev = acc@.drop_last();
                proof {
                    match parse_strbody(s@.skip(p as int + 2)) {
                        Some(q) => {
                            assert(prev + (seq![c2] + q.0) =~= acc@ + q.0);
                        },
                        None => {},
                    }
                }
                p = p + 2;
            } else if c2 == 'u' {
                if s.len() - p < 6 {
                    assert(s@.skip(p as int).len() < 6);
                    return None;
                }
                let c3 = s[p + 2];
                let c4 = s[p + 3];
                let c5 = s[p + 4];
                let c6 = s[p + 5];
                assert(s@.skip(p as int)[2] == c3);
                assert(s@.skip(p as int)[3] == c4);
                assert(s@.skip(p as int)[4] == c5);
                assert(s@.skip(p as int)[5] == c6);
                if c3 != '0' || c4 != '0' || !is_hex_x(c5) || !is_hex_x(c6) {
                    return None;
                }
                let code: u64 = hex_val_x(c5) * 16 + hex_val_x(c6);
                if code >= 32 {
                    return None;
                }
                let u = (code as u8) as char;
                proof {
                    assert(s@.skip(p as int).skip(6) =~= s@.skip(p as int + 6));
                }
                acc.push(u);
                let ghost prev = acc@.drop_last();
                proof {
                    match parse_strbody(s@.skip(p as int + 6)) {
                        Some(q) => {
                            assert(prev + (seq![u] + q.0) =~= acc@ + q.0);
                        },
                        None => {},
                    }
                }
                p = p + 6;
            } else {
                return None;
            }
        } else if (c as u32) < 32 {
            return None;
        } else {
            proof {
                assert(s@.skip(p as int).drop_first() =~= s@.skip(p as int + 1));
            }
            acc.push(c);
            let ghost prev = acc@.drop_last();
            proof {
                match parse_strbody(s@.skip(p as int + 1)) {
                    Some(q) => {
                        assert(prev + (seq![c] + q.0) =~= acc@ + q.0);
                    },
                    None => {},
                }
            }
            p = p + 1;
        }
    }
}

} // verus!
