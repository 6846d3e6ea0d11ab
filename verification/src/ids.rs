//! Session identifiers: 128-bit values written and read in the
//! hyphenated 32-digit lowercase hexadecimal form.

use vstd::prelude::*;
use crate::numfmt::{
    hex_of_w, parse_hex_w, pow16, lemma_parse_hex_w_roundtrip, push_hex_w, parse_hex_w_at,
};
use crate::text::str_chars;

verus! {

pub open spec fn seg_a(id: u128) -> nat {
    (id as nat) / 0x1000000000000000000000000
}

pub open spec fn rem_a(id: u128) -> nat {
    (id as nat) % 0x1000000000000000000000000
}

pub open spec fn seg_b(id: u128) -> nat {
    rem_a(id) / 0x100000000000000000000
}

pub open spec fn rem_b(id: u128) -> nat {
    rem_a(id) % 0x100000000000000000000
}

pub open spec fn seg_c(id: u128) -> nat {
    rem_b(id) / 0x10000000000000000
}

pub open spec fn rem_c(id: u128) -> nat {
    rem_b(id) % 0x10000000000000000
}

pub open spec fn seg_d(id: u128) -> nat {
    rem_c(id) / 0x1000000000000
}

pub open spec fn seg_e(id: u128) -> nat {
    rem_c(id) % 0x1000000000000
}

/// The canonical text of a session id: five hyphen-separated groups of
/// 8, 4, 4, 4 and 12 lowercase hex digits.
pub open spec fn uuid_chars(id: u128) -> Seq<char> {
    hex_of_w(seg_a(id), 8) + seq!['-'] + hex_of_w(seg_b(id), 4) + seq!['-'] + hex_of_w(
        seg_c(id),
        4,
    ) + seq!['-'] + hex_of_w(seg_d(id), 4) + seq!['-'] + hex_of_w(seg_e(id), 12)
}

/// Reads a session id in canonical text form, returning the rest.
pub open spec fn parse_uuid_chars(s: Seq<char>) -> Option<(u128, Seq<char>)> {
    match parse_hex_w(s, 8) {
        None => None,
        Some((a, s1)) => if s1.len() > 0 && s1[0] == '-' {
            match parse_hex_w(s1.drop_first(), 4) {
                None => None,
                Some((b, s2)) => if s2.len() > 0 && s2[0] == '-' {
                    match parse_hex_w(s2.drop_first(), 4) {
                        None => None,
                        Some((c, s3)) => if s3.len() > 0 && s3[0] == '-' {
                            match parse_hex_w(s3.drop_first(), 4) {
                                None => None,
                                Some((d, s4)) => if s4.len() > 0 && s4[0] == '-' {
                                    match parse_hex_w(s4.drop_first(), 12) {
                                        None => None,
                                        Some((e, s5)) => Some(
                                            (
                                                (a * 0x1000000000000000000000000 + b
                                                    * 0x100000000000000000000 + c
                                                    * 0x10000000000000000 + d * 0x1000000000000
                                                    + e) as u128,
                                                s5,
                                            ),
                                        ),
                                    }
                                } else {
                                    None
                                },
                            }
                        } else {
                            None
                        },
                    }
                } else {
                    None
                },
            }
        } else {
            None
        },
    }
}

/// A whole string that is exactly a session id in canonical form.
pub open spec fn uuid_of_chars(s: Seq<char>) -> Option<u128> {
    match parse_uuid_chars(s) {
        Some((v, rest)) => if rest.len() == 0 {
            Some(v)
        } else {
            None
        },
        None => None,
    }
}

pub proof fn lemma_uuid_seg_bounds(id: u128)
    ensures
        seg_a(id) < pow16(8),
        seg_b(id) < pow16(4),
        seg_c(id) < pow16(4),
        seg_d(id) < pow16(4),
        seg_e(id) < pow16(12),
        seg_a(id) * 0x1000000000000000000000000 + seg_b(id) * 0x100000000000000000000 + seg_c(id)
            * 0x10000000000000000 + seg_d(id) * 0x1000000000000 + seg_e(id) == id as nat,
{
    reveal_with_fuel(pow16, 13);
    let n = id as nat;
    vstd::arithmetic::div_mod::lemma_fundamental_div_mod(n as int, 0x1000000000000000000000000);
    vstd::arithmetic::div_mod::lemma_mod_bound(n as int, 0x1000000000000000000000000);
    assert(seg_a(id) < 0x100000000) by {
        vstd::arithmetic::div_mod::lemma_div_is_ordered(
            n as int,
            0xffffffffffffffffffffffffffffffff,
            0x1000000000000000000000000,
        );
    }
    vstd::arithmetic::div_mod::lemma_fundamental_div_mod(
        rem_a(id) as int,
        0x100000000000000000000,
    );
    vstd::arithmetic::div_mod::lemma_mod_bound(rem_a(id) as int, 0x100000000000000000000);
    assert(seg_b(id) < 0x10000) by {
        vstd::arithmetic::div_mod::lemma_div_is_ordered(
            rem_a(id) as int,
            0xffffffffffffffffffffffff,
            0x100000000000000000000,
        );
    }
    vstd::arithmetic::div_mod::lemma_fundamental_div_mod(rem_b(id) as int, 0x10000000000000000);
    vstd::arithmetic::div_mod::lemma_mod_bound(rem_b(id) as int, 0x10000000000000000);
    assert(seg_c(id) < 0x10000) by {
        vstd::arithmetic::div_mod::lemma_div_is_ordered(
            rem_b(id) as int,
            0xffffffffffffffffffff,
            0x10000000000000000,
        );
    }
    vstd::arithmetic::div_mod::lemma_fundamental_div_mod(rem_c(id) as int, 0x1000000000000);
    vstd::arithmetic::div_mod::lemma_mod_bound(rem_c(id) as int, 0x1000000000000);
    assert(seg_d(id) < 0x10000) by {
        vstd::arithmetic::div_mod::lemma_div_is_ordered(
            rem_c(id) as int,
            0xffffffffffffffff,
            0x1000000000000,
        );
    }
}

/// Parsing the canonical text of an id, with anything after it, gives
/// back the id and the rest.
#[verifier::rlimit(100)]
pub proof fn lemma_uuid_roundtrip(id: u128, rest: Seq<char>)
    ensures
        parse_uuid_chars(uuid_chars(id) + rest) == Some((id, rest)),
{
    lemma_uuid_seg_bounds(id);
    let ta = hex_of_w(seg_a(id), 8);
    let tb = hex_of_w(seg_b(id), 4);
    let tc = hex_of_w(seg_c(id), 4);
    let td = hex_of_w(seg_d(id), 4);
    let te = hex_of_w(seg_e(id), 12);
    let h = seq!['-'];
    let r1 = h + tb + h + tc + h + td + h + te + rest;
    assert(uuid_chars(id) + rest =~= ta + r1);
    lemma_parse_hex_w_roundtrip(seg_a(id), 8, r1);
    assert(r1[0] == '-');
    let r2 = h + tc + h + td + h + te + rest;
    assert(r1.drop_first() =~= tb + r2);
    lemma_parse_hex_w_roundtrip(seg_b(id), 4, r2);
    assert(r2[0] == '-');
    let r3 = h + td + h + te + rest;
    assert(r2.drop_first() =~= tc + r3);
    lemma_parse_hex_w_roundtrip(seg_c(id), 4, r3);
    assert(r3[0] == '-');
    let r4 = h + te + rest;
    assert(r3.drop_first() =~= td + r4);
    lemma_parse_hex_w_roundtrip(seg_d(id), 4, r4);
    assert(r4[0] == '-');
    assert(r4.drop_first() =~= te + rest);
    lemma_parse_hex_w_roundtrip(seg_e(id), 12, rest);
}

/// The canonical text form of an id is read back as that id.
pub proof fn lemma_uuid_string_roundtrip(id: u128)
    ensures
        uuid_of_chars(uuid_chars(id)) == Some(id),
{
    lemma_uuid_roundtrip(id, Seq::empty());
    assert(uuid_chars(id) + Seq::<char>::empty() =~= uuid_chars(id));
}

/// Appends the canonical text of `id`.
pub fn push_uuid(out: &mut String, id: u128)
    ensures
        final(out)@ == old(out)@ + uuid_chars(id),
{
    let a: u128 = id / 0x1000000000000000000000000;
    let ra: u128 = id % 0x1000000000000000000000000;
    let b: u128 = ra / 0x100000000000000000000;
    let rb: u128 = ra % 0x100000000000000000000;
    let c: u128 = rb / 0x10000000000000000;
    let rc: u128 = rb % 0x10000000000000000;
    let d: u128 = rc / 0x1000000000000;
    let e: u128 = rc % 0x1000000000000;
    assert(a as nat == seg_a(id) && b as nat == seg_b(id) && c as nat == seg_c(id) && d as nat
        == seg_d(id) && e as nat == seg_e(id));
    push_hex_w(out, a, 8);
    out.push('-');
    push_hex_w(out, b, 4);
    out.push('-');
    push_hex_w(out, c, 4);
    out.push('-');
    push_hex_w(out, d, 4);
    out.push('-');
    push_hex_w(out, e, 12);
    assert(final(out)@ =~= old(out)@ + uuid_chars(id));
}

/// The canonical text of `id` as a fresh string.
pub fn uuid_string(id: u128) -> (r: String)
    ensures
        r@ == uuid_chars(id),
{
    let mut out = String::new();
    push_uuid(&mut out, id);
    assert(out@ =~= uuid_chars(id));
    out
}

/// Reads a session id in canonical text form starting at `i`.
#[verifier::rlimit(60)]
pub fn parse_uuid_at(s: &Vec<char>, i: usize) -> (r: Option<(u128, usize)>)
    requires
        i <= s@.len(),
    ensures
        match r {
            Some(p) => i <= p.1 <= s@.len() && parse_uuid_chars(s@.skip(i as int)) == Some(
                (p.0, s@.skip(p.1 as int)),
            ),
            None => parse_uuid_chars(s@.skip(i as int)) is None,
        },
{
    let ghost s0 = s@.skip(i as int);
    let ra = parse_hex_w_at(s, i, 8);
    match ra {
        None => None,
        Some((a, j1)) => {
            if j1 >= s.len() || s[j1] != '-' {
                proof {
                    assert(s@.skip(j1 as int).len() > 0 ==> s@.skip(j1 as int)[0] == s@[j1 as int]);
                }
                return None;
            }
            proof {
                assert(s@.skip(j1 as int)[0] == s@[j1 as int]);
                assert(s@.skip(j1 as int).drop_first() =~= s@.skip(j1 as int + 1));
            }
            let rb = parse_hex_w_at(s, j1 + 1, 4);
            match rb {
                None => None,
                Some((b, j2)) => {
                    if j2 >= s.len() || s[j2] != '-' {
                        proof {
                            let t2 = s@.skip(j2 as int);
                            assert(t2.len() > 0 ==> t2[0] == s@[j2 as int]);
                        }
                        return None;
                    }
                    proof {
                        assert(s@.skip(j2 as int)[0] == s@[j2 as int]);
                        assert(s@.skip(j2 as int).drop_first() =~= s@.skip(j2 as int + 1));
                    }
                    let rc = parse_hex_w_at(s, j2 + 1, 4);
                    match rc {
                        None => None,
                        Some((c, j3)) => {
                            if j3 >= s.len() || s[j3] != '-' {
                                proof {
                                    let t3 = s@.skip(j3 as int);
                                    assert(t3.len() > 0 ==> t3[0] == s@[j3 as int]);
                                }
                                return None;
                            }
                            proof {
                                assert(s@.skip(j3 as int)[0] == s@[j3 as int]);
                                assert(s@.skip(j3 as int).drop_first() =~= s@.skip(j3 as int + 1));
                            }
                            let rd = parse_hex_w_at(s, j3 + 1, 4);
                            match rd {
                                None => None,
                                Some((d, j4)) => {
                                    if j4 >= s.len() || s[j4] != '-' {
                                        proof {
                                            let t4 = s@.skip(j4 as int);
                                            assert(t4.len() > 0 ==> t4[0] == s@[j4 as int]);
                                        }
                                        return None;
                                    }
                                    proof {
                                        assert(s@.skip(j4 as int)[0] == s@[j4 as int]);
                                        assert(s@.skip(j4 as int).drop_first() =~= s@.skip(j4 as int + 1));
                                    }
                                    let re = parse_hex_w_at(s, j4 + 1, 12);
                                    match re {
                                        None => None,
                                        Some((e, j5)) => {
                                            proof {
                                                reveal_with_fuel(pow16, 13);
                                            }
                                            let v: u128 = a * 0x1000000000000000000000000 + b
                                                * 0x100000000000000000000 + c * 0x10000000000000000
                                                + d * 0x1000000000000 + e;
                                            Some((v, j5))
                                        },
                                    }
                                },
                            }
                        },
                    }
                },
            }
        },
    }
}

/// Reads a whole string as a session id; anything else is rejected.
pub fn parse_uuid(s: &str) -> (r: Option<u128>)
    ensures
        r == uuid_of_chars(s@),
{
    let v = str_chars(s);
    assert(v@.skip(0) =~= s@);
    let p = parse_uuid_at(&v, 0);
    match p {
        Some((id, j)) => {
            if j == v.len() {
                assert(v@.skip(j as int).len() == 0);
                Some(id)
            } else {
                assert(v@.skip(j as int).len() > 0);
                None
            }
        },
        None => None,
    }
}

} // verus!
