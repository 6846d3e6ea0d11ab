//! Decimal and hexadecimal text for the integers the wire and state
//! formats carry: plain decimal for counters and process ids, and the
//! hyphenated 32-digit lowercase hex form for 128-bit session ids.

use vstd::prelude::*;

verus! {

// ---------------------------------------------------------------------
// Digits
// ---------------------------------------------------------------------

pub open spec fn is_digit(c: char) -> bool {
    c == '0' || c == '1' || c == '2' || c == '3' || c == '4' || c == '5' || c == '6' || c == '7'
        || c == '8' || c == '9'
}

pub open spec fn digit_char(d: nat) -> char {
    if d == 0 { '0' } else if d == 1 { '1' } else if d == 2 { '2' } else if d == 3 { '3' }
    else if d == 4 { '4' } else if d == 5 { '5' } else if d == 6 { '6' } else if d == 7 { '7' }
    else if d == 8 { '8' } else { '9' }
}

pub open spec fn digit_val(c: char) -> nat {
    if c == '0' { 0 } else if c == '1' { 1 } else if c == '2' { 2 } else if c == '3' { 3 }
    else if c == '4' { 4 } else if c == '5' { 5 } else if c == '6' { 6 } else if c == '7' { 7 }
    else if c == '8' { 8 } else { 9 }
}

pub open spec fn is_hex(c: char) -> bool {
    is_digit(c) || c == 'a' || c == 'b' || c == 'c' || c == 'd' || c == 'e' || c == 'f'
}

pub open spec fn hex_char(d: nat) -> char {
    if d < 10 { digit_char(d) } else if d == 10 { 'a' } else if d == 11 { 'b' }
    else if d == 12 { 'c' } else if d == 13 { 'd' } else if d == 14 { 'e' } else { 'f' }
}

pub open spec fn hex_val(c: char) -> nat {
    if is_digit(c) { digit_val(c) } else if c == 'a' { 10 } else if c == 'b' { 11 }
    else if c == 'c' { 12 } else if c == 'd' { 13 } else if c == 'e' { 14 } else { 15 }
}

pub open spec fn pow10(k: nat) -> nat
    decreases k,
{
    if k == 0 { 1 } else { 10 * pow10((k - 1) as nat) }
}

pub open spec fn pow16(k: nat) -> nat
    decreases k,
{
    if k == 0 { 1 } else { 16 * pow16((k - 1) as nat) }
}

// ---------------------------------------------------------------------
// Decimal text
// ---------------------------------------------------------------------

/// The decimal digits of `n`, most significant first, no leading zeros.
pub open spec fn dec_of(n: nat) -> Seq<char>
    decreases n,
{
    if n < 10 { seq![digit_char(n)] } else { dec_of(n / 10).push(digit_char(n % 10)) }
}

pub open spec fn all_digits(s: Seq<char>) -> bool {
    forall|k: int| 0 <= k < s.len() ==> is_digit(#[trigger] s[k])
}

/// The value of a digit sequence, most significant first.
pub open spec fn val_of(s: Seq<char>) -> nat
    decreases s.len(),
{
    if s.len() == 0 { 0 } else { val_of(s.drop_last()) * 10 + digit_val(s.last()) }
}

/// The longest digit prefix of `s`, and what follows it.
pub open spec fn split_digits(s: Seq<char>) -> (Seq<char>, Seq<char>)
    decreases s.len(),
{
    if s.len() > 0 && is_digit(s[0]) {
        let (d, r) = split_digits(s.drop_first());
        (seq![s[0]] + d, r)
    } else {
        (Seq::empty(), s)
    }
}

/// A decimal number of one to nineteen digits; such a value always fits
/// in a `u64`.
pub open spec fn parse_u64(s: Seq<char>) -> Option<(u64, Seq<char>)> {
    let (d, r) = split_digits(s);
    if 1 <= d.len() <= 19 {
        Some((val_of(d) as u64, r))
    } else {
        None
    }
}

pub proof fn lemma_val_of_dec_of(n: nat)
    ensures
        all_digits(dec_of(n)),
        dec_of(n).len() >= 1,
        val_of(dec_of(n)) == n,
    decreases n,
{
    if n < 10 {
        let s = dec_of(n);
        assert(s =~= seq![digit_char(n)]);
        assert(s.drop_last() =~= Seq::<char>::empty());
        assert(s.last() == digit_char(n));
        assert(val_of(s) == val_of(s.drop_last()) * 10 + digit_val(s.last()));
        assert(val_of(s.drop_last()) == 0);
        assert(digit_val(digit_char(n)) == n);
    } else {
        lemma_val_of_dec_of(n / 10);
        let s = dec_of(n / 10).push(digit_char(n % 10));
        assert(s.drop_last() =~= dec_of(n / 10));
        assert(s.last() == digit_char(n % 10));
        assert(val_of(s) == (n / 10) * 10 + n % 10);
        assert((n / 10) * 10 + n % 10 == n) by {
            vstd::arithmetic::div_mod::lemma_fundamental_div_mod(n as int, 10);
        }
        assert forall|k: int| 0 <= k < s.len() implies is_digit(#[trigger] s[k]) by {
            if k < s.len() - 1 {
                assert(s[k] == dec_of(n / 10)[k]);
            }
        }
    }
}

pub proof fn lemma_dec_of_len(n: nat, k: nat)
    requires
        k >= 1,
        n < pow10(k),
    ensures
        dec_of(n).len() <= k,
    decreases n,
{
    if n < 10 {
    } else {
        assert(pow10(k) == 10 * pow10((k - 1) as nat));
        assert(n / 10 < pow10((k - 1) as nat)) by {
            vstd::arithmetic::div_mod::lemma_fundamental_div_mod(n as int, 10);
        }
        assert(k - 1 >= 1) by {
            if k == 1 {
                assert(pow10(1) == 10);
            }
        }
        lemma_dec_of_len(n / 10, (k - 1) as nat);
    }
}

pub proof fn lemma_val_of_bound(s: Seq<char>)
    requires
        all_digits(s),
    ensures
        val_of(s) < pow10(s.len()),
    decreases s.len(),
{
    if s.len() == 0 {
    } else {
        assert(all_digits(s.drop_last())) by {
            assert(forall|k: int| 0 <= k < s.len() - 1 ==> s.drop_last()[k] == #[trigger] s[k]);
        }
        lemma_val_of_bound(s.drop_last());
        assert(digit_val(s.last()) <= 9);
        assert(val_of(s.drop_last()) * 10 + 9 < pow10(s.len())) by {
            assert(pow10(s.len()) == 10 * pow10((s.len() - 1) as nat));
            assert(val_of(s.drop_last()) + 1 <= pow10((s.len() - 1) as nat));
            assert((val_of(s.drop_last()) + 1) * 10 <= pow10((s.len() - 1) as nat) * 10) by (
            nonlinear_arith)
                requires
                    val_of(s.drop_last()) + 1 <= pow10((s.len() - 1) as nat),
            ;
        }
    }
}

pub proof fn lemma_pow10_le(j: nat, k: nat)
    requires
        j <= k,
    ensures
        pow10(j) <= pow10(k),
    decreases k,
{
    if j < k {
        lemma_pow10_le(j, (k - 1) as nat);
    }
}

pub proof fn lemma_split_digits_concat(d: Seq<char>, rest: Seq<char>)
    requires
        all_digits(d),
        rest.len() > 0 ==> !is_digit(rest[0]),
    ensures
        split_digits(d + rest) == (d, rest),
    decreases d.len(),
{
    if d.len() == 0 {
        assert(d + rest =~= rest);
        if rest.len() > 0 {
            assert(!is_digit((d + rest)[0]));
        }
        assert(split_digits(d + rest).0 =~= d);
    } else {
        let s = d + rest;
        assert(s[0] == d[0]);
        assert(s.drop_first() =~= d.drop_first() + rest);
        assert(all_digits(d.drop_first())) by {
            assert(forall|k: int| 0 <= k < d.len() - 1
                ==> d.drop_first()[k] == #[trigger] d[k + 1]);
        }
        lemma_split_digits_concat(d.drop_first(), rest);
        let (d2, r2) = split_digits(s.drop_first());
        assert(d2 == d.drop_first() && r2 == rest);
        assert(seq![s[0]] + d2 =~= d);
    }
}

pub proof fn lemma_parse_u64_roundtrip(n: u64, rest: Seq<char>)
    requires
        n < pow10(19),
        rest.len() > 0 ==> !is_digit(rest[0]),
    ensures
        parse_u64(dec_of(n as nat) + rest) == Some((n, rest)),
{
    lemma_val_of_dec_of(n as nat);
    lemma_dec_of_len(n as nat, 19);
    lemma_split_digits_concat(dec_of(n as nat), rest);
}

// ---------------------------------------------------------------------
// Fixed-width hexadecimal text
// ---------------------------------------------------------------------

/// `w` hex digits of `n`, most significant first, zero padded.
pub open spec fn hex_of_w(n: nat, w: nat) -> Seq<char>
    decreases w,
{
    if w == 0 { Seq::empty() } else { hex_of_w(n / 16, (w - 1) as nat).push(hex_char(n % 16)) }
}

pub open spec fn all_hex(s: Seq<char>) -> bool {
    forall|k: int| 0 <= k < s.len() ==> is_hex(#[trigger] s[k])
}

/// The value of a hex digit sequence, most significant first.
pub open spec fn hexval_of(s: Seq<char>) -> nat
    decreases s.len(),
{
    if s.len() == 0 { 0 } else { hexval_of(s.drop_last()) * 16 + hex_val(s.last()) }
}

/// Exactly `w` hex digits.
pub open spec fn parse_hex_w(s: Seq<char>, w: nat) -> Option<(nat, Seq<char>)> {
    if s.len() >= w && all_hex(s.take(w as int)) {
        Some((hexval_of(s.take(w as int)), s.skip(w as int)))
    } else {
        None
    }
}

pub proof fn lemma_hexval_hex_of(n: nat, w: nat)
    requires
        n < pow16(w),
    ensures
        all_hex(hex_of_w(n, w)),
        hex_of_w(n, w).len() == w,
        hexval_of(hex_of_w(n, w)) == n,
    decreases w,
{
    if w == 0 {
    } else {
        assert(pow16(w) == 16 * pow16((w - 1) as nat));
        assert(n / 16 < pow16((w - 1) as nat)) by {
            vstd::arithmetic::div_mod::lemma_fundamental_div_mod(n as int, 16);
        }
        lemma_hexval_hex_of(n / 16, (w - 1) as nat);
        let s = hex_of_w(n / 16, (w - 1) as nat).push(hex_char(n % 16));
        assert(s.drop_last() =~= hex_of_w(n / 16, (w - 1) as nat));
        assert(hexval_of(s) == (n / 16) * 16 + n % 16);
        assert((n / 16) * 16 + n % 16 == n) by {
            vstd::arithmetic::div_mod::lemma_fundamental_div_mod(n as int, 16);
        }
        assert forall|k: int| 0 <= k < s.len() implies is_hex(#[trigger] s[k]) by {
            if k < s.len() - 1 {
                assert(s[k] == hex_of_w(n / 16, (w - 1) as nat)[k]);
            }
        }
    }
}

pub proof fn lemma_hexval_bound(s: Seq<char>)
    ensures
        hexval_of(s) < pow16(s.len()),
    decreases s.len(),
{
    if s.len() == 0 {
    } else {
        lemma_hexval_bound(s.drop_last());
        assert(hex_val(s.last()) <= 15);
        assert(pow16(s.len()) == 16 * pow16((s.len() - 1) as nat));
        assert(hexval_of(s.drop_last()) + 1 <= pow16((s.len() - 1) as nat));
        assert((hexval_of(s.drop_last()) + 1) * 16 <= pow16((s.len() - 1) as nat) * 16) by (
        nonlinear_arith)
            requires
                hexval_of(s.drop_last()) + 1 <= pow16((s.len() - 1) as nat),
        ;
    }
}

pub proof fn lemma_parse_hex_w_roundtrip(n: nat, w: nat, rest: Seq<char>)
    requires
        n < pow16(w),
    ensures
        parse_hex_w(hex_of_w(n, w) + rest, w) == Some((n, rest)),
{
    lemma_hexval_hex_of(n, w);
    let s = hex_of_w(n, w) + rest;
    assert(s.take(w as int) =~= hex_of_w(n, w));
    assert(s.skip(w as int) =~= rest);
}

// ---------------------------------------------------------------------
// Executable digit helpers
// ---------------------------------------------------------------------

pub fn is_digit_x(c: char) -> (b: bool)
    ensures
        b == is_digit(c),
{
    c == '0' || c == '1' || c == '2' || c == '3' || c == '4' || c == '5' || c == '6' || c == '7'
        || c == '8' || c == '9'
}

pub fn is_hex_x(c: char) -> (b: bool)
    ensures
        b == is_hex(c),
{
    is_digit_x(c) || c == 'a' || c == 'b' || c == 'c' || c == 'd' || c == 'e' || c == 'f'
}

pub fn digit_char_x(d: u64) -> (c: char)
    requires
        d < 10,
    ensures
        c == digit_char(d as nat),
{
    if d == 0 { '0' } else if d == 1 { '1' } else if d == 2 { '2' } else if d == 3 { '3' }
    else if d == 4 { '4' } else if d == 5 { '5' } else if d == 6 { '6' } else if d == 7 { '7' }
    else if d == 8 { '8' } else { '9' }
}

pub fn digit_val_x(c: char) -> (d: u64)
    ensures
        d == digit_val(c),
{
    if c == '0' { 0 } else if c == '1' { 1 } else if c == '2' { 2 } else if c == '3' { 3 }
    else if c == '4' { 4 } else if c == '5' { 5 } else if c == '6' { 6 } else if c == '7' { 7 }
    else if c == '8' { 8 } else { 9 }
}

pub fn hex_char_x(d: u64) -> (c: char)
    requires
        d < 16,
    ensures
        c == hex_char(d as nat),
{
    if d < 10 { digit_char_x(d) } else if d == 10 { 'a' } else if d == 11 { 'b' }
    else if d == 12 { 'c' } else if d == 13 { 'd' } else if d == 14 { 'e' } else { 'f' }
}

pub fn hex_val_x(c: char) -> (d: u64)
    ensures
        d == hex_val(c),
{
    if is_digit_x(c) { digit_val_x(c) } else if c == 'a' { 10 } else if c == 'b' { 11 }
    else if c == 'c' { 12 } else if c == 'd' { 13 } else if c == 'e' { 14 } else { 15 }
}

/// Appends the decimal form of `n`.
pub fn push_dec(out: &mut String, n: u64)
    ensures
        final(out)@ == old(out)@ + dec_of(n as nat),
    decreases n,
{
    if n < 10 {
        out.push(digit_char_x(n));
        assert(final(out)@ =~= old(out)@ + dec_of(n as nat));
    } else {
        push_dec(out, n / 10);
        out.push(digit_char_x(n % 10));
        assert(final(out)@ =~= old(out)@ + dec_of(n as nat));
    }
}

/// Appends `w` hex digits of `n`, most significant first.
pub fn push_hex_w(out: &mut String, n: u128, w: usize)
    ensures
        final(out)@ == old(out)@ + hex_of_w(n as nat, w as nat),
    decreases w,
{
    if w > 0 {
        push_hex_w(out, n / 16, w - 1);
        out.push(hex_char_x((n % 16) as u64));
        assert((n as nat) % 16 == (n % 16) as nat);
        assert(final(out)@ =~= old(out)@ + hex_of_w(n as nat, w as nat));
    } else {
        assert(final(out)@ =~= old(out)@ + hex_of_w(n as nat, 0));
    }
}

// ---------------------------------------------------------------------
// Executable parsers
// ---------------------------------------------------------------------

/// The first position at or after `i` that does not hold a digit.
pub fn scan_digits(s: &Vec<char>, i: usize) -> (j: usize)
    requires
        i <= s@.len(),
    ensures
        i <= j <= s@.len(),
        forall|k: int| i <= k < j ==> is_digit(#[trigger] s@[k]),
        j < s@.len() ==> !is_digit(s@[j as int]),
{
    let mut j: usize = i;
    while j < s.len() && is_digit_x(s[j])
        invariant
            i <= j <= s@.len(),
            forall|k: int| i <= k < j ==> is_digit(#[trigger] s@[k]),
        decreases s@.len() - j,
    {
        j = j + 1;
    }
    j
}

pub proof fn lemma_split_digits_range(s: Seq<char>, i: int, j: int)
    requires
        0 <= i <= j <= s.len(),
        forall|k: int| i <= k < j ==> is_digit(#[trigger] s[k]),
        j < s.len() ==> !is_digit(s[j]),
    ensures
        split_digits(s.skip(i)) == (s.subrange(i, j), s.skip(j)),
    decreases j - i,
{
    if i == j {
        assert(s.subrange(i, j) =~= Seq::<char>::empty());
        if i < s.len() {
            assert(s.skip(i)[0] == s[i]);
        }
        assert(split_digits(s.skip(i)).0 =~= s.subrange(i, j));
    } else {
        assert(s.skip(i)[0] == s[i]);
        assert(s.skip(i).drop_first() =~= s.skip(i + 1));
        lemma_split_digits_range(s, i + 1, j);
        assert(seq![s.skip(i)[0]] + s.subrange(i + 1, j) =~= s.subrange(i, j));
    }
}

/// Reads a decimal number of one to nineteen digits starting at `i`.
pub fn parse_u64_at(s: &Vec<char>, i: usize) -> (r: Option<(u64, usize)>)
    requires
        i <= s@.len(),
    ensures
        match r {
            Some(p) => i <= p.1 <= s@.len() && parse_u64(s@.skip(i as int)) == Some(
                (p.0, s@.skip(p.1 as int)),
            ),
            None => parse_u64(s@.skip(i as int)) is None,
        },
{
    let j = scan_digits(s, i);
    proof {
        lemma_split_digits_range(s@, i as int, j as int);
    }
    let ghost d = s@.subrange(i as int, j as int);
    let w = j - i;
    if w < 1 || w > 19 {
        return None;
    }
    proof {
        assert(all_digits(d));
        lemma_val_of_bound(d);
        lemma_pow10_le(d.len(), 19);
        reveal_with_fuel(pow10, 21);
        assert(pow10(19) == 10000000000000000000);
    }
    let mut acc: u64 = 0;
    let mut k: usize = 0;
    while k < w
        invariant
            0 <= k <= w,
            i + w == j <= s@.len(),
            1 <= w <= 19,
            d == s@.subrange(i as int, j as int),
            all_digits(d),
            acc == val_of(d.take(k as int)),
            acc < pow10(k as nat),
        decreases w - k,
    {
        proof {
            assert(all_digits(d.take(k as int + 1))) by {
                assert(forall|m: int| 0 <= m < k + 1 ==> d.take(k as int + 1)[m] == #[trigger] d[m]);
            }
            lemma_pow10_le(k as nat, 18);
            reveal_with_fuel(pow10, 20);
            assert(pow10(18) == 1000000000000000000);
        }
        let c = s[i + k];
        assert(c == d[k as int]);
        let dv = digit_val_x(c);
        assert(dv <= 9);
        let acc2: u64 = acc * 10 + dv;
        proof {
            let t = d.take(k as int + 1);
            assert(t.drop_last() =~= d.take(k as int));
            assert(t.last() == d[k as int]);
            assert(val_of(t) == val_of(d.take(k as int)) * 10 + digit_val(d[k as int]));
        }
        acc = acc2;
        k = k + 1;
    }
    proof {
        assert(d.take(w as int) =~= d);
        reveal_with_fuel(pow10, 21);
        assert(pow10(19) == 10000000000000000000);
        assert(val_of(d) == acc);
    }
    Some((acc, j))
}

/// Reads exactly `w` hex digits starting at `i`.
pub fn parse_hex_w_at(s: &Vec<char>, i: usize, w: usize) -> (r: Option<(u128, usize)>)
    requires
        i <= s@.len(),
        w <= 32,
    ensures
        match r {
            Some(p) => p.1 == i + w && p.1 <= s@.len() && (p.0 as nat) < pow16(w as nat)
                && parse_hex_w(s@.skip(i as int), w as nat) == Some((p.0 as nat, s@.skip(p.1 as int))),
            None => parse_hex_w(s@.skip(i as int), w as nat) is None,
        },
{
    if s.len() - i < w {
        assert(s@.skip(i as int).len() < w);
        return None;
    }
    let ghost d = s@.skip(i as int).take(w as int);
    assert(forall|m: int| 0 <= m < w ==> d[m] == #[trigger] s@[i + m]);
    let jend: usize = i + w;
    let mut acc: u128 = 0;
    let mut k: usize = 0;
    while k < w
        invariant
            0 <= k <= w <= 32,
            jend == i + w,
            i + w <= s@.len(),
            d == s@.skip(i as int).take(w as int),
            forall|m: int| 0 <= m < k ==> is_hex(#[trigger] d[m]),
            acc == hexval_of(d.take(k as int)),
            (acc as nat) < pow16(k as nat),
        decreases w - k,
    {
        proof {
            lemma_hexval_bound(d.take(k as int));
            assert(pow16(31) == 0x10000000000000000000000000000000) by {
                reveal_with_fuel(pow16, 33);
            }
            assert(pow16(k as nat) <= pow16(31)) by {
                lemma_pow16_le(k as nat, 31);
            }
        }
        let c = s[i + k];
        assert(c == d[k as int]);
        if !is_hex_x(c) {
            proof {
                assert(!all_hex(d));
            }
            return None;
        }
        let hv = hex_val_x(c);
        assert(hv <= 15);
        let acc2: u128 = acc * 16 + hv as u128;
        proof {
            let t = d.take(k as int + 1);
            assert(t.drop_last() =~= d.take(k as int));
            assert(t.last() == d[k as int]);
            assert(hexval_of(t) == hexval_of(d.take(k as int)) * 16 + hex_val(d[k as int]));
        }
        acc = acc2;
        k = k + 1;
    }
    proof {
        assert(d.take(w as int) =~= d);
        assert(all_hex(d));
        assert(hexval_of(d) == acc);
        assert(s@.skip(i as int).skip(w as int) =~= s@.skip(i + w));
    }
    Some((acc, i + w))
}

pub proof fn lemma_pow16_le(j: nat, k: nat)
    requires
        j <= k,
    ensures
        pow16(j) <= pow16(k),
    decreases k,
{
    if j < k {
        lemma_pow16_le(j, (k - 1) as nat);
    }
}

} // verus!
