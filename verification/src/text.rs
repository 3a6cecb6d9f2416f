//! Text utilities over character sequences: conversion between `str`/`String`
//! and `Vec<char>`, prefix tests, search, and left-to-right replacement.

use vstd::prelude::*;
use vstd::std_specs::iter::IteratorSpec;

verus! {

broadcast use vstd::string::group_string_axioms;

/// `p` is a prefix of `s`.
pub open spec fn starts_with(s: Seq<char>, p: Seq<char>) -> bool {
    p.len() <= s.len() && s.take(p.len() as int) == p
}

/// Every non-overlapping occurrence of `pat` in `s`, found scanning from left to
/// right, is replaced by `rep` (the behavior of `str::replace` for a non-empty pattern).
pub open spec fn replace_all(s: Seq<char>, pat: Seq<char>, rep: Seq<char>) -> Seq<char>
    decreases s.len(),
{
    if pat.len() == 0 || s.len() == 0 {
        s
    } else if starts_with(s, pat) {
        rep + replace_all(s.skip(pat.len() as int), pat, rep)
    } else {
        seq![s[0]] + replace_all(s.skip(1), pat, rep)
    }
}

/// Position of the leftmost occurrence of `pat` in `s`, if any.
pub open spec fn find(s: Seq<char>, pat: Seq<char>) -> Option<int>
    decreases s.len(),
{
    if s.len() < pat.len() {
        None
    } else if starts_with(s, pat) {
        Some(0)
    } else if s.len() == 0 {
        None
    } else {
        match find(s.skip(1), pat) {
            Some(i) => Some(i + 1),
            None => None,
        }
    }
}

/// `str::splitn(2, pat)` for a non-empty pattern: the text before the leftmost
/// occurrence and the text after it, or `None` when `pat` does not occur.
pub open spec fn split_once(s: Seq<char>, pat: Seq<char>) -> Option<(Seq<char>, Seq<char>)> {
    match find(s, pat) {
        Some(i) => Some((s.take(i), s.skip(i + pat.len()))),
        None => None,
    }
}

pub proof fn lemma_find_bounds(s: Seq<char>, pat: Seq<char>)
    ensures
        find(s, pat) matches Some(i) ==> 0 <= i && i + pat.len() <= s.len() && starts_with(
            s.skip(i),
            pat,
        ),
        find(s, pat) matches Some(i) ==> forall|j: int|
            0 <= j < i ==> !#[trigger] starts_with(s.skip(j), pat),
        find(s, pat) is None ==> forall|j: int|
            0 <= j <= s.len() ==> !#[trigger] starts_with(s.skip(j), pat),
    decreases s.len(),
{
    if s.len() < pat.len() {
        assert forall|j: int| 0 <= j <= s.len() implies !#[trigger] starts_with(
            s.skip(j),
            pat,
        ) by {}
    } else if starts_with(s, pat) {
        assert(s.skip(0) =~= s);
    } else if s.len() == 0 {
        assert forall|j: int| 0 <= j <= s.len() implies !#[trigger] starts_with(
            s.skip(j),
            pat,
        ) by {
            assert(s.skip(j) =~= s);
        }
    } else {
        lemma_find_bounds(s.skip(1), pat);
        match find(s.skip(1), pat) {
            Some(i) => {
                assert(s.skip(1).skip(i) =~= s.skip(i + 1));
                assert forall|j: int| 0 <= j < i + 1 implies !#[trigger] starts_with(
                    s.skip(j),
                    pat,
                ) by {
                    if j == 0 {
                        assert(s.skip(0) =~= s);
                    } else {
                        assert(s.skip(1).skip(j - 1) =~= s.skip(j));
                    }
                }
            },
            None => {
                assert forall|j: int| 0 <= j <= s.len() implies !#[trigger] starts_with(
                    s.skip(j),
                    pat,
                ) by {
                    if j == 0 {
                        assert(s.skip(0) =~= s);
                    } else {
                        assert(s.skip(1).skip(j - 1) =~= s.skip(j));
                    }
                }
            },
        }
    }
}

/// The characters of `s`, in order.
pub fn chars_of(s: &str) -> (v: Vec<char>)
    ensures
        v@ == s@,
{
    let mut v: Vec<char> = Vec::new();
    for c in it: s.chars()
        invariant
            v@.len() == it.index(),
            forall|i: int| 0 <= i < v@.len() ==> v@[i] == it.seq()[i],
    {
        v.push(c);
    }
    assert(v@ =~= s@);
    v
}

/// Appends one character to a `String` (`String::push`).
#[verifier::external_body]
pub(crate) fn push_char(s: &mut String, c: char)
    ensures
        final(s)@ == old(s)@.push(c),
{
    s.push(c);
}

/// The `String` made of the characters of `v`.
pub fn string_of(v: &Vec<char>) -> (s: String)
    ensures
        s@ == v@,
{
    let mut s = String::new();
    let mut i: usize = 0;
    while i < v.len()
        invariant
            i <= v.len(),
            s@ == v@.take(i as int),
        decreases v.len() - i,
    {
        push_char(&mut s, v[i]);
        i = i + 1;
        assert(s@ =~= v@.take(i as int));
    }
    assert(v@.take(v.len() as int) =~= v@);
    s
}

/// Appends all of `src` to `out`.
pub fn push_all(out: &mut Vec<char>, src: &Vec<char>)
    ensures
        final(out)@ == old(out)@ + src@,
{
    let mut i: usize = 0;
    while i < src.len()
        invariant
            i <= src.len(),
            out@ == old(out)@ + src@.take(i as int),
        decreases src.len() - i,
    {
        out.push(src[i]);
        i = i + 1;
        assert(out@ =~= old(out)@ + src@.take(i as int));
    }
    assert(src@.take(src.len() as int) =~= src@);
}

/// Whether `p` occurs in `s` at position `i`.
pub fn matches_at(s: &Vec<char>, i: usize, p: &Vec<char>) -> (b: bool)
    requires
        i <= s.len(),
    ensures
        b == starts_with(s@.skip(i as int), p@),
{
    if p.len() > s.len() - i {
        return false;
    }
    let mut j: usize = 0;
    while j < p.len()
        invariant
            i + p.len() <= s.len(),
            j <= p.len(),
            forall|k: int| 0 <= k < j ==> s@[i + k] == p@[k],
        decreases p.len() - j,
    {
        if s[i + j] != p[j] {
            assert(s@.skip(i as int).take(p.len() as int)[j as int] != p@[j as int]);
            return false;
        }
        j = j + 1;
    }
    assert(s@.skip(i as int).take(p.len() as int) =~= p@);
    true
}

/// `replace_all` over character vectors.
pub fn replace_all_chars(s: &Vec<char>, pat: &Vec<char>, rep: &Vec<char>) -> (r: Vec<char>)
    requires
        pat@.len() > 0,
    ensures
        r@ == replace_all(s@, pat@, rep@),
{
    let mut out: Vec<char> = Vec::new();
    let mut i: usize = 0;
    assert(s@.skip(0) =~= s@);
    while i < s.len()
        invariant
            i <= s.len(),
            pat@.len() > 0,
            out@ + replace_all(s@.skip(i as int), pat@, rep@) == replace_all(s@, pat@, rep@),
        decreases s.len() - i,
    {
        let ghost rest = s@.skip(i as int);
        if matches_at(s, i, pat) {
            push_all(&mut out, rep);
            assert(rest.skip(pat@.len() as int) =~= s@.skip(i + pat@.len()));
            i = i + pat.len();
        } else {
            out.push(s[i]);
            assert(rest.skip(1) =~= s@.skip(i + 1));
            assert(rest[0] == s@[i as int]);
            i = i + 1;
        }
    }
    assert(s@.skip(i as int) =~= Seq::<char>::empty());
    out
}

/// `str::replace` for a non-empty pattern.
pub fn replace_str(s: &str, pat: &str, rep: &str) -> (r: String)
    requires
        pat@.len() > 0,
    ensures
        r@ == replace_all(s@, pat@, rep@),
{
    let sv = chars_of(s);
    let pv = chars_of(pat);
    let rv = chars_of(rep);
    let out = replace_all_chars(&sv, &pv, &rv);
    string_of(&out)
}

/// `split_once` over character vectors.
pub fn split_once_chars(s: &Vec<char>, pat: &Vec<char>) -> (r: Option<(Vec<char>, Vec<char>)>)
    requires
        pat@.len() > 0,
    ensures
        match split_once(s@, pat@) {
            Some((a, b)) => r matches Some((x, y)) && x@ == a && y@ == b,
            None => r is None,
        },
{
    proof {
        lemma_find_bounds(s@, pat@);
    }
    let mut i: usize = 0;
    while i < s.len()
        invariant
            i <= s.len(),
            forall|j: int| 0 <= j < i ==> !#[trigger] starts_with(s@.skip(j), pat@),
            find(s@, pat@) matches Some(k) ==> k >= i,
        decreases s.len() - i,
    {
        if matches_at(s, i, pat) {
            proof {
                lemma_find_bounds(s@, pat@);
                match find(s@, pat@) {
                    Some(k) => {
                        if k > i {
                            assert(!starts_with(s@.skip(i as int), pat@));
                        }
                    },
                    None => {
                        assert(!starts_with(s@.skip(i as int), pat@));
                    },
                }
            }
            let mut before: Vec<char> = Vec::new();
            let mut j: usize = 0;
            while j < i
                invariant
                    j <= i <= s.len(),
                    before@ == s@.take(j as int),
                decreases i - j,
            {
                before.push(s[j]);
                j = j + 1;
                assert(before@ =~= s@.take(j as int));
            }
            let mut after: Vec<char> = Vec::new();
            let mut k: usize = i + pat.len();
            while k < s.len()
                invariant
                    i + pat.len() <= k <= s.len(),
                    after@ == s@.subrange(i + pat@.len(), k as int),
                decreases s.len() - k,
            {
                after.push(s[k]);
                k = k + 1;
                assert(after@ =~= s@.subrange(i + pat@.len(), k as int));
            }
            assert(after@ =~= s@.skip(i + pat@.len()));
            return Some((before, after));
        }
        proof {
            if find(s@, pat@) == Some(i as int) {
                lemma_find_bounds(s@, pat@);
            }
        }
        i = i + 1;
    }
    proof {
        lemma_find_bounds(s@, pat@);
        if let Some(k) = find(s@, pat@) {
            assert(k == s@.len());
            assert(pat@.len() > 0);
        }
    }
    None
}

/// Whether two texts are the same.
pub fn str_eq(a: &str, b: &str) -> (r: bool)
    ensures
        r == (a@ == b@),
{
    let av = chars_of(a);
    let bv = chars_of(b);
    if av.len() != bv.len() {
        return false;
    }
    let mut i: usize = 0;
    while i < av.len()
        invariant
            av@ == a@,
            bv@ == b@,
            av@.len() == bv@.len(),
            i <= av@.len(),
            forall|k: int| 0 <= k < i ==> av@[k] == bv@[k],
        decreases av.len() - i,
    {
        if av[i] != bv[i] {
            assert(av@[i as int] != bv@[i as int]);
            return false;
        }
        i = i + 1;
    }
    assert(av@ =~= bv@);
    true
}

/// The lowercase digit of value `d` (`0`-`9`, then `a`-`f`).
pub open spec fn digit_char(d: int) -> char {
    if d == 0 { '0' } else if d == 1 { '1' } else if d == 2 { '2' } else if d == 3 { '3' }
    else if d == 4 { '4' } else if d == 5 { '5' } else if d == 6 { '6' } else if d == 7 { '7' }
    else if d == 8 { '8' } else if d == 9 { '9' } else if d == 10 { 'a' } else if d == 11 { 'b' }
    else if d == 12 { 'c' } else if d == 13 { 'd' } else if d == 14 { 'e' } else { 'f' }
}

/// The digits of `n` written in base `radix`, most significant first, without
/// leading zeros (`0` is written as one digit).
pub open spec fn radix_digits(n: nat, radix: nat) -> Seq<char>
    recommends
        2 <= radix <= 16,
    decreases n,
    when radix >= 2
{
    if n < radix {
        seq![digit_char(n as int)]
    } else {
        proof {
            assert(n / radix < n) by (nonlinear_arith)
                requires
                    n >= radix,
                    radix >= 2,
            ;
        }
        radix_digits(n / radix, radix) + seq![digit_char((n % radix) as int)]
    }
}

/// `n` padded on the left with `0` up to `width` characters (`format!("{:0width$}")`).
pub open spec fn zero_padded(digits: Seq<char>, width: nat) -> Seq<char> {
    if digits.len() >= width {
        digits
    } else {
        Seq::new((width - digits.len()) as nat, |i: int| '0') + digits
    }
}

fn digit(d: u128) -> (c: char)
    requires
        d < 16,
    ensures
        c == digit_char(d as int),
{
    if d == 0 { '0' } else if d == 1 { '1' } else if d == 2 { '2' } else if d == 3 { '3' }
    else if d == 4 { '4' } else if d == 5 { '5' } else if d == 6 { '6' } else if d == 7 { '7' }
    else if d == 8 { '8' } else if d == 9 { '9' } else if d == 10 { 'a' } else if d == 11 { 'b' }
    else if d == 12 { 'c' } else if d == 13 { 'd' } else if d == 14 { 'e' } else { 'f' }
}

fn push_radix_digits(n: u128, radix: u128, out: &mut Vec<char>)
    requires
        2 <= radix <= 16,
    ensures
        final(out)@ == old(out)@ + radix_digits(n as nat, radix as nat),
    decreases n,
{
    if n < radix {
        out.push(digit(n));
    } else {
        assert(n / radix < n) by (nonlinear_arith)
            requires
                n >= radix,
                radix >= 2,
        ;
        push_radix_digits(n / radix, radix, out);
        out.push(digit(n % radix));
        assert(final(out)@ =~= old(out)@ + radix_digits(n as nat, radix as nat));
    }
}

/// `n` in base `radix` (`format!("{}", n)` for 10, `format!("{:x}", n)` for 16).
pub fn to_radix_string(n: u128, radix: u128) -> (s: String)
    requires
        2 <= radix <= 16,
    ensures
        s@ == radix_digits(n as nat, radix as nat),
{
    let mut out: Vec<char> = Vec::new();
    push_radix_digits(n, radix, &mut out);
    assert(out@ =~= radix_digits(n as nat, radix as nat));
    string_of(&out)
}

/// `n` in decimal, padded with zeros up to `width` (`format!("{:0width$}", n)`).
pub fn to_padded_decimal(n: u128, width: usize) -> (s: String)
    ensures
        s@ == zero_padded(radix_digits(n as nat, 10), width as nat),
{
    let mut digits: Vec<char> = Vec::new();
    push_radix_digits(n, 10, &mut digits);
    let mut out: Vec<char> = Vec::new();
    if digits.len() < width {
        let pad = width - digits.len();
        let mut i: usize = 0;
        while i < pad
            invariant
                i <= pad,
                out@ == Seq::new(i as nat, |k: int| '0'),
            decreases pad - i,
        {
            out.push('0');
            i = i + 1;
            assert(out@ =~= Seq::new(i as nat, |k: int| '0'));
        }
    }
    push_all(&mut out, &digits);
    assert(digits@ =~= radix_digits(n as nat, 10));
    assert(out@ =~= zero_padded(radix_digits(n as nat, 10), width as nat));
    string_of(&out)
}

/// `'0'..='9'`.
pub open spec fn is_digit(c: char) -> bool {
    '0' <= c && c <= '9'
}

/// The value of a sequence of decimal digits.
pub open spec fn digits_value(s: Seq<char>) -> nat
    decreases s.len(),
{
    if s.len() == 0 {
        0
    } else {
        digits_value(s.drop_last()) * 10 + ((s.last() as u32) - ('0' as u32)) as nat
    }
}

/// `str::parse::<u64>`: an optional `+`, then one or more decimal digits whose
/// value fits in a `u64`.
pub open spec fn parse_u64(s: Seq<char>) -> Option<u64> {
    parse_digits_u64(if s.len() > 0 && s[0] == '+' {
        s.skip(1)
    } else {
        s
    })
}

/// One or more decimal digits whose value fits in a `u64`.
pub open spec fn parse_digits_u64(d: Seq<char>) -> Option<u64> {
    if d.len() > 0 && (forall|i: int| 0 <= i < d.len() ==> is_digit(#[trigger] d[i]))
        && digits_value(d) <= u64::MAX {
        Some(digits_value(d) as u64)
    } else {
        None
    }
}

proof fn lemma_digits_value_monotone(s: Seq<char>, k: int)
    requires
        0 <= k <= s.len(),
        forall|i: int| 0 <= i < s.len() ==> is_digit(#[trigger] s[i]),
    ensures
        digits_value(s.take(k)) <= digits_value(s),
    decreases s.len() - k,
{
    if k < s.len() {
        lemma_digits_value_monotone(s, k + 1);
        assert(s.take(k + 1).drop_last() =~= s.take(k));
    } else {
        assert(s.take(k) =~= s);
    }
}

/// `str::parse::<u64>().ok()`.
pub fn parse_u64_str(s: &str) -> (r: Option<u64>)
    ensures
        r == parse_u64(s@),
{
    let cs = chars_of(s);
    let mut start: usize = 0;
    if cs.len() > 0 && cs[0] == '+' {
        start = 1;
    }
    let ghost d = if s@.len() > 0 && s@[0] == '+' { s@.skip(1) } else { s@ };
    assert(d =~= cs@.skip(start as int));
    if start >= cs.len() {
        return None;
    }
    let mut acc: u128 = 0;
    let mut i: usize = start;
    while i < cs.len()
        invariant
            start <= i <= cs@.len(),
            cs@ == s@,
            d == cs@.skip(start as int),
            d == (if s@.len() > 0 && s@[0] == '+' { s@.skip(1) } else { s@ }),
            forall|k: int| start <= k < i ==> is_digit(#[trigger] cs@[k]),
            acc == digits_value(cs@.subrange(start as int, i as int)),
            acc <= u64::MAX,
        decreases cs.len() - i,
    {
        let c = cs[i];
        if !('0' <= c && c <= '9') {
            assert(d[i - start] == cs@[i as int]);
            assert(!is_digit(d[i - start]));
            assert(!(forall|k: int| 0 <= k < d.len() ==> is_digit(#[trigger] d[k])));
            assert(parse_digits_u64(d) is None);
            return None;
        }
        let v = (c as u32 - '0' as u32) as u128;
        assert(cs@.subrange(start as int, i + 1).drop_last() =~= cs@.subrange(start as int, i as int));
        acc = acc * 10 + v;
        i = i + 1;
        if acc > u64::MAX as u128 {
            if all_digits_from(&cs, i) {
                proof {
                    assert forall|k: int| 0 <= k < d.len() implies is_digit(#[trigger] d[k]) by {
                        assert(d[k] == cs@[k + start]);
                    }
                    lemma_digits_value_monotone(d, (i - start) as int);
                    assert(d.take((i - start) as int) =~= cs@.subrange(start as int, i as int));
                }
            } else {
                proof {
                    let k = choose|k: int| i <= k < cs@.len() && !is_digit(#[trigger] cs@[k]);
                    assert(d[k - start] == cs@[k]);
                    assert(!(forall|j: int| 0 <= j < d.len() ==> is_digit(#[trigger] d[j])));
                }
            }
            assert(parse_digits_u64(d) is None);
            return None;
        }
    }
    assert(cs@.subrange(start as int, cs@.len() as int) =~= d);
    Some(acc as u64)
}

/// Whether every character of `cs` from position `from` on is a decimal digit.
fn all_digits_from(cs: &Vec<char>, from: usize) -> (r: bool)
    requires
        from <= cs@.len(),
    ensures
        r == forall|k: int| from <= k < cs@.len() ==> is_digit(#[trigger] cs@[k]),
{
    let mut i: usize = from;
    while i < cs.len()
        invariant
            from <= i <= cs@.len(),
            forall|k: int| from <= k < i ==> is_digit(#[trigger] cs@[k]),
        decreases cs.len() - i,
    {
        if !('0' <= cs[i] && cs[i] <= '9') {
            return false;
        }
        i = i + 1;
    }
    true
}

} // verus!
