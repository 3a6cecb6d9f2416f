//! What reading a file name back gives of what was written into it.
//!
//! The escapes are undone by plain text replacement, so a name reads back
//! as written only when no escape can be mistaken for another: the laws
//! below say on which names that holds.

use vstd::prelude::*;
use crate::text::{find, lemma_find_bounds, replace_all, split_once, starts_with};
use crate::filenames::{
    decode_email, email_char_escape, encode_email, parse_secondary_drive, secondary_drive_name,
    subst_char,
};

verus! {

broadcast use vstd::string::group_string_axioms;

/// Every `_` stands alone: it is not followed by `_`, and no `@` or `.` stands
/// next to it (the escapes of those begin and end with `__`).
pub open spec fn lone_underscores(e: Seq<char>) -> bool {
    forall|i: int|
        0 <= i < e.len() && #[trigger] e[i] == '_' ==> (i + 1 < e.len() ==> e[i + 1] != '_' && e[i + 1]
            != '@' && e[i + 1] != '.') && (i > 0 ==> e[i - 1] != '@' && e[i - 1] != '.')
}

/// An e-mail address whose escapes read back unambiguously: its underscores
/// stand alone, and nowhere is a `.` followed by `at` and then `@` or `.`
/// (whose escapes would spell a false `__at__` across two escapes).
pub open spec fn plain_email(e: Seq<char>) -> bool {
    &&& lone_underscores(e)
    &&& forall|i: int|
        0 <= i && i + 3 < e.len() && #[trigger] e[i] == '.' && e[i + 1] == 'a' && e[i + 2] == 't'
            ==> e[i + 3] != '@' && e[i + 3] != '.'
}

proof fn lemma_literals()
    ensures
        "__at__"@ == seq!['_', '_', 'a', 't', '_', '_'],
        "__dot__"@ == seq!['_', '_', 'd', 'o', 't', '_', '_'],
        "@"@ == seq!['@'],
        "."@ == seq!['.'],
{
    reveal_strlit("__at__");
    reveal_strlit("__dot__");
    reveal_strlit("@");
    reveal_strlit(".");
}

proof fn lemma_lone_rest(e: Seq<char>)
    requires
        e.len() > 0,
        lone_underscores(e),
    ensures
        lone_underscores(e.skip(1)),
        e.len() > 1 && e[0] == '_' ==> e[1] != '_' && e[1] != '@' && e[1] != '.',
        e.len() > 1 && e[1] == '_' ==> e[0] != '@' && e[0] != '.',
{
    let r = e.skip(1);
    assert forall|i: int| 0 <= i < r.len() && #[trigger] r[i] == '_' implies (i + 1 < r.len() ==> r[i
        + 1] != '_' && r[i + 1] != '@' && r[i + 1] != '.') && (i > 0 ==> r[i - 1] != '@' && r[i - 1]
        != '.') by {
        assert(e[i + 1] == '_');
    }
    if e.len() > 1 && e[1] == '_' {
        assert(e[1] == '_');
    }
    if e.len() > 1 && e[0] == '_' {
        assert(e[0] == '_');
    }
}

proof fn lemma_plain_email_rest(e: Seq<char>)
    requires
        e.len() > 0,
        plain_email(e),
    ensures
        plain_email(e.skip(1)),
{
    lemma_lone_rest(e);
    let r = e.skip(1);
    assert forall|i: int|
        0 <= i && i + 3 < r.len() && #[trigger] r[i] == '.' && r[i + 1] == 'a' && r[i + 2]
            == 't' implies r[i + 3] != '@' && r[i + 3] != '.' by {
        assert(e[i + 1] == '.');
    }
}

/// Replacement passes over a prefix none of whose positions starts a match.
pub(crate) proof fn lemma_replace_past_prefix(p: Seq<char>, x: Seq<char>, pat: Seq<char>, rep: Seq<char>)
    requires
        pat.len() > 0,
        forall|k: int| 0 <= k < p.len() ==> !#[trigger] starts_with((p + x).skip(k), pat),
    ensures
        replace_all(p + x, pat, rep) == p + replace_all(x, pat, rep),
    decreases p.len(),
{
    if p.len() == 0 {
        assert(p + x =~= x);
    } else {
        let s = p + x;
        assert(s.skip(0) =~= s);
        assert(!starts_with(s.skip(0), pat));
        assert(s.skip(1) =~= p.skip(1) + x);
        assert forall|k: int| 0 <= k < p.skip(1).len() implies !#[trigger] starts_with(
            (p.skip(1) + x).skip(k),
            pat,
        ) by {
            assert((p.skip(1) + x).skip(k) =~= s.skip(k + 1));
            assert(!starts_with(s.skip(k + 1), pat));
        }
        lemma_replace_past_prefix(p.skip(1), x, pat, rep);
        assert(seq![p[0]] + (p.skip(1) + replace_all(x, pat, rep)) =~= p + replace_all(
            x,
            pat,
            rep,
        ));
    }
}

/// The first characters of an escaped address.
proof fn lemma_encode_head(u: Seq<char>)
    requires
        u.len() > 0,
    ensures
        encode_email(u) == email_char_escape(u[0]) + encode_email(u.skip(1)),
        encode_email(u).len() > 0,
        (u[0] == '@' || u[0] == '.') ==> encode_email(u).len() > 1 && encode_email(u)[0] == '_'
            && encode_email(u)[1] == '_',
        (u[0] != '@' && u[0] != '.') ==> encode_email(u)[0] == u[0] && encode_email(u).skip(1)
            == encode_email(u.skip(1)),
{
    lemma_literals();
    let h = email_char_escape(u[0]);
    let t = encode_email(u.skip(1));
    assert((h + t)[0] == h[0]);
    if u[0] != '@' && u[0] != '.' {
        assert((h + t).skip(1) =~= t);
    } else {
        assert((h + t)[1] == h[1]);
    }
}

/// After a `__dot__` escape, no false `__at__` starts within its last two characters.
proof fn lemma_no_false_at(r: Seq<char>)
    requires
        lone_underscores(r),
        r.len() > 0 ==> r[0] != '_',
        !(r.len() >= 3 && r[0] == 'a' && r[1] == 't' && (r[2] == '@' || r[2] == '.')),
    ensures
        !starts_with(seq!['_', '_'] + encode_email(r), "__at__"@),
        !starts_with(seq!['_'] + encode_email(r), "__at__"@),
{
    lemma_literals();
    let at = "__at__"@;
    let x = encode_email(r);
    let s2 = seq!['_', '_'] + x;
    let s1 = seq!['_'] + x;
    if starts_with(s1, at) {
        assert(s1.take(6)[1] == at[1]);
        assert(s1[1] == x[0]);
        assert(s1.take(6)[2] == at[2]);
        assert(s1[2] == x[1]);
        if r.len() == 0 {
            assert(x.len() == 0);
        }
        lemma_encode_head(r);
    }
    if starts_with(s2, at) {
        if r.len() == 0 {
            assert(x.len() == 0);
        }
        lemma_encode_head(r);
        assert(s2.take(6)[2] == at[2]);
        assert(s2[2] == x[0]);
        assert(r[0] == 'a');
        let r1 = r.skip(1);
        let x1 = encode_email(r1);
        assert(s2.take(6)[3] == at[3]);
        assert(s2[3] == x[1]);
        assert(x1[0] == 't');
        assert(r1.len() > 0);
        lemma_encode_head(r1);
        assert(r1[0] == r[1]);
        assert(r[1] == 't');
        let r2 = r1.skip(1);
        let x2 = encode_email(r2);
        assert(s2.take(6)[4] == at[4]);
        assert(s2.take(6)[5] == at[5]);
        assert(s2[4] == x[2]);
        assert(s2[5] == x[3]);
        assert(x[2] == x1[1]);
        assert(x[3] == x1[2]);
        assert(x1[1] == x2[0]);
        assert(x1[2] == x2[1]);
        assert(r2.len() > 0);
        lemma_encode_head(r2);
        assert(r2[0] == r[2]);
        assert(r[2] == '_');
        let r3 = r2.skip(1);
        assert(x2.skip(1) == encode_email(r3));
        assert(encode_email(r3)[0] == '_');
        assert(r3.len() > 0);
        lemma_encode_head(r3);
        assert(r3[0] == r[3]);
        assert(r[2] == '_');
    }
}

/// Undoing `__at__` in an escaped plain address leaves it with only its dots escaped.
proof fn lemma_undo_at(e: Seq<char>)
    requires
        plain_email(e),
    ensures
        replace_all(encode_email(e), "__at__"@, "@"@) == subst_char(e, '.', "__dot__"@),
    decreases e.len(),
{
    lemma_literals();
    let at = "__at__"@;
    let dot = "__dot__"@;
    if e.len() == 0 {
    } else {
        lemma_plain_email_rest(e);
        lemma_lone_rest(e);
        let r = e.skip(1);
        lemma_undo_at(r);
        lemma_encode_head(e);
        let x = encode_email(r);
        if e[0] == '@' {
            let s = at + x;
            assert(s.take(6) =~= at);
            assert(s.skip(6) =~= x);
        } else if e[0] == '.' {
            assert(!(r.len() >= 3 && r[0] == 'a' && r[1] == 't' && (r[2] == '@' || r[2] == '.'))) by {
                if r.len() >= 3 && r[0] == 'a' && r[1] == 't' {
                    assert(e[0] == '.' && e[1] == 'a' && e[2] == 't');
                }
            }
            assert(r.len() > 0 ==> r[0] != '_') by {
                if r.len() > 0 && r[0] == '_' {
                    assert(e[1] == '_');
                }
            }
            lemma_no_false_at(r);
            assert forall|k: int| 0 <= k < dot.len() implies !#[trigger] starts_with(
                (dot + x).skip(k),
                at,
            ) by {
                let t = (dot + x).skip(k);
                if k == 5 {
                    assert(t =~= seq!['_', '_'] + x);
                } else if k == 6 {
                    assert(t =~= seq!['_'] + x);
                } else if starts_with(t, at) {
                    assert(t.take(6)[0] == at[0]);
                    assert(t.take(6)[1] == at[1]);
                    assert(t.take(6)[2] == at[2]);
                    assert(t[0] == dot[k]);
                    assert(t[1] == dot[k + 1]);
                    assert(t[2] == dot[k + 2]);
                }
            }
            lemma_replace_past_prefix(dot, x, at, "@"@);
        } else {
            let s = seq![e[0]] + x;
            assert(!starts_with(s, at)) by {
                if starts_with(s, at) {
                    assert(s.take(6)[0] == at[0]);
                    assert(s.take(6)[1] == at[1]);
                    assert(s[1] == x[0]);
                    if r.len() == 0 {
                        assert(x.len() == 0);
                    }
                    lemma_encode_head(r);
                    assert(e[1] == r[0]);
                }
            }
            assert(s.skip(1) =~= x);
        }
    }
}

/// Undoing `__dot__` in an address with only its dots escaped gives it back.
proof fn lemma_undo_dot(e: Seq<char>)
    requires
        lone_underscores(e),
    ensures
        replace_all(subst_char(e, '.', "__dot__"@), "__dot__"@, "."@) == e,
    decreases e.len(),
{
    lemma_literals();
    let dot = "__dot__"@;
    if e.len() > 0 {
        let r = e.skip(1);
        lemma_lone_rest(e);
        lemma_undo_dot(r);
        let y = subst_char(r, '.', dot);
        if e[0] == '.' {
            let s = dot + y;
            assert(s.take(7) =~= dot);
            assert(s.skip(7) =~= y);
        } else {
            let s = seq![e[0]] + y;
            assert(!starts_with(s, dot)) by {
                if starts_with(s, dot) {
                    assert(s.take(7)[0] == dot[0]);
                    assert(s.take(7)[1] == dot[1]);
                    assert(s[1] == y[0]);
                    if r.len() == 0 {
                        assert(y.len() == 0);
                    }
                    let h = if r[0] == '.' { dot } else { seq![r[0]] };
                    assert(y == h + subst_char(r.skip(1), '.', dot));
                    assert(y[0] == h[0]);
                    assert(e[1] == r[0]);
                }
            }
            assert(s.skip(1) =~= y);
        }
        assert(seq![e[0]] + r =~= e);
    }
}

/// An e-mail address written into a file name reads back as it was, when its
/// underscores stand alone (not doubled, not next to `@` or `.`) and no `.` is
/// followed by `at` and then `@` or `.`.
pub proof fn law_email_round_trip(e: Seq<char>)
    requires
        plain_email(e),
    ensures
        decode_email(encode_email(e)) == e,
{
    lemma_undo_at(e);
    lemma_undo_dot(e);
}

/// `w` occurs somewhere in `s`.
pub open spec fn contains_text(s: Seq<char>, w: Seq<char>) -> bool {
    exists|j: int| 0 <= j <= s.len() && #[trigger] starts_with(s.skip(j), w)
}

proof fn lemma_name_literals()
    ensures
        "sdrive---secondary-drive---"@.len() == 27,
        "---"@ == seq!['-', '-', '-'],
        ".json"@ == seq!['.', 'j', 's', 'o', 'n'],
        ""@ == Seq::<char>::empty(),
{
    reveal_strlit("sdrive---secondary-drive---");
    reveal_strlit("---");
    reveal_strlit(".json");
    reveal_strlit("");
}

/// An escaped address holds none of the characters that its escapes do not
/// use, unless the address held it; and it never holds `@` or `.`.
pub(crate) proof fn lemma_encode_avoids(u: Seq<char>, c: char)
    requires
        c != '_' && c != 'a' && c != 't' && c != 'd' && c != 'o',
        c == '@' || c == '.' || !u.contains(c),
    ensures
        !encode_email(u).contains(c),
    decreases u.len(),
{
    lemma_literals();
    if u.len() > 0 {
        let r = u.skip(1);
        assert(c == '@' || c == '.' || !r.contains(c)) by {
            if r.contains(c) && c != '@' && c != '.' {
                let k = choose|k: int| 0 <= k < r.len() && r[k] == c;
                assert(u[k + 1] == c);
            }
        }
        lemma_encode_avoids(r, c);
        let h = email_char_escape(u[0]);
        assert(!h.contains(c)) by {
            if h.contains(c) {
                let k = choose|k: int| 0 <= k < h.len() && h[k] == c;
                if u[0] != '@' && u[0] != '.' {
                    assert(u[0] == c);
                    assert(u.contains(c));
                }
            }
        }
        let x = encode_email(r);
        assert(!(h + x).contains(c)) by {
            if (h + x).contains(c) {
                let k = choose|k: int| 0 <= k < (h + x).len() && (h + x)[k] == c;
                if k < h.len() {
                    assert(h[k] == c);
                } else {
                    assert(x[k - h.len()] == c);
                }
            }
        }
    }
}

/// With no occurrence of `pat` in `s`, replacing changes nothing.
pub(crate) proof fn lemma_replace_absent(s: Seq<char>, pat: Seq<char>, rep: Seq<char>)
    requires
        pat.len() > 0,
        forall|k: int| 0 <= k < s.len() ==> !#[trigger] starts_with(s.skip(k), pat),
    ensures
        replace_all(s, pat, rep) == s,
{
    let e = Seq::<char>::empty();
    assert(s + e =~= s);
    lemma_replace_past_prefix(s, e, pat, rep);
    assert(s + replace_all(e, pat, rep) =~= s);
}

/// Replacing at the very start of `s`.
pub(crate) proof fn lemma_replace_at_start(p: Seq<char>, x: Seq<char>, rep: Seq<char>)
    requires
        p.len() > 0,
    ensures
        replace_all(p + x, p, rep) == rep + replace_all(x, p, rep),
{
    let s = p + x;
    assert(s.take(p.len() as int) =~= p);
    assert(s.skip(p.len() as int) =~= x);
}

/// The leftmost occurrence is at `i` when `pat` starts at `i` and nowhere before.
proof fn lemma_find_at(s: Seq<char>, pat: Seq<char>, i: int)
    requires
        0 <= i <= s.len(),
        starts_with(s.skip(i), pat),
        forall|j: int| 0 <= j < i ==> !#[trigger] starts_with(s.skip(j), pat),
    ensures
        find(s, pat) == Some(i),
{
    lemma_find_bounds(s, pat);
    match find(s, pat) {
        Some(k) => {
            if k < i {
                assert(!starts_with(s.skip(k), pat));
            } else if k > i {
                assert(!starts_with(s.skip(i), pat));
            }
        },
        None => {
            assert(!starts_with(s.skip(i), pat));
        },
    }
}

/// No `---` starts inside a provider that holds no `---` and does not end with `-`.
proof fn lemma_first_separator(provider: Seq<char>, rest: Seq<char>, m: int)
    requires
        !contains_text(provider, "---"@),
        provider.len() > 0 ==> provider.last() != '-',
        0 <= m < provider.len(),
    ensures
        !starts_with((provider + rest).skip(m), "---"@),
{
    lemma_name_literals();
    let sep = "---"@;
    let s = provider + rest;
    let lp = provider.len() as int;
    if starts_with(s.skip(m), sep) {
        let win = s.skip(m).take(3);
        assert(win[0] == sep[0] && win[1] == sep[1] && win[2] == sep[2]);
        if m + 3 <= lp {
            assert(provider.skip(m).take(3) =~= win);
            assert(starts_with(provider.skip(m), sep));
        } else {
            assert(win[lp - 1 - m] == s[lp - 1]);
            assert(s[lp - 1] == provider.last());
        }
    }
}

/// `.json` occurs in `provider---s.json` only at the end.
proof fn lemma_json_at_end(provider: Seq<char>, s: Seq<char>)
    requires
        !contains_text(provider, ".json"@),
        !s.contains('.'),
    ensures
        forall|k: int|
            0 <= k < (provider + "---"@ + s).len() ==> !#[trigger] starts_with(
                (provider + "---"@ + s + ".json"@).skip(k),
                ".json"@,
            ),
{
    lemma_name_literals();
    let sep = "---"@;
    let json = ".json"@;
    let w = provider + sep + s;
    let lp = provider.len() as int;
    assert forall|k: int| 0 <= k < w.len() implies !#[trigger] starts_with((w + json).skip(k), json) by {
        if starts_with((w + json).skip(k), json) {
            let win = (w + json).skip(k).take(5);
            assert(win[0] == json[0]);
            assert(w[k] == '.');
            if k < lp {
                if k + 5 <= lp {
                    assert(provider.skip(k).take(5) =~= win);
                    assert(starts_with(provider.skip(k), json));
                } else {
                    assert(win[lp - k] == json[lp - k]);
                    assert(win[lp - k] == w[lp]);
                    assert(w[lp] == '-');
                }
            } else if k >= lp + 3 {
                assert(s[k - lp - 3] == '.');
                assert(s.contains('.'));
            }
        }
    }
}

/// `provider---s` splits at its first `---` into the provider and `s`.
proof fn lemma_split_after_provider(provider: Seq<char>, s: Seq<char>)
    requires
        !contains_text(provider, "---"@),
        provider.len() > 0 ==> provider.last() != '-',
    ensures
        split_once(provider + "---"@ + s, "---"@) == Some((provider, s)),
{
    lemma_name_literals();
    let sep = "---"@;
    let w = provider + sep + s;
    let lp = provider.len() as int;
    assert(w.skip(lp).take(3) =~= sep);
    assert forall|j: int| 0 <= j < lp implies !#[trigger] starts_with(w.skip(j), sep) by {
        assert(w =~= provider + (sep + s));
        lemma_first_separator(provider, sep + s, j);
    }
    lemma_find_at(w, sep, lp);
    assert(w.take(lp) =~= provider);
    assert(w.skip(lp + 3) =~= s);
}

/// The primary address, provider and secondary address of a secondary drive
/// whose file name reads back unambiguously: the fixed prefix does not occur
/// again in the rest of the name; the escaped primary address followed by
/// `---` occurs only where it was written; the provider holds no `---` and no
/// `.json` and does not end with `-`; and the secondary address is a plain one.
pub open spec fn secondary_drive_reads_back(primary: Seq<char>, provider: Seq<char>, email: Seq<char>) -> bool {
    let p = encode_email(primary);
    let s = encode_email(email);
    &&& !contains_text(p + "---"@ + provider + "---"@ + (s + ".json"@), "sdrive---secondary-drive---"@)
    &&& !contains_text(provider + "---"@ + (s + ".json"@), p + "---"@)
    &&& !contains_text(provider, "---"@)
    &&& !contains_text(provider, ".json"@)
    &&& (provider.len() > 0 ==> provider.last() != '-')
    &&& plain_email(email)
}

/// A secondary drive written into a file name reads back as the same provider
/// and e-mail address, when the three read back unambiguously.
pub proof fn law_secondary_drive_round_trip(primary: Seq<char>, provider: Seq<char>, email: Seq<char>)
    requires
        secondary_drive_reads_back(primary, provider, email),
    ensures
        parse_secondary_drive(
            secondary_drive_name(encode_email(primary), provider, encode_email(email)),
            encode_email(primary),
        ) == Some((provider, email)),
{
    lemma_name_literals();
    lemma_literals();
    let pre = "sdrive---secondary-drive---"@;
    let sep = "---"@;
    let json = ".json"@;
    let empty = ""@;
    let p = encode_email(primary);
    let s = encode_email(email);
    lemma_encode_avoids(email, '.');
    let sj = s + json;
    let raw = secondary_drive_name(p, provider, s);
    // The fixed prefix is removed at the start and occurs nowhere else.
    let rest = p + sep + provider + sep + sj;
    assert(raw =~= pre + rest);
    lemma_replace_at_start(pre, rest, empty);
    assert forall|k: int| 0 <= k < rest.len() implies !#[trigger] starts_with(rest.skip(k), pre) by {}
    lemma_replace_absent(rest, pre, empty);
    let s1 = replace_all(raw, pre, empty);
    assert(s1 =~= rest);
    // `{primary}---` is removed at the start and occurs nowhere else.
    let ps = p + sep;
    let t = provider + sep + sj;
    assert(rest =~= ps + t);
    lemma_replace_at_start(ps, t, empty);
    assert forall|k: int| 0 <= k < t.len() implies !#[trigger] starts_with(t.skip(k), ps) by {}
    lemma_replace_absent(t, ps, empty);
    let s2 = replace_all(s1, ps, empty);
    assert(s2 =~= t);
    // `.json` is removed at the end and occurs nowhere else.
    let w = provider + sep + s;
    assert(t =~= w + json);
    lemma_json_at_end(provider, s);
    lemma_replace_past_prefix(w, json, json, empty);
    lemma_replace_at_start(json, Seq::<char>::empty(), empty);
    assert(json + Seq::<char>::empty() =~= json);
    let s3 = replace_all(s2, json, empty);
    assert(s3 =~= w);
    // The first `---` follows the provider.
    lemma_split_after_provider(provider, s);
    law_email_round_trip(email);
}

} // verus!
