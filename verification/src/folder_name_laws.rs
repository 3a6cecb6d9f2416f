//! What reading a logical-folder file name back gives of the folder name
//! written into it.
//!
//! A folder name is escaped with five words (`__at__`, `__dot__`,
//! `__slash__`, `__backslash__`, `__space__`) and read back by undoing them
//! one after the other. Undoing escape `k` leaves the escapes after it in
//! place, so the text between two undo passes is the name with only the
//! later escapes applied (`partial` below).

use vstd::prelude::*;
use crate::text::{replace_all, starts_with};
use crate::filenames::{
    decode_name, email_char_escape, encode_email, encode_name, logical_folder_name, name_char_escape,
    parse_logical_folder,
};
use crate::filename_laws::{contains_text, lemma_replace_absent, lemma_replace_at_start, lemma_replace_past_prefix};

verus! {

broadcast use vstd::string::group_string_axioms;

/// The rank of a character that folder names escape (`@`, `.`, `/`, `\`,
/// space), or -1.
pub open spec fn escape_rank(c: char) -> int {
    if c == '@' {
        0
    } else if c == '.' {
        1
    } else if c == '/' {
        2
    } else if c == '\\' {
        3
    } else if c == ' ' {
        4
    } else {
        -1
    }
}

/// The character escaped at rank `k`.
pub open spec fn escaped_char(k: int) -> char {
    if k == 0 {
        '@'
    } else if k == 1 {
        '.'
    } else if k == 2 {
        '/'
    } else if k == 3 {
        '\\'
    } else {
        ' '
    }
}

/// The word of the escape at rank `k`.
pub open spec fn escape_letters(k: int) -> Seq<char> {
    if k == 0 {
        seq!['a', 't']
    } else if k == 1 {
        seq!['d', 'o', 't']
    } else if k == 2 {
        seq!['s', 'l', 'a', 's', 'h']
    } else if k == 3 {
        seq!['b', 'a', 'c', 'k', 's', 'l', 'a', 's', 'h']
    } else {
        seq!['s', 'p', 'a', 'c', 'e']
    }
}

/// The escape at rank `k`: its word between two pairs of `_`.
pub open spec fn escape_token(k: int) -> Seq<char> {
    seq!['_', '_'] + escape_letters(k) + seq!['_', '_']
}

/// One character with the escapes of rank `k` and above applied.
pub open spec fn partial_char(c: char, k: int) -> Seq<char> {
    if escape_rank(c) >= k {
        escape_token(escape_rank(c))
    } else {
        seq![c]
    }
}

/// A name with the escapes of rank `k` and above applied.
pub open spec fn partial(n: Seq<char>, k: int) -> Seq<char>
    decreases n.len(),
{
    if n.len() == 0 {
        n
    } else {
        partial_char(n[0], k) + partial(n.skip(1), k)
    }
}

/// At position `p` of `n`, an escaped character of rank above `k` is followed
/// by the word of escape `k` and then by a character escaped at rank `k` or
/// above: their escapes would spell a false escape `k` across the two.
pub open spec fn false_escape_at(n: Seq<char>, p: int, k: int) -> bool {
    let w = escape_letters(k);
    &&& 0 <= p
    &&& p + 1 + w.len() < n.len()
    &&& escape_rank(n[p]) > k
    &&& n.subrange(p + 1, p + 1 + w.len()) == w
    &&& escape_rank(n[p + 1 + w.len()]) >= k
}

/// Every `_` stands alone: it is not followed by `_`, and no escaped character
/// stands next to it (escapes begin and end with `__`).
pub open spec fn lone_name_underscores(n: Seq<char>) -> bool {
    forall|i: int|
        0 <= i < n.len() && #[trigger] n[i] == '_' ==> (i + 1 < n.len() ==> n[i + 1] != '_'
            && escape_rank(n[i + 1]) < 0) && (i > 0 ==> escape_rank(n[i - 1]) < 0)
}

/// A folder name whose escapes read back unambiguously: its underscores
/// stand alone, and no escaped character is followed by the word of an
/// earlier escape and then by a character escaped at that rank or later
/// (such as `/at.` or ` dot/`).
pub open spec fn plain_folder_name(n: Seq<char>) -> bool {
    &&& lone_name_underscores(n)
    &&& forall|p: int, k: int| 0 <= k < 5 ==> !#[trigger] false_escape_at(n, p, k)
}

proof fn lemma_token_literals()
    ensures
        "__at__"@ == escape_token(0),
        "__dot__"@ == escape_token(1),
        "__slash__"@ == escape_token(2),
        "__backslash__"@ == escape_token(3),
        "__space__"@ == escape_token(4),
        "@"@ == seq![escaped_char(0)],
        "."@ == seq![escaped_char(1)],
        "/"@ == seq![escaped_char(2)],
        "\\"@ == seq![escaped_char(3)],
        " "@ == seq![escaped_char(4)],
{
    reveal_strlit("__at__");
    reveal_strlit("__dot__");
    reveal_strlit("__slash__");
    reveal_strlit("__backslash__");
    reveal_strlit("__space__");
    reveal_strlit("@");
    reveal_strlit(".");
    reveal_strlit("/");
    reveal_strlit("\\");
    reveal_strlit(" ");
    assert(escape_token(0) =~= seq!['_', '_', 'a', 't', '_', '_']);
    assert(escape_token(1) =~= seq!['_', '_', 'd', 'o', 't', '_', '_']);
    assert(escape_token(2) =~= seq!['_', '_', 's', 'l', 'a', 's', 'h', '_', '_']);
    assert(escape_token(3) =~= seq!['_', '_', 'b', 'a', 'c', 'k', 's', 'l', 'a', 's', 'h', '_', '_']);
    assert(escape_token(4) =~= seq!['_', '_', 's', 'p', 'a', 'c', 'e', '_', '_']);
}

/// The letters of an escape word: lowercase, never `_`, `-` or `.`.
proof fn lemma_token_shape(k: int)
    requires
        0 <= k < 5,
    ensures
        escape_token(k).len() >= 6,
        escape_token(k).len() == escape_letters(k).len() + 4,
        escape_letters(k).len() >= 2,
        escape_token(k)[0] == '_' && escape_token(k)[1] == '_',
        escape_token(k)[escape_token(k).len() - 1] == '_',
        escape_token(k)[escape_token(k).len() - 2] == '_',
        forall|j: int| 0 <= j < escape_letters(k).len() ==> 'a' <= #[trigger] escape_letters(k)[j] <= 'z',
        forall|j: int| 2 <= j < escape_token(k).len() - 2 ==> 'a' <= #[trigger] escape_token(k)[j] <= 'z',
        forall|j: int| 0 <= j < escape_letters(k).len() ==> escape_token(k)[j + 2] == #[trigger] escape_letters(k)[j],
{
    let t = escape_token(k);
    let w = escape_letters(k);
    assert forall|j: int| 0 <= j < w.len() implies t[j + 2] == #[trigger] w[j] by {}
    assert forall|j: int| 2 <= j < t.len() - 2 implies 'a' <= #[trigger] t[j] <= 'z' by {
        assert(t[j] == w[j - 2]);
    }
}

/// Two different escapes differ within their first four characters.
proof fn lemma_tokens_differ(e: int, k: int)
    requires
        0 <= e < 5,
        0 <= k < 5,
        e != k,
    ensures
        escape_token(e)[2] != escape_token(k)[2] || escape_token(e)[3] != escape_token(k)[3],
{
}

proof fn lemma_rank_char(c: char)
    requires
        escape_rank(c) >= 0,
    ensures
        escaped_char(escape_rank(c)) == c,
        escape_rank(c) < 5,
{
}

proof fn lemma_partial_char_shape(c: char, k: int)
    requires
        0 <= k,
    ensures
        partial_char(c, k).len() >= 1,
        (partial_char(c, k)[0] == '_') <==> (escape_rank(c) >= k || c == '_'),
        escape_rank(c) >= k ==> partial_char(c, k).len() >= 6 && partial_char(c, k)[1] == '_',
        escape_rank(c) < k ==> partial_char(c, k) == seq![c],
{
    if escape_rank(c) >= k {
        lemma_token_shape(escape_rank(c));
    }
}

proof fn lemma_lone_name_rest(n: Seq<char>)
    requires
        n.len() > 0,
        lone_name_underscores(n),
    ensures
        lone_name_underscores(n.skip(1)),
        n.len() > 1 && n[0] == '_' ==> n[1] != '_' && escape_rank(n[1]) < 0,
        n.len() > 1 && n[1] == '_' ==> escape_rank(n[0]) < 0,
{
    let r = n.skip(1);
    assert forall|i: int| 0 <= i < r.len() && #[trigger] r[i] == '_' implies (i + 1 < r.len() ==> r[i
        + 1] != '_' && escape_rank(r[i + 1]) < 0) && (i > 0 ==> escape_rank(r[i - 1]) < 0) by {
        assert(n[i + 1] == '_');
    }
    if n.len() > 1 && n[1] == '_' {
        assert(n[1] == '_');
    }
    if n.len() > 1 && n[0] == '_' {
        assert(n[0] == '_');
    }
}

/// Reading letters off the front of a partly escaped name reads them off the name.
proof fn lemma_partial_letters(r: Seq<char>, k: int, w: Seq<char>)
    requires
        0 <= k,
        forall|j: int| 0 <= j < w.len() ==> #[trigger] w[j] != '_',
        partial(r, k).len() >= w.len(),
        partial(r, k).take(w.len() as int) == w,
    ensures
        r.len() >= w.len(),
        r.take(w.len() as int) == w,
        partial(r.skip(w.len() as int), k) == partial(r, k).skip(w.len() as int),
    decreases w.len(),
{
    if w.len() == 0 {
        assert(r.skip(0) =~= r);
        assert(partial(r, k).skip(0) =~= partial(r, k));
    } else {
        let x = partial(r, k);
        if r.len() == 0 {
            assert(x.len() == 0);
        }
        let h = partial_char(r[0], k);
        let r1 = r.skip(1);
        let x1 = partial(r1, k);
        lemma_partial_char_shape(r[0], k);
        assert(x == h + x1);
        assert(x.take(w.len() as int)[0] == w[0]);
        assert(x[0] == h[0]);
        assert(h == seq![r[0]]);
        assert(r[0] == w[0]);
        let w1 = w.skip(1);
        assert(x1 =~= x.skip(1));
        assert(x1.take(w1.len() as int) =~= w1) by {
            assert forall|j: int| 0 <= j < w1.len() implies x1.take(w1.len() as int)[j] == w1[j] by {
                assert(x.take(w.len() as int)[j + 1] == w[j + 1]);
            }
        }
        lemma_partial_letters(r1, k, w1);
        assert(r.take(w.len() as int) =~= seq![r[0]] + r1.take(w1.len() as int));
        assert(r.skip(w.len() as int) =~= r1.skip(w1.len() as int));
        assert(x.skip(w.len() as int) =~= x1.skip(w1.len() as int));
    }
}

/// After an escape of rank above `k`, no false escape `k` starts within its
/// last two characters.
proof fn lemma_no_false_token(r: Seq<char>, k: int)
    requires
        0 <= k < 5,
        lone_name_underscores(r),
        r.len() > 0 ==> r[0] != '_',
        !(r.len() > escape_letters(k).len() && r.take(escape_letters(k).len() as int) == escape_letters(k)
            && escape_rank(r[escape_letters(k).len() as int]) >= k),
    ensures
        !starts_with(seq!['_', '_'] + partial(r, k), escape_token(k)),
        !starts_with(seq!['_'] + partial(r, k), escape_token(k)),
{
    let x = partial(r, k);
    let t = escape_token(k);
    let w = escape_letters(k);
    lemma_token_shape(k);
    let s2 = seq!['_', '_'] + x;
    let s1 = seq!['_'] + x;
    if starts_with(s2, t) {
        assert(x.take(w.len() as int) =~= w) by {
            assert forall|j: int| 0 <= j < w.len() implies x.take(w.len() as int)[j] == w[j] by {
                assert(s2.take(t.len() as int)[j + 2] == t[j + 2]);
                assert(s2[j + 2] == x[j]);
            }
        }
        assert forall|j: int| 0 <= j < w.len() implies #[trigger] w[j] != '_' by {
            assert('a' <= w[j] <= 'z');
        }
        lemma_partial_letters(r, k, w);
        let m = w.len() as int;
        assert(s2.take(t.len() as int)[m + 2] == t[m + 2]);
        assert(s2.take(t.len() as int)[m + 3] == t[m + 3]);
        assert(x[m] == '_');
        assert(x[m + 1] == '_');
        let rest = r.skip(m);
        assert(partial(rest, k) == x.skip(m));
        assert(partial(rest, k)[0] == '_');
        assert(partial(rest, k)[1] == '_');
        if rest.len() == 0 {
            assert(partial(rest, k).len() == 0);
        }
        assert(rest[0] == r[m]);
        lemma_partial_char_shape(rest[0], k);
        let h = partial_char(rest[0], k);
        let x1 = partial(rest.skip(1), k);
        assert(partial(rest, k) == h + x1);
        assert(partial(rest, k)[0] == h[0]);
        if escape_rank(rest[0]) < k {
            assert(r[m] == '_');
            assert(h == seq!['_']);
            assert(partial(rest, k)[1] == x1[0]);
            let rest1 = rest.skip(1);
            if rest1.len() == 0 {
                assert(x1.len() == 0);
            }
            assert(rest1[0] == r[m + 1]);
            lemma_partial_char_shape(rest1[0], k);
            assert(x1 == partial_char(rest1[0], k) + partial(rest1.skip(1), k));
            assert(x1[0] == partial_char(rest1[0], k)[0]);
        }
    }
    if starts_with(s1, t) {
        assert(s1.take(t.len() as int)[1] == t[1]);
        assert(x[0] == '_');
        assert(s1.take(t.len() as int)[2] == t[2]);
        assert(x[1] == t[2]);
        if r.len() == 0 {
            assert(x.len() == 0);
        }
        lemma_partial_char_shape(r[0], k);
        let h = partial_char(r[0], k);
        assert(x == h + partial(r.skip(1), k));
        assert(x[0] == h[0]);
        assert(x[1] == h[1]);
        assert('a' <= t[2] <= 'z');
    }
}

/// Undoing escape `k` of a name with the escapes of rank `k` and above
/// applied leaves it with those above `k` applied.
proof fn lemma_undo_step(n: Seq<char>, k: int)
    requires
        0 <= k < 5,
        lone_name_underscores(n),
        forall|p: int| !#[trigger] false_escape_at(n, p, k),
    ensures
        replace_all(partial(n, k), escape_token(k), seq![escaped_char(k)]) == partial(n, k + 1),
    decreases n.len(),
{
    let t = escape_token(k);
    let rep = seq![escaped_char(k)];
    lemma_token_shape(k);
    if n.len() > 0 {
        let c = n[0];
        let r = n.skip(1);
        lemma_lone_name_rest(n);
        assert forall|p: int| !#[trigger] false_escape_at(r, p, k) by {
            if false_escape_at(r, p, k) {
                let w = escape_letters(k);
                assert(n.subrange(p + 2, p + 2 + w.len()) =~= r.subrange(p + 1, p + 1 + w.len()));
                assert(n[p + 1] == r[p]);
                assert(n[p + 2 + w.len()] == r[p + 1 + w.len()]);
                assert(false_escape_at(n, p + 1, k));
            }
        }
        lemma_undo_step(r, k);
        let x = partial(r, k);
        let e = escape_rank(c);
        if e == k {
            lemma_rank_char(c);
            let s = t + x;
            assert(s.take(t.len() as int) =~= t);
            assert(s.skip(t.len() as int) =~= x);
            assert(partial(n, k + 1) == seq![c] + partial(r, k + 1));
        } else if e > k {
            lemma_rank_char(c);
            let te = escape_token(e);
            lemma_token_shape(e);
            let w = escape_letters(k);
            assert(!(r.len() > w.len() && r.take(w.len() as int) == w && escape_rank(r[w.len() as int]) >= k)) by {
                if r.len() > w.len() && r.take(w.len() as int) == w && escape_rank(r[w.len() as int]) >= k {
                    assert(n.subrange(1, 1 + w.len() as int) =~= r.take(w.len() as int));
                    assert(false_escape_at(n, 0, k));
                }
            }
            assert(r.len() > 0 ==> r[0] != '_') by {
                if r.len() > 0 && r[0] == '_' {
                    assert(n[1] == '_');
                }
            }
            lemma_no_false_token(r, k);
            assert forall|q: int| 0 <= q < te.len() implies !#[trigger] starts_with((te + x).skip(q), t) by {
                let s = (te + x).skip(q);
                if starts_with(s, t) {
                    if q == 0 {
                        lemma_tokens_differ(e, k);
                        assert(s.take(t.len() as int)[2] == t[2]);
                        assert(s.take(t.len() as int)[3] == t[3]);
                        assert(s[2] == te[2]);
                        assert(s[3] == te[3]);
                    } else if q == 1 {
                        assert(s.take(t.len() as int)[1] == t[1]);
                        assert(s[1] == te[2]);
                    } else if q < te.len() - 2 {
                        assert(s.take(t.len() as int)[0] == t[0]);
                        assert(s[0] == te[q]);
                    } else if q == te.len() - 2 {
                        assert(s =~= seq!['_', '_'] + x);
                    } else {
                        assert(s =~= seq!['_'] + x);
                    }
                }
            }
            lemma_replace_past_prefix(te, x, t, rep);
            assert(partial(n, k + 1) == te + partial(r, k + 1));
        } else {
            let s = seq![c] + x;
            assert(!starts_with(s, t)) by {
                if starts_with(s, t) {
                    assert(s.take(t.len() as int)[0] == t[0]);
                    assert(s.take(t.len() as int)[1] == t[1]);
                    assert(s[1] == x[0]);
                    if r.len() == 0 {
                        assert(x.len() == 0);
                    }
                    lemma_partial_char_shape(r[0], k);
                    assert(x == partial_char(r[0], k) + partial(r.skip(1), k));
                    assert(x[0] == partial_char(r[0], k)[0]);
                    assert(n[1] == r[0]);
                }
            }
            assert(s.skip(1) =~= x);
            assert(partial(n, k + 1) == seq![c] + partial(r, k + 1));
        }
    }
}

proof fn lemma_partial_first(n: Seq<char>)
    ensures
        partial(n, 0) == encode_name(n),
    decreases n.len(),
{
    lemma_token_literals();
    if n.len() > 0 {
        lemma_partial_first(n.skip(1));
        assert(partial_char(n[0], 0) == name_char_escape(n[0]));
    }
}

proof fn lemma_partial_last(n: Seq<char>)
    ensures
        partial(n, 5) == n,
    decreases n.len(),
{
    if n.len() > 0 {
        lemma_partial_last(n.skip(1));
        assert(partial_char(n[0], 5) == seq![n[0]]);
        assert(seq![n[0]] + n.skip(1) =~= n);
    }
}

/// A partly escaped name holds a character only where the name does, or
/// inside an escape.
proof fn lemma_partial_avoids(n: Seq<char>, k: int, c: char)
    requires
        0 <= k,
        c == '-' || c == '.',
        escape_rank(c) >= k || !n.contains(c),
    ensures
        !partial(n, k).contains(c),
    decreases n.len(),
{
    if n.len() > 0 {
        let r = n.skip(1);
        assert(escape_rank(c) >= k || !r.contains(c)) by {
            if r.contains(c) && escape_rank(c) < k {
                let j = choose|j: int| 0 <= j < r.len() && r[j] == c;
                assert(n[j + 1] == c);
            }
        }
        lemma_partial_avoids(r, k, c);
        let h = partial_char(n[0], k);
        assert(!h.contains(c)) by {
            if h.contains(c) {
                let j = choose|j: int| 0 <= j < h.len() && h[j] == c;
                if escape_rank(n[0]) >= k {
                    let e = escape_rank(n[0]);
                    lemma_token_shape(e);
                    let t = escape_token(e);
                    if 2 <= j < t.len() - 2 {
                        assert('a' <= t[j] <= 'z');
                    }
                } else {
                    assert(n[0] == c);
                    assert(n.contains(c));
                }
            }
        }
        let x = partial(r, k);
        assert(!(h + x).contains(c)) by {
            if (h + x).contains(c) {
                let j = choose|j: int| 0 <= j < (h + x).len() && (h + x)[j] == c;
                if j < h.len() {
                    assert(h[j] == c);
                } else {
                    assert(x[j - h.len()] == c);
                }
            }
        }
    }
}

/// A folder name escaped into a file name reads back as it was, when its
/// underscores stand alone (not doubled, not next to an escaped character)
/// and no escaped character is followed by the word of an earlier escape and
/// then by a character escaped at that rank or later.
pub proof fn law_folder_name_round_trip(n: Seq<char>)
    requires
        plain_folder_name(n),
    ensures
        decode_name(encode_name(n)) == n,
{
    lemma_token_literals();
    lemma_partial_first(n);
    assert forall|k: int| 0 <= k < 5 implies replace_all(partial(n, k), escape_token(k), seq![escaped_char(k)])
        == partial(n, k + 1) by {
        assert forall|p: int| !#[trigger] false_escape_at(n, p, k) by {}
        lemma_undo_step(n, k);
    }
    assert(replace_all(partial(n, 0), escape_token(0), seq![escaped_char(0)]) == partial(n, 1));
    assert(replace_all(partial(n, 1), escape_token(1), seq![escaped_char(1)]) == partial(n, 2));
    assert(replace_all(partial(n, 2), escape_token(2), seq![escaped_char(2)]) == partial(n, 3));
    assert(replace_all(partial(n, 3), escape_token(3), seq![escaped_char(3)]) == partial(n, 4));
    assert(replace_all(partial(n, 4), escape_token(4), seq![escaped_char(4)]) == partial(n, 5));
    lemma_partial_last(n);
}

/// Escaping a name is done character by character: the escape of a
/// concatenation is the concatenation of the escapes.
pub proof fn law_name_escape_concat(a: Seq<char>, b: Seq<char>)
    ensures
        encode_name(a + b) == encode_name(a) + encode_name(b),
    decreases a.len(),
{
    if a.len() == 0 {
        assert(a + b =~= b);
        assert(encode_name(a) + encode_name(b) =~= encode_name(b));
    } else {
        law_name_escape_concat(a.skip(1), b);
        assert((a + b).skip(1) =~= a.skip(1) + b);
        assert((a + b)[0] == a[0]);
        let h = name_char_escape(a[0]);
        assert(h + (encode_name(a.skip(1)) + encode_name(b)) =~= (h + encode_name(a.skip(1))) + encode_name(b));
    }
}

/// An escaped name holds none of the characters that are escaped (`@`, `.`,
/// `/`, `\`, space).
pub proof fn law_name_escape_leaves_no_escaped_char(n: Seq<char>, c: char)
    requires
        escape_rank(c) >= 0,
    ensures
        !encode_name(n).contains(c),
    decreases n.len(),
{
    lemma_token_literals();
    if n.len() > 0 {
        law_name_escape_leaves_no_escaped_char(n.skip(1), c);
        let h = name_char_escape(n[0]);
        let x = encode_name(n.skip(1));
        assert(h == partial_char(n[0], 0));
        assert(!h.contains(c)) by {
            if h.contains(c) {
                let j = choose|j: int| 0 <= j < h.len() && h[j] == c;
                if escape_rank(n[0]) >= 0 {
                    let e = escape_rank(n[0]);
                    lemma_token_shape(e);
                    let t = escape_token(e);
                    if 2 <= j < t.len() - 2 {
                        assert('a' <= t[j] <= 'z');
                    }
                }
            }
        }
        assert(!(h + x).contains(c)) by {
            if (h + x).contains(c) {
                let j = choose|j: int| 0 <= j < (h + x).len() && (h + x)[j] == c;
                if j < h.len() {
                    assert(h[j] == c);
                } else {
                    assert(x[j - h.len()] == c);
                }
            }
        }
    }
}

/// On names without `/`, `\` or space, the name escape is the e-mail escape.
pub proof fn law_name_escape_agrees_with_email(n: Seq<char>)
    requires
        !n.contains('/'),
        !n.contains('\\'),
        !n.contains(' '),
    ensures
        encode_name(n) == encode_email(n),
    decreases n.len(),
{
    if n.len() > 0 {
        let r = n.skip(1);
        assert(!r.contains('/') && !r.contains('\\') && !r.contains(' ')) by {
            if r.contains('/') || r.contains('\\') || r.contains(' ') {
                let j = choose|j: int| 0 <= j < r.len() && (r[j] == '/' || r[j] == '\\' || r[j] == ' ');
                assert(n[j + 1] == r[j]);
            }
        }
        law_name_escape_agrees_with_email(r);
        assert(n[0] != '/' && n[0] != '\\' && n[0] != ' ') by {
            if n[0] == '/' || n[0] == '\\' || n[0] == ' ' {
                assert(n.contains(n[0]));
            }
        }
        assert(name_char_escape(n[0]) == email_char_escape(n[0]));
    }
}

proof fn lemma_folder_literals()
    ensures
        "sdrive---logical-folder---"@.len() == 26,
        "---"@ == seq!['-', '-', '-'],
        ".json"@ == seq!['.', 'j', 's', 'o', 'n'],
        ""@ == Seq::<char>::empty(),
{
    reveal_strlit("sdrive---logical-folder---");
    reveal_strlit("---");
    reveal_strlit(".json");
    reveal_strlit("");
}

/// The primary address and folder name of a logical folder whose file name
/// reads back unambiguously: the fixed prefix does not occur again in the
/// rest of the name, the escaped primary address followed by `---` does not
/// occur in the escaped folder name, and the folder name is a plain one.
pub open spec fn logical_folder_reads_back(primary: Seq<char>, folder: Seq<char>) -> bool {
    let p = encode_email(primary);
    let f = encode_name(folder);
    &&& !contains_text(p + "---"@ + (f + ".json"@), "sdrive---logical-folder---"@)
    &&& !contains_text(f + ".json"@, p + "---"@)
    &&& plain_folder_name(folder)
}

/// A logical folder written into a file name reads back as the same folder
/// name, when the two read back unambiguously.
pub proof fn law_logical_folder_round_trip(primary: Seq<char>, folder: Seq<char>)
    requires
        logical_folder_reads_back(primary, folder),
    ensures
        parse_logical_folder(logical_folder_name(encode_email(primary), encode_name(folder)), encode_email(primary))
            == folder,
{
    lemma_folder_literals();
    let pre = "sdrive---logical-folder---"@;
    let sep = "---"@;
    let json = ".json"@;
    let empty = ""@;
    let p = encode_email(primary);
    let f = encode_name(folder);
    lemma_partial_first(folder);
    lemma_partial_avoids(folder, 0, '.');
    let raw = logical_folder_name(p, f);
    let tail = f + json;
    // The fixed prefix is removed at the start and occurs nowhere else.
    let rest = p + sep + tail;
    assert(raw =~= pre + rest);
    lemma_replace_at_start(pre, rest, empty);
    assert forall|k: int| 0 <= k < rest.len() implies !#[trigger] starts_with(rest.skip(k), pre) by {}
    lemma_replace_absent(rest, pre, empty);
    let s1 = replace_all(raw, pre, empty);
    assert(s1 =~= rest);
    // `{primary}---` is removed at the start and occurs nowhere else.
    let ps = p + sep;
    assert(rest =~= ps + tail);
    lemma_replace_at_start(ps, tail, empty);
    assert forall|k: int| 0 <= k < tail.len() implies !#[trigger] starts_with(tail.skip(k), ps) by {}
    lemma_replace_absent(tail, ps, empty);
    let s2 = replace_all(s1, ps, empty);
    assert(s2 =~= tail);
    // `.json` is removed at the end; the escaped name holds no `.`.
    assert forall|k: int| 0 <= k < f.len() implies !#[trigger] starts_with((f + json).skip(k), json) by {
        if starts_with((f + json).skip(k), json) {
            assert((f + json).skip(k).take(5)[0] == json[0]);
            assert(f[k] == '.');
            assert(f.contains('.'));
        }
    }
    lemma_replace_past_prefix(f, json, json, empty);
    lemma_replace_at_start(json, Seq::<char>::empty(), empty);
    assert(json + Seq::<char>::empty() =~= json);
    let s3 = replace_all(s2, json, empty);
    assert(s3 =~= f);
    law_folder_name_round_trip(folder);
}

} // verus!
