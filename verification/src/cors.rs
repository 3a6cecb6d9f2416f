//! Which browser origins may call the service, from the `CORS` setting.
//!
//! An empty setting admits no origin; `*` (with surrounding white space)
//! admits any; otherwise the setting is a comma-separated list whose trimmed,
//! non-empty entries that are valid header values are the admitted origins.
//! A list with no such entry admits no origin.

use vstd::prelude::*;
use vstd::utf8::encode_utf8;
use crate::text::{chars_of, string_of};

verus! {

broadcast use vstd::string::group_string_axioms;

/// Unicode White_Space, the characters `str::trim` removes.
pub open spec fn is_white_space(c: char) -> bool {
    let u = c as u32;
    (0x09 <= u && u <= 0x0d) || u == 0x20 || u == 0x85 || u == 0xa0 || u == 0x1680 || (0x2000 <= u
        && u <= 0x200a) || u == 0x2028 || u == 0x2029 || u == 0x202f || u == 0x205f || u == 0x3000
}

fn white_space(c: char) -> (b: bool)
    ensures
        b == is_white_space(c),
{
    let u = c as u32;
    (0x09 <= u && u <= 0x0d) || u == 0x20 || u == 0x85 || u == 0xa0 || u == 0x1680 || (0x2000 <= u
        && u <= 0x200a) || u == 0x2028 || u == 0x2029 || u == 0x202f || u == 0x205f || u == 0x3000
}

/// `s` without its leading white space.
pub open spec fn trim_start(s: Seq<char>) -> Seq<char>
    decreases s.len(),
{
    if s.len() > 0 && is_white_space(s[0]) {
        trim_start(s.drop_first())
    } else {
        s
    }
}

/// `s` without its trailing white space.
pub open spec fn trim_end(s: Seq<char>) -> Seq<char>
    decreases s.len(),
{
    if s.len() > 0 && is_white_space(s.last()) {
        trim_end(s.drop_last())
    } else {
        s
    }
}

/// `s` without white space at either end (`str::trim`).
pub open spec fn trim(s: Seq<char>) -> Seq<char> {
    trim_end(trim_start(s))
}

/// The pieces of `s` between the occurrences of `sep` (`str::split` on a
/// character): one more piece than there are separators.
pub open spec fn split_on(s: Seq<char>, sep: char) -> Seq<Seq<char>>
    decreases s.len(),
{
    if s.len() == 0 {
        seq![Seq::empty()]
    } else {
        let p = split_on(s.drop_last(), sep);
        if s.last() == sep {
            p.push(Seq::empty())
        } else {
            p.update(p.len() - 1, p.last().push(s.last()))
        }
    }
}

proof fn lemma_split_on_nonempty(s: Seq<char>, sep: char)
    ensures
        split_on(s, sep).len() >= 1,
    decreases s.len(),
{
    if s.len() > 0 {
        lemma_split_on_nonempty(s.drop_last(), sep);
    }
}

/// The characters of `s` without white space at either end.
pub fn trim_chars(s: &Vec<char>) -> (t: Vec<char>)
    ensures
        t@ == trim(s@),
{
    let n = s.len();
    let mut i: usize = 0;
    assert(s@.subrange(0, n as int) =~= s@);
    while i < n && white_space(s[i])
        invariant
            n == s@.len(),
            i <= n,
            trim_start(s@) == trim_start(s@.subrange(i as int, n as int)),
        decreases n - i,
    {
        assert(s@.subrange(i as int, n as int).drop_first() =~= s@.subrange(i + 1, n as int));
        i = i + 1;
    }
    assert(trim_start(s@) == s@.subrange(i as int, n as int));
    let ghost start = s@.subrange(i as int, n as int);
    let mut j: usize = n;
    while j > i && white_space(s[j - 1])
        invariant
            n == s@.len(),
            i <= j <= n,
            start == s@.subrange(i as int, n as int),
            trim_end(start) == trim_end(s@.subrange(i as int, j as int)),
        decreases j - i,
    {
        assert(s@.subrange(i as int, j as int).drop_last() =~= s@.subrange(i as int, j - 1));
        j = j - 1;
    }
    assert(trim_end(start) == s@.subrange(i as int, j as int));
    let mut t: Vec<char> = Vec::new();
    let mut k: usize = i;
    while k < j
        invariant
            i <= k <= j <= n,
            n == s@.len(),
            t@ == s@.subrange(i as int, k as int),
        decreases j - k,
    {
        t.push(s[k]);
        k = k + 1;
        assert(t@ =~= s@.subrange(i as int, k as int));
    }
    t
}

/// The pieces of `s` between occurrences of `sep`.
pub fn split_chars(s: &Vec<char>, sep: char) -> (pieces: Vec<Vec<char>>)
    ensures
        pieces@.len() == split_on(s@, sep).len(),
        forall|k: int| 0 <= k < pieces@.len() ==> #[trigger] pieces@[k]@ == split_on(s@, sep)[k],
{
    let mut pieces: Vec<Vec<char>> = Vec::new();
    let mut cur: Vec<char> = Vec::new();
    let mut i: usize = 0;
    while i < s.len()
        invariant
            i <= s@.len(),
            pieces@.len() + 1 == split_on(s@.take(i as int), sep).len(),
            forall|k: int| 0 <= k < pieces@.len() ==> #[trigger] pieces@[k]@ == split_on(
                s@.take(i as int),
                sep,
            )[k],
            cur@ == split_on(s@.take(i as int), sep).last(),
        decreases s.len() - i,
    {
        let ghost before = s@.take(i as int);
        proof {
            lemma_split_on_nonempty(before, sep);
            assert(s@.take(i + 1).drop_last() =~= before);
        }
        let c = s[i];
        if c == sep {
            let done = cur;
            pieces.push(done);
            cur = Vec::new();
        } else {
            cur.push(c);
        }
        i = i + 1;
        proof {
            assert(cur@ =~= split_on(s@.take(i as int), sep).last());
        }
    }
    assert(s@.take(s.len() as int) =~= s@);
    pieces.push(cur);
    pieces
}

/// A byte that may stand in a header value: visible ASCII, space, tab, or any
/// byte of 0x80 and above.
pub open spec fn header_value_byte(b: u8) -> bool {
    (b >= 32 && b != 127) || b == 9
}

/// Text whose UTF-8 bytes may all stand in a header value.
pub open spec fn is_header_value(s: Seq<char>) -> bool {
    forall|i: int| 0 <= i < encode_utf8(s).len() ==> #[trigger] header_value_byte(encode_utf8(s)[i])
}

/// `HeaderValue::from_str` (the `http` crate, through `axum::http`): accepts the
/// text exactly when every byte of it is visible ASCII, a space, a tab or a
/// byte of 0x80 and above.
#[verifier::external_body]
fn parses_as_header_value(s: &str) -> (ok: bool)
    ensures
        ok == is_header_value(s@),
{
    axum::http::HeaderValue::from_str(s).is_ok()
}

/// The admitted origins among the pieces of the setting, in order.
pub open spec fn valid_origins(pieces: Seq<Seq<char>>) -> Seq<Seq<char>>
    decreases pieces.len(),
{
    if pieces.len() == 0 {
        Seq::empty()
    } else {
        let t = trim(pieces.last());
        valid_origins(pieces.drop_last()) + (if t.len() > 0 && is_header_value(t) {
            seq![t]
        } else {
            Seq::empty()
        })
    }
}

/// Which origins may call the service.
pub enum CorsPolicy {
    /// No origin.
    NoOrigins,
    /// Any origin.
    AnyOrigin,
    /// These origins, none of them empty.
    Origins(Vec<String>),
}

/// The policy as values: `None` for any origin, else the admitted origins.
pub open spec fn policy_origins(p: CorsPolicy) -> Option<Seq<Seq<char>>> {
    match p {
        CorsPolicy::NoOrigins => Some(Seq::empty()),
        CorsPolicy::AnyOrigin => None,
        CorsPolicy::Origins(v) => Some(v@.map_values(|o: String| o@)),
    }
}

/// The policy a setting asks for.
pub open spec fn cors_policy_spec(setting: Seq<char>) -> Option<Seq<Seq<char>>> {
    if setting.len() == 0 {
        Some(Seq::empty())
    } else if trim(setting) == seq!['*'] {
        None
    } else {
        Some(valid_origins(split_on(setting, ',')))
    }
}

/// The policy for the `CORS` setting.
pub fn cors_policy(setting: &str) -> (p: CorsPolicy)
    ensures
        policy_origins(p) == cors_policy_spec(setting@),
        p matches CorsPolicy::Origins(v) ==> v@.len() > 0,
{
    let chars = chars_of(setting);
    if chars.len() == 0 {
        return CorsPolicy::NoOrigins;
    }
    let whole = trim_chars(&chars);
    if whole.len() == 1 && whole[0] == '*' {
        assert(whole@ =~= seq!['*']);
        return CorsPolicy::AnyOrigin;
    }
    assert(trim(setting@) != seq!['*']);
    let pieces = split_chars(&chars, ',');
    let ghost ps = split_on(setting@, ',');
    let mut origins: Vec<String> = Vec::new();
    let mut i: usize = 0;
    while i < pieces.len()
        invariant
            chars@ == setting@,
            ps == split_on(setting@, ','),
            pieces@.len() == ps.len(),
            forall|k: int| 0 <= k < pieces@.len() ==> #[trigger] pieces@[k]@ == ps[k],
            i <= pieces@.len(),
            origins@.map_values(|o: String| o@) == valid_origins(ps.take(i as int)),
        decreases pieces.len() - i,
    {
        assert(ps.take(i + 1).drop_last() =~= ps.take(i as int));
        assert(pieces@[i as int]@ == ps[i as int]);
        let t = trim_chars(&pieces[i]);
        if t.len() > 0 {
            let text = string_of(&t);
            if parses_as_header_value(text.as_str()) {
                origins.push(text);
            }
        }
        i = i + 1;
        assert(origins@.map_values(|o: String| o@) =~= valid_origins(ps.take(i as int)));
    }
    assert(ps.take(pieces.len() as int) =~= ps);
    if origins.len() == 0 {
        assert(origins@.map_values(|o: String| o@) =~= Seq::<Seq<char>>::empty());
        CorsPolicy::NoOrigins
    } else {
        CorsPolicy::Origins(origins)
    }
}

} // verus!
