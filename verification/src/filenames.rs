//! Names of the appData files that record secondary drives and logical folders.
//!
//! The escapes below must stay byte-for-byte stable: files uploaded earlier are
//! found again only by these exact names.

use vstd::prelude::*;
use crate::text::{chars_of, replace_all, replace_str, split_once, split_once_chars, starts_with, string_of};
use vstd::string::StringExecFns;

verus! {

broadcast use vstd::string::group_string_axioms;

/// Replaces every `c` in `s` by `r`, character by character.
pub open spec fn subst_char(s: Seq<char>, c: char, r: Seq<char>) -> Seq<char>
    decreases s.len(),
{
    if s.len() == 0 {
        s
    } else {
        (if s[0] == c {
            r
        } else {
            seq![s[0]]
        }) + subst_char(s.skip(1), c, r)
    }
}

/// The escape of one character of an e-mail address.
pub open spec fn email_char_escape(c: char) -> Seq<char> {
    if c == '@' {
        "__at__"@
    } else if c == '.' {
        "__dot__"@
    } else {
        seq![c]
    }
}

/// An e-mail address as it appears in a file name: `@` becomes `__at__` and
/// `.` becomes `__dot__`; every other character stays.
pub open spec fn encode_email(e: Seq<char>) -> Seq<char>
    decreases e.len(),
{
    if e.len() == 0 {
        e
    } else {
        email_char_escape(e[0]) + encode_email(e.skip(1))
    }
}

/// The escape of one character of a drive or folder name.
pub open spec fn name_char_escape(c: char) -> Seq<char> {
    if c == '@' {
        "__at__"@
    } else if c == '.' {
        "__dot__"@
    } else if c == '/' {
        "__slash__"@
    } else if c == '\\' {
        "__backslash__"@
    } else if c == ' ' {
        "__space__"@
    } else {
        seq![c]
    }
}

/// A drive or folder name as it appears in a file name: `@`, `.`, `/`, `\` and
/// space become `__at__`, `__dot__`, `__slash__`, `__backslash__` and `__space__`.
pub open spec fn encode_name(n: Seq<char>) -> Seq<char>
    decreases n.len(),
{
    if n.len() == 0 {
        n
    } else {
        name_char_escape(n[0]) + encode_name(n.skip(1))
    }
}

/// `sdrive---secondary-drive---{primary}---{provider}---{secondary}.json`
pub open spec fn secondary_drive_name(primary: Seq<char>, provider: Seq<char>, secondary: Seq<char>) -> Seq<char> {
    "sdrive---secondary-drive---"@ + primary + "---"@ + provider + "---"@ + secondary + ".json"@
}

/// `sdrive---logical-folder---{primary}---{folder}.json`
pub open spec fn logical_folder_name(primary: Seq<char>, folder: Seq<char>) -> Seq<char> {
    "sdrive---logical-folder---"@ + primary + "---"@ + folder + ".json"@
}

/// The reverse substitutions applied to an encoded e-mail address read back
/// from a file name: `__at__` to `@`, then `__dot__` to `.`.
pub open spec fn decode_email(e: Seq<char>) -> Seq<char> {
    replace_all(replace_all(e, "__at__"@, "@"@), "__dot__"@, "."@)
}

/// The reverse substitutions applied to an encoded folder name read back from a
/// file name, in this order: `__at__`, `__dot__`, `__slash__`, `__backslash__`, `__space__`.
pub open spec fn decode_name(n: Seq<char>) -> Seq<char> {
    replace_all(
        replace_all(
            replace_all(
                replace_all(replace_all(n, "__at__"@, "@"@), "__dot__"@, "."@),
                "__slash__"@,
                "/"@,
            ),
            "__backslash__"@,
            "\\"@,
        ),
        "__space__"@,
        " "@,
    )
}

/// What a listed secondary-drive file name is reduced to before it is split:
/// the fixed prefix, `{primary}---` and `.json` are removed wherever they occur.
pub open spec fn strip_secondary_drive_name(raw: Seq<char>, primary: Seq<char>) -> Seq<char> {
    replace_all(
        replace_all(replace_all(raw, "sdrive---secondary-drive---"@, ""@), primary + "---"@, ""@),
        ".json"@,
        ""@,
    )
}

/// The provider and the decoded e-mail address named by a listed secondary-drive
/// file, or `None` when the stripped name has no `---` separator.
pub open spec fn parse_secondary_drive(raw: Seq<char>, primary: Seq<char>) -> Option<(Seq<char>, Seq<char>)> {
    match split_once(strip_secondary_drive_name(raw, primary), "---"@) {
        Some((provider, email)) => Some((provider, decode_email(email))),
        None => None,
    }
}

/// The decoded folder name of a listed logical-folder file.
pub open spec fn parse_logical_folder(raw: Seq<char>, primary: Seq<char>) -> Seq<char> {
    decode_name(
        replace_all(
            replace_all(replace_all(raw, "sdrive---logical-folder---"@, ""@), primary + "---"@, ""@),
            ".json"@,
            ""@,
        ),
    )
}

pub proof fn lemma_replace_single_char(s: Seq<char>, c: char, r: Seq<char>)
    ensures
        replace_all(s, seq![c], r) == subst_char(s, c, r),
    decreases s.len(),
{
    if s.len() > 0 {
        lemma_replace_single_char(s.skip(1), c, r);
        assert(s.take(1) =~= seq![s[0]]);
        if s[0] == c {
            assert(starts_with(s, seq![c]));
        } else {
            assert(s.take(1)[0] != seq![c][0]);
            assert(!starts_with(s, seq![c]));
        }
    }
}

pub proof fn lemma_subst_concat(a: Seq<char>, b: Seq<char>, c: char, r: Seq<char>)
    ensures
        subst_char(a + b, c, r) == subst_char(a, c, r) + subst_char(b, c, r),
    decreases a.len(),
{
    if a.len() == 0 {
        assert(a + b =~= b);
    } else {
        lemma_subst_concat(a.skip(1), b, c, r);
        assert((a + b).skip(1) =~= a.skip(1) + b);
        assert((a + b)[0] == a[0]);
        let head = if a[0] == c { r } else { seq![a[0]] };
        assert(subst_char(a + b, c, r) == head + subst_char((a + b).skip(1), c, r));
        assert(head + (subst_char(a.skip(1), c, r) + subst_char(b, c, r)) =~= (head
            + subst_char(a.skip(1), c, r)) + subst_char(b, c, r));
    }
}

pub proof fn lemma_subst_absent(s: Seq<char>, c: char, r: Seq<char>)
    requires
        !s.contains(c),
    ensures
        subst_char(s, c, r) == s,
    decreases s.len(),
{
    if s.len() > 0 {
        assert(!s.skip(1).contains(c)) by {
            if s.skip(1).contains(c) {
                let k = choose|k: int| 0 <= k < s.skip(1).len() && s.skip(1)[k] == c;
                assert(s[k + 1] == c);
            }
        }
        assert(s[0] != c);
        lemma_subst_absent(s.skip(1), c, r);
        assert(seq![s[0]] + s.skip(1) =~= s);
    }
}

proof fn lemma_email_escapes_literals()
    ensures
        "__at__"@ == seq!['_', '_', 'a', 't', '_', '_'],
        "__dot__"@ == seq!['_', '_', 'd', 'o', 't', '_', '_'],
        "@"@ == seq!['@'],
        "."@ == seq!['.'],
{
    reveal_strlit("__at__");
    reveal_strlit("__dot__");
    reveal_strlit("@");
    reveal_strlit(".");
}

proof fn lemma_name_escapes_literals()
    ensures
        "__slash__"@ == seq!['_', '_', 's', 'l', 'a', 's', 'h', '_', '_'],
        "__backslash__"@ == seq!['_', '_', 'b', 'a', 'c', 'k', 's', 'l', 'a', 's', 'h', '_', '_'],
        "__space__"@ == seq!['_', '_', 's', 'p', 'a', 'c', 'e', '_', '_'],
        "/"@ == seq!['/'],
        "\\"@ == seq!['\\'],
        " "@ == seq![' '],
{
    reveal_strlit("__slash__");
    reveal_strlit("__backslash__");
    reveal_strlit("__space__");
    reveal_strlit("/");
    reveal_strlit("\\");
    reveal_strlit(" ");
}

/// The two substitutions that `encode_email_for_filename` performs compose to `encode_email`.
proof fn lemma_email_substitutions(e: Seq<char>)
    ensures
        subst_char(subst_char(e, '@', "__at__"@), '.', "__dot__"@) == encode_email(e),
    decreases e.len(),
{
    lemma_email_escapes_literals();
    if e.len() > 0 {
        let first = if e[0] == '@' { "__at__"@ } else { seq![e[0]] };
        assert(subst_char(e, '@', "__at__"@) == first + subst_char(e.skip(1), '@', "__at__"@));
        lemma_subst_concat(first, subst_char(e.skip(1), '@', "__at__"@), '.', "__dot__"@);
        lemma_email_substitutions(e.skip(1));
        if e[0] == '@' {
            assert(!first.contains('.')) by {
                if first.contains('.') {
                    let k = choose|k: int| 0 <= k < first.len() && first[k] == '.';
                }
            }
            lemma_subst_absent(first, '.', "__dot__"@);
        } else {
            assert(first.skip(1) =~= Seq::<char>::empty());
            assert(subst_char(first.skip(1), '.', "__dot__"@) =~= Seq::<char>::empty());
            if e[0] == '.' {
                assert(subst_char(first, '.', "__dot__"@) =~= "__dot__"@);
            } else {
                assert(subst_char(first, '.', "__dot__"@) =~= seq![e[0]]);
            }
        }
    }
}

/// Encodes an e-mail address for use in an appData file name.
pub fn encode_email_for_filename(email: &str) -> (r: String)
    ensures
        r@ == encode_email(email@),
{
    proof {
        lemma_email_escapes_literals();
    }
    let step = replace_str(email, "@", "__at__");
    let r = replace_str(&step, ".", "__dot__");
    proof {
        lemma_replace_single_char(email@, '@', "__at__"@);
        lemma_replace_single_char(step@, '.', "__dot__"@);
        lemma_email_substitutions(email@);
    }
    r
}

/// Every character is `_` or a lowercase ASCII letter.
pub open spec fn escape_word(s: Seq<char>) -> bool {
    forall|k: int| 0 <= k < s.len() ==> s[k] == '_' || ('a' <= #[trigger] s[k] && s[k] <= 'z')
}

proof fn lemma_escape_word_fixed(s: Seq<char>, c: char, r: Seq<char>)
    requires
        escape_word(s),
        c == '@' || c == '.' || c == '/' || c == '\\' || c == ' ',
    ensures
        subst_char(s, c, r) == s,
{
    assert(!s.contains(c)) by {
        if s.contains(c) {
            let k = choose|k: int| 0 <= k < s.len() && s[k] == c;
            assert(s[k] == '_' || ('a' <= s[k] && s[k] <= 'z'));
        }
    }
    lemma_subst_absent(s, c, r);
}

/// The five substitutions that `encode_drive_name` performs, in order.
pub open spec fn name_substitutions(s: Seq<char>) -> Seq<char> {
    subst_char(
        subst_char(
            subst_char(subst_char(subst_char(s, '@', "__at__"@), '.', "__dot__"@), '/', "__slash__"@),
            '\\',
            "__backslash__"@,
        ),
        ' ',
        "__space__"@,
    )
}

proof fn lemma_name_substitutions_concat(a: Seq<char>, b: Seq<char>)
    ensures
        name_substitutions(a + b) == name_substitutions(a) + name_substitutions(b),
{
    let a1 = subst_char(a, '@', "__at__"@);
    let b1 = subst_char(b, '@', "__at__"@);
    lemma_subst_concat(a, b, '@', "__at__"@);
    let a2 = subst_char(a1, '.', "__dot__"@);
    let b2 = subst_char(b1, '.', "__dot__"@);
    lemma_subst_concat(a1, b1, '.', "__dot__"@);
    let a3 = subst_char(a2, '/', "__slash__"@);
    let b3 = subst_char(b2, '/', "__slash__"@);
    lemma_subst_concat(a2, b2, '/', "__slash__"@);
    let a4 = subst_char(a3, '\\', "__backslash__"@);
    let b4 = subst_char(b3, '\\', "__backslash__"@);
    lemma_subst_concat(a3, b3, '\\', "__backslash__"@);
    lemma_subst_concat(a4, b4, ' ', "__space__"@);
}

proof fn lemma_subst_single(c: char, d: char, r: Seq<char>)
    ensures
        subst_char(seq![c], d, r) == (if c == d { r } else { seq![c] }),
{
    assert(seq![c].skip(1) =~= Seq::<char>::empty());
    assert(subst_char(seq![c].skip(1), d, r) =~= Seq::<char>::empty());
    if c == d {
        assert(subst_char(seq![c], d, r) =~= r);
    } else {
        assert(subst_char(seq![c], d, r) =~= seq![c]);
    }
}

proof fn lemma_name_substitutions_char(c: char)
    ensures
        name_substitutions(seq![c]) == name_char_escape(c),
{
    lemma_email_escapes_literals();
    lemma_name_escapes_literals();
    let at = "__at__"@;
    let dot = "__dot__"@;
    let slash = "__slash__"@;
    let back = "__backslash__"@;
    let space = "__space__"@;
    assert(escape_word(at));
    assert(escape_word(dot));
    assert(escape_word(slash));
    assert(escape_word(back));
    assert(escape_word(space));
    lemma_subst_single(c, '@', at);
    let s1 = subst_char(seq![c], '@', at);
    if c == '@' {
        lemma_escape_word_fixed(at, '.', dot);
        lemma_escape_word_fixed(at, '/', slash);
        lemma_escape_word_fixed(at, '\\', back);
        lemma_escape_word_fixed(at, ' ', space);
    } else {
        lemma_subst_single(c, '.', dot);
        if c == '.' {
            lemma_escape_word_fixed(dot, '/', slash);
            lemma_escape_word_fixed(dot, '\\', back);
            lemma_escape_word_fixed(dot, ' ', space);
        } else {
            lemma_subst_single(c, '/', slash);
            if c == '/' {
                lemma_escape_word_fixed(slash, '\\', back);
                lemma_escape_word_fixed(slash, ' ', space);
            } else {
                lemma_subst_single(c, '\\', back);
                if c == '\\' {
                    lemma_escape_word_fixed(back, ' ', space);
                } else {
                    lemma_subst_single(c, ' ', space);
                }
            }
        }
    }
}

proof fn lemma_name_substitutions(n: Seq<char>)
    ensures
        name_substitutions(n) == encode_name(n),
    decreases n.len(),
{
    if n.len() == 0 {
        assert(name_substitutions(n) =~= n);
    } else {
        assert(n =~= seq![n[0]] + n.skip(1));
        lemma_name_substitutions_concat(seq![n[0]], n.skip(1));
        lemma_name_substitutions_char(n[0]);
        lemma_name_substitutions(n.skip(1));
    }
}

/// Encodes a user-supplied drive or folder name for use in an appData file name.
pub fn encode_drive_name(name: &str) -> (r: String)
    ensures
        r@ == encode_name(name@),
{
    proof {
        lemma_email_escapes_literals();
        lemma_name_escapes_literals();
    }
    let s1 = replace_str(name, "@", "__at__");
    let s2 = replace_str(&s1, ".", "__dot__");
    let s3 = replace_str(&s2, "/", "__slash__");
    let s4 = replace_str(&s3, "\\", "__backslash__");
    let r = replace_str(&s4, " ", "__space__");
    proof {
        lemma_replace_single_char(name@, '@', "__at__"@);
        lemma_replace_single_char(s1@, '.', "__dot__"@);
        lemma_replace_single_char(s2@, '/', "__slash__"@);
        lemma_replace_single_char(s3@, '\\', "__backslash__"@);
        lemma_replace_single_char(s4@, ' ', "__space__"@);
        lemma_name_substitutions(name@);
    }
    r
}

/// Names the appData file that records a secondary drive of a primary account.
pub fn secondary_drive_filename(
    primary_email_encoded: &str,
    drive_provider: &str,
    secondary_email_encoded: &str,
) -> (r: String)
    ensures
        r@ == secondary_drive_name(primary_email_encoded@, drive_provider@, secondary_email_encoded@),
{
    let mut r = "sdrive---secondary-drive---".to_owned();
    r.append(primary_email_encoded);
    r.append("---");
    r.append(drive_provider);
    r.append("---");
    r.append(secondary_email_encoded);
    r.append(".json");
    r
}

/// Names the appData file that records a logical folder of a primary account.
pub fn logical_folder_filename(primary_email_encoded: &str, folder_name_encoded: &str) -> (r: String)
    ensures
        r@ == logical_folder_name(primary_email_encoded@, folder_name_encoded@),
{
    let mut r = "sdrive---logical-folder---".to_owned();
    r.append(primary_email_encoded);
    r.append("---");
    r.append(folder_name_encoded);
    r.append(".json");
    r
}

proof fn lemma_pattern_literals()
    ensures
        "sdrive---secondary-drive---"@.len() > 0,
        "sdrive---logical-folder---"@.len() > 0,
        ".json"@.len() > 0,
        "---"@ == seq!['-', '-', '-'],
        "__at__"@.len() > 0,
        "__dot__"@.len() > 0,
        "__slash__"@.len() > 0,
        "__backslash__"@.len() > 0,
        "__space__"@.len() > 0,
{
    reveal_strlit("sdrive---secondary-drive---");
    reveal_strlit("sdrive---logical-folder---");
    reveal_strlit(".json");
    reveal_strlit("---");
    lemma_email_escapes_literals();
    lemma_name_escapes_literals();
}

/// Reads back a decoded e-mail address (`__at__` to `@`, then `__dot__` to `.`).
pub fn decode_email_from_filename(encoded: &str) -> (r: String)
    ensures
        r@ == decode_email(encoded@),
{
    proof {
        lemma_pattern_literals();
    }
    let s1 = replace_str(encoded, "__at__", "@");
    replace_str(&s1, "__dot__", ".")
}

/// Reduces a listed secondary-drive file name to `{provider}---{email}` by removing
/// the fixed prefix, `{primary}---` and `.json` wherever they occur.
pub fn strip_secondary_drive_filename(raw_name: &str, primary_email_encoded: &str) -> (r: String)
    ensures
        r@ == strip_secondary_drive_name(raw_name@, primary_email_encoded@),
{
    proof {
        lemma_pattern_literals();
    }
    let s1 = replace_str(raw_name, "sdrive---secondary-drive---", "");
    let mut primary_sep = primary_email_encoded.to_owned();
    primary_sep.append("---");
    let s2 = replace_str(&s1, primary_sep.as_str(), "");
    replace_str(&s2, ".json", "")
}

/// The provider and the e-mail address recorded by a listed secondary-drive
/// file; `None` when the stripped name has no `---` separator.
pub fn parse_secondary_drive_filename(raw_name: &str, primary_email_encoded: &str) -> (r: Option<(String, String)>)
    ensures
        match parse_secondary_drive(raw_name@, primary_email_encoded@) {
            Some((provider, email)) => r matches Some((p, e)) && p@ == provider && e@ == email,
            None => r is None,
        },
{
    proof {
        lemma_pattern_literals();
    }
    let stripped = strip_secondary_drive_filename(raw_name, primary_email_encoded);
    let chars = chars_of(stripped.as_str());
    let sep = chars_of("---");
    match split_once_chars(&chars, &sep) {
        Some((provider, email)) => {
            let provider = string_of(&provider);
            let email = string_of(&email);
            let email = decode_email_from_filename(email.as_str());
            Some((provider, email))
        },
        None => None,
    }
}

/// The folder name recorded by a listed logical-folder file: the fixed prefix,
/// `{primary}---` and `.json` removed, then the escapes undone.
pub fn parse_logical_folder_filename(raw_name: &str, primary_email_encoded: &str) -> (r: String)
    ensures
        r@ == parse_logical_folder(raw_name@, primary_email_encoded@),
{
    proof {
        lemma_pattern_literals();
    }
    let s1 = replace_str(raw_name, "sdrive---logical-folder---", "");
    let mut primary_sep = primary_email_encoded.to_owned();
    primary_sep.append("---");
    let s2 = replace_str(&s1, primary_sep.as_str(), "");
    let s3 = replace_str(&s2, ".json", "");
    let s4 = replace_str(&s3, "__at__", "@");
    let s5 = replace_str(&s4, "__dot__", ".");
    let s6 = replace_str(&s5, "__slash__", "/");
    let s7 = replace_str(&s6, "__backslash__", "\\");
    replace_str(&s7, "__space__", " ")
}

} // verus!
