//! Percent-encoding of URL components (`urlencoding::encode`).

use vstd::prelude::*;
use vstd::utf8::encode_utf8;

verus! {

/// Bytes kept as they are: ASCII letters, digits and `-`, `.`, `_`, `~`.
pub open spec fn url_unreserved(b: u8) -> bool {
    (0x30 <= b && b <= 0x39) || (0x41 <= b && b <= 0x5a) || (0x61 <= b && b <= 0x7a) || b == 0x2d
        || b == 0x2e || b == 0x5f || b == 0x7e
}

/// The uppercase hexadecimal digit of value `d`.
pub open spec fn upper_hex_digit(d: int) -> char {
    if d < 10 {
        (('0' as u32) + d) as char
    } else {
        (('A' as u32) + d - 10) as char
    }
}

/// Each byte either kept as the ASCII character or written `%XX`.
pub open spec fn percent_encode_bytes(bytes: Seq<u8>) -> Seq<char>
    decreases bytes.len(),
{
    if bytes.len() == 0 {
        Seq::empty()
    } else {
        (if url_unreserved(bytes[0]) {
            seq![bytes[0] as char]
        } else {
            seq!['%', upper_hex_digit(bytes[0] as int / 16), upper_hex_digit(bytes[0] as int % 16)]
        }) + percent_encode_bytes(bytes.drop_first())
    }
}

/// The percent-encoding of the UTF-8 bytes of `s`.
pub open spec fn url_encoded(s: Seq<char>) -> Seq<char> {
    percent_encode_bytes(encode_utf8(s))
}

/// `urlencoding::encode`: percent-encodes every byte of the UTF-8 text except
/// ASCII letters, digits and `-`, `.`, `_`, `~`, writing `%` and two uppercase
/// hexadecimal digits.
#[verifier::external_body]
pub(crate) fn url_encode(data: &str) -> (r: String)
    ensures
        r@ == url_encoded(data@),
{
    urlencoding::encode(data).into_owned()
}

} // verus!
