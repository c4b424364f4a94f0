//! Turning a word typed by the user into a dictionary page URL.
use vstd::prelude::*;
use vstd::utf8::encode_utf8;
use crate::text::{chars_of, has_prefix, push_str, starts_with, string_of, trim, trim_ws};

verus! {

/// Bytes `urlencoding` leaves as they are: ASCII letters, digits and `-._~`.
pub open spec fn url_safe_byte(b: u8) -> bool {
    (48 <= b <= 57) || (65 <= b <= 90) || (97 <= b <= 122) || b == 45 || b == 46 || b == 95
        || b == 126
}

/// An upper-case hexadecimal digit.
pub open spec fn hex_digit(d: u8) -> char {
    if d < 10 {
        ((48 + d) as u32) as char
    } else {
        ((55 + d) as u32) as char
    }
}

/// Percent-encoding of bytes: safe bytes as themselves, every other byte as
/// `%` and two upper-case hex digits.
pub open spec fn percent_encode(bs: Seq<u8>) -> Seq<char>
    decreases bs.len(),
{
    if bs.len() == 0 {
        Seq::empty()
    } else {
        let b = bs[0];
        let head = if url_safe_byte(b) {
            seq![(b as u32) as char]
        } else {
            seq!['%', hex_digit(b / 16), hex_digit(b % 16)]
        };
        head + percent_encode(bs.drop_first())
    }
}

/// `urlencoding::encode`: percent-encodes the UTF-8 bytes of `s`, keeping
/// ASCII letters, digits and `-`, `.`, `_`, `~`.
#[verifier::external_body]
fn url_encode(s: &str) -> (r: String)
    ensures
        r@ == percent_encode(encode_utf8(s@)),
{
    urlencoding::encode(s).into_owned()
}

/// The English dictionary page of a word.
pub open spec fn dictionary_prefix() -> Seq<char> {
    "https://dictionary.cambridge.org/dictionary/english/"@
}

/// The page for an input: an `http://` or `https://` URL as it is, otherwise
/// the dictionary page of the trimmed word, percent-encoded.
pub open spec fn spec_input_to_url(input: Seq<char>) -> Seq<char> {
    if has_prefix(input, "https://"@) || has_prefix(input, "http://"@) {
        input
    } else {
        dictionary_prefix() + percent_encode(encode_utf8(trim_ws(input)))
    }
}

/// The dictionary page URL for a word or URL typed by the user.
pub fn input_to_url(input: &str) -> (r: String)
    ensures
        r@ == spec_input_to_url(input@),
{
    let cs = chars_of(input);
    if starts_with(&cs, "https://") || starts_with(&cs, "http://") {
        return input.to_owned();
    }
    let trimmed = string_of(&trim(&cs));
    let encoded = url_encode(trimmed.as_str());
    let mut out: Vec<char> = Vec::new();
    push_str(&mut out, "https://dictionary.cambridge.org/dictionary/english/");
    push_str(&mut out, encoded.as_str());
    string_of(&out)
}

} // verus!
