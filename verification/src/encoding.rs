//! Text encodings that the engine relies on: percent-encoding of query
//! parameters, and the encoders whose results end up in generated code and in
//! generated file names.

use base64::Engine;
use sha1::{Digest, Sha1};
use vstd::prelude::*;

verus! {

/// The bytes that percent-encoding leaves as they are: ASCII letters and
/// digits, and `-`, `.`, `_`, `~`.
pub open spec fn is_unreserved_byte(b: u8) -> bool {
    ||| 0x30 <= b <= 0x39
    ||| 0x41 <= b <= 0x5a
    ||| 0x61 <= b <= 0x7a
    ||| b == 0x2d
    ||| b == 0x2e
    ||| b == 0x5f
    ||| b == 0x7e
}

/// The characters that percent-encoding leaves as they are.
pub open spec fn is_unreserved_char(c: char) -> bool {
    ||| '0' <= c <= '9'
    ||| 'A' <= c <= 'Z'
    ||| 'a' <= c <= 'z'
    ||| c == '-'
    ||| c == '.'
    ||| c == '_'
    ||| c == '~'
}

/// The upper-case hexadecimal digit for a value below sixteen.
pub open spec fn upper_hex_digit(d: u8) -> char {
    if d < 10 {
        (0x30 + d) as char
    } else {
        (0x37 + d) as char
    }
}

/// One byte, percent-encoded: itself where it is unreserved, else `%` and
/// its two upper-case hexadecimal digits.
pub open spec fn percent_encoded_byte(b: u8) -> Seq<char> {
    if is_unreserved_byte(b) {
        seq![b as char]
    } else {
        seq!['%', upper_hex_digit(b / 16), upper_hex_digit(b % 16)]
    }
}

/// A byte string, percent-encoded byte by byte.
pub open spec fn percent_encoded_bytes(bytes: Seq<u8>) -> Seq<char>
    decreases bytes.len(),
{
    if bytes.len() == 0 {
        Seq::empty()
    } else {
        percent_encoded_byte(bytes[0]) + percent_encoded_bytes(bytes.drop_first())
    }
}

/// A text, percent-encoded over its UTF-8 bytes.
pub open spec fn percent_encoded(s: Seq<char>) -> Seq<char> {
    percent_encoded_bytes(vstd::utf8::encode_utf8(s))
}

/// Trusted: `urlencoding::encode` percent-encodes every byte of the UTF-8
/// form of its argument except ASCII letters, digits and `-`, `.`, `_`, `~`,
/// writing each other byte as `%` and two upper-case hexadecimal digits.
#[verifier::external_body]
pub(crate) fn url_encode(s: &str) -> (out: String)
    ensures
        out@ == percent_encoded(s@),
{
    urlencoding::encode(s).into_owned()
}

/// The lower-case form of a text, as `str::to_lowercase` gives it.
pub uninterp spec fn lowercased(s: Seq<char>) -> Seq<char>;

/// Trusted: `str::to_lowercase` is a function of the characters of its
/// argument alone; `lowercased` names its result.
#[verifier::external_body]
pub(crate) fn lowercase(s: &str) -> (out: String)
    ensures
        out@ == lowercased(s@),
{
    s.to_lowercase()
}

/// The lower-case hexadecimal digit for a value below sixteen.
pub open spec fn lower_hex_digit(d: u8) -> char {
    if d < 10 {
        (0x30 + d) as char
    } else {
        (0x57 + d) as char
    }
}

/// A byte string in hexadecimal: two lower-case digits for each byte.
pub open spec fn hex_lower(bytes: Seq<u8>) -> Seq<char>
    decreases bytes.len(),
{
    if bytes.len() == 0 {
        Seq::empty()
    } else {
        hex_lower(bytes.drop_last()).push(lower_hex_digit(bytes.last() / 16)).push(
            lower_hex_digit(bytes.last() % 16),
        )
    }
}

/// Trusted: `hex::encode` writes each byte as two lower-case hexadecimal
/// digits, the high one first.
#[verifier::external_body]
pub(crate) fn hex_encode(bytes: &Vec<u8>) -> (out: String)
    ensures
        out@ == hex_lower(bytes@),
{
    hex::encode(bytes)
}

/// The SHA-1 digest of the UTF-8 form of a text.
pub uninterp spec fn sha1_of(text: Seq<char>) -> Seq<u8>;

/// Trusted: `Sha1::digest` is a function of the bytes it is given, here the
/// UTF-8 form of the text; `sha1_of` names its result.
#[verifier::external_body]
pub(crate) fn sha1_digest(text: &str) -> (out: Vec<u8>)
    ensures
        out@ == sha1_of(text@),
{
    Sha1::digest(text.as_bytes()).to_vec()
}

/// A text as a JSON string, quotes included, as `serde_json::to_string`
/// writes it.
pub uninterp spec fn json_quoted(text: Seq<char>) -> Seq<char>;

/// Trusted: `serde_json::to_string`, given a string slice, is a function of
/// its characters alone and does not fail; `json_quoted` names its result.
#[verifier::external_body]
pub(crate) fn json_quote(text: &str) -> (out: String)
    ensures
        out@ == json_quoted(text@),
{
    serde_json::to_string(text).unwrap_or_default()
}

/// A byte string in base64, standard alphabet, without padding, as the
/// `STANDARD_NO_PAD` engine of `base64` writes it.
pub uninterp spec fn base64_no_pad(bytes: Seq<u8>) -> Seq<char>;

/// Trusted: `STANDARD_NO_PAD.encode` is a function of the bytes alone;
/// `base64_no_pad` names its result.
#[verifier::external_body]
pub(crate) fn base64_encode(bytes: &Vec<u8>) -> (out: String)
    ensures
        out@ == base64_no_pad(bytes@),
{
    base64::engine::general_purpose::STANDARD_NO_PAD.encode(bytes)
}

/// A byte string read as UTF-8, with each ill-formed part replaced, as
/// `String::from_utf8_lossy` reads it.
pub uninterp spec fn utf8_lossy(bytes: Seq<u8>) -> Seq<char>;

/// Trusted: `String::from_utf8_lossy` is a function of the bytes alone;
/// `utf8_lossy` names its result.
#[verifier::external_body]
pub(crate) fn decode_lossy(bytes: &Vec<u8>) -> (out: String)
    ensures
        out@ == utf8_lossy(bytes@),
{
    String::from_utf8_lossy(bytes).into_owned()
}

/// A text as `{:?}` prints it: in quotes, with escapes.
pub uninterp spec fn debug_quoted(text: Seq<char>) -> Seq<char>;

/// Trusted: formatting a string slice with `{:?}` is a function of its
/// characters alone; `debug_quoted` names its result.
#[verifier::external_body]
pub(crate) fn debug_quote(text: &str) -> (out: String)
    ensures
        out@ == debug_quoted(text@),
{
    format!("{:?}", text)
}

/// The value of a hexadecimal digit, upper or lower case; none for a byte
/// that is no such digit.
pub open spec fn hex_value(digit: u8) -> Option<u8> {
    if 0x30 <= digit <= 0x39 {
        Some((digit - 0x30) as u8)
    } else if 0x41 <= digit <= 0x46 {
        Some((digit - 0x37) as u8)
    } else if 0x61 <= digit <= 0x66 {
        Some((digit - 0x57) as u8)
    } else {
        None
    }
}

/// A byte string with its percent escapes undone: `%` and two hexadecimal
/// digits stand for the byte of that value; a `%` that no two hexadecimal
/// digits follow stays as it is, and so does every other byte.
pub open spec fn unescaped(bytes: Seq<u8>) -> Seq<u8>
    decreases bytes.len(),
{
    if bytes.len() == 0 {
        Seq::empty()
    } else if bytes[0] != 0x25 {
        seq![bytes[0]] + unescaped(bytes.skip(1))
    } else if bytes.len() < 3 {
        bytes
    } else if hex_value(bytes[1]) is None {
        seq![0x25u8] + unescaped(bytes.skip(1))
    } else if hex_value(bytes[2]) is None {
        seq![0x25u8, bytes[1]] + unescaped(bytes.skip(2))
    } else {
        seq![(hex_value(bytes[1])->0 * 16 + hex_value(bytes[2])->0) as u8] + unescaped(
            bytes.skip(3),
        )
    }
}

/// A text with its percent escapes undone, read as UTF-8; none where the
/// bytes so made are no UTF-8.
pub open spec fn percent_decoded(s: Seq<char>) -> Option<Seq<char>> {
    let bytes = unescaped(vstd::utf8::encode_utf8(s));
    if vstd::utf8::valid_utf8(bytes) {
        Some(vstd::utf8::decode_utf8(bytes))
    } else {
        None
    }
}

/// Trusted: `urlencoding::decode` replaces each `%` that two hexadecimal
/// digits follow, in the UTF-8 form of its argument, by the byte of their
/// value, leaves every other byte as it is (a `+` too), and reads the bytes
/// so made as UTF-8, which fails where they are none.
#[verifier::external_body]
pub(crate) fn url_decode(s: &str) -> (out: Option<String>)
    ensures
        out is Some == percent_decoded(s@) is Some,
        out is Some ==> out->0@ == percent_decoded(s@)->0,
{
    urlencoding::decode(s).ok().map(|text| text.into_owned())
}

/// A text as it is read from a query: with its percent escapes undone, or
/// as it stands where undoing them gives no text.
pub open spec fn query_decoded(s: Seq<char>) -> Seq<char> {
    match percent_decoded(s) {
        Some(text) => text,
        None => s,
    }
}

/// Reads a text from a query.
pub fn decode_text(s: &str) -> (out: String)
    ensures
        out@ == query_decoded(s@),
{
    match url_decode(s) {
        Some(text) => text,
        None => s.to_owned(),
    }
}

/// Whether a character can stand in a percent-encoded text: an unreserved
/// character or `%`.
pub open spec fn is_encoded_char(c: char) -> bool {
    is_unreserved_char(c) || c == '%'
}

/// Whether every character of a text can stand in a percent-encoded text.
pub open spec fn is_encoded(s: Seq<char>) -> bool {
    forall|i: int| 0 <= i < s.len() ==> is_encoded_char(#[trigger] s[i])
}

/// The characters of a text as bytes.
pub open spec fn as_bytes(s: Seq<char>) -> Seq<u8> {
    s.map_values(|c: char| c as u8)
}

proof fn lemma_hex_digit(d: u8)
    requires
        d < 16,
    ensures
        is_unreserved_char(upper_hex_digit(d)),
        hex_value(upper_hex_digit(d) as u8) == Some(d),
{
    if d < 10 {
        assert(upper_hex_digit(d) as u8 == 0x30 + d);
        assert('0' as u8 == 0x30 && '9' as u8 == 0x39);
    } else {
        assert(upper_hex_digit(d) as u8 == 0x37 + d);
        assert('A' as u8 == 0x41 && 'Z' as u8 == 0x5a);
    }
}

proof fn lemma_unreserved_byte(b: u8)
    requires
        is_unreserved_byte(b),
    ensures
        is_unreserved_char(b as char),
        (b as char) as u8 == b,
        b != 0x25,
{
}

/// What percent-encoding writes is made of unreserved characters and `%`,
/// and is empty only for an empty byte string.
pub proof fn lemma_percent_encoded_bytes_shape(bytes: Seq<u8>)
    ensures
        is_encoded(percent_encoded_bytes(bytes)),
        bytes.len() > 0 ==> percent_encoded_bytes(bytes).len() > 0,
    decreases bytes.len(),
{
    if bytes.len() > 0 {
        let b = bytes[0];
        let head = percent_encoded_byte(b);
        let tail = percent_encoded_bytes(bytes.drop_first());
        lemma_percent_encoded_bytes_shape(bytes.drop_first());
        if is_unreserved_byte(b) {
            lemma_unreserved_byte(b);
        } else {
            lemma_hex_digit(b / 16);
            lemma_hex_digit(b % 16);
        }
        let out = percent_encoded_bytes(bytes);
        assert forall|i: int| 0 <= i < out.len() implies is_encoded_char(#[trigger] out[i]) by {
            if i < head.len() {
                assert(out[i] == head[i]);
            } else {
                assert(out[i] == tail[i - head.len()]);
            }
        }
    }
}

proof fn lemma_unescaped_encoded(bytes: Seq<u8>)
    ensures
        unescaped(as_bytes(percent_encoded_bytes(bytes))) == bytes,
    decreases bytes.len(),
{
    if bytes.len() == 0 {
        assert(as_bytes(percent_encoded_bytes(bytes)) =~= Seq::empty());
        assert(bytes =~= Seq::empty());
    } else {
        let b = bytes[0];
        let rest = bytes.drop_first();
        let head = percent_encoded_byte(b);
        let tail = percent_encoded_bytes(rest);
        let whole = as_bytes(percent_encoded_bytes(bytes));
        lemma_unescaped_encoded(rest);
        assert(whole =~= as_bytes(head) + as_bytes(tail));
        if is_unreserved_byte(b) {
            lemma_unreserved_byte(b);
            assert(whole[0] == b);
            assert(whole.skip(1) =~= as_bytes(tail));
        } else {
            let hi = (b / 16) as u8;
            let lo = (b % 16) as u8;
            lemma_hex_digit(hi);
            lemma_hex_digit(lo);
            assert(whole[0] == 0x25u8);
            assert(whole[1] == upper_hex_digit(hi) as u8);
            assert(whole[2] == upper_hex_digit(lo) as u8);
            assert(whole.skip(3) =~= as_bytes(tail));
            assert(hi * 16 + lo == b);
        }
        assert(bytes =~= seq![b] + rest);
    }
}

/// Undoing the percent escapes of a percent-encoded text gives the text
/// back.
pub proof fn lemma_percent_round_trip(s: Seq<char>)
    ensures
        percent_decoded(percent_encoded(s)) == Some(s),
        query_decoded(percent_encoded(s)) == s,
        is_encoded(percent_encoded(s)),
        s.len() > 0 ==> percent_encoded(s).len() > 0,
{
    let bytes = vstd::utf8::encode_utf8(s);
    let text = percent_encoded(s);
    lemma_percent_encoded_bytes_shape(bytes);
    assert(vstd::utf8::is_ascii_chars(text)) by {
        assert forall|i: int| 0 <= i < text.len() implies '\0' <= #[trigger] text[i]
            <= '\u{7f}' by {
            assert(is_encoded_char(text[i]));
        }
    }
    vstd::utf8::is_ascii_chars_encode_utf8(text);
    assert(vstd::utf8::encode_utf8(text) =~= as_bytes(text));
    lemma_unescaped_encoded(bytes);
    vstd::utf8::encode_utf8_valid_utf8(s);
    vstd::utf8::encode_utf8_decode_utf8(s);
    if s.len() > 0 {
        assert(bytes.len() > 0) by {
            vstd::utf8::char_is_scalar(s[0]);
            assert(vstd::utf8::encode_scalar(s[0] as u32).len() > 0);
        }
    }
}

} // verus!
