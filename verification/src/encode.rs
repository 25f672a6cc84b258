//! Form/URL percent-encoding of the byte strings that go into share links.
//!
//! The encoding is the standard `application/x-www-form-urlencoded` byte
//! serialisation: ASCII alphanumerics and `*`, `-`, `.`, `_` pass through
//! unchanged, a space becomes `+`, and every other byte becomes `%` followed
//! by its value in uppercase hexadecimal.

use vstd::prelude::*;

verus! {

/// Whether a byte passes through the form encoding unchanged: ASCII
/// alphanumerics and `*`, `-`, `.`, `_`.
pub open spec fn form_unchanged(b: u8) -> bool {
    ||| b == 42  // '*'
    ||| b == 45  // '-'
    ||| b == 46  // '.'
    ||| b == 95  // '_'
    ||| 48 <= b <= 57  // '0'..='9'
    ||| 65 <= b <= 90  // 'A'..='Z'
    ||| 97 <= b <= 122  // 'a'..='z'

}

/// The uppercase hexadecimal digit for a value below sixteen.
pub open spec fn hex_upper(d: u8) -> char {
    if d < 10 {
        ((48 + d) as u8) as char
    } else {
        ((55 + d) as u8) as char
    }
}

/// The form encoding of one byte.
pub open spec fn form_encode_byte(b: u8) -> Seq<char> {
    if form_unchanged(b) {
        seq![b as char]
    } else if b == 32 {
        seq!['+']
    } else {
        seq!['%', hex_upper(b / 16), hex_upper(b % 16)]
    }
}

/// The form encoding of a byte string, byte by byte.
pub open spec fn form_encoded(s: Seq<u8>) -> Seq<char>
    decreases s.len(),
{
    if s.len() == 0 {
        Seq::empty()
    } else {
        form_encode_byte(s[0]) + form_encoded(s.skip(1))
    }
}

/// The form encoding of a character string: its UTF-8 bytes, form-encoded.
pub open spec fn enc(s: Seq<char>) -> Seq<char> {
    form_encoded(vstd::utf8::encode_utf8(s))
}

/// Relies on `url::form_urlencoded::byte_serialize`: alphanumerics and
/// `*-._` are kept, a space becomes `+`, and every other byte becomes `%`
/// plus two uppercase hexadecimal digits.
#[verifier::external_body]
pub fn form_urlencode(input: &[u8]) -> (r: String)
    ensures
        r@ == form_encoded(input@),
{
    url::form_urlencoded::byte_serialize(input).collect()
}

/// Form-encodes the UTF-8 bytes of a string, as share-link fields are.
pub fn encode_component(s: &str) -> (r: String)
    ensures
        r@ == enc(s@),
{
    form_urlencode(s.as_bytes())
}

} // verus!
