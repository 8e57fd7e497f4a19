//! Percent-encoding of literal keypresses. A typed character is sent to the
//! device as `keypress/Lit_<encoded>`, where `<encoded>` is the
//! form-urlencoded text of the character's UTF-8 bytes.

use vstd::prelude::*;

verus! {

use vstd::string::StringExecFns;

/// True of the bytes that the form-urlencoded byte serializer keeps
/// unchanged: ASCII alphanumerics and `*`, `-`, `.`, `_`.
pub open spec fn keeps_byte(b: u8) -> bool {
    ||| b == 42  // '*'
    ||| b == 45  // '-'
    ||| b == 46  // '.'
    ||| b == 95  // '_'
    ||| 48 <= b <= 57  // '0'..='9'
    ||| 65 <= b <= 90  // 'A'..='Z'
    ||| 97 <= b <= 122  // 'a'..='z'
}

/// The uppercase hexadecimal digit of a value below sixteen.
pub open spec fn hex_digit(n: u8) -> char
    recommends
        n < 16,
{
    if n < 10 {
        (48 + n) as char  // '0'..='9'
    } else {
        (55 + n) as char  // 'A'..='F'
    }
}

/// The form-urlencoded text of one byte: kept bytes stand as themselves, a
/// space becomes `+`, and every other byte becomes `%` and two hex digits.
pub open spec fn encoded_byte(b: u8) -> Seq<char> {
    if keeps_byte(b) {
        seq![b as char]
    } else if b == 32 {
        seq!['+']
    } else {
        seq!['%', hex_digit(b / 16), hex_digit(b % 16)]
    }
}

/// The form-urlencoded text of a byte string, byte by byte.
pub open spec fn form_encoded(bs: Seq<u8>) -> Seq<char>
    decreases bs.len(),
{
    if bs.len() == 0 {
        Seq::empty()
    } else {
        encoded_byte(bs[0]) + form_encoded(bs.drop_first())
    }
}

/// The form-urlencoded text of one character's UTF-8 bytes.
pub open spec fn encoded_char(c: char) -> Seq<char> {
    form_encoded(vstd::utf8::encode_utf8(seq![c]))
}

/// Relies on `form_urlencoded::byte_serialize` (re-exported as
/// `url::form_urlencoded::byte_serialize`): every input byte that is an
/// ASCII alphanumeric or one of `*-._` is kept as itself, a space becomes
/// `+`, and any other byte becomes `%` followed by its two uppercase hex
/// digits. The input bytes are the character's UTF-8 encoding, which
/// `char::to_string` produces.
#[verifier::external_body]
pub(crate) fn encode_char(c: char) -> (r: String)
    ensures
        r@ == encoded_char(c),
{
    let s: String = c.to_string();
    url::form_urlencoded::byte_serialize(s.as_bytes()).collect()
}

/// The command path of one literal keypress: the character, percent-encoded.
pub open spec fn lit_path(c: char) -> Seq<char> {
    "keypress/Lit_"@ + encoded_char(c)
}

/// Builds the command path that sends one typed character to the device.
pub(crate) fn lit_command(c: char) -> (r: String)
    ensures
        r@ == lit_path(c),
{
    let mut s = "keypress/Lit_".to_owned();
    let encoded = encode_char(c);
    s.append(encoded.as_str());
    s
}

} // verus!
