//! Percent-encoding of text for the signing of requests.
//!
//! Every byte of the text that is not plain enough is written as a percent
//! sign and the two hexadecimal digits of its value. Not plain enough are
//! the bytes that may not stand in the user information of an address, and the
//! ampersand.

use vstd::prelude::*;
use vstd::string::*;
use vstd::utf8::*;
use url::percent_encoding::{percent_encode_byte, EncodeSet, USERINFO_ENCODE_SET};
use crate::text::{digit_char, push_char};

verus! {

/// The character of the hexadecimal digit `digit`, in upper case.
pub open spec fn hex_char(digit: int) -> char
    recommends
        0 <= digit < 16,
{
    if digit < 10 {
        digit_char(digit)
    } else {
        ((digit + 55) as u8) as char
    }
}

/// The byte written as a percent sign and its two hexadecimal digits.
pub open spec fn escaped(byte: u8) -> Seq<char> {
    seq!['%', hex_char(byte as int / 16), hex_char(byte as int % 16)]
}

/// The bytes that may not stand in the user information of an address:
/// control characters, everything outside ASCII, the space, and
/// `"#<>` `` ` `` `?{}/:;=@[\]^|`.
pub open spec fn in_userinfo_set(byte: u8) -> bool {
    ||| byte < 0x20
    ||| byte > 0x7e
    ||| byte == 0x20
    ||| byte == 0x22
    ||| byte == 0x23
    ||| byte == 0x3c
    ||| byte == 0x3e
    ||| byte == 0x60
    ||| byte == 0x3f
    ||| byte == 0x7b
    ||| byte == 0x7d
    ||| byte == 0x2f
    ||| byte == 0x3a
    ||| byte == 0x3b
    ||| byte == 0x3d
    ||| byte == 0x40
    ||| byte == 0x5b
    ||| byte == 0x5c
    ||| byte == 0x5d
    ||| byte == 0x5e
    ||| byte == 0x7c
}

/// The bytes that are encoded: those of the user information set, and the
/// ampersand.
pub open spec fn in_encode_set(byte: u8) -> bool {
    in_userinfo_set(byte) || byte == 0x26
}

/// What one byte of the text becomes.
pub open spec fn encoded_byte(byte: u8) -> Seq<char> {
    if in_encode_set(byte) {
        escaped(byte)
    } else {
        seq![byte as char]
    }
}

/// What a run of bytes becomes: each byte in its turn.
pub open spec fn encoded_bytes(bytes: Seq<u8>) -> Seq<char>
    decreases bytes.len(),
{
    if bytes.len() == 0 {
        Seq::empty()
    } else {
        encoded_bytes(bytes.drop_last()) + encoded_byte(bytes.last())
    }
}

/// The text percent-encoded: the bytes of its UTF-8 form, each in its turn.
pub open spec fn percent_encoded(text: Seq<char>) -> Seq<char> {
    encoded_bytes(encode_utf8(text))
}

/// `percent_encode_byte` of the crate `url`: the byte as a percent sign and
/// its two hexadecimal digits in upper case, for every byte.
pub assume_specification[ url::percent_encoding::percent_encode_byte ](byte: u8) -> (text:
    &'static str)
    ensures
        text@ == escaped(byte),
;

/// `EncodeSet::contains` on `USERINFO_ENCODE_SET` of the crate `url`: whether
/// the byte belongs to the user information set.
#[verifier::external_body]
fn userinfo_set_contains(byte: u8) -> (inside: bool)
    ensures
        inside == in_userinfo_set(byte),
{
    USERINFO_ENCODE_SET.contains(byte)
}

/// Percent-encodes `text`.
pub fn percent_encode(text: &str) -> (encoded: String)
    ensures
        encoded@ == percent_encoded(text@),
{
    let bytes = text.as_bytes();
    let mut encoded = String::new();
    let mut i: usize = 0;
    while i < bytes.len()
        invariant
            i <= bytes.len(),
            encoded@ == encoded_bytes(bytes@.take(i as int)),
        decreases bytes.len() - i,
    {
        let byte = bytes[i];
        proof {
            assert(bytes@.take(i + 1).drop_last() =~= bytes@.take(i as int));
        }
        if userinfo_set_contains(byte) || byte == 0x26 {
            encoded.append(percent_encode_byte(byte));
        } else {
            push_char(&mut encoded, byte as char);
        }
        assert(encoded@ =~= encoded_bytes(bytes@.take(i + 1)));
        i += 1;
    }
    assert(bytes@.take(i as int) =~= bytes@);
    encoded
}

} // verus!
