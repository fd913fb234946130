//! The signature of a request, and what goes into it with every request
//! anew: a random word and the time.

use vstd::prelude::*;
use vstd::utf8::*;
use crypto::hmac::Hmac;
use crypto::mac::Mac;
use crypto::sha1::Sha1;
use rand::distributions::Alphanumeric;
use rand::{thread_rng, Rng};
use std::time::{Duration, SystemTime, SystemTimeError};
use crate::text::push_char;

verus! {

/// The HMAC-SHA1 code of `message` under `key`.
pub uninterp spec fn hmac_sha1_code(key: Seq<u8>, message: Seq<u8>) -> Seq<u8>;

/// The character that stands for the six bits `value` in base 64: the upper
/// case letters, the lower case letters, the digits, `+` and `/`.
pub open spec fn base64_char(value: int) -> char
    recommends
        0 <= value < 64,
{
    if value < 26 {
        ((value + 65) as u8) as char
    } else if value < 52 {
        ((value + 71) as u8) as char
    } else if value < 62 {
        ((value - 4) as u8) as char
    } else if value == 62 {
        '+'
    } else {
        '/'
    }
}

/// The bytes written in base 64, with the standard alphabet and padding:
/// four characters for every three bytes, and `=` where the last three are
/// not full.
pub open spec fn base64_text(bytes: Seq<u8>) -> Seq<char>
    decreases bytes.len(),
{
    if bytes.len() == 0 {
        Seq::empty()
    } else if bytes.len() == 1 {
        seq![base64_char(bytes[0] as int / 4), base64_char(bytes[0] as int % 4 * 16), '=', '=']
    } else if bytes.len() == 2 {
        seq![
            base64_char(bytes[0] as int / 4),
            base64_char(bytes[0] as int % 4 * 16 + bytes[1] as int / 16),
            base64_char(bytes[1] as int % 16 * 4),
            '=',
        ]
    } else {
        seq![
            base64_char(bytes[0] as int / 4),
            base64_char(bytes[0] as int % 4 * 16 + bytes[1] as int / 16),
            base64_char(bytes[1] as int % 16 * 4 + bytes[2] as int / 64),
            base64_char(bytes[2] as int % 64),
        ] + base64_text(bytes.skip(3))
    }
}

/// The number of bytes from which a key is too long to be signed with.
pub const KEY_LIMIT: u64 = 0x2000_0000_0000_0000;

/// The number of bytes from which a message is too long to be signed.
pub const MESSAGE_LIMIT: u64 = 0x1fff_ffff_ffff_ffc0;

/// The number of characters of the random word of a request.
pub const NONCE_LENGTH: usize = 10;

/// The character is a letter or a digit of ASCII.
pub open spec fn is_alphanumeric(c: char) -> bool {
    ('A' <= c <= 'Z') || ('a' <= c <= 'z') || ('0' <= c <= '9')
}

/// The text is a random word of a request: ten letters and digits.
pub open spec fn is_nonce(word: Seq<char>) -> bool {
    word.len() == NONCE_LENGTH && forall|i: int|
        0 <= i < word.len() ==> is_alphanumeric(#[trigger] word[i])
}

/// A key and a message are short enough to be signed.
pub open spec fn can_sign(key: Seq<char>, message: Seq<char>) -> bool {
    encode_utf8(key).len() < KEY_LIMIT && encode_utf8(message).len() < MESSAGE_LIMIT
}

/// The signature of `message` under `key`: the HMAC-SHA1 code of their bytes,
/// written in base 64.
pub open spec fn signature(key: Seq<char>, message: Seq<char>) -> Seq<char> {
    base64_text(hmac_sha1_code(encode_utf8(key), encode_utf8(message)))
}

/// `Hmac::new` with `Sha1::new()`, `Mac::input` and `Mac::result` of the
/// crate `rust-crypto`: the code of the message under the key, which has
/// twenty bytes. The digest counts its input in bits in a `u64` and gives up
/// where that count overflows: on a key of 2^61 bytes, which it digests where
/// the key has more than 64, and on a message that reaches 2^61 bytes together
/// with the 64 of the padded key.
#[verifier::external_body]
fn hmac_sha1(key: &[u8], message: &[u8]) -> (code: Vec<u8>)
    requires
        key@.len() < KEY_LIMIT,
        message@.len() < MESSAGE_LIMIT,
    ensures
        code@ == hmac_sha1_code(key@, message@),
        code@.len() == 20,
{
    let mut mac = Hmac::new(Sha1::new(), key);
    mac.input(message);
    mac.result().code().to_vec()
}

/// `encode` of the crate `base64`: the bytes in base 64, with the standard
/// alphabet and padding. It gives up where the length of the text, four
/// characters for every three bytes, does not fit a `usize`.
#[verifier::external_body]
fn base64_encode(bytes: &[u8]) -> (text: String)
    requires
        bytes@.len() <= 0x3000_0000,
    ensures
        text@ == base64_text(bytes@),
{
    base64::encode(bytes)
}

/// `Rng::sample` of `Alphanumeric` on `thread_rng()` of the crate `rand`: a
/// letter or a digit of ASCII, chosen at random.
#[verifier::external_body]
fn random_alphanumeric() -> (c: char)
    ensures
        is_alphanumeric(c),
{
    thread_rng().sample(Alphanumeric)
}

/// `SystemTime` of std: a moment of the system's clock. Nothing is known of
/// what it holds.
#[verifier::external_type_specification]
#[verifier::external_body]
pub struct ExSystemTime(SystemTime);

/// `SystemTimeError` of std: what `SystemTime::duration_since` reports where
/// the second moment is the later one. Nothing is known of what it holds.
#[verifier::external_type_specification]
#[verifier::external_body]
pub struct ExSystemTimeError(SystemTimeError);

/// `SystemTime::now` of std: the time of the system's clock at this moment.
pub assume_specification[ SystemTime::now ]() -> (now: SystemTime);

/// `UNIX_EPOCH` of std: the moment from which the time is counted.
#[verifier::external_body]
fn unix_epoch() -> (epoch: SystemTime) {
    std::time::UNIX_EPOCH
}

/// `SystemTime::duration_since` of std: the time that has passed between the
/// two moments, or an error where the second is the later.
pub assume_specification[ SystemTime::duration_since ](
    time: &SystemTime,
    earlier: SystemTime,
) -> (elapsed: Result<Duration, SystemTimeError>);

/// `Duration::as_secs` of std: the whole seconds of the duration.
pub assume_specification[ Duration::as_secs ](duration: &Duration) -> (seconds: u64);

/// Signs `message` under `key`, where both are short enough.
pub fn sign(key: &str, message: &str) -> (signed: Option<String>)
    ensures
        match signed {
            Some(text) => can_sign(key@, message@) && text@ == signature(key@, message@),
            None => !can_sign(key@, message@),
        },
{
    let key_bytes = key.as_bytes();
    let message_bytes = message.as_bytes();
    if (key_bytes.len() as u64) < KEY_LIMIT && (message_bytes.len() as u64) < MESSAGE_LIMIT {
        let code = hmac_sha1(key_bytes, message_bytes);
        Some(base64_encode(code.as_slice()))
    } else {
        None
    }
}

/// A random word of ten letters and digits.
pub fn nonce() -> (word: String)
    ensures
        is_nonce(word@),
{
    let mut word = String::new();
    let mut i: usize = 0;
    while i < NONCE_LENGTH
        invariant
            i <= NONCE_LENGTH,
            word@.len() == i,
            forall|k: int| 0 <= k < word@.len() ==> is_alphanumeric(#[trigger] word@[k]),
        decreases NONCE_LENGTH - i,
    {
        push_char(&mut word, random_alphanumeric());
        i += 1;
    }
    word
}

/// The seconds that have passed since the start of 1970, or zero where the
/// system's clock stands before that.
pub(crate) fn unix_time() -> u64 {
    let counted = match SystemTime::now().duration_since(unix_epoch()) {
        Ok(elapsed) => Some(elapsed.as_secs()),
        Err(_) => None,
    };
    timestamp_of(counted)
}

/// The time that a request is stamped with: the seconds that the clock has
/// counted since the start of 1970, or zero where it stands before that and
/// has counted none.
pub fn timestamp_of(counted: Option<u64>) -> (seconds: u64)
    ensures
        seconds == match counted {
            Some(counted) => counted,
            None => 0,
        },
{
    match counted {
        Some(counted) => counted,
        None => 0,
    }
}

} // verus!
