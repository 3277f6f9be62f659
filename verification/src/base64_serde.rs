//! The text form of fixed-size byte values: URL-safe base64 without padding.

use vstd::prelude::*;
use vstd::string::StringSliceAdditionalSpecFns;

verus! {

/// The URL-safe base64 text, without padding, of the bytes.
pub uninterp spec fn base64_url_encode(bytes: Seq<u8>) -> Seq<char>;

/// The bytes that URL-safe base64 text without padding stands for, if it is
/// such text.
pub uninterp spec fn base64_url_decode(text: Seq<char>) -> Option<Seq<u8>>;

/// Text that is not the base64 of a value of the expected size.
#[derive(Clone, Copy, Debug)]
pub struct InvalidBase64;

/// Calls `base64::encode_config` with `base64::URL_SAFE_NO_PAD`. Trusted: the
/// result is the URL-safe base64 text of the bytes, without padding.
#[verifier::external_body]
fn encode_url_safe(value: &[u8]) -> (text: String)
    requires
        value@.len() <= 0x3fff_ffff,
    ensures
        text@ == base64_url_encode(value@),
{
    base64::encode_config(value, base64::URL_SAFE_NO_PAD)
}

/// Calls `base64::decode_config` with `base64::URL_SAFE_NO_PAD`. Trusted: the
/// result is the bytes that the text stands for, or nothing where the text is
/// not URL-safe base64 without padding.
#[verifier::external_body]
fn decode_url_safe(text: &str) -> (decoded: Option<Vec<u8>>)
    requires
        text.spec_bytes().len() <= 0x3fff_ffff,
    ensures
        match decoded {
            Some(bytes) => base64_url_decode(text@) == Some(bytes@),
            None => base64_url_decode(text@) is None,
        },
{
    base64::decode_config(text, base64::URL_SAFE_NO_PAD).ok()
}

/// The number of base64 characters that `length` bytes take, without
/// padding.
pub open spec fn encoded_length(length: nat) -> nat {
    (length * 4 + 2) / 3
}

/// What decoded bytes are as a value of `length` bytes: themselves if there
/// are exactly `length` of them.
pub open spec fn sized(decoded: Option<Seq<u8>>, length: nat) -> Option<Seq<u8>> {
    match decoded {
        Some(bytes) => if bytes.len() == length {
            Some(bytes)
        } else {
            None
        },
        None => None,
    }
}

/// The longest text that is read, in bytes.
pub const MAX_TEXT_LENGTH: usize = 0x3fff_ffff;

/// What text of `text_length` bytes is as a value of `length` bytes: the
/// bytes it stands for, if it has the length that base64 of so many bytes
/// has, is not longer than `MAX_TEXT_LENGTH`, and stands for exactly so many
/// bytes.
pub open spec fn deserialized(text: Seq<char>, text_length: nat, length: nat) -> Option<Seq<u8>> {
    if text_length == encoded_length(length) && text_length <= MAX_TEXT_LENGTH {
        sized(base64_url_decode(text), length)
    } else {
        None
    }
}

/// The text form of the bytes.
pub fn serialize(value: &[u8]) -> (text: String)
    requires
        value@.len() <= 0x3fff_ffff,
    ensures
        text@ == base64_url_encode(value@),
{
    encode_url_safe(value)
}

/// Takes decoded bytes for a value of `N` bytes if there are exactly `N`.
pub fn into_array<const N: usize>(decoded: Option<Vec<u8>>) -> (result: Result<
    [u8; N],
    InvalidBase64,
>)
    ensures
        match result {
            Ok(value) => decoded matches Some(bytes) && sized(Some(bytes@), N as nat) == Some(
                value@,
            ),
            Err(_) => !(decoded matches Some(bytes) && bytes@.len() == N),
        },
{
    let bytes = match decoded {
        Some(bytes) => bytes,
        None => {
            return Err(InvalidBase64);
        },
    };
    if bytes.len() != N {
        return Err(InvalidBase64);
    }
    let mut value = [0u8;N];
    let mut i: usize = 0;
    while i < N
        invariant
            i <= N,
            bytes@.len() == N,
            forall|j: int| 0 <= j < i ==> value@[j] == bytes@[j],
        decreases N - i,
    {
        value[i] = bytes[i];
        i += 1;
    }
    assert(value@ =~= bytes@);
    Ok(value)
}

/// Reads a value of `N` bytes from its text form. The text must have the
/// length that base64 of `N` bytes has, be no longer than `MAX_TEXT_LENGTH`,
/// and stand for exactly `N` bytes.
pub fn deserialize<const N: usize>(s: &str) -> (result: Result<[u8; N], InvalidBase64>)
    ensures
        match result {
            Ok(value) => deserialized(s@, s.spec_bytes().len(), N as nat) == Some(value@),
            Err(_) => deserialized(s@, s.spec_bytes().len(), N as nat) is None,
        },
{
    let length = s.as_bytes().len();
    let expected: u128 = (N as u128 * 4 + 2) / 3;
    if expected != length as u128 || length > MAX_TEXT_LENGTH {
        return Err(InvalidBase64);
    }
    into_array::<N>(decode_url_safe(s))
}

} // verus!
