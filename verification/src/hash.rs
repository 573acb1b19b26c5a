//! Keyed hashes of text, written as upper-case hexadecimal.

use crate::text::push_char;
use hmac::{Hmac, Mac};
use sha1::Sha1;
use sha2::{Sha256, Sha512};
use vstd::prelude::*;
use vstd::string::*;
use vstd::utf8::*;

verus! {

/// Defines the hash algorithm to use for hashing
#[derive(Copy, Clone, Debug, PartialEq, Eq)]
pub enum HashAlgorithm {
    /// HMAC-SHA1
    HmacSha1,
    /// HMAC-SHA256
    HmacSha256,
    /// HMAC-SHA512
    HmacSha512,
}

impl Default for HashAlgorithm {
    fn default() -> (r: HashAlgorithm)
        ensures
            r == HashAlgorithm::HmacSha256,
    {
        HashAlgorithm::HmacSha256
    }
}

/// The code that `Hmac<Sha1>` gives `data` under `key`.
pub uninterp spec fn hmac_sha1(key: Seq<u8>, data: Seq<u8>) -> Seq<u8>;

/// The code that `Hmac<Sha256>` gives `data` under `key`.
pub uninterp spec fn hmac_sha256(key: Seq<u8>, data: Seq<u8>) -> Seq<u8>;

/// The code that `Hmac<Sha512>` gives `data` under `key`.
pub uninterp spec fn hmac_sha512(key: Seq<u8>, data: Seq<u8>) -> Seq<u8>;

/// Calls `Hmac::<Sha1>`: keys it with `key` (`new_from_slice`, which takes a
/// key of any length), feeds it `data` (`update`) and returns the bytes of the
/// code (`finalize`). The code is a function of the key and the data alone.
#[verifier::external_body]
fn hmac_sha1_code(key: &[u8], data: &[u8]) -> (r: Vec<u8>)
    ensures
        r@ == hmac_sha1(key@, data@),
{
    let mut mac = Hmac::<Sha1>::new_from_slice(key).expect("HMAC takes a key of any length");
    mac.update(data);
    mac.finalize().into_bytes().to_vec()
}

/// Calls `Hmac::<Sha256>`: keys it with `key` (`new_from_slice`, which takes
/// a key of any length), feeds it `data` (`update`) and returns the bytes of
/// the code (`finalize`). The code is a function of the key and the data
/// alone.
#[verifier::external_body]
fn hmac_sha256_code(key: &[u8], data: &[u8]) -> (r: Vec<u8>)
    ensures
        r@ == hmac_sha256(key@, data@),
{
    let mut mac = Hmac::<Sha256>::new_from_slice(key).expect("HMAC takes a key of any length");
    mac.update(data);
    mac.finalize().into_bytes().to_vec()
}

/// Calls `Hmac::<Sha512>`: keys it with `key` (`new_from_slice`, which takes
/// a key of any length), feeds it `data` (`update`) and returns the bytes of
/// the code (`finalize`). The code is a function of the key and the data
/// alone.
#[verifier::external_body]
fn hmac_sha512_code(key: &[u8], data: &[u8]) -> (r: Vec<u8>)
    ensures
        r@ == hmac_sha512(key@, data@),
{
    let mut mac = Hmac::<Sha512>::new_from_slice(key).expect("HMAC takes a key of any length");
    mac.update(data);
    mac.finalize().into_bytes().to_vec()
}

/// The upper-case hexadecimal digit of a number below 16.
pub open spec fn hex_digit(n: int) -> char {
    if n == 0 {
        '0'
    } else if n == 1 {
        '1'
    } else if n == 2 {
        '2'
    } else if n == 3 {
        '3'
    } else if n == 4 {
        '4'
    } else if n == 5 {
        '5'
    } else if n == 6 {
        '6'
    } else if n == 7 {
        '7'
    } else if n == 8 {
        '8'
    } else if n == 9 {
        '9'
    } else if n == 10 {
        'A'
    } else if n == 11 {
        'B'
    } else if n == 12 {
        'C'
    } else if n == 13 {
        'D'
    } else if n == 14 {
        'E'
    } else {
        'F'
    }
}

/// The bytes written as upper-case hexadecimal, two digits for each byte, the
/// high half first, without separators.
pub open spec fn upper_hex(bytes: Seq<u8>) -> Seq<char> {
    Seq::new(
        2 * bytes.len(),
        |i: int|
            if i % 2 == 0 {
                hex_digit(bytes[i / 2] as int / 16)
            } else {
                hex_digit(bytes[i / 2] as int % 16)
            },
    )
}

fn hex_char(n: u8) -> (c: char)
    requires
        n < 16,
    ensures
        c == hex_digit(n as int),
{
    match n {
        0 => '0',
        1 => '1',
        2 => '2',
        3 => '3',
        4 => '4',
        5 => '5',
        6 => '6',
        7 => '7',
        8 => '8',
        9 => '9',
        10 => 'A',
        11 => 'B',
        12 => 'C',
        13 => 'D',
        14 => 'E',
        _ => 'F',
    }
}

/// Writes bytes as upper-case hexadecimal.
pub fn to_upper_hex(bytes: &[u8]) -> (r: String)
    ensures
        r@ == upper_hex(bytes@),
{
    let mut out = String::new();
    let mut i: usize = 0;
    while i < bytes.len()
        invariant
            i <= bytes.len(),
            out@ == upper_hex(bytes@.take(i as int)),
        decreases bytes.len() - i,
    {
        let b = bytes[i];
        let ghost before = out@;
        push_char(&mut out, hex_char(b / 16));
        push_char(&mut out, hex_char(b % 16));
        assert(out@ =~= upper_hex(bytes@.take(i + 1))) by {
            assert(before == upper_hex(bytes@.take(i as int)));
            assert forall|k: int| 0 <= k < 2 * (i + 1) implies out@[k] == upper_hex(
                bytes@.take(i + 1),
            )[k] by {
                if k < 2 * i {
                    assert(out@[k] == before[k]);
                    assert(bytes@.take(i as int)[k / 2] == bytes@.take(i + 1)[k / 2]);
                }
            }
        }
        i += 1;
    }
    assert(bytes@.take(i as int) =~= bytes@);
    out
}

impl HashAlgorithm {
    /// The code that this algorithm gives `data` under `key`.
    pub open spec fn code(self, key: Seq<u8>, data: Seq<u8>) -> Seq<u8> {
        match self {
            HashAlgorithm::HmacSha1 => hmac_sha1(key, data),
            HashAlgorithm::HmacSha256 => hmac_sha256(key, data),
            HashAlgorithm::HmacSha512 => hmac_sha512(key, data),
        }
    }

    /// The hash of `text` under `key` as it stands in a redacted string: the
    /// code of the UTF-8 bytes of the text in upper-case hexadecimal.
    pub open spec fn hashed(self, text: Seq<char>, key: Seq<char>) -> Seq<char> {
        upper_hex(self.code(encode_utf8(key), encode_utf8(text)))
    }

    /// Hashes `text` with `key`.
    pub fn hash_value(&self, text: &str, key: &str) -> (r: String)
        ensures
            r@ == self.hashed(text@, key@),
    {
        let code = match self {
            HashAlgorithm::HmacSha1 => hmac_sha1_code(key.as_bytes(), text.as_bytes()),
            HashAlgorithm::HmacSha256 => hmac_sha256_code(key.as_bytes(), text.as_bytes()),
            HashAlgorithm::HmacSha512 => hmac_sha512_code(key.as_bytes(), text.as_bytes()),
        };
        to_upper_hex(code.as_slice())
    }
}

} // verus!
