//! WireGuard key handling: private keys are 32 random bytes written in base64,
//! public keys are their X25519 images, written in base64 too.
use vstd::prelude::*;

use base64::Engine;
use rand_core::OsRng;
use x25519_dalek::{PublicKey, StaticSecret};

verus! {

/// The character of a 6-bit value in the standard base64 alphabet
/// `A-Z a-z 0-9 + /`.
pub open spec fn base64_char(v: int) -> char {
    if v < 26 {
        (('A' as int) + v) as char
    } else if v < 52 {
        (('a' as int) + v - 26) as char
    } else if v < 62 {
        (('0' as int) + v - 52) as char
    } else if v == 62 {
        '+'
    } else {
        '/'
    }
}

/// The standard base64 text of `bytes` (RFC 4648, with padding): every
/// three bytes become four characters of six bits each, and a last group
/// of one or two bytes is filled up with `=`.
pub open spec fn base64_standard_encoding(bytes: Seq<u8>) -> Seq<char>
    decreases bytes.len(),
{
    if bytes.len() == 0 {
        seq![]
    } else if bytes.len() == 1 {
        let b0 = bytes[0] as int;
        seq![base64_char(b0 / 4), base64_char((b0 % 4) * 16), '=', '=']
    } else if bytes.len() == 2 {
        let (b0, b1) = (bytes[0] as int, bytes[1] as int);
        seq![base64_char(b0 / 4), base64_char((b0 % 4) * 16 + b1 / 16), base64_char((b1 % 16) * 4), '=']
    } else {
        let (b0, b1, b2) = (bytes[0] as int, bytes[1] as int, bytes[2] as int);
        seq![
            base64_char(b0 / 4),
            base64_char((b0 % 4) * 16 + b1 / 16),
            base64_char((b1 % 16) * 4 + b2 / 64),
            base64_char(b2 % 64),
        ] + base64_standard_encoding(bytes.subrange(3, bytes.len() as int))
    }
}

/// What `base64::engine::general_purpose::STANDARD.decode` returns for the
/// UTF-8 bytes of `text`: `None` where it reports an error.
pub uninterp spec fn base64_standard_decoding(text: Seq<char>) -> Option<Seq<u8>>;

/// The bytes of the X25519 public key that `x25519_dalek::PublicKey::from`
/// computes for the static secret made of `secret`.
pub uninterp spec fn x25519_public_key(secret: Seq<u8>) -> Seq<u8>;

/// The length of padded base64 text for `n` bytes: four characters for
/// every three bytes or part of three.
pub open spec fn padded_base64_len(n: nat) -> nat {
    4 * ((n + 2) / 3)
}

/// Padded base64 text has four characters for every three bytes or part of
/// three.
pub proof fn lemma_base64_len(bytes: Seq<u8>)
    ensures
        base64_standard_encoding(bytes).len() == padded_base64_len(bytes.len()),
    decreases bytes.len(),
{
    if bytes.len() >= 3 {
        lemma_base64_len(bytes.subrange(3, bytes.len() as int));
    }
}

/// Base64 text in the URL-safe alphabet: the standard text with `+`
/// written as `-` and `/` as `_`.
pub open spec fn to_url_safe(text: Seq<char>) -> Seq<char> {
    text.map_values(
        |c: char|
            if c == '+' {
                '-'
            } else if c == '/' {
                '_'
            } else {
                c
            },
    )
}

/// Calls `base64::engine::general_purpose::STANDARD.encode`. Claimed: the
/// result is the standard padded base64 text of the input, and decoding it
/// with the same engine gives the input back (the engine writes canonical
/// padded text, which it accepts).
#[verifier::external_body]
pub(crate) fn base64_encode(bytes: &[u8]) -> (res: String)
    ensures
        res@ == base64_standard_encoding(bytes@),
        base64_standard_decoding(res@) == Some(bytes@),
{
    base64::engine::general_purpose::STANDARD.encode(bytes)
}

/// Calls `base64::engine::general_purpose::URL_SAFE.encode`. Claimed: the
/// result is the standard encoding of the input written in the URL-safe
/// alphabet. Both engines are the same general-purpose engine with padding;
/// their alphabets differ only in the last two characters, `+/` against
/// `-_`.
#[verifier::external_body]
pub(crate) fn base64_encode_url_safe(bytes: &[u8]) -> (res: String)
    ensures
        res@ == to_url_safe(base64_standard_encoding(bytes@)),
{
    base64::engine::general_purpose::URL_SAFE.encode(bytes)
}

/// Calls `base64::engine::general_purpose::STANDARD.decode` on the UTF-8
/// bytes of `text`. Claimed: `None` exactly where the named decoding is
/// `None`, else the named decoded bytes.
#[verifier::external_body]
pub(crate) fn base64_decode(text: &str) -> (res: Option<Vec<u8>>)
    ensures
        match res {
            Some(v) => base64_standard_decoding(text@) == Some(v@),
            None => base64_standard_decoding(text@) is None,
        },
{
    base64::engine::general_purpose::STANDARD.decode(text).ok()
}

/// Calls `x25519_dalek::PublicKey::from(&StaticSecret::from(secret))`.
/// Claimed: the result is the named public key of `secret`, 32 bytes long.
#[verifier::external_body]
pub(crate) fn x25519_derive_public(secret: &[u8]) -> (res: Vec<u8>)
    requires
        secret@.len() == 32,
    ensures
        res@ == x25519_public_key(secret@),
        res@.len() == 32,
{
    let bytes: [u8; 32] = secret.try_into().unwrap();
    PublicKey::from(&StaticSecret::from(bytes)).as_bytes().to_vec()
}

/// Calls `x25519_dalek::StaticSecret::random_from_rng(rand_core::OsRng)`
/// and takes its bytes. Claimed: 32 bytes; nothing is said of their values,
/// which come from the operating system's random source.
#[verifier::external_body]
pub(crate) fn random_secret() -> (res: Vec<u8>)
    ensures
        res@.len() == 32,
{
    StaticSecret::random_from_rng(OsRng).to_bytes().to_vec()
}

/// `bytes` followed by zeros up to 32 bytes.
pub open spec fn pad_secret(bytes: Seq<u8>) -> Seq<u8> {
    bytes + Seq::new((32 - bytes.len()) as nat, |i: int| 0u8)
}

/// Whether `text` is a private key that a public key can be derived from:
/// valid base64 of at most 32 bytes.
pub open spec fn is_private_key_text(text: Seq<char>) -> bool {
    &&& base64_standard_decoding(text) is Some
    &&& base64_standard_decoding(text).unwrap().len() <= 32
}

/// The secret bytes that a private key text stands for.
pub open spec fn secret_of(text: Seq<char>) -> Seq<u8> {
    pad_secret(base64_standard_decoding(text).unwrap())
}

/// The base64 text of the public key that belongs to a private key text.
pub open spec fn public_key_text(text: Seq<char>) -> Seq<char> {
    base64_standard_encoding(x25519_public_key(secret_of(text)))
}

/// The texts of the key pair whose secret is `secret`.
pub open spec fn key_pair_spec(secret: Seq<u8>) -> (Seq<char>, Seq<char>) {
    (base64_standard_encoding(secret), base64_standard_encoding(x25519_public_key(secret)))
}

/// The secret bytes of a private key text, padded with zeros to 32 bytes.
pub(crate) fn decode_secret(private_key: &str) -> (res: Vec<u8>)
    requires
        is_private_key_text(private_key@),
    ensures
        res@ == secret_of(private_key@),
        res@.len() == 32,
{
    let decoded = base64_decode(private_key);
    let mut bytes: Vec<u8> = Vec::new();
    match decoded {
        Some(d) => {
            let n = d.len();
            let mut i: usize = 0;
            while i < n
                invariant
                    n == d@.len(),
                    n <= 32,
                    i <= n,
                    bytes@ == d@.subrange(0, i as int),
                decreases n - i,
            {
                bytes.push(d[i]);
                i = i + 1;
            }
            let ghost prefix = bytes@;
            while bytes.len() < 32
                invariant
                    prefix == d@,
                    n <= bytes@.len() <= 32,
                    bytes@.subrange(0, n as int) == prefix,
                    forall|j: int| n <= j < bytes@.len() ==> bytes@[j] == 0u8,
                decreases 32 - bytes@.len(),
            {
                bytes.push(0u8);
            }
            assert(bytes@ =~= pad_secret(d@));
        },
        None => {},
    }
    bytes
}

/// The base64 text of the public key that belongs to the base64 private key
/// `private_key`; a key shorter than 32 bytes is padded with zeros.
pub fn get_public_key(private_key: &str) -> (res: String)
    requires
        is_private_key_text(private_key@),
    ensures
        res@ == public_key_text(private_key@),
        res@.len() == 44,
{
    let secret = decode_secret(private_key);
    let public = x25519_derive_public(secret.as_slice());
    proof {
        lemma_base64_len(public@);
    }
    base64_encode(public.as_slice())
}

/// The public key that belongs to `private_key`, or `None` where
/// `private_key` is not valid base64 of at most 32 bytes.
pub fn try_get_public_key(private_key: &str) -> (res: Option<String>)
    ensures
        match res {
            Some(r) => is_private_key_text(private_key@) && r@ == public_key_text(private_key@),
            None => !is_private_key_text(private_key@),
        },
{
    match base64_decode(private_key) {
        Some(d) => {
            if d.len() <= 32 {
                Some(get_public_key(private_key))
            } else {
                None
            }
        },
        None => None,
    }
}

/// The base64 texts of the private and the public key made of `secret`.
/// Each is 44 characters long and decodes to its 32 bytes, and the public
/// key derived from the private key text is the public key text.
pub fn key_pair_from_secret(secret: &[u8]) -> (res: (String, String))
    requires
        secret@.len() == 32,
    ensures
        (res.0@, res.1@) == key_pair_spec(secret@),
        base64_standard_decoding(res.0@) == Some(secret@),
        base64_standard_decoding(res.1@) == Some(x25519_public_key(secret@)),
        x25519_public_key(secret@).len() == 32,
        res.0@.len() == 44,
        res.1@.len() == 44,
        is_private_key_text(res.0@),
        public_key_text(res.0@) == res.1@,
{
    let private_key = base64_encode(secret);
    let public = x25519_derive_public(secret);
    let public_key = base64_encode(public.as_slice());
    proof {
        lemma_base64_len(secret@);
        lemma_base64_len(public@);
    }
    assert(pad_secret(secret@) =~= secret@);
    (private_key, public_key)
}

/// A fresh key pair: the base64 texts of a random secret and of its public
/// key. Each is 44 characters long and decodes to its 32 bytes, and the
/// public key derived from the private key text is the public key text.
pub fn generate_key_pair() -> (res: (String, String))
    ensures
        exists|secret: Seq<u8>|
            #![trigger key_pair_spec(secret)]
            {
                &&& secret.len() == 32
                &&& (res.0@, res.1@) == key_pair_spec(secret)
                &&& base64_standard_decoding(res.0@) == Some(secret)
                &&& base64_standard_decoding(res.1@) == Some(x25519_public_key(secret))
                &&& x25519_public_key(secret).len() == 32
            },
        res.0@.len() == 44,
        res.1@.len() == 44,
        is_private_key_text(res.0@),
        public_key_text(res.0@) == res.1@,
{
    let secret = random_secret();
    key_pair_from_secret(secret.as_slice())
}

} // verus!
