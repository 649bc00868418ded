//! Public keys written in the URL-safe base64 alphabet.
use vstd::prelude::*;

use crate::crypto::{
    base64_decode, base64_encode_url_safe, base64_standard_encoding, decode_secret,
    is_private_key_text, public_key_text, secret_of, to_url_safe, x25519_derive_public,
    x25519_public_key,
};

verus! {

/// The URL-safe base64 text of the public key that belongs to a private key
/// text.
pub open spec fn url_safe_public_key_text(text: Seq<char>) -> Seq<char> {
    to_url_safe(base64_standard_encoding(x25519_public_key(secret_of(text))))
}

/// The URL-safe public key of a private key is its standard public key text
/// with `+` written as `-` and `/` as `_`.
pub proof fn lemma_url_safe_key_is_standard_key(text: Seq<char>)
    ensures
        url_safe_public_key_text(text) == to_url_safe(public_key_text(text)),
{
}

/// The URL-safe base64 text of the public key that belongs to the base64
/// private key `private_key`; a key shorter than 32 bytes is padded with
/// zeros.
pub fn get_public_key(private_key: &str) -> (res: String)
    requires
        is_private_key_text(private_key@),
    ensures
        res@ == url_safe_public_key_text(private_key@),
        res@.len() == 44,
{
    let bytes = decode_secret(private_key);
    let public = x25519_derive_public(bytes.as_slice());
    proof {
        crate::crypto::lemma_base64_len(public@);
    }
    base64_encode_url_safe(public.as_slice())
}

/// The URL-safe public key text that belongs to `private_key`, or `None`
/// where `private_key` is not valid base64 of at most 32 bytes.
pub fn try_get_public_key(private_key: &str) -> (res: Option<String>)
    ensures
        match res {
            Some(r) => is_private_key_text(private_key@) && r@ == url_safe_public_key_text(
                private_key@,
            ),
            None => !is_private_key_text(private_key@),
        },
{
    match base64_decode(private_key) {
        Some(d) => {
            if d.len() <= 32 {
                Some(get_public_key(private_key))
            } else {
                None
            }
        },
        None => None,
    }
}

} // verus!
