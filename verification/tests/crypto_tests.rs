use base64::Engine;
use wg_conf::crypto::{generate_key_pair, get_public_key, key_pair_from_secret, try_get_public_key};

fn hex(s: &str) -> Vec<u8> {
    (0..s.len() / 2)
        .map(|i| u8::from_str_radix(&s[2 * i..2 * i + 2], 16).unwrap())
        .collect()
}

fn b64(bytes: &[u8]) -> String {
    base64::engine::general_purpose::STANDARD.encode(bytes)
}

#[test]
fn test_get_public_key() {
    let (priv_key, pub_key) = generate_key_pair();
    let pub_key_test = get_public_key(&priv_key);
    assert_eq!(pub_key, pub_key_test)
}

#[test]
fn public_key_of_known_secret() {
    // RFC 7748, section 6.1: Alice's key pair.
    let secret = hex("77076d0a7318a57d3c16c17251b26645df4c2f87ebc0992ab177fba51db92c2a");
    let public = hex("8520f0098930a754748b7ddcb43ef75a0dbf3a0d26381af4eba4a98eaa9b4e6a");
    assert_eq!(get_public_key(&b64(&secret)), b64(&public));
    let (priv_text, pub_text) = key_pair_from_secret(&secret);
    assert_eq!(priv_text, b64(&secret));
    assert_eq!(pub_text, b64(&public));
}

#[test]
fn short_keys_are_padded_with_zeros() {
    let short = vec![7u8; 20];
    let mut padded = short.clone();
    padded.resize(32, 0);
    assert_eq!(get_public_key(&b64(&short)), get_public_key(&b64(&padded)));
}

#[test]
fn invalid_private_keys_are_refused() {
    assert_eq!(try_get_public_key("not base64!"), None);
    assert_eq!(try_get_public_key(&b64(&[1u8; 33])), None);
    assert!(try_get_public_key(&b64(&[1u8; 32])).is_some());
}

#[test]
fn generated_keys_are_32_bytes() {
    let (priv_key, pub_key) = generate_key_pair();
    let engine = base64::engine::general_purpose::STANDARD;
    assert_eq!(engine.decode(priv_key).unwrap().len(), 32);
    assert_eq!(engine.decode(pub_key).unwrap().len(), 32);
}

#[test]
fn server_public_keys_use_the_url_safe_alphabet() {
    let secret = hex("77076d0a7318a57d3c16c17251b26645df4c2f87ebc0992ab177fba51db92c2a");
    let public = hex("8520f0098930a754748b7ddcb43ef75a0dbf3a0d26381af4eba4a98eaa9b4e6a");
    let url_safe = base64::engine::general_purpose::URL_SAFE.encode(&public);
    assert_eq!(url_safe, "hSDwCYkwp1R0i33ctD73Wg2_Og0mOBr066SpjqqbTmo=");
    let got = wg_conf::server::backend::crypto::get_public_key(&b64(&secret));
    assert_eq!(got, url_safe);
    assert_eq!(wg_conf::server::backend::crypto::try_get_public_key("!!"), None);
}

#[test]
fn key_texts_are_44_characters() {
    let (priv_key, pub_key) = generate_key_pair();
    assert_eq!(priv_key.len(), 44);
    assert_eq!(pub_key.len(), 44);
}

#[test]
fn url_safe_key_is_the_standard_key_with_two_characters_swapped() {
    for seed in 0u8..16 {
        let key = b64(&[seed.wrapping_mul(37); 32]);
        let standard = get_public_key(&key);
        let url_safe = wg_conf::server::backend::crypto::get_public_key(&key);
        assert_eq!(url_safe, standard.replace('+', "-").replace('/', "_"));
    }
}

#[test]
fn public_key_texts_are_44_characters() {
    let key = b64(&[3u8; 20]);
    let standard = get_public_key(&key);
    assert_eq!(standard.len(), 44);
    assert!(standard.ends_with('='));
    assert_eq!(wg_conf::server::backend::crypto::get_public_key(&key).len(), 44);
}
