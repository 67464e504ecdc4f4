use anchorbell_engine::execution::signing::{canonical_query, sign_query, signed_params, SigningError};
use anchorbell_engine::digest::{digest_hex, hmac_hex};
use anchorbell_engine::keyed::SortedMap;

fn map(pairs: &[(&str, &str)]) -> SortedMap<String> {
    let mut params = SortedMap::new();
    for (key, value) in pairs {
        params.insert(key.to_string(), value.to_string());
    }
    params
}

#[test]
fn sorts_parameters_before_signing() {
    let params = map(&[("symbol", "BTCUSDT"), ("side", "BUY"), ("type", "LIMIT")]);
    assert_eq!(canonical_query(&params), "side=BUY&symbol=BTCUSDT&type=LIMIT");
}

#[test]
fn matches_binance_hmac_example_shape() {
    let params = map(&[("symbol", "BTCUSDT"), ("side", "BUY")]);
    let signature = sign_query(&params, "secret").unwrap();
    assert_eq!(signature.len(), 64);
    assert!(signature.chars().all(|value| value.is_ascii_hexdigit()));
}

#[test]
fn rejects_empty_secret() {
    let params = SortedMap::new();
    assert_eq!(sign_query(&params, ""), Err(SigningError::EmptySecret));
}

#[test]
fn adds_authentication_fields_without_mutating_input() {
    let params = map(&[("symbol", "BTCUSDT")]);
    let signed = signed_params(params.clone(), "key", "secret", 100, 5000).unwrap();
    assert_eq!(params.len(), 1);
    assert_eq!(signed.get("apiKey"), Some(&"key".to_string()));
    assert_eq!(signed.get("timestamp"), Some(&"100".to_string()));
    assert_eq!(signed.get("recvWindow"), Some(&"5000".to_string()));
    assert_eq!(signed.get("signature").map(String::len), Some(64));
}

#[test]
fn matches_the_published_binance_signature() {
    // The worked example of Binance's signed-endpoint documentation.
    let params = map(&[
        ("symbol", "LTCBTC"),
        ("side", "BUY"),
        ("type", "LIMIT"),
        ("timeInForce", "GTC"),
        ("quantity", "1"),
        ("price", "0.1"),
        ("recvWindow", "5000"),
        ("timestamp", "1499827319559"),
    ]);
    let secret = "NhqPtmdSJYdKjVHjA7PZj4Mge3R5YNiP1e3UZjInClVN65XAbvqqM6A7H5fATj0j";
    assert_eq!(
        canonical_query(&params),
        "price=0.1&quantity=1&recvWindow=5000&side=BUY&symbol=LTCBTC&timeInForce=GTC&timestamp=1499827319559&type=LIMIT"
    );
    let documented = "symbol=LTCBTC&side=BUY&type=LIMIT&timeInForce=GTC&quantity=1&price=0.1&recvWindow=5000&timestamp=1499827319559";
    assert_eq!(
        hmac_hex(secret.as_bytes(), documented.as_bytes()),
        "c8db56825ae71d6d79447849e617115f4a920fa2acdcab2b053c4b2838bd6b71"
    );
    let signature = sign_query(&params, secret).unwrap();
    assert_eq!(signature, hmac_hex(secret.as_bytes(), canonical_query(&params).as_bytes()));
}

#[test]
fn signing_is_deterministic_and_keyed() {
    let params = map(&[("symbol", "BTCUSDT")]);
    let a = sign_query(&params, "secret").unwrap();
    let b = sign_query(&params, "secret").unwrap();
    let c = sign_query(&params, "other").unwrap();
    assert_eq!(a, b);
    assert_ne!(a, c);
}

#[test]
fn empty_parameters_have_an_empty_query() {
    assert_eq!(canonical_query(&SortedMap::new()), "");
    assert_eq!(signed_params(map(&[]), "key", "", 1, 2), Err(SigningError::EmptySecret));
}

#[test]
fn signed_parameters_replace_a_caller_timestamp() {
    let params = map(&[("timestamp", "1")]);
    let signed = signed_params(params, "k", "s", 7, 9).unwrap();
    assert_eq!(signed.get("timestamp"), Some(&"7".to_string()));
    assert_eq!(signed.len(), 4);
}

#[test]
fn digests_match_known_vectors() {
    assert_eq!(
        digest_hex(b"abc"),
        "ba7816bf8f01cfea414140de5dae2223b00361a396177a9cb410ff61f20015ad"
    );
    assert_eq!(
        hmac_hex(b"key", b"The quick brown fox jumps over the lazy dog"),
        "f7bc83f430538424b13298e6aa6fb143ef4d59a14946175997479dbc2d1a3cd8"
    );
}
