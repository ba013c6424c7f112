use conoha_acme::digits::{dec_to_u64, u64_to_dec};
use conoha_acme::token::{encode_token_cache, load_cached_token, parse_token_cache, ConohaToken};

#[test]
fn decimal_round_trip() {
    assert_eq!(u64_to_dec(0), "0");
    assert_eq!(u64_to_dec(60), "60");
    assert_eq!(u64_to_dec(18446744073709551615), "18446744073709551615");
    assert_eq!(dec_to_u64("0"), Some(0));
    assert_eq!(dec_to_u64("1893456000"), Some(1893456000));
    assert_eq!(dec_to_u64("18446744073709551615"), Some(18446744073709551615));
}

#[test]
fn decimal_rejects_non_canonical() {
    assert_eq!(dec_to_u64(""), None);
    assert_eq!(dec_to_u64("01"), None);
    assert_eq!(dec_to_u64("12a"), None);
    assert_eq!(dec_to_u64("-1"), None);
    assert_eq!(dec_to_u64("18446744073709551616"), None);
}

#[test]
fn token_cache_encoding_is_exact() {
    let t = ConohaToken { token_id: "abc".to_string(), expires: 123 };
    assert_eq!(encode_token_cache(&t), "123\nabc");
}

#[test]
fn token_cache_round_trip() {
    let t = ConohaToken { token_id: "secret-id\nwith-newline".to_string(), expires: 1893456000 };
    let encoded = encode_token_cache(&t);
    let back = parse_token_cache(&encoded).unwrap();
    assert_eq!(back.token_id, t.token_id);
    assert_eq!(back.expires, t.expires);
}

#[test]
fn token_cache_rejects_garbage() {
    assert!(parse_token_cache("").is_none());
    assert!(parse_token_cache("123").is_none());
    assert!(parse_token_cache("01\nabc").is_none());
    assert!(parse_token_cache("12a\nabc").is_none());
    assert!(parse_token_cache("\nabc").is_none());
}

#[test]
fn cache_load_respects_expiry() {
    let t = ConohaToken { token_id: "abc".to_string(), expires: 1000 };
    let encoded = encode_token_cache(&t);
    let hit = load_cached_token(&encoded, 999).unwrap();
    assert_eq!(hit.token_id, "abc");
    assert_eq!(hit.expires, 1000);
    assert!(load_cached_token(&encoded, 1000).is_none());
    assert!(load_cached_token(&encoded, 1001).is_none());
    assert!(load_cached_token("not a cache file", 0).is_none());
}
