use rpc_shield::identity::{fingerprint, AuthError, ClientIdentity, HeaderValue};
use sha2::Digest;

fn ascii(v: &str) -> HeaderValue {
    HeaderValue::Ascii(v.to_string())
}

#[test]
fn test_api_key_from_bearer() {
    let auth = ascii("Bearer abc123");
    let ip = "127.0.0.1".to_string();

    let identity = ClientIdentity::from_request(Some(&auth), None, &ip).unwrap();
    assert_eq!(
        identity,
        ClientIdentity::ApiKey {
            raw: "abc123".to_string(),
            fingerprint: fingerprint("abc123")
        }
    );
}

#[test]
fn test_api_key_from_header() {
    let key = ascii("mykey456");
    let ip = "192.168.1.1".to_string();

    let identity = ClientIdentity::from_request(None, Some(&key), &ip).unwrap();
    assert_eq!(
        identity,
        ClientIdentity::ApiKey {
            raw: "mykey456".to_string(),
            fingerprint: fingerprint("mykey456")
        }
    );
}

#[test]
fn test_fallback_to_ip() {
    let ip = "10.0.0.5".to_string();

    let identity = ClientIdentity::from_request(None, None, &ip).unwrap();
    assert_eq!(identity, ClientIdentity::IpAddress("10.0.0.5".to_string()));
}

#[test]
fn test_invalid_auth_scheme() {
    let auth = ascii("Basic abc123");
    let ip = "127.0.0.1".to_string();

    let identity = ClientIdentity::from_request(Some(&auth), None, &ip);
    assert!(matches!(identity, Err(AuthError::InvalidScheme)));
}

#[test]
fn test_non_ascii_header_is_invalid_scheme() {
    let auth = HeaderValue::NonAscii;
    let ip = "127.0.0.1".to_string();
    let identity = ClientIdentity::from_request(Some(&auth), None, &ip);
    assert!(matches!(identity, Err(AuthError::InvalidScheme)));

    let key = HeaderValue::NonAscii;
    let identity = ClientIdentity::from_request(None, Some(&key), &ip);
    assert!(matches!(identity, Err(AuthError::InvalidScheme)));
}

#[test]
fn test_bearer_keeps_surrounding_whitespace() {
    let auth = ascii("Bearer  spaced ");
    let ip = "127.0.0.1".to_string();
    let identity = ClientIdentity::from_request(Some(&auth), None, &ip).unwrap();
    match identity {
        ClientIdentity::ApiKey { raw, .. } => assert_eq!(raw, " spaced "),
        _ => panic!("expected an api key identity"),
    }
}

#[test]
fn test_fingerprint_shape_and_digest() {
    let fp = fingerprint("abc123");
    assert_eq!(fp.len(), 19);
    assert!(fp.starts_with("fp_"));
    assert!(fp[3..]
        .chars()
        .all(|c| c.is_ascii_hexdigit() && !c.is_ascii_uppercase()));

    // The same first eight digest bytes, hex-encoded independently.
    let digest = sha2::Sha256::digest(b"abc123");
    let mut expect = "fp_".to_string();
    for b in digest.iter().take(8) {
        expect.push_str(&format!("{:02x}", b));
    }
    assert_eq!(fp, expect);
}

#[test]
fn test_fingerprint_known_value() {
    assert_eq!(fingerprint("abc123"), "fp_6ca13d52ca70c883");
}

#[test]
fn test_canonical_forms() {
    let ip = ClientIdentity::IpAddress("10.0.0.1".to_string());
    assert_eq!(ip.canonical(), "ip:10.0.0.1");

    let key = ClientIdentity::ApiKey {
        raw: "abc123".to_string(),
        fingerprint: fingerprint("abc123"),
    };
    assert_eq!(key.canonical(), "apikey:fp_6ca13d52ca70c883");
    assert_eq!(key.api_key_raw(), Some("abc123"));
    assert_eq!(ip.api_key_raw(), None);
}
