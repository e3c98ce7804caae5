use hodl::signer::{build_request_headers, build_signing_message, sign, sign_at, Credentials, SignError};
use hodl::text::decimal_string;

fn creds() -> Credentials {
    Credentials {
        api_key: "my-key".to_string(),
        api_secret: "c2VjcmV0LWtleQ==".to_string(),
        passphrase: "my-pass".to_string(),
    }
}

#[test]
fn signing_message_concatenates_parts() {
    assert_eq!(build_signing_message(1577836800, "GET", "/accounts", ""), "1577836800GET/accounts");
    assert_eq!(
        build_signing_message(7, "POST", "/orders", "{\"funds\":10}"),
        "7POST/orders{\"funds\":10}"
    );
}

#[test]
fn decimal_text() {
    assert_eq!(decimal_string(0), "0");
    assert_eq!(decimal_string(1577836800), "1577836800");
    assert_eq!(decimal_string(u64::MAX), "18446744073709551615");
}

#[test]
fn sign_gives_hmac_sha256_in_base64() {
    let h = sign(&creds(), "GET", "/accounts", "", 1577836800).unwrap();
    assert_eq!(h.key, "my-key");
    assert_eq!(h.signature, "Ux2YeBPLWZdit6m9gImz0d//dWb8UmqOSOeN1moRVbc=");
    assert_eq!(h.timestamp, "1577836800");
    assert_eq!(h.passphrase, "my-pass");
    let p = sign(&creds(), "POST", "/orders", "{\"funds\":10}", 1577836800).unwrap();
    assert_eq!(p.signature, "06Xq87Vw/ZZtXwiWtGoKz8zBLXTVqx/1QqDfUIOclOE=");
}

#[test]
fn sign_is_deterministic_and_bound_to_timestamp() {
    let a = sign(&creds(), "GET", "/accounts", "", 1577836800).unwrap();
    let b = sign(&creds(), "GET", "/accounts", "", 1577836800).unwrap();
    assert_eq!(a.signature, b.signature);
    assert_eq!(a.timestamp, b.timestamp);
    let c = sign(&creds(), "GET", "/accounts", "", 1577836801).unwrap();
    assert_eq!(c.signature, "s3ITSXmSJ6QHULV/dFRE6JO4w3hr2z78hbFOr41kfL0=");
    assert_ne!(a.signature, c.signature);
    let d = sign(&creds(), "GET", "/accounts?x", "", 1577836800).unwrap();
    assert_ne!(a.signature, d.signature);
    let e = sign(&creds(), "GET", "/accounts", " ", 1577836800).unwrap();
    assert_ne!(a.signature, e.signature);
}

#[test]
fn sign_rejects_secret_that_is_not_base64() {
    let mut c = creds();
    c.api_secret = "not base64!".to_string();
    assert_eq!(sign(&c, "GET", "/accounts", "", 1).err(), Some(SignError::Credential));
}

#[test]
fn headers_at_current_time() {
    let h = build_request_headers(&creds(), "/accounts", "GET", "").unwrap();
    assert!(!h.timestamp.is_empty());
    assert!(h.timestamp.chars().all(|c| c.is_ascii_digit()));
    let t: u64 = h.timestamp.parse().unwrap();
    assert!(t > 1577836800);
    let again = sign(&creds(), "GET", "/accounts", "", t).unwrap();
    assert_eq!(again.signature, h.signature);
}

#[test]
fn clock_before_epoch_signs_nothing() {
    assert_eq!(sign_at(&creds(), "/accounts", "GET", "", None).err(), Some(SignError::Clock));
    let h = sign_at(&creds(), "/accounts", "GET", "", Some(1577836800)).unwrap();
    assert_eq!(h.signature, "Ux2YeBPLWZdit6m9gImz0d//dWb8UmqOSOeN1moRVbc=");
    assert_eq!(h.signature.len(), 44);
}
