//! The request signer: the four authentication header values of a private
//! call, from the credentials, the request and a timestamp.
use vstd::prelude::*;
use vstd::utf8::{decode_utf8, encode_utf8};
use crate::text::{decimal, decimal_string, lemma_decimal_injective};

verus! {

#[verifier::external_type_specification]
#[verifier::external_body]
pub struct ExDecodeError(base64::DecodeError);

/// The secrets of an API key. `api_secret` is base64 text. The type has no
/// `Debug`, so that the secrets are not printed by accident.
pub struct Credentials {
    pub api_key: String,
    pub api_secret: String,
    pub passphrase: String,
}

/// Values of the headers `CB-ACCESS-KEY`, `CB-ACCESS-SIGN`,
/// `CB-ACCESS-TIMESTAMP` and `CB-ACCESS-PASSPHRASE`. Like `Credentials`, it
/// has no `Debug`: it carries the passphrase.
pub struct AuthHeaders {
    pub key: String,
    pub signature: String,
    pub timestamp: String,
    pub passphrase: String,
}

#[derive(Clone, Copy, Debug, PartialEq, Eq, Structural)]
pub enum SignError {
    /// The API secret is not valid base64.
    Credential,
    /// The wall clock reads a time before the Unix epoch.
    Clock,
}

/// What base64's standard decoding makes of a text, if it accepts it.
pub uninterp spec fn base64_decoded(text: Seq<u8>) -> Option<Seq<u8>>;

/// The standard base64 text, with padding, of some bytes.
pub uninterp spec fn base64_encoded(bytes: Seq<u8>) -> Seq<char>;

/// The HMAC-SHA256 code of `message` under `key`.
pub uninterp spec fn hmac_sha256(key: Seq<u8>, message: Seq<u8>) -> Seq<u8>;

/// Relies on base64's `decode` (standard alphabet, padded).
#[verifier::external_body]
fn base64_decode(text: &[u8]) -> (r: Result<Vec<u8>, base64::DecodeError>)
    ensures
        r is Ok <==> base64_decoded(text@) is Some,
        r is Ok ==> base64_decoded(text@) == Some(r->Ok_0@),
{
    base64::decode(text)
}

/// Relies on base64's `encode` (standard alphabet, padded): four
/// characters for each started group of three bytes (`encoded_size`).
#[verifier::external_body]
fn base64_encode(bytes: &[u8]) -> (r: String)
    ensures
        r@ == base64_encoded(bytes@),
        r@.len() == 4 * ((bytes@.len() + 2) / 3),
{
    base64::encode(bytes)
}

/// Relies on rust-crypto's `Hmac::new` over `Sha256`, with `Mac::input` and
/// `Mac::result`, for the HMAC-SHA256 code of `message` under `key`: as many
/// bytes as the digest's output, 32 for SHA-256.
#[verifier::external_body]
fn hmac_sha256_code(key: &[u8], message: &[u8]) -> (r: Vec<u8>)
    ensures
        r@ == hmac_sha256(key@, message@),
        r@.len() == 32,
{
    let mut mac = crypto::hmac::Hmac::new(crypto::sha2::Sha256::new(), key);
    crypto::mac::Mac::input(&mut mac, message);
    crypto::mac::Mac::result(&mut mac).code().to_vec()
}

/// Relies on `SystemTime::now` and `SystemTime::duration_since`: whole
/// seconds since the Unix epoch, or `None` when the clock reads earlier.
#[verifier::external_body]
fn unix_time_seconds() -> (r: Option<u64>) {
    match std::time::SystemTime::now().duration_since(std::time::UNIX_EPOCH) {
        Ok(d) => Some(d.as_secs()),
        Err(_) => None,
    }
}

/// The text that is signed: timestamp, method, path and body, in that order.
pub open spec fn signing_message(
    timestamp: nat,
    method: Seq<char>,
    path: Seq<char>,
    body: Seq<char>,
) -> Seq<char> {
    decimal(timestamp) + method + path + body
}

/// The signature of `message` with the base64 secret `secret`, if the secret
/// decodes.
pub open spec fn signature_of(secret: Seq<char>, message: Seq<char>) -> Option<Seq<char>> {
    match base64_decoded(encode_utf8(secret)) {
        Some(key) => Some(base64_encoded(hmac_sha256(key, encode_utf8(message)))),
        None => None,
    }
}

/// The header values for a request signed at `timestamp`: key, signature,
/// timestamp and passphrase, if the secret decodes.
pub open spec fn header_values(
    c: Credentials,
    method: Seq<char>,
    path: Seq<char>,
    body: Seq<char>,
    timestamp: nat,
) -> Option<(Seq<char>, Seq<char>, Seq<char>, Seq<char>)> {
    match signature_of(c.api_secret@, signing_message(timestamp, method, path, body)) {
        Some(sig) => Some((c.api_key@, sig, decimal(timestamp), c.passphrase@)),
        None => None,
    }
}

proof fn lemma_cancel_suffix(a: Seq<char>, b: Seq<char>, x: Seq<char>)
    requires
        a + x == b + x,
    ensures
        a == b,
{
    assert(a =~= (a + x).subrange(0, a.len() as int));
    assert(b =~= (b + x).subrange(0, b.len() as int));
}

proof fn lemma_cancel_prefix(x: Seq<char>, a: Seq<char>, b: Seq<char>)
    requires
        x + a == x + b,
    ensures
        a == b,
{
    assert(a =~= (x + a).subrange(x.len() as int, (x + a).len() as int));
    assert(b =~= (x + b).subrange(x.len() as int, (x + b).len() as int));
}

/// Signing is a function of the credentials, the request and the timestamp:
/// equal inputs give equal header values. And it binds each part of the
/// request: with the rest fixed, another timestamp, method, path or body
/// gives another signed message, and another timestamp another timestamp
/// header.
pub proof fn lemma_signing_binds_request(
    c1: Credentials,
    c2: Credentials,
    method: Seq<char>,
    path: Seq<char>,
    body: Seq<char>,
    timestamp: nat,
)
    ensures
        c1.api_key@ == c2.api_key@ && c1.api_secret@ == c2.api_secret@ && c1.passphrase@
            == c2.passphrase@ ==> header_values(c1, method, path, body, timestamp)
            == header_values(c2, method, path, body, timestamp),
        forall|t: nat|
            t != timestamp ==> #[trigger] signing_message(t, method, path, body) != signing_message(
                timestamp,
                method,
                path,
                body,
            ),
        forall|t: nat| t != timestamp ==> #[trigger] decimal(t) != decimal(timestamp),
        forall|m: Seq<char>|
            m != method ==> #[trigger] signing_message(timestamp, m, path, body)
                != signing_message(timestamp, method, path, body),
        forall|p: Seq<char>|
            p != path ==> #[trigger] signing_message(timestamp, method, p, body)
                != signing_message(timestamp, method, path, body),
        forall|b: Seq<char>|
            b != body ==> #[trigger] signing_message(timestamp, method, path, b)
                != signing_message(timestamp, method, path, body),
{
    let d = decimal(timestamp);
    assert forall|t: nat| t != timestamp implies #[trigger] decimal(t) != decimal(timestamp) by {
        if decimal(t) == d {
            lemma_decimal_injective(t, timestamp);
        }
    }
    assert forall|t: nat| t != timestamp implies #[trigger] signing_message(t, method, path, body)
        != signing_message(timestamp, method, path, body) by {
        if signing_message(t, method, path, body) == signing_message(timestamp, method, path, body) {
            assert(decimal(t) + method + path + body =~= decimal(t) + (method + path + body));
            assert(d + method + path + body =~= d + (method + path + body));
            lemma_cancel_suffix(decimal(t), d, method + path + body);
            lemma_decimal_injective(t, timestamp);
        }
    }
    assert forall|m: Seq<char>| m != method implies #[trigger] signing_message(timestamp, m, path, body)
        != signing_message(timestamp, method, path, body) by {
        if signing_message(timestamp, m, path, body) == signing_message(timestamp, method, path, body) {
            assert(d + m + path + body =~= (d + m) + (path + body));
            assert(d + method + path + body =~= (d + method) + (path + body));
            lemma_cancel_suffix(d + m, d + method, path + body);
            lemma_cancel_prefix(d, m, method);
        }
    }
    assert forall|p: Seq<char>| p != path implies #[trigger] signing_message(timestamp, method, p, body)
        != signing_message(timestamp, method, path, body) by {
        if signing_message(timestamp, method, p, body) == signing_message(timestamp, method, path, body) {
            lemma_cancel_suffix(d + method + p, d + method + path, body);
            lemma_cancel_prefix(d + method, p, path);
        }
    }
    assert forall|b: Seq<char>| b != body implies #[trigger] signing_message(timestamp, method, path, b)
        != signing_message(timestamp, method, path, body) by {
        if signing_message(timestamp, method, path, b) == signing_message(timestamp, method, path, body) {
            lemma_cancel_prefix(d + method + path, b, body);
        }
    }
}

/// With the same credentials, two requests that differ in exactly one of
/// timestamp, method, path and body get different signatures, provided
/// HMAC-SHA256 under the key and base64 encoding give different results for
/// different inputs (collision resistance of the one, injectivity of the
/// other, which this library takes as hypotheses, not as facts).
pub proof fn lemma_signatures_differ(
    c: Credentials,
    method: Seq<char>,
    path: Seq<char>,
    body: Seq<char>,
    timestamp: nat,
    method2: Seq<char>,
    path2: Seq<char>,
    body2: Seq<char>,
    timestamp2: nat,
)
    requires
        base64_decoded(encode_utf8(c.api_secret@)) is Some,
        forall|m1: Seq<u8>, m2: Seq<u8>|
            m1 != m2 ==> #[trigger] hmac_sha256(base64_decoded(encode_utf8(c.api_secret@))->0, m1)
                != #[trigger] hmac_sha256(base64_decoded(encode_utf8(c.api_secret@))->0, m2),
        forall|b1: Seq<u8>, b2: Seq<u8>|
            b1 != b2 ==> #[trigger] base64_encoded(b1) != #[trigger] base64_encoded(b2),
        (timestamp != timestamp2 && method == method2 && path == path2 && body == body2) || (
        timestamp == timestamp2 && method != method2 && path == path2 && body == body2) || (
        timestamp == timestamp2 && method == method2 && path != path2 && body == body2) || (
        timestamp == timestamp2 && method == method2 && path == path2 && body != body2),
    ensures
        header_values(c, method, path, body, timestamp) matches Some(h1) && header_values(
            c,
            method2,
            path2,
            body2,
            timestamp2,
        ) matches Some(h2) && h1.1 != h2.1,
{
    lemma_signing_binds_request(c, c, method, path, body, timestamp);
    let m1 = signing_message(timestamp, method, path, body);
    let m2 = signing_message(timestamp2, method2, path2, body2);
    assert(m1 != m2);
    broadcast use vstd::utf8::encode_utf8_decode_utf8;
    assert(encode_utf8(m1) != encode_utf8(m2)) by {
        if encode_utf8(m1) == encode_utf8(m2) {
            assert(decode_utf8(encode_utf8(m1)) == m1);
            assert(decode_utf8(encode_utf8(m2)) == m2);
        }
    }
    let key = base64_decoded(encode_utf8(c.api_secret@))->0;
    assert(hmac_sha256(key, encode_utf8(m1)) != hmac_sha256(key, encode_utf8(m2)));
}

impl AuthHeaders {
    pub open spec fn values(&self) -> (Seq<char>, Seq<char>, Seq<char>, Seq<char>) {
        (self.key@, self.signature@, self.timestamp@, self.passphrase@)
    }
}

/// The message to sign for a request at `timestamp`.
pub fn build_signing_message(timestamp: u64, method: &str, path: &str, body: &str) -> (r: String)
    ensures
        r@ == signing_message(timestamp as nat, method@, path@, body@),
{
    let mut m = decimal_string(timestamp);
    m.push_str(method);
    m.push_str(path);
    m.push_str(body);
    m
}

/// Signs a request at `timestamp`: the signature is the base64 text of the
/// HMAC-SHA256 code of the signing message, keyed by the decoded secret.
pub fn sign(c: &Credentials, method: &str, path: &str, body: &str, timestamp: u64) -> (r: Result<
    AuthHeaders,
    SignError,
>)
    ensures
        r is Ok <==> header_values(*c, method@, path@, body@, timestamp as nat) is Some,
        r is Ok ==> header_values(*c, method@, path@, body@, timestamp as nat) == Some(
            r->Ok_0.values(),
        ),
        r is Ok ==> r->Ok_0.signature@.len() == 44,
        r is Err ==> r->Err_0 == SignError::Credential,
{
    let key = match base64_decode(c.api_secret.as_str().as_bytes()) {
        Ok(k) => k,
        Err(_) => return Err(SignError::Credential),
    };
    let message = build_signing_message(timestamp, method, path, body);
    let code = hmac_sha256_code(key.as_slice(), message.as_str().as_bytes());
    let signature = base64_encode(code.as_slice());
    assert(4 * ((32 + 2) / 3) == 44);
    Ok(
        AuthHeaders {
            key: c.api_key.clone(),
            signature,
            timestamp: decimal_string(timestamp),
            passphrase: c.passphrase.clone(),
        },
    )
}

/// Signs a request at the clock reading `now`, in whole seconds since the
/// Unix epoch; `None` is a clock that reads earlier than the epoch, and
/// then nothing is signed.
pub fn sign_at(c: &Credentials, request_path: &str, method: &str, body: &str, now: Option<u64>) -> (r:
    Result<AuthHeaders, SignError>)
    ensures
        now is None ==> r is Err && r->Err_0 == SignError::Clock,
        now matches Some(t) ==> {
            &&& r is Ok <==> header_values(*c, method@, request_path@, body@, t as nat) is Some
            &&& r is Ok ==> header_values(*c, method@, request_path@, body@, t as nat) == Some(
                r->Ok_0.values(),
            )
            &&& r is Ok ==> r->Ok_0.signature@.len() == 44
            &&& r is Err ==> r->Err_0 == SignError::Credential
        },
{
    match now {
        Some(t) => sign(c, method, request_path, body, t),
        None => Err(SignError::Clock),
    }
}

/// Signs a request at the current time of the wall clock.
pub fn build_request_headers(c: &Credentials, request_path: &str, method: &str, body: &str) -> (r:
    Result<AuthHeaders, SignError>)
    ensures
        r is Ok ==> exists|t: nat|
            header_values(*c, method@, request_path@, body@, t) == Some(r->Ok_0.values()),
        r is Ok ==> r->Ok_0.signature@.len() == 44,
        r is Err ==> r->Err_0 == SignError::Clock || forall|t: nat|
            #[trigger] header_values(*c, method@, request_path@, body@, t) is None,
{
    sign_at(c, request_path, method, body, unix_time_seconds())
}

} // verus!
