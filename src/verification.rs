//! Checking that a request comes from the chat platform: its timestamp must
//! be recent and its signature an HMAC-SHA256 of the timestamp and body under
//! the signing secret.
use vstd::prelude::*;
use vstd::string::*;
use vstd::utf8::encode_utf8;
use hmac::Mac;

verus! {

/// Failures of request verification.
#[derive(PartialEq, Eq, Structural, Clone, Copy, Debug)]
pub enum VerificationError {
    /// The request has no text body.
    NoBody,
    /// The signature header is absent.
    MissingSignature,
    /// The timestamp header is absent.
    MissingTimestamp,
    /// The timestamp is not a decimal number of seconds.
    InvalidTimestamp,
    /// The timestamp is more than five minutes before now.
    Stale,
    /// The signature does not match.
    SignatureMismatch,
}

/// How far in the past, in seconds, a request's timestamp may lie.
pub const MAX_REQUEST_AGE_SECS: u64 = 300;

/// The MAC that HMAC-SHA256 gives for `msg` under `key`.
pub uninterp spec fn hmac_sha256_of(key: Seq<u8>, msg: Seq<u8>) -> Seq<u8>;

/// Relies on hmac's Hmac<Sha256>: any key length is accepted, and the MAC
/// of a message is 32 bytes.
#[verifier::external_body]
fn hmac_sha256(key: &[u8], msg: &[u8]) -> (r: Option<Vec<u8>>)
    ensures
        r is Some,
        r->0@ == hmac_sha256_of(key@, msg@),
        r->0@.len() == 32,
{
    match hmac::Hmac::<sha2::Sha256>::new_from_slice(key) {
        Ok(m) => Some(m.chain_update(msg).finalize().into_bytes().to_vec()),
        Err(_) => None,
    }
}

/// The lower-case hexadecimal digit for `d < 16`.
pub open spec fn hex_digit(d: u8) -> char {
    if d < 10 {
        ((48 + d) as u8) as char
    } else {
        ((87 + d) as u8) as char
    }
}

/// Two lower-case hexadecimal digits for each byte, high half first.
pub open spec fn hex_lower(b: Seq<u8>) -> Seq<char>
    decreases b.len(),
{
    if b.len() == 0 {
        Seq::empty()
    } else {
        hex_lower(b.drop_last()) + seq![hex_digit(b.last() / 16), hex_digit(b.last() % 16)]
    }
}

/// Relies on hex::encode: two lower-case digits for each byte, in order.
#[verifier::external_body]
fn hex_encode(b: &[u8]) -> (r: String)
    ensures
        r@ == hex_lower(b@),
{
    hex::encode(b)
}

/// The value of a sequence of decimal digits.
pub open spec fn decimal_value(s: Seq<char>) -> int
    decreases s.len(),
{
    if s.len() == 0 {
        0
    } else {
        decimal_value(s.drop_last()) * 10 + (s.last() as int - 48)
    }
}

pub open spec fn all_decimal_digits(s: Seq<char>) -> bool {
    forall|i: int| 0 <= i < s.len() ==> '0' <= #[trigger] s[i] <= '9'
}

/// What parsing a `u64` gives: an optional `+`, then at least one decimal
/// digit and nothing else, with a value that fits.
pub open spec fn parsed_u64(s: Seq<char>) -> Option<u64> {
    let t = if s.len() > 0 && s[0] == '+' { s.drop_first() } else { s };
    if t.len() > 0 && all_decimal_digits(t) && decimal_value(t) <= u64::MAX {
        Some(decimal_value(t) as u64)
    } else {
        None
    }
}

/// Relies on `u64`'s `FromStr`: an optional `+` and decimal digits, whose
/// value must fit.
#[verifier::external_body]
fn parse_u64(s: &str) -> (r: Option<u64>)
    ensures
        r == parsed_u64(s@),
{
    s.parse::<u64>().ok()
}

/// The text that is signed: `v0:`, the timestamp, `:`, the body.
pub open spec fn base_string(timestamp: Seq<char>, body: Seq<char>) -> Seq<char> {
    "v0:"@ + timestamp + ":"@ + body
}

/// The signature expected for a request: `v0=` and the MAC in hexadecimal.
pub open spec fn expected_signature(secret: Seq<u8>, timestamp: Seq<char>, body: Seq<char>) -> Seq<char> {
    "v0="@ + hex_lower(hmac_sha256_of(secret, encode_utf8(base_string(timestamp, body))))
}

/// Whether `signature` is the one expected for this timestamp and body.
pub fn verify_signature(secret: &[u8], timestamp: &str, body: &str, signature: &str) -> (r: bool)
    ensures
        r == (signature@ == expected_signature(secret@, timestamp@, body@)),
{
    let mut base = String::from_str("v0:");
    base.append(timestamp);
    base.append(":");
    base.append(body);
    let mac = hmac_sha256(secret, base.as_str().as_bytes()).unwrap();
    let mut expected = String::from_str("v0=");
    let digits = hex_encode(mac.as_slice());
    expected.append(digits.as_str());
    let actual = String::from_str(signature);
    actual == expected
}

/// Whether a request stamped `timestamp` is too old at `now` (both in
/// seconds since the epoch).
pub open spec fn is_stale(timestamp: u64, now: u64) -> bool {
    now > timestamp && now - timestamp > MAX_REQUEST_AGE_SECS
}

/// Verifies a request from its text body, its signature and timestamp
/// headers, the signing secret, and the time now in seconds.
pub fn verify_slack_request(
    secret: &[u8],
    body: Option<&str>,
    signature: Option<&str>,
    timestamp: Option<&str>,
    now: u64,
) -> (r: Result<(), VerificationError>)
    ensures
        body is None ==> r == Err::<(), _>(VerificationError::NoBody),
        body is Some && signature is None ==> r == Err::<(), _>(VerificationError::MissingSignature),
        body is Some && signature is Some && timestamp is None ==> r == Err::<(), _>(
            VerificationError::MissingTimestamp,
        ),
        body is Some && signature is Some && timestamp is Some ==> r == (
        match parsed_u64(timestamp->0@) {
            None => Err(VerificationError::InvalidTimestamp),
            Some(t) => if is_stale(t, now) {
                Err(VerificationError::Stale)
            } else if signature->0@ == expected_signature(secret@, timestamp->0@, body->0@) {
                Ok(())
            } else {
                Err(VerificationError::SignatureMismatch)
            },
        }),
{
    let body = match body {
        Some(b) => b,
        None => return Err(VerificationError::NoBody),
    };
    let signature = match signature {
        Some(s) => s,
        None => return Err(VerificationError::MissingSignature),
    };
    let timestamp = match timestamp {
        Some(t) => t,
        None => return Err(VerificationError::MissingTimestamp),
    };
    let t = match parse_u64(timestamp) {
        Some(t) => t,
        None => return Err(VerificationError::InvalidTimestamp),
    };
    if now > t && now - t > MAX_REQUEST_AGE_SECS {
        return Err(VerificationError::Stale);
    }
    if verify_signature(secret, timestamp, body, signature) {
        Ok(())
    } else {
        Err(VerificationError::SignatureMismatch)
    }
}

} // verus!
