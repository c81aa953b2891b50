use vstd::prelude::*;
use vstd::string::*;
use vstd::utf8::encode_utf8;

use base64::Engine;
use hmac::{Hmac, Mac};
use sha2::Sha256;

use crate::text::{decimal, push_decimal};

verus! {

/// The HMAC-SHA256 tag of `msg` under `key`.
pub uninterp spec fn hmac_sha256_of(key: Seq<u8>, msg: Seq<u8>) -> Seq<u8>;

/// The standard, padded base64 text of `bytes`.
pub uninterp spec fn base64_of(bytes: Seq<u8>) -> Seq<char>;

/// The JSON string literal, quotes and escapes included, that holds `s`.
pub uninterp spec fn json_string_of(s: Seq<char>) -> Seq<char>;

/// Relies on hmac's `Hmac<Sha256>`: `new_from_slice` accepts a key of any
/// length, and the finalized tag is the 32-byte HMAC-SHA256 of the message.
#[verifier::external_body]
fn hmac_sha256(key: &[u8], msg: &[u8]) -> (r: Vec<u8>)
    ensures
        r@ == hmac_sha256_of(key@, msg@),
        r@.len() == 32,
{
    match Hmac::<Sha256>::new_from_slice(key) {
        Ok(mut mac) => {
            mac.update(msg);
            mac.finalize().into_bytes().to_vec()
        },
        Err(_) => Vec::new(),
    }
}

/// Relies on base64's `STANDARD` engine `encode`: padded base64 of the bytes.
/// It panics only when the encoded length overflows `usize`.
#[verifier::external_body]
fn base64_encode(bytes: &[u8]) -> (r: String)
    requires
        bytes@.len() <= usize::MAX / 4,
    ensures
        r@ == base64_of(bytes@),
{
    base64::engine::general_purpose::STANDARD.encode(bytes)
}

/// Relies on serde_json's `to_string` on a `str`, which writes it as a JSON
/// string literal and does not fail on a string.
#[verifier::external_body]
fn json_string(s: &str) -> (r: String)
    ensures
        r@ == json_string_of(s@),
{
    match serde_json::to_string(s) {
        Ok(t) => t,
        Err(_) => String::new(),
    }
}

/// The text that is signed: the timestamp in milliseconds, a newline, the secret.
pub open spec fn sign_text(timestamp_ms: u64, secret: Seq<char>) -> Seq<char> {
    decimal(timestamp_ms as nat) + "\n"@ + secret
}

/// The signature of a request made at `timestamp_ms` under `secret`: the
/// base64 of the HMAC-SHA256 of the signed text, keyed by the secret.
pub open spec fn signature_of(secret: Seq<char>, timestamp_ms: u64) -> Seq<char> {
    base64_of(hmac_sha256_of(encode_utf8(secret), encode_utf8(sign_text(timestamp_ms, secret))))
}

/// The address a signed message is posted to.
pub open spec fn signed_url_of(
    webhook_url: Seq<char>,
    access_token: Seq<char>,
    secret: Seq<char>,
    timestamp_ms: u64,
) -> Seq<char> {
    webhook_url + "?access_token="@ + access_token + "&timestamp="@ + decimal(timestamp_ms as nat)
        + "&sign="@ + signature_of(secret, timestamp_ms)
}

/// The text before the message in a text payload.
pub const PAYLOAD_PREFIX: &'static str = "{\"at\":{\"isAtAll\":false},\"msgtype\":\"text\",\"text\":{\"content\":";

/// The text after the message in a text payload.
pub const PAYLOAD_SUFFIX: &'static str = "}}";

/// The signature of a request made at `timestamp_ms` under `secret`.
pub fn sign(secret: &String, timestamp_ms: u64) -> (r: String)
    ensures
        r@ == signature_of(secret@, timestamp_ms),
{
    let mut text = String::new();
    push_decimal(&mut text, timestamp_ms);
    text.append("\n");
    text.append(secret.as_str());
    let tag = hmac_sha256(secret.as_str().as_bytes(), text.as_str().as_bytes());
    base64_encode(tag.as_slice())
}

/// The webhook address with the access token, the timestamp and the signature.
pub fn signed_url(webhook_url: &String, access_token: &String, secret: &String, timestamp_ms: u64) -> (r: String)
    ensures
        r@ == signed_url_of(webhook_url@, access_token@, secret@, timestamp_ms),
{
    let signature = sign(secret, timestamp_ms);
    let mut url = webhook_url.clone();
    url.append("?access_token=");
    url.append(access_token.as_str());
    url.append("&timestamp=");
    push_decimal(&mut url, timestamp_ms);
    url.append("&sign=");
    url.append(signature.as_str());
    url
}

/// The JSON body of a text message that notifies nobody in particular.
pub fn text_payload(content: &String) -> (r: String)
    ensures
        r@ == PAYLOAD_PREFIX@ + json_string_of(content@) + PAYLOAD_SUFFIX@,
{
    let mut body = String::from_str(PAYLOAD_PREFIX);
    let quoted = json_string(content.as_str());
    body.append(quoted.as_str());
    body.append(PAYLOAD_SUFFIX);
    body
}

} // verus!
