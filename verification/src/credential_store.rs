//! How a stored credential is framed: a plaintext envelope, or one sealed
//! with AES-256-GCM under a key kept in the system keyring, bound to the
//! provider's id. Turning credentials into JSON text and back, and talking
//! to the keyring and the database, are the caller's part.

use base64::Engine;
use vstd::prelude::*;
use vstd::string::StringSliceAdditionalSpecFns;
use vstd::utf8::{decode_utf8, encode_utf8, encode_utf8_decode_utf8, encode_utf8_valid_utf8, valid_utf8};

use crate::oauth::{base64_url_nopad, AuthError};
use crate::text::push_str;

verus! {

// ---------------------------------------------------------------------------
// Outside calls
// ---------------------------------------------------------------------------

/// Standard base64 without padding: the URL-safe encoding with `+` and `/`
/// in place of `-` and `_`.
pub open spec fn base64_std_nopad(b: Seq<u8>) -> Seq<char> {
    base64_url_nopad(b).map_values(|c: char| if c == '-' { '+' } else if c == '_' { '/' } else { c })
}

/// What `base64`'s `STANDARD_NO_PAD.decode` gives for a text: the bytes, or
/// the text of its error.
pub uninterp spec fn base64_std_decoded(s: Seq<char>) -> Result<Seq<u8>, Seq<char>>;

/// Calls `base64`'s `STANDARD_NO_PAD.encode`: the standard base64 encoding of
/// the bytes without padding, which the same engine decodes back.
#[verifier::external_body]
fn encode_base64_std(bytes: &[u8]) -> (s: String)
    requires
        bytes@.len() <= usize::MAX / 2,
    ensures
        s@ == base64_std_nopad(bytes@),
        base64_std_decoded(s@) is Ok && base64_std_decoded(s@)->Ok_0 == bytes@,
{
    base64::engine::general_purpose::STANDARD_NO_PAD.encode(bytes)
}

/// Calls `base64`'s `STANDARD_NO_PAD.decode`; an error is given as its text.
#[verifier::external_body]
fn decode_base64_std(s: &str) -> (r: Result<Vec<u8>, String>)
    ensures
        match base64_std_decoded(s@) {
            Ok(b) => r matches Ok(v) && v@ == b,
            Err(m) => r matches Err(e) && e@ == m,
        },
{
    base64::engine::general_purpose::STANDARD_NO_PAD.decode(s).map_err(|e| e.to_string())
}

/// What `ring`'s AES-256-GCM gives when sealing `plaintext` under `key` and
/// `nonce` with additional data `aad`: the ciphertext with its tag, or
/// `None` where sealing fails.
pub uninterp spec fn aes_gcm_sealed(key: Seq<u8>, nonce: Seq<u8>, aad: Seq<u8>, plaintext: Seq<u8>) -> Option<Seq<u8>>;

/// What `ring`'s AES-256-GCM gives when opening `ciphertext` (with its tag):
/// the plaintext, or `None` where authentication fails.
pub uninterp spec fn aes_gcm_opened(key: Seq<u8>, nonce: Seq<u8>, aad: Seq<u8>, ciphertext: Seq<u8>) -> Option<Seq<u8>>;

/// Calls `ring::aead` (`UnboundKey::new` with `AES_256_GCM`,
/// `LessSafeKey::seal_in_place_append_tag`): the plaintext encrypted in
/// place with the 16-byte tag appended; what it seals opens, under the same
/// key, nonce and additional data, to the plaintext.
#[verifier::external_body]
fn seal_aes_gcm(key: &Vec<u8>, nonce: &Vec<u8>, aad: &[u8], plaintext: &[u8]) -> (r: Option<Vec<u8>>)
    requires
        key@.len() == 32,
        nonce@.len() == 12,
    ensures
        match aes_gcm_sealed(key@, nonce@, aad@, plaintext@) {
            Some(c) => r matches Some(v) && v@ == c,
            None => r is None,
        },
        r matches Some(v) ==> aes_gcm_opened(key@, nonce@, aad@, v@) == Some(plaintext@),
        r matches Some(v) ==> v@.len() == plaintext@.len() + 16,
{
    let n: [u8; 12] = nonce.as_slice().try_into().ok()?;
    let unbound = ring::aead::UnboundKey::new(&ring::aead::AES_256_GCM, key.as_slice()).ok()?;
    let sealing = ring::aead::LessSafeKey::new(unbound);
    let mut in_out = plaintext.to_vec();
    let nonce = ring::aead::Nonce::assume_unique_for_key(n);
    sealing.seal_in_place_append_tag(nonce, ring::aead::Aad::from(aad), &mut in_out).ok()?;
    Some(in_out)
}

/// Calls `ring::aead` (`UnboundKey::new` with `AES_256_GCM`,
/// `LessSafeKey::open_in_place`).
#[verifier::external_body]
fn open_aes_gcm(key: &Vec<u8>, nonce: &Vec<u8>, aad: &[u8], ciphertext: &Vec<u8>) -> (r: Option<Vec<u8>>)
    requires
        key@.len() == 32,
        nonce@.len() == 12,
    ensures
        match aes_gcm_opened(key@, nonce@, aad@, ciphertext@) {
            Some(p) => r matches Some(v) && v@ == p,
            None => r is None,
        },
{
    let n: [u8; 12] = nonce.as_slice().try_into().ok()?;
    let unbound = ring::aead::UnboundKey::new(&ring::aead::AES_256_GCM, key.as_slice()).ok()?;
    let opening = ring::aead::LessSafeKey::new(unbound);
    let mut in_out = ciphertext.clone();
    let nonce = ring::aead::Nonce::assume_unique_for_key(n);
    let plain = opening.open_in_place(nonce, ring::aead::Aad::from(aad), &mut in_out).ok()?;
    Some(plain.to_vec())
}

/// The text of the error `String::from_utf8` gives for bytes that are not UTF-8.
pub uninterp spec fn utf8_error(bytes: Seq<u8>) -> Seq<char>;

/// Calls `String::from_utf8`: the text the bytes encode, or (for bytes that
/// are not UTF-8) the text of the error.
#[verifier::external_body]
fn string_from_utf8(bytes: Vec<u8>) -> (r: Result<String, String>)
    ensures
        match r {
            Ok(s) => valid_utf8(bytes@) && s@ == decode_utf8(bytes@),
            Err(m) => !valid_utf8(bytes@) && m@ == utf8_error(bytes@),
        },
{
    String::from_utf8(bytes).map_err(|e| e.to_string())
}

/// Calls `rand::random` for 12 bytes; nothing is promised of them.
#[verifier::external_body]
fn random_12() -> (b: [u8; 12]) {
    rand::random()
}

/// Calls `rand::random` for 32 bytes; nothing is promised of them.
#[verifier::external_body]
fn random_key_bytes() -> (b: [u8; 32]) {
    rand::random()
}

// ---------------------------------------------------------------------------
// Envelopes
// ---------------------------------------------------------------------------

/// How a stored credential is protected.
#[derive(Debug, Clone, Copy, PartialEq, Eq, Structural)]
pub enum CredentialEncryptionMethod {
    /// Stored as plaintext JSON.
    Plaintext,
    /// Sealed with AES-256-GCM under the keyring's key.
    KeyringAes256GcmV1,
}

/// A stored credential: how it is protected, the payload (JSON text, or the
/// base64 of the sealed bytes) and the base64 of the nonce.
#[derive(Debug)]
pub struct CredentialEnvelope {
    pub method: CredentialEncryptionMethod,
    pub payload: String,
    pub nonce: Option<String>,
}

/// What an envelope holds: the credential's JSON text, or sealed bytes to
/// open with the key.
#[derive(Debug)]
pub enum EnvelopeContent {
    Plain(String),
    Sealed { nonce: Vec<u8>, ciphertext: Vec<u8> },
}

pub enum ContentView {
    Plain(Seq<char>),
    Sealed(Seq<u8>, Seq<u8>),
}

/// Bytes decoded from base64 text that must have `len` bytes: `what` names
/// them in the error messages.
pub open spec fn fixed_decoded(text: Seq<char>, len: nat, what: Seq<char>) -> Result<Seq<u8>, Seq<char>> {
    match base64_std_decoded(text) {
        Err(m) => Err("invalid "@ + what + " encoding: "@ + m),
        Ok(b) => if b.len() == len {
            Ok(b)
        } else {
            Err("invalid "@ + what + " length; expected "@ + (if len == 32 { "32"@ } else { "12"@ }) + " bytes"@)
        },
    }
}

/// The keyring's encryption key, from its base64 text.
pub open spec fn key_decoded(text: Seq<char>) -> Result<Seq<u8>, Seq<char>> {
    fixed_decoded(text, 32, "encryption key"@)
}

/// A sealed credential's nonce, from its base64 text.
pub open spec fn nonce_decoded(text: Seq<char>) -> Result<Seq<u8>, Seq<char>> {
    fixed_decoded(text, 12, "credential nonce"@)
}

/// What an envelope holds (the error: its message).
pub open spec fn content_of(method: CredentialEncryptionMethod, payload: Seq<char>, nonce: Option<Seq<char>>) -> Result<ContentView, Seq<char>> {
    match method {
        CredentialEncryptionMethod::Plaintext => Ok(ContentView::Plain(payload)),
        CredentialEncryptionMethod::KeyringAes256GcmV1 => match nonce {
            None => Err("missing credential nonce"@),
            Some(n) => match nonce_decoded(n) {
                Err(m) => Err(m),
                Ok(nb) => match base64_std_decoded(payload) {
                    Err(m) => Err("invalid credential ciphertext encoding: "@ + m),
                    Ok(ct) => Ok(ContentView::Sealed(nb, ct)),
                },
            },
        },
    }
}

/// The credential JSON text sealed bytes open to (the error: its message).
pub open spec fn opened_text(key: Seq<u8>, nonce: Seq<u8>, provider_id: Seq<char>, ciphertext: Seq<u8>) -> Result<Seq<char>, Seq<char>> {
    match aes_gcm_opened(key, nonce, encode_utf8(provider_id), ciphertext) {
        None => Err("failed to decrypt credential"@),
        Some(p) => if valid_utf8(p) {
            Ok(decode_utf8(p))
        } else {
            Err("invalid credential plaintext: "@ + utf8_error(p))
        },
    }
}

/// `env` is what sealing the credential JSON `json` of `provider_id` under
/// `key` and `nonce` gives: the base64 of the sealed bytes and of the nonce,
/// both decoding back, and the sealed bytes opening to the JSON.
pub open spec fn sealed_by(
    provider_id: Seq<char>,
    json: Seq<char>,
    key: Seq<u8>,
    nonce: Seq<u8>,
    payload: Seq<char>,
    nonce_text: Seq<char>,
) -> bool {
    match aes_gcm_sealed(key, nonce, encode_utf8(provider_id), encode_utf8(json)) {
        Some(ct) => {
            &&& payload == base64_std_nopad(ct)
            &&& nonce_text == base64_std_nopad(nonce)
            &&& base64_std_decoded(payload) == Ok::<Seq<u8>, Seq<char>>(ct)
            &&& base64_std_decoded(nonce_text) == Ok::<Seq<u8>, Seq<char>>(nonce)
            &&& aes_gcm_opened(key, nonce, encode_utf8(provider_id), ct) == Some(encode_utf8(json))
        },
        None => false,
    }
}

fn other(m: String) -> (e: AuthError)
    ensures
        e matches AuthError::Other(x) && x@ == m@,
{
    AuthError::Other(m)
}

fn decode_fixed(text: &str, len: usize, what: &str) -> (r: Result<Vec<u8>, AuthError>)
    requires
        len == 32 || len == 12,
    ensures
        match fixed_decoded(text@, len as nat, what@) {
            Ok(b) => r matches Ok(v) && v@ == b,
            Err(m) => r matches Err(AuthError::Other(x)) && x@ == m,
        },
{
    match decode_base64_std(text) {
        Err(e) => {
            let mut m = String::new();
            push_str(&mut m, "invalid ");
            push_str(&mut m, what);
            push_str(&mut m, " encoding: ");
            push_str(&mut m, e.as_str());
            Err(other(m))
        },
        Ok(b) => {
            if b.len() == len {
                Ok(b)
            } else {
                let mut m = String::new();
                push_str(&mut m, "invalid ");
                push_str(&mut m, what);
                push_str(&mut m, " length; expected ");
                if len == 32 {
                    push_str(&mut m, "32");
                } else {
                    push_str(&mut m, "12");
                }
                push_str(&mut m, " bytes");
                Err(other(m))
            }
        },
    }
}

/// The keyring's encryption key, from its base64 text: 32 bytes.
pub fn decode_key(encoded: &str) -> (r: Result<Vec<u8>, AuthError>)
    ensures
        match key_decoded(encoded@) {
            Ok(b) => r matches Ok(v) && v@ == b,
            Err(m) => r matches Err(AuthError::Other(x)) && x@ == m,
        },
{
    decode_fixed(encoded, 32, "encryption key")
}

/// A sealed credential's nonce, from its base64 text: 12 bytes.
pub fn decode_nonce(encoded: &str) -> (r: Result<Vec<u8>, AuthError>)
    ensures
        match nonce_decoded(encoded@) {
            Ok(b) => r matches Ok(v) && v@ == b,
            Err(m) => r matches Err(AuthError::Other(x)) && x@ == m,
        },
{
    decode_fixed(encoded, 12, "credential nonce")
}

/// A fresh encryption key for the keyring, with its base64 text (which
/// decodes back to it).
pub fn new_encryption_key() -> (r: (Vec<u8>, String))
    ensures
        r.0@.len() == 32,
        r.1@ == base64_std_nopad(r.0@),
        key_decoded(r.1@) == Ok::<Seq<u8>, Seq<char>>(r.0@),
{
    let bytes = random_key_bytes();
    let mut key: Vec<u8> = Vec::new();
    for i in 0..32
        invariant
            key@ == bytes@.take(i as int),
    {
        key.push(bytes[i]);
        assert(key@ == bytes@.take(i + 1));
    }
    assert(bytes@.take(32) == bytes@);
    let text = encode_base64_std(key.as_slice());
    (key, text)
}

/// What an envelope holds: a plaintext one its JSON; a sealed one its
/// decoded nonce and sealed bytes.
pub fn envelope_content(envelope: &CredentialEnvelope) -> (r: Result<EnvelopeContent, AuthError>)
    ensures
        match content_of(envelope.method, envelope.payload@, match envelope.nonce {
            Some(n) => Some(n@),
            None => None,
        }) {
            Ok(ContentView::Plain(p)) => r matches Ok(EnvelopeContent::Plain(x)) && x@ == p,
            Ok(ContentView::Sealed(n, c)) => r matches Ok(EnvelopeContent::Sealed { nonce, ciphertext }) && nonce@ == n
                && ciphertext@ == c,
            Err(m) => r matches Err(AuthError::Other(x)) && x@ == m,
        },
{
    match envelope.method {
        CredentialEncryptionMethod::Plaintext => Ok(EnvelopeContent::Plain(envelope.payload.clone())),
        CredentialEncryptionMethod::KeyringAes256GcmV1 => {
            let nonce_text = match &envelope.nonce {
                Some(n) => n,
                None => return Err(other("missing credential nonce".to_owned())),
            };
            let nonce = match decode_nonce(nonce_text.as_str()) {
                Ok(n) => n,
                Err(e) => return Err(e),
            };
            match decode_base64_std(envelope.payload.as_str()) {
                Err(e) => {
                    let mut m = String::new();
                    push_str(&mut m, "invalid credential ciphertext encoding: ");
                    push_str(&mut m, e.as_str());
                    Err(other(m))
                },
                Ok(ciphertext) => Ok(EnvelopeContent::Sealed { nonce, ciphertext }),
            }
        },
    }
}

/// Opens sealed bytes of a provider's credential with the keyring's key:
/// the credential's JSON text.
pub fn open_sealed(provider_id: &str, key: &Vec<u8>, nonce: &Vec<u8>, ciphertext: &Vec<u8>) -> (r: Result<String, AuthError>)
    requires
        key@.len() == 32,
        nonce@.len() == 12,
    ensures
        match opened_text(key@, nonce@, provider_id@, ciphertext@) {
            Ok(t) => r matches Ok(x) && x@ == t,
            Err(m) => r matches Err(AuthError::Other(x)) && x@ == m,
        },
{
    let aad = provider_id.as_bytes();
    match open_aes_gcm(key, nonce, aad, ciphertext) {
        None => Err(other("failed to decrypt credential".to_owned())),
        Some(plain) => match string_from_utf8(plain) {
            Ok(s) => Ok(s),
            Err(e) => {
                let mut m = String::new();
                push_str(&mut m, "invalid credential plaintext: ");
                push_str(&mut m, e.as_str());
                Err(other(m))
            },
        },
    }
}

/// Seals a provider's credential JSON under the keyring's key and a nonce.
pub fn seal_credential_with(provider_id: &str, credential_json: &str, key: &Vec<u8>, nonce: &Vec<u8>) -> (r: Result<CredentialEnvelope, AuthError>)
    requires
        key@.len() == 32,
        nonce@.len() == 12,
        credential_json.spec_bytes().len() <= usize::MAX / 4,
    ensures
        match aes_gcm_sealed(key@, nonce@, encode_utf8(provider_id@), encode_utf8(credential_json@)) {
            None => r matches Err(AuthError::Other(m)) && m@ == "failed to encrypt credential"@,
            Some(_) => r matches Ok(env) && env.method == CredentialEncryptionMethod::KeyringAes256GcmV1 && (env.nonce matches Some(
                n,
            ) && sealed_by(provider_id@, credential_json@, key@, nonce@, env.payload@, n@)),
        },
{
    let aad = provider_id.as_bytes();
    let plain = credential_json.as_bytes();
    match seal_aes_gcm(key, nonce, aad, plain) {
        None => Err(other("failed to encrypt credential".to_owned())),
        Some(ct) => {
            let payload = encode_base64_std(ct.as_slice());
            let nonce_text = encode_base64_std(nonce.as_slice());
            Ok(CredentialEnvelope { method: CredentialEncryptionMethod::KeyringAes256GcmV1, payload, nonce: Some(nonce_text) })
        },
    }
}

/// Frames a provider's credential JSON for storage: as plaintext when no key
/// is given, else sealed under the key and a fresh random nonce.
///
/// The nonce is not stated, beyond being 12 bytes.
pub fn seal_credential(provider_id: &str, credential_json: &str, key: Option<&Vec<u8>>) -> (r: Result<CredentialEnvelope, AuthError>)
    requires
        key matches Some(k) ==> k@.len() == 32,
        credential_json.spec_bytes().len() <= usize::MAX / 4,
    ensures
        key is None ==> (r matches Ok(env) && env.method == CredentialEncryptionMethod::Plaintext && env.payload@
            == credential_json@ && env.nonce is None),
        key matches Some(k) ==> exists|nonce: Seq<u8>|
            nonce.len() == 12 && match #[trigger] aes_gcm_sealed(k@, nonce, encode_utf8(provider_id@), encode_utf8(credential_json@)) {
                None => r matches Err(AuthError::Other(m)) && m@ == "failed to encrypt credential"@,
                Some(_) => r matches Ok(env) && env.method == CredentialEncryptionMethod::KeyringAes256GcmV1 && (env.nonce matches Some(
                    n,
                ) && sealed_by(provider_id@, credential_json@, k@, nonce, env.payload@, n@)),
            },
{
    match key {
        None => Ok(
            CredentialEnvelope {
                method: CredentialEncryptionMethod::Plaintext,
                payload: credential_json.to_owned(),
                nonce: None,
            },
        ),
        Some(k) => {
            let bytes = random_12();
            let mut nonce: Vec<u8> = Vec::new();
            for i in 0..12
                invariant
                    nonce@ == bytes@.take(i as int),
            {
                nonce.push(bytes[i]);
                assert(nonce@ == bytes@.take(i + 1));
            }
            assert(bytes@.take(12) == bytes@);
            seal_credential_with(provider_id, credential_json, k, &nonce)
        },
    }
}

/// A credential read back from what sealing stored is the one sealed: the
/// envelope holds the sealed bytes and nonce, which open to the same JSON.
pub proof fn law_sealed_credential_opens(
    provider_id: Seq<char>,
    json: Seq<char>,
    key: Seq<u8>,
    nonce: Seq<u8>,
    payload: Seq<char>,
    nonce_text: Seq<char>,
)
    requires
        nonce.len() == 12,
        sealed_by(provider_id, json, key, nonce, payload, nonce_text),
    ensures
        content_of(CredentialEncryptionMethod::KeyringAes256GcmV1, payload, Some(nonce_text)) matches Ok(
            ContentView::Sealed(n, c),
        ) && n == nonce && opened_text(key, n, provider_id, c) == Ok::<Seq<char>, Seq<char>>(json),
{
    encode_utf8_valid_utf8(json);
    encode_utf8_decode_utf8(json);
}

} // verus!
