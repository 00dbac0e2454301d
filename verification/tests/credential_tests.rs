use agnt::credential_store::{
    decode_key, decode_nonce, envelope_content, new_encryption_key, open_sealed, seal_credential, seal_credential_with,
    CredentialEncryptionMethod, CredentialEnvelope, EnvelopeContent,
};
use agnt::oauth::AuthError;
use agnt::prompt::{agents_md_content, system_prompt};

fn other(e: AuthError) -> String {
    match e {
        AuthError::Other(m) => m,
        _ => panic!("expected Other"),
    }
}

#[test]
fn sealed_credentials_read_back() {
    let (key, key_text) = new_encryption_key();
    assert_eq!(key.len(), 32);
    assert_eq!(decode_key(&key_text).ok().unwrap(), key);
    let json = r#"{"kind":"api_key","api_key":"sk-é"}"#;
    let env = seal_credential("openai", json, Some(&key)).ok().unwrap();
    assert_eq!(env.method, CredentialEncryptionMethod::KeyringAes256GcmV1);
    assert_ne!(env.payload, json);
    match envelope_content(&env).ok().unwrap() {
        EnvelopeContent::Sealed { nonce, ciphertext } => {
            assert_eq!(nonce.len(), 12);
            assert_eq!(ciphertext.len(), json.len() + 16);
            assert_eq!(open_sealed("openai", &key, &nonce, &ciphertext).ok().unwrap(), json);
            let wrong = other(open_sealed("other", &key, &nonce, &ciphertext).err().unwrap());
            assert_eq!(wrong, "failed to decrypt credential");
        }
        EnvelopeContent::Plain(_) => panic!("expected sealed content"),
    }
}

#[test]
fn sealing_with_a_fixed_nonce_is_deterministic() {
    let key = vec![7u8; 32];
    let nonce = vec![1u8; 12];
    let a = seal_credential_with("p", "{}", &key, &nonce).ok().unwrap();
    let b = seal_credential_with("p", "{}", &key, &nonce).ok().unwrap();
    assert_eq!(a.payload, b.payload);
    assert_eq!(a.nonce.as_deref(), Some("AQEBAQEBAQEBAQEB"));
}

#[test]
fn plaintext_envelopes() {
    let env = seal_credential("p", "{\"a\":1}", None).ok().unwrap();
    assert_eq!(env.method, CredentialEncryptionMethod::Plaintext);
    assert!(env.nonce.is_none());
    match envelope_content(&env).ok().unwrap() {
        EnvelopeContent::Plain(p) => assert_eq!(p, "{\"a\":1}"),
        _ => panic!("expected plain content"),
    }
}

#[test]
fn envelope_errors() {
    let missing = CredentialEnvelope {
        method: CredentialEncryptionMethod::KeyringAes256GcmV1,
        payload: "AAAA".to_string(),
        nonce: None,
    };
    assert_eq!(other(envelope_content(&missing).err().unwrap()), "missing credential nonce");
    let short = CredentialEnvelope {
        method: CredentialEncryptionMethod::KeyringAes256GcmV1,
        payload: "AAAA".to_string(),
        nonce: Some("AQEB".to_string()),
    };
    assert_eq!(
        other(envelope_content(&short).err().unwrap()),
        "invalid credential nonce length; expected 12 bytes"
    );
    let bad_payload = CredentialEnvelope {
        method: CredentialEncryptionMethod::KeyringAes256GcmV1,
        payload: "!!".to_string(),
        nonce: Some("AQEBAQEBAQEBAQEB".to_string()),
    };
    assert!(other(envelope_content(&bad_payload).err().unwrap()).starts_with("invalid credential ciphertext encoding: "));
    assert_eq!(other(decode_key("AQEB").err().unwrap()), "invalid encryption key length; expected 32 bytes");
    assert!(other(decode_key("*").err().unwrap()).starts_with("invalid encryption key encoding: "));
    assert_eq!(decode_nonce("AQEBAQEBAQEBAQEB").ok().unwrap(), vec![1u8; 12]);
}

#[test]
fn system_prompt_rendering() {
    assert_eq!(system_prompt("cwd={{cwd}} root={{workspace_root}}", "/a", "/b"), "cwd=/a root=/b");
    assert_eq!(system_prompt("x {{missing}}", "/a", "/b"), "x {{missing}}");
    assert_eq!(agents_md_content("  \n".to_string()), None);
    assert_eq!(agents_md_content("Use tabs.\n".to_string()).as_deref(), Some("Use tabs.\n"));
}
