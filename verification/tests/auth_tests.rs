use agnt::auth::{auth_signature, env_candidates_for_auth, ApiKeyAuth, AuthMethod, AuthRequest, OAuthPkceAuth, ResolvedAuth};
use agnt::auth_manager::{
    credential_from_exchange, credential_from_refresh, credential_resolution, exchange_form, refresh_form, refresh_step,
    resolve_from_env, AuthManager, OAuthTokenResponse, RefreshStep, StoredCredential,
};
use agnt::oauth::{begin_pkce, build_authorize_url, extract_code_from_input, AuthError, OAuthCredential};

fn config() -> OAuthPkceAuth {
    OAuthPkceAuth {
        client_id: "cid".to_string(),
        authorize_url: "https://auth.example.com/authorize".to_string(),
        token_url: "https://auth.example.com/token".to_string(),
        redirect_url: "http://localhost:1455/cb".to_string(),
        scopes: vec!["openid".to_string(), "email".to_string()],
        authorize_params: vec![("prompt".to_string(), "login".to_string())],
        token_params: vec![("client_id".to_string(), "other".to_string()), ("aud".to_string(), "x".to_string())],
    }
}

#[test]
fn resolved_auth_payloads() {
    let a = ResolvedAuth::api_key("sk".to_string());
    assert_eq!(a.method, "api_key");
    assert_eq!(a.get("api_key"), Some("sk"));
    assert_eq!(a.get("access_token"), None);
    let b = ResolvedAuth::bearer("tok".to_string());
    assert_eq!(b.method, "oauth_pkce");
    assert_eq!(b.get("access_token"), Some("tok"));
    assert_eq!(AuthMethod::default().kind(), "api_key");
    assert_eq!(AuthMethod::OAuthPkce(config()).kind(), "oauth_pkce");
}

#[test]
fn signature_sorts_values_by_key() {
    let a = ResolvedAuth {
        method: "m".to_string(),
        values: vec![("b".to_string(), "2".to_string()), ("a".to_string(), "1".to_string())],
    };
    let b = ResolvedAuth {
        method: "m".to_string(),
        values: vec![("a".to_string(), "1".to_string()), ("b".to_string(), "2".to_string())],
    };
    assert_eq!(auth_signature(&a), "m|a=1|b=2");
    assert_eq!(auth_signature(&a), auth_signature(&b));
}

#[test]
fn env_candidates() {
    let m = AuthMethod::ApiKey(ApiKeyAuth { env: vec!["A".to_string(), "B".to_string()] });
    assert_eq!(env_candidates_for_auth(&m), vec!["A".to_string(), "B".to_string()]);
    assert!(env_candidates_for_auth(&AuthMethod::OAuthPkce(config())).is_empty());
}

#[test]
fn code_from_pasted_input() {
    assert_eq!(extract_code_from_input("http://localhost/cb?code=abc&state=s1", "s1").ok(), Some("abc".to_string()));
    assert!(matches!(extract_code_from_input("http://localhost/cb?code=abc&state=s2", "s1"), Err(AuthError::OAuthStateMismatch)));
    assert_eq!(extract_code_from_input("code=a%20b&state=s1", "s1").ok(), Some("a b".to_string()));
    assert_eq!(extract_code_from_input("code=1&code=2", "s").ok(), Some("2".to_string()));
    assert_eq!(extract_code_from_input("  abc#s1 ", "s1").ok(), Some("abc".to_string()));
    assert!(matches!(extract_code_from_input("abc#zz", "s1"), Err(AuthError::OAuthStateMismatch)));
    assert_eq!(extract_code_from_input("plain-code", "s1").ok(), Some("plain-code".to_string()));
    assert!(matches!(extract_code_from_input("   ", "s1"), Err(AuthError::MissingOAuthCode)));
    assert!(matches!(extract_code_from_input("http://localhost/cb?state=s1", "s1"), Err(AuthError::MissingOAuthCode)));
}

#[test]
fn authorize_url_carries_pkce_parameters() {
    let url = build_authorize_url(&config(), "chal", "st").ok().unwrap();
    assert_eq!(
        url,
        "https://auth.example.com/authorize?response_type=code&client_id=cid&redirect_uri=http%3A%2F%2Flocalhost%3A1455%2Fcb&code_challenge=chal&code_challenge_method=S256&state=st&scope=openid+email&prompt=login"
    );
    let mut bad = config();
    bad.authorize_url = "not a url".to_string();
    assert!(matches!(build_authorize_url(&bad, "c", "s"), Err(AuthError::InvalidRedirectUrl(u)) if u == "not a url"));
}

#[test]
fn pkce_start_has_fresh_verifier_and_state() {
    let a = begin_pkce(&config()).ok().unwrap();
    let b = begin_pkce(&config()).ok().unwrap();
    assert_eq!(a.verifier.len(), 43);
    assert_eq!(a.state.len(), 22);
    assert_ne!(a.verifier, b.verifier);
    assert!(a.authorize_url.contains(&format!("state={}", a.state)));
    assert!(a.authorize_url.contains("code_challenge_method=S256"));
}

#[test]
fn token_forms_let_extras_override() {
    let f = exchange_form(&config(), "code1", "ver");
    assert_eq!(
        f,
        vec![
            ("grant_type".to_string(), "authorization_code".to_string()),
            ("client_id".to_string(), "other".to_string()),
            ("code".to_string(), "code1".to_string()),
            ("code_verifier".to_string(), "ver".to_string()),
            ("redirect_uri".to_string(), "http://localhost:1455/cb".to_string()),
            ("aud".to_string(), "x".to_string()),
        ]
    );
    let f = refresh_form(&config(), "rt");
    assert_eq!(f[0], ("grant_type".to_string(), "refresh_token".to_string()));
    assert_eq!(f[2], ("refresh_token".to_string(), "rt".to_string()));
    assert_eq!(f.len(), 4);
}

#[test]
fn token_responses() {
    let full = OAuthTokenResponse { access_token: Some("a".to_string()), refresh_token: Some("r".to_string()), expires_in: Some(60) };
    let c = credential_from_exchange(full, 1_000).ok().unwrap();
    assert_eq!((c.access_token.as_str(), c.refresh_token.as_str(), c.expires_at_ms), ("a", "r", 61_000));
    let missing = OAuthTokenResponse { access_token: Some("a".to_string()), refresh_token: None, expires_in: Some(60) };
    assert!(matches!(credential_from_exchange(missing, 0), Err(AuthError::InvalidOAuthTokenResponse)));
    let keep = OAuthTokenResponse { access_token: Some("a2".to_string()), refresh_token: None, expires_in: Some(u64::MAX) };
    let c = credential_from_refresh(keep, "old", 5).ok().unwrap();
    assert_eq!((c.refresh_token.as_str(), c.expires_at_ms), ("old", u64::MAX));
}

#[test]
fn resolving_and_caching() {
    let req = AuthRequest {
        provider_id: "p".to_string(),
        provider_name: "P".to_string(),
        auth_method: AuthMethod::ApiKey(ApiKeyAuth { env: vec!["A".to_string(), "B".to_string()] }),
        env_candidates: vec!["A".to_string(), "B".to_string()],
    };
    let got = resolve_from_env(&req, &vec![Some("  ".to_string()), Some("key".to_string())]).unwrap();
    assert_eq!(got.get("api_key"), Some("key"));
    assert!(resolve_from_env(&req, &vec![None, None]).is_none());

    let mut m = AuthManager::new("svc".to_string());
    assert_eq!(m.service(), "svc");
    assert!(m.cache_get("p").is_none());
    let r = m.store_api_key("p", "k1".to_string(), Ok(())).ok().unwrap();
    assert_eq!(r.get("api_key"), Some("k1"));
    assert!(matches!(m.cache_get("p"), Some(StoredCredential::ApiKey { api_key }) if api_key == "k1"));
    assert!(m.store_api_key("q", "k2".to_string(), Err(AuthError::Other("disk".to_string()))).is_err());
    assert!(m.cache_get("q").is_none());
}

#[test]
fn refresh_only_expired_tokens() {
    let stored = |exp: u64| Some(StoredCredential::OAuthPkce {
        access_token: "at".to_string(),
        refresh_token: "rt".to_string(),
        expires_at_ms: exp,
        metadata: vec![("k".to_string(), "v".to_string())],
    });
    assert!(matches!(refresh_step(stored(2000), 1000), RefreshStep::Valid(a) if a.get("access_token") == Some("at")));
    assert!(matches!(refresh_step(stored(1000), 1000), RefreshStep::Refresh { refresh_token, .. } if refresh_token == "rt"));
    assert!(matches!(refresh_step(None, 0), RefreshStep::NoCredential));
}

#[test]
fn stored_credentials_resolve_by_method() {
    let key = StoredCredential::ApiKey { api_key: "sk-1".to_string() };
    let oauth = StoredCredential::OAuthPkce {
        access_token: "at".to_string(),
        refresh_token: "rt".to_string(),
        expires_at_ms: 5,
        metadata: vec![],
    };
    let api = AuthMethod::ApiKey(ApiKeyAuth { env: vec![] });
    let pkce = AuthMethod::OAuthPkce(config());
    let a = credential_resolution(&api, Some(key.copy())).unwrap();
    assert_eq!((a.method.as_str(), a.get("api_key")), ("api_key", Some("sk-1")));
    let b = credential_resolution(&pkce, Some(oauth.copy())).unwrap();
    assert_eq!((b.method.as_str(), b.get("access_token")), ("oauth_pkce", Some("at")));
    assert!(credential_resolution(&api, Some(oauth)).is_none());
    assert!(credential_resolution(&pkce, Some(key)).is_none());
    assert!(credential_resolution(&api, None).is_none());
}

#[test]
fn manager_remembers_loaded_and_saved_tokens() {
    let mut m = AuthManager::new("svc".to_string());
    assert!(m.remember_loaded("p", None).is_none());
    assert!(m.cache_get("p").is_none());
    let loaded = StoredCredential::ApiKey { api_key: "k".to_string() };
    assert!(matches!(m.remember_loaded("p", Some(loaded)), Some(StoredCredential::ApiKey { api_key }) if api_key == "k"));
    assert!(matches!(m.cache_get("p"), Some(StoredCredential::ApiKey { api_key }) if api_key == "k"));

    let cred = OAuthCredential { access_token: "a1".to_string(), refresh_token: "r1".to_string(), expires_at_ms: 100 };
    let r = m.save_oauth_credential("o", cred.clone(), Ok(())).ok().unwrap();
    assert_eq!(r.get("access_token"), Some("a1"));
    assert!(matches!(
        m.cache_get("o"),
        Some(StoredCredential::OAuthPkce { access_token, refresh_token, expires_at_ms: 100, metadata })
            if access_token == "a1" && refresh_token == "r1" && metadata.is_empty()
    ));
    assert!(m.save_oauth_credential("x", cred, Err(AuthError::Other("disk".to_string()))).is_err());
    assert!(m.cache_get("x").is_none());

    let fresh = OAuthCredential { access_token: "a2".to_string(), refresh_token: "r2".to_string(), expires_at_ms: 200 };
    let meta = vec![("account".to_string(), "acct".to_string())];
    let r = m.apply_refresh("o", fresh, meta, Ok(())).ok().unwrap();
    assert_eq!(r.get("access_token"), Some("a2"));
    assert!(matches!(
        m.cache_get("o"),
        Some(StoredCredential::OAuthPkce { access_token, refresh_token, expires_at_ms: 200, metadata })
            if access_token == "a2" && refresh_token == "r2" && metadata == vec![("account".to_string(), "acct".to_string())]
    ));
    let stale = OAuthCredential { access_token: "a3".to_string(), refresh_token: "r3".to_string(), expires_at_ms: 300 };
    assert!(m.apply_refresh("o", stale, vec![], Err(AuthError::Store("locked".to_string()))).is_err());
    assert!(matches!(m.cache_get("o"), Some(StoredCredential::OAuthPkce { access_token, .. }) if access_token == "a2"));
}

#[test]
fn manager_begins_pkce() {
    let m = AuthManager::new("svc".to_string());
    let start = m.begin_oauth("p", &config()).ok().unwrap();
    assert!(start.authorize_url.starts_with("https://auth.example.com/authorize?"));
    assert!(start.authorize_url.contains(&format!("state={}", start.state)));
    let mut bad = config();
    bad.authorize_url = "not a url".to_string();
    assert!(matches!(m.begin_oauth("p", &bad), Err(AuthError::InvalidRedirectUrl(u)) if u == "not a url"));
}
