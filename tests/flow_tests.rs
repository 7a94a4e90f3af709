use heart_oauth::authorize::{
    authorization_request_with_state, build_authorization_url, check_config, dedup_scopes,
    ClientCredentials, ConfigError, ProviderEndpoints,
};
use heart_oauth::cache::{cache_record, load_cached_token, token_from_member, AccessToken};
use heart_oauth::callback::{acknowledgement, CallbackError, CallbackReceiver};
use heart_oauth::flow::{
    bearer_value, pasted_code, step, Action, CodeSource, Event, FlowConfig, FlowError, Phase,
    TokenExchangeError, TokenMode,
};
use heart_oauth::query::{decode_component, query_param};

fn creds(id: &str) -> ClientCredentials {
    ClientCredentials { client_id: id.to_string(), client_secret: "shh".to_string() }
}

fn endpoints(auth: &str) -> ProviderEndpoints {
    ProviderEndpoints {
        authorize_url: auth.to_string(),
        token_url: "https://provider.test/token".to_string(),
    }
}

fn query_of(url: &str) -> String {
    url.split_once('?').map(|(_, q)| q.to_string()).unwrap_or_default()
}

#[test]
fn authorize_url_scenario() {
    let scopes = vec!["heartrate".to_string()];
    let req = build_authorization_url(
        &creds("abc"),
        &endpoints("https://provider.test/authorize"),
        &scopes,
    )
    .unwrap();
    assert!(req.url.starts_with("https://provider.test/authorize?"));
    let q = query_of(&req.url);
    let pairs: Vec<&str> = q.split('&').collect();
    assert!(pairs.contains(&"client_id=abc"));
    assert!(pairs.contains(&"scope=heartrate"));
    assert!(pairs.contains(&"response_type=code"));
    assert!(!req.csrf_token.is_empty());
    assert_eq!(req.csrf_token.len(), 22);
    assert!(pairs.contains(&format!("state={}", req.csrf_token).as_str()));
}

#[test]
fn random_states_differ() {
    let scopes = vec!["heartrate".to_string()];
    let e = endpoints("https://provider.test/authorize");
    let a = build_authorization_url(&creds("abc"), &e, &scopes).unwrap();
    let b = build_authorization_url(&creds("abc"), &e, &scopes).unwrap();
    assert_ne!(a.csrf_token, b.csrf_token);
}

#[test]
fn each_scope_appears_once() {
    let scopes: Vec<String> =
        ["profile", "heartrate", "profile", "sleep"].iter().map(|s| s.to_string()).collect();
    let req = authorization_request_with_state(
        &creds("abc"),
        &endpoints("https://provider.test/authorize"),
        &scopes,
        "S1".to_string(),
    )
    .unwrap();
    assert_eq!(req.scopes, vec!["profile", "heartrate", "sleep"]);
    let q = query_of(&req.url);
    assert!(q.split('&').any(|p| p == "scope=profile+heartrate+sleep"));
    assert_eq!(req.url.matches("client_id=abc").count(), 1);
    for s in ["profile", "heartrate", "sleep"] {
        assert_eq!(req.url.matches(s).count(), 1);
    }
    assert!(q.split('&').any(|p| p == "state=S1"));
}

#[test]
fn dedup_keeps_first_order() {
    let scopes: Vec<String> = ["b", "a", "b", "a", "c"].iter().map(|s| s.to_string()).collect();
    assert_eq!(dedup_scopes(&scopes), vec!["b", "a", "c"]);
    assert!(dedup_scopes(&Vec::new()).is_empty());
}

#[test]
fn config_errors() {
    let e = endpoints("https://provider.test/authorize");
    assert_eq!(check_config(&creds(""), &e), Err(ConfigError::MissingClientId));
    let no_secret = ClientCredentials { client_id: "abc".to_string(), client_secret: String::new() };
    assert_eq!(check_config(&no_secret, &e), Err(ConfigError::MissingClientSecret));
    assert_eq!(
        check_config(&creds("abc"), &endpoints("not a url")),
        Err(ConfigError::MalformedAuthorizeUrl)
    );
    let bad_token = ProviderEndpoints {
        authorize_url: "https://provider.test/authorize".to_string(),
        token_url: "::".to_string(),
    };
    assert_eq!(check_config(&creds("abc"), &bad_token), Err(ConfigError::MalformedTokenUrl));
    assert_eq!(check_config(&creds("abc"), &e), Ok(()));
    assert!(build_authorization_url(&creds("abc"), &endpoints("nope"), &vec![]).is_err());
}

#[test]
fn callback_with_matching_state_delivers_code() {
    let mut rx = CallbackReceiver::new("S1".to_string());
    assert_eq!(rx.handle("code=XYZ&state=S1"), Ok("XYZ".to_string()));
    assert_eq!(acknowledgement(), "ok");
    assert!(rx.delivered);
}

#[test]
fn callback_delivers_only_once() {
    let mut rx = CallbackReceiver::new("S1".to_string());
    assert_eq!(rx.handle("state=S1&code=first"), Ok("first".to_string()));
    let again = rx.handle("code=second&state=S1");
    assert_eq!(again, Err(CallbackError::AlreadyDelivered));
    assert_eq!(CallbackError::AlreadyDelivered.status(), 409);
}

#[test]
fn callback_state_mismatch_rejected() {
    let mut rx = CallbackReceiver::new("S1".to_string());
    assert_eq!(rx.handle("code=XYZ&state=S2"), Err(CallbackError::StateMismatch));
    assert_eq!(CallbackError::StateMismatch.status(), 400);
    assert!(!rx.delivered);
    assert_eq!(rx.handle("code=XYZ&state=S1"), Ok("XYZ".to_string()));
}

#[test]
fn callback_missing_and_malformed() {
    let mut rx = CallbackReceiver::new("S1".to_string());
    assert_eq!(rx.handle("state=S1"), Err(CallbackError::MissingCode));
    assert_eq!(rx.handle(""), Err(CallbackError::MissingCode));
    assert_eq!(rx.handle("code=%zz&state=S1"), Err(CallbackError::MalformedCode));
    assert_eq!(rx.handle("code=abc"), Err(CallbackError::MissingState));
    assert_eq!(rx.handle("code=abc&state=%4"), Err(CallbackError::MalformedState));
}

#[test]
fn callback_code_is_decoded_verbatim() {
    let mut rx = CallbackReceiver::new("a b".to_string());
    assert_eq!(
        rx.handle("code=x%2Fy%3D%3D+z&state=a+b"),
        Ok("x/y== z".to_string())
    );
}

#[test]
fn query_param_lookup() {
    assert_eq!(query_param("a=1&code=XYZ&b", "code"), Some(Some("XYZ".to_string())));
    assert_eq!(query_param("a=1&b", "b"), Some(Some(String::new())));
    assert_eq!(query_param("a=1&b=2", "c"), None);
    assert_eq!(query_param("codex=1&code=2", "code"), Some(Some("2".to_string())));
    assert_eq!(query_param("code=%C3%A9", "code"), Some(None));
    assert_eq!(decode_component("x%41+y", 0, 6), Some("xA y".to_string()));
}

#[test]
fn token_exchange_error_carries_payload() {
    let err = TokenExchangeError::Provider { error: "invalid_grant".to_string(), description: None };
    assert!(err.message().contains("invalid_grant"));
    let cfg = FlowConfig { code_source: CodeSource::LocalListener, token_mode: TokenMode::Cached };
    let (phase, action) = step(&cfg, Phase::Exchanging, Event::ExchangeFailed(err));
    assert_eq!(phase, Phase::Done);
    match action {
        Action::Fail(FlowError::TokenExchange(e)) => assert!(e.message().contains("invalid_grant")),
        _ => panic!("expected a token exchange failure"),
    }
}

#[test]
fn cached_token_skips_interactive_flow() {
    let tok = load_cached_token(Some("{\"access_token\":\"T1\"}".to_string())).unwrap();
    assert_eq!(tok.secret, "T1");
    let cfg = FlowConfig { code_source: CodeSource::LocalListener, token_mode: TokenMode::Cached };
    let (phase, action) = step(&cfg, Phase::Start, Event::CacheLoaded(Some(tok)));
    assert_eq!(phase, Phase::Done);
    match action {
        Action::UseToken { token, store } => {
            assert_eq!(token.secret, "T1");
            assert!(!store);
        }
        _ => panic!("expected the cached token to be used"),
    }
}

#[test]
fn missing_cache_same_as_no_cache() {
    assert!(load_cached_token(None).is_none());
    assert!(load_cached_token(Some("not json".to_string())).is_none());
    assert!(load_cached_token(Some("{\"other\":1}".to_string())).is_none());
    assert!(load_cached_token(Some("{\"access_token\":5}".to_string())).is_none());
    assert!(load_cached_token(Some("[\"access_token\"]".to_string())).is_none());
    assert!(token_from_member(None).is_none());
    assert_eq!(token_from_member(Some(String::new())).unwrap().secret, "");
    let cfg = FlowConfig { code_source: CodeSource::LocalListener, token_mode: TokenMode::Cached };
    let (phase, action) = step(&cfg, Phase::Start, Event::CacheLoaded(load_cached_token(None)));
    assert_eq!(phase, Phase::AwaitingCode);
    assert!(matches!(action, Action::ListenThenShowUrl));
}

#[test]
fn store_then_load_round_trip() {
    for secret in ["T1", "", "with \"quotes\" and \\ slash", "ünï", "tab\tnl\n"] {
        let tok = AccessToken { secret: secret.to_string() };
        let record = cache_record(&tok);
        assert!(record.starts_with("{\"access_token\":\""));
        let back = load_cached_token(Some(record)).unwrap();
        assert_eq!(back.secret.as_bytes(), secret.as_bytes());
    }
}

#[test]
fn flow_steps_in_order() {
    let cfg = FlowConfig { code_source: CodeSource::ManualPaste, token_mode: TokenMode::Ephemeral };
    let (p, a) = step(&cfg, Phase::Start, Event::CacheLoaded(None));
    assert_eq!(p, Phase::AwaitingCode);
    assert!(matches!(a, Action::ShowUrlThenPrompt));
    let (p, a) = step(&cfg, p, Event::CodeDelivered("XYZ".to_string()));
    assert_eq!(p, Phase::Exchanging);
    assert!(matches!(a, Action::Exchange(ref c) if c == "XYZ"));
    let (p, a) = step(&cfg, p, Event::TokenIssued(AccessToken { secret: "T2".to_string() }));
    assert_eq!(p, Phase::Done);
    assert!(matches!(a, Action::UseToken { ref token, store: false } if token.secret == "T2"));
    let (p, a) = step(&cfg, p, Event::CodeDelivered("again".to_string()));
    assert_eq!(p, Phase::Done);
    assert!(matches!(a, Action::Fail(FlowError::UnexpectedEvent)));
    let (_, a) = step(&cfg, Phase::AwaitingCode, Event::CodeUnavailable);
    assert!(matches!(a, Action::Fail(FlowError::NoCode)));
}

#[test]
fn bearer_header_value() {
    let tok = AccessToken { secret: "T1".to_string() };
    assert_eq!(bearer_value(&tok), "Bearer T1");
}

#[test]
fn pasted_code_is_trimmed() {
    assert_eq!(pasted_code("  XYZ\r\n"), Some("XYZ".to_string()));
    assert_eq!(pasted_code("a b"), Some("a b".to_string()));
    assert_eq!(pasted_code(" \t\n"), None);
    assert_eq!(pasted_code(""), None);
}

#[test]
fn empty_cached_secret_is_kept() {
    let tok = load_cached_token(Some("{\"access_token\":\"\"}".to_string())).unwrap();
    assert_eq!(tok.secret, "");
    assert_eq!(cache_record(&AccessToken { secret: "a\"b".to_string() }), "{\"access_token\":\"a\\\"b\"}");
}
