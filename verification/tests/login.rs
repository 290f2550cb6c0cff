use minelaunch::login::microsoft::{generate_microsoft_auth_url, MicrosoftLoginData, RefreshStep};
use minelaunch::login::requests::{
    microsoft_token_request, xbox_live_auth_form, xbox_token_and_user_hash, MicrosoftTokenForm, MicrosoftTokenResponse,
    XBoxLiveAuthenticationClaim, XBoxLiveAuthenticationDisplayClaims, XBoxLiveAuthenticationResponse,
};
use minelaunch::time::Instant;

fn success(token: &str, expires_in: u32, refresh: Option<&str>) -> MicrosoftTokenResponse {
    MicrosoftTokenResponse::Success {
        access_token: token.to_string(),
        token_type: "Bearer".to_string(),
        expires_in,
        scope: None,
        refresh_token: refresh.map(|s| s.to_string()),
    }
}

fn failure(error: &str, description: &str) -> MicrosoftTokenResponse {
    MicrosoftTokenResponse::Error {
        error: error.to_string(),
        error_description: description.to_string(),
        error_codes: vec![70000],
        timestamp: "2024-01-01 00:00:00Z".to_string(),
        trace_id: "t".to_string(),
        correlation_id: "c".to_string(),
    }
}

#[test]
fn token_form_is_urlencoded_in_field_order() {
    let form = MicrosoftTokenForm {
        tenant: "consumers".to_string(),
        client_id: "cid".to_string(),
        scope: None,
        code: None,
        refresh_token: Some("r t".to_string()),
        redirect_uri: "http://127.0.0.1:3000/microsoft-auth".to_string(),
        grant_type: "refresh_token".to_string(),
        code_verifier: None,
        client_secret: None,
    };
    assert_eq!(
        form.encode(),
        "tenant=consumers&client_id=cid&refresh_token=r+t&redirect_uri=http%3A%2F%2F127.0.0.1%3A3000%2Fmicrosoft-auth&grant_type=refresh_token"
    );
    let req = microsoft_token_request("consumers", &form);
    assert_eq!(req.url, "https://login.microsoftonline.com/consumers/oauth2/v2.0/token");
    assert_eq!(req.content_type, "application/x-www-form-urlencoded");
    assert_eq!(req.body, form.encode());
}

#[test]
fn auth_url_carries_the_login_parameters() {
    let url = generate_microsoft_auth_url("cid", "", "abc").unwrap();
    assert_eq!(
        url,
        "https://login.microsoftonline.com/consumers/oauth2/v2.0/authorize?client_id=cid&response_type=code&redirect_url=http%3A%2F%2F127.0.0.1%3A3000&redirect_uri=http%3A%2F%2F127.0.0.1%3A3000%2Fmicrosoft-auth&scope=XboxLive.signin+offline_access&code_challenge_method=S256&code_challenge=abc&state="
    );
}

#[test]
fn begin_login_keeps_the_verifier_and_sends_its_challenge() {
    // the example of RFC 7636, appendix B
    let verifier = "dBjftJeZ4CVP-mB92K27uhbUJU1p1r_wW1gFWFOEjXk".to_string();
    let mut d = MicrosoftLoginData::default();
    let url = d.begin_login(verifier.clone(), "cid").unwrap();
    let challenge = d.challenge.clone().unwrap();
    assert_eq!(challenge, "E9Melhoa2OwvFrEMTJguCHaoeK1t8URWbuGJSstw-cM");
    assert_eq!(d.verifier, Some(verifier));
    assert!(url.contains(&format!("code_challenge={}", challenge)));
}

#[test]
fn begin_login_with_a_random_verifier() {
    let (_, verifier) = oauth2::PkceCodeChallenge::new_random_sha256_len(64);
    let verifier = verifier.secret().clone();
    let mut d = MicrosoftLoginData::default();
    d.begin_login(verifier.clone(), "cid").unwrap();
    let expected = oauth2::PkceCodeChallenge::from_code_verifier_sha256(&oauth2::PkceCodeVerifier::new(verifier));
    assert_eq!(d.challenge.unwrap(), expected.as_str());
}

#[test]
fn refresh_needs_a_refresh_token() {
    let d = MicrosoftLoginData::default();
    let now = Instant { secs: 1_700_000_000, nanos: 0 };
    assert!(d.needs_refresh(&now));
    assert!(matches!(d.refresh_step(&now, "cid"), RefreshStep::NoRefreshToken));
}

#[test]
fn refresh_sends_the_refresh_token_once_expired() {
    let mut d = MicrosoftLoginData::default();
    d.refresh_token = Some("rt".to_string());
    d.access_token = Some(("old".to_string(), Instant { secs: 100, nanos: 0 }));
    let before = Instant { secs: 99, nanos: 0 };
    assert!(matches!(d.refresh_step(&before, "cid"), RefreshStep::UpToDate));
    let after = Instant { secs: 100, nanos: 1 };
    match d.refresh_step(&after, "cid") {
        RefreshStep::Request(form) => {
            assert_eq!(form.refresh_token, Some("rt".to_string()));
            assert_eq!(form.grant_type, "refresh_token");
            assert_eq!(form.client_id, "cid");
            assert_eq!(form.tenant, "consumers");
            assert_eq!(form.code, None);
            assert_eq!(form.redirect_uri, "http://127.0.0.1:3000/microsoft-auth");
        }
        _ => panic!("expected a refresh request"),
    }
}

#[test]
fn refreshed_token_replaces_the_old_one() {
    let mut d = MicrosoftLoginData::default();
    d.refresh_token = Some("rt".to_string());
    let now = Instant { secs: 1_000, nanos: 5 };
    d.apply_refresh_response(success("new", 3600, Some("ignored")), &now);
    assert_eq!(d.access_token(), Some("new".to_string()));
    assert_eq!(d.access_token.as_ref().unwrap().1, Instant { secs: 4_600, nanos: 5 });
    // the refresh path keeps the refresh token it had
    assert_eq!(d.refresh_token, Some("rt".to_string()));
    // the new token is not due for a refresh right away
    assert!(!d.needs_refresh(&now));
    d.apply_refresh_response(failure("invalid_grant", "bad"), &now);
    assert_eq!(d.access_token(), Some("new".to_string()));
}

#[test]
fn authorization_exchanges_the_code_with_the_verifier() {
    let mut d = MicrosoftLoginData::default();
    assert!(d.authorization_form("code", "cid").is_none());
    d.begin_login_with("ch".to_string(), "ver".to_string(), "cid").unwrap();
    let form = d.authorization_form("the-code", "cid").unwrap();
    assert_eq!(form.code, Some("the-code".to_string()));
    assert_eq!(form.code_verifier, Some("ver".to_string()));
    assert_eq!(form.grant_type, "authorization_code");
    assert_eq!(form.refresh_token, None);
}

#[test]
fn authorization_response_stores_both_tokens() {
    let mut d = MicrosoftLoginData::default();
    d.refresh_token = Some("old".to_string());
    let now = Instant { secs: 10, nanos: 0 };
    assert!(d.apply_authorization_response(success("at", 60, None), &now).is_none());
    assert_eq!(d.access_token(), Some("at".to_string()));
    assert_eq!(d.refresh_token, None);
    assert!(d.apply_authorization_response(success("at2", 60, Some("rt2")), &now).is_none());
    assert_eq!(d.refresh_token, Some("rt2".to_string()));
}

#[test]
fn authorization_error_is_reported() {
    let mut d = MicrosoftLoginData::default();
    let now = Instant { secs: 10, nanos: 0 };
    let p = d.apply_authorization_response(failure("invalid_grant", "The code expired"), &now).unwrap();
    assert_eq!(p.name, "Microsoft login failed");
    assert_eq!(p.description, "invalid_grant: The code expired");
    assert_eq!(d.access_token(), None);
}

#[test]
fn xbox_live_form_wraps_the_access_token() {
    let f = xbox_live_auth_form("tok");
    assert_eq!(f.properties.auth_method, "RPS");
    assert_eq!(f.properties.site_name, "user.auth.xboxlive.com");
    assert_eq!(f.properties.rps_ticket, "d=tok");
    assert_eq!(f.relying_party, "http://auth.xboxlive.com");
    assert_eq!(f.token_type, "JWT");
}

#[test]
fn xbox_user_hash_is_the_first_claim() {
    let mut r = XBoxLiveAuthenticationResponse {
        issue_instant: "i".to_string(),
        not_after: "n".to_string(),
        token: "xt".to_string(),
        display_claims: XBoxLiveAuthenticationDisplayClaims {
            xui: vec![XBoxLiveAuthenticationClaim { uhs: "h1".to_string() }, XBoxLiveAuthenticationClaim { uhs: "h2".to_string() }],
        },
    };
    assert_eq!(xbox_token_and_user_hash(&r), Some(("xt".to_string(), "h1".to_string())));
    r.display_claims.xui.clear();
    assert_eq!(xbox_token_and_user_hash(&r), None);
}
