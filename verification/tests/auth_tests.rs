use base64::Engine;
use base64::engine::general_purpose::URL_SAFE_NO_PAD;
use codex_web::auth::WebAuth;
use codex_web::auth::session_cookie_value;
use codex_web::auth::stored_token;
use codex_web::auth::token_file_contents;

#[test]
fn session_cookie_round_trips_without_exposing_bootstrap_token() {
    let key = [7_u8; 32];
    let auth = WebAuth {
        key,
        bootstrap_token: URL_SAFE_NO_PAD.encode(key),
    };

    let cookie = auth.session_cookie("/i/instance").expect("session cookie");
    let request_cookie = cookie.split(';').next().expect("cookie pair");

    assert!(auth.authorize_cookie_header(Some(request_cookie)));
    assert!(!cookie.contains(auth.bootstrap_token()));
    assert!(cookie.contains("Path=/i/instance;"));
}

#[test]
fn changed_key_invalidates_existing_session_cookie() {
    let auth = WebAuth {
        key: [7_u8; 32],
        bootstrap_token: URL_SAFE_NO_PAD.encode([7_u8; 32]),
    };
    let changed = WebAuth {
        key: [8_u8; 32],
        bootstrap_token: URL_SAFE_NO_PAD.encode([8_u8; 32]),
    };
    let cookie = auth.session_cookie("/i/instance").expect("session cookie");
    let request_cookie = cookie.split(';').next().expect("cookie pair");

    assert!(!changed.authorize_cookie_header(Some(request_cookie)));
}

#[test]
fn bootstrap_token_comparison_rejects_invalid_values() {
    let key = [9_u8; 32];
    let auth = WebAuth {
        key,
        bootstrap_token: URL_SAFE_NO_PAD.encode(key),
    };

    assert!(auth.verify_bootstrap(auth.bootstrap_token()));
    assert!(!auth.verify_bootstrap("not-a-token"));
}

#[test]
fn cookie_expires_after_thirty_days() {
    let key = [3_u8; 32];
    let auth = WebAuth {
        key,
        bootstrap_token: URL_SAFE_NO_PAD.encode(key),
    };
    let cookie = auth
        .session_cookie_at("/i/x", 1_000, "nonce")
        .expect("session cookie");
    let pair = cookie.split(';').next().expect("cookie pair");

    assert!(cookie.starts_with("typeduck_codex_web=2593000.nonce."));
    assert!(cookie.ends_with("; Path=/i/x; HttpOnly; SameSite=Lax; Max-Age=2592000"));
    assert!(auth.authorize_cookie_header_at(Some(pair), Some(2_593_000)));
    assert!(!auth.authorize_cookie_header_at(Some(pair), Some(2_593_001)));
    assert!(!auth.authorize_cookie_header_at(Some(pair), None));
    assert!(!auth.authorize_cookie_header_at(None, Some(1_000)));
}

#[test]
fn cookie_value_is_found_among_other_cookies() {
    assert_eq!(
        session_cookie_value("theme=dark; typeduck_codex_web=12.ab.cd; other=1"),
        Some("12.ab.cd".to_string())
    );
    assert_eq!(session_cookie_value("theme=dark"), None);
}

#[test]
fn token_files_hold_one_trimmed_token() {

    let token = URL_SAFE_NO_PAD.encode([5_u8; 32]);
    let contents = token_file_contents(&token);
    assert_eq!(contents, format!("{token}\n"));
    assert_eq!(stored_token(&contents).expect("token"), token);
    assert!(stored_token("short").is_err());
    let auth = WebAuth::from_token(token.clone()).expect("auth");
    assert!(auth.verify_bootstrap(&token));
    assert!(WebAuth::from_token("x".to_string()).is_err());
}
