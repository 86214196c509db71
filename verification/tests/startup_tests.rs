use codex_web::server::ListenAddress;
use codex_web::startup::allowed_authorities;
use codex_web::startup::browser_url;
use codex_web::startup::callback_overrides;
use codex_web::startup::callback_url;
use codex_web::startup::instance_id;
use codex_web::startup::requested_port;
use codex_web::startup::startup_path;
use codex_web::startup::startup_urls;

fn loopback() -> Vec<ListenAddress> {
    vec![
        ListenAddress {
            ip: "127.0.0.1".to_string(),
            is_ipv6: false,
            is_loopback: true,
            port: 4000,
        },
        ListenAddress {
            ip: "::1".to_string(),
            is_ipv6: true,
            is_loopback: true,
            port: 4000,
        },
    ]
}

#[test]
fn ports_prefer_the_command_line() {
    assert_eq!(requested_port(8080, Some(9090)), 8080);
    assert_eq!(requested_port(0, Some(9090)), 9090);
    assert_eq!(requested_port(0, None), 0);
}

#[test]
fn callback_settings() {
    assert_eq!(
        callback_overrides("http://h:1/oauth/callback", 5555),
        vec![
            "mcp_oauth_callback_port=5555".to_string(),
            "mcp_oauth_callback_url=\"http://h:1/oauth/callback\"".to_string()
        ]
    );
    assert_eq!(
        callback_url(Some("http://x/oauth/callback".to_string()), &loopback()),
        Some("http://x/oauth/callback".to_string())
    );
    assert_eq!(callback_url(None, &loopback()), None);
}

#[test]
fn authorities_and_links() {
    assert_eq!(
        allowed_authorities(&loopback()),
        vec!["127.0.0.1:4000", "[::1]:4000", "localhost:4000"]
    );
    assert_eq!(startup_path(None), "/");
    assert_eq!(
        startup_path(Some("/srv/my project")),
        "/?returnTo=%2Fnew%3Fcwd%3D%252Fsrv%252Fmy%2520project"
    );
    let urls = startup_urls(&loopback(), "/", "TOKEN");
    assert_eq!(
        urls,
        vec![
            "http://127.0.0.1:4000/#bootstrap=TOKEN",
            "http://[::1]:4000/#bootstrap=TOKEN"
        ]
    );
    assert_eq!(browser_url(&urls), Some(0));
    assert_eq!(browser_url(&vec!["http://[::1]:1/".to_string()]), None);
    let id = instance_id();
    assert_eq!(id.len(), 16);
    assert!(id.bytes().all(|b| b.is_ascii_alphanumeric() || b == b'-' || b == b'_'));
}
