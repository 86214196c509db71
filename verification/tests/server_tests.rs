use codex_web::daemon_config::AccountProfile;
use codex_web::daemon_config::AccountRole;
use codex_web::daemon_config::DaemonConfig;
use codex_web::server::AccountCredentials;
use codex_web::server::AccountMoveDirection;
use codex_web::server::AccountProfilesRequest;
use codex_web::server::ListenAddress;
use codex_web::server::StoredAuth;
use codex_web::server::StoredTokens;
use codex_web::server::account_available;
use codex_web::server::account_candidates;
use codex_web::server::account_credentials;
use codex_web::server::apply_profiles_request;
use codex_web::server::authority;
use codex_web::server::base_path;
use codex_web::server::mcp_callback_url;
use codex_web::server::no_healthy_account_message;
use codex_web::server::page_workspace_cwd;
use codex_web::server::permission_mode;
use codex_web::server::query_value;
use codex_web::server::rate_limited;
use codex_web::server::restart_needed;
use codex_web::server::switch_candidates;
use codex_web::server::thread_is_active;
use codex_web::server::valid_callback_id;
use codex_web::AppServerCommand;
use codex_web::error::ErrorKind;
use codex_web::server::profile_runtime;
use codex_web::server::active_turn_id;
use codex_web::server::last_event_id;
use codex_web::server::oauth_callback_body;
use codex_web::server::oauth_callback_request;
use codex_web::server::rpc_plan;
use codex_web::server::Access;
use codex_web::server::AccountAuthKind;
use codex_web::server::AuthRoute;
use codex_web::server::auth_route;
use codex_web::server::auth_runtime;
use codex_web::server::instance_access;
use codex_web::server::mutation_allowed;
use codex_web::server::public_access;

fn address(ip: &str, is_ipv6: bool, is_loopback: bool) -> ListenAddress {
    ListenAddress {
        ip: ip.to_string(),
        is_ipv6,
        is_loopback,
        port: 34261,
    }
}

#[test]
fn oauth_callback_id_accepts_only_bound_base64url_identifier() {
    assert!(valid_callback_id("Abc_123-xYz9"));
    assert!(!valid_callback_id("short"));
    assert!(!valid_callback_id("abcdefghijkl%0d%0a"));
    assert!(!valid_callback_id("abcdefghijk\n"));
}

#[test]
fn mcp_callback_prefers_tailnet_ipv4() {
    let addresses = vec![
        address("127.0.0.1", false, true),
        address("fd7a:115c:a1e0::1", true, false),
        address("100.71.13.123", false, false),
    ];

    assert_eq!(
        mcp_callback_url(&addresses),
        Some("http://100.71.13.123:34261/oauth/callback".to_string())
    );
}

#[test]
fn mcp_callback_stays_local_without_tailnet() {
    let addresses = vec![
        address("127.0.0.1", false, true),
        address("::1", true, true),
    ];

    assert_eq!(mcp_callback_url(&addresses), None);
}

#[test]
fn mcp_callback_falls_back_to_reachable_ipv6() {
    let addresses = vec![
        address("127.0.0.1", false, true),
        address("fd7a:115c:a1e0::1", true, false),
    ];

    assert_eq!(
        mcp_callback_url(&addresses),
        Some("http://[fd7a:115c:a1e0::1]:34261/oauth/callback".to_string())
    );
}

#[test]
fn page_workspace_prefers_the_active_thread_directory() {
    assert_eq!(
        page_workspace_cwd(Some("/projects/thread"), Some("/projects/selected"), "/daemon"),
        "/projects/thread"
    );
    assert_eq!(
        page_workspace_cwd(None, Some("/projects/selected"), "/daemon"),
        "/projects/selected"
    );
    assert_eq!(page_workspace_cwd(None, None, "/daemon"), "/daemon");
}

#[test]
fn account_switching_recognizes_active_thread_read_responses() {
    assert!(thread_is_active(Some("active")));
    assert!(!thread_is_active(Some("idle")));
}

#[test]
fn formats_socket_authorities() {
    let v4 = ListenAddress {
        ip: "127.0.0.1".to_string(),
        is_ipv6: false,
        is_loopback: true,
        port: 34261,
    };
    let v6 = ListenAddress {
        ip: "::1".to_string(),
        is_ipv6: true,
        is_loopback: true,
        port: 34261,
    };
    assert_eq!(authority(&v4), "127.0.0.1:34261");
    assert_eq!(authority(&v6), "[::1]:34261");
}

#[test]
fn instance_pages_live_under_their_id() {
    assert_eq!(base_path("instance"), "/i/instance");
}

#[test]
fn permission_mode_prefers_the_active_profile() {
    assert_eq!(permission_mode(Some(":danger-full-access"), None, None), "full-access");
    assert_eq!(permission_mode(Some(":read-only"), Some("never"), None), "read-only");
    assert_eq!(permission_mode(Some(":workspace"), None, Some("read-only")), "workspace");
    assert_eq!(
        permission_mode(None, Some("never"), Some("danger-full-access")),
        "full-access"
    );
    assert_eq!(
        permission_mode(None, Some("on-request"), Some("danger-full-access")),
        "workspace"
    );
    assert_eq!(permission_mode(Some(":other"), None, Some("read-only")), "read-only");
    assert_eq!(permission_mode(None, None, None), "workspace");
}

#[test]
fn query_values_are_matched_by_exact_name() {
    assert_eq!(
        query_value("code=abc&state=xyz", "state"),
        Some("xyz".to_string())
    );
    assert_eq!(query_value("code=abc&state=xyz", "stat"), None);
    assert_eq!(query_value("a=1&a=2", "a"), Some("1".to_string()));
    assert_eq!(query_value("flag&x=", "x"), Some(String::new()));
}

fn profile(name: &str, role: AccountRole) -> AccountProfile {
    AccountProfile {
        name: name.to_string(),
        label: name.to_string(),
        role,
        credential_home: format!("/homes/{name}"),
        proxy: None,
        use_ssh_tunnel: false,
    }
}

fn config_with(accounts: Vec<AccountProfile>) -> DaemonConfig {
    DaemonConfig {
        source_path: "/etc/codex/daemon.toml".to_string(),
        codex_home: "/homes/primary".to_string(),
        port: None,
        mcp_oauth_callback_url: None,
        accounts,
        ssh_tunnel: None,
    }
}

#[test]
fn profile_requests_edit_the_fallback_order() {
    let config = config_with(vec![
        profile("primary", AccountRole::Primary),
        profile("a", AccountRole::Fallback),
        profile("b", AccountRole::Fallback),
    ]);

    let moved = apply_profiles_request(
        &config,
        &AccountProfilesRequest::Move {
            name: "a".to_string(),
            direction: AccountMoveDirection::Up,
        },
        "primary",
    )
    .expect("move up");
    assert_eq!(
        moved.iter().map(|a| a.name.as_str()).collect::<Vec<_>>(),
        vec!["primary", "a", "b"]
    );

    let moved = apply_profiles_request(
        &config,
        &AccountProfilesRequest::Move {
            name: "a".to_string(),
            direction: AccountMoveDirection::Down,
        },
        "primary",
    )
    .expect("move down");
    assert_eq!(
        moved.iter().map(|a| a.name.as_str()).collect::<Vec<_>>(),
        vec!["primary", "b", "a"]
    );

    let error = apply_profiles_request(
        &config,
        &AccountProfilesRequest::Move {
            name: "primary".to_string(),
            direction: AccountMoveDirection::Down,
        },
        "a",
    )
    .expect_err("primary stays");
    assert_eq!(error, "the primary account stays first");
}

#[test]
fn profile_requests_add_update_and_remove() {
    let config = config_with(vec![
        profile("primary", AccountRole::Primary),
        profile("a", AccountRole::Fallback),
    ]);

    let added = apply_profiles_request(
        &config,
        &AccountProfilesRequest::Add {
            name: "personal".to_string(),
            label: "  ".to_string(),
            proxy: Some(" ".to_string()),
            use_ssh_tunnel: false,
        },
        "primary",
    )
    .expect("add");
    assert_eq!(added.len(), 3);
    assert_eq!(added[2].label, "personal");
    assert_eq!(added[2].role, AccountRole::Fallback);
    assert_eq!(added[2].proxy, None);
    assert_eq!(added[2].credential_home, "/etc/codex/accounts/personal");

    let updated = apply_profiles_request(
        &config,
        &AccountProfilesRequest::Update {
            name: "a".to_string(),
            label: "Work".to_string(),
            proxy: Some("socks5h://127.0.0.1:1080".to_string()),
            use_ssh_tunnel: false,
        },
        "primary",
    )
    .expect("update");
    assert_eq!(updated[1].label, "Work");
    assert_eq!(updated[1].proxy.as_deref(), Some("socks5h://127.0.0.1:1080"));

    assert_eq!(
        apply_profiles_request(
            &config,
            &AccountProfilesRequest::Remove {
                name: "primary".to_string()
            },
            "a",
        )
        .expect_err("primary"),
        "the primary account cannot be removed"
    );
    assert_eq!(
        apply_profiles_request(
            &config,
            &AccountProfilesRequest::Remove {
                name: "a".to_string()
            },
            "a",
        )
        .expect_err("active"),
        "switch away from the active account before removing it"
    );
    assert_eq!(
        apply_profiles_request(
            &config,
            &AccountProfilesRequest::Remove {
                name: "missing".to_string()
            },
            "a",
        )
        .expect_err("missing"),
        "account profile not found"
    );
    let removed = apply_profiles_request(
        &config,
        &AccountProfilesRequest::Remove {
            name: "a".to_string(),
        },
        "primary",
    )
    .expect("remove");
    assert_eq!(removed.len(), 1);
    assert_eq!(removed[0].name, "primary");
}

#[test]
fn connection_changes_of_the_active_account_need_a_restart() {
    let accounts = vec![
        profile("primary", AccountRole::Primary),
        profile("a", AccountRole::Fallback),
    ];
    let change = AccountProfilesRequest::Update {
        name: "a".to_string(),
        label: "A".to_string(),
        proxy: Some("http://proxy:8080".to_string()),
        use_ssh_tunnel: false,
    };
    assert!(restart_needed(&accounts, &change, "a"));
    assert!(!restart_needed(&accounts, &change, "primary"));
    let relabel = AccountProfilesRequest::Update {
        name: "a".to_string(),
        label: "A".to_string(),
        proxy: None,
        use_ssh_tunnel: false,
    };
    assert!(!restart_needed(&accounts, &relabel, "a"));
}

#[test]
fn preferred_account_is_tried_first() {
    let accounts = vec![
        profile("primary", AccountRole::Primary),
        profile("a", AccountRole::Fallback),
        profile("b", AccountRole::Fallback),
    ];
    assert_eq!(account_candidates(&accounts, Some("b")), vec![2, 0, 1]);
    assert_eq!(account_candidates(&accounts, Some("zzz")), vec![0, 1, 2]);
    assert_eq!(account_candidates(&accounts, None), vec![0, 1, 2]);
    assert_eq!(switch_candidates(&accounts, "a"), vec![0, 2]);
}

#[test]
fn availability_and_rate_limits() {
    assert!(account_available(true, None));
    assert!(account_available(false, Some(false)));
    assert!(!account_available(false, Some(true)));
    assert!(!account_available(false, None));

    assert!(rate_limited(true, None, None, None));
    assert!(rate_limited(false, Some(true), None, None));
    assert!(rate_limited(false, None, Some(100), None));
    assert!(rate_limited(false, None, None, Some(250)));
    assert!(!rate_limited(false, Some(false), Some(99), Some(0)));
}

#[test]
fn healthy_account_error_lists_failures() {
    assert_eq!(
        no_healthy_account_message(&Vec::new()),
        "no healthy Codex account is available"
    );
    assert_eq!(
        no_healthy_account_message(&vec!["a: down".to_string(), "b: out".to_string()]),
        "no healthy Codex account is available: a: down; b: out"
    );
}

#[test]
fn credentials_prefer_api_keys_then_tokens() {
    assert!(matches!(
        account_credentials(AccountRole::Primary, None),
        AccountCredentials::Primary
    ));
    assert!(matches!(
        account_credentials(AccountRole::Fallback, None),
        AccountCredentials::Missing
    ));
    let key = account_credentials(
        AccountRole::Fallback,
        Some(StoredAuth {
            api_key: Some("sk-private".to_string()),
            tokens: None,
        }),
    );
    assert_eq!(key.api_key(), Some("sk-private"));
    let tokens = account_credentials(
        AccountRole::Fallback,
        Some(StoredAuth {
            api_key: None,
            tokens: Some(StoredTokens {
                access_token: "token".to_string(),
                account_id: None,
                id_token_account_id: Some("acct".to_string()),
                plan_type: Some("plus".to_string()),
            }),
        }),
    );
    assert_eq!(tokens.api_key(), None);
    match tokens {
        AccountCredentials::Chatgpt {
            access_token,
            account_id,
            plan_type,
        } => {
            assert_eq!(access_token, "token");
            assert_eq!(account_id, "acct");
            assert_eq!(plan_type.as_deref(), Some("plus"));
        }
        other => panic!("unexpected credentials {other:?}"),
    }
    assert!(matches!(
        account_credentials(
            AccountRole::Fallback,
            Some(StoredAuth {
                api_key: None,
                tokens: Some(StoredTokens {
                    access_token: "token".to_string(),
                    account_id: None,
                    id_token_account_id: None,
                    plan_type: None,
                }),
            }),
        ),
        AccountCredentials::Missing
    ));
}

#[test]
fn profile_runtimes_follow_credentials_and_proxies() {

    let mut account = profile("a", AccountRole::Fallback);
    account.proxy = Some("http://proxy:8080".to_string());
    let standalone = AppServerCommand::Standalone {
        executable: "web".to_string(),
    };
    let cli = AppServerCommand::CodexCli {
        executable: "codex".to_string(),
    };
    let overrides = vec!["x=1".to_string()];

    let missing = profile_runtime(&account, &AccountCredentials::Missing, &standalone, None, &overrides)
        .expect_err("missing");
    assert_eq!(missing.kind, ErrorKind::PermissionDenied);
    let key = AccountCredentials::ApiKey("sk".to_string());
    let unsupported = profile_runtime(&account, &key, &cli, None, &overrides).expect_err("cli");
    assert_eq!(unsupported.kind, ErrorKind::Unsupported);
    let runtime = profile_runtime(&account, &key, &standalone, Some("socks5h://t"), &overrides)
        .expect("runtime");
    assert_eq!(runtime.proxy.as_deref(), Some("http://proxy:8080"));
    assert_eq!(runtime.overrides, vec!["x=1", "features.respect_system_proxy=true"]);
    account.use_ssh_tunnel = true;
    account.proxy = None;
    let runtime = profile_runtime(&account, &AccountCredentials::Primary, &cli, None, &overrides)
        .expect("runtime");
    assert_eq!(runtime.proxy, None);
    assert_eq!(runtime.overrides, vec!["x=1"]);
}

#[test]
fn browser_request_handling() {

    let plan = rpc_plan(Some("turn/start"), Some("t1"), false);
    assert!(plan.ensure_healthy_account);
    assert!(!plan.resolve_cwd);
    assert_eq!(plan.recoverable_thread.as_deref(), Some("t1"));
    let plan = rpc_plan(Some("thread/start"), Some("t1"), true);
    assert!(plan.resolve_cwd);
    assert_eq!(plan.recoverable_thread, None);

    assert_eq!(last_event_id(Some("12"), "after=3"), Some(12));
    assert_eq!(last_event_id(Some("x"), "after=3"), Some(3));
    assert_eq!(last_event_id(None, "a=1"), None);

    assert_eq!(
        oauth_callback_request("Abc_123-xYz9", "code=1&state=2", 4567),
        Some(
            "GET /oauth/callback/Abc_123-xYz9?code=1&state=2 HTTP/1.1\r\nHost: 127.0.0.1:4567\r\nConnection: close\r\n\r\n"
                .to_string()
        )
    );
    assert_eq!(oauth_callback_request("Abc_123-xYz9", "code=\r\n", 1), None);
    assert_eq!(oauth_callback_request("bad", "code=1", 1), None);
    assert_eq!(oauth_callback_body("HTTP/1.1 200 OK\r\nA: b\r\n\r\nDone\r\n\r\nx"), "Done\r\n\r\nx");
    assert_eq!(
        oauth_callback_body("garbage"),
        "MCP OAuth callback returned an invalid response"
    );

    let turns = vec![
        ("t1".to_string(), "inProgress".to_string()),
        ("t2".to_string(), "inProgress".to_string()),
        ("t3".to_string(), "completed".to_string()),
    ];
    assert_eq!(active_turn_id(&turns), "t2");
    assert_eq!(active_turn_id(&Vec::new()), "");
}

fn allowed() -> Vec<String> {
    vec!["127.0.0.1:4310".to_string(), "localhost:4310".to_string()]
}

#[test]
fn requests_need_an_allowed_host() {
    assert!(public_access(&allowed(), Some("localhost:4310")));
    assert!(!public_access(&allowed(), Some("evil.example:4310")));
    assert!(!public_access(&allowed(), None));
}

#[test]
fn instance_pages_hide_other_instances_and_strangers() {
    let a = allowed();
    assert_eq!(instance_access(&a, Some("127.0.0.1:4310"), "abc", "abc", true), Access::Granted);
    assert_eq!(instance_access(&a, Some("127.0.0.1:4310"), "abc", "abc", false), Access::NotFound);
    assert_eq!(instance_access(&a, Some("127.0.0.1:4310"), "xyz", "abc", true), Access::NotFound);
    assert_eq!(instance_access(&a, Some("other:1"), "abc", "abc", true), Access::Forbidden);
    assert_eq!(instance_access(&a, None, "abc", "abc", true), Access::Forbidden);
}

#[test]
fn mutations_need_a_same_host_origin() {
    let a = allowed();
    assert!(mutation_allowed(&a, Some("localhost:4310"), Some("http://localhost:4310")));
    assert!(!mutation_allowed(&a, Some("localhost:4310"), Some("http://127.0.0.1:4310")));
    assert!(!mutation_allowed(&a, Some("localhost:4310"), Some("https://localhost:4310")));
    assert!(!mutation_allowed(&a, Some("localhost:4310"), None));
    assert!(!mutation_allowed(&a, Some("evil:1"), Some("http://evil:1")));
}

#[test]
fn login_requests_route_by_role_and_state() {
    assert_eq!(auth_route(AccountAuthKind::ChatgptDeviceCode, AccountRole::Fallback, false, false), AuthRoute::DeviceCodeLogin);
    assert_eq!(auth_route(AccountAuthKind::ApiKey, AccountRole::Primary, false, false), AuthRoute::BridgeApiKeyLogin);
    assert_eq!(auth_route(AccountAuthKind::ApiKey, AccountRole::Fallback, false, false), AuthRoute::StoredApiKeyLogin);
    assert_eq!(auth_route(AccountAuthKind::Logout, AccountRole::Primary, true, false), AuthRoute::BridgeLogout);
    assert_eq!(auth_route(AccountAuthKind::Logout, AccountRole::Fallback, false, true), AuthRoute::StoredLogout);
    assert_eq!(auth_route(AccountAuthKind::Status, AccountRole::Fallback, true, true), AuthRoute::PendingStatus);
    assert_eq!(auth_route(AccountAuthKind::Status, AccountRole::Fallback, false, true), AuthRoute::ActiveStatus);
    assert_eq!(auth_route(AccountAuthKind::Status, AccountRole::Fallback, false, false), AuthRoute::FreshStatus);
}

#[test]
fn sign_in_app_servers_use_file_logins_and_proxies() {
    let mut fallback = profile("a", AccountRole::Fallback);
    fallback.proxy = Some("http://proxy:8080".to_string());
    let runtime = auth_runtime(&fallback, Some("socks5h://127.0.0.1:1080"));
    assert_eq!(runtime.proxy.as_deref(), Some("http://proxy:8080"));
    assert_eq!(
        runtime.overrides,
        vec![
            "cli_auth_credentials_store=\"file\"".to_string(),
            "features.respect_system_proxy=true".to_string()
        ]
    );

    fallback.use_ssh_tunnel = true;
    let tunnelled = auth_runtime(&fallback, None);
    assert_eq!(tunnelled.proxy, None);
    assert_eq!(tunnelled.overrides, vec!["cli_auth_credentials_store=\"file\"".to_string()]);

    let primary = auth_runtime(&profile("primary", AccountRole::Primary), None);
    assert_eq!(primary.proxy, None);
    assert!(primary.overrides.is_empty());
}

