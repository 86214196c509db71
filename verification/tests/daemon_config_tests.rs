use codex_web::daemon_config::AccountFile;
use codex_web::daemon_config::AccountProfile;
use codex_web::daemon_config::AccountRole;
use codex_web::daemon_config::ConfigFile;
use codex_web::daemon_config::SshTunnelConfig;
use codex_web::daemon_config::SshTunnelFile;
use codex_web::daemon_config::valid_name;

const SOURCE: &str = "/srv/codex-web/daemon.toml";
const HOME: &str = "/home/codex/.codex";

fn account(name: &str, codex_home: Option<&str>) -> AccountFile {
    AccountFile {
        name: name.to_string(),
        label: None,
        role: None,
        codex_home: codex_home.map(str::to_string),
        proxy: None,
        use_ssh_tunnel: false,
    }
}

fn empty_file() -> ConfigFile {
    ConfigFile {
        port: None,
        mcp_oauth_callback_url: None,
        accounts: Vec::new(),
        ssh_tunnel: None,
    }
}

#[test]
fn loads_ordered_accounts_and_tunnel() {
    let mut primary = account("primary", Some("/srv/first"));
    primary.label = Some("Primary".to_string());
    primary.proxy = Some("http://proxy.example:8080".to_string());
    let mut backup = account("backup", Some("/srv/second"));
    backup.use_ssh_tunnel = true;
    let file = ConfigFile {
        port: Some(36915),
        mcp_oauth_callback_url: Some("http://127.0.0.1:36915/oauth/callback".to_string()),
        accounts: vec![primary, backup],
        ssh_tunnel: Some(SshTunnelFile {
            destination: "codex@example.com".to_string(),
            identity_file: Some("/srv/id_ed25519".to_string()),
            ssh_port: Some(2222),
            local_port: Some(1080),
        }),
    };

    let loaded = file
        .validate(HOME.to_string(), SOURCE.to_string())
        .expect("load config");

    assert_eq!(loaded.port, Some(36915));
    assert_eq!(
        loaded.mcp_oauth_callback_url.as_deref(),
        Some("http://127.0.0.1:36915/oauth/callback")
    );
    assert_eq!(loaded.accounts.len(), 2);
    assert_eq!(loaded.accounts[0].name, "primary");
    assert_eq!(loaded.accounts[1].label, "backup");
    assert!(loaded.accounts[1].use_ssh_tunnel);
    assert_eq!(loaded.ssh_tunnel.expect("tunnel").local_port, Some(1080));
}

#[test]
fn rejects_invalid_persistent_callback_url() {
    let mut file = empty_file();
    file.mcp_oauth_callback_url = Some("https://example.com/not-the-callback".to_string());

    let error = file
        .validate(HOME.to_string(), SOURCE.to_string())
        .expect_err("invalid callback URL");

    assert!(error.message.contains("must end at /oauth/callback"));
}

#[test]
fn rejects_duplicate_accounts_and_unsupported_proxies() {
    let mut first = account("same", Some("/srv/home"));
    first.proxy = Some("ftp://proxy.example".to_string());
    let second = account("same", Some("/srv/home"));
    let mut file = empty_file();
    file.accounts = vec![first, second];

    let error = file
        .validate(HOME.to_string(), SOURCE.to_string())
        .expect_err("invalid config");

    assert!(error.message.contains("proxy URL scheme"));
}

#[test]
fn saves_account_profile_changes_without_losing_daemon_settings() {
    let mut file = empty_file();
    file.port = Some(36915);
    file.mcp_oauth_callback_url = Some("http://127.0.0.1:36915/oauth/callback".to_string());
    let mut loaded = file
        .validate(HOME.to_string(), SOURCE.to_string())
        .expect("load config");
    let credential_home = loaded.codex_home.clone();

    loaded
        .save_accounts(vec![AccountProfile {
            name: "personal".to_string(),
            label: "Personal".to_string(),
            role: AccountRole::Primary,
            credential_home,
            proxy: Some("socks5h://127.0.0.1:1080".to_string()),
            use_ssh_tunnel: false,
        }])
        .expect("save accounts");
    let reloaded = loaded
        .to_file()
        .validate(HOME.to_string(), SOURCE.to_string())
        .expect("reload config");

    assert_eq!(reloaded.port, Some(36915));
    assert_eq!(reloaded.accounts, loaded.accounts);
    assert_eq!(
        reloaded.mcp_oauth_callback_url.as_deref(),
        Some("http://127.0.0.1:36915/oauth/callback")
    );
}

#[test]
fn saves_tunnel_changes_and_protects_assigned_accounts() {
    let mut loaded = empty_file()
        .validate(HOME.to_string(), SOURCE.to_string())
        .expect("load config");
    let tunnel = SshTunnelConfig::validated(
        "codex@example.com".to_string(),
        Some("/srv/id_ed25519".to_string()),
        Some(2222),
        Some(1080),
    )
    .expect("valid tunnel");

    loaded
        .save_ssh_tunnel(Some(tunnel.clone()))
        .expect("save tunnel");
    let mut accounts = loaded.accounts.clone();
    accounts[0].use_ssh_tunnel = true;
    loaded.save_accounts(accounts).expect("assign tunnel");

    assert_eq!(
        loaded
            .to_file()
            .validate(HOME.to_string(), SOURCE.to_string())
            .expect("reload config")
            .ssh_tunnel,
        Some(tunnel)
    );
    assert!(
        loaded
            .save_ssh_tunnel(None)
            .expect_err("assigned tunnel cannot be removed")
            .message
            .contains("enables the SSH tunnel")
    );
}

#[test]
fn imports_legacy_fallback_credentials_without_moving_source_data() {
    let mut file = empty_file();
    file.accounts = vec![
        account("primary", Some("/srv/primary")),
        account("backup", Some("/srv/fallback")),
    ];

    let imports = file.legacy_imports(SOURCE);
    let loaded = file
        .validate(HOME.to_string(), SOURCE.to_string())
        .expect("load config");

    assert_eq!(loaded.accounts[0].role, AccountRole::Primary);
    assert_eq!(loaded.accounts[1].role, AccountRole::Fallback);
    assert_eq!(loaded.accounts[0].credential_home, HOME);
    assert_eq!(
        imports,
        vec![(
            "/srv/fallback".to_string(),
            "/srv/codex-web/accounts/backup".to_string()
        )]
    );
    assert_eq!(loaded.accounts[1].credential_home, "/srv/codex-web/accounts/backup");
}

#[test]
fn empty_file_gives_the_single_primary_profile() {
    let loaded = empty_file()
        .validate(HOME.to_string(), SOURCE.to_string())
        .expect("load config");
    assert_eq!(loaded.accounts.len(), 1);
    assert_eq!(loaded.accounts[0].role, AccountRole::Primary);
    assert_eq!(loaded.accounts[0].credential_home, HOME);
    assert_eq!(loaded.recovery_state_path(), "/srv/codex-web/recovery.json");
}

#[test]
fn port_zero_and_bad_tunnels_are_refused() {
    let mut file = empty_file();
    file.port = Some(0);
    assert_eq!(
        file.validate(HOME.to_string(), SOURCE.to_string())
            .expect_err("port")
            .message,
        "daemon port must be greater than zero"
    );
    assert!(SshTunnelConfig::validated("-oProxyCommand=x".to_string(), None, None, None).is_err());
    assert!(SshTunnelConfig::validated("host".to_string(), Some("relative".to_string()), None, None).is_err());
    assert!(SshTunnelConfig::validated("host".to_string(), None, Some(0), None).is_err());
    assert!(valid_name("work_1-b"));
    assert!(!valid_name("work space"));
    assert!(!valid_name(""));
}

#[test]
fn saved_file_loads_back_unchanged() {
    let mut primary = account("primary", None);
    primary.label = Some("Primary".to_string());
    primary.proxy = Some("http://proxy.example:8080".to_string());
    let mut backup = account("backup", Some("/srv/second"));
    backup.use_ssh_tunnel = true;
    let file = ConfigFile {
        port: Some(36915),
        mcp_oauth_callback_url: Some("http://127.0.0.1:36915/oauth/callback".to_string()),
        accounts: vec![primary, backup],
        ssh_tunnel: Some(SshTunnelFile {
            destination: "codex@example.com".to_string(),
            identity_file: None,
            ssh_port: None,
            local_port: Some(1080),
        }),
    };
    let loaded = file
        .validate(HOME.to_string(), SOURCE.to_string())
        .expect("load config");

    let saved = loaded.to_file();
    assert_eq!(saved.accounts[1].label.as_deref(), Some("backup"));
    assert_eq!(saved.accounts[1].role, Some(AccountRole::Fallback));
    assert_eq!(saved.accounts[1].codex_home, None);
    let reloaded = saved
        .validate(HOME.to_string(), SOURCE.to_string())
        .expect("reload config");
    assert_eq!(reloaded, loaded);
}
