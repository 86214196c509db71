use codex_web::daemon_config::SshTunnelConfig;
use codex_web::ssh_tunnel::ssh_args;
use codex_web::ssh_tunnel::SshTunnelInput;
use codex_web::ssh_tunnel::tunnel_proxy_url;
use codex_web::ssh_tunnel::tunnel_state;
use codex_web::ssh_tunnel::tunnel_status;

#[test]
fn builds_constrained_dynamic_forward_command() {
    let args = ssh_args(
        &SshTunnelConfig {
            destination: "codex@example.com".to_string(),
            identity_file: Some("/keys/id_ed25519".to_string()),
            ssh_port: Some(2222),
            local_port: None,
        },
        1080,
    );

    assert_eq!(
        args,
        [
            "-N",
            "-D",
            "127.0.0.1:1080",
            "-o",
            "ExitOnForwardFailure=yes",
            "-o",
            "BatchMode=yes",
            "-o",
            "ServerAliveInterval=30",
            "-p",
            "2222",
            "-i",
            "/keys/id_ed25519",
            "codex@example.com",
        ]
        .map(String::from)
    );
}

#[test]
fn minimal_tunnel_command_names_only_the_destination() {
    let args = ssh_args(
        &SshTunnelConfig {
            destination: "host".to_string(),
            identity_file: None,
            ssh_port: None,
            local_port: None,
        },
        9,
    );
    assert_eq!(args.len(), 10);
    assert_eq!(args[2], "127.0.0.1:9");
    assert_eq!(args[9], "host");
}

#[test]
fn tunnel_inputs_are_checked_like_the_config_table() {

    let input = SshTunnelInput {
        destination: "codex@example.com".to_string(),
        identity_file: None,
        ssh_port: Some(2222),
        local_port: Some(1080),
    };
    let config = input.validate().expect("valid");
    assert_eq!(config.ssh_port, Some(2222));
    let bad = SshTunnelInput {
        destination: "two words".to_string(),
        identity_file: None,
        ssh_port: None,
        local_port: None,
    };
    assert!(bad.validate().is_err());
    assert_eq!(tunnel_state(true), "connected");
    assert_eq!(tunnel_state(false), "disabled");
    assert_eq!(tunnel_proxy_url(1080), "socks5h://127.0.0.1:1080");
}

#[test]
fn tunnel_status_reports_whether_the_process_runs() {
    assert_eq!(tunnel_status(false, false), "disabled");
    assert_eq!(tunnel_status(true, true), "connected");
    assert_eq!(tunnel_status(true, false), "failed");
}

