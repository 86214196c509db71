use codex_web::AppServerCommand;
use codex_web::bridge::MessageRoute;
use codex_web::bridge::app_server_launch;
use codex_web::bridge::request_failure_message;
use codex_web::bridge::request_id;
use codex_web::bridge::route_message;
use codex_web::bridge::BridgeBook;

#[test]
fn standalone_launch_uses_the_hidden_subcommand() {
    let plan = app_server_launch(
        &AppServerCommand::Standalone {
            executable: "/usr/bin/codex-web".to_string(),
        },
        "/home/codex/.codex",
        Some("socks5h://127.0.0.1:1080"),
        Some("sk-test"),
        &vec!["model=\"o3\"".to_string()],
        true,
    );
    assert_eq!(plan.program, "/usr/bin/codex-web");
    assert_eq!(
        plan.args,
        vec![
            "__app-server",
            "-c",
            "model=\"o3\"",
            "--strict-config",
            "--enable-openai-api-key-env"
        ]
    );
    assert_eq!(plan.env.len(), 10);
    assert_eq!(plan.env[0], ("CODEX_HOME".to_string(), "/home/codex/.codex".to_string()));
    assert_eq!(plan.env[1], ("OPENAI_API_KEY".to_string(), "sk-test".to_string()));
    assert_eq!(
        plan.env[9],
        ("no_proxy".to_string(), "127.0.0.1,localhost,::1".to_string())
    );
}

#[test]
fn codex_cli_launch_puts_overrides_before_the_subcommand() {
    let plan = app_server_launch(
        &AppServerCommand::CodexCli {
            executable: "codex".to_string(),
        },
        "/h",
        None,
        Some("sk-test"),
        &vec!["a=1".to_string(), "b=2".to_string()],
        false,
    );
    assert_eq!(plan.args, vec!["-c", "a=1", "-c", "b=2", "app-server"]);
    assert_eq!(plan.env.len(), 2);
}

#[test]
fn requests_and_messages() {
    assert_eq!(request_id(7), "web-7");
    assert_eq!(route_message(false, true, true), MessageRoute::Response);
    assert_eq!(route_message(false, true, false), MessageRoute::Event);
    assert_eq!(route_message(true, true, false), MessageRoute::ServerRequest);
    assert_eq!(route_message(true, false, false), MessageRoute::Event);
    assert_eq!(request_failure_message(None), "app-server request failed");
    assert_eq!(request_failure_message(Some("boom")), "boom");
}

#[test]
fn answers_settle_their_request_once() {
    let mut book = BridgeBook::new();
    assert_eq!(book.begin_request(), "web-1");
    assert_eq!(book.begin_request(), "web-2");
    assert_eq!(book.accept_line(false, Some("web-1"), "{}".to_string()), MessageRoute::Response);
    assert_eq!(book.accept_line(false, Some("web-1"), "{}".to_string()), MessageRoute::Event);
    book.abandon("web-2");
    assert_eq!(book.accept_line(false, Some("web-2"), "{}".to_string()), MessageRoute::Event);
    assert_eq!(book.accept_line(false, None, "{}".to_string()), MessageRoute::Event);
}

#[test]
fn server_requests_wait_until_answered() {
    let mut book = BridgeBook::new();
    let request = r#"{"id":7,"method":"item/commandExecution/requestApproval"}"#.to_string();
    assert_eq!(book.accept_line(true, Some("7"), request.clone()), MessageRoute::ServerRequest);
    assert_eq!(book.accept_line(true, None, "{}".to_string()), MessageRoute::Event);
    assert_eq!(book.outstanding(), vec![request]);
    book.answer(Some("8"));
    assert_eq!(book.outstanding().len(), 1);
    book.answer(Some("7"));
    assert!(book.outstanding().is_empty());
}


#[test]
fn raw_lines_are_parsed_and_routed() {
    let mut book = BridgeBook::new();
    assert_eq!(book.handle_line("not json".to_string()), None);
    assert_eq!(book.begin_request(), "web-1");
    assert_eq!(
        book.handle_line(r#"{"id":"web-1","result":{}}"#.to_string()),
        Some(MessageRoute::Response)
    );
    assert_eq!(
        book.handle_line(r#"{"id":"web-1","result":{}}"#.to_string()),
        Some(MessageRoute::Event)
    );
    let request = r#"{"id":7,"method":"item/commandExecution/requestApproval"}"#.to_string();
    assert_eq!(book.handle_line(request.clone()), Some(MessageRoute::ServerRequest));
    assert_eq!(
        book.handle_line(r#"{"method":"turn/started"}"#.to_string()),
        Some(MessageRoute::Event)
    );
    assert_eq!(book.outstanding(), vec![request]);
    book.answer(Some("7"));
    assert!(book.outstanding().is_empty());
}
