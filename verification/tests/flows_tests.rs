use codex_web::daemon_config::AccountProfile;
use codex_web::daemon_config::AccountRole;
use codex_web::error::ErrorKind;
use codex_web::flows::AccountSwitch;
use codex_web::flows::Failover;
use codex_web::flows::FailoverAction;
use codex_web::flows::FailoverEvent;
use codex_web::flows::LoadedThreadWalk;
use codex_web::flows::StartupAccount;
use codex_web::flows::StartupAction;
use codex_web::flows::StartupEvent;
use codex_web::flows::SwitchAction;
use codex_web::flows::SwitchEvent;
use codex_web::flows::TunnelChange;
use codex_web::flows::TunnelChangeAction;
use codex_web::flows::TunnelChangeEvent;
use codex_web::flows::WalkAction;
use codex_web::flows::WalkEvent;
use codex_web::flows::WalkGoal;
use codex_web::flows::WalkPhase;
use codex_web::error::WebError;

fn profile(name: &str, role: AccountRole) -> AccountProfile {
    AccountProfile {
        name: name.to_string(),
        label: name.to_string(),
        role,
        credential_home: format!("/homes/{name}"),
        proxy: None,
        use_ssh_tunnel: false,
    }
}

fn listed(ids: &[&str], next: Option<&str>) -> WalkEvent {
    WalkEvent::Listed {
        thread_ids: Some(ids.iter().map(|id| id.to_string()).collect()),
        next_cursor: next.map(str::to_string),
    }
}

fn reads(action: &WalkAction, expected: &str) -> bool {
    matches!(action, WalkAction::ReadThread { thread_id } if thread_id == expected)
}

#[test]
fn active_turn_search_stops_at_the_first_active_thread() {
    let (mut walk, first) = LoadedThreadWalk::start(WalkGoal::FindActive);
    assert!(matches!(first, WalkAction::ListPage { cursor: None }));
    assert!(reads(&walk.step(listed(&["a", "b", "c"], Some("\"next\""))), "a"));
    assert!(reads(&walk.step(WalkEvent::Read { active: false }), "b"));
    assert!(matches!(walk.step(WalkEvent::Read { active: true }), WalkAction::Finish { active: true }));
    assert_eq!(walk.phase(), WalkPhase::Finished);
}

#[test]
fn active_turn_search_pages_until_the_listing_ends() {
    let (mut walk, _) = LoadedThreadWalk::start(WalkGoal::FindActive);
    assert!(reads(&walk.step(listed(&["a"], Some("\"page-2\""))), "a"));
    let next = walk.step(WalkEvent::Read { active: false });
    assert!(matches!(&next, WalkAction::ListPage { cursor: Some(c) } if c == "\"page-2\""));
    assert!(reads(&walk.step(listed(&["b"], None)), "b"));
    assert!(matches!(walk.step(WalkEvent::Read { active: false }), WalkAction::Finish { active: false }));
}

#[test]
fn active_turn_search_treats_failures_as_active() {
    let (mut walk, _) = LoadedThreadWalk::start(WalkGoal::FindActive);
    assert!(matches!(walk.step(WalkEvent::ListFailed), WalkAction::Finish { active: true }));

    let (mut walk, _) = LoadedThreadWalk::start(WalkGoal::FindActive);
    let missing = WalkEvent::Listed { thread_ids: None, next_cursor: None };
    assert!(matches!(walk.step(missing), WalkAction::Finish { active: true }));

    let (mut walk, _) = LoadedThreadWalk::start(WalkGoal::FindActive);
    walk.step(listed(&["a"], None));
    assert!(matches!(walk.step(WalkEvent::ReadFailed), WalkAction::Finish { active: true }));
}

#[test]
fn empty_listing_has_no_active_turn() {
    let (mut walk, _) = LoadedThreadWalk::start(WalkGoal::FindActive);
    assert!(matches!(walk.step(listed(&[], None)), WalkAction::Finish { active: false }));
}

#[test]
fn reconciling_visits_every_thread_and_skips_unreadable_ones() {
    let (mut walk, _) = LoadedThreadWalk::start(WalkGoal::Reconcile);
    assert!(reads(&walk.step(listed(&["a", "b"], None)), "a"));
    assert!(reads(&walk.step(WalkEvent::ReadFailed), "b"));
    assert!(matches!(walk.step(WalkEvent::Read { active: true }), WalkAction::Finish { active: false }));

    let (mut walk, _) = LoadedThreadWalk::start(WalkGoal::Reconcile);
    assert!(matches!(walk.step(WalkEvent::ListFailed), WalkAction::Finish { active: false }));
}

fn reply_error(action: TunnelChangeAction) -> Option<String> {
    match action {
        TunnelChangeAction::Reply { error } => error,
        other => panic!("expected a reply, got {other:?}"),
    }
}

#[test]
fn tunnel_change_starts_tunnel_and_app_server_then_commits() {
    let (mut change, first) = TunnelChange::start(true, true);
    assert!(matches!(first, TunnelChangeAction::CheckActiveTurn));
    assert!(matches!(change.step(TunnelChangeEvent::ActiveTurn { active: false }), TunnelChangeAction::StartTunnel));
    assert!(matches!(change.step(TunnelChangeEvent::TunnelStarted), TunnelChangeAction::StartBridge));
    assert!(matches!(change.step(TunnelChangeEvent::BridgeStarted), TunnelChangeAction::Save));
    assert!(matches!(change.step(TunnelChangeEvent::Saved), TunnelChangeAction::Commit));
    assert_eq!(reply_error(change.step(TunnelChangeEvent::Committed)), None);
}

#[test]
fn tunnel_change_waits_for_the_active_turn() {
    let (mut change, _) = TunnelChange::start(true, true);
    assert_eq!(
        reply_error(change.step(TunnelChangeEvent::ActiveTurn { active: true })),
        Some("stop the active turn before changing its SSH tunnel".to_string())
    );
}

#[test]
fn tunnel_change_without_the_account_skips_turn_check_and_app_server() {
    let (mut change, first) = TunnelChange::start(false, true);
    assert!(matches!(first, TunnelChangeAction::StartTunnel));
    assert!(matches!(change.step(TunnelChangeEvent::TunnelStarted), TunnelChangeAction::Save));

    let (mut removal, first) = TunnelChange::start(false, false);
    assert!(matches!(first, TunnelChangeAction::Save));
    assert!(matches!(removal.step(TunnelChangeEvent::Saved), TunnelChangeAction::Commit));
}

#[test]
fn failed_tunnel_change_shuts_down_what_it_started() {
    let (mut change, _) = TunnelChange::start(true, true);
    change.step(TunnelChangeEvent::ActiveTurn { active: false });
    change.step(TunnelChangeEvent::TunnelStarted);
    change.step(TunnelChangeEvent::BridgeStarted);
    let failed = change.step(TunnelChangeEvent::SaveFailed { message: "disk full".to_string() });
    assert!(matches!(failed, TunnelChangeAction::StopBridge));
    assert!(matches!(change.step(TunnelChangeEvent::Stopped), TunnelChangeAction::StopTunnel));
    assert_eq!(reply_error(change.step(TunnelChangeEvent::Stopped)), Some("disk full".to_string()));

    let (mut change, _) = TunnelChange::start(true, true);
    change.step(TunnelChangeEvent::ActiveTurn { active: false });
    change.step(TunnelChangeEvent::TunnelStarted);
    let failed = change.step(TunnelChangeEvent::BridgeFailed { message: "no login".to_string() });
    assert!(matches!(failed, TunnelChangeAction::StopTunnel));
    assert_eq!(reply_error(change.step(TunnelChangeEvent::Stopped)), Some("no login".to_string()));

    let (mut change, _) = TunnelChange::start(false, true);
    let failed = change.step(TunnelChangeEvent::TunnelFailed { message: "refused".to_string() });
    assert_eq!(reply_error(failed), Some("refused".to_string()));
}

fn switch_error(action: SwitchAction) -> Option<WebError> {
    match action {
        SwitchAction::Reply { error } => error,
        other => panic!("expected a reply, got {other:?}"),
    }
}

#[test]
fn account_switch_installs_a_healthy_account() {
    let (mut switch, first) = AccountSwitch::start();
    assert!(matches!(first, SwitchAction::CheckActiveTurn));
    assert!(matches!(switch.step(SwitchEvent::ActiveTurn { active: false }), SwitchAction::FindProfile));
    assert!(matches!(switch.step(SwitchEvent::ProfileFound { found: true }), SwitchAction::StartBridge));
    assert!(matches!(switch.step(SwitchEvent::BridgeStarted), SwitchAction::ReadAccount));
    assert!(matches!(switch.step(SwitchEvent::AccountRead { available: true }), SwitchAction::CheckRateLimit));
    assert!(matches!(switch.step(SwitchEvent::RateLimit { limited: false }), SwitchAction::Install));
    assert!(switch_error(switch.step(SwitchEvent::Installed)).is_none());
}

#[test]
fn account_switch_refusals() {
    let (mut switch, _) = AccountSwitch::start();
    assert!(matches!(switch.step(SwitchEvent::ActiveTurn { active: true }), SwitchAction::WaitForIdle));
    assert!(matches!(switch.step(SwitchEvent::ActiveTurn { active: true }), SwitchAction::WaitForIdle));
    assert!(matches!(switch.step(SwitchEvent::ActiveTurn { active: false }), SwitchAction::FindProfile));

    let (mut switch, _) = AccountSwitch::start();
    switch.step(SwitchEvent::ActiveTurn { active: false });
    let missing = switch_error(switch.step(SwitchEvent::ProfileFound { found: false })).expect("error");
    assert_eq!(missing.kind, ErrorKind::NotFound);
    assert_eq!(missing.message, "account profile not found");

    let (mut switch, _) = AccountSwitch::start();
    switch.step(SwitchEvent::ActiveTurn { active: false });
    switch.step(SwitchEvent::ProfileFound { found: true });
    switch.step(SwitchEvent::BridgeStarted);
    assert!(matches!(switch.step(SwitchEvent::AccountRead { available: false }), SwitchAction::StopBridge));
    let signed_out = switch_error(switch.step(SwitchEvent::Stopped)).expect("error");
    assert_eq!(signed_out.kind, ErrorKind::PermissionDenied);
    assert_eq!(signed_out.message, "account is not signed in");

    let (mut switch, _) = AccountSwitch::start();
    switch.step(SwitchEvent::ActiveTurn { active: false });
    switch.step(SwitchEvent::ProfileFound { found: true });
    switch.step(SwitchEvent::BridgeStarted);
    switch.step(SwitchEvent::AccountRead { available: true });
    assert!(matches!(switch.step(SwitchEvent::RateLimit { limited: true }), SwitchAction::StopBridge));
    let limited = switch_error(switch.step(SwitchEvent::Stopped)).expect("error");
    assert_eq!(limited.message, "account rate limit is exhausted");
}

#[test]
fn account_switch_passes_start_and_read_failures_through() {
    let failure = WebError { kind: ErrorKind::Other, message: "spawn failed".to_string() };
    let (mut switch, _) = AccountSwitch::start();
    switch.step(SwitchEvent::ActiveTurn { active: false });
    switch.step(SwitchEvent::ProfileFound { found: true });
    let error = switch_error(switch.step(SwitchEvent::BridgeFailed { error: failure.clone() }));
    assert_eq!(error, Some(failure));

    let timeout = WebError { kind: ErrorKind::Other, message: "account/read timed out".to_string() };
    let (mut switch, _) = AccountSwitch::start();
    switch.step(SwitchEvent::ActiveTurn { active: false });
    switch.step(SwitchEvent::ProfileFound { found: true });
    switch.step(SwitchEvent::BridgeStarted);
    let error = switch_error(switch.step(SwitchEvent::ReadFailed { error: timeout.clone() }));
    assert_eq!(error, Some(timeout));
}

fn accounts() -> Vec<AccountProfile> {
    vec![
        profile("primary", AccountRole::Primary),
        profile("a", AccountRole::Fallback),
        profile("b", AccountRole::Fallback),
    ]
}

#[test]
fn healthy_account_needs_no_failover() {
    let (mut check, first) = Failover::start(&accounts(), "primary");
    assert!(matches!(first, FailoverAction::ReadCurrent));
    assert!(matches!(check.step(FailoverEvent::CurrentRead { available: true }), FailoverAction::CheckRateLimit));
    assert!(matches!(check.step(FailoverEvent::RateLimit { limited: false }), FailoverAction::Reply { error: None }));
}

#[test]
fn failover_tries_the_other_accounts_in_order() {
    let (mut check, _) = Failover::start(&accounts(), "a");
    let first = check.step(FailoverEvent::CurrentRead { available: false });
    assert!(matches!(&first, FailoverAction::Switch { name } if name == "primary"));
    let second = check.step(FailoverEvent::SwitchFailed { message: "account is not signed in".to_string() });
    assert!(matches!(&second, FailoverAction::Switch { name } if name == "b"));
    assert!(matches!(check.step(FailoverEvent::Switched), FailoverAction::Reply { error: None }));
}

#[test]
fn failover_reports_every_failed_account() {
    let (mut check, _) = Failover::start(&accounts(), "primary");
    check.step(FailoverEvent::CurrentRead { available: true });
    check.step(FailoverEvent::RateLimit { limited: true });
    check.step(FailoverEvent::SwitchFailed { message: "x".to_string() });
    match check.step(FailoverEvent::SwitchFailed { message: "y".to_string() }) {
        FailoverAction::Reply { error: Some(error) } => {
            assert_eq!(error.kind, ErrorKind::PermissionDenied);
            assert_eq!(error.message, "no healthy Codex account is available: a: x; b: y");
        }
        other => panic!("unexpected {other:?}"),
    }

    let (mut alone, _) = Failover::start(&vec![profile("primary", AccountRole::Primary)], "primary");
    match alone.step(FailoverEvent::CurrentRead { available: false }) {
        FailoverAction::Reply { error: Some(error) } => {
            assert_eq!(error.message, "no healthy Codex account is available");
        }
        other => panic!("unexpected {other:?}"),
    }
}

#[test]
fn startup_prefers_the_recovered_account() {
    let (mut choice, first) = StartupAccount::start(&accounts(), Some("b"));
    assert!(matches!(first, StartupAction::StartBridge { index: 2 }));
    assert!(matches!(choice.step(StartupEvent::BridgeStarted), StartupAction::ReadAccount));
    assert!(matches!(choice.step(StartupEvent::AccountRead { available: true }), StartupAction::CheckRateLimit));
    assert!(matches!(choice.step(StartupEvent::RateLimit { limited: false }), StartupAction::Use { index: 2 }));
    assert!(choice.failures().is_empty());
}

#[test]
fn startup_falls_back_to_the_first_account_for_login() {
    let two = vec![profile("primary", AccountRole::Primary), profile("a", AccountRole::Fallback)];
    let (mut choice, first) = StartupAccount::start(&two, None);
    assert!(matches!(first, StartupAction::StartBridge { index: 0 }));
    let next = choice.step(StartupEvent::BridgeFailed { message: "spawn failed".to_string() });
    assert!(matches!(next, StartupAction::StartBridge { index: 1 }));
    choice.step(StartupEvent::BridgeStarted);
    assert!(matches!(choice.step(StartupEvent::AccountRead { available: false }), StartupAction::StopBridge));
    assert!(matches!(choice.step(StartupEvent::Stopped), StartupAction::StartFirst));
    assert!(matches!(choice.step(StartupEvent::FirstStarted), StartupAction::Use { index: 0 }));
    assert_eq!(
        choice.failures(),
        &vec!["primary: spawn failed".to_string(), "a: not signed in".to_string()]
    );
}

#[test]
fn startup_reports_rate_limited_accounts_and_needs_an_account() {
    let (mut choice, _) = StartupAccount::start(&vec![profile("primary", AccountRole::Primary)], Some("gone"));
    choice.step(StartupEvent::BridgeStarted);
    choice.step(StartupEvent::AccountRead { available: true });
    assert!(matches!(choice.step(StartupEvent::RateLimit { limited: true }), StartupAction::StopBridge));
    assert!(matches!(choice.step(StartupEvent::Stopped), StartupAction::StartFirst));
    assert_eq!(choice.failures(), &vec!["primary: rate limit exhausted".to_string()]);

    let (_, first) = StartupAccount::start(&Vec::new(), None);
    match first {
        StartupAction::Fail { error } => {
            assert_eq!(error.kind, ErrorKind::InvalidInput);
            assert_eq!(error.message, "no accounts configured");
        }
        other => panic!("unexpected {other:?}"),
    }
}
