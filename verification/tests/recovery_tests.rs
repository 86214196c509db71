use codex_web::recovery::RecoverableSession;
use codex_web::recovery::RecoveryAction;
use codex_web::recovery::RecoveryState;
use codex_web::recovery::RestoreOutcome;
use codex_web::recovery::RestoreStep;
use codex_web::recovery::SavedTurnSettings;
use codex_web::recovery::is_root_active_thread;
use codex_web::recovery::recovery_action;
use codex_web::recovery::restore_after_goal;
use codex_web::recovery::restore_after_resume;
use codex_web::recovery::check_recovery_version;
use codex_web::recovery::recovery_turn;

fn reload(state: &RecoveryState) -> RecoveryState {
    RecoveryState::from_sessions(state.sorted_sessions())
}

#[test]
fn persists_only_sessions_that_remain_active() {
    let mut manager = RecoveryState::new();

    assert!(manager.mark_active("thread-a", "work"));
    assert!(manager.mark_active("thread-b", "work"));
    assert!(manager.mark_idle("thread-a"));

    let mut restored = reload(&manager);
    let sessions = restored.begin_restore();
    assert_eq!(sessions.len(), 1);
    assert_eq!(sessions[0].thread_id, "thread-b");
    assert_eq!(sessions[0].account_name, "work");
    assert!(sessions[0].settings.is_empty());
}

#[test]
fn restoring_session_is_not_removed_by_transient_idle_status() {
    let mut manager = RecoveryState::new();
    manager.mark_active("thread-a", "work");

    assert_eq!(manager.begin_restore().len(), 1);
    assert!(!manager.mark_idle("thread-a"));

    assert_eq!(reload(&manager).begin_restore().len(), 1);
}

#[test]
fn completed_turn_is_not_recovered_again() {
    assert_eq!(
        restore_after_goal(None, Some("completed")),
        RestoreStep::Done(RestoreOutcome::Discarded)
    );
    assert_eq!(
        restore_after_goal(None, Some("failed")),
        RestoreStep::Done(RestoreOutcome::Discarded)
    );
    assert_eq!(restore_after_goal(None, Some("inProgress")), RestoreStep::StartTurn);
    assert_eq!(
        restore_after_goal(Some("active"), Some("completed")),
        RestoreStep::Done(RestoreOutcome::GoalContinued)
    );
    assert_eq!(
        restore_after_resume(true),
        RestoreStep::Done(RestoreOutcome::Discarded)
    );
    assert_eq!(restore_after_resume(false), RestoreStep::ReadGoal);
}

#[test]
fn only_active_root_threads_are_tracked() {
    assert_eq!(is_root_active_thread(false, Some("active")), true);
    assert_eq!(is_root_active_thread(true, Some("active")), false);
    assert_eq!(is_root_active_thread(false, Some("idle")), false);
}

#[test]
fn sessions_are_restored_in_thread_order_with_their_settings() {
    let mut manager = RecoveryState::new();
    manager.mark_active("thread-c", "work");
    manager.mark_active("thread-a", "home");
    let settings = SavedTurnSettings {
        model: Some("gpt-5.6".to_string()),
        effort: Some("\"high\"".to_string()),
        collaboration_mode: None,
    };
    assert!(manager.remember_settings("thread-a", settings));
    assert!(!manager.remember_settings("thread-a", SavedTurnSettings::none()));
    assert_eq!(manager.preferred_account(), Some("home".to_string()));

    let sessions = manager.begin_restore();
    assert_eq!(
        sessions.iter().map(|s| s.thread_id.as_str()).collect::<Vec<_>>(),
        vec!["thread-a", "thread-c"]
    );
    assert_eq!(sessions[0].settings.model.as_deref(), Some("gpt-5.6"));
    // Settings seen before a thread is tracked are used once it becomes active.
    let mut fresh = RecoveryState::new();
    fresh.remember_settings(
        "thread-z",
        SavedTurnSettings {
            model: Some("m".to_string()),
            effort: None,
            collaboration_mode: None,
        },
    );
    fresh.mark_active("thread-z", "work");
    assert_eq!(
        fresh.sorted_sessions()[0].settings.model.as_deref(),
        Some("m")
    );
}

#[test]
fn restore_outcomes_settle_the_bookkeeping() {
    let mut manager = RecoveryState::new();
    manager.mark_active("thread-a", "work");
    manager.mark_active("thread-b", "work");
    manager.begin_restore();
    assert!(!manager.settle_restore("thread-a", Some(RestoreOutcome::Continued)));
    assert!(manager.mark_idle("thread-a"));
    assert!(manager.settle_restore("thread-b", Some(RestoreOutcome::Discarded)));
    assert!(manager.sorted_sessions().is_empty());
    assert_eq!(manager.preferred_account(), None);
}

#[test]
fn discard_forgets_a_thread() {
    let mut manager = RecoveryState::new();
    manager.mark_active("thread-a", "work");
    assert!(manager.discard("thread-a"));
    assert!(!manager.discard("thread-a"));
    assert!(manager.sorted_sessions().is_empty());
}

#[test]
fn notifications_map_to_recovery_actions() {
    assert_eq!(
        recovery_action(Some("thread/started"), None),
        RecoveryAction::TrackIfRootActive
    );
    assert_eq!(
        recovery_action(Some("thread/status/changed"), Some("active")),
        RecoveryAction::ConfirmActive
    );
    assert_eq!(
        recovery_action(Some("thread/status/changed"), Some("idle")),
        RecoveryAction::MarkIdle
    );
    assert_eq!(
        recovery_action(Some("thread/settings/updated"), None),
        RecoveryAction::RememberSettings
    );
    assert_eq!(
        recovery_action(Some("thread/archived"), None),
        RecoveryAction::Discard
    );
    assert_eq!(recovery_action(Some("turn/started"), None), RecoveryAction::Ignore);
    assert_eq!(recovery_action(None, None), RecoveryAction::Ignore);
}

#[test]
fn loading_keeps_the_last_entry_per_thread() {
    let sessions = vec![
        RecoverableSession {
            thread_id: "t".to_string(),
            account_name: "first".to_string(),
            settings: SavedTurnSettings::none(),
        },
        RecoverableSession {
            thread_id: "t".to_string(),
            account_name: "second".to_string(),
            settings: SavedTurnSettings::none(),
        },
    ];
    let state = RecoveryState::from_sessions(sessions);
    let listed = state.sorted_sessions();
    assert_eq!(listed.len(), 1);
    assert_eq!(listed[0].account_name, "second");
}

#[test]
fn recovery_files_are_versioned() {
    assert!(check_recovery_version(1).is_ok());
    assert_eq!(
        check_recovery_version(2).expect_err("version").message,
        "unsupported recovery state version 2"
    );
}

const RECOVERY_INSTRUCTION: &str = "The web daemon restarted while this session was running. Continue the previous task in the same mode. First inspect the persisted conversation and workspace state, verify any partially completed tool actions before repeating them, then carry on from where the interrupted turn stopped.";

#[test]
fn recovery_turn_keeps_thread_settings_implicit() {
    let session = RecoverableSession {
        thread_id: "thread-a".to_string(),
        account_name: "work".to_string(),
        settings: SavedTurnSettings::none(),
    };
    let turn = recovery_turn(&session);
    assert_eq!(turn.thread_id, "thread-a");
    assert_eq!(turn.text, RECOVERY_INSTRUCTION);
    assert_eq!(turn.settings.model, None);
    assert_eq!(turn.settings.effort, None);
    assert_eq!(turn.settings.collaboration_mode, None);
}

#[test]
fn recovery_turn_restores_collaboration_mode_model_and_effort() {
    let session = RecoverableSession {
        thread_id: "thread-a".to_string(),
        account_name: "work".to_string(),
        settings: SavedTurnSettings {
            model: Some("gpt-5.6".to_string()),
            effort: Some("\"high\"".to_string()),
            collaboration_mode: Some(
                r#"{"mode":"plan","settings":{"model":"gpt-5.6","reasoning_effort":"high","developer_instructions":null}}"#
                    .to_string(),
            ),
        },
    };
    let turn = recovery_turn(&session);
    assert_eq!(turn.settings.model.as_deref(), Some("gpt-5.6"));
    let effort: serde_json::Value =
        serde_json::from_str(turn.settings.effort.as_deref().expect("effort")).expect("effort json");
    assert_eq!(effort, serde_json::Value::String("high".to_string()));
    let mode: serde_json::Value = serde_json::from_str(
        turn.settings.collaboration_mode.as_deref().expect("collaboration mode"),
    )
    .expect("mode json");
    assert_eq!(mode.pointer("/mode"), Some(&serde_json::Value::String("plan".to_string())));
}

