use codex_web::dashboard::SessionPlace;
use codex_web::dashboard::projects_from_threads;
use codex_web::dashboard::session_groups_at;
use codex_web::dashboard::recency;
use codex_web::dashboard::ThreadsPage;
use codex_web::dashboard::after_thread_page;

#[test]
fn groups_sessions_by_recent_activity() {
    let now: i64 = 2_000_000_000;
    let ids = ["today", "yesterday", "week", "month", "older"];
    let recency = [
        now - 30,
        now - 100_000,
        now - 300_000,
        now - 1_000_000,
        now - 4_000_000,
    ];

    let groups = session_groups_at(&recency, now);
    let actual = groups
        .iter()
        .map(|group| (group.label, ids[group.members[0]]))
        .collect::<Vec<_>>();

    assert_eq!(
        actual,
        vec![
            ("Today", "today"),
            ("Yesterday", "yesterday"),
            ("Previous 7 days", "week"),
            ("Previous 30 days", "month"),
            ("Older", "older"),
        ]
    );
}

#[test]
fn only_the_first_hundred_sessions_are_grouped() {
    let now: i64 = 1_000;
    let recency = vec![now; 150];
    let groups = session_groups_at(&recency, now);
    assert_eq!(groups.len(), 1);
    assert_eq!(groups[0].label, "Today");
    assert_eq!(groups[0].members.len(), 100);
    // Activity in the future counts as today; saturating ages land in "Older".
    let groups = session_groups_at(&[now + 10, i64::MIN], i64::MAX);
    assert_eq!(groups[0].label, "Older");
    assert_eq!(groups[0].members, vec![0, 1]);
}

fn place(cwd: Option<&str>) -> SessionPlace {
    SessionPlace {
        cwd: cwd.map(str::to_string),
        identity: cwd.unwrap_or_default().to_string(),
    }
}

#[test]
fn projects_follow_thread_recency_and_count_matching_cwds() {
    let threads = vec![
        place(Some("/workspace/alpha")),
        place(Some("/workspace/beta")),
        place(Some("/workspace/alpha")),
    ];

    let projects = projects_from_threads(&threads);

    assert_eq!(projects.len(), 2);
    assert_eq!(projects[0].name, "alpha");
    assert_eq!(projects[0].session_count, 2);
    assert_eq!(projects[0].latest, 0);
    assert_eq!(projects[1].name, "beta");
}

#[test]
fn sessions_without_a_directory_have_no_project() {
    let threads = vec![place(None), place(Some("/")), place(Some("/"))];
    let projects = projects_from_threads(&threads);
    assert_eq!(projects.len(), 1);
    assert_eq!(projects[0].name, "/");
    assert_eq!(projects[0].latest, 1);
    assert_eq!(projects[0].session_count, 2);
}

#[test]
fn recency_prefers_recency_at_over_updated_at() {
    assert_eq!(recency(Some(Some(50)), Some(Some(10))), 50);
    assert_eq!(recency(None, Some(Some(10))), 10);
    assert_eq!(recency(Some(None), Some(Some(10))), 0);
    assert_eq!(recency(None, None), 0);
}

#[test]
fn thread_list_loads_at_most_five_hundred_threads() {
    assert!(matches!(after_thread_page(100, Some("c".to_string())), ThreadsPage::More(c) if c == "c"));
    assert!(matches!(after_thread_page(120, None), ThreadsPage::Done { keep: 120, truncated: false }));
    assert!(matches!(
        after_thread_page(500, Some("c".to_string())),
        ThreadsPage::Done { keep: 500, truncated: true }
    ));
    assert!(matches!(after_thread_page(560, None), ThreadsPage::Done { keep: 500, truncated: false }));
}

