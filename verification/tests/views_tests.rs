use codex_web::daemon_config::AccountProfile;
use codex_web::daemon_config::AccountRole;
use codex_web::markdown::open_external_links_in_new_tab;
use codex_web::markdown::replace_text;
use codex_web::markdown::safe_destination;
use codex_web::markdown::markdown;
use codex_web::present::DigestEntry;
use codex_web::present::PlanPresentation;
use codex_web::present::account_connection;
use codex_web::present::account_row_controls;
use codex_web::present::account_label;
use codex_web::present::activity_title;
use codex_web::present::completed_presentation;
use codex_web::present::effort_label;
use codex_web::present::is_activity;
use codex_web::present::is_visible_activity;
use codex_web::present::live_digest_status;
use codex_web::present::needs_login;
use codex_web::present::plan_has_actions;
use codex_web::present::plan_is_actionable;
use codex_web::present::plan_is_complete;
use codex_web::present::plan_status_text;
use codex_web::present::reasoning_text;
use codex_web::present::status_badge_label;
use codex_web::present::thread_title;
use codex_web::present::truncate_output;
use codex_web::present::work_digest_summary;
use codex_web::present::ActivityFields;
use codex_web::present::activity_output;
use codex_web::present::actionable_plan_id;
use codex_web::present::model_efforts;
use codex_web::present::model_label;
use codex_web::present::model_matches;
use codex_web::present::turn_has_visible_items;
use codex_web::present::ItemRender;
use codex_web::present::item_render;
use codex_web::present::ItemView;
use codex_web::present::item_view;
use codex_web::present::approval_title;
use codex_web::present::approval_detail;
use codex_web::present::asks_user_input;
use codex_web::present::account_role_label;
use codex_web::present::ModelChoice;
use codex_web::present::selected_model;
use codex_web::present::selected_effort;

#[test]
fn empty_reasoning_is_not_visible_activity() {
    let empty = reasoning_text(&Vec::new(), &vec![String::new()]);
    assert!(!is_visible_activity("reasoning", &empty));
    let visible = reasoning_text(
        &vec!["Inspecting the current implementation".to_string()],
        &Vec::new(),
    );
    assert!(is_visible_activity("reasoning", &visible));
}

#[test]
fn markdown_escapes_raw_html() {
    assert_eq!(
        markdown("hello <script>alert(1)</script>"),
        "<p>hello &lt;script&gt;alert(1)&lt;/script&gt;</p>\n"
    );
}

#[test]
fn markdown_removes_unsafe_link_destinations() {
    assert_eq!(
        markdown("[bad](javascript:alert(1)) [good](https://example.com)"),
        "<p><a href=\"\">bad</a> <a target=\"_blank\" rel=\"noopener noreferrer\" href=\"https://example.com\">good</a></p>\n"
    );
}

#[test]
fn unsafe_destinations_are_emptied() {
    assert_eq!(safe_destination("javascript:alert(1)"), "");
    assert_eq!(safe_destination("  JavaScript:alert(1)"), "");
    assert_eq!(safe_destination("DATA:text/html,hi"), "");
    assert_eq!(safe_destination("vbscript:x"), "");
    assert_eq!(safe_destination("https://example.com"), "https://example.com");
}

#[test]
fn external_links_open_in_a_new_tab() {
    assert_eq!(
        open_external_links_in_new_tab("<p><a href=\"https://example.com\">x</a> <a href=\"#a\">y</a></p>"),
        "<p><a target=\"_blank\" rel=\"noopener noreferrer\" href=\"https://example.com\">x</a> <a href=\"#a\">y</a></p>"
    );
    assert_eq!(replace_text("aaa", "aa", "b"), "ba");
    assert_eq!(replace_text("abc", "", "x"), "abc");
}

#[test]
fn effort_labels_capitalise_the_first_letter() {
    assert_eq!(effort_label("xhigh"), "XHigh");
    assert_eq!(effort_label("medium"), "Medium");
    assert_eq!(effort_label(""), "");
    assert_eq!(effort_label("ßig"), "SSig");
}

#[test]
fn long_output_keeps_its_last_lines() {
    assert_eq!(truncate_output("short"), "short");
    let lines = (0..2500).map(|i| format!("line {i}")).collect::<Vec<_>>().join("\n");
    let shown = truncate_output(&lines);
    assert!(shown.starts_with("… output truncated …\nline 500\n"));
    assert!(shown.ends_with("line 2499"));
    let wide = "é".repeat(200_000);
    let shown = truncate_output(&wide);
    let kept = shown.strip_prefix("… output truncated …\n").expect("marker");
    assert_eq!(kept.len(), 256 * 1024);
}

#[test]
fn plan_presentations() {
    assert!(!plan_is_complete(PlanPresentation::Streaming));
    assert!(plan_is_complete(PlanPresentation::Historical));
    assert!(plan_is_actionable(PlanPresentation::Actionable));
    assert!(!plan_is_actionable(PlanPresentation::Completed));
    assert!(plan_has_actions(PlanPresentation::Completed));
    assert!(!plan_has_actions(PlanPresentation::Historical));
    assert_eq!(plan_status_text(PlanPresentation::Streaming), "Codex is preparing the proposal");
    assert_eq!(completed_presentation(Some("plan")), PlanPresentation::Completed);
    assert_eq!(completed_presentation(Some("agentMessage")), PlanPresentation::Historical);
    assert_eq!(completed_presentation(None), PlanPresentation::Historical);
}

#[test]
fn activity_titles_and_kinds() {
    assert!(is_activity("webSearch"));
    assert!(!is_activity("agentMessage"));
    assert!(is_visible_activity("commandExecution", ""));
    assert!(!is_visible_activity("agentMessage", "text"));
    assert_eq!(activity_title("commandExecution", "cargo test", "", ""), "$ cargo test");
    assert_eq!(activity_title("mcpToolCall", "", "jira", "search"), "jira · search");
    assert_eq!(activity_title("imageGeneration", "", "", ""), "Image");
    assert_eq!(activity_title("somethingNew", "", "", ""), "somethingNew");
    assert_eq!(
        reasoning_text(&vec!["a".to_string()], &vec!["b".to_string(), "c".to_string()]),
        "a\n\nb\n\nc"
    );
    assert_eq!(live_digest_status(Some("running")), "inProgress");
    assert_eq!(live_digest_status(Some("failed")), "completed");
}

fn entry(status: &str, title: &str) -> DigestEntry {
    DigestEntry {
        status: status.to_string(),
        title: title.to_string(),
    }
}

#[test]
fn work_digest_summaries() {
    let running = vec![entry("completed", "$ cargo check"), entry("inProgress", "Web search")];
    let digest = work_digest_summary("completed", &running);
    assert!(digest.active);
    assert!(digest.open);
    assert_eq!(digest.summary, "Web search");

    let failed = vec![entry("completed", "$ cargo test"), entry("failed", "$ cargo publish")];
    let digest = work_digest_summary("completed", &failed);
    assert!(!digest.active);
    assert!(digest.open);
    assert_eq!(digest.failed, 1);
    assert_eq!(digest.summary, "2 actions");

    let done = vec![entry("completed", "a"), entry("completed", "b"), entry("declined", "c")];
    let digest = work_digest_summary("completed", &done);
    assert!(!digest.open);
    assert_eq!(digest.summary, "2 actions completed");

    let digest = work_digest_summary("inProgress", &vec![entry("declined", "x")]);
    assert!(digest.active);
    assert_eq!(digest.summary, "1 actions");
}

#[test]
fn labels() {
    assert_eq!(thread_title(Some("Name"), Some("Preview")), "Name");
    assert_eq!(thread_title(Some(""), Some("Preview")), "Preview");
    assert_eq!(thread_title(None, Some("")), "New task");
    assert!(needs_login("expired"));
    assert!(!needs_login("oAuth"));
    assert_eq!(account_label(Some("me@example.com"), "chatgpt"), "me@example.com");
    assert_eq!(account_label(None, "apiKey"), "API key");
    assert_eq!(account_label(None, "other"), "Connected");
    assert_eq!(status_badge_label(Some("systemError")), "Error");
    assert_eq!(status_badge_label(None), "Stored");
    let mut account = AccountProfile {
        name: "a".to_string(),
        label: "A".to_string(),
        role: AccountRole::Fallback,
        credential_home: "/a".to_string(),
        proxy: Some("http://p".to_string()),
        use_ssh_tunnel: false,
    };
    assert_eq!(account_connection(&account), "proxy");
    account.use_ssh_tunnel = true;
    assert_eq!(account_connection(&account), "tunnel");
    account.use_ssh_tunnel = false;
    account.proxy = None;
    assert_eq!(account_connection(&account), "direct");
}

fn pairs(items: &[(&str, &str)]) -> Vec<(String, String)> {
    items.iter().map(|(a, b)| (a.to_string(), b.to_string())).collect()
}

#[test]
fn turns_with_only_empty_reasoning_show_nothing() {
    assert!(!turn_has_visible_items(&Vec::new()));
    assert!(!turn_has_visible_items(&pairs(&[("reasoning", "  \n ")])));
    assert!(turn_has_visible_items(&pairs(&[("reasoning", ""), ("agentMessage", "")])));
    assert!(turn_has_visible_items(&pairs(&[("commandExecution", "")])));
    assert!(turn_has_visible_items(&pairs(&[("reasoning", "thinking")])));
}

#[test]
fn only_the_latest_completed_plan_is_actionable() {
    let items = pairs(&[("plan", "plan-a"), ("agentMessage", "m"), ("plan", "plan-b"), ("userMessage", "u")]);
    assert_eq!(actionable_plan_id("thread-1", Some("completed"), &items), Some("plan-b".to_string()));
    assert_eq!(actionable_plan_id("thread-1", Some("inProgress"), &items), None);
    assert_eq!(actionable_plan_id("", Some("completed"), &items), None);
    assert_eq!(actionable_plan_id("thread-1", None, &Vec::new()), None);
    assert_eq!(actionable_plan_id("thread-1", Some("completed"), &pairs(&[("agentMessage", "m")])), None);
}

#[test]
fn models_are_labelled_and_matched() {
    assert_eq!(model_label(Some("GPT-5"), Some("gpt-5"), Some("id")), "GPT-5");
    assert_eq!(model_label(Some(""), Some("gpt-5"), Some("id")), "gpt-5");
    assert_eq!(model_label(None, None, Some("id")), "id");
    assert_eq!(model_label(None, Some(""), None), "Model");
    assert!(model_matches("gpt-5", "gpt-5-codex", "gpt-5-codex"));
    assert!(model_matches("gpt-5", "other", "gpt-5"));
    assert!(!model_matches("", "", ""));
    assert_eq!(model_efforts(&vec!["low".to_string(), "high".to_string()]), "low,high");
    assert_eq!(model_efforts(&Vec::new()), "");
}

fn fields(item_type: &str) -> ActivityFields {
    ActivityFields {
        item_type: item_type.to_string(),
        reasoning: "why".to_string(),
        aggregated_output: "out".to_string(),
        output: None,
        changes_pretty: "changes".to_string(),
        result_or_arguments_pretty: "result".to_string(),
        query: "query".to_string(),
        item_pretty: "item".to_string(),
    }
}

#[test]
fn activity_output_depends_on_the_item_type() {
    assert_eq!(activity_output(&fields("reasoning")), "why");
    assert_eq!(activity_output(&fields("commandExecution")), "out");
    assert_eq!(activity_output(&fields("fileChange")), "changes");
    let mut patched = fields("fileChange");
    patched.output = Some("patched".to_string());
    assert_eq!(activity_output(&patched), "patched");
    assert_eq!(activity_output(&fields("mcpToolCall")), "result");
    assert_eq!(activity_output(&fields("webSearch")), "query");
    assert_eq!(activity_output(&fields("contextCompaction")), "");
    assert_eq!(activity_output(&fields("imageView")), "item");
}

#[test]
fn live_item_updates_choose_their_rendering() {
    assert_eq!(item_render("reasoning", " ", None, PlanPresentation::Streaming), ItemRender::Remove);
    assert_eq!(
        item_render("commandExecution", "", Some("running"), PlanPresentation::Streaming),
        ItemRender::Activity { digest_status: "inProgress" }
    );
    assert_eq!(
        item_render("reasoning", "thinking", Some("completed"), PlanPresentation::Historical),
        ItemRender::Activity { digest_status: "completed" }
    );
    assert_eq!(
        item_render("plan", "", None, PlanPresentation::Completed),
        ItemRender::Plan(PlanPresentation::Completed)
    );
    assert_eq!(item_render("agentMessage", "", None, PlanPresentation::Streaming), ItemRender::Message);
}

#[test]
fn items_choose_their_view() {
    assert_eq!(item_view("userMessage"), ItemView::UserMessage);
    assert_eq!(item_view("agentMessage"), ItemView::AgentMessage);
    assert_eq!(item_view("plan"), ItemView::Plan);
    assert_eq!(item_view("webSearch"), ItemView::ActivityRow);
    assert_eq!(item_view("enteredReviewMode"), ItemView::ActivityCard);
}

#[test]
fn approvals_are_titled_and_detailed() {
    assert_eq!(approval_title("item/commandExecution/requestApproval"), "Run this command?");
    assert_eq!(approval_title("item/fileChange/requestApproval"), "Apply these changes?");
    assert_eq!(approval_title("item/tool/requestUserInput"), "Codex has a question");
    assert_eq!(approval_title("item/permissions/requestApproval"), "Grant additional access?");
    assert_eq!(approval_title("item/mcpToolCall/requestApproval"), "Allow this MCP tool?");
    assert_eq!(approval_title("other"), "Codex needs approval");
    assert!(asks_user_input("item/tool/requestUserInput"));
    assert!(!asks_user_input("item/fileChange/requestApproval"));
    assert_eq!(approval_detail(Some(Some("ls")), Some(Some("why")), "{}"), "ls");
    assert_eq!(approval_detail(None, Some(Some("why")), "{}"), "why");
    assert_eq!(approval_detail(Some(None), Some(Some("why")), "{}"), "{}");
    assert_eq!(approval_detail(None, None, "{}"), "{}");
    assert_eq!(account_role_label(AccountRole::Primary), "Primary Codex account");
    assert_eq!(account_role_label(AccountRole::Fallback), "Web fallback account");
}

fn model(id: &str, name: &str, is_default: bool) -> ModelChoice {
    ModelChoice { id: id.to_string(), model: name.to_string(), is_default }
}

#[test]
fn header_selects_the_active_then_default_then_first_model() {
    let models = vec![model("a", "gpt-a", false), model("b", "gpt-b", true), model("c", "gpt-c", true)];
    assert_eq!(selected_model(&models, "gpt-c"), Some(2));
    assert_eq!(selected_model(&models, "a"), Some(0));
    assert_eq!(selected_model(&models, "unknown"), Some(1));
    assert_eq!(selected_model(&models, ""), Some(1));
    let plain = vec![model("a", "gpt-a", false), model("b", "gpt-b", false)];
    assert_eq!(selected_model(&plain, "other"), Some(0));
    assert_eq!(selected_model(&Vec::new(), "a"), None);
    assert_eq!(selected_effort("high", Some("low")), "high");
    assert_eq!(selected_effort("", Some("low")), "low");
    assert_eq!(selected_effort("", None), "");
}


#[test]
fn account_rows_offer_switching_and_reordering_by_role() {
    let profile = |name: &str, role: AccountRole| AccountProfile {
        name: name.to_string(),
        label: name.to_string(),
        role,
        credential_home: "/srv/home".to_string(),
        proxy: None,
        use_ssh_tunnel: false,
    };
    let primary = account_row_controls(&profile("main", AccountRole::Primary), "main");
    assert_eq!(primary.status, "Primary Codex account");
    assert!(primary.active);
    assert!(!primary.can_use);
    assert!(!primary.can_move);
    assert!(!primary.can_remove);

    let fallback = account_row_controls(&profile("backup", AccountRole::Fallback), "main");
    assert_eq!(fallback.status, "Web fallback account");
    assert!(!fallback.active);
    assert!(fallback.can_use);
    assert!(fallback.can_move);
    assert!(fallback.can_remove);
}
