//! Presentation decisions of the web views: how plan proposals are shown, how
//! long command output is cut, how activity is titled and summarised, and the
//! labels of accounts, efforts and sessions.

use vstd::prelude::*;
use vstd::utf8::*;
use vstd::string::StringSliceAdditionalSpecFns;
use vstd::slice::slice_subrange;
use crate::daemon_config::{AccountProfile, AccountRole, opt_text, pairs_view};
use crate::recovery::opt_str;
use crate::stream::truncation_marker;
use crate::text::{str_eq, chars_of, string_from_chars, trim, trim_bounds, decimal, decimal_string};
use crate::error::concat3;
use crate::utf8::{first_boundary_from, next_char_boundary};

verus! {

broadcast use vstd::utf8::group_utf8_lib;

// ---------------------------------------------------------------------------
// Plan proposals

/// How a plan proposal is shown.
#[derive(Debug, Clone, Copy, PartialEq, Eq, Structural)]
pub enum PlanPresentation {
    /// A plan from an earlier turn.
    Historical,
    /// A plan still being written.
    Streaming,
    /// A finished plan whose turn is still running.
    Completed,
    /// The finished plan of the latest completed turn, awaiting a decision.
    Actionable,
}

/// Whether the plan is shown as finished.
pub fn plan_is_complete(presentation: PlanPresentation) -> (r: bool)
    ensures
        r == !(presentation == PlanPresentation::Streaming),
{
    !matches!(presentation, PlanPresentation::Streaming)
}

/// Whether the plan's decision buttons are enabled.
pub fn plan_is_actionable(presentation: PlanPresentation) -> (r: bool)
    ensures
        r == (presentation == PlanPresentation::Actionable),
{
    matches!(presentation, PlanPresentation::Actionable)
}

/// Whether the plan has a decision footer at all (hidden unless actionable).
pub fn plan_has_actions(presentation: PlanPresentation) -> (r: bool)
    ensures
        r == (presentation == PlanPresentation::Completed || presentation
            == PlanPresentation::Actionable),
{
    matches!(presentation, PlanPresentation::Completed | PlanPresentation::Actionable)
}

/// The status line under a plan's heading.
pub fn plan_status_text(presentation: PlanPresentation) -> (text: &'static str)
    ensures
        text@ == (match presentation {
            PlanPresentation::Streaming => "Codex is preparing the proposal"@,
            PlanPresentation::Actionable => "Ready for your decision"@,
            PlanPresentation::Completed => "Finishing the planning turn"@,
            PlanPresentation::Historical => "Plan proposal"@,
        }),
{
    match presentation {
        PlanPresentation::Streaming => "Codex is preparing the proposal",
        PlanPresentation::Actionable => "Ready for your decision",
        PlanPresentation::Completed => "Finishing the planning turn",
        PlanPresentation::Historical => "Plan proposal",
    }
}

/// How a completed item is shown: plans as finished, everything else as history.
pub fn completed_presentation(item_type: Option<&str>) -> (p: PlanPresentation)
    ensures
        p == (if opt_str(item_type) == Some("plan"@) {
            PlanPresentation::Completed
        } else {
            PlanPresentation::Historical
        }),
{
    match item_type {
        Some(t) => if str_eq(t, "plan") {
            PlanPresentation::Completed
        } else {
            PlanPresentation::Historical
        },
        None => PlanPresentation::Historical,
    }
}

// ---------------------------------------------------------------------------
// Command output

/// The most bytes of output shown for one activity.
pub const MAX_OUTPUT_BYTES: usize = 262144;

/// The most lines of output shown for one activity.
pub const MAX_OUTPUT_LINES: usize = 2000;

/// The byte index just after the `count`-th newline before `end`, counting back
/// from `end`; 0 when there are fewer newlines.
pub open spec fn after_newlines_back(bytes: Seq<u8>, end: int, count: nat) -> int
    decreases end,
{
    if end <= 0 || count == 0 {
        0
    } else if bytes[end - 1] == 10u8 {
        if count == 1 {
            end
        } else {
            after_newlines_back(bytes, end - 1, (count - 1) as nat)
        }
    } else {
        after_newlines_back(bytes, end - 1, count)
    }
}

/// The byte index where shown output starts: no earlier than the last
/// [`MAX_OUTPUT_LINES`] lines and the last [`MAX_OUTPUT_BYTES`] bytes allow, moved
/// forward to a character boundary.
pub open spec fn output_start(bytes: Seq<u8>) -> int {
    let lines = after_newlines_back(bytes, bytes.len() as int, MAX_OUTPUT_LINES as nat);
    let tail = if bytes.len() > MAX_OUTPUT_BYTES {
        bytes.len() - MAX_OUTPUT_BYTES
    } else {
        0
    };
    first_boundary_from(bytes, if lines > tail { lines } else { tail })
}

/// The output shown for an activity: all of it, or the marker line followed by
/// the bytes from [`output_start`] on.
pub open spec fn truncate_output_spec(output: Seq<char>) -> Seq<char> {
    let bytes = encode_utf8(output);
    let start = output_start(bytes);
    if start == 0 {
        output
    } else {
        truncation_marker() + decode_utf8(bytes.subrange(start, bytes.len() as int))
    }
}

proof fn lemma_after_newlines_back_bounded(bytes: Seq<u8>, end: int, count: nat)
    requires
        end <= bytes.len(),
    ensures
        0 <= after_newlines_back(bytes, end, count) <= if end > 0 { end } else { 0 },
    decreases end,
{
    if end > 0 && count > 0 {
        if !(bytes[end - 1] == 10u8 && count == 1) {
            let next = if bytes[end - 1] == 10u8 { (count - 1) as nat } else { count };
            lemma_after_newlines_back_bounded(bytes, end - 1, next);
        }
    }
}

/// Keeps the end of long command output: at most [`MAX_OUTPUT_LINES`] lines and
/// [`MAX_OUTPUT_BYTES`] bytes, cut at a character boundary, behind a marker line.
pub fn truncate_output(output: &str) -> (shown: String)
    ensures
        shown@ == truncate_output_spec(output@),
{
    let ghost bytes = output.spec_bytes();
    let raw = output.as_bytes();
    let len = raw.len();
    assert(raw@ == bytes);
    let mut end = len;
    let mut remaining: usize = MAX_OUTPUT_LINES;
    let mut line_start: usize = 0;
    while end > 0
        invariant_except_break
            line_start == 0,
        invariant
            raw@ == bytes,
            len == bytes.len(),
            end <= len,
            1 <= remaining <= MAX_OUTPUT_LINES,
            after_newlines_back(bytes, len as int, MAX_OUTPUT_LINES as nat) == after_newlines_back(
                bytes,
                end as int,
                remaining as nat,
            ),
        ensures
            after_newlines_back(bytes, len as int, MAX_OUTPUT_LINES as nat) == line_start,
        decreases end,
    {
        if raw[end - 1] == 10u8 {
            if remaining == 1 {
                line_start = end;
                break;
            }
            remaining = remaining - 1;
        }
        end = end - 1;
    }
    proof {
        lemma_after_newlines_back_bounded(bytes, len as int, MAX_OUTPUT_LINES as nat);
    }
    let byte_start = if len > MAX_OUTPUT_BYTES {
        len - MAX_OUTPUT_BYTES
    } else {
        0
    };
    let from = if line_start > byte_start {
        line_start
    } else {
        byte_start
    };
    let start = next_char_boundary(output, from);
    if start == 0 {
        return String::from_str(output);
    }
    let (_, tail) = output.split_at(start);
    assert(tail@ == decode_utf8(tail.spec_bytes()));
    let mut shown = String::from_str("… output truncated …\n");
    shown.append(tail);
    shown
}

// ---------------------------------------------------------------------------
// Reasoning effort labels

/// The characters that `char::to_uppercase` yields for `c` (Unicode's uppercase
/// mapping, which may be several characters).
pub uninterp spec fn uppercase_mapping(c: char) -> Seq<char>;

/// Calls `char::to_uppercase` on `c` and collects the characters it yields.
///
/// Trusted: the result is the uppercase mapping of `c`; for the ASCII lowercase
/// letters it is the single matching uppercase letter, as Unicode's mapping (and
/// the method's documented examples) give it.
#[verifier::external_body]
fn uppercase(c: char) -> (s: String)
    ensures
        s@ == uppercase_mapping(c),
        'a' <= c <= 'z' ==> s@ == seq![((c as u32) - 32) as char],
{
    c.to_uppercase().collect()
}

/// The label of a reasoning effort: `XHigh` for `xhigh`, else the effort with its
/// first character in upper case.
pub open spec fn effort_label_spec(effort: Seq<char>) -> Seq<char> {
    if effort == "xhigh"@ {
        "XHigh"@
    } else if effort.len() == 0 {
        Seq::empty()
    } else {
        uppercase_mapping(effort[0]) + effort.drop_first()
    }
}

/// The label of a reasoning effort.
pub fn effort_label(effort: &str) -> (label: String)
    ensures
        label@ == effort_label_spec(effort@),
{
    if str_eq(effort, "xhigh") {
        proof {
            reveal_strlit("xhigh");
        }
        return String::from_str("XHigh");
    }
    let chars = chars_of(effort);
    if chars.len() == 0 {
        return String::new();
    }
    let mut label = uppercase(chars[0]);
    let rest = string_from_chars(slice_subrange(chars.as_slice(), 1, chars.len()));
    assert(rest@ == effort@.drop_first());
    label.append(rest.as_str());
    label
}

// ---------------------------------------------------------------------------
// Activity

/// Item types shown as activity inside a turn's work digest rather than as
/// messages.
pub open spec fn activity_type(t: Seq<char>) -> bool {
    t == "reasoning"@ || t == "commandExecution"@ || t == "fileChange"@ || t == "mcpToolCall"@
        || t == "dynamicToolCall"@ || t == "collabAgentToolCall"@ || t == "webSearch"@ || t
        == "imageView"@ || t == "imageGeneration"@ || t == "contextCompaction"@
}

/// Whether an item of type `item_type` is activity.
pub fn is_activity(item_type: &str) -> (r: bool)
    ensures
        r == activity_type(item_type@),
{
    str_eq(item_type, "reasoning") || str_eq(item_type, "commandExecution") || str_eq(
        item_type,
        "fileChange",
    ) || str_eq(item_type, "mcpToolCall") || str_eq(item_type, "dynamicToolCall") || str_eq(
        item_type,
        "collabAgentToolCall",
    ) || str_eq(item_type, "webSearch") || str_eq(item_type, "imageView") || str_eq(
        item_type,
        "imageGeneration",
    ) || str_eq(item_type, "contextCompaction")
}

/// Whether an activity item is shown: reasoning only when its text is not blank.
pub fn is_visible_activity(item_type: &str, reasoning_text: &str) -> (r: bool)
    ensures
        r == (activity_type(item_type@) && (item_type@ != "reasoning"@ || trim(
            reasoning_text@,
        ).len() > 0)),
{
    if !is_activity(item_type) {
        return false;
    }
    if !str_eq(item_type, "reasoning") {
        return true;
    }
    let chars = chars_of(reasoning_text);
    let (start, end) = trim_bounds(chars.as_slice());
    start < end
}

/// `parts` joined with `sep` between them.
pub open spec fn joined(parts: Seq<Seq<char>>, sep: Seq<char>) -> Seq<char>
    decreases parts.len(),
{
    if parts.len() == 0 {
        Seq::empty()
    } else if parts.len() == 1 {
        parts[0]
    } else {
        joined(parts.drop_last(), sep) + sep + parts.last()
    }
}

/// The views of a list of strings.
pub open spec fn texts(list: Seq<String>) -> Seq<Seq<char>> {
    list.map_values(|s: String| s@)
}

/// The text of a reasoning item: its summary parts, then its content parts,
/// separated by blank lines.
pub fn reasoning_text(summary: &Vec<String>, content: &Vec<String>) -> (text: String)
    ensures
        text@ == joined(texts(summary@) + texts(content@), "\n\n"@),
{
    let ghost all = texts(summary@) + texts(content@);
    let mut text = String::new();
    let mut i: usize = 0;
    assert(all.take(0) =~= Seq::<Seq<char>>::empty());
    while i < summary.len()
        invariant
            all == texts(summary@) + texts(content@),
            i <= summary@.len(),
            text@ == joined(all.take(i as int), "\n\n"@),
        decreases summary@.len() - i,
    {
        if i > 0 {
            text.append("\n\n");
        }
        text.append(summary[i].as_str());
        proof {
            let taken = all.take(i + 1);
            assert(taken.drop_last() =~= all.take(i as int));
            assert(taken.last() == all[i as int]);
        }
        i = i + 1;
    }
    let mut j: usize = 0;
    while j < content.len()
        invariant
            all == texts(summary@) + texts(content@),
            i == summary@.len(),
            j <= content@.len(),
            text@ == joined(all.take(i + j), "\n\n"@),
        decreases content@.len() - j,
    {
        if i > 0 || j > 0 {
            text.append("\n\n");
        }
        text.append(content[j].as_str());
        proof {
            let taken = all.take(i + j + 1);
            assert(taken.drop_last() =~= all.take(i + j));
            assert(taken.last() == all[i + j]);
        }
        j = j + 1;
    }
    assert(all.take(i + j) =~= all);
    text
}

/// The title of an activity row.
pub open spec fn activity_title_spec(
    item_type: Seq<char>,
    command: Seq<char>,
    server: Seq<char>,
    tool: Seq<char>,
) -> Seq<char> {
    if item_type == "reasoning"@ {
        "Thinking"@
    } else if item_type == "commandExecution"@ {
        "$ "@ + command
    } else if item_type == "fileChange"@ {
        "File changes"@
    } else if item_type == "mcpToolCall"@ {
        server + " · "@ + tool
    } else if item_type == "dynamicToolCall"@ {
        tool
    } else if item_type == "collabAgentToolCall"@ {
        "Agent activity"@
    } else if item_type == "webSearch"@ {
        "Web search"@
    } else if item_type == "imageView"@ || item_type == "imageGeneration"@ {
        "Image"@
    } else if item_type == "contextCompaction"@ {
        "Context compacted"@
    } else {
        item_type
    }
}

/// The title of an activity row, from the item's type and, where they matter,
/// its command, server and tool.
pub fn activity_title(item_type: &str, command: &str, server: &str, tool: &str) -> (title: String)
    ensures
        title@ == activity_title_spec(item_type@, command@, server@, tool@),
{
    if str_eq(item_type, "reasoning") {
        String::from_str("Thinking")
    } else if str_eq(item_type, "commandExecution") {
        let mut title = String::from_str("$ ");
        title.append(command);
        title
    } else if str_eq(item_type, "fileChange") {
        String::from_str("File changes")
    } else if str_eq(item_type, "mcpToolCall") {
        concat3(server, " · ", tool)
    } else if str_eq(item_type, "dynamicToolCall") {
        String::from_str(tool)
    } else if str_eq(item_type, "collabAgentToolCall") {
        String::from_str("Agent activity")
    } else if str_eq(item_type, "webSearch") {
        String::from_str("Web search")
    } else if str_eq(item_type, "imageView") || str_eq(item_type, "imageGeneration") {
        String::from_str("Image")
    } else if str_eq(item_type, "contextCompaction") {
        String::from_str("Context compacted")
    } else {
        String::from_str(item_type)
    }
}

/// Whether an activity status means it is still running.
pub open spec fn running_status(status: Seq<char>) -> bool {
    status == "inProgress"@ || status == "running"@
}

/// The status a live activity update gives its work digest.
pub fn live_digest_status(status: Option<&str>) -> (s: &'static str)
    ensures
        s@ == (match opt_str(status) {
            Some(v) => if running_status(v) {
                "inProgress"@
            } else {
                "completed"@
            },
            None => "completed"@,
        }),
{
    match status {
        Some(v) => if str_eq(v, "inProgress") || str_eq(v, "running") {
            "inProgress"
        } else {
            "completed"
        },
        None => "completed",
    }
}

/// One activity of a work digest: its status and its row title.
#[derive(Debug)]
pub struct DigestEntry {
    pub status: String,
    pub title: String,
}

/// How many entries have the status `status`.
pub open spec fn count_status(entries: Seq<DigestEntry>, status: Seq<char>) -> nat
    decreases entries.len(),
{
    if entries.len() == 0 {
        0
    } else {
        count_status(entries.drop_last(), status) + if entries.last().status@ == status {
            1nat
        } else {
            0nat
        }
    }
}

/// The index of the last running entry, if any.
pub open spec fn last_running(entries: Seq<DigestEntry>) -> Option<int>
    decreases entries.len(),
{
    if entries.len() == 0 {
        None
    } else if running_status(entries.last().status@) {
        Some(entries.len() - 1)
    } else {
        last_running(entries.drop_last())
    }
}

/// What a work digest shows in its summary line and whether it starts open.
#[derive(Debug)]
pub struct DigestSummary {
    pub active: bool,
    pub open: bool,
    pub completed: usize,
    pub failed: usize,
    pub summary: String,
}

/// The summary line of a work digest.
pub open spec fn digest_summary_text(entries: Seq<DigestEntry>, active: bool) -> Seq<char> {
    if active && last_running(entries) is Some {
        entries[last_running(entries)->0].title@
    } else if count_status(entries, "failed"@) > 0 {
        decimal(entries.len()) + " actions"@
    } else if count_status(entries, "completed"@) > 0 {
        decimal(count_status(entries, "completed"@)) + " actions completed"@
    } else {
        decimal(entries.len()) + " actions"@
    }
}

proof fn lemma_count_status_bounded(entries: Seq<DigestEntry>, status: Seq<char>)
    ensures
        count_status(entries, status) <= entries.len(),
    decreases entries.len(),
{
    if entries.len() > 0 {
        lemma_count_status_bounded(entries.drop_last(), status);
    }
}

proof fn lemma_last_running_in_range(entries: Seq<DigestEntry>)
    ensures
        last_running(entries) matches Some(i) ==> 0 <= i < entries.len() && running_status(
            entries[i].status@,
        ),
        last_running(entries) is None ==> forall|i: int|
            0 <= i < entries.len() ==> !running_status(#[trigger] entries[i].status@),
    decreases entries.len(),
{
    if entries.len() > 0 {
        lemma_last_running_in_range(entries.drop_last());
        if !running_status(entries.last().status@) {
            assert forall|i: int| 0 <= i < entries.len() - 1 implies entries.drop_last()[i]
                == entries[i] by {}
        }
    }
}

/// The state of a turn's work digest: active while the turn or any activity is
/// running, open while active or when an activity failed, and a summary line
/// naming the latest running activity, the failures or the completions.
pub fn work_digest_summary(turn_status: &str, entries: &Vec<DigestEntry>) -> (d: DigestSummary)
    ensures
        d.active == (turn_status@ == "inProgress"@ || last_running(entries@) is Some),
        d.failed == count_status(entries@, "failed"@),
        d.completed == count_status(entries@, "completed"@),
        d.open == (d.active || d.failed > 0),
        d.summary@ == digest_summary_text(entries@, d.active),
{
    let mut failed: usize = 0;
    let mut completed: usize = 0;
    let mut running: Option<usize> = None;
    let mut i: usize = 0;
    while i < entries.len()
        invariant
            i <= entries@.len(),
            failed == count_status(entries@.take(i as int), "failed"@),
            completed == count_status(entries@.take(i as int), "completed"@),
            running == (match last_running(entries@.take(i as int)) {
                Some(j) => Some(j as usize),
                None => None::<usize>,
            }),
            failed <= i,
            completed <= i,
        decreases entries@.len() - i,
    {
        let status = entries[i].status.as_str();
        proof {
            let taken = entries@.take(i + 1);
            assert(taken.drop_last() =~= entries@.take(i as int));
            assert(taken.last() == entries@[i as int]);
            lemma_last_running_in_range(entries@.take(i as int));
        }
        if str_eq(status, "failed") {
            failed = failed + 1;
        }
        if str_eq(status, "completed") {
            completed = completed + 1;
        }
        if str_eq(status, "inProgress") || str_eq(status, "running") {
            running = Some(i);
        }
        i = i + 1;
    }
    assert(entries@.take(i as int) =~= entries@);
    proof {
        lemma_last_running_in_range(entries@);
    }
    let active = str_eq(turn_status, "inProgress") || running.is_some();
    let summary = if active && running.is_some() {
        let j = running.unwrap();
        entries[j].title.clone()
    } else if failed > 0 {
        let mut text = decimal_string(entries.len() as u64);
        text.append(" actions");
        text
    } else if completed > 0 {
        let mut text = decimal_string(completed as u64);
        text.append(" actions completed");
        text
    } else {
        let mut text = decimal_string(entries.len() as u64);
        text.append(" actions");
        text
    };
    DigestSummary { active, open: active || failed > 0, completed, failed, summary }
}

// ---------------------------------------------------------------------------
// Labels

/// The title of a thread: its name, else its preview, else `New task` (empty
/// texts count as absent).
pub fn thread_title(name: Option<&str>, preview: Option<&str>) -> (title: String)
    ensures
        title@ == (match opt_str(name) {
            Some(n) if n.len() > 0 => n,
            _ => match opt_str(preview) {
                Some(p) if p.len() > 0 => p,
                _ => "New task"@,
            },
        }),
{
    match name {
        Some(n) if !n.is_empty() => {
            return String::from_str(n);
        },
        _ => {},
    }
    match preview {
        Some(p) if !p.is_empty() => String::from_str(p),
        _ => String::from_str("New task"),
    }
}

/// Whether an MCP server with the given auth status needs a login.
pub fn needs_login(auth_status: &str) -> (r: bool)
    ensures
        r == (auth_status@ == "notAuthenticated"@ || auth_status@ == "expired"@),
{
    str_eq(auth_status, "notAuthenticated") || str_eq(auth_status, "expired")
}

/// How an account reaches the network: through the SSH tunnel, through its
/// proxy, or directly.
pub fn account_connection(account: &AccountProfile) -> (kind: &'static str)
    ensures
        kind@ == (if account.use_ssh_tunnel {
            "tunnel"@
        } else if account.proxy is Some {
            "proxy"@
        } else {
            "direct"@
        }),
{
    if account.use_ssh_tunnel {
        "tunnel"
    } else if account.proxy.is_some() {
        "proxy"
    } else {
        "direct"
    }
}

/// The controls of one account row in the settings: what its status line says,
/// whether it is marked active or offers to switch to it, and whether it can be
/// moved or removed.
pub struct AccountRowControls {
    /// "Primary Codex account" or "Web fallback account".
    pub status: &'static str,
    /// The row is the active account (shown as such, with no "Use" button).
    pub active: bool,
    /// The row offers "Use" to switch to it.
    pub can_use: bool,
    /// The row has "Move earlier" and "Move later".
    pub can_move: bool,
    /// The row has "Remove profile".
    pub can_remove: bool,
}

/// The controls of the settings row of `account` while `active_account` is in
/// use: only the other accounts offer a switch, and only fallback profiles can
/// be reordered or removed (the primary stays first). Every row can sign in,
/// take an API key and be edited.
pub fn account_row_controls(account: &AccountProfile, active_account: &str) -> (c: AccountRowControls)
    ensures
        c.status@ == (if account.role == AccountRole::Primary {
            "Primary Codex account"@
        } else {
            "Web fallback account"@
        }),
        c.active == (account.name@ == active_account@),
        c.can_use == !c.active,
        c.can_move == (account.role == AccountRole::Fallback),
        c.can_remove == (account.role == AccountRole::Fallback),
{
    let active = str_eq(account.name.as_str(), active_account);
    let fallback = account.role == AccountRole::Fallback;
    AccountRowControls {
        status: if account.role == AccountRole::Primary {
            "Primary Codex account"
        } else {
            "Web fallback account"
        },
        active,
        can_use: !active,
        can_move: fallback,
        can_remove: fallback,
    }
}

/// The label of the signed-in account: its email, else a name for its kind.
pub fn account_label(email: Option<&str>, account_type: &str) -> (label: String)
    ensures
        label@ == (match opt_str(email) {
            Some(e) => e,
            None => if account_type@ == "apiKey"@ {
                "API key"@
            } else if account_type@ == "chatgpt"@ {
                "ChatGPT"@
            } else {
                "Connected"@
            },
        }),
{
    match email {
        Some(e) => String::from_str(e),
        None => if str_eq(account_type, "apiKey") {
            String::from_str("API key")
        } else if str_eq(account_type, "chatgpt") {
            String::from_str("ChatGPT")
        } else {
            String::from_str("Connected")
        },
    }
}

/// The status of a thread as a badge: the status type (default `notLoaded`) and
/// its label.
pub fn status_badge_label(status_type: Option<&str>) -> (label: &'static str)
    ensures
        label@ == (match opt_str(status_type) {
            Some(s) => if s == "active"@ {
                "Active"@
            } else if s == "idle"@ {
                "Idle"@
            } else if s == "systemError"@ {
                "Error"@
            } else {
                "Stored"@
            },
            None => "Stored"@,
        }),
{
    match status_type {
        Some(s) => if str_eq(s, "active") {
            "Active"
        } else if str_eq(s, "idle") {
            "Idle"
        } else if str_eq(s, "systemError") {
            "Error"
        } else {
            "Stored"
        },
        None => "Stored",
    }
}

// ---------------------------------------------------------------------------
// Turns and models

/// Whether an item of a turn is shown: every message, and every activity but
/// reasoning whose text is blank.
pub open spec fn item_shown(item_type: Seq<char>, reasoning: Seq<char>) -> bool {
    !activity_type(item_type) || item_type != "reasoning"@ || trim(reasoning).len() > 0
}

/// Whether a turn shows anything, its items given as `(type, reasoning text)`
/// pairs.
pub fn turn_has_visible_items(items: &Vec<(String, String)>) -> (r: bool)
    ensures
        r == exists|i: int| 0 <= i < items@.len() && #[trigger] item_shown(items@[i].0@, items@[i].1@),
{
    let mut i: usize = 0;
    while i < items.len()
        invariant
            i <= items@.len(),
            forall|j: int| 0 <= j < i ==> !#[trigger] item_shown(items@[j].0@, items@[j].1@),
        decreases items@.len() - i,
    {
        let item_type = items[i].0.as_str();
        if !is_activity(item_type) || is_visible_activity(item_type, items[i].1.as_str()) {
            assert(item_shown(items@[i as int].0@, items@[i as int].1@));
            return true;
        }
        i = i + 1;
    }
    false
}

/// The id of the last plan among items given as `(type, id)` pairs.
pub open spec fn last_plan(items: Seq<(Seq<char>, Seq<char>)>) -> Option<Seq<char>>
    decreases items.len(),
{
    if items.len() == 0 {
        None
    } else if items.last().0 == "plan"@ {
        Some(items.last().1)
    } else {
        last_plan(items.drop_last())
    }
}

/// The plan of a thread that can still be acted on: the last plan item of the
/// latest turn, when the thread has an id and that turn completed.
/// `latest_status` is `None` for a thread without turns; the latest turn's
/// items are given as `(type, id)` pairs.
pub fn actionable_plan_id(
    thread_id: &str,
    latest_status: Option<&str>,
    latest_items: &Vec<(String, String)>,
) -> (id: Option<String>)
    ensures
        id matches Some(x) ==> (thread_id@.len() > 0 && opt_str(latest_status) == Some("completed"@)
            && last_plan(pairs_view(latest_items@)) == Some(x@)),
        id is None ==> (thread_id@.len() == 0 || opt_str(latest_status) != Some("completed"@)
            || last_plan(pairs_view(latest_items@)) is None),
{
    if thread_id.is_empty() {
        return None;
    }
    match latest_status {
        Some(status) if str_eq(status, "completed") => {},
        _ => {
            return None;
        },
    }
    let ghost all = pairs_view(latest_items@);
    let mut k = latest_items.len();
    assert(all.take(k as int) =~= all);
    while k > 0
        invariant
            k <= latest_items@.len(),
            all == pairs_view(latest_items@),
            thread_id@.len() > 0,
            opt_str(latest_status) == Some("completed"@),
            last_plan(all.take(k as int)) == last_plan(all),
        decreases k,
    {
        proof {
            let taken = all.take(k as int);
            assert(taken.drop_last() =~= all.take(k - 1));
            assert(taken.last() == all[k - 1]);
        }
        k = k - 1;
        if str_eq(latest_items[k].0.as_str(), "plan") {
            return Some(latest_items[k].1.clone());
        }
    }
    assert(all.take(0).len() == 0);
    None
}

/// The label of a model: its display name, else its model name, else its id,
/// else `Model` (empty texts count as absent).
pub fn model_label(display_name: Option<&str>, model: Option<&str>, id: Option<&str>) -> (label: String)
    ensures
        label@ == (match opt_str(display_name) {
            Some(d) if d.len() > 0 => d,
            _ => match opt_str(model) {
                Some(m) if m.len() > 0 => m,
                _ => match opt_str(id) {
                    Some(i) if i.len() > 0 => i,
                    _ => "Model"@,
                },
            },
        }),
{
    match display_name {
        Some(d) if !d.is_empty() => {
            return String::from_str(d);
        },
        _ => {},
    }
    match model {
        Some(m) if !m.is_empty() => {
            return String::from_str(m);
        },
        _ => {},
    }
    match id {
        Some(i) if !i.is_empty() => String::from_str(i),
        _ => String::from_str("Model"),
    }
}

/// Whether a model, given by its id and model name, is the active one; an empty
/// active model matches none.
pub fn model_matches(id: &str, model: &str, active_model: &str) -> (r: bool)
    ensures
        r == (active_model@.len() > 0 && (id@ == active_model@ || model@ == active_model@)),
{
    !active_model.is_empty() && (str_eq(id, active_model) || str_eq(model, active_model))
}

/// The reasoning efforts a model supports, joined with commas.
pub fn model_efforts(efforts: &Vec<String>) -> (text: String)
    ensures
        text@ == joined(texts(efforts@), ","@),
{
    let ghost all = texts(efforts@);
    let mut text = String::new();
    let mut i: usize = 0;
    assert(all.take(0) =~= Seq::<Seq<char>>::empty());
    while i < efforts.len()
        invariant
            all == texts(efforts@),
            i <= efforts@.len(),
            text@ == joined(all.take(i as int), ","@),
        decreases efforts@.len() - i,
    {
        if i > 0 {
            text.append(",");
        }
        text.append(efforts[i].as_str());
        proof {
            let taken = all.take(i + 1);
            assert(taken.drop_last() =~= all.take(i as int));
            assert(taken.last() == all[i as int]);
        }
        i = i + 1;
    }
    assert(all.take(i as int) =~= all);
    text
}

/// The fields of an item that its activity output is made of. The `*_pretty`
/// fields hold the item's JSON values printed with indentation (empty where
/// the value is absent).
pub struct ActivityFields {
    pub item_type: String,
    pub reasoning: String,
    pub aggregated_output: String,
    pub output: Option<String>,
    pub changes_pretty: String,
    pub result_or_arguments_pretty: String,
    pub query: String,
    pub item_pretty: String,
}

/// The output shown in an activity row, before it is cut to size.
pub open spec fn activity_output_spec(f: ActivityFields) -> Seq<char> {
    let t = f.item_type@;
    if t == "reasoning"@ {
        f.reasoning@
    } else if t == "commandExecution"@ {
        f.aggregated_output@
    } else if t == "fileChange"@ {
        match f.output {
            Some(o) => o@,
            None => f.changes_pretty@,
        }
    } else if t == "mcpToolCall"@ {
        f.result_or_arguments_pretty@
    } else if t == "webSearch"@ {
        f.query@
    } else if t == "contextCompaction"@ {
        Seq::empty()
    } else {
        f.item_pretty@
    }
}

/// The output shown in an activity row: the reasoning text, the command's
/// output, the file change's output (else its changes), the tool call's result
/// (else its arguments), the search query, nothing for a compaction, and the
/// whole item otherwise.
pub fn activity_output(fields: &ActivityFields) -> (out: String)
    ensures
        out@ == activity_output_spec(*fields),
{
    let t = fields.item_type.as_str();
    if str_eq(t, "reasoning") {
        fields.reasoning.clone()
    } else if str_eq(t, "commandExecution") {
        fields.aggregated_output.clone()
    } else if str_eq(t, "fileChange") {
        match &fields.output {
            Some(o) => o.clone(),
            None => fields.changes_pretty.clone(),
        }
    } else if str_eq(t, "mcpToolCall") {
        fields.result_or_arguments_pretty.clone()
    } else if str_eq(t, "webSearch") {
        fields.query.clone()
    } else if str_eq(t, "contextCompaction") {
        String::new()
    } else {
        fields.item_pretty.clone()
    }
}

/// How a live update of an item is shown.
#[derive(Debug, Clone, Copy, PartialEq, Eq)]
pub enum ItemRender {
    /// Remove the item's row: it is activity that is not shown.
    Remove,
    /// Update the item's row in its turn's work digest, with the digest's status.
    Activity { digest_status: &'static str },
    /// Show the plan proposal as presented.
    Plan(PlanPresentation),
    /// Show the item as a message.
    Message,
}

/// How a live update of an item is shown: hidden activity is removed, visible
/// activity updates the work digest, a plan is presented as given, and anything
/// else is a message.
pub fn item_render(
    item_type: &str,
    reasoning: &str,
    status: Option<&str>,
    presentation: PlanPresentation,
) -> (r: ItemRender)
    ensures
        activity_type(item_type@) && !(item_type@ != "reasoning"@ || trim(reasoning@).len() > 0) ==> r
            == ItemRender::Remove,
        activity_type(item_type@) && (item_type@ != "reasoning"@ || trim(reasoning@).len() > 0) ==> (r
            matches ItemRender::Activity { digest_status } && digest_status@ == (match opt_str(status) {
            Some(v) => if running_status(v) {
                "inProgress"@
            } else {
                "completed"@
            },
            None => "completed"@,
        })),
        !activity_type(item_type@) && item_type@ == "plan"@ ==> r == ItemRender::Plan(presentation),
        !activity_type(item_type@) && item_type@ != "plan"@ ==> r == ItemRender::Message,
{
    if is_activity(item_type) {
        if !is_visible_activity(item_type, reasoning) {
            ItemRender::Remove
        } else {
            ItemRender::Activity { digest_status: live_digest_status(status) }
        }
    } else if str_eq(item_type, "plan") {
        ItemRender::Plan(presentation)
    } else {
        ItemRender::Message
    }
}

// ---------------------------------------------------------------------------
// Items and requests awaiting the user

/// Which view shows an item of the transcript.
#[derive(Debug, Clone, Copy, PartialEq, Eq, Structural)]
pub enum ItemView {
    UserMessage,
    AgentMessage,
    Plan,
    ActivityRow,
    ActivityCard,
}

/// Which view shows an item of type `item_type`: messages and plans have their
/// own, activity is a row of the work digest, anything else a card.
pub fn item_view(item_type: &str) -> (v: ItemView)
    ensures
        v == (if item_type@ == "userMessage"@ {
            ItemView::UserMessage
        } else if item_type@ == "agentMessage"@ {
            ItemView::AgentMessage
        } else if item_type@ == "plan"@ {
            ItemView::Plan
        } else if activity_type(item_type@) {
            ItemView::ActivityRow
        } else {
            ItemView::ActivityCard
        }),
{
    if str_eq(item_type, "userMessage") {
        ItemView::UserMessage
    } else if str_eq(item_type, "agentMessage") {
        ItemView::AgentMessage
    } else if str_eq(item_type, "plan") {
        ItemView::Plan
    } else if is_activity(item_type) {
        ItemView::ActivityRow
    } else {
        ItemView::ActivityCard
    }
}

/// The title of a request from the app-server with method `method`.
pub fn approval_title(method: &str) -> (title: &'static str)
    ensures
        title@ == (if method@ == "item/commandExecution/requestApproval"@ {
            "Run this command?"@
        } else if method@ == "item/fileChange/requestApproval"@ {
            "Apply these changes?"@
        } else if method@ == "item/tool/requestUserInput"@ {
            "Codex has a question"@
        } else if method@ == "item/permissions/requestApproval"@ {
            "Grant additional access?"@
        } else if method@ == "item/mcpToolCall/requestApproval"@ {
            "Allow this MCP tool?"@
        } else {
            "Codex needs approval"@
        }),
{
    if str_eq(method, "item/commandExecution/requestApproval") {
        "Run this command?"
    } else if str_eq(method, "item/fileChange/requestApproval") {
        "Apply these changes?"
    } else if str_eq(method, "item/tool/requestUserInput") {
        "Codex has a question"
    } else if str_eq(method, "item/permissions/requestApproval") {
        "Grant additional access?"
    } else if str_eq(method, "item/mcpToolCall/requestApproval") {
        "Allow this MCP tool?"
    } else {
        "Codex needs approval"
    }
}

/// Whether a request asks the user questions rather than for an approval; such
/// a request shows a form and offers no "Always allow".
pub fn asks_user_input(method: &str) -> (r: bool)
    ensures
        r == (method@ == "item/tool/requestUserInput"@),
{
    str_eq(method, "item/tool/requestUserInput")
}

/// The detail shown with an approval: the request's `command`, else its
/// `reason`, else its parameters printed as JSON (`params_pretty`). Each field
/// is given by whether it is present and, if so, its text when it is a string:
/// the first present field decides, and one that is not a string falls back to
/// the parameters.
pub fn approval_detail(
    command: Option<Option<&str>>,
    reason: Option<Option<&str>>,
    params_pretty: &str,
) -> (detail: String)
    ensures
        detail@ == (match command {
            Some(c) => match opt_str(c) {
                Some(t) => t,
                None => params_pretty@,
            },
            None => match reason {
                Some(r) => match opt_str(r) {
                    Some(t) => t,
                    None => params_pretty@,
                },
                None => params_pretty@,
            },
        }),
{
    let field = match command {
        Some(c) => Some(c),
        None => reason,
    };
    match field {
        Some(Some(t)) => String::from_str(t),
        _ => String::from_str(params_pretty),
    }
}

/// How an account profile is described in the settings.
pub fn account_role_label(role: AccountRole) -> (label: &'static str)
    ensures
        label@ == (if role == AccountRole::Primary {
            "Primary Codex account"@
        } else {
            "Web fallback account"@
        }),
{
    match role {
        AccountRole::Primary => "Primary Codex account",
        AccountRole::Fallback => "Web fallback account",
    }
}

// ---------------------------------------------------------------------------
// The model and effort selected in the header

/// A model the app-server offers: its id, its model name, and whether it is the
/// default one.
#[derive(Debug)]
pub struct ModelChoice {
    pub id: String,
    pub model: String,
    pub is_default: bool,
}

/// Whether the model `m` is the active one (see [`model_matches`]).
pub open spec fn is_active_model(m: ModelChoice, active: Seq<char>) -> bool {
    active.len() > 0 && (m.id@ == active || m.model@ == active)
}

/// The model selected in the header: the first that is the active one, else the
/// first default one, else the first; none when no model is offered.
pub open spec fn selected_model_spec(models: Seq<ModelChoice>, active: Seq<char>, r: Option<usize>) -> bool {
    if exists|i: int| 0 <= i < models.len() && #[trigger] is_active_model(models[i], active) {
        r matches Some(i) && i < models.len() && is_active_model(models[i as int], active) && forall|j: int|
            0 <= j < i ==> !#[trigger] is_active_model(models[j], active)
    } else if exists|i: int| 0 <= i < models.len() && (#[trigger] models[i]).is_default {
        r matches Some(i) && i < models.len() && models[i as int].is_default && forall|j: int|
            0 <= j < i ==> !(#[trigger] models[j]).is_default
    } else if models.len() > 0 {
        r == Some(0usize)
    } else {
        r is None
    }
}

/// The position of the model selected in the header.
pub fn selected_model(models: &Vec<ModelChoice>, active_model: &str) -> (r: Option<usize>)
    ensures
        selected_model_spec(models@, active_model@, r),
{
    let mut i: usize = 0;
    while i < models.len()
        invariant
            i <= models@.len(),
            forall|j: int| 0 <= j < i ==> !#[trigger] is_active_model(models@[j], active_model@),
        decreases models@.len() - i,
    {
        if model_matches(models[i].id.as_str(), models[i].model.as_str(), active_model) {
            assert(is_active_model(models@[i as int], active_model@));
            return Some(i);
        }
        i = i + 1;
    }
    let mut k: usize = 0;
    while k < models.len()
        invariant
            k <= models@.len(),
            forall|j: int| 0 <= j < models@.len() ==> !#[trigger] is_active_model(models@[j], active_model@),
            forall|j: int| 0 <= j < k ==> !(#[trigger] models@[j]).is_default,
        decreases models@.len() - k,
    {
        if models[k].is_default {
            return Some(k);
        }
        k = k + 1;
    }
    if models.len() > 0 {
        Some(0)
    } else {
        None
    }
}

/// The effort selected in the header: the active one, else the selected model's
/// default (empty without a model).
pub fn selected_effort(active_effort: &str, model_default: Option<&str>) -> (effort: String)
    ensures
        effort@ == (if active_effort@.len() > 0 {
            active_effort@
        } else {
            match opt_str(model_default) {
                Some(d) => d,
                None => Seq::empty(),
            }
        }),
{
    if !active_effort.is_empty() {
        String::from_str(active_effort)
    } else {
        match model_default {
            Some(d) => String::from_str(d),
            None => String::new(),
        }
    }
}

} // verus!
