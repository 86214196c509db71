//! Multi-step server flows as state machines. Each step takes what the last
//! request to the app-server (or the file system) answered and says which
//! request comes next; the server performs the requests, these machines make
//! the decisions between them.

use vstd::prelude::*;
use crate::daemon_config::opt_text;
use crate::present::{texts, joined};
use crate::daemon_config::{AccountProfile, AccountProfileView, profiles_view};
use crate::server::{
    other_indices, switch_candidates, lemma_other_indices_members, no_healthy_account_message,
    account_candidates, candidates_spec, lemma_candidates_in_range, unavailable_reason,
};
use crate::recovery::opt_str;
use crate::error::concat3;
use crate::error::{WebError, ErrorKind, ErrorView, error_with};

verus! {

// ---------------------------------------------------------------------------
// Walking the loaded threads

/// What a walk over the loaded threads is for.
#[derive(Debug, Clone, Copy, PartialEq, Eq, Structural)]
pub enum WalkGoal {
    /// Answer whether any loaded thread is running a turn; a failed request
    /// counts as yes, so that nothing is interrupted on doubt.
    FindActive,
    /// Visit every loaded thread; a thread that cannot be read is skipped.
    Reconcile,
}

/// Which answer a walk waits for.
#[derive(Debug, Clone, Copy, PartialEq, Eq, Structural)]
pub enum WalkPhase {
    Listing,
    Reading,
    Finished,
}

/// The next request of a walk.
#[derive(Debug)]
pub enum WalkAction {
    /// List a page of loaded threads, after the cursor (the JSON text of the
    /// previous page's `nextCursor`) or from the start.
    ListPage { cursor: Option<String> },
    /// Read one thread.
    ReadThread { thread_id: String },
    /// The walk is over; for a search, whether a running turn was found.
    Finish { active: bool },
}

/// What the last request of a walk answered.
#[derive(Debug)]
pub enum WalkEvent {
    /// The page could not be listed.
    ListFailed,
    /// A page: its thread ids (`None` when the answer holds no list) and the
    /// cursor of the next page (`None` when this page is the last).
    Listed { thread_ids: Option<Vec<String>>, next_cursor: Option<String> },
    /// The thread could not be read.
    ReadFailed,
    /// The thread was read; whether it is active.
    Read { active: bool },
}

/// The mathematical content of a [`WalkAction`].
pub enum WalkActionView {
    ListPage(Option<Seq<char>>),
    ReadThread(Seq<char>),
    Finish(bool),
}

/// The mathematical content of a [`WalkEvent`].
pub enum WalkEventView {
    ListFailed,
    Listed(Option<Seq<Seq<char>>>, Option<Seq<char>>),
    ReadFailed,
    Read(bool),
}

impl View for WalkAction {
    type V = WalkActionView;

    open spec fn view(&self) -> WalkActionView {
        match self {
            WalkAction::ListPage { cursor } => WalkActionView::ListPage(opt_text(*cursor)),
            WalkAction::ReadThread { thread_id } => WalkActionView::ReadThread(thread_id@),
            WalkAction::Finish { active } => WalkActionView::Finish(*active),
        }
    }
}

impl View for WalkEvent {
    type V = WalkEventView;

    open spec fn view(&self) -> WalkEventView {
        match self {
            WalkEvent::ListFailed => WalkEventView::ListFailed,
            WalkEvent::Listed { thread_ids, next_cursor } => WalkEventView::Listed(
                match thread_ids {
                    Some(ids) => Some(texts(ids@)),
                    None => None,
                },
                opt_text(*next_cursor),
            ),
            WalkEvent::ReadFailed => WalkEventView::ReadFailed,
            WalkEvent::Read { active } => WalkEventView::Read(*active),
        }
    }
}

/// The state of a walk: its goal, the listed threads not yet read, the cursor
/// of the next page and the answer it waits for.
pub struct WalkView {
    pub goal: WalkGoal,
    pub pending: Seq<Seq<char>>,
    pub cursor: Option<Seq<char>>,
    pub phase: WalkPhase,
}

/// Goes on from a state: read the next pending thread, else list the next page,
/// else finish without having found a running turn.
pub open spec fn walk_on(v: WalkView) -> (WalkView, WalkActionView) {
    if v.pending.len() > 0 {
        (
            WalkView { goal: v.goal, pending: v.pending, cursor: v.cursor, phase: WalkPhase::Reading },
            WalkActionView::ReadThread(v.pending[0]),
        )
    } else {
        match v.cursor {
            Some(c) => (
                WalkView { goal: v.goal, pending: v.pending, cursor: v.cursor, phase: WalkPhase::Listing },
                WalkActionView::ListPage(Some(c)),
            ),
            None => (
                WalkView { goal: v.goal, pending: v.pending, cursor: v.cursor, phase: WalkPhase::Finished },
                WalkActionView::Finish(false),
            ),
        }
    }
}

/// Ends a walk with an answer.
pub open spec fn walk_finish(v: WalkView, active: bool) -> (WalkView, WalkActionView) {
    (
        WalkView { goal: v.goal, pending: v.pending, cursor: v.cursor, phase: WalkPhase::Finished },
        WalkActionView::Finish(active),
    )
}

/// Whether a walk in state `v` can take the answer `e`: a listing answer while
/// it lists, a read answer while it reads.
pub open spec fn walk_accepts(v: WalkView, e: WalkEventView) -> bool {
    match v.phase {
        WalkPhase::Listing => e is ListFailed || e is Listed,
        WalkPhase::Reading => v.pending.len() > 0 && (e is ReadFailed || e is Read),
        WalkPhase::Finished => false,
    }
}

/// One step of a walk: the state after the answer `e` and the next request.
pub open spec fn walk_step(v: WalkView, e: WalkEventView) -> (WalkView, WalkActionView) {
    let searching = v.goal == WalkGoal::FindActive;
    let skipped = WalkView {
        goal: v.goal,
        pending: v.pending.drop_first(),
        cursor: v.cursor,
        phase: v.phase,
    };
    match e {
        WalkEventView::ListFailed => walk_finish(v, searching),
        WalkEventView::Listed(ids, next) => match ids {
            Some(ids) => walk_on(WalkView { goal: v.goal, pending: ids, cursor: next, phase: v.phase }),
            None => walk_finish(v, searching),
        },
        WalkEventView::ReadFailed => if searching {
            walk_finish(v, true)
        } else {
            walk_on(skipped)
        },
        WalkEventView::Read(active) => if searching && active {
            walk_finish(v, true)
        } else {
            walk_on(skipped)
        },
    }
}

/// A walk over the threads the app-server has loaded, page by page.
pub struct LoadedThreadWalk {
    goal: WalkGoal,
    page: Vec<String>,
    next: usize,
    cursor: Option<String>,
    phase: WalkPhase,
}

impl View for LoadedThreadWalk {
    type V = WalkView;

    closed spec fn view(&self) -> WalkView {
        WalkView {
            goal: self.goal,
            pending: texts(self.page@).subrange(self.next as int, self.page@.len() as int),
            cursor: opt_text(self.cursor),
            phase: self.phase,
        }
    }
}

impl LoadedThreadWalk {
    /// Whether the walk's position lies within its page.
    pub closed spec fn wf(&self) -> bool {
        self.next <= self.page@.len()
    }

    /// A walk that starts by listing the first page.
    pub fn start(goal: WalkGoal) -> (r: (LoadedThreadWalk, WalkAction))
        ensures
            r.0.wf(),
            r.0@ == (WalkView {
                goal,
                pending: Seq::empty(),
                cursor: None,
                phase: WalkPhase::Listing,
            }),
            r.1@ == WalkActionView::ListPage(None),
    {
        let walk = LoadedThreadWalk {
            goal,
            page: Vec::new(),
            next: 0,
            cursor: None,
            phase: WalkPhase::Listing,
        };
        assert(walk@.pending =~= Seq::<Seq<char>>::empty());
        (walk, WalkAction::ListPage { cursor: None })
    }

    /// The state the walk is in.
    pub fn phase(&self) -> (p: WalkPhase)
        ensures
            p == self@.phase,
    {
        self.phase
    }

    fn go_on(&mut self) -> (action: WalkAction)
        requires
            old(self).wf(),
        ensures
            final(self).wf(),
            (final(self)@, action@) == walk_on(old(self)@),
    {
        if self.next < self.page.len() {
            self.phase = WalkPhase::Reading;
            WalkAction::ReadThread { thread_id: self.page[self.next].clone() }
        } else {
            match &self.cursor {
                Some(c) => {
                    let cursor = c.clone();
                    self.phase = WalkPhase::Listing;
                    WalkAction::ListPage { cursor: Some(cursor) }
                },
                None => {
                    self.phase = WalkPhase::Finished;
                    WalkAction::Finish { active: false }
                },
            }
        }
    }

    fn finish(&mut self, active: bool) -> (action: WalkAction)
        requires
            old(self).wf(),
        ensures
            final(self).wf(),
            (final(self)@, action@) == walk_finish(old(self)@, active),
    {
        self.phase = WalkPhase::Finished;
        WalkAction::Finish { active }
    }

    /// Takes the answer to the last request and returns the next one.
    pub fn step(&mut self, event: WalkEvent) -> (action: WalkAction)
        requires
            old(self).wf(),
            walk_accepts(old(self)@, event@),
        ensures
            final(self).wf(),
            (final(self)@, action@) == walk_step(old(self)@, event@),
    {
        let searching = matches!(self.goal, WalkGoal::FindActive);
        let ghost before = self@;
        let page_len = self.page.len();
        assert(before.pending.len() == self.page@.len() - self.next);
        let ghost answer = event@;
        match event {
            WalkEvent::ListFailed => self.finish(searching),
            WalkEvent::Listed { thread_ids, next_cursor } => match thread_ids {
                Some(ids) => {
                    self.page = ids;
                    self.next = 0;
                    self.cursor = next_cursor;
                    assert(self@.pending =~= texts(self.page@));
                    self.go_on()
                },
                None => self.finish(searching),
            },
            WalkEvent::ReadFailed => {
                assert(answer is ReadFailed);
                assert(before.phase == WalkPhase::Reading);

                if searching {
                    self.finish(true)
                } else {
                    self.next = self.next + 1;
                    assert(self@.pending =~= before.pending.drop_first());
                    self.go_on()
                }
            },
            WalkEvent::Read { active } => {
                assert(answer is Read);
                assert(before.phase == WalkPhase::Reading);
                if searching && active {
                    self.finish(true)
                } else {
                    self.next = self.next + 1;
                    assert(self@.pending =~= before.pending.drop_first());
                    self.go_on()
                }
            },
        }
    }
}

/// The last request of a walk in state `v`, which made the request `a`, after
/// the answers `events`.
pub open spec fn walk_run(v: WalkView, a: WalkActionView, events: Seq<WalkEventView>) -> WalkActionView
    decreases events.len(),
{
    if events.len() == 0 {
        a
    } else {
        let (next, action) = walk_step(v, events[0]);
        walk_run(next, action, events.drop_first())
    }
}

/// Whether a walk in state `v` can take the answers `events` one after another.
pub open spec fn walk_trace_ok(v: WalkView, events: Seq<WalkEventView>) -> bool
    decreases events.len(),
{
    events.len() == 0 || (walk_accepts(v, events[0]) && walk_trace_ok(
        walk_step(v, events[0]).0,
        events.drop_first(),
    ))
}

/// An answer that says nothing against idleness: a listed page, or a thread
/// read as idle.
pub open spec fn idle_answer(e: WalkEventView) -> bool {
    match e {
        WalkEventView::ListFailed => false,
        WalkEventView::Listed(ids, _) => ids is Some,
        WalkEventView::ReadFailed => false,
        WalkEventView::Read(active) => !active,
    }
}

/// A search for a running turn answers no only when every request it made
/// succeeded and every thread it read was idle.
pub proof fn lemma_no_active_turn_means_all_idle(
    v: WalkView,
    a: WalkActionView,
    events: Seq<WalkEventView>,
)
    requires
        v.goal == WalkGoal::FindActive,
        walk_trace_ok(v, events),
        walk_run(v, a, events) == WalkActionView::Finish(false),
    ensures
        forall|i: int| 0 <= i < events.len() ==> #[trigger] idle_answer(events[i]),
    decreases events.len(),
{
    if events.len() > 0 {
        let (next, action) = walk_step(v, events[0]);
        let rest = events.drop_first();
        assert(walk_run(v, a, events) == walk_run(next, action, rest));
        assert(next.goal == v.goal);
        if !idle_answer(events[0]) {
            assert(next.phase == WalkPhase::Finished);
            assert(action == WalkActionView::Finish(true));
            assert(walk_trace_ok(next, rest));
            if rest.len() > 0 {
                assert(!walk_accepts(next, rest[0]));
            } else {
                assert(walk_run(next, action, rest) == action);
            }
            assert(false);
        }
        assert(walk_trace_ok(next, rest));
        lemma_no_active_turn_means_all_idle(next, action, rest);
        assert forall|i: int| 0 <= i < events.len() implies #[trigger] idle_answer(events[i]) by {
            if i > 0 {
                assert(events[i] == rest[i - 1]);
            }
        }
    }
}

// ---------------------------------------------------------------------------
// Changing the SSH tunnel

/// The next step of a change of the SSH tunnel.
#[derive(Debug)]
pub enum TunnelChangeAction {
    /// Ask whether the active account is running a turn.
    CheckActiveTurn,
    /// Start the new tunnel.
    StartTunnel,
    /// Start the active account's app-server through the new tunnel.
    StartBridge,
    /// Save the new tunnel configuration.
    Save,
    /// Shut down the app-server started for this change.
    StopBridge,
    /// Shut down the tunnel started for this change.
    StopTunnel,
    /// Put the new tunnel, and the app-server started for it if any, in place,
    /// then shut down the ones they replace.
    Commit,
    /// Answer the request: `None` on success, else the error text.
    Reply { error: Option<String> },
}

/// What the last step of a tunnel change reported.
#[derive(Debug)]
pub enum TunnelChangeEvent {
    ActiveTurn { active: bool },
    TunnelStarted,
    TunnelFailed { message: String },
    BridgeStarted,
    BridgeFailed { message: String },
    Saved,
    SaveFailed { message: String },
    /// The app-server or tunnel asked for was shut down.
    Stopped,
    Committed,
}

/// The mathematical content of a [`TunnelChangeAction`].
pub enum TunnelActionView {
    CheckActiveTurn,
    StartTunnel,
    StartBridge,
    Save,
    StopBridge,
    StopTunnel,
    Commit,
    Reply(Option<Seq<char>>),
}

/// The mathematical content of a [`TunnelChangeEvent`].
pub enum TunnelEventView {
    ActiveTurn(bool),
    TunnelStarted,
    TunnelFailed(Seq<char>),
    BridgeStarted,
    BridgeFailed(Seq<char>),
    Saved,
    SaveFailed(Seq<char>),
    Stopped,
    Committed,
}

impl View for TunnelChangeAction {
    type V = TunnelActionView;

    open spec fn view(&self) -> TunnelActionView {
        match self {
            TunnelChangeAction::CheckActiveTurn => TunnelActionView::CheckActiveTurn,
            TunnelChangeAction::StartTunnel => TunnelActionView::StartTunnel,
            TunnelChangeAction::StartBridge => TunnelActionView::StartBridge,
            TunnelChangeAction::Save => TunnelActionView::Save,
            TunnelChangeAction::StopBridge => TunnelActionView::StopBridge,
            TunnelChangeAction::StopTunnel => TunnelActionView::StopTunnel,
            TunnelChangeAction::Commit => TunnelActionView::Commit,
            TunnelChangeAction::Reply { error } => TunnelActionView::Reply(opt_text(*error)),
        }
    }
}

impl View for TunnelChangeEvent {
    type V = TunnelEventView;

    open spec fn view(&self) -> TunnelEventView {
        match self {
            TunnelChangeEvent::ActiveTurn { active } => TunnelEventView::ActiveTurn(*active),
            TunnelChangeEvent::TunnelStarted => TunnelEventView::TunnelStarted,
            TunnelChangeEvent::TunnelFailed { message } => TunnelEventView::TunnelFailed(message@),
            TunnelChangeEvent::BridgeStarted => TunnelEventView::BridgeStarted,
            TunnelChangeEvent::BridgeFailed { message } => TunnelEventView::BridgeFailed(message@),
            TunnelChangeEvent::Saved => TunnelEventView::Saved,
            TunnelChangeEvent::SaveFailed { message } => TunnelEventView::SaveFailed(message@),
            TunnelChangeEvent::Stopped => TunnelEventView::Stopped,
            TunnelChangeEvent::Committed => TunnelEventView::Committed,
        }
    }
}

/// Which report a tunnel change waits for.
#[derive(Debug, Clone, Copy, PartialEq, Eq, Structural)]
pub enum TunnelPhase {
    AwaitTurnCheck,
    AwaitTunnel,
    AwaitBridge,
    AwaitSave,
    AwaitStop,
    AwaitCommit,
    Done,
}

/// The state of a tunnel change: whether the active account uses the tunnel,
/// whether a tunnel is configured (rather than removed), which of the new
/// tunnel and app-server are running, whether the change was committed, the
/// error to report once cleaned up, and the report awaited.
pub struct TunnelChangeView {
    pub uses_tunnel: bool,
    pub configured: bool,
    pub tunnel_live: bool,
    pub bridge_live: bool,
    pub committed: bool,
    pub error: Seq<char>,
    pub phase: TunnelPhase,
}

/// The same state awaiting another report.
pub open spec fn tunnel_in(v: TunnelChangeView, phase: TunnelPhase) -> TunnelChangeView {
    TunnelChangeView { phase, ..v }
}

/// After the tunnel: start the app-server when the account uses the tunnel,
/// else save.
pub open spec fn tunnel_after_tunnel(v: TunnelChangeView) -> (TunnelChangeView, TunnelActionView) {
    if v.uses_tunnel {
        (tunnel_in(v, TunnelPhase::AwaitBridge), TunnelActionView::StartBridge)
    } else {
        (tunnel_in(v, TunnelPhase::AwaitSave), TunnelActionView::Save)
    }
}

/// After the turn check: start the tunnel when one is configured.
pub open spec fn tunnel_after_check(v: TunnelChangeView) -> (TunnelChangeView, TunnelActionView) {
    if v.configured {
        (tunnel_in(v, TunnelPhase::AwaitTunnel), TunnelActionView::StartTunnel)
    } else {
        tunnel_after_tunnel(v)
    }
}

/// After a failure: shut down the new app-server, then the new tunnel, then
/// report the error.
pub open spec fn tunnel_cleanup(v: TunnelChangeView) -> (TunnelChangeView, TunnelActionView) {
    if v.bridge_live {
        (tunnel_in(v, TunnelPhase::AwaitStop), TunnelActionView::StopBridge)
    } else if v.tunnel_live {
        (tunnel_in(v, TunnelPhase::AwaitStop), TunnelActionView::StopTunnel)
    } else {
        (tunnel_in(v, TunnelPhase::Done), TunnelActionView::Reply(Some(v.error)))
    }
}

/// The state of a fresh change.
pub open spec fn tunnel_initial(uses_tunnel: bool, configured: bool) -> TunnelChangeView {
    TunnelChangeView {
        uses_tunnel,
        configured,
        tunnel_live: false,
        bridge_live: false,
        committed: false,
        error: Seq::empty(),
        phase: TunnelPhase::AwaitTurnCheck,
    }
}

/// How a change starts: with a turn check when the account uses the tunnel.
pub open spec fn tunnel_change_start(uses_tunnel: bool, configured: bool) -> (TunnelChangeView, TunnelActionView) {
    let v = tunnel_initial(uses_tunnel, configured);
    if uses_tunnel {
        (v, TunnelActionView::CheckActiveTurn)
    } else {
        tunnel_after_check(v)
    }
}

/// The error reported when a running turn uses the tunnel.
pub open spec fn active_turn_tunnel_error() -> Seq<char> {
    "stop the active turn before changing its SSH tunnel"@
}

/// Whether a change in state `v` can take the report `e`.
pub open spec fn tunnel_accepts(v: TunnelChangeView, e: TunnelEventView) -> bool {
    match v.phase {
        TunnelPhase::AwaitTurnCheck => e is ActiveTurn,
        TunnelPhase::AwaitTunnel => e is TunnelStarted || e is TunnelFailed,
        TunnelPhase::AwaitBridge => e is BridgeStarted || e is BridgeFailed,
        TunnelPhase::AwaitSave => e is Saved || e is SaveFailed,
        TunnelPhase::AwaitStop => e is Stopped,
        TunnelPhase::AwaitCommit => e is Committed,
        TunnelPhase::Done => false,
    }
}

/// One step of a tunnel change.
pub open spec fn tunnel_change_step(v: TunnelChangeView, e: TunnelEventView) -> (TunnelChangeView, TunnelActionView) {
    match e {
        TunnelEventView::ActiveTurn(active) => if active {
            (tunnel_in(v, TunnelPhase::Done), TunnelActionView::Reply(Some(active_turn_tunnel_error())))
        } else {
            tunnel_after_check(v)
        },
        TunnelEventView::TunnelStarted => tunnel_after_tunnel(TunnelChangeView { tunnel_live: true, ..v }),
        TunnelEventView::TunnelFailed(m) => (
            TunnelChangeView { error: m, phase: TunnelPhase::Done, ..v },
            TunnelActionView::Reply(Some(m)),
        ),
        TunnelEventView::BridgeStarted => (
            TunnelChangeView { bridge_live: true, phase: TunnelPhase::AwaitSave, ..v },
            TunnelActionView::Save,
        ),
        TunnelEventView::BridgeFailed(m) => tunnel_cleanup(TunnelChangeView { error: m, ..v }),
        TunnelEventView::Saved => (tunnel_in(v, TunnelPhase::AwaitCommit), TunnelActionView::Commit),
        TunnelEventView::SaveFailed(m) => tunnel_cleanup(TunnelChangeView { error: m, ..v }),
        TunnelEventView::Stopped => if v.bridge_live {
            tunnel_cleanup(TunnelChangeView { bridge_live: false, ..v })
        } else {
            tunnel_cleanup(TunnelChangeView { tunnel_live: false, ..v })
        },
        TunnelEventView::Committed => (
            TunnelChangeView { committed: true, phase: TunnelPhase::Done, ..v },
            TunnelActionView::Reply(None),
        ),
    }
}

/// What holds in every state a tunnel change reaches: the new tunnel runs only
/// once it was asked for and a tunnel is configured, the new app-server only
/// once it was asked for and the account uses the tunnel, and only a finished
/// change can be committed.
pub open spec fn tunnel_change_wf(v: TunnelChangeView) -> bool {
    &&& v.tunnel_live ==> v.configured
    &&& v.bridge_live ==> v.uses_tunnel
    &&& v.committed ==> v.phase == TunnelPhase::Done
    &&& match v.phase {
        TunnelPhase::AwaitTurnCheck => v.uses_tunnel && !v.tunnel_live && !v.bridge_live,
        TunnelPhase::AwaitTunnel => v.configured && !v.tunnel_live && !v.bridge_live,
        TunnelPhase::AwaitBridge => v.uses_tunnel && !v.bridge_live && v.tunnel_live == v.configured,
        TunnelPhase::AwaitSave => v.bridge_live == v.uses_tunnel && v.tunnel_live == v.configured,
        TunnelPhase::AwaitCommit => v.bridge_live == v.uses_tunnel && v.tunnel_live == v.configured,
        TunnelPhase::AwaitStop => v.bridge_live || v.tunnel_live,
        TunnelPhase::Done => true,
    }
}

/// A change of the SSH tunnel, from the turn check to the answer.
pub struct TunnelChange {
    uses_tunnel: bool,
    configured: bool,
    tunnel_live: bool,
    bridge_live: bool,
    committed: bool,
    error: String,
    phase: TunnelPhase,
}

impl View for TunnelChange {
    type V = TunnelChangeView;

    closed spec fn view(&self) -> TunnelChangeView {
        TunnelChangeView {
            uses_tunnel: self.uses_tunnel,
            configured: self.configured,
            tunnel_live: self.tunnel_live,
            bridge_live: self.bridge_live,
            committed: self.committed,
            error: self.error@,
            phase: self.phase,
        }
    }
}

impl TunnelChange {
    /// Starts a change for an account that does or does not use the tunnel,
    /// to a configured tunnel or to none.
    pub fn start(uses_tunnel: bool, configured: bool) -> (r: (TunnelChange, TunnelChangeAction))
        ensures
            tunnel_change_wf(r.0@),
            (r.0@, r.1@) == tunnel_change_start(uses_tunnel, configured),
    {
        let mut change = TunnelChange {
            uses_tunnel,
            configured,
            tunnel_live: false,
            bridge_live: false,
            committed: false,
            error: String::new(),
            phase: TunnelPhase::AwaitTurnCheck,
        };
        assert(change@ == tunnel_initial(uses_tunnel, configured));
        if uses_tunnel {
            (change, TunnelChangeAction::CheckActiveTurn)
        } else {
            let action = change.after_check();
            (change, action)
        }
    }

    fn after_tunnel(&mut self) -> (action: TunnelChangeAction)
        ensures
            (final(self)@, action@) == tunnel_after_tunnel(old(self)@),
    {
        if self.uses_tunnel {
            self.phase = TunnelPhase::AwaitBridge;
            TunnelChangeAction::StartBridge
        } else {
            self.phase = TunnelPhase::AwaitSave;
            TunnelChangeAction::Save
        }
    }

    fn after_check(&mut self) -> (action: TunnelChangeAction)
        ensures
            (final(self)@, action@) == tunnel_after_check(old(self)@),
    {
        if self.configured {
            self.phase = TunnelPhase::AwaitTunnel;
            TunnelChangeAction::StartTunnel
        } else {
            self.after_tunnel()
        }
    }

    fn cleanup(&mut self) -> (action: TunnelChangeAction)
        ensures
            (final(self)@, action@) == tunnel_cleanup(old(self)@),
    {
        if self.bridge_live {
            self.phase = TunnelPhase::AwaitStop;
            TunnelChangeAction::StopBridge
        } else if self.tunnel_live {
            self.phase = TunnelPhase::AwaitStop;
            TunnelChangeAction::StopTunnel
        } else {
            self.phase = TunnelPhase::Done;
            TunnelChangeAction::Reply { error: Some(self.error.clone()) }
        }
    }

    /// Takes the report of the last step and returns the next step.
    pub fn step(&mut self, event: TunnelChangeEvent) -> (action: TunnelChangeAction)
        requires
            tunnel_change_wf(old(self)@),
            tunnel_accepts(old(self)@, event@),
        ensures
            tunnel_change_wf(final(self)@),
            (final(self)@, action@) == tunnel_change_step(old(self)@, event@),
    {
        let ghost before = self@;
        let action = match event {
            TunnelChangeEvent::ActiveTurn { active } => if active {
                self.phase = TunnelPhase::Done;
                TunnelChangeAction::Reply {
                    error: Some(String::from_str("stop the active turn before changing its SSH tunnel")),
                }
            } else {
                self.after_check()
            },
            TunnelChangeEvent::TunnelStarted => {
                self.tunnel_live = true;
                self.after_tunnel()
            },
            TunnelChangeEvent::TunnelFailed { message } => {
                self.error = message.clone();
                self.phase = TunnelPhase::Done;
                TunnelChangeAction::Reply { error: Some(message) }
            },
            TunnelChangeEvent::BridgeStarted => {
                self.bridge_live = true;
                self.phase = TunnelPhase::AwaitSave;
                TunnelChangeAction::Save
            },
            TunnelChangeEvent::BridgeFailed { message } => {
                self.error = message;
                self.cleanup()
            },
            TunnelChangeEvent::Saved => {
                self.phase = TunnelPhase::AwaitCommit;
                TunnelChangeAction::Commit
            },
            TunnelChangeEvent::SaveFailed { message } => {
                self.error = message;
                self.cleanup()
            },
            TunnelChangeEvent::Stopped => {
                if self.bridge_live {
                    self.bridge_live = false;
                } else {
                    self.tunnel_live = false;
                }
                self.cleanup()
            },
            TunnelChangeEvent::Committed => {
                self.committed = true;
                self.phase = TunnelPhase::Done;
                TunnelChangeAction::Reply { error: None }
            },
        };
        proof {
            reveal_strlit("stop the active turn before changing its SSH tunnel");
        }
        action
    }
}

/// A tunnel change that fails leaves neither a new tunnel nor a new app-server
/// running and commits nothing; one that succeeds was committed.
pub proof fn lemma_failed_tunnel_change_cleans_up(v: TunnelChangeView, e: TunnelEventView)
    requires
        tunnel_change_wf(v),
        tunnel_accepts(v, e),
    ensures
        ({
            let (next, action) = tunnel_change_step(v, e);
            &&& tunnel_change_wf(next)
            &&& action matches TunnelActionView::Reply(Some(_)) ==> !next.tunnel_live && !next.bridge_live
                && !next.committed
            &&& action matches TunnelActionView::Reply(None) ==> next.committed
            &&& action is Commit ==> e is Saved
        }),
{
}

/// How a change starts leaves it in a state that [`tunnel_change_wf`] describes.
pub proof fn lemma_tunnel_change_starts_wf(uses_tunnel: bool, configured: bool)
    ensures
        tunnel_change_wf(tunnel_change_start(uses_tunnel, configured).0),
{
}

/// The last step of a tunnel change in state `v`, which took the step `a`,
/// after the reports `events`.
pub open spec fn tunnel_run(v: TunnelChangeView, a: TunnelActionView, events: Seq<TunnelEventView>) -> TunnelActionView
    decreases events.len(),
{
    if events.len() == 0 {
        a
    } else {
        let (next, action) = tunnel_change_step(v, events[0]);
        tunnel_run(next, action, events.drop_first())
    }
}

/// Whether a tunnel change in state `v` can take the reports `events` one after
/// another.
pub open spec fn tunnel_trace_ok(v: TunnelChangeView, events: Seq<TunnelEventView>) -> bool
    decreases events.len(),
{
    events.len() == 0 || (tunnel_accepts(v, events[0]) && tunnel_trace_ok(
        tunnel_change_step(v, events[0]).0,
        events.drop_first(),
    ))
}

/// A finished tunnel change takes no further report.
proof fn lemma_finished_tunnel_change_stays(v: TunnelChangeView, a: TunnelActionView, events: Seq<TunnelEventView>)
    requires
        v.phase == TunnelPhase::Done,
        tunnel_trace_ok(v, events),
    ensures
        tunnel_run(v, a, events) == a,
{
    if events.len() > 0 {
        assert(!tunnel_accepts(v, events[0]));
    }
}

/// A change of the tunnel that the account in use relies on is committed only
/// after the account was found idle: that was its first report.
pub proof fn lemma_tunnel_change_waits_for_idle(configured: bool, events: Seq<TunnelEventView>)
    requires
        tunnel_trace_ok(tunnel_change_start(true, configured).0, events),
        tunnel_run(tunnel_change_start(true, configured).0, tunnel_change_start(true, configured).1, events) is Commit,
    ensures
        events.len() > 0,
        events[0] == TunnelEventView::ActiveTurn(false),
{
    let (v, a) = tunnel_change_start(true, configured);
    if events.len() == 0 {
        assert(tunnel_run(v, a, events) == a);
    } else {
        let (next, action) = tunnel_change_step(v, events[0]);
        let rest = events.drop_first();
        assert(tunnel_run(v, a, events) == tunnel_run(next, action, rest));
        assert(tunnel_accepts(v, events[0]));
        assert(tunnel_trace_ok(next, rest));
        if events[0] != TunnelEventView::ActiveTurn(false) {
            assert(next.phase == TunnelPhase::Done);
            lemma_finished_tunnel_change_stays(next, action, rest);
        }
    }
}

// ---------------------------------------------------------------------------
// Switching accounts

/// The next step of a switch to another account.
#[derive(Debug)]
pub enum SwitchAction {
    /// Ask whether the account in use is running a turn.
    CheckActiveTurn,
    /// Wait until the running turn of the account in use ends, then ask again.
    WaitForIdle,
    /// Look up the profile of the account to switch to.
    FindProfile,
    /// Start the profile's app-server.
    StartBridge,
    /// Read the account of the new app-server.
    ReadAccount,
    /// Read the rate limits of the new app-server.
    CheckRateLimit,
    /// Shut down the new app-server.
    StopBridge,
    /// Attach the new app-server, make it the one in use, announce the change
    /// and shut down the old one.
    Install,
    /// Answer: `None` on success, else the error.
    Reply { error: Option<WebError> },
}

/// What the last step of a switch reported.
#[derive(Debug)]
pub enum SwitchEvent {
    ActiveTurn { active: bool },
    ProfileFound { found: bool },
    BridgeStarted,
    BridgeFailed { error: WebError },
    /// The account was read: whether it can be used (see
    /// [`crate::server::account_available`]).
    AccountRead { available: bool },
    ReadFailed { error: WebError },
    RateLimit { limited: bool },
    Stopped,
    Installed,
}

/// The mathematical content of a [`SwitchAction`].
pub enum SwitchActionView {
    CheckActiveTurn,
    WaitForIdle,
    FindProfile,
    StartBridge,
    ReadAccount,
    CheckRateLimit,
    StopBridge,
    Install,
    Reply(Option<ErrorView>),
}

/// The mathematical content of a [`SwitchEvent`].
pub enum SwitchEventView {
    ActiveTurn(bool),
    ProfileFound(bool),
    BridgeStarted,
    BridgeFailed(ErrorView),
    AccountRead(bool),
    ReadFailed(ErrorView),
    RateLimit(bool),
    Stopped,
    Installed,
}

impl View for SwitchAction {
    type V = SwitchActionView;

    open spec fn view(&self) -> SwitchActionView {
        match self {
            SwitchAction::CheckActiveTurn => SwitchActionView::CheckActiveTurn,
            SwitchAction::WaitForIdle => SwitchActionView::WaitForIdle,
            SwitchAction::FindProfile => SwitchActionView::FindProfile,
            SwitchAction::StartBridge => SwitchActionView::StartBridge,
            SwitchAction::ReadAccount => SwitchActionView::ReadAccount,
            SwitchAction::CheckRateLimit => SwitchActionView::CheckRateLimit,
            SwitchAction::StopBridge => SwitchActionView::StopBridge,
            SwitchAction::Install => SwitchActionView::Install,
            SwitchAction::Reply { error } => SwitchActionView::Reply(
                match error {
                    Some(e) => Some(e@),
                    None => None,
                },
            ),
        }
    }
}

impl View for SwitchEvent {
    type V = SwitchEventView;

    open spec fn view(&self) -> SwitchEventView {
        match self {
            SwitchEvent::ActiveTurn { active } => SwitchEventView::ActiveTurn(*active),
            SwitchEvent::ProfileFound { found } => SwitchEventView::ProfileFound(*found),
            SwitchEvent::BridgeStarted => SwitchEventView::BridgeStarted,
            SwitchEvent::BridgeFailed { error } => SwitchEventView::BridgeFailed(error@),
            SwitchEvent::AccountRead { available } => SwitchEventView::AccountRead(*available),
            SwitchEvent::ReadFailed { error } => SwitchEventView::ReadFailed(error@),
            SwitchEvent::RateLimit { limited } => SwitchEventView::RateLimit(*limited),
            SwitchEvent::Stopped => SwitchEventView::Stopped,
            SwitchEvent::Installed => SwitchEventView::Installed,
        }
    }
}

/// Which report a switch waits for.
#[derive(Debug, Clone, Copy, PartialEq, Eq, Structural)]
pub enum SwitchPhase {
    AwaitTurnCheck,
    AwaitProfile,
    AwaitBridge,
    AwaitAccount,
    AwaitRateLimit,
    AwaitStop,
    AwaitInstall,
    Done,
}

/// The state of a switch: whether the new app-server runs, whether it was left
/// to be dropped after its account could not be read, whether it was
/// installed, the error to report once it is shut down, and the report
/// awaited.
pub struct SwitchView {
    pub bridge_live: bool,
    pub abandoned: bool,
    pub installed: bool,
    pub error: ErrorView,
    pub phase: SwitchPhase,
}

/// The error when no profile has the name.
pub open spec fn switch_missing_error() -> ErrorView {
    ErrorView { kind: ErrorKind::NotFound, message: "account profile not found"@ }
}

/// The error when the account is signed out.
pub open spec fn switch_signed_out_error() -> ErrorView {
    ErrorView { kind: ErrorKind::PermissionDenied, message: "account is not signed in"@ }
}

/// The error when the account's rate limits are exhausted.
pub open spec fn switch_rate_limited_error() -> ErrorView {
    ErrorView { kind: ErrorKind::PermissionDenied, message: "account rate limit is exhausted"@ }
}

/// The state of a fresh switch.
pub open spec fn switch_initial() -> SwitchView {
    SwitchView {
        bridge_live: false,
        abandoned: false,
        installed: false,
        error: ErrorView { kind: ErrorKind::Other, message: Seq::empty() },
        phase: SwitchPhase::AwaitTurnCheck,
    }
}

/// Ends a switch with an error, or shuts the new app-server down first.
pub open spec fn switch_refuse(v: SwitchView, error: ErrorView) -> (SwitchView, SwitchActionView) {
    if v.bridge_live {
        (SwitchView { error, phase: SwitchPhase::AwaitStop, ..v }, SwitchActionView::StopBridge)
    } else {
        (SwitchView { error, phase: SwitchPhase::Done, ..v }, SwitchActionView::Reply(Some(error)))
    }
}

/// Whether a switch in state `v` can take the report `e`.
pub open spec fn switch_accepts(v: SwitchView, e: SwitchEventView) -> bool {
    match v.phase {
        SwitchPhase::AwaitTurnCheck => e is ActiveTurn,
        SwitchPhase::AwaitProfile => e is ProfileFound,
        SwitchPhase::AwaitBridge => e is BridgeStarted || e is BridgeFailed,
        SwitchPhase::AwaitAccount => e is AccountRead || e is ReadFailed,
        SwitchPhase::AwaitRateLimit => e is RateLimit,
        SwitchPhase::AwaitStop => e is Stopped,
        SwitchPhase::AwaitInstall => e is Installed,
        SwitchPhase::Done => false,
    }
}

/// One step of a switch.
pub open spec fn switch_step(v: SwitchView, e: SwitchEventView) -> (SwitchView, SwitchActionView) {
    match e {
        SwitchEventView::ActiveTurn(active) => if active {
            (SwitchView { phase: SwitchPhase::AwaitTurnCheck, ..v }, SwitchActionView::WaitForIdle)
        } else {
            (SwitchView { phase: SwitchPhase::AwaitProfile, ..v }, SwitchActionView::FindProfile)
        },
        SwitchEventView::ProfileFound(found) => if found {
            (SwitchView { phase: SwitchPhase::AwaitBridge, ..v }, SwitchActionView::StartBridge)
        } else {
            switch_refuse(v, switch_missing_error())
        },
        SwitchEventView::BridgeStarted => (
            SwitchView { bridge_live: true, phase: SwitchPhase::AwaitAccount, ..v },
            SwitchActionView::ReadAccount,
        ),
        SwitchEventView::BridgeFailed(error) => switch_refuse(v, error),
        SwitchEventView::AccountRead(available) => if available {
            (SwitchView { phase: SwitchPhase::AwaitRateLimit, ..v }, SwitchActionView::CheckRateLimit)
        } else {
            switch_refuse(v, switch_signed_out_error())
        },
        SwitchEventView::ReadFailed(error) => (
            SwitchView { bridge_live: false, abandoned: true, error, phase: SwitchPhase::Done, ..v },
            SwitchActionView::Reply(Some(error)),
        ),
        SwitchEventView::RateLimit(limited) => if limited {
            switch_refuse(v, switch_rate_limited_error())
        } else {
            (SwitchView { phase: SwitchPhase::AwaitInstall, ..v }, SwitchActionView::Install)
        },
        SwitchEventView::Stopped => (
            SwitchView { bridge_live: false, phase: SwitchPhase::Done, ..v },
            SwitchActionView::Reply(Some(v.error)),
        ),
        SwitchEventView::Installed => (
            SwitchView { installed: true, phase: SwitchPhase::Done, ..v },
            SwitchActionView::Reply(None),
        ),
    }
}

/// What holds in every state a switch reaches: the new app-server runs from its
/// start until it is installed, shut down or abandoned, and only a finished
/// switch is installed.
pub open spec fn switch_wf(v: SwitchView) -> bool {
    &&& v.installed ==> v.phase == SwitchPhase::Done
    &&& match v.phase {
        SwitchPhase::AwaitTurnCheck => !v.bridge_live,
        SwitchPhase::AwaitProfile => !v.bridge_live,
        SwitchPhase::AwaitBridge => !v.bridge_live,
        SwitchPhase::AwaitAccount => v.bridge_live,
        SwitchPhase::AwaitRateLimit => v.bridge_live,
        SwitchPhase::AwaitStop => v.bridge_live,
        SwitchPhase::AwaitInstall => v.bridge_live,
        SwitchPhase::Done => v.installed || !v.bridge_live,
    }
}

/// A switch to another account: it waits until the account in use runs no
/// turn, then starts, checks and installs the new one.
pub struct AccountSwitch {
    bridge_live: bool,
    abandoned: bool,
    installed: bool,
    error: WebError,
    phase: SwitchPhase,
}

impl View for AccountSwitch {
    type V = SwitchView;

    closed spec fn view(&self) -> SwitchView {
        SwitchView {
            bridge_live: self.bridge_live,
            abandoned: self.abandoned,
            installed: self.installed,
            error: self.error@,
            phase: self.phase,
        }
    }
}

impl AccountSwitch {
    /// Starts a switch with the turn check.
    pub fn start() -> (r: (AccountSwitch, SwitchAction))
        ensures
            r.0@ == switch_initial(),
            r.1@ == SwitchActionView::CheckActiveTurn,
    {
        (
            AccountSwitch {
                bridge_live: false,
                abandoned: false,
                installed: false,
                error: WebError { kind: ErrorKind::Other, message: String::new() },
                phase: SwitchPhase::AwaitTurnCheck,
            },
            SwitchAction::CheckActiveTurn,
        )
    }

    fn refuse(&mut self, error: WebError) -> (action: SwitchAction)
        ensures
            (final(self)@, action@) == switch_refuse(old(self)@, error@),
    {
        if self.bridge_live {
            self.error = error;
            self.phase = SwitchPhase::AwaitStop;
            SwitchAction::StopBridge
        } else {
            self.error = error.duplicate();
            self.phase = SwitchPhase::Done;
            SwitchAction::Reply { error: Some(error) }
        }
    }

    /// Takes the report of the last step and returns the next step.
    pub fn step(&mut self, event: SwitchEvent) -> (action: SwitchAction)
        requires
            switch_wf(old(self)@),
            switch_accepts(old(self)@, event@),
        ensures
            switch_wf(final(self)@),
            (final(self)@, action@) == switch_step(old(self)@, event@),
    {
        proof {
            reveal_strlit("account profile not found");
            reveal_strlit("account is not signed in");
            reveal_strlit("account rate limit is exhausted");
        }
        match event {
            SwitchEvent::ActiveTurn { active } => if active {
                self.phase = SwitchPhase::AwaitTurnCheck;
                SwitchAction::WaitForIdle
            } else {
                self.phase = SwitchPhase::AwaitProfile;
                SwitchAction::FindProfile
            },
            SwitchEvent::ProfileFound { found } => if found {
                self.phase = SwitchPhase::AwaitBridge;
                SwitchAction::StartBridge
            } else {
                self.refuse(error_with(ErrorKind::NotFound, "account profile not found"))
            },
            SwitchEvent::BridgeStarted => {
                self.bridge_live = true;
                self.phase = SwitchPhase::AwaitAccount;
                SwitchAction::ReadAccount
            },
            SwitchEvent::BridgeFailed { error } => self.refuse(error),
            SwitchEvent::AccountRead { available } => if available {
                self.phase = SwitchPhase::AwaitRateLimit;
                SwitchAction::CheckRateLimit
            } else {
                self.refuse(error_with(ErrorKind::PermissionDenied, "account is not signed in"))
            },
            SwitchEvent::ReadFailed { error } => {
                self.bridge_live = false;
                self.abandoned = true;
                self.error = error.duplicate();
                self.phase = SwitchPhase::Done;
                SwitchAction::Reply { error: Some(error) }
            },
            SwitchEvent::RateLimit { limited } => if limited {
                self.refuse(error_with(ErrorKind::PermissionDenied, "account rate limit is exhausted"))
            } else {
                self.phase = SwitchPhase::AwaitInstall;
                SwitchAction::Install
            },
            SwitchEvent::Stopped => {
                self.bridge_live = false;
                self.phase = SwitchPhase::Done;
                SwitchAction::Reply { error: Some(self.error.duplicate()) }
            },
            SwitchEvent::Installed => {
                self.installed = true;
                self.phase = SwitchPhase::Done;
                SwitchAction::Reply { error: None }
            },
        }
    }
}

/// A switch that is refused leaves no new app-server running (one whose account
/// could not be read is abandoned to be dropped rather than shut down) and
/// installs nothing; one that succeeds installed the new app-server.
pub proof fn lemma_refused_switch_cleans_up(v: SwitchView, e: SwitchEventView)
    requires
        switch_wf(v),
        switch_accepts(v, e),
    ensures
        ({
            let (next, action) = switch_step(v, e);
            &&& switch_wf(next)
            &&& action matches SwitchActionView::Reply(Some(_)) ==> !next.bridge_live && !next.installed
            &&& action matches SwitchActionView::Reply(None) ==> next.installed
            &&& action is Install ==> e == SwitchEventView::RateLimit(false)
        }),
{
}

/// The last step of a switch in state `v`, which took the step `a`, after the
/// reports `events`.
pub open spec fn switch_run(v: SwitchView, a: SwitchActionView, events: Seq<SwitchEventView>) -> SwitchActionView
    decreases events.len(),
{
    if events.len() == 0 {
        a
    } else {
        let (next, action) = switch_step(v, events[0]);
        switch_run(next, action, events.drop_first())
    }
}

/// Whether a switch in state `v` can take the reports `events` one after another.
pub open spec fn switch_trace_ok(v: SwitchView, events: Seq<SwitchEventView>) -> bool
    decreases events.len(),
{
    events.len() == 0 || (switch_accepts(v, events[0]) && switch_trace_ok(
        switch_step(v, events[0]).0,
        events.drop_first(),
    ))
}

/// A finished switch takes no further report.
proof fn lemma_finished_switch_stays(v: SwitchView, a: SwitchActionView, events: Seq<SwitchEventView>)
    requires
        v.phase == SwitchPhase::Done,
        switch_trace_ok(v, events),
    ensures
        switch_run(v, a, events) == a,
{
    if events.len() > 0 {
        assert(!switch_accepts(v, events[0]));
    }
}

/// While a switch waits for the account in use to become idle, it installs
/// nothing before a report that no turn is running, and every report before
/// that one said a turn was running.
proof fn lemma_switch_waits_from(v: SwitchView, a: SwitchActionView, events: Seq<SwitchEventView>)
    requires
        v.phase == SwitchPhase::AwaitTurnCheck,
        !(a is Install),
        switch_trace_ok(v, events),
        switch_run(v, a, events) is Install,
    ensures
        exists|i: int|
            0 <= i < events.len() && #[trigger] events[i] == SwitchEventView::ActiveTurn(false) && forall|
                j: int,
            |
                0 <= j < i ==> #[trigger] events[j] == SwitchEventView::ActiveTurn(true),
    decreases events.len(),
{
    if events.len() == 0 {
        assert(switch_run(v, a, events) == a);
    } else {
        let (next, action) = switch_step(v, events[0]);
        let rest = events.drop_first();
        assert(switch_run(v, a, events) == switch_run(next, action, rest));
        assert(switch_accepts(v, events[0]));
        assert(switch_trace_ok(next, rest));
        if events[0] == SwitchEventView::ActiveTurn(false) {
            assert(events[0] == SwitchEventView::ActiveTurn(false));
        } else {
            assert(events[0] == SwitchEventView::ActiveTurn(true));
            assert(next.phase == SwitchPhase::AwaitTurnCheck);
            assert(action == SwitchActionView::WaitForIdle);
            lemma_switch_waits_from(next, action, rest);
            let k = choose|k: int|
                0 <= k < rest.len() && #[trigger] rest[k] == SwitchEventView::ActiveTurn(false) && forall|j: int|
                    0 <= j < k ==> #[trigger] rest[j] == SwitchEventView::ActiveTurn(true);
            assert(events[k + 1] == rest[k]);
            assert forall|j: int| 0 <= j < k + 1 implies #[trigger] events[j] == SwitchEventView::ActiveTurn(true) by {
                if j > 0 {
                    assert(events[j] == rest[j - 1]);
                }
            }
        }
    }
}

/// A switch installs the new app-server only once the account in use is idle:
/// some report said no turn was running, and every report before it said a
/// turn was, so the switch waited for the turn to end.
pub proof fn lemma_switch_waits_for_idle(events: Seq<SwitchEventView>)
    requires
        switch_trace_ok(switch_initial(), events),
        switch_run(switch_initial(), SwitchActionView::CheckActiveTurn, events) is Install,
    ensures
        exists|i: int|
            0 <= i < events.len() && #[trigger] events[i] == SwitchEventView::ActiveTurn(false) && forall|
                j: int,
            |
                0 <= j < i ==> #[trigger] events[j] == SwitchEventView::ActiveTurn(true),
{
    lemma_switch_waits_from(switch_initial(), SwitchActionView::CheckActiveTurn, events);
}

// ---------------------------------------------------------------------------
// Falling back to a healthy account

/// The next step of a check that the account in use is healthy.
#[derive(Debug)]
pub enum FailoverAction {
    /// Read the account in use.
    ReadCurrent,
    /// Read the rate limits of the account in use.
    CheckRateLimit,
    /// Switch to the named account.
    Switch { name: String },
    /// Answer: `None` when a healthy account is in use, else the error.
    Reply { error: Option<WebError> },
}

/// What the last step of a health check reported.
#[derive(Debug)]
pub enum FailoverEvent {
    /// The account in use was read: whether it can be used (a failed read
    /// counts as not).
    CurrentRead { available: bool },
    RateLimit { limited: bool },
    Switched,
    /// The switch failed with this error text.
    SwitchFailed { message: String },
}

/// The mathematical content of a [`FailoverAction`].
pub enum FailoverActionView {
    ReadCurrent,
    CheckRateLimit,
    Switch(Seq<char>),
    Reply(Option<ErrorView>),
}

/// The mathematical content of a [`FailoverEvent`].
pub enum FailoverEventView {
    CurrentRead(bool),
    RateLimit(bool),
    Switched,
    SwitchFailed(Seq<char>),
}

impl View for FailoverAction {
    type V = FailoverActionView;

    open spec fn view(&self) -> FailoverActionView {
        match self {
            FailoverAction::ReadCurrent => FailoverActionView::ReadCurrent,
            FailoverAction::CheckRateLimit => FailoverActionView::CheckRateLimit,
            FailoverAction::Switch { name } => FailoverActionView::Switch(name@),
            FailoverAction::Reply { error } => FailoverActionView::Reply(
                match error {
                    Some(e) => Some(e@),
                    None => None,
                },
            ),
        }
    }
}

impl View for FailoverEvent {
    type V = FailoverEventView;

    open spec fn view(&self) -> FailoverEventView {
        match self {
            FailoverEvent::CurrentRead { available } => FailoverEventView::CurrentRead(*available),
            FailoverEvent::RateLimit { limited } => FailoverEventView::RateLimit(*limited),
            FailoverEvent::Switched => FailoverEventView::Switched,
            FailoverEvent::SwitchFailed { message } => FailoverEventView::SwitchFailed(message@),
        }
    }
}

/// Which report a health check waits for.
#[derive(Debug, Clone, Copy, PartialEq, Eq, Structural)]
pub enum FailoverPhase {
    AwaitCurrent,
    AwaitRateLimit,
    AwaitSwitch,
    Done,
}

/// The state of a health check: the accounts to fall back to in order, how
/// many were tried, what each failed attempt reported, and the report awaited.
pub struct FailoverView {
    pub candidates: Seq<Seq<char>>,
    pub tried: nat,
    pub failures: Seq<Seq<char>>,
    pub phase: FailoverPhase,
}

/// The names of the profiles other than the one named `current`, in order.
pub open spec fn fallback_names(accounts: Seq<AccountProfileView>, current: Seq<char>) -> Seq<Seq<char>> {
    other_indices(accounts, Some(current), accounts.len() as int).map_values(|i: usize| accounts[i as int].name)
}

/// The error text when no account can take over.
pub open spec fn no_healthy_text(failures: Seq<Seq<char>>) -> Seq<char> {
    "no healthy Codex account is available"@ + if failures.len() == 0 {
        Seq::<char>::empty()
    } else {
        ": "@ + joined(failures, "; "@)
    }
}

/// Tries the next account, or gives up listing the failed attempts.
pub open spec fn failover_next(v: FailoverView) -> (FailoverView, FailoverActionView) {
    if v.tried < v.candidates.len() {
        (FailoverView { phase: FailoverPhase::AwaitSwitch, ..v }, FailoverActionView::Switch(v.candidates[v.tried as int]))
    } else {
        (
            FailoverView { phase: FailoverPhase::Done, ..v },
            FailoverActionView::Reply(Some(ErrorView { kind: ErrorKind::PermissionDenied, message: no_healthy_text(v.failures) })),
        )
    }
}

/// Whether a check in state `v` can take the report `e`.
pub open spec fn failover_accepts(v: FailoverView, e: FailoverEventView) -> bool {
    match v.phase {
        FailoverPhase::AwaitCurrent => e is CurrentRead,
        FailoverPhase::AwaitRateLimit => e is RateLimit,
        FailoverPhase::AwaitSwitch => e is Switched || e is SwitchFailed,
        FailoverPhase::Done => false,
    }
}

/// One step of a health check.
pub open spec fn failover_step(v: FailoverView, e: FailoverEventView) -> (FailoverView, FailoverActionView) {
    match e {
        FailoverEventView::CurrentRead(available) => if available {
            (FailoverView { phase: FailoverPhase::AwaitRateLimit, ..v }, FailoverActionView::CheckRateLimit)
        } else {
            failover_next(v)
        },
        FailoverEventView::RateLimit(limited) => if limited {
            failover_next(v)
        } else {
            (FailoverView { phase: FailoverPhase::Done, ..v }, FailoverActionView::Reply(None))
        },
        FailoverEventView::Switched => (FailoverView { phase: FailoverPhase::Done, ..v }, FailoverActionView::Reply(None)),
        FailoverEventView::SwitchFailed(m) => failover_next(
            FailoverView {
                tried: v.tried + 1,
                failures: v.failures.push(v.candidates[v.tried as int] + ": "@ + m),
                ..v
            },
        ),
    }
}

/// What holds in every state a health check reaches: the accounts were tried in
/// order, one failure recorded for each, naming it.
pub open spec fn failover_wf(v: FailoverView) -> bool {
    &&& v.tried <= v.candidates.len()
    &&& v.failures.len() == v.tried
    &&& forall|i: int|
        0 <= i < v.tried ==> (#[trigger] v.failures[i]).len() >= v.candidates[i].len() + 2
            && v.failures[i].subrange(0, v.candidates[i].len() as int + 2) == v.candidates[i] + ": "@
    &&& v.phase == FailoverPhase::AwaitSwitch ==> v.tried < v.candidates.len()
}

/// A check that the account in use is healthy, falling back to the others in
/// order.
pub struct Failover {
    candidates: Vec<String>,
    tried: usize,
    failures: Vec<String>,
    phase: FailoverPhase,
}

impl View for Failover {
    type V = FailoverView;

    closed spec fn view(&self) -> FailoverView {
        FailoverView {
            candidates: texts(self.candidates@),
            tried: self.tried as nat,
            failures: texts(self.failures@),
            phase: self.phase,
        }
    }
}

impl Failover {
    /// Starts a check of the account named `current`, with the other profiles
    /// to fall back to.
    pub fn start(accounts: &Vec<AccountProfile>, current: &str) -> (r: (Failover, FailoverAction))
        ensures
            failover_wf(r.0@),
            r.0@ == (FailoverView {
                candidates: fallback_names(profiles_view(accounts@), current@),
                tried: 0,
                failures: Seq::empty(),
                phase: FailoverPhase::AwaitCurrent,
            }),
            r.1@ == FailoverActionView::ReadCurrent,
    {
        let count = accounts.len();
        let order = switch_candidates(accounts, current);
        let ghost profiles = profiles_view(accounts@);
        let ghost names = fallback_names(profiles, current@);
        proof {
            lemma_other_indices_members(profiles, Some(current@), accounts@.len() as int);
        }
        let mut candidates: Vec<String> = Vec::new();
        let mut k: usize = 0;
        while k < order.len()
            invariant
                profiles == profiles_view(accounts@),
                names == fallback_names(profiles, current@),
                order@ == other_indices(profiles, Some(current@), accounts@.len() as int),
                forall|j: int| 0 <= j < order@.len() ==> 0 <= #[trigger] order@[j] < accounts@.len(),
                k <= order@.len(),
                texts(candidates@) == names.take(k as int),
                candidates@.len() == k,
            decreases order@.len() - k,
        {
            let i = order[k];
            assert(0 <= order@[k as int] < accounts@.len());
            let name = accounts[i].name.clone();
            candidates.push(name);
            proof {
                assert(profiles[i as int] == accounts@[i as int]@);
                assert(names[k as int] == profiles[order@[k as int] as int].name);
                assert(texts(candidates@)[k as int] == name@);
                assert(texts(candidates@) =~= names.take(k + 1));
            }
            k = k + 1;
        }
        assert(names.take(k as int) =~= names);
        let failover = Failover { candidates, tried: 0, failures: Vec::new(), phase: FailoverPhase::AwaitCurrent };
        assert(failover@.failures =~= Seq::<Seq<char>>::empty());
        (failover, FailoverAction::ReadCurrent)
    }

    fn next(&mut self) -> (action: FailoverAction)
        ensures
            (final(self)@, action@) == failover_next(old(self)@),
    {
        if self.tried < self.candidates.len() {
            self.phase = FailoverPhase::AwaitSwitch;
            FailoverAction::Switch { name: self.candidates[self.tried].clone() }
        } else {
            self.phase = FailoverPhase::Done;
            let message = no_healthy_account_message(&self.failures);
            FailoverAction::Reply { error: Some(WebError { kind: ErrorKind::PermissionDenied, message }) }
        }
    }

    /// Takes the report of the last step and returns the next step.
    pub fn step(&mut self, event: FailoverEvent) -> (action: FailoverAction)
        requires
            failover_wf(old(self)@),
            failover_accepts(old(self)@, event@),
        ensures
            failover_wf(final(self)@),
            (final(self)@, action@) == failover_step(old(self)@, event@),
    {
        let ghost before = self@;
        let count = self.candidates.len();
        assert(before.candidates.len() == count);
        match event {
            FailoverEvent::CurrentRead { available } => if available {
                self.phase = FailoverPhase::AwaitRateLimit;
                FailoverAction::CheckRateLimit
            } else {
                self.next()
            },
            FailoverEvent::RateLimit { limited } => if limited {
                self.next()
            } else {
                self.phase = FailoverPhase::Done;
                FailoverAction::Reply { error: None }
            },
            FailoverEvent::Switched => {
                self.phase = FailoverPhase::Done;
                FailoverAction::Reply { error: None }
            },
            FailoverEvent::SwitchFailed { message } => {
                let entry = concat3(self.candidates[self.tried].as_str(), ": ", message.as_str());
                self.failures.push(entry);
                self.tried = self.tried + 1;
                proof {
                    reveal_strlit(": ");
                    let after = self@;
                    assert(after.failures =~= before.failures.push(before.candidates[before.tried as int] + ": "@ + message@));
                    let t = before.tried as int;
                    let c = before.candidates[t];
                    assert((c + ": "@ + message@).subrange(0, c.len() as int + 2) =~= c + ": "@);
                    assert forall|i: int| 0 <= i < after.tried implies (#[trigger] after.failures[i]).len()
                        >= after.candidates[i].len() + 2 && after.failures[i].subrange(0, after.candidates[i].len() as int + 2)
                        == after.candidates[i] + ": "@ by {
                        if i < t {
                            assert(after.failures[i] == before.failures[i]);
                        }
                    }
                }
                self.next()
            },
        }
    }
}

/// A health check that gives up has tried every other account, in order, once
/// each, and its error lists every failed attempt, each naming its account.
pub proof fn lemma_failover_gives_up_after_every_account(v: FailoverView, e: FailoverEventView)
    requires
        failover_wf(v),
        failover_accepts(v, e),
    ensures
        ({
            let (next, action) = failover_step(v, e);
            &&& failover_wf(next)
            &&& action matches FailoverActionView::Reply(Some(err)) ==> next.tried == next.candidates.len()
                && err.message == no_healthy_text(next.failures) && err.kind == ErrorKind::PermissionDenied
            &&& action matches FailoverActionView::Switch(name) ==> name == next.candidates[next.tried as int]
        }),
{
    if let FailoverEventView::SwitchFailed(m) = e {
        reveal_strlit(": ");
        let t = v.tried as int;
        let c = v.candidates[t];
        let after = FailoverView { tried: v.tried + 1, failures: v.failures.push(c + ": "@ + m), ..v };
        assert((c + ": "@ + m).subrange(0, c.len() as int + 2) =~= c + ": "@);
        assert forall|i: int| 0 <= i < after.tried implies (#[trigger] after.failures[i]).len()
            >= after.candidates[i].len() + 2 && after.failures[i].subrange(0, after.candidates[i].len() as int + 2)
            == after.candidates[i] + ": "@ by {
            if i < t {
                assert(after.failures[i] == v.failures[i]);
            }
        }
    }
}

// ---------------------------------------------------------------------------
// Choosing the account at start-up

/// The next step of choosing the account the daemon starts with.
#[derive(Debug)]
pub enum StartupAction {
    /// Start the app-server of the profile at this position.
    StartBridge { index: usize },
    /// Read the account of the app-server just started.
    ReadAccount,
    /// Read its rate limits.
    CheckRateLimit,
    /// Shut it down.
    StopBridge,
    /// Start the first profile's app-server anyway, so that it can be signed in.
    StartFirst,
    /// Use the profile at this position with the app-server started for it.
    Use { index: usize },
    /// Give up with this error.
    Fail { error: WebError },
}

/// What the last step of choosing the account reported.
#[derive(Debug)]
pub enum StartupEvent {
    BridgeStarted,
    BridgeFailed { message: String },
    /// The account was read: whether it can be used (a failed read counts as not).
    AccountRead { available: bool },
    RateLimit { limited: bool },
    Stopped,
    FirstStarted,
    FirstFailed { error: WebError },
}

/// The mathematical content of a [`StartupAction`].
pub enum StartupActionView {
    StartBridge(usize),
    ReadAccount,
    CheckRateLimit,
    StopBridge,
    StartFirst,
    Use(usize),
    Fail(ErrorView),
}

/// The mathematical content of a [`StartupEvent`].
pub enum StartupEventView {
    BridgeStarted,
    BridgeFailed(Seq<char>),
    AccountRead(bool),
    RateLimit(bool),
    Stopped,
    FirstStarted,
    FirstFailed(ErrorView),
}

impl View for StartupAction {
    type V = StartupActionView;

    open spec fn view(&self) -> StartupActionView {
        match self {
            StartupAction::StartBridge { index } => StartupActionView::StartBridge(*index),
            StartupAction::ReadAccount => StartupActionView::ReadAccount,
            StartupAction::CheckRateLimit => StartupActionView::CheckRateLimit,
            StartupAction::StopBridge => StartupActionView::StopBridge,
            StartupAction::StartFirst => StartupActionView::StartFirst,
            StartupAction::Use { index } => StartupActionView::Use(*index),
            StartupAction::Fail { error } => StartupActionView::Fail(error@),
        }
    }
}

impl View for StartupEvent {
    type V = StartupEventView;

    open spec fn view(&self) -> StartupEventView {
        match self {
            StartupEvent::BridgeStarted => StartupEventView::BridgeStarted,
            StartupEvent::BridgeFailed { message } => StartupEventView::BridgeFailed(message@),
            StartupEvent::AccountRead { available } => StartupEventView::AccountRead(*available),
            StartupEvent::RateLimit { limited } => StartupEventView::RateLimit(*limited),
            StartupEvent::Stopped => StartupEventView::Stopped,
            StartupEvent::FirstStarted => StartupEventView::FirstStarted,
            StartupEvent::FirstFailed { error } => StartupEventView::FirstFailed(error@),
        }
    }
}

/// Which report the choice of the account waits for.
#[derive(Debug, Clone, Copy, PartialEq, Eq, Structural)]
pub enum StartupPhase {
    AwaitBridge,
    AwaitAccount,
    AwaitRateLimit,
    AwaitStop,
    AwaitFirst,
    Done,
}

/// The state of the choice: the profiles' names, the positions to try in
/// order, how many were tried, what each failed attempt reported, whether the
/// app-server of the candidate at hand runs, and the report awaited.
pub struct StartupView {
    pub names: Seq<Seq<char>>,
    pub order: Seq<usize>,
    pub pos: nat,
    pub failures: Seq<Seq<char>>,
    pub live: bool,
    pub phase: StartupPhase,
}

/// The names of the profiles, in order.
pub open spec fn profile_names(accounts: Seq<AccountProfileView>) -> Seq<Seq<char>> {
    accounts.map_values(|a: AccountProfileView| a.name)
}

/// The error when no profile is configured.
pub open spec fn no_accounts_error() -> ErrorView {
    ErrorView { kind: ErrorKind::InvalidInput, message: "no accounts configured"@ }
}

/// The name of the candidate at hand.
pub open spec fn candidate_name(v: StartupView) -> Seq<char> {
    v.names[v.order[v.pos as int] as int]
}

/// The state of a fresh choice among `accounts`, preferring the profile named
/// `preferred`: the preferred profile first, then the others in order.
pub open spec fn startup_initial(accounts: Seq<AccountProfileView>, preferred: Option<Seq<char>>) -> StartupView {
    StartupView {
        names: profile_names(accounts),
        order: candidates_spec(accounts, preferred),
        pos: 0,
        failures: Seq::empty(),
        live: false,
        phase: StartupPhase::AwaitBridge,
    }
}

/// Tries the next candidate; after the last, falls back to the first profile,
/// or fails when there is none.
pub open spec fn startup_next(v: StartupView) -> (StartupView, StartupActionView) {
    if v.pos < v.order.len() {
        (StartupView { phase: StartupPhase::AwaitBridge, ..v }, StartupActionView::StartBridge(v.order[v.pos as int]))
    } else if v.names.len() > 0 {
        (StartupView { phase: StartupPhase::AwaitFirst, ..v }, StartupActionView::StartFirst)
    } else {
        (StartupView { phase: StartupPhase::Done, ..v }, StartupActionView::Fail(no_accounts_error()))
    }
}

/// Whether the choice in state `v` can take the report `e`.
pub open spec fn startup_accepts(v: StartupView, e: StartupEventView) -> bool {
    match v.phase {
        StartupPhase::AwaitBridge => e is BridgeStarted || e is BridgeFailed,
        StartupPhase::AwaitAccount => e is AccountRead,
        StartupPhase::AwaitRateLimit => e is RateLimit,
        StartupPhase::AwaitStop => e is Stopped,
        StartupPhase::AwaitFirst => e is FirstStarted || e is FirstFailed,
        StartupPhase::Done => false,
    }
}

/// One step of the choice.
pub open spec fn startup_step(v: StartupView, e: StartupEventView) -> (StartupView, StartupActionView) {
    match e {
        StartupEventView::BridgeStarted => (
            StartupView { live: true, phase: StartupPhase::AwaitAccount, ..v },
            StartupActionView::ReadAccount,
        ),
        StartupEventView::BridgeFailed(m) => startup_next(
            StartupView { pos: v.pos + 1, failures: v.failures.push(candidate_name(v) + ": "@ + m), ..v },
        ),
        StartupEventView::AccountRead(available) => if available {
            (StartupView { phase: StartupPhase::AwaitRateLimit, ..v }, StartupActionView::CheckRateLimit)
        } else {
            (
                StartupView {
                    failures: v.failures.push(candidate_name(v) + ": "@ + "not signed in"@),
                    phase: StartupPhase::AwaitStop,
                    ..v
                },
                StartupActionView::StopBridge,
            )
        },
        StartupEventView::RateLimit(limited) => if limited {
            (
                StartupView {
                    failures: v.failures.push(candidate_name(v) + ": "@ + "rate limit exhausted"@),
                    phase: StartupPhase::AwaitStop,
                    ..v
                },
                StartupActionView::StopBridge,
            )
        } else {
            (StartupView { phase: StartupPhase::Done, ..v }, StartupActionView::Use(v.order[v.pos as int]))
        },
        StartupEventView::Stopped => startup_next(StartupView { pos: v.pos + 1, live: false, ..v }),
        StartupEventView::FirstStarted => (
            StartupView { live: true, phase: StartupPhase::Done, ..v },
            StartupActionView::Use(0),
        ),
        StartupEventView::FirstFailed(error) => (
            StartupView { phase: StartupPhase::Done, ..v },
            StartupActionView::Fail(error),
        ),
    }
}

/// What holds in every state the choice reaches: the candidates are profiles,
/// one failure is recorded per candidate given up, and an app-server runs
/// exactly while its candidate is being checked.
pub open spec fn startup_wf(v: StartupView) -> bool {
    &&& v.pos <= v.order.len()
    &&& forall|k: int| 0 <= k < v.order.len() ==> #[trigger] v.order[k] < v.names.len()
    &&& v.failures.len() == v.pos + if v.phase == StartupPhase::AwaitStop { 1int } else { 0int }
    &&& match v.phase {
        StartupPhase::AwaitBridge => v.pos < v.order.len() && !v.live,
        StartupPhase::AwaitAccount => v.pos < v.order.len() && v.live,
        StartupPhase::AwaitRateLimit => v.pos < v.order.len() && v.live,
        StartupPhase::AwaitStop => v.pos < v.order.len() && v.live,
        StartupPhase::AwaitFirst => v.names.len() > 0 && !v.live && v.pos == v.order.len(),
        StartupPhase::Done => true,
    }
}

/// The choice of the account the daemon starts with: the preferred profile
/// first, then the others in order, each checked for a login and for spare
/// rate limits, and at worst the first profile so that it can be signed in.
pub struct StartupAccount {
    names: Vec<String>,
    order: Vec<usize>,
    pos: usize,
    failures: Vec<String>,
    live: bool,
    phase: StartupPhase,
}

impl View for StartupAccount {
    type V = StartupView;

    closed spec fn view(&self) -> StartupView {
        StartupView {
            names: texts(self.names@),
            order: self.order@,
            pos: self.pos as nat,
            failures: texts(self.failures@),
            live: self.live,
            phase: self.phase,
        }
    }
}

impl StartupAccount {
    /// Starts the choice among `accounts`, preferring the profile named
    /// `preferred`.
    pub fn start(accounts: &Vec<AccountProfile>, preferred: Option<&str>) -> (r: (StartupAccount, StartupAction))
        ensures
            startup_wf(r.0@),
            (r.0@, r.1@) == startup_next(startup_initial(profiles_view(accounts@), opt_str(preferred))),
    {
        let count = accounts.len();
        let ghost profiles = profiles_view(accounts@);
        let mut names: Vec<String> = Vec::new();
        let mut i: usize = 0;
        while i < accounts.len()
            invariant
                profiles == profiles_view(accounts@),
                i <= accounts@.len(),
                texts(names@) == profile_names(profiles).take(i as int),
                names@.len() == i,
            decreases accounts@.len() - i,
        {
            names.push(accounts[i].name.clone());
            proof {
                assert(profiles[i as int] == accounts@[i as int]@);
                assert(texts(names@) =~= profile_names(profiles).take(i + 1));
            }
            i = i + 1;
        }
        assert(profile_names(profiles).take(i as int) =~= profile_names(profiles));
        let order = account_candidates(accounts, preferred);
        proof {
            lemma_candidates_in_range(profiles, opt_str(preferred));
        }
        let mut choice = StartupAccount {
            names,
            order,
            pos: 0,
            failures: Vec::new(),
            live: false,
            phase: StartupPhase::AwaitBridge,
        };
        assert(choice@.failures =~= Seq::<Seq<char>>::empty());
        let action = choice.next();
        (choice, action)
    }

    fn next(&mut self) -> (action: StartupAction)
        ensures
            (final(self)@, action@) == startup_next(old(self)@),
    {
        proof {
            reveal_strlit("no accounts configured");
        }
        if self.pos < self.order.len() {
            self.phase = StartupPhase::AwaitBridge;
            StartupAction::StartBridge { index: self.order[self.pos] }
        } else if self.names.len() > 0 {
            self.phase = StartupPhase::AwaitFirst;
            StartupAction::StartFirst
        } else {
            self.phase = StartupPhase::Done;
            StartupAction::Fail { error: error_with(ErrorKind::InvalidInput, "no accounts configured") }
        }
    }

    fn record(&mut self, reason: &str)
        requires
            old(self).pos < old(self).order@.len(),
            old(self).order@[old(self).pos as int] < old(self).names@.len(),
        ensures
            final(self)@ == (StartupView {
                failures: old(self)@.failures.push(candidate_name(old(self)@) + ": "@ + reason@),
                ..old(self)@
            }),
    {
        let entry = concat3(self.names[self.order[self.pos]].as_str(), ": ", reason);
        let ghost before = self@;
        self.failures.push(entry);
        proof {
            reveal_strlit(": ");
            assert(self@.failures =~= before.failures.push(candidate_name(before) + ": "@ + reason@));
        }
    }

    /// The failed attempts so far, each as `name: reason`.
    pub fn failures(&self) -> (f: &Vec<String>)
        ensures
            texts(f@) == self@.failures,
    {
        &self.failures
    }

    /// Takes the report of the last step and returns the next step.
    pub fn step(&mut self, event: StartupEvent) -> (action: StartupAction)
        requires
            startup_wf(old(self)@),
            startup_accepts(old(self)@, event@),
        ensures
            startup_wf(final(self)@),
            (final(self)@, action@) == startup_step(old(self)@, event@),
    {
        let count = self.order.len();
        let names_count = self.names.len();
        let ghost before = self@;
        proof {
            reveal_strlit("not signed in");
            reveal_strlit("rate limit exhausted");
            if before.pos < before.order.len() {
                assert(before.order[before.pos as int] < before.names.len());
            }
        }
        match event {
            StartupEvent::BridgeStarted => {
                self.live = true;
                self.phase = StartupPhase::AwaitAccount;
                StartupAction::ReadAccount
            },
            StartupEvent::BridgeFailed { message } => {
                self.record(message.as_str());
                self.pos = self.pos + 1;
                self.next()
            },
            StartupEvent::AccountRead { available } => if available {
                self.phase = StartupPhase::AwaitRateLimit;
                StartupAction::CheckRateLimit
            } else {
                self.record(unavailable_reason(false));
                self.phase = StartupPhase::AwaitStop;
                StartupAction::StopBridge
            },
            StartupEvent::RateLimit { limited } => if limited {
                self.record(unavailable_reason(true));
                self.phase = StartupPhase::AwaitStop;
                StartupAction::StopBridge
            } else {
                self.phase = StartupPhase::Done;
                StartupAction::Use { index: self.order[self.pos] }
            },
            StartupEvent::Stopped => {
                self.live = false;
                self.pos = self.pos + 1;
                self.next()
            },
            StartupEvent::FirstStarted => {
                self.live = true;
                self.phase = StartupPhase::Done;
                StartupAction::Use { index: 0 }
            },
            StartupEvent::FirstFailed { error } => {
                self.phase = StartupPhase::Done;
                StartupAction::Fail { error }
            },
        }
    }
}

/// While choosing the account, a new app-server is started only once the one
/// started before it was shut down (or failed to start), and the profile used
/// is one that was read as signed in with spare rate limits, or the first one
/// once every candidate was given up.
pub proof fn lemma_startup_one_app_server_at_a_time(v: StartupView, e: StartupEventView)
    requires
        startup_wf(v),
        startup_accepts(v, e),
    ensures
        ({
            let (next, action) = startup_step(v, e);
            &&& startup_wf(next)
            &&& (action is StartBridge || action is StartFirst) ==> !v.live || e is Stopped
            &&& action matches StartupActionView::Use(i) ==> (e == StartupEventView::RateLimit(false) && i
                == v.order[v.pos as int]) || (e is FirstStarted && i == 0 && v.pos == v.order.len())
        }),
{
}

} // verus!
