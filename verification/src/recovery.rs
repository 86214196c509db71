//! Restart recovery bookkeeping: which root sessions were running when the daemon
//! stopped, with the turn settings to resume them in, and the decisions taken
//! while restoring them after a restart.

use vstd::prelude::*;
use crate::daemon_config::{opt_text, clone_text};
use crate::text::{str_eq, text_less, decimal, decimal_string};
use crate::error::{WebError, ErrorKind, ErrorView, error_with};
use crate::text_map::{TextMap, keys_sorted, lists_map};

verus! {

/// The version written into the recovery file.
pub const RECOVERY_STATE_VERSION: u32 = 1;

/// The turn settings a session was last started with. `effort` and
/// `collaboration_mode` hold the JSON text of the values the app-server sent.
#[derive(Debug)]
pub struct SavedTurnSettings {
    pub model: Option<String>,
    pub effort: Option<String>,
    pub collaboration_mode: Option<String>,
}

/// The mathematical content of [`SavedTurnSettings`].
pub struct SettingsView {
    pub model: Option<Seq<char>>,
    pub effort: Option<Seq<char>>,
    pub collaboration_mode: Option<Seq<char>>,
}

impl View for SavedTurnSettings {
    type V = SettingsView;

    open spec fn view(&self) -> SettingsView {
        SettingsView {
            model: opt_text(self.model),
            effort: opt_text(self.effort),
            collaboration_mode: opt_text(self.collaboration_mode),
        }
    }
}

/// Settings with nothing saved.
pub open spec fn no_settings() -> SettingsView {
    SettingsView { model: None, effort: None, collaboration_mode: None }
}

fn same_text(a: &Option<String>, b: &Option<String>) -> (r: bool)
    ensures
        r == (opt_text(*a) == opt_text(*b)),
{
    match (a, b) {
        (Some(x), Some(y)) => str_eq(x.as_str(), y.as_str()),
        (None, None) => true,
        _ => false,
    }
}

impl SavedTurnSettings {
    /// Settings with nothing saved.
    pub fn none() -> (s: SavedTurnSettings)
        ensures
            s@ == no_settings(),
    {
        SavedTurnSettings { model: None, effort: None, collaboration_mode: None }
    }

    /// Whether nothing is saved.
    pub fn is_empty(&self) -> (r: bool)
        ensures
            r == (self@ == no_settings()),
    {
        self.model.is_none() && self.effort.is_none() && self.collaboration_mode.is_none()
    }

    /// A copy of the settings.
    pub fn duplicate(&self) -> (s: SavedTurnSettings)
        ensures
            s@ == self@,
    {
        SavedTurnSettings {
            model: clone_text(&self.model),
            effort: clone_text(&self.effort),
            collaboration_mode: clone_text(&self.collaboration_mode),
        }
    }

    /// Whether two settings hold the same values.
    pub fn same_as(&self, other: &SavedTurnSettings) -> (r: bool)
        ensures
            r == (self@ == other@),
    {
        same_text(&self.model, &other.model) && same_text(&self.effort, &other.effort)
            && same_text(&self.collaboration_mode, &other.collaboration_mode)
    }
}

/// A root session that was running, the account it ran under, and the settings
/// to resume it with.
#[derive(Debug)]
pub struct RecoverableSession {
    pub thread_id: String,
    pub account_name: String,
    pub settings: SavedTurnSettings,
}

/// The mathematical content of a [`RecoverableSession`].
pub struct SessionView {
    pub thread_id: Seq<char>,
    pub account_name: Seq<char>,
    pub settings: SettingsView,
}

impl View for RecoverableSession {
    type V = SessionView;

    open spec fn view(&self) -> SessionView {
        SessionView {
            thread_id: self.thread_id@,
            account_name: self.account_name@,
            settings: self.settings@,
        }
    }
}

impl RecoverableSession {
    /// A copy of the session.
    pub fn duplicate(&self) -> (s: RecoverableSession)
        ensures
            s@ == self@,
    {
        RecoverableSession {
            thread_id: self.thread_id.clone(),
            account_name: self.account_name.clone(),
            settings: self.settings.duplicate(),
        }
    }
}

/// The recovery bookkeeping as mathematics: the tracked sessions by thread id,
/// the threads being restored, and the last settings seen per thread.
pub struct RecoveryView {
    pub sessions: Map<Seq<char>, SessionView>,
    pub restoring: Set<Seq<char>>,
    pub settings: Map<Seq<char>, SettingsView>,
}

/// The settings a newly active thread is tracked with: the last ones seen for it,
/// else those it was already tracked with, else none.
pub open spec fn settings_for(v: RecoveryView, thread_id: Seq<char>) -> SettingsView {
    if v.settings.contains_key(thread_id) {
        v.settings[thread_id]
    } else if v.sessions.contains_key(thread_id) {
        v.sessions[thread_id].settings
    } else {
        no_settings()
    }
}

/// The bookkeeping after `thread_id` is seen running under `account_name`.
pub open spec fn after_mark_active(v: RecoveryView, thread_id: Seq<char>, account_name: Seq<char>) -> RecoveryView {
    RecoveryView {
        sessions: v.sessions.insert(
            thread_id,
            SessionView { thread_id, account_name, settings: settings_for(v, thread_id) },
        ),
        ..v
    }
}

/// The bookkeeping after `thread_id` is seen idle: it is forgotten unless it is
/// being restored.
pub open spec fn after_mark_idle(v: RecoveryView, thread_id: Seq<char>) -> RecoveryView {
    if v.restoring.contains(thread_id) {
        v
    } else {
        RecoveryView { sessions: v.sessions.remove(thread_id), ..v }
    }
}

/// The bookkeeping after `thread_id` is closed, deleted or otherwise abandoned.
pub open spec fn after_discard(v: RecoveryView, thread_id: Seq<char>) -> RecoveryView {
    RecoveryView {
        sessions: v.sessions.remove(thread_id),
        restoring: v.restoring.remove(thread_id),
        ..v
    }
}

/// The bookkeeping once every tracked session is being restored.
pub open spec fn after_begin_restore(v: RecoveryView) -> RecoveryView {
    RecoveryView { restoring: v.restoring.union(v.sessions.dom()), ..v }
}

/// The bookkeeping once the restore of `thread_id` has finished.
pub open spec fn after_finish_restore(v: RecoveryView, thread_id: Seq<char>) -> RecoveryView {
    RecoveryView { restoring: v.restoring.remove(thread_id), ..v }
}

/// The bookkeeping after `settings` are seen for `thread_id`; empty settings
/// change nothing.
pub open spec fn after_remember_settings(v: RecoveryView, thread_id: Seq<char>, settings: SettingsView) -> RecoveryView {
    if settings == no_settings() {
        v
    } else {
        RecoveryView {
            settings: v.settings.insert(thread_id, settings),
            sessions: if v.sessions.contains_key(thread_id) {
                v.sessions.insert(
                    thread_id,
                    SessionView { settings, ..v.sessions[thread_id] },
                )
            } else {
                v.sessions
            },
            ..v
        }
    }
}

/// Each tracked session is filed under its own thread id.
pub open spec fn sessions_keyed(sessions: Map<Seq<char>, SessionView>) -> bool {
    forall|k: Seq<char>| #[trigger] sessions.contains_key(k) ==> sessions[k].thread_id == k
}

/// `list` holds the tracked sessions, one per thread, in thread-id order.
pub open spec fn lists_sessions(list: Seq<SessionView>, sessions: Map<Seq<char>, SessionView>) -> bool {
    &&& forall|i: int, j: int|
        0 <= i < j < list.len() ==> text_less(#[trigger] list[i].thread_id, #[trigger] list[j].thread_id)
    &&& forall|i: int|
        0 <= i < list.len() ==> sessions.contains_key(#[trigger] list[i].thread_id)
            && sessions[list[i].thread_id] == list[i]
    &&& forall|k: Seq<char>|
        #[trigger] sessions.contains_key(k) ==> exists|i: int| 0 <= i < list.len() && #[trigger] list[i].thread_id == k
}

/// The sessions of `list` by thread id; a later entry for a thread replaces an
/// earlier one.
pub open spec fn sessions_from(list: Seq<SessionView>) -> Map<Seq<char>, SessionView>
    decreases list.len(),
{
    if list.len() == 0 {
        Map::empty()
    } else {
        sessions_from(list.drop_last()).insert(list.last().thread_id, list.last())
    }
}

/// The views of a list of sessions.
pub open spec fn session_views(list: Seq<RecoverableSession>) -> Seq<SessionView> {
    list.map_values(|s: RecoverableSession| s@)
}

/// Rebuilding the sessions from the list that describes them gives them back.
pub proof fn lemma_sessions_round_trip(list: Seq<SessionView>, sessions: Map<Seq<char>, SessionView>)
    requires
        lists_sessions(list, sessions),
    ensures
        sessions_from(list) == sessions,
    decreases list.len(),
{
    if list.len() == 0 {
        assert forall|k: Seq<char>| !sessions.contains_key(k) by {
            if sessions.contains_key(k) {
                let i = choose|i: int| 0 <= i < list.len() && #[trigger] list[i].thread_id == k;
            }
        }
        assert(sessions =~= Map::<Seq<char>, SessionView>::empty());
    } else {
        let last = list.last();
        let rest = list.drop_last();
        let smaller = sessions.remove(last.thread_id);
        assert(lists_sessions(rest, smaller)) by {
            assert forall|i: int, j: int| 0 <= i < j < rest.len() implies text_less(
                #[trigger] rest[i].thread_id,
                #[trigger] rest[j].thread_id,
            ) by {
                assert(rest[i] == list[i] && rest[j] == list[j]);
            }
            assert forall|i: int| 0 <= i < rest.len() implies smaller.contains_key(
                #[trigger] rest[i].thread_id,
            ) && smaller[rest[i].thread_id] == rest[i] by {
                assert(rest[i] == list[i]);
                assert(text_less(list[i].thread_id, list[list.len() - 1].thread_id));
                crate::text::lemma_text_less_irreflexive(last.thread_id);
            }
            assert forall|k: Seq<char>| #[trigger] smaller.contains_key(k) implies exists|i: int|
                0 <= i < rest.len() && #[trigger] rest[i].thread_id == k by {
                let i = choose|i: int| 0 <= i < list.len() && #[trigger] list[i].thread_id == k;
                assert(i != list.len() - 1);
                assert(rest[i].thread_id == k);
            }
        }
        lemma_sessions_round_trip(rest, smaller);
        assert(sessions.contains_key(last.thread_id));
        assert(sessions_from(list) =~= sessions);
    }
}

/// The recovery bookkeeping of the daemon.
pub struct RecoveryState {
    sessions: TextMap<RecoverableSession>,
    restoring: TextMap<()>,
    settings: TextMap<SavedTurnSettings>,
}

impl RecoveryState {
    /// The bookkeeping as mathematics.
    pub closed spec fn view(&self) -> RecoveryView {
        RecoveryView {
            sessions: self.sessions.view().map_values(|s: RecoverableSession| s@),
            restoring: self.restoring.view().dom(),
            settings: self.settings.view().map_values(|s: SavedTurnSettings| s@),
        }
    }

    /// The three maps are consistent and each session is filed under its id.
    pub closed spec fn wf(&self) -> bool {
        &&& self.sessions.wf()
        &&& self.restoring.wf()
        &&& self.settings.wf()
        &&& forall|k: Seq<char>|
            #[trigger] self.sessions.view().contains_key(k) ==> self.sessions.view()[k].thread_id@
                == k
    }

    /// Nothing tracked.
    pub fn new() -> (state: RecoveryState)
        ensures
            state.wf(),
            state.view().sessions == Map::<Seq<char>, SessionView>::empty(),
            state.view().restoring == Set::<Seq<char>>::empty(),
            state.view().settings == Map::<Seq<char>, SettingsView>::empty(),
    {
        let state = RecoveryState { sessions: TextMap::new(), restoring: TextMap::new(), settings: TextMap::new() };
        assert(state.view().sessions =~= Map::<Seq<char>, SessionView>::empty());
        assert(state.view().restoring =~= Set::<Seq<char>>::empty());
        assert(state.view().settings =~= Map::<Seq<char>, SettingsView>::empty());
        state
    }
}

impl RecoveryState {
    /// Tracks `thread_id` as running under `account_name`. Returns whether the
    /// tracked sessions changed (and so must be written out).
    pub fn mark_active(&mut self, thread_id: &str, account_name: &str) -> (changed: bool)
        requires
            old(self).wf(),
        ensures
            final(self).wf(),
            final(self).view() == after_mark_active(old(self).view(), thread_id@, account_name@),
            changed == (final(self).view().sessions != old(self).view().sessions),
    {
        let ghost before = self.view();
        let ghost old_map = self.sessions.view();
        let settings = match self.settings.get(thread_id) {
            Some(saved) => saved.duplicate(),
            None => match self.sessions.get(thread_id) {
                Some(existing) => existing.settings.duplicate(),
                None => SavedTurnSettings::none(),
            },
        };
        assert(settings@ == settings_for(before, thread_id@));
        let changed = match self.sessions.get(thread_id) {
            Some(existing) => !(str_eq(existing.account_name.as_str(), account_name)
                && existing.settings.same_as(&settings)),
            None => true,
        };
        let session = RecoverableSession {
            thread_id: String::from_str(thread_id),
            account_name: String::from_str(account_name),
            settings,
        };
        let ghost new_view = session@;
        let ghost stored = session;
        self.sessions.insert(String::from_str(thread_id), session);
        proof {
            assert(self.sessions.view() == old_map.insert(thread_id@, stored));
            assert(self.sessions.view().map_values(|s: RecoverableSession| s@) =~= old_map.map_values(
                |s: RecoverableSession| s@,
            ).insert(thread_id@, new_view));
            let after = self.view();
            assert(after.restoring == before.restoring);
            assert(after.settings == before.settings);
            assert(after =~= after_mark_active(before, thread_id@, account_name@));
            if !changed {
                assert(before.sessions.contains_key(thread_id@));
                assert(before.sessions[thread_id@] == new_view);
                assert(after.sessions =~= before.sessions);
            } else if before.sessions.contains_key(thread_id@) {
                assert(after.sessions[thread_id@] != before.sessions[thread_id@]);
            } else {
                assert(after.sessions.contains_key(thread_id@));
            }
        }
        changed
    }

    /// Forgets `thread_id` on going idle unless it is being restored. Returns
    /// whether the tracked sessions changed.
    pub fn mark_idle(&mut self, thread_id: &str) -> (changed: bool)
        requires
            old(self).wf(),
        ensures
            final(self).wf(),
            final(self).view() == after_mark_idle(old(self).view(), thread_id@),
            changed == (final(self).view().sessions != old(self).view().sessions),
    {
        let ghost before = self.view();
        if self.restoring.contains(thread_id) {
            return false;
        }
        let present = self.sessions.contains(thread_id);
        self.sessions.remove(thread_id);
        proof {
            let after = self.view();
            assert(after.sessions =~= before.sessions.remove(thread_id@));
            assert(after =~= after_mark_idle(before, thread_id@));
            if !present {
                assert(after.sessions =~= before.sessions);
            } else {
                assert(!after.sessions.contains_key(thread_id@));
            }
        }
        present
    }

    /// Forgets `thread_id` entirely. Returns whether the tracked sessions changed.
    pub fn discard(&mut self, thread_id: &str) -> (changed: bool)
        requires
            old(self).wf(),
        ensures
            final(self).wf(),
            final(self).view() == after_discard(old(self).view(), thread_id@),
            changed == (final(self).view().sessions != old(self).view().sessions),
    {
        let ghost before = self.view();
        self.restoring.remove(thread_id);
        let present = self.sessions.contains(thread_id);
        self.sessions.remove(thread_id);
        proof {
            let after = self.view();
            assert(after.sessions =~= before.sessions.remove(thread_id@));
            assert(after.restoring =~= before.restoring.remove(thread_id@));
            assert(after =~= after_discard(before, thread_id@));
            if !present {
                assert(after.sessions =~= before.sessions);
            } else {
                assert(!after.sessions.contains_key(thread_id@));
            }
        }
        present
    }

    /// The tracked sessions in thread-id order.
    pub fn sorted_sessions(&self) -> (list: Vec<RecoverableSession>)
        requires
            self.wf(),
        ensures
            lists_sessions(session_views(list@), self.view().sessions),
    {
        let entries = self.sessions.entries();
        let ghost m = self.sessions.view();
        let mut list: Vec<RecoverableSession> = Vec::new();
        let mut i: usize = 0;
        while i < entries.len()
            invariant
                self.wf(),
                m == self.sessions.view(),
                keys_sorted(entries@),
                lists_map(entries@, m),
                i <= entries@.len(),
                list@.len() == i,
                forall|j: int| 0 <= j < i ==> #[trigger] list@[j]@ == entries@[j].1@,
            decreases entries@.len() - i,
        {
            list.push(entries[i].1.duplicate());
            i = i + 1;
        }
        proof {
            let views = session_views(list@);
            let sessions = self.view().sessions;
            assert forall|j: int| 0 <= j < views.len() implies #[trigger] views[j].thread_id
                == entries@[j].0@ by {
                assert(m.contains_key(entries@[j].0@));
            }
            assert forall|a: int, b: int| 0 <= a < b < views.len() implies text_less(
                #[trigger] views[a].thread_id,
                #[trigger] views[b].thread_id,
            ) by {
                assert(views[a].thread_id == entries@[a].0@);
                assert(views[b].thread_id == entries@[b].0@);
            }
            assert forall|j: int| 0 <= j < views.len() implies sessions.contains_key(
                #[trigger] views[j].thread_id,
            ) && sessions[views[j].thread_id] == views[j] by {
                assert(views[j].thread_id == entries@[j].0@);
            }
            assert forall|k: Seq<char>| #[trigger] sessions.contains_key(k) implies exists|j: int|
                0 <= j < views.len() && #[trigger] views[j].thread_id == k by {
                let j = choose|j: int| 0 <= j < entries@.len() && #[trigger] entries@[j].0@ == k;
                assert(views[j].thread_id == entries@[j].0@);
            }
        }
        list
    }

    /// Marks every tracked session as being restored and returns them in
    /// thread-id order.
    pub fn begin_restore(&mut self) -> (list: Vec<RecoverableSession>)
        requires
            old(self).wf(),
        ensures
            final(self).wf(),
            final(self).view() == after_begin_restore(old(self).view()),
            lists_sessions(session_views(list@), old(self).view().sessions),
    {
        let ghost before = self.view();
        let list = self.sorted_sessions();
        let ghost views = session_views(list@);
        let mut i: usize = 0;
        while i < list.len()
            invariant
                self.wf(),
                self.sessions == old(self).sessions,
                self.settings == old(self).settings,
                views == session_views(list@),
                lists_sessions(views, before.sessions),
                before.sessions == old(self).view().sessions,
                i <= list@.len(),
                self.restoring.view().dom() == before.restoring.union(
                    Set::new(|k: Seq<char>| exists|j: int| 0 <= j < i && #[trigger] views[j].thread_id == k),
                ),
            decreases list@.len() - i,
        {
            let ghost dom_before = self.restoring.view().dom();
            self.restoring.insert(list[i].thread_id.clone(), ());
            proof {
                assert(views[i as int].thread_id == list@[i as int].thread_id@);
                assert(self.restoring.view().dom() =~= before.restoring.union(
                    Set::new(|k: Seq<char>| exists|j: int| 0 <= j < i + 1 && #[trigger] views[j].thread_id == k),
                )) by {
                    assert forall|k: Seq<char>| #[trigger] self.restoring.view().dom().contains(k) implies before.restoring.union(
                        Set::new(|k: Seq<char>| exists|j: int| 0 <= j < i + 1 && #[trigger] views[j].thread_id == k),
                    ).contains(k) by {
                        if k == views[i as int].thread_id {
                        } else {
                            assert(dom_before.contains(k));
                        }
                    }
                }
            }
            i = i + 1;
        }
        proof {
            let after = self.view();
            assert(after.restoring =~= before.restoring.union(before.sessions.dom())) by {
                assert forall|k: Seq<char>| #[trigger] before.sessions.dom().contains(k) implies after.restoring.contains(k) by {
                    let j = choose|j: int| 0 <= j < views.len() && #[trigger] views[j].thread_id == k;
                    assert(Set::new(|k: Seq<char>| exists|j: int| 0 <= j < i && #[trigger] views[j].thread_id == k).contains(k));
                }
                assert forall|k: Seq<char>| #[trigger] after.restoring.contains(k) implies before.restoring.union(before.sessions.dom()).contains(k) by {
                    if !before.restoring.contains(k) {
                        let j = choose|j: int| 0 <= j < i && #[trigger] views[j].thread_id == k;
                        assert(before.sessions.contains_key(views[j].thread_id));
                    }
                }
            }
            assert(after =~= after_begin_restore(before));
        }
        list
    }

    /// Ends the restore of `thread_id`.
    pub fn finish_restore(&mut self, thread_id: &str)
        requires
            old(self).wf(),
        ensures
            final(self).wf(),
            final(self).view() == after_finish_restore(old(self).view(), thread_id@),
    {
        let ghost before = self.view();
        self.restoring.remove(thread_id);
        proof {
            let after = self.view();
            assert(after.restoring =~= before.restoring.remove(thread_id@));
            assert(after =~= after_finish_restore(before, thread_id@));
        }
    }
}

impl RecoveryState {
    /// Keeps `settings` as the last seen for `thread_id` and applies them to its
    /// tracked session; empty settings are ignored. Returns whether the tracked
    /// sessions changed.
    pub fn remember_settings(&mut self, thread_id: &str, settings: SavedTurnSettings) -> (changed: bool)
        requires
            old(self).wf(),
        ensures
            final(self).wf(),
            final(self).view() == after_remember_settings(old(self).view(), thread_id@, settings@),
            changed == (final(self).view().sessions != old(self).view().sessions),
    {
        let ghost before = self.view();
        if settings.is_empty() {
            return false;
        }
        let ghost old_settings = self.settings.view();
        let ghost saved = settings@;
        let copy = settings.duplicate();
        let ghost stored_settings = copy;
        self.settings.insert(String::from_str(thread_id), copy);
        proof {
            assert(self.settings.view().map_values(|s: SavedTurnSettings| s@) =~= old_settings.map_values(
                |s: SavedTurnSettings| s@,
            ).insert(thread_id@, saved));
        }
        let ghost old_map = self.sessions.view();
        let replacement = match self.sessions.get(thread_id) {
            Some(existing) => {
                if existing.settings.same_as(&settings) {
                    None
                } else {
                    Some(RecoverableSession {
                        thread_id: existing.thread_id.clone(),
                        account_name: existing.account_name.clone(),
                        settings,
                    })
                }
            },
            None => None,
        };
        match replacement {
            Some(session) => {
                let ghost stored = session;
                let ghost new_view = session@;
                self.sessions.insert(String::from_str(thread_id), session);
                proof {
                    assert(self.sessions.view().map_values(|s: RecoverableSession| s@) =~= old_map.map_values(
                        |s: RecoverableSession| s@,
                    ).insert(thread_id@, new_view));
                    assert(self.view() =~= after_remember_settings(before, thread_id@, saved));
                    assert(self.view().sessions[thread_id@] != before.sessions[thread_id@]);
                }
                true
            },
            None => {
                proof {
                    if before.sessions.contains_key(thread_id@) {
                        assert(before.sessions.insert(thread_id@, SessionView { settings: saved, ..before.sessions[thread_id@] }) =~= before.sessions);
                    }
                    assert(self.view() =~= after_remember_settings(before, thread_id@, saved));
                }
                false
            },
        }
    }

    /// The account of the tracked session with the least thread id.
    pub fn preferred_account(&self) -> (account: Option<String>)
        requires
            self.wf(),
        ensures
            match account {
                None => self.view().sessions.dom() == Set::<Seq<char>>::empty(),
                Some(a) => exists|k: Seq<char>|
                    #[trigger] self.view().sessions.contains_key(k) && self.view().sessions[k].account_name
                        == a@ && forall|other: Seq<char>|
                        #[trigger] self.view().sessions.contains_key(other) && other != k ==> text_less(k, other),
            },
    {
        let entries = self.sessions.entries();
        if entries.len() == 0 {
            proof {
                assert forall|k: Seq<char>| !self.view().sessions.dom().contains(k) by {
                    if self.sessions.view().contains_key(k) {
                        let i = choose|i: int| 0 <= i < entries@.len() && #[trigger] entries@[i].0@ == k;
                    }
                }
                assert(self.view().sessions.dom() =~= Set::<Seq<char>>::empty());
            }
            return None;
        }
        let account = entries[0].1.account_name.clone();
        proof {
            let k = entries@[0].0@;
            assert(self.view().sessions.contains_key(k));
            assert forall|other: Seq<char>| #[trigger] self.view().sessions.contains_key(other) && other != k implies text_less(k, other) by {
                let i = choose|i: int| 0 <= i < entries@.len() && #[trigger] entries@[i].0@ == other;
                assert(i != 0);
                assert(text_less(entries@[0].0@, entries@[i].0@));
            }
        }
        Some(account)
    }

    /// Replaces the tracked sessions with those of `list`; a later entry for a
    /// thread replaces an earlier one.
    pub fn replace_sessions(&mut self, list: Vec<RecoverableSession>)
        requires
            old(self).wf(),
        ensures
            final(self).wf(),
            final(self).view() == (RecoveryView { sessions: sessions_from(session_views(list@)), ..old(self).view() }),
    {
        let ghost before = self.view();
        let ghost views = session_views(list@);
        self.sessions = TextMap::new();
        assert(self.view().sessions =~= sessions_from(views.take(0)));
        let mut i: usize = 0;
        while i < list.len()
            invariant
                self.wf(),
                self.restoring == old(self).restoring,
                self.settings == old(self).settings,
                views == session_views(list@),
                i <= list@.len(),
                self.view().sessions == sessions_from(views.take(i as int)),
            decreases list@.len() - i,
        {
            let ghost old_map = self.sessions.view();
            let session = list[i].duplicate();
            let ghost stored = session;
            let ghost new_view = session@;
            assert(new_view == views[i as int]);
            let key = session.thread_id.clone();
            self.sessions.insert(key, session);
            proof {
                assert(self.sessions.view().map_values(|s: RecoverableSession| s@) =~= old_map.map_values(
                    |s: RecoverableSession| s@,
                ).insert(new_view.thread_id, new_view));
                assert(views.take(i + 1).drop_last() =~= views.take(i as int));
                assert(views.take(i + 1).last() == new_view);
            }
            i = i + 1;
        }
        proof {
            assert(views.take(i as int) =~= views);
            assert(self.view() =~= (RecoveryView { sessions: sessions_from(views), ..before }));
        }
    }

    /// The bookkeeping loaded from the sessions of a recovery file.
    pub fn from_sessions(list: Vec<RecoverableSession>) -> (state: RecoveryState)
        ensures
            state.wf(),
            state.view().sessions == sessions_from(session_views(list@)),
            state.view().restoring == Set::<Seq<char>>::empty(),
            state.view().settings == Map::<Seq<char>, SettingsView>::empty(),
    {
        let mut state = RecoveryState::new();
        state.replace_sessions(list);
        state
    }
}

/// A session being restored survives the idle status that a restarting thread
/// reports before its turn resumes.
pub proof fn lemma_restoring_session_survives_idle(v: RecoveryView, thread_id: Seq<char>)
    requires
        v.sessions.contains_key(thread_id),
    ensures
        after_mark_idle(after_begin_restore(v), thread_id).sessions.contains_key(thread_id),
{
}

/// A session that is not being restored is forgotten once it goes idle, so only
/// sessions that remain active are persisted.
pub proof fn lemma_idle_session_is_forgotten(v: RecoveryView, thread_id: Seq<char>, account_name: Seq<char>)
    requires
        !v.restoring.contains(thread_id),
    ensures
        !after_mark_idle(after_mark_active(v, thread_id, account_name), thread_id).sessions.contains_key(
            thread_id,
        ),
{
}

/// Once its restore has finished, a session is forgotten on going idle again.
pub proof fn lemma_finished_restore_is_forgotten_when_idle(v: RecoveryView, thread_id: Seq<char>)
    ensures
        !after_mark_idle(after_finish_restore(after_begin_restore(v), thread_id), thread_id).sessions.contains_key(
            thread_id,
        ),
{
}

/// A discarded thread is neither tracked nor being restored.
pub proof fn lemma_discarded_thread_is_gone(v: RecoveryView, thread_id: Seq<char>)
    ensures
        !after_discard(v, thread_id).sessions.contains_key(thread_id),
        !after_discard(v, thread_id).restoring.contains(thread_id),
{
}

/// The last settings seen for a thread are the ones it is tracked with when it
/// becomes active again.
pub proof fn lemma_remembered_settings_are_resumed(
    v: RecoveryView,
    thread_id: Seq<char>,
    settings: SettingsView,
    account_name: Seq<char>,
)
    requires
        settings != no_settings(),
    ensures
        after_mark_active(after_remember_settings(v, thread_id, settings), thread_id, account_name).sessions[thread_id]
            == (SessionView { thread_id, account_name, settings }),
{
}

/// Every transition files each session under its own thread id.
pub proof fn lemma_transitions_keep_sessions_keyed(
    v: RecoveryView,
    thread_id: Seq<char>,
    account_name: Seq<char>,
    settings: SettingsView,
)
    requires
        sessions_keyed(v.sessions),
    ensures
        sessions_keyed(after_mark_active(v, thread_id, account_name).sessions),
        sessions_keyed(after_mark_idle(v, thread_id).sessions),
        sessions_keyed(after_discard(v, thread_id).sessions),
        sessions_keyed(after_begin_restore(v).sessions),
        sessions_keyed(after_finish_restore(v, thread_id).sessions),
        sessions_keyed(after_remember_settings(v, thread_id, settings).sessions),
{
}

impl RecoveryState {
    /// The tracked sessions are filed under their own thread ids.
    pub proof fn lemma_sessions_keyed(&self)
        requires
            self.wf(),
        ensures
            sessions_keyed(self.view().sessions),
    {
    }
}

/// What an app-server notification means for the recovery bookkeeping.
#[derive(Debug, Clone, Copy, PartialEq, Eq, Structural)]
pub enum RecoveryAction {
    /// A thread started: track it if it is an active root thread.
    TrackIfRootActive,
    /// A thread became active: confirm it is a root thread before tracking it.
    ConfirmActive,
    /// A thread stopped running.
    MarkIdle,
    /// A thread's turn settings changed.
    RememberSettings,
    /// A thread was closed, deleted, archived or unarchived.
    Discard,
    /// Nothing to do.
    Ignore,
}

/// The action for a notification with the given method and, for status changes,
/// status type.
pub open spec fn recovery_action_spec(method: Option<Seq<char>>, status_type: Option<Seq<char>>) -> RecoveryAction {
    match method {
        Some(m) => if m == "thread/started"@ {
            RecoveryAction::TrackIfRootActive
        } else if m == "thread/status/changed"@ {
            if status_type == Some("active"@) {
                RecoveryAction::ConfirmActive
            } else {
                RecoveryAction::MarkIdle
            }
        } else if m == "thread/settings/updated"@ {
            RecoveryAction::RememberSettings
        } else if m == "thread/closed"@ || m == "thread/deleted"@ || m == "thread/archived"@
            || m == "thread/unarchived"@ {
            RecoveryAction::Discard
        } else {
            RecoveryAction::Ignore
        },
        None => RecoveryAction::Ignore,
    }
}

/// A thread that is closed, deleted, archived or unarchived is forgotten,
/// whatever status the notification carries; no other notification forgets a
/// thread.
pub proof fn lemma_discarded_notifications(method: Option<Seq<char>>, status_type: Option<Seq<char>>)
    ensures
        recovery_action_spec(method, status_type) == RecoveryAction::Discard <==> (method
            == Some("thread/closed"@) || method == Some("thread/deleted"@) || method == Some(
            "thread/archived"@,
        ) || method == Some("thread/unarchived"@)),
{
    reveal_strlit("thread/started");
    reveal_strlit("thread/status/changed");
    reveal_strlit("thread/settings/updated");
    reveal_strlit("thread/closed");
    reveal_strlit("thread/deleted");
    reveal_strlit("thread/archived");
    reveal_strlit("thread/unarchived");
    assert("thread/started"@.len() == 14);
    assert("thread/status/changed"@.len() == 21);
    assert("thread/settings/updated"@.len() == 23);
    assert("thread/closed"@.len() == 13);
    assert("thread/deleted"@.len() == 14);
    assert("thread/archived"@.len() == 15);
    assert("thread/unarchived"@.len() == 17);
    assert("thread/deleted"@ != "thread/started"@) by {
        assert("thread/deleted"@[7] != "thread/started"@[7]);
    }
    assert("thread/closed"@ != "thread/started"@);
    assert("thread/archived"@ != "thread/started"@);
    assert("thread/unarchived"@ != "thread/started"@);
}

/// A thread start asks to track the thread if it is an active root thread, a
/// status change confirms the thread when its status is `active` and marks it
/// idle otherwise, and a settings change remembers the settings; nothing else
/// does any of these, and a message without a method does nothing.
pub proof fn lemma_tracking_notifications(method: Option<Seq<char>>, status_type: Option<Seq<char>>)
    ensures
        recovery_action_spec(method, status_type) == RecoveryAction::TrackIfRootActive <==> method
            == Some("thread/started"@),
        recovery_action_spec(method, status_type) == RecoveryAction::ConfirmActive <==> (method
            == Some("thread/status/changed"@) && status_type == Some("active"@)),
        recovery_action_spec(method, status_type) == RecoveryAction::MarkIdle <==> (method == Some(
            "thread/status/changed"@,
        ) && status_type != Some("active"@)),
        recovery_action_spec(method, status_type) == RecoveryAction::RememberSettings <==> method
            == Some("thread/settings/updated"@),
        method is None ==> recovery_action_spec(method, status_type) == RecoveryAction::Ignore,
{
    reveal_strlit("thread/started");
    reveal_strlit("thread/status/changed");
    reveal_strlit("thread/settings/updated");
    assert("thread/started"@.len() == 14);
    assert("thread/status/changed"@.len() == 21);
    assert("thread/settings/updated"@.len() == 23);
}

/// The view of an optional borrowed text.
pub open spec fn opt_str(o: Option<&str>) -> Option<Seq<char>> {
    match o {
        Some(s) => Some(s@),
        None => None,
    }
}

/// Whether the optional text `o` is `expected`.
fn is_text(o: Option<&str>, expected: &str) -> (r: bool)
    ensures
        r == (opt_str(o) == Some(expected@)),
{
    match o {
        Some(s) => str_eq(s, expected),
        None => false,
    }
}

/// Classifies a notification for the recovery bookkeeping.
pub fn recovery_action(method: Option<&str>, status_type: Option<&str>) -> (action: RecoveryAction)
    ensures
        action == recovery_action_spec(opt_str(method), opt_str(status_type)),
{
    if is_text(method, "thread/started") {
        RecoveryAction::TrackIfRootActive
    } else if is_text(method, "thread/status/changed") {
        if is_text(status_type, "active") {
            RecoveryAction::ConfirmActive
        } else {
            RecoveryAction::MarkIdle
        }
    } else if is_text(method, "thread/settings/updated") {
        RecoveryAction::RememberSettings
    } else if is_text(method, "thread/closed") || is_text(method, "thread/deleted") || is_text(
        method,
        "thread/archived",
    ) || is_text(method, "thread/unarchived") {
        RecoveryAction::Discard
    } else {
        RecoveryAction::Ignore
    }
}

/// Whether a thread is a root thread (it names no parent) whose status is active.
pub fn is_root_active_thread(has_parent: bool, status_type: Option<&str>) -> (r: bool)
    ensures
        r == (!has_parent && opt_str(status_type) == Some("active"@)),
{
    !has_parent && is_text(status_type, "active")
}

/// How the restore of one interrupted session ended.
#[derive(Debug, Clone, Copy, PartialEq, Eq, Structural)]
pub enum RestoreOutcome {
    /// A turn was started to continue the interrupted work.
    Continued,
    /// The thread has an active goal, which resumes by itself.
    GoalContinued,
    /// There is nothing to restore; the session is forgotten.
    Discarded,
}

/// The next step of restoring one session.
#[derive(Debug, Clone, Copy, PartialEq, Eq, Structural)]
pub enum RestoreStep {
    /// Restoring is over with this outcome.
    Done(RestoreOutcome),
    /// Read the thread's goal.
    ReadGoal,
    /// Start a turn that continues the interrupted work.
    StartTurn,
}

/// The step after the thread was resumed: a thread with a parent is a sub-agent
/// and is not restored.
pub fn restore_after_resume(has_parent: bool) -> (step: RestoreStep)
    ensures
        step == (if has_parent {
            RestoreStep::Done(RestoreOutcome::Discarded)
        } else {
            RestoreStep::ReadGoal
        }),
{
    if has_parent {
        RestoreStep::Done(RestoreOutcome::Discarded)
    } else {
        RestoreStep::ReadGoal
    }
}

/// The step after the goal was read: an active goal resumes by itself, a latest
/// turn that completed or failed needs nothing, anything else gets a new turn.
pub fn restore_after_goal(goal_status: Option<&str>, latest_turn_status: Option<&str>) -> (step: RestoreStep)
    ensures
        step == (if opt_str(goal_status) == Some("active"@) {
            RestoreStep::Done(RestoreOutcome::GoalContinued)
        } else if opt_str(latest_turn_status) == Some("completed"@) || opt_str(latest_turn_status)
            == Some("failed"@) {
            RestoreStep::Done(RestoreOutcome::Discarded)
        } else {
            RestoreStep::StartTurn
        }),
{
    if is_text(goal_status, "active") {
        RestoreStep::Done(RestoreOutcome::GoalContinued)
    } else if is_text(latest_turn_status, "completed") || is_text(latest_turn_status, "failed") {
        RestoreStep::Done(RestoreOutcome::Discarded)
    } else {
        RestoreStep::StartTurn
    }
}

impl RecoveryState {
    /// Records how the restore of `thread_id` ended; `None` means it failed and
    /// is retried after the next restart. Returns whether the tracked sessions
    /// changed.
    pub fn settle_restore(&mut self, thread_id: &str, outcome: Option<RestoreOutcome>) -> (changed: bool)
        requires
            old(self).wf(),
        ensures
            final(self).wf(),
            final(self).view() == (match outcome {
                Some(RestoreOutcome::Discarded) => after_discard(old(self).view(), thread_id@),
                Some(_) => after_finish_restore(old(self).view(), thread_id@),
                None => old(self).view(),
            }),
            changed == (final(self).view().sessions != old(self).view().sessions),
    {
        match outcome {
            Some(RestoreOutcome::Discarded) => self.discard(thread_id),
            Some(_) => {
                self.finish_restore(thread_id);
                false
            },
            None => false,
        }
    }
}

/// The instruction of the turn that continues an interrupted session.
pub open spec fn recovery_instruction_text() -> Seq<char> {
    "The web daemon restarted while this session was running. Continue the previous task in the same mode. First inspect the persisted conversation and workspace state, verify any partially completed tool actions before repeating them, then carry on from where the interrupted turn stopped."@
}

/// The turn started to continue an interrupted session: its thread, the text
/// it sends, and the model, effort and collaboration mode it was last started
/// with (the last two as JSON text), where saved.
#[derive(Debug)]
pub struct RecoveryTurn {
    pub thread_id: String,
    pub text: String,
    pub settings: SavedTurnSettings,
}

/// The turn that continues `session`: the recovery instruction, on its thread,
/// with its saved settings.
pub fn recovery_turn(session: &RecoverableSession) -> (turn: RecoveryTurn)
    ensures
        turn.thread_id@ == session.thread_id@,
        turn.text@ == recovery_instruction_text(),
        turn.settings@ == session.settings@,
{
    proof {
        reveal_strlit("The web daemon restarted while this session was running. Continue the previous task in the same mode. First inspect the persisted conversation and workspace state, verify any partially completed tool actions before repeating them, then carry on from where the interrupted turn stopped.");
    }
    RecoveryTurn {
        thread_id: session.thread_id.clone(),
        text: String::from_str("The web daemon restarted while this session was running. Continue the previous task in the same mode. First inspect the persisted conversation and workspace state, verify any partially completed tool actions before repeating them, then carry on from where the interrupted turn stopped."),
        settings: session.settings.duplicate(),
    }
}

/// Checks the version of a recovery file.
pub fn check_recovery_version(version: u32) -> (r: Result<(), WebError>)
    ensures
        version == RECOVERY_STATE_VERSION ==> r is Ok,
        version != RECOVERY_STATE_VERSION ==> r is Err && r->Err_0@ == (ErrorView {
            kind: ErrorKind::InvalidData,
            message: "unsupported recovery state version "@ + decimal(version as nat),
        }),
{
    if version == RECOVERY_STATE_VERSION {
        return Ok(());
    }
    let mut message = String::from_str("unsupported recovery state version ");
    let digits = decimal_string(version as u64);
    message.append(digits.as_str());
    Err(WebError { kind: ErrorKind::InvalidData, message })
}

} // verus!
