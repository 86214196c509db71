//! The dashboard's arrangement of sessions: recent sessions grouped by how long
//! ago they were active, and projects gathered from the working directories of
//! the sessions.

use vstd::prelude::*;
use crate::text_map::TextMap;
use crate::paths::{path_file_name, file_name_of};
use crate::daemon_config::opt_text;

verus! {

/// The most sessions the dashboard lists.
pub const MAX_LISTED_SESSIONS: usize = 100;

/// How long ago, in seconds and never negative, something active at `recency` was
/// active at `now` (the difference saturates at `i64::MAX`).
pub open spec fn age(now: i64, recency: i64) -> int {
    let d = now - recency;
    if d > i64::MAX {
        i64::MAX as int
    } else if d < 0 {
        0
    } else {
        d
    }
}

/// The group of an age: today, yesterday, the previous 7 days, the previous 30
/// days, or older.
pub open spec fn age_group(age: int) -> int {
    if age < 86400 {
        0
    } else if age < 172800 {
        1
    } else if age < 604800 {
        2
    } else if age < 2592000 {
        3
    } else {
        4
    }
}

/// The heading of each group.
pub open spec fn group_label(group: int) -> Seq<char> {
    if group == 0 {
        "Today"@
    } else if group == 1 {
        "Yesterday"@
    } else if group == 2 {
        "Previous 7 days"@
    } else if group == 3 {
        "Previous 30 days"@
    } else {
        "Older"@
    }
}

/// The indices below `upto` of the sessions in `group`, in order.
pub open spec fn group_members(recency: Seq<i64>, now: i64, group: int, upto: int) -> Seq<usize>
    decreases upto,
{
    if upto <= 0 {
        Seq::empty()
    } else {
        let before = group_members(recency, now, group, upto - 1);
        if age_group(age(now, recency[upto - 1])) == group {
            before.push((upto - 1) as usize)
        } else {
            before
        }
    }
}

/// The number of sessions listed out of `count`.
pub open spec fn listed_count(count: int) -> int {
    if count < MAX_LISTED_SESSIONS {
        count
    } else {
        MAX_LISTED_SESSIONS as int
    }
}

/// The groups from `group` on that have members, as (heading, members).
pub open spec fn groups_from(recency: Seq<i64>, now: i64, group: int) -> Seq<(Seq<char>, Seq<usize>)>
    decreases 5 - group,
{
    if group >= 5 || group < 0 {
        Seq::empty()
    } else {
        let members = group_members(recency, now, group, listed_count(recency.len() as int));
        let rest = groups_from(recency, now, group + 1);
        if members.len() > 0 {
            seq![(group_label(group), members)] + rest
        } else {
            rest
        }
    }
}

/// One heading of the dashboard's session list and the sessions under it, as
/// indices into the list of sessions.
#[derive(Debug)]
pub struct SessionGroup {
    pub label: &'static str,
    pub members: Vec<usize>,
}

/// The heading and members of a group.
pub open spec fn group_view(g: SessionGroup) -> (Seq<char>, Seq<usize>) {
    (g.label@, g.members@)
}

fn age_of(now: i64, recency: i64) -> (a: i64)
    ensures
        a == age(now, recency),
{
    let d: i128 = now as i128 - recency as i128;
    if d > i64::MAX as i128 {
        i64::MAX
    } else if d < 0 {
        0
    } else {
        d as i64
    }
}

fn group_of(age: i64) -> (g: usize)
    ensures
        g == age_group(age as int),
{
    if age < 86400 {
        0
    } else if age < 172800 {
        1
    } else if age < 604800 {
        2
    } else if age < 2592000 {
        3
    } else {
        4
    }
}

fn label_of(group: usize) -> (label: &'static str)
    requires
        group < 5,
    ensures
        label@ == group_label(group as int),
{
    if group == 0 {
        "Today"
    } else if group == 1 {
        "Yesterday"
    } else if group == 2 {
        "Previous 7 days"
    } else if group == 3 {
        "Previous 30 days"
    } else {
        "Older"
    }
}

/// The most recent threads the dashboard loads.
pub const MAX_RECENT_THREADS: usize = 500;

/// What follows a page of the thread list.
#[derive(Debug)]
pub enum ThreadsPage {
    /// Load the page after this cursor.
    More(String),
    /// Stop, keeping the first `keep` threads loaded; `truncated` when there
    /// were more.
    Done { keep: usize, truncated: bool },
}

/// Decides after a page of the thread list, with `total` threads loaded so far
/// and the cursor of the next page: stop at [`MAX_RECENT_THREADS`] (truncated
/// when more pages remain) or at the last page, else load the next one.
pub fn after_thread_page(total: usize, next_cursor: Option<String>) -> (r: ThreadsPage)
    ensures
        total >= MAX_RECENT_THREADS ==> (r matches ThreadsPage::Done { keep, truncated } && keep
            == MAX_RECENT_THREADS && truncated == (next_cursor is Some)),
        total < MAX_RECENT_THREADS ==> match next_cursor {
            Some(c) => (r matches ThreadsPage::More(n) && n@ == c@),
            None => (r matches ThreadsPage::Done { keep, truncated } && keep == total && !truncated),
        },
{
    if total >= MAX_RECENT_THREADS {
        return ThreadsPage::Done { keep: MAX_RECENT_THREADS, truncated: next_cursor.is_some() };
    }
    match next_cursor {
        Some(c) => ThreadsPage::More(c),
        None => ThreadsPage::Done { keep: total, truncated: false },
    }
}

/// When a session was last active, from its `recencyAt` field, else its
/// `updatedAt` field; the outer option says whether the field is present and
/// the inner one whether it holds an integer. A field that is present wins even
/// where it holds no integer, which counts as 0.
pub fn recency(recency_at: Option<Option<i64>>, updated_at: Option<Option<i64>>) -> (r: i64)
    ensures
        r == (match recency_at {
            Some(v) => match v {
                Some(t) => t,
                None => 0,
            },
            None => match updated_at {
                Some(Some(t)) => t,
                _ => 0,
            },
        }),
{
    let field = match recency_at {
        Some(v) => Some(v),
        None => updated_at,
    };
    match field {
        Some(Some(t)) => t,
        _ => 0,
    }
}

/// Groups the first [`MAX_LISTED_SESSIONS`] sessions, given the time each was
/// last active, by their age at `now`; empty groups are left out.
pub fn session_groups_at(recency: &[i64], now: i64) -> (groups: Vec<SessionGroup>)
    ensures
        groups@.map_values(|g: SessionGroup| group_view(g)) == groups_from(recency@, now, 0),
{
    let listed = if recency.len() < MAX_LISTED_SESSIONS {
        recency.len()
    } else {
        MAX_LISTED_SESSIONS
    };
    let mut groups: Vec<SessionGroup> = Vec::new();
    let mut group: usize = 0;
    while group < 5
        invariant
            group <= 5,
            listed == listed_count(recency@.len() as int),
            groups@.map_values(|g: SessionGroup| group_view(g)) + groups_from(recency@, now, group as int)
                == groups_from(recency@, now, 0),
        decreases 5 - group,
    {
        let mut members: Vec<usize> = Vec::new();
        let mut i: usize = 0;
        while i < listed
            invariant
                i <= listed,
                listed <= recency@.len(),
                group < 5,
                members@ == group_members(recency@, now, group as int, i as int),
            decreases listed - i,
        {
            if group_of(age_of(now, recency[i])) == group {
                members.push(i);
            }
            i = i + 1;
        }
        let ghost before = groups@.map_values(|g: SessionGroup| group_view(g));
        let ghost rest = groups_from(recency@, now, group + 1);
        if members.len() > 0 {
            let g = SessionGroup { label: label_of(group), members };
            let ghost gv = group_view(g);
            groups.push(g);
            proof {
                assert(groups@.map_values(|g: SessionGroup| group_view(g)) =~= before.push(gv));
                assert(before.push(gv) + rest =~= before + (seq![gv] + rest));
            }
        }
        group = group + 1;
    }
    assert(groups_from(recency@, now, 5) =~= Seq::<(Seq<char>, Seq<usize>)>::empty());
    assert(groups@.map_values(|g: SessionGroup| group_view(g)) + Seq::<(Seq<char>, Seq<usize>)>::empty()
        =~= groups@.map_values(|g: SessionGroup| group_view(g)));
    groups
}

// ---------------------------------------------------------------------------
// Projects

/// Where a session ran: its working directory, if it reports one, and the
/// identity under which directories are compared (the directory normalised for
/// comparison).
#[derive(Debug)]
pub struct SessionPlace {
    pub cwd: Option<String>,
    pub identity: String,
}

/// The mathematical content of a [`SessionPlace`].
pub struct PlaceView {
    pub cwd: Option<Seq<char>>,
    pub identity: Seq<char>,
}

impl View for SessionPlace {
    type V = PlaceView;

    open spec fn view(&self) -> PlaceView {
        PlaceView { cwd: opt_text(self.cwd), identity: self.identity@ }
    }
}

/// A project of the dashboard: a working directory, its display name, the most
/// recent session in it (an index into the sessions) and how many sessions ran
/// there.
#[derive(Debug)]
pub struct Project {
    pub cwd: String,
    pub name: String,
    pub identity: String,
    pub latest: usize,
    pub session_count: usize,
}

/// The mathematical content of a [`Project`].
pub struct ProjectView {
    pub cwd: Seq<char>,
    pub name: Seq<char>,
    pub identity: Seq<char>,
    pub latest: int,
    pub session_count: int,
}

impl View for Project {
    type V = ProjectView;

    open spec fn view(&self) -> ProjectView {
        ProjectView {
            cwd: self.cwd@,
            name: self.name@,
            identity: self.identity@,
            latest: self.latest as int,
            session_count: self.session_count as int,
        }
    }
}

/// The name of a project in `cwd`: the directory's final component, or the
/// whole path when it has none.
pub open spec fn project_name(cwd: Seq<char>) -> Seq<char> {
    match path_file_name(cwd) {
        Some(n) => if n.len() > 0 {
            n
        } else {
            cwd
        },
        None => cwd,
    }
}

/// The position of the project with identity `identity`, if any.
pub open spec fn find_project(projects: Seq<ProjectView>, identity: Seq<char>) -> Option<int>
    decreases projects.len(),
{
    if projects.len() == 0 {
        None
    } else if projects[0].identity == identity {
        Some(0)
    } else {
        match find_project(projects.drop_first(), identity) {
            Some(k) => Some(k + 1),
            None => None,
        }
    }
}

/// The projects of `places`, sessions being listed from the most recent: one per
/// identity, in order of their most recent session, each named after and placed
/// in the directory of that session and counting every session with a
/// directory of its identity.
pub open spec fn projects_of(places: Seq<PlaceView>) -> Seq<ProjectView>
    decreases places.len(),
{
    if places.len() == 0 {
        Seq::empty()
    } else {
        let before = projects_of(places.drop_last());
        let place = places.last();
        match place.cwd {
            None => before,
            Some(cwd) => match find_project(before, place.identity) {
                Some(k) => before.update(
                    k,
                    ProjectView { session_count: before[k].session_count + 1, ..before[k] },
                ),
                None => before.push(
                    ProjectView {
                        cwd,
                        name: project_name(cwd),
                        identity: place.identity,
                        latest: places.len() - 1,
                        session_count: 1,
                    },
                ),
            },
        }
    }
}

proof fn lemma_find_project_in_range(projects: Seq<ProjectView>, identity: Seq<char>)
    ensures
        find_project(projects, identity) matches Some(k) ==> 0 <= k < projects.len()
            && projects[k].identity == identity && forall|j: int|
            0 <= j < k ==> #[trigger] projects[j].identity != identity,
        find_project(projects, identity) is None ==> forall|j: int|
            0 <= j < projects.len() ==> #[trigger] projects[j].identity != identity,
    decreases projects.len(),
{
    if projects.len() > 0 {
        lemma_find_project_in_range(projects.drop_first(), identity);
        if projects[0].identity != identity {
            assert forall|j: int| 1 <= j < projects.len() implies projects[j] == projects.drop_first()[j - 1] by {}
        }
    }
}

proof fn lemma_find_project_characterized(projects: Seq<ProjectView>, identity: Seq<char>, k: int)
    requires
        0 <= k < projects.len(),
        projects[k].identity == identity,
        forall|j: int| 0 <= j < k ==> #[trigger] projects[j].identity != identity,
    ensures
        find_project(projects, identity) == Some(k),
    decreases projects.len(),
{
    if k > 0 {
        assert forall|j: int| 0 <= j < k - 1 implies #[trigger] projects.drop_first()[j].identity != identity by {
            assert(projects.drop_first()[j] == projects[j + 1]);
        }
        lemma_find_project_characterized(projects.drop_first(), identity, k - 1);
    }
}

proof fn lemma_find_project_none(projects: Seq<ProjectView>, identity: Seq<char>)
    requires
        forall|j: int| 0 <= j < projects.len() ==> #[trigger] projects[j].identity != identity,
    ensures
        find_project(projects, identity) is None,
    decreases projects.len(),
{
    if projects.len() > 0 {
        assert forall|j: int| 0 <= j < projects.drop_first().len() implies #[trigger] projects.drop_first()[j].identity != identity by {
            assert(projects.drop_first()[j] == projects[j + 1]);
        }
        lemma_find_project_none(projects.drop_first(), identity);
    }
}

/// The identities of the projects are distinct and each project counts at most
/// the sessions seen.
proof fn lemma_projects_shape(places: Seq<PlaceView>)
    ensures
        forall|a: int, b: int|
            0 <= a < b < projects_of(places).len() ==> #[trigger] projects_of(places)[a].identity
                != #[trigger] projects_of(places)[b].identity,
        forall|a: int|
            0 <= a < projects_of(places).len() ==> 1 <= #[trigger] projects_of(places)[a].session_count
                <= places.len(),
    decreases places.len(),
{
    if places.len() > 0 {
        let before = projects_of(places.drop_last());
        lemma_projects_shape(places.drop_last());
        let place = places.last();
        if place.cwd is Some {
            lemma_find_project_in_range(before, place.identity);
        }
    }
}

/// Gathers the projects of the sessions in `places`, listed from the most recent.
pub fn projects_from_threads(places: &Vec<SessionPlace>) -> (projects: Vec<Project>)
    ensures
        projects@.map_values(|p: Project| p@) == projects_of(places@.map_values(|p: SessionPlace| p@)),
{
    let ghost views = places@.map_values(|p: SessionPlace| p@);
    let mut projects: Vec<Project> = Vec::new();
    let mut index: TextMap<usize> = TextMap::new();
    let mut i: usize = 0;
    while i < places.len()
        invariant
            views == places@.map_values(|p: SessionPlace| p@),
            i <= places@.len(),
            index.wf(),
            projects@.map_values(|p: Project| p@) == projects_of(views.take(i as int)),
            forall|id: Seq<char>|
                #[trigger] index.view().contains_key(id) <==> find_project(
                    projects_of(views.take(i as int)),
                    id,
                ) is Some,
            forall|id: Seq<char>|
                #[trigger] index.view().contains_key(id) ==> find_project(
                    projects_of(views.take(i as int)),
                    id,
                ) == Some(index.view()[id] as int),
        decreases places@.len() - i,
    {
        let ghost taken = views.take(i + 1);
        let ghost before = projects_of(views.take(i as int));
        proof {
            assert(taken.drop_last() =~= views.take(i as int));
            assert(taken.last() == views[i as int]);
            lemma_projects_shape(views.take(i as int));
        }
        let place = &places[i];
        match &place.cwd {
            None => {},
            Some(cwd) => {
                let found = index.get(place.identity.as_str());
                match found {
                    Some(k) => {
                        let k = *k;
                        proof {
                            lemma_find_project_in_range(before, place.identity@);
                        }
                        let old = &projects[k];
                        assert(projects@.map_values(|p: Project| p@)[k as int] == old@);
                        assert(before[k as int].session_count <= i);
                        let updated = Project {
                            cwd: old.cwd.clone(),
                            name: old.name.clone(),
                            identity: old.identity.clone(),
                            latest: old.latest,
                            session_count: old.session_count + 1,
                        };
                        let ghost old_views = projects@.map_values(|p: Project| p@);
                        projects.set(k, updated);
                        proof {
                            let now = projects_of(taken);
                            assert(projects@.map_values(|p: Project| p@) =~= now);
                            assert forall|id: Seq<char>| #[trigger] find_project(now, id) == find_project(before, id) by {
                                lemma_find_project_in_range(before, id);
                                match find_project(before, id) {
                                    Some(j) => {
                                        assert forall|m: int| 0 <= m < j implies #[trigger] now[m].identity != id by {
                                            assert(now[m].identity == before[m].identity);
                                        }
                                        lemma_find_project_characterized(now, id, j);
                                    },
                                    None => {
                                        assert forall|m: int| 0 <= m < now.len() implies #[trigger] now[m].identity != id by {
                                            assert(now[m].identity == before[m].identity);
                                        }
                                        lemma_find_project_none(now, id);
                                    },
                                }
                            }
                        }
                    },
                    None => {
                        let name = match file_name_of(cwd.as_str()) {
                            Some(n) => if !n.as_str().is_empty() {
                                n
                            } else {
                                cwd.clone()
                            },
                            None => cwd.clone(),
                        };
                        proof {
                            lemma_find_project_in_range(before, place.identity@);
                        }
                        let ghost old_views = projects@.map_values(|p: Project| p@);
                        let position = projects.len();
                        projects.push(
                            Project {
                                cwd: cwd.clone(),
                                name,
                                identity: place.identity.clone(),
                                latest: i,
                                session_count: 1,
                            },
                        );
                        index.insert(place.identity.clone(), position);
                        proof {
                            let now = projects_of(taken);
                            assert(projects@.map_values(|p: Project| p@) =~= now);
                            assert forall|id: Seq<char>| #[trigger] find_project(now, id) == (if id == place.identity@ {
                                Some(position as int)
                            } else {
                                find_project(before, id)
                            }) by {
                                lemma_find_project_in_range(before, id);
                                if id == place.identity@ {
                                    lemma_find_project_characterized(now, id, position as int);
                                } else {
                                    match find_project(before, id) {
                                        Some(j) => {
                                            assert forall|m: int| 0 <= m < j implies #[trigger] now[m].identity != id by {
                                                assert(now[m] == before[m]);
                                            }
                                            lemma_find_project_characterized(now, id, j);
                                        },
                                        None => {
                                            assert forall|m: int| 0 <= m < now.len() implies #[trigger] now[m].identity != id by {
                                                if m < before.len() {
                                                    assert(now[m] == before[m]);
                                                }
                                            }
                                            lemma_find_project_none(now, id);
                                        },
                                    }
                                }
                            }
                        }
                    },
                }
            },
        }
        i = i + 1;
    }
    assert(views.take(i as int) =~= views);
    projects
}

/// The number of places that report a working directory.
pub open spec fn places_with_cwd(places: Seq<PlaceView>) -> int
    decreases places.len(),
{
    if places.len() == 0 {
        0
    } else {
        places_with_cwd(places.drop_last()) + if places.last().cwd is Some {
            1int
        } else {
            0int
        }
    }
}

/// The sessions counted over all projects.
pub open spec fn total_sessions(projects: Seq<ProjectView>) -> int
    decreases projects.len(),
{
    if projects.len() == 0 {
        0
    } else {
        total_sessions(projects.drop_last()) + projects.last().session_count
    }
}

proof fn lemma_total_sessions_update(projects: Seq<ProjectView>, k: int, p: ProjectView)
    requires
        0 <= k < projects.len(),
    ensures
        total_sessions(projects.update(k, p)) == total_sessions(projects) - projects[k].session_count
            + p.session_count,
    decreases projects.len(),
{
    let updated = projects.update(k, p);
    if k == projects.len() - 1 {
        assert(updated.drop_last() =~= projects.drop_last());
    } else {
        assert(updated.drop_last() =~= projects.drop_last().update(k, p));
        lemma_total_sessions_update(projects.drop_last(), k, p);
    }
}

/// Every session with a working directory is counted in exactly one project.
pub proof fn lemma_every_session_counted_once(places: Seq<PlaceView>)
    ensures
        total_sessions(projects_of(places)) == places_with_cwd(places),
    decreases places.len(),
{
    if places.len() > 0 {
        let before = projects_of(places.drop_last());
        lemma_every_session_counted_once(places.drop_last());
        let place = places.last();
        if let Some(cwd) = place.cwd {
            lemma_find_project_in_range(before, place.identity);
            match find_project(before, place.identity) {
                Some(k) => {
                    lemma_total_sessions_update(
                        before,
                        k,
                        ProjectView { session_count: before[k].session_count + 1, ..before[k] },
                    );
                },
                None => {
                    let pushed = before.push(
                        ProjectView {
                            cwd,
                            name: project_name(cwd),
                            identity: place.identity,
                            latest: places.len() - 1,
                            session_count: 1,
                        },
                    );
                    assert(pushed.drop_last() =~= before);
                },
            }
        }
    }
}

} // verus!
