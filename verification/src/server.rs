//! Decisions of the HTTP server: which requests are well formed, which page
//! state to show, how account profiles are edited, and in which order accounts
//! are tried.

use vstd::prelude::*;
use vstd::string::StringSliceAdditionalSpecFns;
use crate::daemon_config::{
    AccountProfile, AccountProfileView, AccountRole, DaemonConfig, account_vault_spec, opt_text,
    profiles_view, clone_text, duplicate_profiles,
};
use crate::recovery::opt_str;
use crate::error::{WebError, ErrorKind, ErrorView, error_with};
use crate::AppServerCommand;
use crate::bridge::texts;
use crate::daemon_config::leading_single_primary;
use vstd::pervasive::VecAdditionalExecFns;
use crate::text::{parse_u64, parse_u64_spec, decimal, decimal_string, 
    chars_of, find_keyed_value, keyed_value, split_spec, str_eq, trim, trim_bounds,
};

verus! {

// ---------------------------------------------------------------------------
// Request checks and page state

/// Bytes allowed in an OAuth callback id: ASCII letters and digits, `-` and `_`.
pub open spec fn callback_id_byte(b: u8) -> bool {
    (48 <= b <= 57) || (65 <= b <= 90) || (97 <= b <= 122) || b == 45 || b == 95
}

/// A callback id is exactly twelve URL-safe Base64 bytes.
pub open spec fn valid_callback_id_spec(bytes: Seq<u8>) -> bool {
    bytes.len() == 12 && forall|i: int| 0 <= i < bytes.len() ==> callback_id_byte(#[trigger] bytes[i])
}

/// Whether `callback_id` is a well-formed OAuth callback id.
pub fn valid_callback_id(callback_id: &str) -> (r: bool)
    ensures
        r == valid_callback_id_spec(callback_id.spec_bytes()),
{
    let bytes = callback_id.as_bytes();
    if bytes.len() != 12 {
        return false;
    }
    let mut i: usize = 0;
    while i < bytes.len()
        invariant
            bytes@ == callback_id.spec_bytes(),
            i <= bytes@.len(),
            forall|j: int| 0 <= j < i ==> callback_id_byte(#[trigger] bytes@[j]),
        decreases bytes@.len() - i,
    {
        let b = bytes[i];
        if !((48 <= b && b <= 57) || (65 <= b && b <= 90) || (97 <= b && b <= 122) || b == 45 || b
            == 95) {
            return false;
        }
        i = i + 1;
    }
    true
}

/// The path under which an instance serves its pages.
pub fn base_path(instance_id: &str) -> (path: String)
    ensures
        path@ == "/i/"@ + instance_id@,
{
    let mut path = String::from_str("/i/");
    path.append(instance_id);
    path
}

/// The workspace shown on a page: the active thread's directory, else the one
/// selected, else the daemon's.
pub fn page_workspace_cwd(thread_cwd: Option<&str>, selected_cwd: Option<&str>, daemon_cwd: &str) -> (cwd: String)
    ensures
        cwd@ == (match opt_str(thread_cwd) {
            Some(c) => c,
            None => match opt_str(selected_cwd) {
                Some(c) => c,
                None => daemon_cwd@,
            },
        }),
{
    match thread_cwd {
        Some(c) => String::from_str(c),
        None => match selected_cwd {
            Some(c) => String::from_str(c),
            None => String::from_str(daemon_cwd),
        },
    }
}

/// The permission mode a thread runs in, from its active permission profile, or
/// else from its approval policy and sandbox type.
pub open spec fn permission_mode_spec(
    profile_id: Option<Seq<char>>,
    approval: Option<Seq<char>>,
    sandbox: Option<Seq<char>>,
) -> Seq<char> {
    if profile_id == Some(":danger-full-access"@) {
        "full-access"@
    } else if profile_id == Some(":read-only"@) {
        "read-only"@
    } else if profile_id == Some(":workspace"@) {
        "workspace"@
    } else if approval == Some("never"@) && sandbox == Some("danger-full-access"@) {
        "full-access"@
    } else if sandbox == Some("read-only"@) {
        "read-only"@
    } else {
        "workspace"@
    }
}

fn is_text(o: Option<&str>, expected: &str) -> (r: bool)
    ensures
        r == (opt_str(o) == Some(expected@)),
{
    match o {
        Some(s) => str_eq(s, expected),
        None => false,
    }
}

/// The permission mode of a thread.
pub fn permission_mode(profile_id: Option<&str>, approval: Option<&str>, sandbox: Option<&str>) -> (mode: &'static str)
    ensures
        mode@ == permission_mode_spec(opt_str(profile_id), opt_str(approval), opt_str(sandbox)),
{
    if is_text(profile_id, ":danger-full-access") {
        "full-access"
    } else if is_text(profile_id, ":read-only") {
        "read-only"
    } else if is_text(profile_id, ":workspace") {
        "workspace"
    } else if is_text(approval, "never") && is_text(sandbox, "danger-full-access") {
        "full-access"
    } else if is_text(sandbox, "read-only") {
        "read-only"
    } else {
        "workspace"
    }
}

/// The value of the first `key=value` pair of a query string with the name
/// `key`.
pub fn query_value(query: &str, key: &str) -> (value: Option<String>)
    ensures
        opt_text(value) == keyed_value(split_spec(query@, '&'), key@, false),
{
    let q = chars_of(query);
    let k = chars_of(key);
    find_keyed_value(q.as_slice(), '&', k.as_slice(), false)
}

/// Whether a thread's status (its `type`, or the status itself when it is text)
/// is active.
pub fn thread_is_active(status: Option<&str>) -> (r: bool)
    ensures
        r == (opt_str(status) == Some("active"@)),
{
    is_text(status, "active")
}

// ---------------------------------------------------------------------------
// Editing account profiles

/// Which way a profile moves in the fallback order.
#[derive(Debug, Clone, Copy, PartialEq, Eq, Structural)]
pub enum AccountMoveDirection {
    Up,
    Down,
}

/// A change to the account profiles requested from the settings page.
#[derive(Debug)]
pub enum AccountProfilesRequest {
    Add { name: String, label: String, proxy: Option<String>, use_ssh_tunnel: bool },
    Remove { name: String },
    Move { name: String, direction: AccountMoveDirection },
    Update { name: String, label: String, proxy: Option<String>, use_ssh_tunnel: bool },
}

/// Text that is empty once trimmed.
pub open spec fn blank(s: Seq<char>) -> bool {
    trim(s).len() == 0
}

/// The label kept for a profile: the one given, or the name when it is blank.
pub open spec fn label_or_name(label: Seq<char>, name: Seq<char>) -> Seq<char> {
    if blank(label) {
        name
    } else {
        label
    }
}

/// The proxy kept for a profile: the one given unless it is blank.
pub open spec fn kept_proxy(proxy: Option<Seq<char>>) -> Option<Seq<char>> {
    match proxy {
        Some(p) => if blank(p) {
            None
        } else {
            Some(p)
        },
        None => None,
    }
}

/// The position of the first profile named `name`.
pub open spec fn find_profile(accounts: Seq<AccountProfileView>, name: Seq<char>) -> Option<int>
    decreases accounts.len(),
{
    if accounts.len() == 0 {
        None
    } else if accounts[0].name == name {
        Some(0)
    } else {
        match find_profile(accounts.drop_first(), name) {
            Some(i) => Some(i + 1),
            None => None,
        }
    }
}

/// Where a profile at `index` moves to among `len` profiles; the first place
/// belongs to the primary profile.
pub open spec fn move_target(index: int, len: int, direction: AccountMoveDirection) -> int {
    match direction {
        AccountMoveDirection::Up => if index - 1 > 1 {
            index - 1
        } else {
            1
        },
        AccountMoveDirection::Down => if index + 1 < len - 1 {
            index + 1
        } else {
            len - 1
        },
    }
}

/// The profiles after a request, or the reason it is refused. `home` is where
/// an added profile keeps its credentials and `active` the account in use.
pub open spec fn apply_profiles_spec(
    accounts: Seq<AccountProfileView>,
    request: AccountProfilesRequest,
    active: Seq<char>,
    home: Seq<char>,
) -> Result<Seq<AccountProfileView>, Seq<char>> {
    match request {
        AccountProfilesRequest::Add { name, label, proxy, use_ssh_tunnel } => Ok(
            accounts.push(
                AccountProfileView {
                    name: name@,
                    label: label_or_name(label@, name@),
                    role: AccountRole::Fallback,
                    credential_home: home,
                    proxy: kept_proxy(opt_text(proxy)),
                    use_ssh_tunnel,
                },
            ),
        ),
        AccountProfilesRequest::Remove { name } => match find_profile(accounts, name@) {
            None => Err("account profile not found"@),
            Some(i) => if accounts[i].role == AccountRole::Primary {
                Err("the primary account cannot be removed"@)
            } else if accounts[i].name == active {
                Err("switch away from the active account before removing it"@)
            } else {
                Ok(accounts.filter(|a: AccountProfileView| a.name != name@))
            },
        },
        AccountProfilesRequest::Move { name, direction } => match find_profile(accounts, name@) {
            None => Err("account profile not found"@),
            Some(i) => if accounts[i].role == AccountRole::Primary {
                Err("the primary account stays first"@)
            } else {
                let j = move_target(i, accounts.len() as int, direction);
                Ok(accounts.update(i, accounts[j]).update(j, accounts[i]))
            },
        },
        AccountProfilesRequest::Update { name, label, proxy, use_ssh_tunnel } => match find_profile(
            accounts,
            name@,
        ) {
            None => Err("account profile not found"@),
            Some(i) => Ok(
                accounts.update(
                    i,
                    AccountProfileView {
                        label: label_or_name(label@, name@),
                        proxy: kept_proxy(opt_text(proxy)),
                        use_ssh_tunnel,
                        ..accounts[i]
                    },
                ),
            ),
        },
    }
}

proof fn lemma_find_profile(accounts: Seq<AccountProfileView>, name: Seq<char>)
    ensures
        find_profile(accounts, name) matches Some(i) ==> 0 <= i < accounts.len() && accounts[i].name
            == name && forall|j: int| 0 <= j < i ==> #[trigger] accounts[j].name != name,
        find_profile(accounts, name) is None ==> forall|j: int|
            0 <= j < accounts.len() ==> #[trigger] accounts[j].name != name,
    decreases accounts.len(),
{
    if accounts.len() > 0 {
        lemma_find_profile(accounts.drop_first(), name);
        if accounts[0].name != name {
            assert forall|j: int| 1 <= j < accounts.len() implies accounts[j] == accounts.drop_first()[j - 1] by {}
        }
    }
}

/// The position of the first profile named `name`.
fn position_of(accounts: &Vec<AccountProfile>, name: &str) -> (r: Option<usize>)
    ensures
        match r {
            Some(i) => i < accounts@.len() && find_profile(profiles_view(accounts@), name@) == Some(
                i as int,
            ),
            None => find_profile(profiles_view(accounts@), name@) is None,
        },
{
    let ghost view = profiles_view(accounts@);
    proof {
        lemma_find_profile(view, name@);
    }
    let mut i: usize = 0;
    while i < accounts.len()
        invariant
            view == profiles_view(accounts@),
            i <= accounts@.len(),
            forall|j: int| 0 <= j < i ==> #[trigger] view[j].name != name@,
            find_profile(view, name@) matches Some(k) ==> i <= k,
        decreases accounts@.len() - i,
    {
        proof {
            lemma_find_profile(view, name@);
        }
        if str_eq(accounts[i].name.as_str(), name) {
            assert(view[i as int].name == name@);
            return Some(i);
        }
        assert(view[i as int].name != name@);
        i = i + 1;
    }
    None
}

fn is_blank(s: &str) -> (r: bool)
    ensures
        r == blank(s@),
{
    let chars = chars_of(s);
    let (start, end) = trim_bounds(chars.as_slice());
    start == end
}

fn chosen_label(label: &String, name: &String) -> (r: String)
    ensures
        r@ == label_or_name(label@, name@),
{
    if is_blank(label.as_str()) {
        name.clone()
    } else {
        label.clone()
    }
}

fn chosen_proxy(proxy: &Option<String>) -> (r: Option<String>)
    ensures
        opt_text(r) == kept_proxy(opt_text(*proxy)),
{
    match proxy {
        Some(p) => if is_blank(p.as_str()) {
            None
        } else {
            Some(p.clone())
        },
        None => None,
    }
}

/// Applies a request to the profiles of `config`, or gives the reason it is
/// refused.
pub fn apply_profiles_request(
    config: &DaemonConfig,
    request: &AccountProfilesRequest,
    active_account: &str,
) -> (r: Result<Vec<AccountProfile>, String>)
    requires
        leading_single_primary(config@.accounts),
    ensures
        match apply_profiles_spec(
            config@.accounts,
            *request,
            active_account@,
            account_vault_spec(
                config@.source_path,
                match *request {
                    AccountProfilesRequest::Add { name, .. } => name@,
                    _ => Seq::empty(),
                },
            ),
        ) {
            Ok(accounts) => r is Ok && profiles_view(r->Ok_0@) == accounts,
            Err(message) => r is Err && r->Err_0@ == message,
        },
{
    let mut accounts = duplicate_profiles(config.accounts.as_slice());
    let ghost view = config@.accounts;
    assert(profiles_view(accounts@) == view);
    match request {
        AccountProfilesRequest::Add { name, label, proxy, use_ssh_tunnel } => {
            let credential_home = config.credential_home(name.as_str());
            let profile = AccountProfile {
                name: name.clone(),
                label: chosen_label(label, name),
                role: AccountRole::Fallback,
                credential_home,
                proxy: chosen_proxy(proxy),
                use_ssh_tunnel: *use_ssh_tunnel,
            };
            let ghost pv = profile@;
            accounts.push(profile);
            assert(profiles_view(accounts@) =~= view.push(pv));
            Ok(accounts)
        },
        AccountProfilesRequest::Remove { name } => {
            match position_of(&accounts, name.as_str()) {
                None => Err(String::from_str("account profile not found")),
                Some(i) => {
                    assert(profiles_view(accounts@)[i as int] == accounts@[i as int]@);
                    if matches!(accounts[i].role, AccountRole::Primary) {
                        return Err(String::from_str("the primary account cannot be removed"));
                    }
                    if str_eq(accounts[i].name.as_str(), active_account) {
                        return Err(
                            String::from_str(
                                "switch away from the active account before removing it",
                            ),
                        );
                    }
                    let ghost pred = |a: AccountProfileView| a.name != name@;
                    let mut kept: Vec<AccountProfile> = Vec::new();
                    let mut j: usize = 0;
                    while j < accounts.len()
                        invariant
                            view == profiles_view(accounts@),
                            pred == (|a: AccountProfileView| a.name != name@),
                            j <= accounts@.len(),
                            profiles_view(kept@) == view.take(j as int).filter(pred),
                        decreases accounts@.len() - j,
                    {
                        let ghost before = profiles_view(kept@);
                        proof {
                            reveal(Seq::filter);
                            assert(view.take(j + 1).drop_last() =~= view.take(j as int));
                            assert(view.take(j + 1).last() == view[j as int]);
                            assert(view[j as int] == accounts@[j as int]@);
                        }
                        if !str_eq(accounts[j].name.as_str(), name.as_str()) {
                            let copy = accounts[j].duplicate();
                            kept.push(copy);
                            assert(profiles_view(kept@) =~= before.push(copy@));
                        }
                        j = j + 1;
                    }
                    assert(view.take(j as int) =~= view);
                    Ok(kept)
                },
            }
        },
        AccountProfilesRequest::Move { name, direction } => {
            match position_of(&accounts, name.as_str()) {
                None => Err(String::from_str("account profile not found")),
                Some(i) => {
                    assert(profiles_view(accounts@)[i as int] == accounts@[i as int]@);
                    if matches!(accounts[i].role, AccountRole::Primary) {
                        return Err(String::from_str("the primary account stays first"));
                    }
                    assert(i >= 1);
                    let len = accounts.len();
                    let target = match direction {
                        AccountMoveDirection::Up => if i - 1 > 1 {
                            i - 1
                        } else {
                            1
                        },
                        AccountMoveDirection::Down => if i + 1 < len - 1 {
                            i + 1
                        } else {
                            len - 1
                        },
                    };
                    let at_i = accounts[i].duplicate();
                    let at_target = accounts[target].duplicate();
                    accounts.set(i, at_target);
                    accounts.set(target, at_i);
                    assert(profiles_view(accounts@) =~= view.update(i as int, view[target as int]).update(
                        target as int,
                        view[i as int],
                    ));
                    Ok(accounts)
                },
            }
        },
        AccountProfilesRequest::Update { name, label, proxy, use_ssh_tunnel } => {
            match position_of(&accounts, name.as_str()) {
                None => Err(String::from_str("account profile not found")),
                Some(i) => {
                    let old = &accounts[i];
                    assert(view[i as int] == old@);
                    let updated = AccountProfile {
                        name: old.name.clone(),
                        label: chosen_label(label, name),
                        role: old.role,
                        credential_home: old.credential_home.clone(),
                        proxy: chosen_proxy(proxy),
                        use_ssh_tunnel: *use_ssh_tunnel,
                    };
                    let ghost uv = updated@;
                    accounts.set(i, updated);
                    assert(profiles_view(accounts@) =~= view.update(i as int, uv));
                    Ok(accounts)
                },
            }
        },
    }
}

/// Whether a request changes how the account in use connects, so that it must be
/// restarted (and may not be while a turn runs).
pub open spec fn restart_needed_spec(
    accounts: Seq<AccountProfileView>,
    request: AccountProfilesRequest,
    active: Seq<char>,
) -> bool {
    match request {
        AccountProfilesRequest::Update { name, proxy, use_ssh_tunnel, .. } => match find_profile(
            accounts,
            name@,
        ) {
            Some(i) => accounts[i].name == active && (accounts[i].proxy != opt_text(proxy)
                || accounts[i].use_ssh_tunnel != use_ssh_tunnel),
            None => false,
        },
        _ => false,
    }
}

fn same_text(a: &Option<String>, b: &Option<String>) -> (r: bool)
    ensures
        r == (opt_text(*a) == opt_text(*b)),
{
    match (a, b) {
        (Some(x), Some(y)) => str_eq(x.as_str(), y.as_str()),
        (None, None) => true,
        _ => false,
    }
}

/// Whether a request changes the connection of the account in use.
pub fn restart_needed(accounts: &Vec<AccountProfile>, request: &AccountProfilesRequest, active_account: &str) -> (r: bool)
    ensures
        r == restart_needed_spec(profiles_view(accounts@), *request, active_account@),
{
    match request {
        AccountProfilesRequest::Update { name, proxy, use_ssh_tunnel, .. } => {
            match position_of(accounts, name.as_str()) {
                Some(i) => {
                    let account = &accounts[i];
                    assert(profiles_view(accounts@)[i as int] == account@);
                    str_eq(account.name.as_str(), active_account) && (!same_text(&account.proxy, proxy)
                        || account.use_ssh_tunnel != *use_ssh_tunnel)
                },
                None => false,
            }
        },
        _ => false,
    }
}

/// Moving a profile keeps the primary profile first and keeps every profile.
pub proof fn lemma_move_keeps_primary_first(
    accounts: Seq<AccountProfileView>,
    name: String,
    direction: AccountMoveDirection,
    active: Seq<char>,
    home: Seq<char>,
)
    requires
        leading_single_primary(accounts),
    ensures
        apply_profiles_spec(accounts, AccountProfilesRequest::Move { name, direction }, active, home) matches Ok(
            moved,
        ) ==> leading_single_primary(moved) && moved.len() == accounts.len() && moved[0] == accounts[0]
            && moved.to_multiset() == accounts.to_multiset(),
{
    lemma_find_profile(accounts, name@);
    if let Some(i) = find_profile(accounts, name@) {
        if accounts[i].role != AccountRole::Primary {
            let j = move_target(i, accounts.len() as int, direction);
            let moved = accounts.update(i, accounts[j]).update(j, accounts[i]);
            assert(i >= 1);
            assert(1 <= j < accounts.len());
            assert(moved[0] == accounts[0]);
            assert forall|k: int| 1 <= k < moved.len() implies #[trigger] moved[k].role != AccountRole::Primary by {
                if k == j {
                    assert(moved[k] == accounts[i]);
                } else if k == i {
                    assert(moved[k] == accounts[j]);
                } else {
                    assert(moved[k] == accounts[k]);
                }
            }
            broadcast use vstd::multiset::group_multiset_axioms;

            let first = accounts.update(i, accounts[j]);
            vstd::seq_lib::to_multiset_update(accounts, i, accounts[j]);
            vstd::seq_lib::to_multiset_update(first, j, accounts[i]);
            vstd::seq_lib::to_multiset_contains(accounts, accounts[i]);
            assert(accounts.contains(accounts[i]));
            assert(first[j] == accounts[j]);
            assert(moved.to_multiset() =~= accounts.to_multiset());
        }
    }
}

/// Moving a fallback profile swaps it with its neighbour and leaves every other
/// profile in place: `Up` swaps the profile at `i` with the one at `i - 1`, and
/// `Down` with the one at `i + 1`. A profile already next to the primary does not
/// move up, and the last profile does not move down.
pub proof fn lemma_move_swaps_with_neighbour(
    accounts: Seq<AccountProfileView>,
    name: String,
    direction: AccountMoveDirection,
    active: Seq<char>,
    home: Seq<char>,
    i: int,
)
    requires
        leading_single_primary(accounts),
        find_profile(accounts, name@) == Some(i),
        i >= 1,
    ensures
        ({
            let n = match direction {
                AccountMoveDirection::Up => if i >= 2 { i - 1 } else { i },
                AccountMoveDirection::Down => if i + 1 < accounts.len() { i + 1 } else { i },
            };
            &&& apply_profiles_spec(accounts, AccountProfilesRequest::Move { name, direction }, active, home) is Ok
            &&& apply_profiles_spec(accounts, AccountProfilesRequest::Move { name, direction }, active, home)->Ok_0.len()
                == accounts.len()
            &&& forall|k: int| 0 <= k < accounts.len() ==> #[trigger] apply_profiles_spec(
                accounts,
                AccountProfilesRequest::Move { name, direction },
                active,
                home,
            )->Ok_0[k] == if k == i {
                accounts[n]
            } else if k == n {
                accounts[i]
            } else {
                accounts[k]
            }
        }),
{
    lemma_find_profile(accounts, name@);
    assert(accounts[i].role != AccountRole::Primary);
}

/// A move is refused when no profile has the name, and when the named profile
/// is the primary one, which stays first.
pub proof fn lemma_move_refusals(
    accounts: Seq<AccountProfileView>,
    name: String,
    direction: AccountMoveDirection,
    active: Seq<char>,
    home: Seq<char>,
)
    requires
        leading_single_primary(accounts),
    ensures
        (forall|k: int| 0 <= k < accounts.len() ==> #[trigger] accounts[k].name != name@)
            ==> apply_profiles_spec(accounts, AccountProfilesRequest::Move { name, direction }, active, home)
            == Err::<Seq<AccountProfileView>, Seq<char>>("account profile not found"@),
        accounts[0].name == name@ ==> apply_profiles_spec(
            accounts,
            AccountProfilesRequest::Move { name, direction },
            active,
            home,
        ) == Err::<Seq<AccountProfileView>, Seq<char>>("the primary account stays first"@),
{
    lemma_find_profile(accounts, name@);
    if accounts[0].name == name@ {
        assert(find_profile(accounts, name@) == Some(0int));
    }
}

/// Removing a profile never removes the primary profile, which stays first.
pub proof fn lemma_remove_keeps_primary(
    accounts: Seq<AccountProfileView>,
    name: String,
    active: Seq<char>,
    home: Seq<char>,
)
    requires
        leading_single_primary(accounts),
    ensures
        apply_profiles_spec(accounts, AccountProfilesRequest::Remove { name }, active, home) matches Ok(
            kept,
        ) ==> kept.len() > 0 && kept[0] == accounts[0] && !kept.contains(
            accounts[find_profile(accounts, name@)->0],
        ),
{
    lemma_find_profile(accounts, name@);
    if let Some(i) = find_profile(accounts, name@) {
        if accounts[i].role != AccountRole::Primary && accounts[i].name != active {
            broadcast use vstd::seq_lib::group_filter_ensures;

            let pred = |a: AccountProfileView| a.name != name@;
            assert(accounts[0].name != name@);
            accounts.lemma_filter_contains(pred, 0);
            let kept = accounts.filter(pred);
            assert(kept.contains(accounts[0]));
            assert(kept.len() > 0);
            assert(kept[0] == accounts[0]) by {
                reveal(Seq::filter);
                lemma_filter_first(accounts, pred);
            }
            if kept.contains(accounts[i]) {
                let k = choose|k: int| 0 <= k < kept.len() && kept[k] == accounts[i];
                accounts.lemma_filter_pred(pred, k);
            }
        }
    }
}

proof fn lemma_filter_first(s: Seq<AccountProfileView>, pred: spec_fn(AccountProfileView) -> bool)
    requires
        s.len() > 0,
        pred(s[0]),
    ensures
        s.filter(pred).len() > 0,
        s.filter(pred)[0] == s[0],
    decreases s.len(),
{
    reveal(Seq::filter);
    if s.len() > 1 {
        assert(s.drop_last()[0] == s[0]);
        lemma_filter_first(s.drop_last(), pred);
        let sub = s.drop_last().filter(pred);
        if pred(s.last()) {
            assert(sub.push(s.last())[0] == sub[0]);
        }
    } else {
        assert(s.drop_last().filter(pred) =~= Seq::<AccountProfileView>::empty()) by {
            assert(s.drop_last() =~= Seq::<AccountProfileView>::empty());
        }
    }
}

// ---------------------------------------------------------------------------
// Choosing an account

/// The indices below `upto` of the profiles not named `preferred`, in order.
pub open spec fn other_indices(accounts: Seq<AccountProfileView>, preferred: Option<Seq<char>>, upto: int) -> Seq<usize>
    decreases upto,
{
    if upto <= 0 {
        Seq::empty()
    } else {
        let before = other_indices(accounts, preferred, upto - 1);
        if preferred == Some(accounts[upto - 1].name) {
            before
        } else {
            before.push((upto - 1) as usize)
        }
    }
}

/// The order in which profiles are tried at start-up: the preferred profile
/// first when there is one of that name, then every other profile in order.
pub open spec fn candidates_spec(accounts: Seq<AccountProfileView>, preferred: Option<Seq<char>>) -> Seq<usize> {
    let first = match preferred {
        Some(p) => match find_profile(accounts, p) {
            Some(i) => seq![i as usize],
            None => Seq::empty(),
        },
        None => Seq::empty(),
    };
    first + other_indices(accounts, preferred, accounts.len() as int)
}

fn others_in_order(accounts: &Vec<AccountProfile>, preferred: Option<&str>, into: &mut Vec<usize>)
    ensures
        final(into)@ == old(into)@ + other_indices(profiles_view(accounts@), opt_str(preferred), accounts@.len() as int),
{
    let ghost view = profiles_view(accounts@);
    let ghost start = into@;
    let mut j: usize = 0;
    while j < accounts.len()
        invariant
            view == profiles_view(accounts@),
            j <= accounts@.len(),
            into@ == start + other_indices(view, opt_str(preferred), j as int),
        decreases accounts@.len() - j,
    {
        let skip = match preferred {
            Some(p) => str_eq(accounts[j].name.as_str(), p),
            None => false,
        };
        assert(view[j as int] == accounts@[j as int]@);
        if !skip {
            into.push(j);
            assert(into@ =~= start + other_indices(view, opt_str(preferred), j + 1));
        }
        j = j + 1;
    }
}

/// The order in which profiles are tried at start-up, as indices.
pub fn account_candidates(accounts: &Vec<AccountProfile>, preferred: Option<&str>) -> (order: Vec<usize>)
    ensures
        order@ == candidates_spec(profiles_view(accounts@), opt_str(preferred)),
{
    let mut order: Vec<usize> = Vec::new();
    match preferred {
        Some(p) => match position_of(accounts, p) {
            Some(i) => order.push(i),
            None => {},
        },
        None => {},
    }
    let ghost first = order@;
    others_in_order(accounts, preferred, &mut order);
    order
}

/// The profiles other than the one in use, in order: where the daemon turns when
/// the account in use is signed out or rate limited.
pub fn switch_candidates(accounts: &Vec<AccountProfile>, current: &str) -> (order: Vec<usize>)
    ensures
        order@ == other_indices(profiles_view(accounts@), Some(current@), accounts@.len() as int),
{
    let mut order: Vec<usize> = Vec::new();
    others_in_order(accounts, Some(current), &mut order);
    assert(order@ =~= other_indices(profiles_view(accounts@), Some(current@), accounts@.len() as int));
    order
}

/// The indices other than the preferred profile's are in range, increasing,
/// and cover every other profile.
pub proof fn lemma_other_indices_members(accounts: Seq<AccountProfileView>, preferred: Option<Seq<char>>, upto: int)
    requires
        0 <= upto <= accounts.len(),
        accounts.len() <= usize::MAX,
    ensures
        forall|k: int|
            0 <= k < other_indices(accounts, preferred, upto).len() ==> 0 <= #[trigger] other_indices(
                accounts,
                preferred,
                upto,
            )[k] < upto && preferred != Some(
                accounts[other_indices(accounts, preferred, upto)[k] as int].name,
            ),
        forall|a: int, b: int|
            0 <= a < b < other_indices(accounts, preferred, upto).len() ==> #[trigger] other_indices(
                accounts,
                preferred,
                upto,
            )[a] < #[trigger] other_indices(accounts, preferred, upto)[b],
        forall|j: int|
            0 <= j < upto && preferred != Some(accounts[j].name) ==> #[trigger] other_indices(
                accounts,
                preferred,
                upto,
            ).contains(j as usize),
    decreases upto,
{
    if upto > 0 {
        lemma_other_indices_members(accounts, preferred, upto - 1);
        let before = other_indices(accounts, preferred, upto - 1);
        if preferred != Some(accounts[upto - 1].name) {
            let now = before.push((upto - 1) as usize);
            assert(now == other_indices(accounts, preferred, upto));
            assert forall|k: int| 0 <= k < now.len() implies 0 <= #[trigger] now[k] < upto
                && preferred != Some(accounts[now[k] as int].name) by {
                if k < before.len() {
                    assert(now[k] == before[k]);
                }
            }
            assert forall|a: int, b: int| 0 <= a < b < now.len() implies #[trigger] now[a]
                < #[trigger] now[b] by {
                assert(now[a] == before[a]);
                if b < before.len() {
                    assert(now[b] == before[b]);
                }
            }
            assert forall|j: int| 0 <= j < upto && preferred != Some(accounts[j].name) implies #[trigger] now.contains(
                j as usize,
            ) by {
                if j < upto - 1 {
                    assert(before.contains(j as usize));
                    let k = choose|k: int| 0 <= k < before.len() && before[k] == j as usize;
                    assert(now[k] == j as usize);
                } else {
                    assert(now[now.len() - 1] == j as usize);
                }
            }
        } else {
            assert(before == other_indices(accounts, preferred, upto));
        }
    }
}

/// Every position in the start-up order is that of a profile.
pub proof fn lemma_candidates_in_range(accounts: Seq<AccountProfileView>, preferred: Option<Seq<char>>)
    requires
        accounts.len() <= usize::MAX,
    ensures
        forall|k: int|
            0 <= k < candidates_spec(accounts, preferred).len() ==> #[trigger] candidates_spec(accounts, preferred)[k]
                < accounts.len(),
{
    lemma_other_indices_members(accounts, preferred, accounts.len() as int);
    if let Some(p) = preferred {
        lemma_find_profile(accounts, p);
    }
    let c = candidates_spec(accounts, preferred);
    let others = other_indices(accounts, preferred, accounts.len() as int);
    let first = c.len() - others.len();
    assert forall|k: int| 0 <= k < c.len() implies #[trigger] c[k] < accounts.len() by {
        if k >= first {
            assert(c[k] == others[k - first]);
        }
    }
}

/// With distinct names, every profile is tried exactly once at start-up, the
/// preferred one first when it exists.
pub proof fn lemma_candidates_try_each_once(accounts: Seq<AccountProfileView>, preferred: Option<Seq<char>>)
    requires
        accounts.len() <= usize::MAX,
        forall|a: int, b: int|
            0 <= a < b < accounts.len() ==> #[trigger] accounts[a].name != #[trigger] accounts[b].name,
    ensures
        candidates_spec(accounts, preferred).len() == accounts.len(),
        forall|j: int|
            0 <= j < accounts.len() ==> #[trigger] candidates_spec(accounts, preferred).contains(
                j as usize,
            ),
        forall|a: int, b: int|
            0 <= a < b < candidates_spec(accounts, preferred).len() ==> #[trigger] candidates_spec(
                accounts,
                preferred,
            )[a] != #[trigger] candidates_spec(accounts, preferred)[b],
        (preferred matches Some(p) && find_profile(accounts, p) is Some) ==> candidates_spec(
            accounts,
            preferred,
        )[0] == find_profile(accounts, preferred->0)->0 as usize,
{
    let n = accounts.len() as int;
    let others = other_indices(accounts, preferred, n);
    lemma_other_indices_members(accounts, preferred, n);
    let c = candidates_spec(accounts, preferred);
    let mut missing: int = -1;
    if let Some(p) = preferred {
        lemma_find_profile(accounts, p);
        if let Some(i) = find_profile(accounts, p) {
            missing = i;
        }
    }
    // `others` holds every profile but the one named `preferred`, which is
    // `missing` when it exists.
    assert forall|j: int| 0 <= j < n && j != missing implies #[trigger] others.contains(j as usize) by {
        if preferred == Some(accounts[j].name) {
            let p = preferred->0;
            let i = find_profile(accounts, p)->0;
            if j < i {
                assert(accounts[j].name != accounts[i].name);
            } else if j > i {
                assert(accounts[i].name != accounts[j].name);
            }
        }
    }
    assert forall|k: int| 0 <= k < others.len() implies 0 <= #[trigger] others[k] < n && others[k] != missing by {
        if missing >= 0 {
            let i = missing;
            assert(accounts[i].name == preferred->0);
        }
    }
    lemma_distinct_sorted_count(others, n, missing);
    if missing >= 0 {
        let i = missing;
        assert(c =~= seq![i as usize] + others);
        assert forall|j: int| 0 <= j < n implies #[trigger] c.contains(j as usize) by {
            if j == i {
                assert(c[0] == j as usize);
            } else {
                assert(others.contains(j as usize));
                let k = choose|k: int| 0 <= k < others.len() && others[k] == j as usize;
                assert(c[k + 1] == j as usize);
            }
        }
        assert forall|a: int, b: int| 0 <= a < b < c.len() implies #[trigger] c[a] != #[trigger] c[b] by {
            if a == 0 {
                assert(c[b] == others[b - 1]);
            } else {
                assert(c[a] == others[a - 1] && c[b] == others[b - 1]);
            }
        }
    } else {
        assert(c =~= others);
        assert forall|j: int| 0 <= j < n implies #[trigger] c.contains(j as usize) by {
            assert(others.contains(j as usize));
        }
    }
}

/// A strictly increasing list of indices below `n` that holds every index but
/// `missing` (or every index, when `missing` is out of range) has `n` entries,
/// less one when one is missing.
proof fn lemma_distinct_sorted_count(list: Seq<usize>, n: int, missing: int)
    requires
        0 <= n <= usize::MAX + 1,
        forall|a: int, b: int| 0 <= a < b < list.len() ==> #[trigger] list[a] < #[trigger] list[b],
        forall|k: int| 0 <= k < list.len() ==> 0 <= #[trigger] list[k] < n && list[k] != missing,
        forall|j: int| 0 <= j < n && j != missing ==> #[trigger] list.contains(j as usize),
    ensures
        list.len() == if 0 <= missing < n {
            n - 1
        } else {
            n
        },
    decreases n,
{
    if n == 0 {
        if list.len() > 0 {
            let x = list[0];
            assert(x < n);
        }
    } else {
        let last = n - 1;
        if last == missing {
            assert forall|k: int| 0 <= k < list.len() implies 0 <= #[trigger] list[k] < n - 1 && list[k] != -1 by {}
            assert forall|j: int| 0 <= j < n - 1 && j != -1 implies #[trigger] list.contains(j as usize) by {
                assert(j != missing);
            }
            lemma_distinct_sorted_count(list, n - 1, -1);
        } else {
            assert(list.contains(last as usize));
            let k = choose|k: int| 0 <= k < list.len() && list[k] == last as usize;
            if k < list.len() - 1 {
                assert(list[k] < list[list.len() - 1]);
                assert(false);
            }
            assert(list[list.len() - 1] == last as usize);
            let rest = list.drop_last();
            assert forall|a: int, b: int| 0 <= a < b < rest.len() implies #[trigger] rest[a] < #[trigger] rest[b] by {
                assert(rest[a] == list[a] && rest[b] == list[b]);
            }
            assert forall|q: int| 0 <= q < rest.len() implies 0 <= #[trigger] rest[q] < n - 1 && rest[q] != missing by {
                assert(rest[q] == list[q]);
                assert(list[q] < list[list.len() - 1]);
            }
            assert forall|j: int| 0 <= j < n - 1 && j != missing implies #[trigger] rest.contains(j as usize) by {
                assert(list.contains(j as usize));
                let q = choose|q: int| 0 <= q < list.len() && list[q] == j as usize;
                assert(q != list.len() - 1);
                assert(rest[q] == j as usize);
            }
            lemma_distinct_sorted_count(rest, n - 1, missing);
        }
    }
}

/// Whether an account can be used: it is signed in, or needs no OpenAI login.
pub fn account_available(has_account: bool, requires_openai_auth: Option<bool>) -> (r: bool)
    ensures
        r == (has_account || requires_openai_auth == Some(false)),
{
    has_account || matches!(requires_openai_auth, Some(false))
}

/// Whether an account's rate limits are exhausted: a limit was reached, the spend
/// control was reached, or a window is fully used.
pub fn rate_limited(
    limit_reached: bool,
    spend_control_reached: Option<bool>,
    primary_used_percent: Option<i64>,
    secondary_used_percent: Option<i64>,
) -> (r: bool)
    ensures
        r == (limit_reached || spend_control_reached == Some(true) || (primary_used_percent matches Some(
            p,
        ) && p >= 100) || (secondary_used_percent matches Some(p) && p >= 100)),
{
    limit_reached || matches!(spend_control_reached, Some(true)) || match primary_used_percent {
        Some(p) => p >= 100,
        None => false,
    } || match secondary_used_percent {
        Some(p) => p >= 100,
        None => false,
    }
}

/// Why an account was passed over at start-up.
pub fn unavailable_reason(available: bool) -> (reason: &'static str)
    ensures
        reason@ == (if available {
            "rate limit exhausted"@
        } else {
            "not signed in"@
        }),
{
    if available {
        "rate limit exhausted"
    } else {
        "not signed in"
    }
}

/// The error text when no account can take over, listing the failed attempts.
pub fn no_healthy_account_message(failures: &Vec<String>) -> (m: String)
    ensures
        m@ == "no healthy Codex account is available"@ + if failures@.len() == 0 {
            Seq::<char>::empty()
        } else {
            ": "@ + crate::present::joined(crate::present::texts(failures@), "; "@)
        },
{
    let mut m = String::from_str("no healthy Codex account is available");
    if failures.len() == 0 {
        return m;
    }
    m.append(": ");
    let ghost parts = crate::present::texts(failures@);
    let ghost head = m@;
    let mut i: usize = 0;
    while i < failures.len()
        invariant
            parts == crate::present::texts(failures@),
            i <= failures@.len(),
            m@ == head + crate::present::joined(parts.take(i as int), "; "@),
        decreases failures@.len() - i,
    {
        if i > 0 {
            m.append("; ");
        }
        m.append(failures[i].as_str());
        proof {
            let taken = parts.take(i + 1);
            assert(taken.drop_last() =~= parts.take(i as int));
            assert(taken.last() == parts[i as int]);
            if i == 0 {
                assert(parts.take(0) =~= Seq::<Seq<char>>::empty());
            }
        }
        i = i + 1;
    }
    assert(parts.take(i as int) =~= parts);
    m
}

// ---------------------------------------------------------------------------
// Credentials

/// The tokens of a stored ChatGPT login.
#[derive(Debug)]
pub struct StoredTokens {
    pub access_token: String,
    pub account_id: Option<String>,
    pub id_token_account_id: Option<String>,
    pub plan_type: Option<String>,
}

/// The stored login of a fallback profile.
#[derive(Debug)]
pub struct StoredAuth {
    pub api_key: Option<String>,
    pub tokens: Option<StoredTokens>,
}

/// How a profile's app-server signs in.
#[derive(Debug)]
pub enum AccountCredentials {
    /// The primary profile uses the normal Codex CLI login.
    Primary,
    /// An API key.
    ApiKey(String),
    /// ChatGPT tokens.
    Chatgpt { access_token: String, account_id: String, plan_type: Option<String> },
    /// No usable login is stored.
    Missing,
}

impl AccountCredentials {
    /// The API key, for API-key credentials.
    pub fn api_key(&self) -> (key: Option<&str>)
        ensures
            match self {
                AccountCredentials::ApiKey(k) => opt_str(key) == Some(k@),
                _ => key is None,
            },
    {
        match self {
            AccountCredentials::ApiKey(k) => Some(k.as_str()),
            _ => None,
        }
    }
}

/// The credentials of a profile with role `role` and stored login `auth`: the
/// primary uses the CLI login; otherwise an API key wins, then ChatGPT tokens
/// with an account id (the token's own, else the one in the id token).
pub fn account_credentials(role: AccountRole, auth: Option<StoredAuth>) -> (c: AccountCredentials)
    ensures
        role == AccountRole::Primary ==> c is Primary,
        role != AccountRole::Primary ==> match auth {
            None => c is Missing,
            Some(a) => match a.api_key {
                Some(k) => c matches AccountCredentials::ApiKey(key) && key@ == k@,
                None => match a.tokens {
                    None => c is Missing,
                    Some(t) => match (match t.account_id {
                        Some(id) => Some(id),
                        None => t.id_token_account_id,
                    }) {
                        None => c is Missing,
                        Some(id) => c matches AccountCredentials::Chatgpt { access_token, account_id, plan_type }
                            && access_token@ == t.access_token@ && account_id@ == id@ && opt_text(
                            plan_type,
                        ) == opt_text(t.plan_type),
                    },
                },
            },
        },
{
    if matches!(role, AccountRole::Primary) {
        return AccountCredentials::Primary;
    }
    let auth = match auth {
        Some(a) => a,
        None => {
            return AccountCredentials::Missing;
        },
    };
    if let Some(key) = auth.api_key {
        return AccountCredentials::ApiKey(key);
    }
    let tokens = match auth.tokens {
        Some(t) => t,
        None => {
            return AccountCredentials::Missing;
        },
    };
    let account_id = match tokens.account_id {
        Some(id) => Some(id),
        None => tokens.id_token_account_id,
    };
    match account_id {
        Some(id) => AccountCredentials::Chatgpt {
            access_token: tokens.access_token,
            account_id: id,
            plan_type: tokens.plan_type,
        },
        None => AccountCredentials::Missing,
    }
}

// ---------------------------------------------------------------------------
// Addresses and the OAuth callback

/// A socket address the daemon listens on, as the network layer describes it.
#[derive(Debug)]
pub struct ListenAddress {
    pub ip: String,
    pub is_ipv6: bool,
    pub is_loopback: bool,
    pub port: u16,
}

/// The `host:port` authority of an address, with IPv6 addresses in brackets.
pub open spec fn authority_spec(ip: Seq<char>, is_ipv6: bool, port: u16) -> Seq<char> {
    if is_ipv6 {
        "["@ + ip + "]:"@ + decimal(port as nat)
    } else {
        ip + ":"@ + decimal(port as nat)
    }
}

/// The authority of an address.
pub fn authority(address: &ListenAddress) -> (a: String)
    ensures
        a@ == authority_spec(address.ip@, address.is_ipv6, address.port),
{
    let digits = decimal_string(address.port as u64);
    let mut a = if address.is_ipv6 {
        let mut t = String::from_str("[");
        t.append(address.ip.as_str());
        t.append("]:");
        t
    } else {
        let mut t = address.ip.clone();
        t.append(":");
        t
    };
    a.append(digits.as_str());
    a
}

fn first_matching(addresses: &Vec<ListenAddress>, require_ipv4: bool) -> (r: Option<usize>)
    ensures
        match r {
            Some(i) => i < addresses@.len() && !addresses@[i as int].is_loopback && (require_ipv4
                ==> !addresses@[i as int].is_ipv6) && forall|j: int|
                0 <= j < i ==> (#[trigger] addresses@[j]).is_loopback || (require_ipv4
                    && addresses@[j].is_ipv6),
            None => forall|j: int|
                0 <= j < addresses@.len() ==> (#[trigger] addresses@[j]).is_loopback || (require_ipv4
                    && addresses@[j].is_ipv6),
        },
{
    let mut i: usize = 0;
    while i < addresses.len()
        invariant
            i <= addresses@.len(),
            forall|j: int|
                0 <= j < i ==> (#[trigger] addresses@[j]).is_loopback || (require_ipv4
                    && addresses@[j].is_ipv6),
        decreases addresses@.len() - i,
    {
        let a = &addresses[i];
        if !a.is_loopback && (!require_ipv4 || !a.is_ipv6) {
            return Some(i);
        }
        i = i + 1;
    }
    None
}

/// Whether `url` is the OAuth callback URL published for `addresses`: the one on
/// the first reachable IPv4 address, else on the first reachable one (loopback
/// addresses are not reachable from other machines), or none when every address
/// is a loopback address.
pub open spec fn is_callback_choice(addresses: Seq<ListenAddress>, url: Option<Seq<char>>) -> bool {
    match url {
        Some(u) => exists|i: int|
            0 <= i < addresses.len() && #[trigger] addresses[i].is_loopback == false && (
            !addresses[i].is_ipv6 || forall|j: int|
                0 <= j < addresses.len() ==> (#[trigger] addresses[j]).is_loopback
                    || addresses[j].is_ipv6) && (forall|j: int|
                0 <= j < i ==> (#[trigger] addresses[j]).is_loopback || (!addresses[i].is_ipv6
                    && addresses[j].is_ipv6)) && u == "http://"@ + authority_spec(
                addresses[i].ip@,
                addresses[i].is_ipv6,
                addresses[i].port,
            ) + "/oauth/callback"@,
        None => forall|j: int| 0 <= j < addresses.len() ==> (#[trigger] addresses[j]).is_loopback,
    }
}

/// The OAuth callback URL published to MCP servers: on the first reachable IPv4
/// address, else the first reachable one (loopback addresses are not reachable
/// from other machines), or none.
pub fn mcp_callback_url(addresses: &Vec<ListenAddress>) -> (url: Option<String>)
    ensures
        is_callback_choice(addresses@, opt_text(url)),
{
    let chosen = match first_matching(addresses, true) {
        Some(i) => Some(i),
        None => first_matching(addresses, false),
    };
    match chosen {
        None => None,
        Some(i) => {
            let mut url = String::from_str("http://");
            let a = authority(&addresses[i]);
            url.append(a.as_str());
            url.append("/oauth/callback");
            Some(url)
        },
    }
}

// ---------------------------------------------------------------------------
// Starting a profile's app-server

/// How a profile's app-server is started: behind which proxy, if any, and with
/// which configuration overrides.
#[derive(Debug)]
pub struct ProfileRuntime {
    pub proxy: Option<String>,
    pub overrides: Vec<String>,
}

/// Why a profile's app-server cannot start, if it cannot: it has no login, or it
/// signs in with an API key, which only the embedded app-server reads.
pub open spec fn runtime_error(credentials: AccountCredentials, command: AppServerCommand) -> Option<ErrorView> {
    if credentials is Missing {
        Some(ErrorView { kind: ErrorKind::PermissionDenied, message: "account is not signed in"@ })
    } else if credentials is ApiKey && command is CodexCli {
        Some(
            ErrorView {
                kind: ErrorKind::Unsupported,
                message: "API-key fallbacks require the embedded app server"@,
            },
        )
    } else {
        None
    }
}

/// The proxy of a profile: the managed tunnel's when it uses the tunnel, else its
/// own.
pub open spec fn profile_proxy(profile: AccountProfileView, tunnel_proxy: Option<Seq<char>>) -> Option<Seq<char>> {
    if profile.use_ssh_tunnel {
        tunnel_proxy
    } else {
        profile.proxy
    }
}

/// Decides how to start the app-server of `profile` with the given credentials:
/// refused without a login or for an API key with the Codex CLI; otherwise
/// behind the profile's proxy, telling the app-server to respect it.
pub fn profile_runtime(
    profile: &AccountProfile,
    credentials: &AccountCredentials,
    command: &AppServerCommand,
    tunnel_proxy: Option<&str>,
    config_overrides: &Vec<String>,
) -> (r: Result<ProfileRuntime, WebError>)
    ensures
        match runtime_error(*credentials, *command) {
            Some(e) => r is Err && r->Err_0@ == e,
            None => r is Ok && opt_text(r->Ok_0.proxy) == profile_proxy(profile@, opt_str(tunnel_proxy))
                && texts(r->Ok_0.overrides@) == texts(config_overrides@) + if profile_proxy(
                profile@,
                opt_str(tunnel_proxy),
            ) is Some {
                seq!["features.respect_system_proxy=true"@]
            } else {
                Seq::empty()
            },
        },
{
    match credentials {
        AccountCredentials::Missing => {
            return Err(error_with(ErrorKind::PermissionDenied, "account is not signed in"));
        },
        AccountCredentials::ApiKey(_) => {
            if matches!(command, AppServerCommand::CodexCli { .. }) {
                return Err(
                    error_with(ErrorKind::Unsupported, "API-key fallbacks require the embedded app server"),
                );
            }
        },
        _ => {},
    }
    let proxy = if profile.use_ssh_tunnel {
        match tunnel_proxy {
            Some(p) => Some(String::from_str(p)),
            None => None,
        }
    } else {
        clone_text(&profile.proxy)
    };
    let mut overrides: Vec<String> = Vec::new();
    let mut i: usize = 0;
    while i < config_overrides.len()
        invariant
            i <= config_overrides@.len(),
            texts(overrides@) == texts(config_overrides@).take(i as int),
        decreases config_overrides@.len() - i,
    {
        let c = config_overrides[i].clone();
        let ghost before = texts(overrides@);
        assert(c@ == texts(config_overrides@)[i as int]);
        overrides.push(c);
        assert(texts(overrides@) =~= before.push(texts(config_overrides@)[i as int]));
        assert(texts(config_overrides@).take(i + 1) =~= texts(config_overrides@).take(i as int).push(
            texts(config_overrides@)[i as int],
        ));
        i = i + 1;
    }
    assert(texts(config_overrides@).take(i as int) =~= texts(config_overrides@));
    if proxy.is_some() {
        let ghost before = texts(overrides@);
        overrides.push(String::from_str("features.respect_system_proxy=true"));
        assert(texts(overrides@) =~= before.push("features.respect_system_proxy=true"@));
    } else {
        assert(texts(overrides@) =~= texts(config_overrides@) + Seq::<Seq<char>>::empty());
    }
    Ok(ProfileRuntime { proxy, overrides })
}

/// The overrides of an app-server started to sign a profile in or out: a
/// fallback keeps its login in a file, and one behind a proxy respects it.
pub open spec fn auth_overrides(profile: AccountProfileView, proxy: Option<Seq<char>>) -> Seq<Seq<char>> {
    (if profile.role == AccountRole::Fallback {
        seq!["cli_auth_credentials_store=\"file\""@]
    } else {
        Seq::empty()
    }) + (if proxy is Some {
        seq!["features.respect_system_proxy=true"@]
    } else {
        Seq::empty()
    })
}

/// Decides how to start the app-server that signs `profile` in or out: behind
/// the profile's proxy, with the overrides of [`auth_overrides`].
pub fn auth_runtime(profile: &AccountProfile, tunnel_proxy: Option<&str>) -> (r: ProfileRuntime)
    ensures
        opt_text(r.proxy) == profile_proxy(profile@, opt_str(tunnel_proxy)),
        texts(r.overrides@) == auth_overrides(profile@, profile_proxy(profile@, opt_str(tunnel_proxy))),
{
    let proxy = if profile.use_ssh_tunnel {
        match tunnel_proxy {
            Some(p) => Some(String::from_str(p)),
            None => None,
        }
    } else {
        clone_text(&profile.proxy)
    };
    let mut overrides: Vec<String> = Vec::new();
    let fallback = matches!(profile.role, AccountRole::Fallback);
    if fallback {
        overrides.push(String::from_str("cli_auth_credentials_store=\"file\""));
    }
    let ghost first = texts(overrides@);
    if proxy.is_some() {
        overrides.push(String::from_str("features.respect_system_proxy=true"));
        assert(texts(overrides@) =~= first.push("features.respect_system_proxy=true"@));
    }
    assert(texts(overrides@) =~= auth_overrides(profile@, opt_text(proxy)));
    ProfileRuntime { proxy, overrides }
}

/// What the settings page asks of an account's login.
#[derive(Debug, Clone, Copy, PartialEq, Eq, Structural)]
pub enum AccountAuthKind {
    ChatgptDeviceCode,
    ApiKey,
    Logout,
    Status,
}

/// Where a login request is carried out.
#[derive(Debug, Clone, Copy, PartialEq, Eq, Structural)]
pub enum AuthRoute {
    /// Start a device-code login on a new sign-in app-server, which is kept
    /// (replacing the profile's earlier one) until the login completes.
    DeviceCodeLogin,
    /// Sign in with the API key through a sign-in app-server, then shut it down.
    BridgeApiKeyLogin,
    /// Write the API key into the profile's own credential home.
    StoredApiKeyLogin,
    /// Drop the pending sign-in app-server, then sign out through a new one.
    BridgeLogout,
    /// Drop the pending sign-in app-server, then revoke and delete the stored login.
    StoredLogout,
    /// Read the status from the pending sign-in app-server.
    PendingStatus,
    /// Read the status from the app-server in use.
    ActiveStatus,
    /// Read the status from a new app-server of the profile, then shut it down.
    FreshStatus,
}

/// Where a login request for a profile with role `role` is carried out, given
/// whether a sign-in app-server is pending for it and whether it is the account
/// in use.
pub open spec fn auth_route_spec(kind: AccountAuthKind, role: AccountRole, pending: bool, in_use: bool) -> AuthRoute {
    match kind {
        AccountAuthKind::ChatgptDeviceCode => AuthRoute::DeviceCodeLogin,
        AccountAuthKind::ApiKey => if role == AccountRole::Primary {
            AuthRoute::BridgeApiKeyLogin
        } else {
            AuthRoute::StoredApiKeyLogin
        },
        AccountAuthKind::Logout => if role == AccountRole::Primary {
            AuthRoute::BridgeLogout
        } else {
            AuthRoute::StoredLogout
        },
        AccountAuthKind::Status => if pending {
            AuthRoute::PendingStatus
        } else if in_use {
            AuthRoute::ActiveStatus
        } else {
            AuthRoute::FreshStatus
        },
    }
}

/// Where a login request is carried out: the primary account signs in and out
/// through an app-server, a fallback through its own credential home; a status
/// comes from the pending sign-in app-server, else the one in use, else a new one.
pub fn auth_route(kind: AccountAuthKind, role: AccountRole, pending: bool, in_use: bool) -> (r: AuthRoute)
    ensures
        r == auth_route_spec(kind, role, pending, in_use),
{
    let primary = matches!(role, AccountRole::Primary);
    match kind {
        AccountAuthKind::ChatgptDeviceCode => AuthRoute::DeviceCodeLogin,
        AccountAuthKind::ApiKey => if primary {
            AuthRoute::BridgeApiKeyLogin
        } else {
            AuthRoute::StoredApiKeyLogin
        },
        AccountAuthKind::Logout => if primary {
            AuthRoute::BridgeLogout
        } else {
            AuthRoute::StoredLogout
        },
        AccountAuthKind::Status => if pending {
            AuthRoute::PendingStatus
        } else if in_use {
            AuthRoute::ActiveStatus
        } else {
            AuthRoute::FreshStatus
        },
    }
}

// ---------------------------------------------------------------------------
// Who may use an instance

/// Whether `names` holds `name`.
pub fn contains_text(names: &Vec<String>, name: &str) -> (r: bool)
    ensures
        r == texts(names@).contains(name@),
{
    let mut i: usize = 0;
    while i < names.len()
        invariant
            i <= names@.len(),
            forall|j: int| 0 <= j < i ==> (#[trigger] names@[j])@ != name@,
        decreases names@.len() - i,
    {
        if str_eq(names[i].as_str(), name) {
            assert(texts(names@)[i as int] == name@);
            return true;
        }
        i = i + 1;
    }
    assert forall|j: int| 0 <= j < texts(names@).len() implies texts(names@)[j] != name@ by {
        assert(texts(names@)[j] == names@[j]@);
    }
    false
}

/// Whether a request names one of the daemon's allowed authorities in its
/// `Host` header; every other request is forbidden.
pub open spec fn host_allowed(allowed: Seq<Seq<char>>, host: Option<Seq<char>>) -> bool {
    host matches Some(h) && allowed.contains(h)
}

/// Whether a request may reach the daemon at all: its `Host` header is present
/// and allowed.
pub fn public_access(allowed: &Vec<String>, host: Option<&str>) -> (r: bool)
    ensures
        r == host_allowed(texts(allowed@), opt_str(host)),
{
    match host {
        Some(h) => contains_text(allowed, h),
        None => false,
    }
}

/// How a request for an instance's page or API is answered.
#[derive(Debug, Clone, Copy, PartialEq, Eq, Structural)]
pub enum Access {
    Granted,
    Forbidden,
    NotFound,
}

/// The answer to a request for an instance: forbidden without an allowed host;
/// not found for another instance or without a valid session cookie, so that
/// nothing about the instance shows; granted otherwise.
pub open spec fn instance_access_spec(
    allowed: Seq<Seq<char>>,
    host: Option<Seq<char>>,
    path_instance: Seq<char>,
    instance_id: Seq<char>,
    cookie_authorized: bool,
) -> Access {
    if !host_allowed(allowed, host) {
        Access::Forbidden
    } else if path_instance != instance_id || !cookie_authorized {
        Access::NotFound
    } else {
        Access::Granted
    }
}

/// Decides a request for the instance named `path_instance` of the daemon
/// serving `instance_id`, given whether its session cookie was verified.
pub fn instance_access(
    allowed: &Vec<String>,
    host: Option<&str>,
    path_instance: &str,
    instance_id: &str,
    cookie_authorized: bool,
) -> (r: Access)
    ensures
        r == instance_access_spec(texts(allowed@), opt_str(host), path_instance@, instance_id@, cookie_authorized),
{
    if !public_access(allowed, host) {
        Access::Forbidden
    } else if !str_eq(path_instance, instance_id) || !cookie_authorized {
        Access::NotFound
    } else {
        Access::Granted
    }
}

/// Whether a request may change anything: its `Host` header is allowed and its
/// `Origin` header is the page served from that very host.
pub open spec fn mutation_allowed_spec(allowed: Seq<Seq<char>>, host: Option<Seq<char>>, origin: Option<Seq<char>>) -> bool {
    &&& host_allowed(allowed, host)
    &&& origin matches Some(o) && host matches Some(h) && o == "http://"@ + h
}

/// Whether a request may change anything: checked on every request that acts.
pub fn mutation_allowed(allowed: &Vec<String>, host: Option<&str>, origin: Option<&str>) -> (r: bool)
    ensures
        r == mutation_allowed_spec(texts(allowed@), opt_str(host), opt_str(origin)),
{
    match (host, origin) {
        (Some(h), Some(o)) => {
            let mut expected = String::from_str("http://");
            expected.append(h);
            proof {
                reveal_strlit("http://");
            }
            contains_text(allowed, h) && str_eq(o, expected.as_str())
        },
        _ => false,
    }
}

/// A request that may change anything also passes the host check that every
/// request passes.
pub proof fn lemma_mutation_implies_public_access(
    allowed: Seq<Seq<char>>,
    host: Option<Seq<char>>,
    origin: Option<Seq<char>>,
)
    requires
        mutation_allowed_spec(allowed, host, origin),
    ensures
        host_allowed(allowed, host),
{
}

// ---------------------------------------------------------------------------
// Browser requests

/// What the daemon does around a browser's RPC with method `method`: a new turn
/// first needs a healthy account and is tracked for recovery under its thread; a
/// new thread has its working directory resolved.
#[derive(Debug)]
pub struct RpcPlan {
    pub ensure_healthy_account: bool,
    pub resolve_cwd: bool,
    pub recoverable_thread: Option<String>,
}

/// Plans the handling of an RPC from its method, the thread id of its parameters
/// and whether its parameters name a working directory.
pub fn rpc_plan(method: Option<&str>, params_thread_id: Option<&str>, params_has_cwd: bool) -> (plan: RpcPlan)
    ensures
        plan.ensure_healthy_account == (opt_str(method) == Some("turn/start"@)),
        plan.resolve_cwd == (opt_str(method) == Some("thread/start"@) && params_has_cwd),
        opt_text(plan.recoverable_thread) == if opt_str(method) == Some("turn/start"@) {
            opt_str(params_thread_id)
        } else {
            None
        },
{
    let turn_start = match method {
        Some(m) => str_eq(m, "turn/start"),
        None => false,
    };
    let thread_start = match method {
        Some(m) => str_eq(m, "thread/start"),
        None => false,
    };
    let recoverable_thread = if turn_start {
        match params_thread_id {
            Some(t) => Some(String::from_str(t)),
            None => None,
        }
    } else {
        None
    };
    RpcPlan { ensure_healthy_account: turn_start, resolve_cwd: thread_start && params_has_cwd, recoverable_thread }
}

/// The last event a reconnecting browser saw: the `Last-Event-ID` header when it
/// is a number, else the `after` query parameter when it is one.
pub fn last_event_id(header: Option<&str>, query: &str) -> (id: Option<u64>)
    ensures
        id == (match opt_str(header) {
            Some(h) if parse_u64_spec(h) is Some => parse_u64_spec(h),
            _ => match keyed_value(split_spec(query@, '&'), "after"@, false) {
                Some(v) => parse_u64_spec(v),
                None => None,
            },
        }),
{
    match header {
        Some(h) => {
            let chars = chars_of(h);
            match parse_u64(chars.as_slice()) {
                Some(v) => {
                    return Some(v);
                },
                None => {},
            }
        },
        None => {},
    }
    match query_value(query, "after") {
        Some(v) => {
            let chars = chars_of(v.as_str());
            parse_u64(chars.as_slice())
        },
        None => None,
    }
}

/// Whether a byte is an ASCII control character.
pub open spec fn ascii_control(b: u8) -> bool {
    b < 32 || b == 127
}

/// The request forwarded to the local OAuth callback listener on `port`, or
/// `None` when the callback id is malformed or the query holds control
/// characters.
pub fn oauth_callback_request(callback_id: &str, query: &str, port: u16) -> (request: Option<String>)
    ensures
        match request {
            None => !valid_callback_id_spec(callback_id.spec_bytes()) || exists|i: int|
                0 <= i < query.spec_bytes().len() && ascii_control(#[trigger] query.spec_bytes()[i]),
            Some(r) => valid_callback_id_spec(callback_id.spec_bytes()) && (forall|i: int|
                0 <= i < query.spec_bytes().len() ==> !ascii_control(#[trigger] query.spec_bytes()[i]))
                && r@ == "GET /oauth/callback/"@ + callback_id@ + "?"@ + query@
                + " HTTP/1.1\r\nHost: 127.0.0.1:"@ + decimal(port as nat)
                + "\r\nConnection: close\r\n\r\n"@,
        },
{
    if !valid_callback_id(callback_id) {
        return None;
    }
    let bytes = query.as_bytes();
    let mut i: usize = 0;
    while i < bytes.len()
        invariant
            bytes@ == query.spec_bytes(),
            i <= bytes@.len(),
            forall|j: int| 0 <= j < i ==> !ascii_control(#[trigger] bytes@[j]),
        decreases bytes@.len() - i,
    {
        if bytes[i] < 32 || bytes[i] == 127 {
            return None;
        }
        i = i + 1;
    }
    let mut r = String::from_str("GET /oauth/callback/");
    r.append(callback_id);
    r.append("?");
    r.append(query);
    r.append(" HTTP/1.1\r\nHost: 127.0.0.1:");
    let digits = decimal_string(port as u64);
    r.append(digits.as_str());
    r.append("\r\nConnection: close\r\n\r\n");
    Some(r)
}

/// The body of the callback listener's answer: what follows the first blank
/// line, or a notice when there is none.
pub fn oauth_callback_body(answer: &str) -> (body: String)
    ensures
        body@ == (match first_blank_line(answer@) {
            Some(i) => answer@.skip(i + 4),
            None => "MCP OAuth callback returned an invalid response"@,
        }),
{
    let chars = chars_of(answer);
    let mut i: usize = 0;
    while chars.len() >= 4 && i <= chars.len() - 4
        invariant
            chars@ == answer@,
            i <= chars@.len(),
            forall|j: int| 0 <= j < i ==> !#[trigger] blank_line_at(answer@, j),
        decreases chars@.len() - i,
    {
        if chars[i] == '\r' && chars[i + 1] == '\n' && chars[i + 2] == '\r' && chars[i + 3] == '\n' {
            proof {
                lemma_first_blank_line(answer@, i as int);
            }
            return crate::text::string_from_chars(vstd::slice::slice_subrange(chars.as_slice(), i + 4, chars.len()));
        }
        i = i + 1;
    }
    proof {
        assert forall|j: int| 0 <= j < answer@.len() implies !#[trigger] blank_line_at(answer@, j) by {
            if j >= i {
                assert(j + 4 > answer@.len());
            }
        }
        lemma_no_blank_line(answer@);
    }
    String::from_str("MCP OAuth callback returned an invalid response")
}

/// Whether `\r\n\r\n` starts at `i` in `s`.
pub open spec fn blank_line_at(s: Seq<char>, i: int) -> bool {
    0 <= i && i + 4 <= s.len() && s[i] == '\r' && s[i + 1] == '\n' && s[i + 2] == '\r' && s[i + 3]
        == '\n'
}

/// Where the first `\r\n\r\n` of `s` starts.
pub open spec fn first_blank_line(s: Seq<char>) -> Option<int> {
    if exists|i: int| #[trigger] blank_line_at(s, i) {
        Some(choose|i: int| blank_line_at(s, i) && forall|j: int| 0 <= j < i ==> !#[trigger] blank_line_at(s, j))
    } else {
        None
    }
}

proof fn lemma_first_blank_line(s: Seq<char>, i: int)
    requires
        blank_line_at(s, i),
        forall|j: int| 0 <= j < i ==> !#[trigger] blank_line_at(s, j),
    ensures
        first_blank_line(s) == Some(i),
{
    let k = choose|k: int| blank_line_at(s, k) && forall|j: int| 0 <= j < k ==> !#[trigger] blank_line_at(s, j);
    assert(blank_line_at(s, k));
    if k < i {
        assert(!blank_line_at(s, k));
    }
    if k > i {
        assert(!blank_line_at(s, i));
    }
}

proof fn lemma_no_blank_line(s: Seq<char>)
    requires
        forall|j: int| 0 <= j < s.len() ==> !#[trigger] blank_line_at(s, j),
    ensures
        first_blank_line(s) is None,
{
    if exists|i: int| #[trigger] blank_line_at(s, i) {
        let i = choose|i: int| #[trigger] blank_line_at(s, i);
        assert(0 <= i < s.len());
    }
}

/// The turn of a thread that is running: the last one whose status is
/// `inProgress`, given as `(id, status)` pairs in order.
pub fn active_turn_id(turns: &Vec<(String, String)>) -> (id: String)
    ensures
        (exists|k: int| 0 <= k < turns@.len() && (#[trigger] turns@[k]).1@ == "inProgress"@) ==> exists|
            k: int,
        |
            0 <= k < turns@.len() && (#[trigger] turns@[k]).1@ == "inProgress"@ && id@ == turns@[k].0@
                && forall|m: int| k < m < turns@.len() ==> (#[trigger] turns@[m]).1@ != "inProgress"@,
        (forall|k: int| 0 <= k < turns@.len() ==> (#[trigger] turns@[k]).1@ != "inProgress"@) ==> id@
            == Seq::<char>::empty(),
{
    let mut k = turns.len();
    while k > 0
        invariant
            k <= turns@.len(),
            forall|m: int| k <= m < turns@.len() ==> (#[trigger] turns@[m]).1@ != "inProgress"@,
        decreases k,
    {
        k = k - 1;
        if str_eq(turns[k].1.as_str(), "inProgress") {
            return turns[k].0.clone();
        }
    }
    String::new()
}

} // verus!
