//! How the daemon talks to its app-server: the command line and environment it
//! starts it with, the ids of its requests, and where each line it prints goes.

use vstd::prelude::*;
use crate::AppServerCommand;
use crate::recovery::opt_str;
use crate::text::{decimal, decimal_string};
use crate::text_map::TextMap;
use crate::daemon_config::opt_text;

verus! {

/// The process to start for an app-server: the program, its arguments and the
/// environment variables set for it.
#[derive(Debug)]
pub struct LaunchPlan {
    pub program: String,
    pub args: Vec<String>,
    pub env: Vec<(String, String)>,
}

/// The hosts that bypass the proxy.
pub open spec fn no_proxy_hosts() -> Seq<char> {
    "127.0.0.1,localhost,::1"@
}

/// The texts of a list of strings.
pub open spec fn texts(list: Seq<String>) -> Seq<Seq<char>> {
    list.map_values(|s: String| s@)
}

/// The texts of a list of pairs of strings.
pub open spec fn pair_texts(list: Seq<(String, String)>) -> Seq<(Seq<char>, Seq<char>)> {
    list.map_values(|p: (String, String)| (p.0@, p.1@))
}

/// `-c <override>` for each configuration override, in order.
pub open spec fn override_args(overrides: Seq<Seq<char>>) -> Seq<Seq<char>>
    decreases overrides.len(),
{
    if overrides.len() == 0 {
        Seq::empty()
    } else {
        override_args(overrides.drop_last()) + seq!["-c"@, overrides.last()]
    }
}

/// The arguments of an app-server: the hidden subcommand of the standalone
/// binary, or the overrides then `app-server` for the Codex CLI; then
/// `--strict-config` when asked, and, for the standalone binary given an API key,
/// the switch that lets it read the key from its environment.
pub open spec fn launch_args(
    command: AppServerCommand,
    overrides: Seq<Seq<char>>,
    strict_config: bool,
    has_api_key: bool,
) -> Seq<Seq<char>> {
    let base = match command {
        AppServerCommand::Standalone { .. } => seq!["__app-server"@] + override_args(overrides),
        AppServerCommand::CodexCli { .. } => override_args(overrides) + seq!["app-server"@],
    };
    let strict = if strict_config {
        seq!["--strict-config"@]
    } else {
        Seq::empty()
    };
    let key = if has_api_key && command is Standalone {
        seq!["--enable-openai-api-key-env"@]
    } else {
        Seq::empty()
    };
    base + strict + key
}

/// The environment of an app-server: its Codex home, its API key when it has
/// one, and, behind a proxy, the proxy variables in both cases with loopback
/// hosts exempted.
pub open spec fn launch_env(codex_home: Seq<char>, api_key: Option<Seq<char>>, proxy: Option<Seq<char>>) -> Seq<(Seq<char>, Seq<char>)> {
    let home = seq![("CODEX_HOME"@, codex_home)];
    let key = match api_key {
        Some(k) => seq![("OPENAI_API_KEY"@, k)],
        None => Seq::empty(),
    };
    let proxies = match proxy {
        Some(p) => seq![
            ("HTTP_PROXY"@, p),
            ("HTTPS_PROXY"@, p),
            ("ALL_PROXY"@, p),
            ("http_proxy"@, p),
            ("https_proxy"@, p),
            ("all_proxy"@, p),
            ("NO_PROXY"@, no_proxy_hosts()),
            ("no_proxy"@, no_proxy_hosts()),
        ],
        None => Seq::empty(),
    };
    home + key + proxies
}

/// The executable named by a launch command.
pub open spec fn executable_of(command: AppServerCommand) -> Seq<char> {
    match command {
        AppServerCommand::Standalone { executable } => executable@,
        AppServerCommand::CodexCli { executable } => executable@,
    }
}

fn push_pair(env: &mut Vec<(String, String)>, key: &str, value: &str)
    ensures
        pair_texts(final(env)@) == pair_texts(old(env)@).push((key@, value@)),
{
    env.push((String::from_str(key), String::from_str(value)));
    assert(pair_texts(env@) =~= pair_texts(old(env)@).push((key@, value@)));
}

fn push_text(args: &mut Vec<String>, text: &str)
    ensures
        texts(final(args)@) == texts(old(args)@).push(text@),
{
    args.push(String::from_str(text));
    assert(texts(args@) =~= texts(old(args)@).push(text@));
}

fn push_overrides(args: &mut Vec<String>, overrides: &Vec<String>)
    ensures
        texts(final(args)@) == texts(old(args)@) + override_args(texts(overrides@)),
{
    let ghost start = texts(args@);
    let ghost all = texts(overrides@);
    let mut i: usize = 0;
    assert(all.take(0) =~= Seq::<Seq<char>>::empty());
    assert(start + override_args(all.take(0)) =~= start);
    while i < overrides.len()
        invariant
            all == texts(overrides@),
            i <= overrides@.len(),
            texts(args@) == start + override_args(all.take(i as int)),
        decreases overrides@.len() - i,
    {
        push_text(args, "-c");
        push_text(args, overrides[i].as_str());
        proof {
            let taken = all.take(i + 1);
            assert(taken.drop_last() =~= all.take(i as int));
            assert(taken.last() == all[i as int]);
            assert(texts(args@) =~= start + override_args(all.take(i + 1)));
        }
        i = i + 1;
    }
    assert(all.take(i as int) =~= all);
}

/// The process that starts an app-server for a profile with the Codex home
/// `codex_home`, optionally an API key and a proxy.
pub fn app_server_launch(
    command: &AppServerCommand,
    codex_home: &str,
    proxy: Option<&str>,
    api_key: Option<&str>,
    config_overrides: &Vec<String>,
    strict_config: bool,
) -> (plan: LaunchPlan)
    ensures
        plan.program@ == executable_of(*command),
        texts(plan.args@) == launch_args(
            *command,
            texts(config_overrides@),
            strict_config,
            api_key is Some,
        ),
        pair_texts(plan.env@) == launch_env(codex_home@, opt_str(api_key), opt_str(proxy)),
{
    let mut args: Vec<String> = Vec::new();
    let standalone = match command {
        AppServerCommand::Standalone { .. } => true,
        AppServerCommand::CodexCli { .. } => false,
    };
    let program = match command {
        AppServerCommand::Standalone { executable } => executable.clone(),
        AppServerCommand::CodexCli { executable } => executable.clone(),
    };
    let ghost overrides = texts(config_overrides@);
    if standalone {
        push_text(&mut args, "__app-server");
        push_overrides(&mut args, config_overrides);
        assert(texts(args@) =~= seq!["__app-server"@] + override_args(overrides));
    } else {
        push_overrides(&mut args, config_overrides);
        push_text(&mut args, "app-server");
        assert(texts(args@) =~= override_args(overrides) + seq!["app-server"@]);
    }
    let ghost base = texts(args@);
    if strict_config {
        push_text(&mut args, "--strict-config");
    }
    let ghost with_strict = texts(args@);
    if api_key.is_some() && standalone {
        push_text(&mut args, "--enable-openai-api-key-env");
    }
    proof {
        let strict = if strict_config {
            seq!["--strict-config"@]
        } else {
            Seq::<Seq<char>>::empty()
        };
        let key = if api_key is Some && command is Standalone {
            seq!["--enable-openai-api-key-env"@]
        } else {
            Seq::<Seq<char>>::empty()
        };
        assert(with_strict =~= base + strict);
        assert(texts(args@) =~= base + strict + key);
    }
    let mut env: Vec<(String, String)> = Vec::new();
    push_pair(&mut env, "CODEX_HOME", codex_home);
    match api_key {
        Some(k) => push_pair(&mut env, "OPENAI_API_KEY", k),
        None => {},
    }
    let ghost before_proxy = pair_texts(env@);
    match proxy {
        Some(p) => {
            push_pair(&mut env, "HTTP_PROXY", p);
            push_pair(&mut env, "HTTPS_PROXY", p);
            push_pair(&mut env, "ALL_PROXY", p);
            push_pair(&mut env, "http_proxy", p);
            push_pair(&mut env, "https_proxy", p);
            push_pair(&mut env, "all_proxy", p);
            push_pair(&mut env, "NO_PROXY", "127.0.0.1,localhost,::1");
            push_pair(&mut env, "no_proxy", "127.0.0.1,localhost,::1");
        },
        None => {},
    }
    proof {
        let key = match opt_str(api_key) {
            Some(k) => seq![("OPENAI_API_KEY"@, k)],
            None => Seq::<(Seq<char>, Seq<char>)>::empty(),
        };
        assert(before_proxy =~= seq![("CODEX_HOME"@, codex_home@)] + key);
        assert(pair_texts(env@) =~= launch_env(codex_home@, opt_str(api_key), opt_str(proxy)));
    }
    LaunchPlan { program, args, env }
}

/// The id of the `n`-th request the daemon sends.
pub fn request_id(n: u64) -> (id: String)
    ensures
        id@ == "web-"@ + decimal(n as nat),
{
    let mut id = String::from_str("web-");
    let digits = decimal_string(n);
    id.append(digits.as_str());
    id
}

/// Where a line from the app-server goes.
#[derive(Debug, Clone, Copy, PartialEq, Eq, Structural)]
pub enum MessageRoute {
    /// The answer to a request the daemon is waiting on.
    Response,
    /// A request from the app-server: kept until answered, and announced.
    ServerRequest,
    /// Announced to every listener.
    Event,
}

/// Routes a message by whether it has a `method` and an `id`, and whether its id
/// belongs to a request the daemon is waiting on.
pub fn route_message(has_method: bool, has_id: bool, awaited: bool) -> (route: MessageRoute)
    ensures
        route == (if !has_method && has_id && awaited {
            MessageRoute::Response
        } else if has_method && has_id {
            MessageRoute::ServerRequest
        } else {
            MessageRoute::Event
        }),
{
    if !has_method && has_id && awaited {
        MessageRoute::Response
    } else if has_method && has_id {
        MessageRoute::ServerRequest
    } else {
        MessageRoute::Event
    }
}

/// The error a failed request reports: the app-server's message, or a generic
/// one when it gives none.
pub fn request_failure_message(message: Option<&str>) -> (m: String)
    ensures
        m@ == (match opt_str(message) {
            Some(t) => t,
            None => "app-server request failed"@,
        }),
{
    match message {
        Some(t) => String::from_str(t),
        None => String::from_str("app-server request failed"),
    }
}

// ---------------------------------------------------------------------------
// Requests in flight

/// The mathematical content of a [`BridgeBook`]: the number of the next
/// request, the ids of the requests awaiting an answer, and the requests the
/// app-server made that wait for the user, by id, as JSON text.
pub struct BookView {
    pub next_id: u64,
    pub awaited: Set<Seq<char>>,
    pub outstanding: Map<Seq<char>, Seq<char>>,
}

/// The number after `n`, wrapping to 0 past the largest.
pub open spec fn following(n: u64) -> u64 {
    if n == u64::MAX {
        0
    } else {
        (n + 1) as u64
    }
}

/// The book after a request was sent under the next id.
pub open spec fn after_request(v: BookView) -> BookView {
    BookView {
        next_id: following(v.next_id),
        awaited: v.awaited.insert("web-"@ + decimal(v.next_id as nat)),
        outstanding: v.outstanding,
    }
}

/// The book after the daemon stopped waiting for the request `id`.
pub open spec fn after_abandon(v: BookView, id: Seq<char>) -> BookView {
    BookView { awaited: v.awaited.remove(id), ..v }
}

/// Where a line from the app-server goes, by whether it has a method, its id
/// (as a key) if it has one, and what the book awaits.
pub open spec fn line_route(v: BookView, has_method: bool, id: Option<Seq<char>>) -> MessageRoute {
    if !has_method && id is Some && v.awaited.contains(id->0) {
        MessageRoute::Response
    } else if has_method && id is Some {
        MessageRoute::ServerRequest
    } else {
        MessageRoute::Event
    }
}

/// The book after a line from the app-server: an answer is no longer awaited,
/// a request of the app-server is kept until answered.
pub open spec fn after_line(v: BookView, has_method: bool, id: Option<Seq<char>>, message: Seq<char>) -> BookView {
    match line_route(v, has_method, id) {
        MessageRoute::Response => BookView { awaited: v.awaited.remove(id->0), ..v },
        MessageRoute::ServerRequest => BookView { outstanding: v.outstanding.insert(id->0, message), ..v },
        MessageRoute::Event => v,
    }
}

/// The book after the user answered the app-server's request `id`.
pub open spec fn after_answer(v: BookView, id: Option<Seq<char>>) -> BookView {
    match id {
        Some(k) => BookView { outstanding: v.outstanding.remove(k), ..v },
        None => v,
    }
}

/// Whether some key of `m` holds `text`.
pub open spec fn held_value(m: Map<Seq<char>, Seq<char>>, text: Seq<char>) -> bool {
    exists|k: Seq<char>| #[trigger] m.contains_key(k) && m[k] == text
}

/// What `serde_json` finds in a line that the app-server printed: whether it
/// has a `method` member and its `id` as a key (a string id as is, any other
/// id as its JSON text); absent when the line is not JSON.
pub uninterp spec fn json_line_shape(line: Seq<char>) -> Option<(bool, Option<Seq<char>>)>;

/// Parses `line` with `serde_json` and reads its method and id.
///
/// Trusted: the result is [`json_line_shape`] of `line`.
#[verifier::external_body]
fn line_shape(line: &str) -> (r: Option<(bool, Option<String>)>)
    ensures
        match r {
            None => json_line_shape(line@) is None,
            Some((has_method, id)) => json_line_shape(line@) == Some((has_method, opt_text(id))),
        },
{
    let message: serde_json::Value = serde_json::from_str(line).ok()?;
    let id = message.get("id").map(|id| match id {
        serde_json::Value::String(text) => text.clone(),
        other => other.to_string(),
    });
    Some((message.get("method").is_some(), id))
}

/// What the daemon keeps about its link to an app-server.
pub struct BridgeBook {
    next_id: u64,
    awaited: TextMap<()>,
    outstanding: TextMap<String>,
}

impl View for BridgeBook {
    type V = BookView;

    closed spec fn view(&self) -> BookView {
        BookView {
            next_id: self.next_id,
            awaited: self.awaited.view().dom(),
            outstanding: self.outstanding.view().map_values(|s: String| s@),
        }
    }
}

impl BridgeBook {
    /// Whether the maps of the book are well formed.
    pub closed spec fn wf(&self) -> bool {
        self.awaited.wf() && self.outstanding.wf()
    }

    /// A book for a fresh app-server: the first request is number 1.
    pub fn new() -> (book: BridgeBook)
        ensures
            book.wf(),
            book@ == (BookView { next_id: 1, awaited: Set::empty(), outstanding: Map::empty() }),
    {
        let book = BridgeBook { next_id: 1, awaited: TextMap::new(), outstanding: TextMap::new() };
        assert(book@.awaited =~= Set::<Seq<char>>::empty());
        assert(book@.outstanding =~= Map::<Seq<char>, Seq<char>>::empty());
        book
    }

    /// Takes the id of a new request, which is then awaited.
    pub fn begin_request(&mut self) -> (id: String)
        requires
            old(self).wf(),
        ensures
            final(self).wf(),
            id@ == "web-"@ + decimal(old(self)@.next_id as nat),
            final(self)@ == after_request(old(self)@),
    {
        let id = request_id(self.next_id);
        self.next_id = self.next_id.wrapping_add(1);
        self.awaited.insert(id.clone(), ());
        proof {
            assert(self@.awaited =~= old(self)@.awaited.insert(id@));
        }
        id
    }

    /// Stops waiting for the request `id` (it could not be sent, or timed out).
    pub fn abandon(&mut self, id: &str)
        requires
            old(self).wf(),
        ensures
            final(self).wf(),
            final(self)@ == after_abandon(old(self)@, id@),
    {
        self.awaited.remove(id);
        proof {
            assert(self@.awaited =~= old(self)@.awaited.remove(id@));
        }
    }

    /// Takes a line from the app-server, given whether it has a method, its id
    /// (as a key) if it has one, and its JSON text; says where it goes.
    pub fn accept_line(&mut self, has_method: bool, id: Option<&str>, message: String) -> (route: MessageRoute)
        requires
            old(self).wf(),
        ensures
            final(self).wf(),
            route == line_route(old(self)@, has_method, opt_str(id)),
            final(self)@ == after_line(old(self)@, has_method, opt_str(id), message@),
    {
        let awaited = match id {
            Some(k) => self.awaited.contains(k),
            None => false,
        };
        let route = route_message(has_method, id.is_some(), awaited);
        match route {
            MessageRoute::Response => {
                match id {
                    Some(k) => {
                        self.awaited.remove(k);
                        proof {
                            assert(self@.awaited =~= old(self)@.awaited.remove(k@));
                        }
                    },
                    None => {},
                }
            },
            MessageRoute::ServerRequest => {
                match id {
                    Some(k) => {
                        let ghost text = message@;
                        self.outstanding.insert(String::from_str(k), message);
                        proof {
                            assert(self@.outstanding =~= old(self)@.outstanding.insert(k@, text));
                        }
                    },
                    None => {},
                }
            },
            MessageRoute::Event => {},
        }
        route
    }

    /// Forgets the app-server's request `id` once the user answered it.
    pub fn answer(&mut self, id: Option<&str>)
        requires
            old(self).wf(),
        ensures
            final(self).wf(),
            final(self)@ == after_answer(old(self)@, opt_str(id)),
    {
        match id {
            Some(k) => {
                self.outstanding.remove(k);
                proof {
                    assert(self@.outstanding =~= old(self)@.outstanding.remove(k@));
                }
            },
            None => {},
        }
    }

    /// Takes a line that the app-server printed: a line that is not JSON is
    /// ignored; otherwise it goes where [`line_route`] sends it, by whether it
    /// has a method and by its id (see [`json_line_shape`]).
    pub fn handle_line(&mut self, line: String) -> (route: Option<MessageRoute>)
        requires
            old(self).wf(),
        ensures
            final(self).wf(),
            match json_line_shape(line@) {
                None => route is None && final(self)@ == old(self)@,
                Some((has_method, id)) => route == Some(line_route(old(self)@, has_method, id))
                    && final(self)@ == after_line(old(self)@, has_method, id, line@),
            },
    {
        match line_shape(line.as_str()) {
            None => None,
            Some((has_method, key)) => {
                let route = match key {
                    Some(k) => self.accept_line(has_method, Some(k.as_str()), line),
                    None => self.accept_line(has_method, None, line),
                };
                Some(route)
            },
        }
    }

    /// The app-server's requests still waiting for the user.
    pub fn outstanding(&self) -> (requests: Vec<String>)
        requires
            self.wf(),
        ensures
            forall|i: int| 0 <= i < requests@.len() ==> held_value(self@.outstanding, #[trigger] requests@[i]@),
            forall|k: Seq<char>| #[trigger] self@.outstanding.contains_key(k) ==> exists|i: int|
                0 <= i < requests@.len() && requests@[i]@ == self@.outstanding[k],
            requests@.len() == self@.outstanding.dom().len(),
    {
        let entries = self.outstanding.entries();
        let mut requests: Vec<String> = Vec::new();
        let mut i: usize = 0;
        while i < entries.len()
            invariant
                i <= entries@.len(),
                requests@.len() == i,
                forall|j: int| 0 <= j < i ==> (#[trigger] requests@[j])@ == entries@[j].1@,
            decreases entries@.len() - i,
        {
            requests.push(entries[i].1.clone());
            i = i + 1;
        }
        proof {
            let m = self.outstanding.view();
            assert(self@.outstanding.dom() =~= m.dom());
            assert forall|i: int| 0 <= i < requests@.len() implies held_value(self@.outstanding, #[trigger] requests@[i]@) by {
                let k = entries@[i].0@;
                assert(m.contains_key(k) && m[k] == entries@[i].1);
                assert(self@.outstanding.contains_key(k));
                assert(self@.outstanding[k] == m[k]@);
                assert(requests@[i]@ == entries@[i].1@);
            }
            assert forall|k: Seq<char>| #[trigger] self@.outstanding.contains_key(k) implies exists|i: int|
                0 <= i < requests@.len() && requests@[i]@ == self@.outstanding[k] by {
                assert(m.contains_key(k));
                let i = choose|i: int| 0 <= i < entries@.len() && #[trigger] entries@[i].0@ == k;
                assert(requests@[i]@ == entries@[i].1@);
            }
            crate::text_map::lemma_listed_keys_count(entries@, m);
        }
        requests
    }
}

/// An answer settles its request once: after it, the same answer again is no
/// longer routed as an answer.
pub proof fn lemma_answer_settles_once(v: BookView, id: Seq<char>, first: Seq<char>)
    requires
        line_route(v, false, Some(id)) == MessageRoute::Response,
    ensures
        line_route(after_line(v, false, Some(id), first), false, Some(id)) != MessageRoute::Response,
{
}

/// A request of the app-server stays outstanding, unchanged, through every
/// step of the book but the user's answer to it.
pub proof fn lemma_outstanding_until_answered(
    v: BookView,
    k: Seq<char>,
    id: Seq<char>,
    has_method: bool,
    line_id: Option<Seq<char>>,
    message: Seq<char>,
    answered: Option<Seq<char>>,
)
    requires
        v.outstanding.contains_key(k),
        line_id != Some(k),
        answered != Some(k),
    ensures
        after_request(v).outstanding == v.outstanding,
        after_abandon(v, id).outstanding == v.outstanding,
        after_line(v, has_method, line_id, message).outstanding.contains_key(k),
        after_line(v, has_method, line_id, message).outstanding[k] == v.outstanding[k],
        after_answer(v, answered).outstanding.contains_key(k),
        after_answer(v, answered).outstanding[k] == v.outstanding[k],
{
}

} // verus!
