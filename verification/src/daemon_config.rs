//! The daemon configuration: ordered account profiles, proxies, the managed SSH
//! tunnel and the stable MCP OAuth callback. Parsing the TOML file and touching the
//! file system happen around this module; here the parsed values are validated and
//! turned into the configuration the daemon runs with.

use vstd::prelude::*;

use crate::error::{error_with, invalid, invalid_view, ErrorKind, ErrorView, WebError};
use crate::paths::{
    is_absolute, join_path, nonempty_parent_or_dot, parent_of, parent_or_dot, path_is_absolute,
    path_join, path_parent,
};
use crate::text::{chars_of, str_eq, white_space, is_white_space};

verus! {

/// Whether a profile is the normal Codex CLI account or a private fallback.
#[derive(Clone, Copy, Debug, PartialEq, Eq, Structural)]
pub enum AccountRole {
    Fallback,
    Primary,
}

/// One configured account, in fallback order.
#[derive(Clone, Debug, PartialEq, Eq)]
pub struct AccountProfile {
    pub name: String,
    pub label: String,
    pub role: AccountRole,
    pub credential_home: String,
    pub proxy: Option<String>,
    pub use_ssh_tunnel: bool,
}

/// The managed `ssh -N -D` tunnel.
#[derive(Clone, Debug, PartialEq, Eq)]
pub struct SshTunnelConfig {
    pub destination: String,
    pub identity_file: Option<String>,
    pub ssh_port: Option<u16>,
    pub local_port: Option<u16>,
}

/// The configuration the daemon runs with.
#[derive(Clone, Debug, PartialEq, Eq)]
pub struct DaemonConfig {
    pub source_path: String,
    pub codex_home: String,
    pub port: Option<u16>,
    pub mcp_oauth_callback_url: Option<String>,
    pub accounts: Vec<AccountProfile>,
    pub ssh_tunnel: Option<SshTunnelConfig>,
}

/// The `daemon.toml` file as parsed.
#[derive(Clone, Debug, PartialEq, Eq)]
pub struct ConfigFile {
    pub port: Option<u16>,
    pub mcp_oauth_callback_url: Option<String>,
    pub accounts: Vec<AccountFile>,
    pub ssh_tunnel: Option<SshTunnelFile>,
}

/// One `[[accounts]]` entry as parsed.
#[derive(Clone, Debug, PartialEq, Eq)]
pub struct AccountFile {
    pub name: String,
    pub label: Option<String>,
    pub role: Option<AccountRole>,
    pub codex_home: Option<String>,
    pub proxy: Option<String>,
    pub use_ssh_tunnel: bool,
}

/// The `[ssh_tunnel]` table as parsed.
#[derive(Clone, Debug, PartialEq, Eq)]
pub struct SshTunnelFile {
    pub destination: String,
    pub identity_file: Option<String>,
    pub ssh_port: Option<u16>,
    pub local_port: Option<u16>,
}

/// The text of an optional string.
pub open spec fn opt_text(o: Option<String>) -> Option<Seq<char>> {
    match o {
        Some(s) => Some(s@),
        None => None,
    }
}

pub struct AccountProfileView {
    pub name: Seq<char>,
    pub label: Seq<char>,
    pub role: AccountRole,
    pub credential_home: Seq<char>,
    pub proxy: Option<Seq<char>>,
    pub use_ssh_tunnel: bool,
}

pub struct SshTunnelView {
    pub destination: Seq<char>,
    pub identity_file: Option<Seq<char>>,
    pub ssh_port: Option<u16>,
    pub local_port: Option<u16>,
}

pub struct DaemonConfigView {
    pub source_path: Seq<char>,
    pub codex_home: Seq<char>,
    pub port: Option<u16>,
    pub mcp_oauth_callback_url: Option<Seq<char>>,
    pub accounts: Seq<AccountProfileView>,
    pub ssh_tunnel: Option<SshTunnelView>,
}

pub struct AccountFileView {
    pub name: Seq<char>,
    pub label: Option<Seq<char>>,
    pub role: Option<AccountRole>,
    pub codex_home: Option<Seq<char>>,
    pub proxy: Option<Seq<char>>,
    pub use_ssh_tunnel: bool,
}

pub struct ConfigFileView {
    pub port: Option<u16>,
    pub mcp_oauth_callback_url: Option<Seq<char>>,
    pub accounts: Seq<AccountFileView>,
    pub ssh_tunnel: Option<SshTunnelView>,
}

impl View for AccountProfile {
    type V = AccountProfileView;

    open spec fn view(&self) -> AccountProfileView {
        AccountProfileView {
            name: self.name@,
            label: self.label@,
            role: self.role,
            credential_home: self.credential_home@,
            proxy: opt_text(self.proxy),
            use_ssh_tunnel: self.use_ssh_tunnel,
        }
    }
}

impl View for SshTunnelConfig {
    type V = SshTunnelView;

    open spec fn view(&self) -> SshTunnelView {
        SshTunnelView {
            destination: self.destination@,
            identity_file: opt_text(self.identity_file),
            ssh_port: self.ssh_port,
            local_port: self.local_port,
        }
    }
}

impl View for SshTunnelFile {
    type V = SshTunnelView;

    open spec fn view(&self) -> SshTunnelView {
        SshTunnelView {
            destination: self.destination@,
            identity_file: opt_text(self.identity_file),
            ssh_port: self.ssh_port,
            local_port: self.local_port,
        }
    }
}

/// The views of a sequence of profiles.
pub open spec fn profiles_view(accounts: Seq<AccountProfile>) -> Seq<AccountProfileView> {
    accounts.map_values(|a: AccountProfile| a@)
}

/// The view of an optional tunnel.
pub open spec fn tunnel_view(t: Option<SshTunnelConfig>) -> Option<SshTunnelView> {
    match t {
        Some(t) => Some(t@),
        None => None,
    }
}

impl View for DaemonConfig {
    type V = DaemonConfigView;

    open spec fn view(&self) -> DaemonConfigView {
        DaemonConfigView {
            source_path: self.source_path@,
            codex_home: self.codex_home@,
            port: self.port,
            mcp_oauth_callback_url: opt_text(self.mcp_oauth_callback_url),
            accounts: profiles_view(self.accounts@),
            ssh_tunnel: tunnel_view(self.ssh_tunnel),
        }
    }
}

impl View for AccountFile {
    type V = AccountFileView;

    open spec fn view(&self) -> AccountFileView {
        AccountFileView {
            name: self.name@,
            label: opt_text(self.label),
            role: self.role,
            codex_home: opt_text(self.codex_home),
            proxy: opt_text(self.proxy),
            use_ssh_tunnel: self.use_ssh_tunnel,
        }
    }
}

impl View for ConfigFile {
    type V = ConfigFileView;

    open spec fn view(&self) -> ConfigFileView {
        ConfigFileView {
            port: self.port,
            mcp_oauth_callback_url: opt_text(self.mcp_oauth_callback_url),
            accounts: self.accounts@.map_values(|a: AccountFile| a@),
            ssh_tunnel: match self.ssh_tunnel {
                Some(t) => Some(t@),
                None => None,
            },
        }
    }
}

/// A copy of an optional string.
pub fn clone_text(o: &Option<String>) -> (r: Option<String>)
    ensures
        opt_text(r) == opt_text(*o),
{
    match o {
        Some(s) => Some(s.clone()),
        None => None,
    }
}

impl AccountProfile {
    /// A copy of this profile.
    pub fn duplicate(&self) -> (r: AccountProfile)
        ensures
            r@ == self@,
    {
        AccountProfile {
            name: self.name.clone(),
            label: self.label.clone(),
            role: self.role,
            credential_home: self.credential_home.clone(),
            proxy: clone_text(&self.proxy),
            use_ssh_tunnel: self.use_ssh_tunnel,
        }
    }
}

impl SshTunnelConfig {
    /// A copy of this tunnel configuration.
    pub fn duplicate(&self) -> (r: SshTunnelConfig)
        ensures
            r@ == self@,
    {
        SshTunnelConfig {
            destination: self.destination.clone(),
            identity_file: clone_text(&self.identity_file),
            ssh_port: self.ssh_port,
            local_port: self.local_port,
        }
    }
}

/// A copy of a list of profiles.
pub fn duplicate_profiles(accounts: &[AccountProfile]) -> (r: Vec<AccountProfile>)
    ensures
        profiles_view(r@) == profiles_view(accounts@),
{
    let mut r: Vec<AccountProfile> = Vec::new();
    let mut i: usize = 0;
    while i < accounts.len()
        invariant
            i <= accounts@.len(),
            r@.len() == i,
            forall|j: int| 0 <= j < i ==> r@[j]@ == accounts@[j]@,
        decreases accounts@.len() - i,
    {
        r.push(accounts[i].duplicate());
        i = i + 1;
    }
    assert(profiles_view(r@) =~= profiles_view(accounts@));
    r
}

// ---------------------------------------------------------------------------
// Names

/// Characters allowed in an account name: ASCII letters and digits, `-` and `_`.
pub open spec fn name_char(c: char) -> bool {
    ('a' <= c && c <= 'z') || ('A' <= c && c <= 'Z') || ('0' <= c && c <= '9') || c == '-'
        || c == '_'
}

/// An account name is non-empty and made of [`name_char`]s only.
pub open spec fn valid_name_spec(name: Seq<char>) -> bool {
    name.len() > 0 && forall|i: int| 0 <= i < name.len() ==> name_char(name[i])
}

/// Whether `name` may name an account.
pub fn valid_name(name: &str) -> (r: bool)
    ensures
        r == valid_name_spec(name@),
{
    let chars = chars_of(name);
    if chars.len() == 0 {
        return false;
    }
    let mut i: usize = 0;
    while i < chars.len()
        invariant
            chars@ == name@,
            i <= chars@.len(),
            forall|j: int| 0 <= j < i ==> name_char(chars@[j]),
        decreases chars@.len() - i,
    {
        let c = chars[i];
        if !(('a' <= c && c <= 'z') || ('A' <= c && c <= 'Z') || ('0' <= c && c <= '9') || c
            == '-' || c == '_') {
            return false;
        }
        i = i + 1;
    }
    true
}

/// A name between double quotes, as `{:?}` prints a valid account name.
pub open spec fn quoted(name: Seq<char>) -> Seq<char> {
    "\""@ + name + "\""@
}

// ---------------------------------------------------------------------------
// URLs

/// The parts of a parsed URL that the validation reads.
pub struct UrlParts {
    pub scheme: String,
    pub host: Option<String>,
    pub port_or_known_default: Option<u16>,
    pub path: String,
    pub query: Option<String>,
    pub fragment: Option<String>,
}

pub struct UrlPartsView {
    pub scheme: Seq<char>,
    pub host: Option<Seq<char>>,
    pub port_or_known_default: Option<u16>,
    pub path: Seq<char>,
    pub query: Option<Seq<char>>,
    pub fragment: Option<Seq<char>>,
}

impl View for UrlParts {
    type V = UrlPartsView;

    open spec fn view(&self) -> UrlPartsView {
        UrlPartsView {
            scheme: self.scheme@,
            host: opt_text(self.host),
            port_or_known_default: self.port_or_known_default,
            path: self.path@,
            query: opt_text(self.query),
            fragment: opt_text(self.fragment),
        }
    }
}

/// What `url::Url::parse` gives for `input`: the parts of the URL, or the text of
/// the parse error.
pub uninterp spec fn url_parse(input: Seq<char>) -> Result<UrlPartsView, Seq<char>>;

/// Parses `input` with `url::Url::parse`.
///
/// Trusted: the contract claims only that the result is what `url::Url::parse`
/// returns for `input`, with the accessors `scheme`, `host_str`,
/// `port_or_known_default`, `path`, `query` and `fragment` read off a success and
/// the error's `Display` text kept on a failure. What that parse accepts is not
/// restated here.
#[verifier::external_body]
fn parse_url(input: &str) -> (r: Result<UrlParts, String>)
    ensures
        match r {
            Ok(parts) => url_parse(input@) == Ok::<UrlPartsView, Seq<char>>(parts@),
            Err(message) => url_parse(input@) == Err::<UrlPartsView, Seq<char>>(message@),
        },
{
    match url::Url::parse(input) {
        Ok(url) => Ok(UrlParts {
            scheme: url.scheme().to_string(),
            host: url.host_str().map(ToOwned::to_owned),
            port_or_known_default: url.port_or_known_default(),
            path: url.path().to_string(),
            query: url.query().map(ToOwned::to_owned),
            fragment: url.fragment().map(ToOwned::to_owned),
        }),
        Err(error) => Err(error.to_string()),
    }
}

/// Proxy URLs use `http`, `https`, `socks5` or `socks5h` and name a host.
pub open spec fn proxy_error(proxy: Seq<char>) -> Option<ErrorView> {
    match url_parse(proxy) {
        Err(e) => Some(invalid_view("invalid proxy URL: "@ + e)),
        Ok(p) => if !(p.scheme == "http"@ || p.scheme == "https"@ || p.scheme == "socks5"@
            || p.scheme == "socks5h"@) {
            Some(invalid_view("proxy URL scheme must be http, https, socks5, or socks5h"@))
        } else if p.host is None {
            Some(invalid_view("proxy URL must include a host"@))
        } else {
            None
        },
    }
}

/// A proxy URL that parses and names a host is accepted exactly when its scheme
/// is `http`, `https`, `socks5` or `socks5h`; one that does not parse, or names
/// no host, is refused.
pub proof fn lemma_proxy_schemes(proxy: Seq<char>, parts: UrlPartsView)
    ensures
        url_parse(proxy) == Ok::<UrlPartsView, Seq<char>>(parts) && parts.host is Some ==> (
        proxy_error(proxy) is None <==> (parts.scheme == "http"@ || parts.scheme == "https"@
            || parts.scheme == "socks5"@ || parts.scheme == "socks5h"@)),
        url_parse(proxy) == Ok::<UrlPartsView, Seq<char>>(parts) && parts.host is None
            ==> proxy_error(proxy) is Some,
        url_parse(proxy) is Err ==> proxy_error(proxy) is Some,
{
}

/// Checks a proxy URL.
pub fn validate_proxy(proxy: &str) -> (r: Result<(), WebError>)
    ensures
        match proxy_error(proxy@) {
            Some(e) => r is Err && r->Err_0@ == e,
            None => r is Ok,
        },
{
    match parse_url(proxy) {
        Err(message) => {
            let mut text = String::from_str("invalid proxy URL: ");
            text.append(message.as_str());
            Err(invalid(text))
        },
        Ok(parts) => {
            let scheme = parts.scheme.as_str();
            if !(str_eq(scheme, "http") || str_eq(scheme, "https") || str_eq(scheme, "socks5")
                || str_eq(scheme, "socks5h")) {
                Err(
                    error_with(
                        ErrorKind::InvalidData,
                        "proxy URL scheme must be http, https, socks5, or socks5h",
                    ),
                )
            } else if parts.host.is_none() {
                Err(error_with(ErrorKind::InvalidData, "proxy URL must include a host"))
            } else {
                Ok(())
            }
        },
    }
}

/// The MCP OAuth callback uses `http` or `https`, names a host and a port, and ends
/// at `/oauth/callback` without a query or fragment.
pub open spec fn callback_url_error(url: Seq<char>) -> Option<ErrorView> {
    match url_parse(url) {
        Err(e) => Some(invalid_view("invalid MCP OAuth callback URL: "@ + e)),
        Ok(p) => if !(p.scheme == "http"@ || p.scheme == "https"@) {
            Some(invalid_view("MCP OAuth callback URL must use http or https"@))
        } else if p.host is None || p.port_or_known_default is None {
            Some(invalid_view("MCP OAuth callback URL must include a host and port"@))
        } else if p.path != "/oauth/callback"@ || p.query is Some || p.fragment is Some {
            Some(
                invalid_view(
                    "MCP OAuth callback URL must end at /oauth/callback without a query or fragment"@,
                ),
            )
        } else {
            None
        },
    }
}

/// Checks the persistent MCP OAuth callback URL.
pub fn validate_callback_url(url: &str) -> (r: Result<(), WebError>)
    ensures
        match callback_url_error(url@) {
            Some(e) => r is Err && r->Err_0@ == e,
            None => r is Ok,
        },
{
    match parse_url(url) {
        Err(message) => {
            let mut text = String::from_str("invalid MCP OAuth callback URL: ");
            text.append(message.as_str());
            Err(invalid(text))
        },
        Ok(parts) => {
            let scheme = parts.scheme.as_str();
            if !(str_eq(scheme, "http") || str_eq(scheme, "https")) {
                Err(
                    error_with(
                        ErrorKind::InvalidData,
                        "MCP OAuth callback URL must use http or https",
                    ),
                )
            } else if parts.host.is_none() || parts.port_or_known_default.is_none() {
                Err(
                    error_with(
                        ErrorKind::InvalidData,
                        "MCP OAuth callback URL must include a host and port",
                    ),
                )
            } else if !str_eq(parts.path.as_str(), "/oauth/callback") || parts.query.is_some()
                || parts.fragment.is_some() {
                Err(
                    error_with(
                        ErrorKind::InvalidData,
                        "MCP OAuth callback URL must end at /oauth/callback without a query or fragment",
                    ),
                )
            } else {
                Ok(())
            }
        },
    }
}

} // verus!

verus! {

// ---------------------------------------------------------------------------
// Accounts

/// The problem with the account at `i`, given that every account before it passed:
/// an invalid name, a name used before, a relative credential home, an invalid
/// proxy, a proxy together with the tunnel, or the tunnel without `[ssh_tunnel]`.
pub open spec fn account_error(
    accounts: Seq<AccountProfileView>,
    i: int,
    has_tunnel: bool,
) -> Option<ErrorView> {
    let a = accounts[i];
    if !valid_name_spec(a.name) {
        Some(invalid_view("account names may contain only letters, numbers, '-' and '_'"@))
    } else if exists|j: int| 0 <= j < i && #[trigger] accounts[j].name == a.name {
        Some(invalid_view("duplicate account name "@ + quoted(a.name) + ""@))
    } else if !path_is_absolute(a.credential_home) {
        Some(
            invalid_view(
                "credential home for account "@ + quoted(a.name) + " must be absolute"@,
            ),
        )
    } else if a.proxy is Some && proxy_error(a.proxy->0) is Some {
        proxy_error(a.proxy->0)
    } else if a.proxy is Some && a.use_ssh_tunnel {
        Some(
            invalid_view(
                "account "@ + quoted(a.name) + " cannot set both proxy and use_ssh_tunnel"@,
            ),
        )
    } else if a.use_ssh_tunnel && !has_tunnel {
        Some(
            invalid_view(
                "account "@ + quoted(a.name) + " enables the SSH tunnel but [ssh_tunnel] is missing"@,
            ),
        )
    } else {
        None
    }
}

/// The first problem among the accounts from `i` on.
pub open spec fn first_account_error(
    accounts: Seq<AccountProfileView>,
    i: int,
    has_tunnel: bool,
) -> Option<ErrorView>
    decreases accounts.len() - i,
{
    if i < 0 || i >= accounts.len() {
        None
    } else {
        match account_error(accounts, i, has_tunnel) {
            Some(e) => Some(e),
            None => first_account_error(accounts, i + 1, has_tunnel),
        }
    }
}

/// Exactly one profile is primary, and it is the first.
pub open spec fn leading_single_primary(accounts: Seq<AccountProfileView>) -> bool {
    accounts.len() > 0 && accounts[0].role == AccountRole::Primary && forall|j: int|
        1 <= j < accounts.len() ==> #[trigger] accounts[j].role != AccountRole::Primary
}

/// Why a list of profiles cannot be used, if it cannot.
pub open spec fn accounts_error(accounts: Seq<AccountProfileView>, has_tunnel: bool) -> Option<
    ErrorView,
> {
    if accounts.len() == 0 {
        Some(invalid_view("at least one account is required"@))
    } else {
        match first_account_error(accounts, 0, has_tunnel) {
            Some(e) => Some(e),
            None => if leading_single_primary(accounts) {
                None
            } else {
                Some(
                    invalid_view(
                        "accounts must contain exactly one primary profile in the first position"@,
                    ),
                )
            },
        }
    }
}

proof fn lemma_first_account_error_step(accounts: Seq<AccountProfileView>, i: int, has_tunnel: bool)
    requires
        0 <= i < accounts.len(),
        account_error(accounts, i, has_tunnel) is None,
    ensures
        first_account_error(accounts, i, has_tunnel) == first_account_error(
            accounts,
            i + 1,
            has_tunnel,
        ),
{
}

/// The text `prefix "name" suffix`.
fn quoted_message(prefix: &str, name: &str, suffix: &str) -> (r: String)
    ensures
        r@ == prefix@ + quoted(name@) + suffix@,
{
    let mut r = String::from_str(prefix);
    r.append("\"");
    r.append(name);
    r.append("\"");
    r.append(suffix);
    assert(r@ =~= prefix@ + quoted(name@) + suffix@);
    r
}

/// Checks the profiles against each other and against the tunnel.
pub fn validate_accounts(accounts: &[AccountProfile], ssh_tunnel: Option<&SshTunnelConfig>) -> (r:
    Result<(), WebError>)
    ensures
        match accounts_error(profiles_view(accounts@), ssh_tunnel is Some) {
            Some(e) => r is Err && r->Err_0@ == e,
            None => r is Ok,
        },
{
    let ghost view = profiles_view(accounts@);
    let ghost has_tunnel = ssh_tunnel is Some;
    if accounts.len() == 0 {
        return Err(error_with(ErrorKind::InvalidData, "at least one account is required"));
    }
    let mut i: usize = 0;
    while i < accounts.len()
        invariant
            view == profiles_view(accounts@),
            has_tunnel == ssh_tunnel is Some,
            i <= accounts@.len(),
            first_account_error(view, 0, has_tunnel) == first_account_error(view, i as int, has_tunnel),
        decreases accounts@.len() - i,
    {
        let account = &accounts[i];
        assert(view[i as int] == account@);
        if !valid_name(account.name.as_str()) {
            return Err(
                error_with(
                    ErrorKind::InvalidData,
                    "account names may contain only letters, numbers, '-' and '_'",
                ),
            );
        }
        let mut j: usize = 0;
        while j < i
            invariant
                view == profiles_view(accounts@),
                has_tunnel == ssh_tunnel is Some,
                first_account_error(view, 0, has_tunnel) == first_account_error(view, i as int, has_tunnel),
                valid_name_spec(view[i as int].name),
                j <= i < accounts@.len(),
                forall|k: int| 0 <= k < j ==> view[k].name != view[i as int].name,
            decreases i - j,
        {
            if accounts[j].name == accounts[i].name {
                assert(view[j as int].name == view[i as int].name);
                let message = quoted_message("duplicate account name ", accounts[i].name.as_str(), "");
                return Err(invalid(message));
            }
            j = j + 1;
        }
        assert(!exists|k: int| 0 <= k < i && #[trigger] view[k].name == view[i as int].name);
        if !is_absolute(account.credential_home.as_str()) {
            let message = quoted_message(
                "credential home for account ",
                account.name.as_str(),
                " must be absolute",
            );
            return Err(invalid(message));
        }
        match &account.proxy {
            Some(proxy) => {
                match validate_proxy(proxy.as_str()) {
                    Err(e) => {
                        return Err(e);
                    },
                    Ok(()) => {},
                }
            },
            None => {},
        }
        if account.proxy.is_some() && account.use_ssh_tunnel {
            let message = quoted_message(
                "account ",
                account.name.as_str(),
                " cannot set both proxy and use_ssh_tunnel",
            );
            return Err(invalid(message));
        }
        if account.use_ssh_tunnel && ssh_tunnel.is_none() {
            let message = quoted_message(
                "account ",
                account.name.as_str(),
                " enables the SSH tunnel but [ssh_tunnel] is missing",
            );
            return Err(invalid(message));
        }
        proof {
            lemma_first_account_error_step(view, i as int, has_tunnel);
        }
        i = i + 1;
    }
    assert(first_account_error(view, 0, has_tunnel) is None);
    let primary_message =
        "accounts must contain exactly one primary profile in the first position";
    if accounts[0].role != AccountRole::Primary {
        return Err(error_with(ErrorKind::InvalidData, primary_message));
    }
    let mut k: usize = 1;
    while k < accounts.len()
        invariant
            view == profiles_view(accounts@),
            has_tunnel == ssh_tunnel is Some,
            first_account_error(view, 0, has_tunnel) is None,
            view[0].role == AccountRole::Primary,
            1 <= k <= accounts@.len(),
            forall|j: int| 1 <= j < k ==> #[trigger] view[j].role != AccountRole::Primary,
        decreases accounts@.len() - k,
    {
        if accounts[k].role == AccountRole::Primary {
            assert(view[k as int].role == AccountRole::Primary);
            return Err(
                error_with(
                    ErrorKind::InvalidData,
                    "accounts must contain exactly one primary profile in the first position",
                ),
            );
        }
        k = k + 1;
    }
    Ok(())
}

// ---------------------------------------------------------------------------
// The SSH tunnel

/// The tunnel destination is one non-empty SSH argument that does not start with
/// `-`, the ports are non-zero, and the identity file is an absolute path.
pub open spec fn tunnel_error(t: SshTunnelView) -> Option<ErrorView> {
    if t.destination.len() == 0 || t.destination[0] == '-' || (exists|i: int|
        0 <= i < t.destination.len() && white_space(#[trigger] t.destination[i])) {
        Some(invalid_view("ssh_tunnel.destination must be one SSH destination argument"@))
    } else if t.ssh_port == Some(0u16) || t.local_port == Some(0u16) {
        Some(invalid_view("SSH ports must be greater than zero"@))
    } else if t.identity_file is Some && !path_is_absolute(t.identity_file->0) {
        Some(invalid_view("ssh_tunnel.identity_file must be absolute"@))
    } else {
        None
    }
}

fn has_white_space(s: &str) -> (r: bool)
    ensures
        r == exists|i: int| 0 <= i < s@.len() && white_space(#[trigger] s@[i]),
{
    let chars = chars_of(s);
    let mut i: usize = 0;
    while i < chars.len()
        invariant
            chars@ == s@,
            i <= chars@.len(),
            forall|j: int| 0 <= j < i ==> !white_space(#[trigger] chars@[j]),
        decreases chars@.len() - i,
    {
        if is_white_space(chars[i]) {
            return true;
        }
        i = i + 1;
    }
    false
}

impl SshTunnelFile {
    /// Checks the `[ssh_tunnel]` table and turns it into the tunnel configuration.
    pub fn validate(self) -> (r: Result<SshTunnelConfig, WebError>)
        ensures
            match tunnel_error(self@) {
                Some(e) => r is Err && r->Err_0@ == e,
                None => r is Ok && r->Ok_0@ == self@,
            },
    {
        let dest = chars_of(self.destination.as_str());
        if dest.len() == 0 || dest[0] == '-' || has_white_space(self.destination.as_str()) {
            return Err(
                error_with(
                    ErrorKind::InvalidData,
                    "ssh_tunnel.destination must be one SSH destination argument",
                ),
            );
        }
        if self.ssh_port == Some(0u16) || self.local_port == Some(0u16) {
            return Err(error_with(ErrorKind::InvalidData, "SSH ports must be greater than zero"));
        }
        match &self.identity_file {
            Some(path) => {
                if !is_absolute(path.as_str()) {
                    return Err(
                        error_with(
                            ErrorKind::InvalidData,
                            "ssh_tunnel.identity_file must be absolute",
                        ),
                    );
                }
            },
            None => {},
        }
        Ok(
            SshTunnelConfig {
                destination: self.destination,
                identity_file: self.identity_file,
                ssh_port: self.ssh_port,
                local_port: self.local_port,
            },
        )
    }
}

impl SshTunnelConfig {
    /// A tunnel configuration from the values a browser submitted, checked as the
    /// `[ssh_tunnel]` table is.
    pub fn validated(
        destination: String,
        identity_file: Option<String>,
        ssh_port: Option<u16>,
        local_port: Option<u16>,
    ) -> (r: Result<SshTunnelConfig, WebError>)
        ensures
            ({
                let input = SshTunnelView {
                    destination: destination@,
                    identity_file: opt_text(identity_file),
                    ssh_port,
                    local_port,
                };
                match tunnel_error(input) {
                    Some(e) => r is Err && r->Err_0@ == e,
                    None => r is Ok && r->Ok_0@ == input,
                }
            }),
    {
        SshTunnelFile { destination, identity_file, ssh_port, local_port }.validate()
    }
}

// ---------------------------------------------------------------------------
// Paths next to the configuration file

/// Where the private credentials of the profile `name` live: `accounts/<name>`
/// next to the configuration file.
pub open spec fn account_vault_spec(source_path: Seq<char>, name: Seq<char>) -> Seq<char> {
    path_join(path_join(parent_or_dot(source_path), "accounts"@), name)
}

/// The credential directory of the fallback profile `name`.
pub fn account_vault(source_path: &str, name: &str) -> (r: String)
    ensures
        r@ == account_vault_spec(source_path@, name@),
{
    let parent = match parent_of(source_path) {
        Some(parent) => parent,
        None => String::from_str("."),
    };
    let accounts = join_path(parent.as_str(), "accounts");
    join_path(accounts.as_str(), name)
}

/// The default primary profile of a daemon without configured accounts.
pub open spec fn default_profile(codex_home: Seq<char>) -> AccountProfileView {
    AccountProfileView {
        name: "default"@,
        label: "Default"@,
        role: AccountRole::Primary,
        credential_home: codex_home,
        proxy: None,
        use_ssh_tunnel: false,
    }
}

/// The configuration of a daemon with only the normal Codex account.
pub open spec fn single_spec(codex_home: Seq<char>, source_path: Seq<char>) -> DaemonConfigView {
    DaemonConfigView {
        source_path,
        codex_home,
        port: None,
        mcp_oauth_callback_url: None,
        accounts: seq![default_profile(codex_home)],
        ssh_tunnel: None,
    }
}

impl DaemonConfig {
    /// The configuration used when no configuration file exists.
    pub fn single(codex_home: String, source_path: String) -> (r: DaemonConfig)
        ensures
            r@ == single_spec(codex_home@, source_path@),
    {
        let profile = AccountProfile {
            name: String::from_str("default"),
            label: String::from_str("Default"),
            role: AccountRole::Primary,
            credential_home: codex_home.clone(),
            proxy: None,
            use_ssh_tunnel: false,
        };
        let mut accounts: Vec<AccountProfile> = Vec::new();
        accounts.push(profile);
        let r = DaemonConfig {
            source_path,
            codex_home,
            port: None,
            mcp_oauth_callback_url: None,
            accounts,
            ssh_tunnel: None,
        };
        assert(r@.accounts =~= seq![default_profile(codex_home@)]);
        r
    }

    /// Where a fallback profile named `name` keeps its credentials.
    pub fn credential_home(&self, name: &str) -> (r: String)
        ensures
            r@ == account_vault_spec(self.source_path@, name@),
    {
        account_vault(self.source_path.as_str(), name)
    }

    /// Where the restart-recovery state is kept: `recovery.json` next to the
    /// configuration file.
    pub fn recovery_state_path(&self) -> (r: String)
        ensures
            r@ == path_join(nonempty_parent_or_dot(self.source_path@), "recovery.json"@),
    {
        let parent = match parent_of(self.source_path.as_str()) {
            Some(parent) => if parent.as_str().is_empty() {
                String::from_str(".")
            } else {
                parent
            },
            None => String::from_str("."),
        };
        join_path(parent.as_str(), "recovery.json")
    }

    /// Replaces the profiles after checking them; on success gives back the previous
    /// profiles so that a failed write can restore them.
    pub fn save_accounts(&mut self, accounts: Vec<AccountProfile>) -> (r: Result<
        Vec<AccountProfile>,
        WebError,
    >)
        ensures
            match accounts_error(profiles_view(accounts@), old(self).ssh_tunnel is Some) {
                Some(e) => r is Err && r->Err_0@ == e && final(self)@ == old(self)@,
                None => r is Ok && final(self)@ == (DaemonConfigView {
                    accounts: profiles_view(accounts@),
                    ..old(self)@
                }) && profiles_view(r->Ok_0@) == old(self)@.accounts,
            },
    {
        match validate_accounts(accounts.as_slice(), self.ssh_tunnel.as_ref()) {
            Err(e) => Err(e),
            Ok(()) => {
                let mut previous = accounts;
                std::mem::swap(&mut self.accounts, &mut previous);
                Ok(previous)
            },
        }
    }

    /// Puts back profiles that [`DaemonConfig::save_accounts`] replaced.
    pub fn restore_accounts(&mut self, previous: Vec<AccountProfile>)
        ensures
            final(self)@ == (DaemonConfigView {
                accounts: profiles_view(previous@),
                ..old(self)@
            }),
    {
        self.accounts = previous;
    }

    /// Replaces the tunnel after checking the profiles against it; on success gives
    /// back the previous tunnel so that a failed write can restore it.
    pub fn save_ssh_tunnel(&mut self, ssh_tunnel: Option<SshTunnelConfig>) -> (r: Result<
        Option<SshTunnelConfig>,
        WebError,
    >)
        ensures
            match accounts_error(old(self)@.accounts, ssh_tunnel is Some) {
                Some(e) => r is Err && r->Err_0@ == e && final(self)@ == old(self)@,
                None => r is Ok && final(self)@ == (DaemonConfigView {
                    ssh_tunnel: tunnel_view(ssh_tunnel),
                    ..old(self)@
                }) && tunnel_view(r->Ok_0) == old(self)@.ssh_tunnel,
            },
    {
        match validate_accounts(self.accounts.as_slice(), ssh_tunnel.as_ref()) {
            Err(e) => Err(e),
            Ok(()) => {
                let mut previous = ssh_tunnel;
                std::mem::swap(&mut self.ssh_tunnel, &mut previous);
                Ok(previous)
            },
        }
    }

    /// Puts back a tunnel that [`DaemonConfig::save_ssh_tunnel`] replaced.
    pub fn restore_ssh_tunnel(&mut self, previous: Option<SshTunnelConfig>)
        ensures
            final(self)@ == (DaemonConfigView { ssh_tunnel: tunnel_view(previous), ..old(self)@ }),
    {
        self.ssh_tunnel = previous;
    }
}

} // verus!

verus! {

// ---------------------------------------------------------------------------
// The configuration file

/// The role of the account entry at `index`: as written, or primary for the first
/// entry and fallback for the others.
pub open spec fn planned_role(f: AccountFileView, index: int) -> AccountRole {
    match f.role {
        Some(role) => role,
        None => if index == 0 {
            AccountRole::Primary
        } else {
            AccountRole::Fallback
        },
    }
}

/// The profile that the account entry at `index` describes: the label defaults to
/// the name, and a fallback keeps its credentials in its own vault.
pub open spec fn planned_profile(
    f: AccountFileView,
    index: int,
    home: Seq<char>,
    source: Seq<char>,
) -> AccountProfileView {
    let role = planned_role(f, index);
    AccountProfileView {
        name: f.name,
        label: match f.label {
            Some(label) => label,
            None => f.name,
        },
        role,
        credential_home: if role == AccountRole::Primary {
            home
        } else {
            account_vault_spec(source, f.name)
        },
        proxy: f.proxy,
        use_ssh_tunnel: f.use_ssh_tunnel,
    }
}

/// The profiles that the account entries describe, in order.
pub open spec fn planned_profiles(
    files: Seq<AccountFileView>,
    home: Seq<char>,
    source: Seq<char>,
) -> Seq<AccountProfileView> {
    Seq::new(files.len(), |i: int| planned_profile(files[i], i, home, source))
}

/// The port and callback URL checks that come first.
pub open spec fn header_error(f: ConfigFileView) -> Option<ErrorView> {
    if f.port == Some(0u16) {
        Some(invalid_view("daemon port must be greater than zero"@))
    } else if f.mcp_oauth_callback_url is Some && callback_url_error(
        f.mcp_oauth_callback_url->0,
    ) is Some {
        callback_url_error(f.mcp_oauth_callback_url->0)
    } else {
        None
    }
}

/// The tunnel configuration that the `[ssh_tunnel]` table describes.
pub open spec fn planned_tunnel(f: ConfigFileView) -> Option<SshTunnelView> {
    f.ssh_tunnel
}

/// The configuration that a parsed file gives, or why it is refused.
pub open spec fn config_result(f: ConfigFileView, home: Seq<char>, source: Seq<char>) -> Result<
    DaemonConfigView,
    ErrorView,
> {
    if header_error(f) is Some {
        Err(header_error(f)->0)
    } else if f.accounts.len() == 0 {
        Ok(
            DaemonConfigView {
                port: f.port,
                mcp_oauth_callback_url: f.mcp_oauth_callback_url,
                ..single_spec(home, source)
            },
        )
    } else if f.ssh_tunnel is Some && tunnel_error(f.ssh_tunnel->0) is Some {
        Err(tunnel_error(f.ssh_tunnel->0)->0)
    } else {
        let profiles = planned_profiles(f.accounts, home, source);
        match accounts_error(profiles, f.ssh_tunnel is Some) {
            Some(e) => Err(e),
            None => Ok(
                DaemonConfigView {
                    source_path: source,
                    codex_home: home,
                    port: f.port,
                    mcp_oauth_callback_url: f.mcp_oauth_callback_url,
                    accounts: profiles,
                    ssh_tunnel: f.ssh_tunnel,
                },
            ),
        }
    }
}

/// A copy of `(legacy home, credential home)` for each fallback entry with a
/// `codex_home`, among the first `n` entries, in order.
pub open spec fn legacy_imports_upto(
    files: Seq<AccountFileView>,
    n: int,
    source: Seq<char>,
) -> Seq<(Seq<char>, Seq<char>)>
    decreases n,
{
    if n <= 0 {
        seq![]
    } else {
        let f = files[n - 1];
        let earlier = legacy_imports_upto(files, n - 1, source);
        if planned_role(f, n - 1) == AccountRole::Fallback && f.codex_home is Some {
            earlier.push((f.codex_home->0, account_vault_spec(source, f.name)))
        } else {
            earlier
        }
    }
}

/// The views of a list of path pairs.
pub open spec fn pairs_view(pairs: Seq<(String, String)>) -> Seq<(Seq<char>, Seq<char>)> {
    pairs.map_values(|p: (String, String)| (p.0@, p.1@))
}

fn planned_role_exec(f: &AccountFile, index: usize) -> (r: AccountRole)
    ensures
        r == planned_role(f@, index as int),
{
    match f.role {
        Some(role) => role,
        None => if index == 0 {
            AccountRole::Primary
        } else {
            AccountRole::Fallback
        },
    }
}

impl ConfigFile {
    /// Checks the port and the MCP OAuth callback URL.
    pub fn check_header(&self) -> (r: Result<(), WebError>)
        ensures
            match header_error(self@) {
                Some(e) => r is Err && r->Err_0@ == e,
                None => r is Ok,
            },
    {
        if self.port == Some(0u16) {
            return Err(error_with(ErrorKind::InvalidData, "daemon port must be greater than zero"));
        }
        match &self.mcp_oauth_callback_url {
            Some(url) => validate_callback_url(url.as_str()),
            None => Ok(()),
        }
    }

    /// The legacy credentials to copy before the configuration is used: for each
    /// fallback entry with a `codex_home`, its `auth.json` directory and the vault
    /// it moves to, in file order.
    pub fn legacy_imports(&self, source_path: &str) -> (r: Vec<(String, String)>)
        ensures
            pairs_view(r@) == legacy_imports_upto(
                self@.accounts,
                self@.accounts.len() as int,
                source_path@,
            ),
    {
        let ghost files = self@.accounts;
        let mut r: Vec<(String, String)> = Vec::new();
        let mut i: usize = 0;
        while i < self.accounts.len()
            invariant
                files == self@.accounts,
                i <= files.len(),
                pairs_view(r@) == legacy_imports_upto(files, i as int, source_path@),
            decreases files.len() - i,
        {
            let f = &self.accounts[i];
            assert(files[i as int] == f@);
            let role = planned_role_exec(f, i);
            if role == AccountRole::Fallback {
                match &f.codex_home {
                    Some(legacy) => {
                        let vault = account_vault(source_path, f.name.as_str());
                        let ghost before = r@;
                        r.push((legacy.clone(), vault));
                        assert(pairs_view(r@) =~= pairs_view(before).push(
                            (legacy@, account_vault_spec(source_path@, f@.name)),
                        ));
                    },
                    None => {},
                }
            }
            i = i + 1;
        }
        r
    }

    /// Turns the parsed file into the daemon configuration, checking it.
    pub fn validate(self, default_home: String, source_path: String) -> (r: Result<
        DaemonConfig,
        WebError,
    >)
        ensures
            match config_result(self@, default_home@, source_path@) {
                Ok(config) => r is Ok && r->Ok_0@ == config,
                Err(e) => r is Err && r->Err_0@ == e,
            },
    {
        let ghost file = self@;
        match self.check_header() {
            Err(e) => {
                return Err(e);
            },
            Ok(()) => {},
        }
        if self.accounts.len() == 0 {
            let mut config = DaemonConfig::single(default_home, source_path);
            config.port = self.port;
            config.mcp_oauth_callback_url = self.mcp_oauth_callback_url;
            return Ok(config);
        }
        let ssh_tunnel = match self.ssh_tunnel {
            Some(t) => match t.validate() {
                Ok(config) => Some(config),
                Err(e) => {
                    return Err(e);
                },
            },
            None => None,
        };
        let mut accounts: Vec<AccountProfile> = Vec::new();
        let ghost profiles = planned_profiles(file.accounts, default_home@, source_path@);
        let mut i: usize = 0;
        while i < self.accounts.len()
            invariant
                file == self@,
                file.accounts == self.accounts@.map_values(|a: AccountFile| a@),
                profiles == planned_profiles(file.accounts, default_home@, source_path@),
                i <= self.accounts@.len(),
                accounts@.len() == i,
                forall|j: int| 0 <= j < i ==> #[trigger] accounts@[j]@ == profiles[j],
            decreases self.accounts@.len() - i,
        {
            let f = &self.accounts[i];
            assert(file.accounts[i as int] == f@);
            let role = planned_role_exec(f, i);
            let credential_home = if role == AccountRole::Primary {
                default_home.clone()
            } else {
                account_vault(source_path.as_str(), f.name.as_str())
            };
            let label = match &f.label {
                Some(label) => label.clone(),
                None => f.name.clone(),
            };
            accounts.push(
                AccountProfile {
                    name: f.name.clone(),
                    label,
                    role,
                    credential_home,
                    proxy: clone_text(&f.proxy),
                    use_ssh_tunnel: f.use_ssh_tunnel,
                },
            );
            i = i + 1;
        }
        assert(profiles_view(accounts@) =~= profiles);
        match validate_accounts(accounts.as_slice(), ssh_tunnel.as_ref()) {
            Err(e) => Err(e),
            Ok(()) => Ok(
                DaemonConfig {
                    source_path,
                    codex_home: default_home,
                    port: self.port,
                    mcp_oauth_callback_url: self.mcp_oauth_callback_url,
                    accounts,
                    ssh_tunnel,
                },
            ),
        }
    }
}

} // verus!

verus! {

// ---------------------------------------------------------------------------
// What every accepted configuration satisfies

/// The profiles are usable together: at least one, the first and only the first
/// is primary, names are valid and distinct, credential homes are absolute,
/// proxies are valid, no profile sets both a proxy and the tunnel, and a profile
/// uses the tunnel only when one is configured.
pub open spec fn accounts_wf(accounts: Seq<AccountProfileView>, has_tunnel: bool) -> bool {
    &&& leading_single_primary(accounts)
    &&& forall|i: int| 0 <= i < accounts.len() ==> valid_name_spec(#[trigger] accounts[i].name)
    &&& forall|i: int, j: int|
        0 <= i < j < accounts.len() ==> #[trigger] accounts[i].name != #[trigger] accounts[j].name
    &&& forall|i: int|
        0 <= i < accounts.len() ==> path_is_absolute(#[trigger] accounts[i].credential_home)
    &&& forall|i: int|
        0 <= i < accounts.len() && #[trigger] accounts[i].proxy is Some ==> proxy_error(
            accounts[i].proxy->0,
        ) is None && !accounts[i].use_ssh_tunnel
    &&& forall|i: int|
        0 <= i < accounts.len() && #[trigger] accounts[i].use_ssh_tunnel ==> has_tunnel
}

/// The configuration is usable: its profiles are, and its tunnel passes its checks.
pub open spec fn config_wf(c: DaemonConfigView) -> bool {
    &&& accounts_wf(c.accounts, c.ssh_tunnel is Some)
    &&& c.ssh_tunnel is Some ==> tunnel_error(c.ssh_tunnel->0) is None
}

proof fn lemma_no_account_error_from(accounts: Seq<AccountProfileView>, i: int, has_tunnel: bool)
    requires
        0 <= i <= accounts.len(),
        first_account_error(accounts, i, has_tunnel) is None,
    ensures
        forall|k: int| i <= k < accounts.len() ==> account_error(accounts, k, has_tunnel) is None,
    decreases accounts.len() - i,
{
    if i < accounts.len() {
        lemma_no_account_error_from(accounts, i + 1, has_tunnel);
    }
}

/// Profiles that pass [`validate_accounts`] are well formed.
pub proof fn lemma_accepted_accounts_wf(accounts: Seq<AccountProfileView>, has_tunnel: bool)
    requires
        accounts_error(accounts, has_tunnel) is None,
    ensures
        accounts_wf(accounts, has_tunnel),
{
    lemma_no_account_error_from(accounts, 0, has_tunnel);
    assert forall|i: int, j: int|
        0 <= i < j < accounts.len() implies #[trigger] accounts[i].name
        != #[trigger] accounts[j].name by {
        assert(account_error(accounts, j, has_tunnel) is None);
    }
    assert forall|i: int| 0 <= i < accounts.len() implies valid_name_spec(
        #[trigger] accounts[i].name,
    ) by {
        assert(account_error(accounts, i, has_tunnel) is None);
    }
    assert forall|i: int| 0 <= i < accounts.len() implies path_is_absolute(
        #[trigger] accounts[i].credential_home,
    ) by {
        assert(account_error(accounts, i, has_tunnel) is None);
    }
    assert forall|i: int|
        0 <= i < accounts.len() && #[trigger] accounts[i].proxy is Some implies proxy_error(
        accounts[i].proxy->0,
    ) is None && !accounts[i].use_ssh_tunnel by {
        assert(account_error(accounts, i, has_tunnel) is None);
    }
    assert forall|i: int|
        0 <= i < accounts.len() && #[trigger] accounts[i].use_ssh_tunnel implies has_tunnel by {
        assert(account_error(accounts, i, has_tunnel) is None);
    }
}

/// Every configuration file that the daemon accepts gives a well-formed
/// configuration: exactly one primary profile, in the first position, with
/// distinct valid names, absolute credential homes, valid proxies and a tunnel
/// for every profile that uses it.
///
/// A file without accounts gets the default profile, whose credential home is the
/// daemon's Codex home; the law needs that home to be absolute.
pub proof fn lemma_loaded_config_wf(f: ConfigFileView, home: Seq<char>, source: Seq<char>)
    requires
        config_result(f, home, source) is Ok,
        path_is_absolute(home),
    ensures
        config_wf(config_result(f, home, source)->Ok_0),
{
    if header_error(f) is None && f.accounts.len() != 0 {
        lemma_accepted_accounts_wf(planned_profiles(f.accounts, home, source), f.ssh_tunnel is Some);
    } else {
        reveal_strlit("default");
        let c = config_result(f, home, source)->Ok_0;
        assert(c.accounts =~= seq![default_profile(home)]);
        assert(valid_name_spec("default"@));
    }
}

/// The primary profile of an accepted file shares the daemon's Codex home, and
/// every fallback profile keeps its credentials in its own vault next to the file.
pub proof fn lemma_loaded_credential_homes(f: ConfigFileView, home: Seq<char>, source: Seq<char>)
    requires
        config_result(f, home, source) is Ok,
        f.accounts.len() > 0,
    ensures
        ({
            let c = config_result(f, home, source)->Ok_0;
            forall|i: int|
                0 <= i < c.accounts.len() ==> #[trigger] c.accounts[i].credential_home == (
                if c.accounts[i].role == AccountRole::Primary {
                    home
                } else {
                    account_vault_spec(source, c.accounts[i].name)
                })
        }),
{
}

/// A tunnel that some profile uses cannot be removed, and saving a tunnel keeps
/// every profile.
pub proof fn lemma_assigned_tunnel_is_protected(c: DaemonConfigView, i: int)
    requires
        0 <= i < c.accounts.len(),
        c.accounts[i].use_ssh_tunnel,
    ensures
        accounts_error(c.accounts, false) is Some,
{
    if accounts_error(c.accounts, false) is None {
        lemma_accepted_accounts_wf(c.accounts, false);
        assert(c.accounts[i].use_ssh_tunnel);
    }
}

/// Saving profiles or a tunnel keeps the configuration well formed.
pub proof fn lemma_saved_config_wf(c: DaemonConfigView, accounts: Seq<AccountProfileView>, tunnel: Option<SshTunnelView>)
    requires
        accounts_error(accounts, tunnel is Some) is None,
        tunnel is Some ==> tunnel_error(tunnel->0) is None,
    ensures
        config_wf(DaemonConfigView { accounts, ssh_tunnel: tunnel, ..c }),
{
    lemma_accepted_accounts_wf(accounts, tunnel is Some);
}

} // verus!

verus! {

// ---------------------------------------------------------------------------
// What saving writes

/// The `[[accounts]]` entry that saving writes for a profile: its name, label,
/// role, proxy and tunnel flag. The credential home is not written; loading puts
/// it back from the role.
pub open spec fn saved_account(a: AccountProfileView) -> AccountFileView {
    AccountFileView {
        name: a.name,
        label: Some(a.label),
        role: Some(a.role),
        codex_home: None,
        proxy: a.proxy,
        use_ssh_tunnel: a.use_ssh_tunnel,
    }
}

/// What saving a configuration writes to `daemon.toml`: the port, the callback
/// URL, an entry for each profile in order, and the tunnel.
pub open spec fn saved_file(c: DaemonConfigView) -> ConfigFileView {
    ConfigFileView {
        port: c.port,
        mcp_oauth_callback_url: c.mcp_oauth_callback_url,
        accounts: c.accounts.map_values(|a: AccountProfileView| saved_account(a)),
        ssh_tunnel: c.ssh_tunnel,
    }
}

impl DaemonConfig {
    /// The contents of `daemon.toml` that saving this configuration writes.
    pub fn to_file(&self) -> (f: ConfigFile)
        ensures
            f@ == saved_file(self@),
    {
        let ghost c = self@;
        let mut accounts: Vec<AccountFile> = Vec::new();
        let mut i: usize = 0;
        while i < self.accounts.len()
            invariant
                c == self@,
                i <= self.accounts@.len(),
                accounts@.len() == i,
                forall|j: int| 0 <= j < i ==> #[trigger] accounts@[j]@ == saved_account(c.accounts[j]),
            decreases self.accounts@.len() - i,
        {
            let a = &self.accounts[i];
            assert(c.accounts[i as int] == a@);
            accounts.push(
                AccountFile {
                    name: a.name.clone(),
                    label: Some(a.label.clone()),
                    role: Some(a.role),
                    codex_home: None,
                    proxy: clone_text(&a.proxy),
                    use_ssh_tunnel: a.use_ssh_tunnel,
                },
            );
            i = i + 1;
        }
        let ssh_tunnel = match &self.ssh_tunnel {
            Some(t) => Some(
                SshTunnelFile {
                    destination: t.destination.clone(),
                    identity_file: clone_text(&t.identity_file),
                    ssh_port: t.ssh_port,
                    local_port: t.local_port,
                },
            ),
            None => None,
        };
        let f = ConfigFile {
            port: self.port,
            mcp_oauth_callback_url: clone_text(&self.mcp_oauth_callback_url),
            accounts,
            ssh_tunnel,
        };
        assert(f@.accounts =~= saved_file(c).accounts);
        f
    }
}

proof fn lemma_wf_accounts_pass_from(accounts: Seq<AccountProfileView>, i: int, has_tunnel: bool)
    requires
        accounts_wf(accounts, has_tunnel),
        0 <= i <= accounts.len(),
    ensures
        first_account_error(accounts, i, has_tunnel) is None,
    decreases accounts.len() - i,
{
    if i < accounts.len() {
        lemma_wf_accounts_pass_from(accounts, i + 1, has_tunnel);
        assert(valid_name_spec(accounts[i].name));
        assert(path_is_absolute(accounts[i].credential_home));
        if exists|j: int| 0 <= j < i && #[trigger] accounts[j].name == accounts[i].name {
            let j = choose|j: int| 0 <= j < i && #[trigger] accounts[j].name == accounts[i].name;
            assert(accounts[j].name != accounts[i].name);
        }
        if accounts[i].proxy is Some {
            assert(proxy_error(accounts[i].proxy->0) is None);
        }
        if accounts[i].use_ssh_tunnel {
            assert(has_tunnel);
        }
    }
}

/// Well-formed profiles pass [`validate_accounts`]: the converse of
/// [`lemma_accepted_accounts_wf`].
pub proof fn lemma_wf_accounts_accepted(accounts: Seq<AccountProfileView>, has_tunnel: bool)
    requires
        accounts_wf(accounts, has_tunnel),
    ensures
        accounts_error(accounts, has_tunnel) is None,
{
    lemma_wf_accounts_pass_from(accounts, 0, has_tunnel);
}

/// Loading back the file that saving a configuration writes gives that same
/// configuration: its port, its callback URL, every profile in order and its
/// tunnel. This holds of every configuration that loading or saving produces:
/// its port is not zero, its callback URL passes its check, it is well formed,
/// and each credential home is where loading puts it (the primary's is the
/// Codex home, a fallback's is its vault next to the file).
pub proof fn lemma_saved_file_loads_back(c: DaemonConfigView)
    requires
        c.port != Some(0u16),
        c.mcp_oauth_callback_url is Some ==> callback_url_error(c.mcp_oauth_callback_url->0) is None,
        config_wf(c),
        forall|i: int|
            0 <= i < c.accounts.len() ==> #[trigger] c.accounts[i].credential_home == (
            if c.accounts[i].role == AccountRole::Primary {
                c.codex_home
            } else {
                account_vault_spec(c.source_path, c.accounts[i].name)
            }),
    ensures
        config_result(saved_file(c), c.codex_home, c.source_path) == Ok::<DaemonConfigView, ErrorView>(c),
{
    let f = saved_file(c);
    let profiles = planned_profiles(f.accounts, c.codex_home, c.source_path);
    assert forall|i: int| 0 <= i < c.accounts.len() implies #[trigger] profiles[i] == c.accounts[i] by {
        assert(f.accounts[i] == saved_account(c.accounts[i]));
        assert(planned_role(f.accounts[i], i) == c.accounts[i].role);
        assert(profiles[i] == planned_profile(f.accounts[i], i, c.codex_home, c.source_path));
        let a = c.accounts[i];
        assert(a.credential_home == (if a.role == AccountRole::Primary {
            c.codex_home
        } else {
            account_vault_spec(c.source_path, a.name)
        }));
    }
    assert(profiles =~= c.accounts);
    lemma_wf_accounts_accepted(c.accounts, c.ssh_tunnel is Some);
    assert(header_error(f) is None);
}

/// Saving profiles (with [`DaemonConfig::save_accounts`]) or a tunnel (with
/// [`DaemonConfig::save_ssh_tunnel`]) and loading the written file back gives the
/// saved profiles and tunnel, with the port and the callback URL unchanged. The
/// profiles keep their credentials where loading puts them.
pub proof fn lemma_saved_changes_load_back(
    c: DaemonConfigView,
    accounts: Seq<AccountProfileView>,
    tunnel: Option<SshTunnelView>,
)
    requires
        c.port != Some(0u16),
        c.mcp_oauth_callback_url is Some ==> callback_url_error(c.mcp_oauth_callback_url->0) is None,
        accounts_error(accounts, tunnel is Some) is None,
        tunnel is Some ==> tunnel_error(tunnel->0) is None,
        forall|i: int|
            0 <= i < accounts.len() ==> #[trigger] accounts[i].credential_home == (
            if accounts[i].role == AccountRole::Primary {
                c.codex_home
            } else {
                account_vault_spec(c.source_path, accounts[i].name)
            }),
    ensures
        config_result(
            saved_file(DaemonConfigView { accounts, ssh_tunnel: tunnel, ..c }),
            c.codex_home,
            c.source_path,
        ) == Ok::<DaemonConfigView, ErrorView>(DaemonConfigView { accounts, ssh_tunnel: tunnel, ..c }),
{
    let saved = DaemonConfigView { accounts, ssh_tunnel: tunnel, ..c };
    lemma_saved_config_wf(c, accounts, tunnel);
    lemma_saved_file_loads_back(saved);
}

} // verus!
