//! What the daemon decides as it starts: the port to ask for, the OAuth callback
//! it tells its app-servers about, the host names it answers to, and the links it
//! prints and opens.

use vstd::prelude::*;
use vstd::utf8::encode_utf8;
use crate::daemon_config::opt_text;
use crate::recovery::opt_str;
use crate::server::{ListenAddress, authority, authority_spec, mcp_callback_url, is_callback_choice};
use crate::text::{decimal, decimal_string, chars_of, starts_with};
use crate::bridge::texts;
use crate::auth::{random_token, b64url_encode, b64url_text};
use crate::text::string_from_chars;
use vstd::slice::slice_subrange;

verus! {

/// The port to listen on: the one given on the command line, else the one in the
/// daemon configuration, else any free port (0).
pub fn requested_port(option_port: u16, config_port: Option<u16>) -> (port: u16)
    ensures
        port == (if option_port == 0 {
            match config_port {
                Some(p) => p,
                None => 0,
            }
        } else {
            option_port
        }),
{
    if option_port == 0 {
        match config_port {
            Some(p) => p,
            None => 0,
        }
    } else {
        option_port
    }
}

/// The text that `{:?}` gives for a string: quoted, with special characters
/// escaped.
pub uninterp spec fn debug_quoted(s: Seq<char>) -> Seq<char>;

/// Formats `s` with `{:?}`.
///
/// Trusted: the result is `str`'s `Debug` text of `s`.
#[verifier::external_body]
fn debug_text(s: &str) -> (r: String)
    ensures
        r@ == debug_quoted(s@),
{
    format!("{s:?}")
}

/// The configuration overrides that point app-servers at the OAuth callback:
/// the local port they listen on and the URL published for it.
pub fn callback_overrides(callback_url: &str, callback_port: u16) -> (overrides: Vec<String>)
    ensures
        texts(overrides@) == seq![
            "mcp_oauth_callback_port="@ + decimal(callback_port as nat),
            "mcp_oauth_callback_url="@ + debug_quoted(callback_url@),
        ],
{
    let mut port = String::from_str("mcp_oauth_callback_port=");
    let digits = decimal_string(callback_port as u64);
    port.append(digits.as_str());
    let mut url = String::from_str("mcp_oauth_callback_url=");
    let quoted = debug_text(callback_url);
    url.append(quoted.as_str());
    let mut overrides: Vec<String> = Vec::new();
    overrides.push(port);
    overrides.push(url);
    assert(texts(overrides@) =~= seq![
        "mcp_oauth_callback_port="@ + decimal(callback_port as nat),
        "mcp_oauth_callback_url="@ + debug_quoted(callback_url@),
    ]);
    overrides
}

/// The OAuth callback URL: the configured one, else the one that
/// [`mcp_callback_url`] publishes for the addresses the daemon listens on.
pub fn callback_url(configured: Option<String>, addresses: &Vec<ListenAddress>) -> (url: Option<String>)
    ensures
        configured is Some ==> opt_text(url) == opt_text(configured),
        configured is None ==> is_callback_choice(addresses@, opt_text(url)),
{
    match configured {
        Some(u) => Some(u),
        None => mcp_callback_url(addresses),
    }
}

/// The host names the daemon answers to: the authority of every address it
/// listens on, and `localhost` with the port of the first.
pub fn allowed_authorities(addresses: &Vec<ListenAddress>) -> (names: Vec<String>)
    ensures
        texts(names@) == addresses@.map_values(
            |a: ListenAddress| authority_spec(a.ip@, a.is_ipv6, a.port),
        ) + if addresses@.len() > 0 {
            seq!["localhost:"@ + decimal(addresses@[0].port as nat)]
        } else {
            Seq::empty()
        },
{
    let ghost all = addresses@.map_values(|a: ListenAddress| authority_spec(a.ip@, a.is_ipv6, a.port));
    let mut names: Vec<String> = Vec::new();
    let mut i: usize = 0;
    while i < addresses.len()
        invariant
            all == addresses@.map_values(|a: ListenAddress| authority_spec(a.ip@, a.is_ipv6, a.port)),
            i <= addresses@.len(),
            texts(names@) == all.take(i as int),
        decreases addresses@.len() - i,
    {
        let a = authority(&addresses[i]);
        let ghost before = texts(names@);
        let ghost av = a@;
        assert(all[i as int] == av);
        names.push(a);
        assert(texts(names@) =~= before.push(av));
        assert(all.take(i + 1) =~= all.take(i as int).push(all[i as int]));
        i = i + 1;
    }
    assert(all.take(i as int) =~= all);
    if addresses.len() > 0 {
        let mut local = String::from_str("localhost:");
        let digits = decimal_string(addresses[0].port as u64);
        local.append(digits.as_str());
        let ghost before = texts(names@);
        names.push(local);
        assert(texts(names@) =~= before.push("localhost:"@ + decimal(addresses@[0].port as nat)));
    } else {
        assert(texts(names@) =~= all + Seq::<Seq<char>>::empty());
    }
    names
}

/// Whether a byte is left as it is by percent-encoding: ASCII letters and digits,
/// `-`, `.`, `_` and `~`.
pub open spec fn unreserved_byte(b: u8) -> bool {
    (48 <= b <= 57) || (65 <= b <= 90) || (97 <= b <= 122) || b == 45 || b == 46 || b == 95 || b
        == 126
}

/// The upper-case hexadecimal digit for `d < 16`.
pub open spec fn hex_digit(d: u8) -> char {
    if d < 10 {
        (48 + d) as char
    } else {
        (55 + d) as char
    }
}

/// `bytes` percent-encoded: unreserved bytes as themselves, every other byte as
/// `%` and two upper-case hexadecimal digits.
pub open spec fn percent_encoded(bytes: Seq<u8>) -> Seq<char>
    decreases bytes.len(),
{
    if bytes.len() == 0 {
        Seq::empty()
    } else {
        let b = bytes[0];
        let head = if unreserved_byte(b) {
            seq![b as char]
        } else {
            seq!['%', hex_digit(b / 16), hex_digit(b % 16)]
        };
        head + percent_encoded(bytes.drop_first())
    }
}

/// Calls `urlencoding::encode` on `s`.
///
/// Trusted: as the crate documents and its `encode_into` shows, every byte of the
/// UTF-8 encoding except ASCII letters, digits, `-`, `_`, `.` and `~` becomes `%`
/// and two upper-case hexadecimal digits; the other bytes are kept.
#[verifier::external_body]
fn url_encode(s: &str) -> (r: String)
    ensures
        r@ == percent_encoded(encode_utf8(s@)),
{
    urlencoding::encode(s).into_owned()
}

/// The page the printed links lead to: the dashboard, or, when the daemon was
/// started in a chosen directory, the new-session page for it.
pub fn startup_path(explicit_cwd: Option<&str>) -> (path: String)
    ensures
        path@ == (match opt_str(explicit_cwd) {
            Some(cwd) => "/?returnTo="@ + percent_encoded(
                encode_utf8("/new?cwd="@ + percent_encoded(encode_utf8(cwd))),
            ),
            None => "/"@,
        }),
{
    match explicit_cwd {
        Some(cwd) => {
            let mut return_to = String::from_str("/new?cwd=");
            let encoded = url_encode(cwd);
            return_to.append(encoded.as_str());
            let mut path = String::from_str("/?returnTo=");
            let outer = url_encode(return_to.as_str());
            path.append(outer.as_str());
            path
        },
        None => String::from_str("/"),
    }
}

/// The private links printed at start-up, one per address, carrying the
/// bootstrap token in the fragment.
pub fn startup_urls(addresses: &Vec<ListenAddress>, path: &str, token: &str) -> (urls: Vec<String>)
    ensures
        texts(urls@) == addresses@.map_values(
            |a: ListenAddress| "http://"@ + authority_spec(a.ip@, a.is_ipv6, a.port) + path@
                + "#bootstrap="@ + token@,
        ),
{
    let ghost all = addresses@.map_values(
        |a: ListenAddress| "http://"@ + authority_spec(a.ip@, a.is_ipv6, a.port) + path@ + "#bootstrap="@
            + token@,
    );
    let mut urls: Vec<String> = Vec::new();
    let mut i: usize = 0;
    while i < addresses.len()
        invariant
            all == addresses@.map_values(
                |a: ListenAddress| "http://"@ + authority_spec(a.ip@, a.is_ipv6, a.port) + path@
                    + "#bootstrap="@ + token@,
            ),
            i <= addresses@.len(),
            texts(urls@) == all.take(i as int),
        decreases addresses@.len() - i,
    {
        let mut url = String::from_str("http://");
        let a = authority(&addresses[i]);
        url.append(a.as_str());
        url.append(path);
        url.append("#bootstrap=");
        url.append(token);
        let ghost before = texts(urls@);
        let ghost uv = url@;
        assert(all[i as int] == uv);
        urls.push(url);
        assert(texts(urls@) =~= before.push(uv));
        assert(all.take(i + 1) =~= all.take(i as int).push(all[i as int]));
        i = i + 1;
    }
    assert(all.take(i as int) =~= all);
    urls
}

/// The link opened in the browser: the first one on the IPv4 loopback address.
pub fn browser_url(urls: &Vec<String>) -> (url: Option<usize>)
    ensures
        match url {
            Some(i) => i < urls@.len() && urls@[i as int]@.len() >= "http://127.0.0.1:"@.len()
                && urls@[i as int]@.subrange(0, "http://127.0.0.1:"@.len() as int)
                == "http://127.0.0.1:"@ && forall|j: int|
                0 <= j < i ==> !(urls@[j]@.len() >= "http://127.0.0.1:"@.len() && (#[trigger] urls@[j])@.subrange(
                    0,
                    "http://127.0.0.1:"@.len() as int,
                ) == "http://127.0.0.1:"@),
            None => forall|j: int|
                0 <= j < urls@.len() ==> !(urls@[j]@.len() >= "http://127.0.0.1:"@.len() && (#[trigger] urls@[j])@.subrange(
                    0,
                    "http://127.0.0.1:"@.len() as int,
                ) == "http://127.0.0.1:"@),
        },
{
    let prefix = chars_of("http://127.0.0.1:");
    let mut i: usize = 0;
    while i < urls.len()
        invariant
            prefix@ == "http://127.0.0.1:"@,
            i <= urls@.len(),
            forall|j: int|
                0 <= j < i ==> !(urls@[j]@.len() >= "http://127.0.0.1:"@.len() && (#[trigger] urls@[j])@.subrange(
                    0,
                    "http://127.0.0.1:"@.len() as int,
                ) == "http://127.0.0.1:"@),
        decreases urls@.len() - i,
    {
        let chars = chars_of(urls[i].as_str());
        if starts_with(chars.as_slice(), prefix.as_slice()) {
            return Some(i);
        }
        i = i + 1;
    }
    None
}

/// A fresh instance id: the first sixteen symbols of a random token.
pub fn instance_id() -> (id: String)
    ensures
        id@.len() == 16,
        b64url_text(id@),
        exists|bytes: Seq<u8>| bytes.len() == 32 && id@ == (#[trigger] b64url_encode(bytes)).take(16),
{
    let token = random_token();
    let chars = chars_of(token.as_str());
    let id = string_from_chars(slice_subrange(chars.as_slice(), 0, 16));
    assert(id@ =~= token@.take(16));
    id
}

} // verus!
