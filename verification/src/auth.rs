//! Browser access: the persistent bootstrap token and the signed, expiring
//! session cookies that the bootstrap exchange hands out.
//!
//! A session cookie is `typeduck_codex_web=<expires>.<nonce>.<signature>`, where
//! the signature is the URL-safe, unpadded Base64 of HMAC-SHA256 over
//! `<expires>.<nonce>` keyed with the 32 bytes behind the bootstrap token.

use vstd::prelude::*;

use crate::error::{error_with, ErrorKind, ErrorView, WebError};
use crate::text::{
    all_digits, digits_value, is_digit, lemma_decimal_digits, lemma_index_of_first_is,
    lemma_index_of_first_none, lemma_index_of_last_is, lemma_parse_decimal, trim, trim_end,
    trim_start, white_space, trim_bounds,
    chars_of, decimal, decimal_string, find_keyed_value, keyed_value, parse_u64, parse_u64_spec,
    rfind_char, find_char, rsplit_once_spec, split_once_spec, split_spec, string_from_chars,
};

use base64::Engine;
use hmac::Mac;

verus! {

broadcast use vstd::string::group_string_axioms;

/// Seconds for which a session cookie stays valid (thirty days).
pub open spec fn session_lifetime() -> u64 {
    2592000
}

/// The characters of URL-safe Base64: ASCII letters and digits, `-` and `_`.
pub open spec fn b64url_char(c: char) -> bool {
    ('A' <= c && c <= 'Z') || ('a' <= c && c <= 'z') || ('0' <= c && c <= '9') || c == '-'
        || c == '_'
}

/// Text made only of URL-safe Base64 characters.
pub open spec fn b64url_text(s: Seq<char>) -> bool {
    forall|i: int| 0 <= i < s.len() ==> b64url_char(#[trigger] s[i])
}

/// The URL-safe, unpadded Base64 encoding of `bytes` that
/// `base64::engine::general_purpose::URL_SAFE_NO_PAD.encode` produces.
pub uninterp spec fn b64url_encode(bytes: Seq<u8>) -> Seq<char>;

/// HMAC-SHA256 of `msg` keyed with `key`, as the `hmac` and `sha2` crates compute it.
pub uninterp spec fn hmac_sha256(key: Seq<u8>, msg: Seq<u8>) -> Seq<u8>;

/// Encodes `bytes` with `URL_SAFE_NO_PAD`.
///
/// Trusted: the result is the engine's encoding of `bytes`, and it is made of the
/// URL-safe alphabet only (no padding), as the `base64` crate documents for this
/// engine; without padding, `n` bytes take `ceil(4n/3)` symbols (`encoded_len`).
#[verifier::external_body]
fn encode_b64url(bytes: &[u8]) -> (s: String)
    ensures
        s@ == b64url_encode(bytes@),
        b64url_text(s@),
        s@.len() == (4 * bytes@.len() + 2) / 3,
{
    base64::engine::general_purpose::URL_SAFE_NO_PAD.encode(bytes)
}

/// Decodes `text` with `URL_SAFE_NO_PAD`.
///
/// Trusted: with this engine, decoding rejects padding, symbols outside the
/// alphabet, impossible lengths and non-zero trailing bits (see
/// `engine/general_purpose/decode_suffix.rs`), so it succeeds exactly on the
/// encodings of byte strings and then returns the bytes that were encoded. The
/// error's `Display` text is kept.
#[verifier::external_body]
fn decode_b64url(text: &str) -> (r: Result<Vec<u8>, String>)
    ensures
        r is Ok <==> exists|bytes: Seq<u8>| #[trigger] b64url_encode(bytes) == text@,
        r matches Ok(decoded) ==> b64url_encode(decoded@) == text@ && forall|bytes: Seq<u8>|
            #[trigger] b64url_encode(bytes) == text@ ==> decoded@ == bytes,
{
    base64::engine::general_purpose::URL_SAFE_NO_PAD.decode(text).map_err(|error| error.to_string())
}

/// Computes HMAC-SHA256 over `msg` with `key`.
///
/// Trusted: `Hmac::<Sha256>::new_from_slice` accepts keys of every length (see
/// `hmac-0.12.1/src/optim.rs`), so the result is always present; it is the 32-byte
/// tag that `finalize` gives.
#[verifier::external_body]
fn hmac_sign(key: &[u8], msg: &[u8]) -> (r: Option<Vec<u8>>)
    ensures
        r is Some,
        r matches Some(tag) ==> tag@ == hmac_sha256(key@, msg@) && tag@.len() == 32,
{
    match hmac::Hmac::<sha2::Sha256>::new_from_slice(key) {
        Ok(mut mac) => {
            mac.update(msg);
            Some(mac.finalize().into_bytes().to_vec())
        },
        Err(_) => None,
    }
}

/// Checks `tag` against HMAC-SHA256 over `msg` with `key` using `verify_slice`.
///
/// Trusted: `verify_slice` refuses a tag of another length than the 32-byte output
/// and otherwise compares it with the computed tag (see
/// `digest-0.10.7/src/mac.rs`), so the answer is whether `tag` equals that tag.
#[verifier::external_body]
fn hmac_verify(key: &[u8], msg: &[u8], tag: &[u8]) -> (r: Option<bool>)
    ensures
        r is Some,
        r matches Some(ok) ==> ok == (tag@ == hmac_sha256(key@, msg@)),
{
    match hmac::Hmac::<sha2::Sha256>::new_from_slice(key) {
        Ok(mut mac) => {
            mac.update(msg);
            Some(mac.verify_slice(tag).is_ok())
        },
        Err(_) => None,
    }
}

/// Compares two 32-byte strings with `constant_time_eq::constant_time_eq_32`.
///
/// Trusted: the result is whether the two arrays hold the same bytes.
#[verifier::external_body]
fn equal_in_constant_time(a: &[u8; 32], b: &[u8; 32]) -> (r: bool)
    ensures
        r == (a@ == b@),
{
    constant_time_eq::constant_time_eq_32(a, b)
}

/// Fills 32 bytes from the thread-local generator of `rand`.
///
/// Trusted: nothing is claimed of the bytes.
#[verifier::external_body]
fn random_bytes() -> [u8; 32] {
    let mut bytes = [0_u8; 32];
    rand::RngCore::fill_bytes(&mut rand::rng(), &mut bytes);
    bytes
}

/// Reads the system clock as seconds since the Unix epoch.
///
/// Trusted: nothing is claimed of the time; when the clock is set before the
/// epoch the result is the `Display` text of the `SystemTimeError`, of which
/// nothing is claimed either.
#[verifier::external_body]
fn system_time_secs() -> Result<u64, String> {
    std::time::SystemTime::now()
        .duration_since(std::time::UNIX_EPOCH)
        .map(|duration| duration.as_secs())
        .map_err(|error| error.to_string())
}

/// The current time in seconds since the Unix epoch. What the clock reads is
/// not stated; when it is set before the epoch, the error is of kind `Other`
/// and carries the clock's error text.
pub fn unix_time() -> (r: Result<u64, WebError>)
    ensures
        r matches Err(e) ==> e@.kind == ErrorKind::Other,
{
    match system_time_secs() {
        Ok(now) => Ok(now),
        Err(message) => Err(WebError { kind: ErrorKind::Other, message }),
    }
}

/// A fresh random token: the Base64 of 32 random bytes.
pub fn random_token() -> (token: String)
    ensures
        exists|bytes: Seq<u8>| bytes.len() == 32 && #[trigger] b64url_encode(bytes) == token@,
        b64url_text(token@),
        token@.len() == 43,
{
    let bytes = random_bytes();
    encode_b64url(&bytes)
}

/// The key behind a token: the 32 bytes of which the token is the Base64.
pub fn decode_token(token: &str) -> (r: Result<[u8; 32], WebError>)
    ensures
        match r {
            Ok(key) => b64url_encode(key@) == token@ && forall|bytes: Seq<u8>|
                #[trigger] b64url_encode(bytes) == token@ ==> key@ == bytes,
            Err(_) => !exists|bytes: Seq<u8>|
                bytes.len() == 32 && #[trigger] b64url_encode(bytes) == token@,
        },
        r matches Err(e) ==> (e@.kind == ErrorKind::Other || e@ == (ErrorView {
            kind: ErrorKind::InvalidData,
            message: "browser token must contain 32 bytes"@,
        })),
{
    match decode_b64url(token) {
        Err(message) => {
            Err(WebError { kind: ErrorKind::Other, message })
        },
        Ok(bytes) => {
            if bytes.len() != 32 {
                return Err(
                    error_with(ErrorKind::InvalidData, "browser token must contain 32 bytes"),
                );
            }
            let mut key = [0u8; 32];
            let mut i: usize = 0;
            while i < 32
                invariant
                    bytes@.len() == 32,
                    i <= 32,
                    forall|j: int| 0 <= j < i ==> key@[j] == bytes@[j],
                decreases 32 - i,
            {
                key.set(i, bytes[i]);
                i = i + 1;
            }
            assert(key@ =~= bytes@);
            Ok(key)
        },
    }
}

/// The persistent browser secret: the key and the token that encodes it.
pub struct WebAuth {
    pub key: [u8; 32],
    pub bootstrap_token: String,
}

/// The signed part of a session cookie: `<expires>.<nonce>`.
pub open spec fn cookie_payload(expires: u64, nonce: Seq<char>) -> Seq<char> {
    decimal(expires as nat) + "."@ + nonce
}

/// The signature of a payload.
pub open spec fn cookie_signature(key: Seq<u8>, payload: Seq<char>) -> Seq<char> {
    b64url_encode(hmac_sha256(key, vstd::utf8::encode_utf8(payload)))
}

/// The `name=value` pair of a session cookie.
pub open spec fn cookie_pair(key: Seq<u8>, expires: u64, nonce: Seq<char>) -> Seq<char> {
    "typeduck_codex_web"@ + "="@ + cookie_payload(expires, nonce) + "."@ + cookie_signature(
        key,
        cookie_payload(expires, nonce),
    )
}

/// The `Set-Cookie` value for a session scoped to `path` that expires at `expires`.
pub open spec fn session_cookie_text(
    key: Seq<u8>,
    path: Seq<char>,
    expires: u64,
    nonce: Seq<char>,
) -> Seq<char> {
    cookie_pair(key, expires, nonce) + "; Path="@ + path
        + "; HttpOnly; SameSite=Lax; Max-Age=2592000"@
}

/// The expiry of a cookie issued at `now`.
pub open spec fn expiry_at(now: u64) -> u64 {
    if now + session_lifetime() <= u64::MAX {
        (now + session_lifetime()) as u64
    } else {
        u64::MAX
    }
}

/// The value of the `typeduck_codex_web` cookie in a `Cookie` header.
pub open spec fn session_cookie_value_spec(header: Seq<char>) -> Option<Seq<char>> {
    keyed_value(split_spec(header, ';'), "typeduck_codex_web"@, true)
}

/// Whether a `Cookie` header carries a session cookie that is signed with `key`
/// and has not expired at `now`.
pub open spec fn cookie_authorized(key: Seq<u8>, header: Option<Seq<char>>, now: Option<u64>) -> bool {
    match header {
        None => false,
        Some(h) => match session_cookie_value_spec(h) {
            None => false,
            Some(cookie) => match rsplit_once_spec(cookie, '.') {
                None => false,
                Some((payload, signature)) => match split_once_spec(payload, '.') {
                    None => false,
                    Some((expires, _nonce)) => match parse_u64_spec(expires) {
                        None => false,
                        Some(e) => match now {
                            None => false,
                            Some(n) => n <= e && signature == cookie_signature(key, payload),
                        },
                    },
                },
            },
        },
    }
}

/// The text of an optional header.
pub open spec fn header_text(header: Option<&str>) -> Option<Seq<char>> {
    match header {
        Some(h) => Some(h@),
        None => None,
    }
}

/// The value of the session cookie in a `Cookie` header, if there is one.
pub fn session_cookie_value(header: &str) -> (r: Option<String>)
    ensures
        match r {
            Some(v) => session_cookie_value_spec(header@) == Some(v@),
            None => session_cookie_value_spec(header@) is None,
        },
{
    let chars = chars_of(header);
    let key = chars_of("typeduck_codex_web");
    find_keyed_value(chars.as_slice(), ';', key.as_slice(), true)
}

impl WebAuth {
    /// The token that grants a browser its first session.
    pub fn bootstrap_token(&self) -> (r: &str)
        ensures
            r@ == self.bootstrap_token@,
    {
        self.bootstrap_token.as_str()
    }

    /// Whether `candidate` is the token of this daemon's key.
    pub fn verify_bootstrap(&self, candidate: &str) -> (r: bool)
        ensures
            r == (b64url_encode(self.key@) == candidate@),
    {
        match decode_token(candidate) {
            Ok(key) => {
                let same = equal_in_constant_time(&self.key, &key);
                proof {
                    if b64url_encode(self.key@) == candidate@ {
                        assert(self.key@.len() == 32);
                    }
                }
                same
            },
            Err(_) => {
                assert(self.key@.len() == 32);
                false
            },
        }
    }

    /// The signature of `payload`.
    fn sign(&self, payload: &str) -> (r: Result<String, WebError>)
        ensures
            r is Ok,
            r matches Ok(s) ==> s@ == cookie_signature(self.key@, payload@),
            b64url_text(cookie_signature(self.key@, payload@)),
    {
        match hmac_sign(&self.key, payload.as_bytes()) {
            Some(tag) => Ok(encode_b64url(tag.as_slice())),
            None => Err(error_with(ErrorKind::Other, "could not key the session signature")),
        }
    }

    /// The session cookie issued at `now` with the given nonce, for `path`.
    pub fn session_cookie_at(&self, path: &str, now: u64, nonce: &str) -> (r: Result<
        String,
        WebError,
    >)
        ensures
            r is Ok,
            r matches Ok(c) ==> c@ == session_cookie_text(self.key@, path@, expiry_at(now), nonce@),
            b64url_text(cookie_signature(self.key@, cookie_payload(expiry_at(now), nonce@))),
    {
        let expires = now.saturating_add(2592000);
        let mut payload = decimal_string(expires);
        payload.append(".");
        payload.append(nonce);
        let signature = match self.sign(payload.as_str()) {
            Ok(s) => s,
            Err(e) => {
                return Err(e);
            },
        };
        let mut cookie = String::from_str("typeduck_codex_web");
        cookie.append("=");
        cookie.append(payload.as_str());
        cookie.append(".");
        cookie.append(signature.as_str());
        cookie.append("; Path=");
        cookie.append(path);
        cookie.append("; HttpOnly; SameSite=Lax; Max-Age=2592000");
        Ok(cookie)
    }

    /// A new session cookie for `path`, valid for thirty days from now.
    pub fn session_cookie(&self, path: &str) -> (r: Result<String, WebError>)
        ensures
            r matches Ok(c) ==> exists|now: u64, nonce: Seq<char>|
                b64url_text(nonce) && #[trigger] session_cookie_text(
                    self.key@,
                    path@,
                    expiry_at(now),
                    nonce,
                ) == c@,
            r matches Ok(c) ==> exists|now: u64, bytes: Seq<u8>|
                bytes.len() == 32 && #[trigger] session_cookie_text(
                    self.key@,
                    path@,
                    expiry_at(now),
                    b64url_encode(bytes),
                ) == c@,
            r matches Err(e) ==> e@.kind == ErrorKind::Other,
    {
        let now = match unix_time() {
            Ok(now) => now,
            Err(e) => {
                return Err(e);
            },
        };
        let nonce = random_token();
        let r = self.session_cookie_at(path, now, nonce.as_str());
        proof {
            if r is Ok {
                assert(session_cookie_text(self.key@, path@, expiry_at(now), nonce@) == r->Ok_0@);
                let bytes = choose|bytes: Seq<u8>| bytes.len() == 32 && #[trigger] b64url_encode(bytes) == nonce@;
                assert(session_cookie_text(self.key@, path@, expiry_at(now), b64url_encode(bytes)) == r->Ok_0@);
            }
        }
        r
    }

    /// Whether the `Cookie` header authorizes a request at `now`.
    pub fn authorize_cookie_header_at(&self, cookie_header: Option<&str>, now: Option<u64>) -> (r:
        bool)
        ensures
            r == cookie_authorized(
                self.key@,
                header_text(cookie_header),
                now,
            ),
    {
        let header = match cookie_header {
            Some(h) => h,
            None => {
                return false;
            },
        };
        let cookie = match session_cookie_value(header) {
            Some(c) => c,
            None => {
                return false;
            },
        };
        let chars = chars_of(cookie.as_str());
        let dot = match rfind_char(chars.as_slice(), '.') {
            Some(i) => i,
            None => {
                return false;
            },
        };
        proof {
            chars@.index_of_last_ensures('.');
        }
        assert(dot < chars.len());
        let payload = &chars[0..dot];
        let signature = &chars[dot + 1..chars.len()];
        let first_dot = match find_char(payload, '.') {
            Some(i) => i,
            None => {
                return false;
            },
        };
        proof {
            payload@.index_of_first_ensures('.');
        }
        let expires = match parse_u64(&payload[0..first_dot]) {
            Some(e) => e,
            None => {
                return false;
            },
        };
        let now = match now {
            Some(n) if n <= expires => n,
            _ => {
                return false;
            },
        };
        let signature_text = string_from_chars(signature);
        let tag = match decode_b64url(signature_text.as_str()) {
            Ok(tag) => tag,
            Err(_) => {
                assert(signature@ != cookie_signature(self.key@, payload@));
                return false;
            },
        };
        let payload_text = string_from_chars(payload);
        match hmac_verify(&self.key, payload_text.as_str().as_bytes(), tag.as_slice()) {
            Some(ok) => {
                proof {
                    let expected = hmac_sha256(self.key@, vstd::utf8::encode_utf8(payload@));
                    if signature@ == cookie_signature(self.key@, payload@) {
                        assert(b64url_encode(expected) == signature_text@);
                    }
                }
                ok
            },
            None => false,
        }
    }

    /// Whether the `Cookie` header authorizes a request now.
    pub fn authorize_cookie_header(&self, cookie_header: Option<&str>) -> (r: bool)
        ensures
            r ==> exists|now: u64|
                #[trigger] cookie_authorized(
                    self.key@,
                    header_text(cookie_header),
                    Some(now),
                ),
    {
        let now = match unix_time() {
            Ok(now) => Some(now),
            Err(_) => None,
        };
        self.authorize_cookie_header_at(cookie_header, now)
    }
}

} // verus!

verus! {

/// The `name=value` pair that a browser sends back for a cookie set with `text`:
/// the part before the first `;`.
pub open spec fn request_cookie(text: Seq<char>) -> Seq<char> {
    split_spec(text, ';')[0]
}

proof fn lemma_cookie_pair_parts(key: Seq<u8>, expires: u64, nonce: Seq<char>)
    requires
        b64url_text(nonce),
        b64url_text(cookie_signature(key, cookie_payload(expires, nonce))),
    ensures
        ({
            let payload = cookie_payload(expires, nonce);
            let signature = cookie_signature(key, payload);
            let value = payload + "."@ + signature;
            let pair = cookie_pair(key, expires, nonce);
            &&& pair == "typeduck_codex_web"@ + "="@ + value
            &&& forall|j: int| 0 <= j < pair.len() ==> pair[j] != ';'
            &&& pair.len() > 0 && !white_space(pair[0]) && !white_space(pair.last())
            &&& split_once_spec(pair, '=') == Some(("typeduck_codex_web"@, value))
            &&& rsplit_once_spec(value, '.') == Some((payload, signature))
            &&& split_once_spec(payload, '.') == Some((decimal(expires as nat), nonce))
        }),
{
    reveal_strlit("typeduck_codex_web");
    reveal_strlit("=");
    reveal_strlit(".");
    let name = "typeduck_codex_web"@;
    let digits = decimal(expires as nat);
    lemma_decimal_digits(expires as nat);
    let payload = cookie_payload(expires, nonce);
    let signature = cookie_signature(key, payload);
    let value = payload + "."@ + signature;
    let pair = cookie_pair(key, expires, nonce);
    assert(pair =~= name + "="@ + value);
    assert(payload =~= digits + "."@ + nonce);
    assert forall|j: int| 0 <= j < digits.len() implies digits[j] != '.' && digits[j] != ';'
        && digits[j] != '=' by {
        assert(is_digit(digits[j]));
    }
    assert forall|j: int| 0 <= j < nonce.len() implies nonce[j] != '.' && nonce[j] != ';'
        && nonce[j] != '=' by {
        assert(b64url_char(nonce[j]));
    }
    assert forall|j: int| 0 <= j < signature.len() implies signature[j] != '.'
        && signature[j] != ';' && signature[j] != '=' && !white_space(signature[j]) by {
        assert(b64url_char(signature[j]));
    }
    assert forall|j: int| 0 <= j < pair.len() implies pair[j] != ';' by {
        if j < 18 {
            assert(pair[j] == name[j]);
        } else if j == 18 {
        } else if j < 19 + digits.len() {
            assert(pair[j] == digits[j - 19]);
        } else if j == 19 + digits.len() {
        } else if j < 20 + digits.len() + nonce.len() {
            assert(pair[j] == nonce[j - 20 - digits.len()]);
        } else if j == 20 + digits.len() + nonce.len() {
        } else {
            assert(pair[j] == signature[j - 21 - digits.len() - nonce.len()]);
        }
    }
    if signature.len() > 0 {
        assert(pair.last() == signature.last());
    } else {
        assert(pair.last() == '.');
    }
    lemma_index_of_first_is(pair, '=', 18);
    assert(pair.subrange(0, 18) =~= name);
    assert(pair.subrange(19, pair.len() as int) =~= value);
    lemma_index_of_last_is(value, '.', payload.len() as int);
    assert(value.subrange(0, payload.len() as int) =~= payload);
    assert(value.subrange(payload.len() as int + 1, value.len() as int) =~= signature);
    lemma_index_of_first_is(payload, '.', digits.len() as int);
    assert(payload.subrange(0, digits.len() as int) =~= digits);
    assert(payload.subrange(digits.len() as int + 1, payload.len() as int) =~= nonce);
}

/// A session cookie authorizes the requests that present it until it expires: the
/// pair a browser sends back from a cookie issued with key `key`, path `path`,
/// expiry `expires` and a Base64 nonce is accepted at every time up to `expires`
/// by the same key, and refused after it.
pub proof fn lemma_session_cookie_round_trip(
    key: Seq<u8>,
    path: Seq<char>,
    expires: u64,
    nonce: Seq<char>,
    now: u64,
)
    requires
        b64url_text(nonce),
        b64url_text(cookie_signature(key, cookie_payload(expires, nonce))),
    ensures
        request_cookie(session_cookie_text(key, path, expires, nonce)) == cookie_pair(
            key,
            expires,
            nonce,
        ),
        cookie_authorized(key, Some(cookie_pair(key, expires, nonce)), Some(now)) == (now
            <= expires),
{
    lemma_cookie_pair_parts(key, expires, nonce);
    reveal_strlit("; Path=");
    let pair = cookie_pair(key, expires, nonce);
    let text = session_cookie_text(key, path, expires, nonce);
    assert(text[pair.len() as int] == ';');
    assert forall|j: int| 0 <= j < pair.len() implies text[j] != ';' by {
        assert(text[j] == pair[j]);
    }
    lemma_index_of_first_is(text, ';', pair.len() as int);
    assert(text.subrange(0, pair.len() as int) =~= pair);
    lemma_index_of_first_none(pair, ';');
    assert(split_spec(pair, ';') == seq![pair]);
    assert(trim_start(pair) == pair);
    assert(trim_end(pair) == pair);
    assert(trim(seq![pair][0]) == pair);
    lemma_parse_decimal(expires);
    let payload = cookie_payload(expires, nonce);
    let signature = cookie_signature(key, payload);
    assert(session_cookie_value_spec(pair) == Some(payload + "."@ + signature));
}

/// The token stored in a token file: its contents without surrounding white
/// space, which must be the Base64 of 32 bytes.
pub fn stored_token(contents: &str) -> (r: Result<String, WebError>)
    ensures
        match r {
            Ok(token) => token@ == trim(contents@) && exists|bytes: Seq<u8>|
                bytes.len() == 32 && #[trigger] b64url_encode(bytes) == token@,
            Err(_) => !exists|bytes: Seq<u8>|
                bytes.len() == 32 && #[trigger] b64url_encode(bytes) == trim(contents@),
        },
{
    let chars = chars_of(contents);
    let (start, end) = trim_bounds(chars.as_slice());
    let token = string_from_chars(vstd::slice::slice_subrange(chars.as_slice(), start, end));
    match decode_token(token.as_str()) {
        Ok(key) => {
            assert(b64url_encode(key@) == token@ && key@.len() == 32);
            Ok(token)
        },
        Err(e) => Err(e),
    }
}

/// The contents written to a new token file.
pub fn token_file_contents(token: &str) -> (contents: String)
    ensures
        contents@ == token@ + "\n"@,
{
    let mut contents = String::from_str(token);
    contents.append("\n");
    contents
}

/// No URL-safe Base64 character is white space.
proof fn lemma_b64url_char_not_white(c: char)
    requires
        b64url_char(c),
    ensures
        !white_space(c),
{
    assert(('A' <= c && c <= 'Z') ==> 0x41 <= (c as u32) <= 0x5a);
    assert(('a' <= c && c <= 'z') ==> 0x61 <= (c as u32) <= 0x7a);
    assert(('0' <= c && c <= '9') ==> 0x30 <= (c as u32) <= 0x39);
}

/// A token written to its file reads back unchanged: trimming the file's
/// contents gives the token again.
pub proof fn lemma_token_file_round_trip(token: Seq<char>)
    requires
        b64url_text(token),
    ensures
        trim(token + "\n"@) == token,
{
    reveal_strlit("\n");
    let contents = token + "\n"@;
    assert(white_space('\n'));
    if token.len() == 0 {
        assert(contents =~= seq!['\n']);
        assert(trim_start(contents) == trim_start(contents.drop_first()));
        assert(contents.drop_first() =~= Seq::<char>::empty());
        assert(trim_end(Seq::<char>::empty()) =~= Seq::<char>::empty());
    } else {
        lemma_b64url_char_not_white(token[0]);
        assert(contents[0] == token[0]);
        assert(trim_start(contents) == contents);
        assert(contents.last() == '\n');
        assert(contents.drop_last() =~= token);
        lemma_b64url_char_not_white(token.last());
        assert(trim_end(token) == token);
    }
}

impl WebAuth {
    /// The browser access of a daemon whose bootstrap token is `token`.
    pub fn from_token(token: String) -> (r: Result<WebAuth, WebError>)
        ensures
            match r {
                Ok(auth) => auth.bootstrap_token@ == token@ && b64url_encode(auth.key@) == token@,
                Err(_) => !exists|bytes: Seq<u8>|
                    bytes.len() == 32 && #[trigger] b64url_encode(bytes) == token@,
            },
    {
        match decode_token(token.as_str()) {
            Ok(key) => Ok(WebAuth { key, bootstrap_token: token }),
            Err(e) => Err(e),
        }
    }
}

} // verus!
