//! Markdown rendered to HTML by `pulldown_cmark`, under the safety rules of the
//! transcript: raw HTML is shown as text, link and image destinations with
//! script-bearing schemes are emptied, and external links open in a new tab
//! without access to the opener.

use vstd::prelude::*;
use pulldown_cmark::{Event, Options, Parser, Tag};
use crate::text::{chars_of, string_from_chars, trim, trim_bounds, starts_with};

verus! {

/// `c` in lower case when it is an ASCII capital letter.
pub open spec fn ascii_lower(c: char) -> char {
    if 'A' <= c && c <= 'Z' {
        ((c as u32) + 32) as char
    } else {
        c
    }
}

/// `s` with its ASCII capital letters in lower case.
pub open spec fn ascii_lowercase(s: Seq<char>) -> Seq<char> {
    s.map_values(|c: char| ascii_lower(c))
}

/// Whether `s` begins with `prefix`.
pub open spec fn has_prefix(s: Seq<char>, prefix: Seq<char>) -> bool {
    prefix.len() <= s.len() && s.subrange(0, prefix.len() as int) == prefix
}

/// A destination whose scheme can run script: `javascript:`, `data:` or
/// `vbscript:`, ignoring surrounding white space and ASCII case.
pub open spec fn unsafe_destination(destination: Seq<char>) -> bool {
    let normalized = ascii_lowercase(trim(destination));
    has_prefix(normalized, "javascript:"@) || has_prefix(normalized, "data:"@) || has_prefix(
        normalized,
        "vbscript:"@,
    )
}

fn lower(c: char) -> (r: char)
    ensures
        r == ascii_lower(c),
{
    if 'A' <= c && c <= 'Z' {
        let v: u32 = (c as u32) + 32;
        assert(97 <= v <= 122);
        (v as u8) as char
    } else {
        c
    }
}

/// The destination kept for a link or image: empty when its scheme can run
/// script, else unchanged.
pub fn safe_destination(destination: &str) -> (kept: String)
    ensures
        kept@ == if unsafe_destination(destination@) {
            Seq::<char>::empty()
        } else {
            destination@
        },
{
    let chars = chars_of(destination);
    let (start, end) = trim_bounds(chars.as_slice());
    let mut normalized: Vec<char> = Vec::new();
    let mut i: usize = start;
    while i < end
        invariant
            start <= i <= end <= chars@.len(),
            normalized@ == ascii_lowercase(chars@.subrange(start as int, i as int)),
        decreases end - i,
    {
        normalized.push(lower(chars[i]));
        i = i + 1;
        assert(normalized@ =~= ascii_lowercase(chars@.subrange(start as int, i as int)));
    }
    let javascript = chars_of("javascript:");
    let data = chars_of("data:");
    let vbscript = chars_of("vbscript:");
    if starts_with(normalized.as_slice(), javascript.as_slice()) || starts_with(
        normalized.as_slice(),
        data.as_slice(),
    ) || starts_with(normalized.as_slice(), vbscript.as_slice()) {
        String::new()
    } else {
        String::from_str(destination)
    }
}

/// `s` with every occurrence of `pattern`, found left to right without
/// overlapping, replaced by `replacement` (the behaviour of `str::replace`).
pub open spec fn replace_all(s: Seq<char>, pattern: Seq<char>, replacement: Seq<char>) -> Seq<char>
    decreases s.len(),
{
    if s.len() == 0 {
        s
    } else if pattern.len() > 0 && has_prefix(s, pattern) {
        replacement + replace_all(s.skip(pattern.len() as int), pattern, replacement)
    } else {
        seq![s[0]] + replace_all(s.drop_first(), pattern, replacement)
    }
}

/// Whether `pattern` occurs in `s` at `at`.
fn occurs_at(s: &[char], at: usize, pattern: &[char]) -> (r: bool)
    requires
        at <= s@.len(),
    ensures
        r == has_prefix(s@.skip(at as int), pattern@),
{
    if pattern.len() > s.len() - at {
        return false;
    }
    let n = s.len();
    let mut k: usize = 0;
    while k < pattern.len()
        invariant
            n == s@.len(),
            at + pattern@.len() <= s@.len(),
            k <= pattern@.len(),
            forall|j: int| 0 <= j < k ==> s@[at + j] == pattern@[j],
        decreases pattern@.len() - k,
    {
        if s[at + k] != pattern[k] {
            assert(s@.skip(at as int).subrange(0, pattern@.len() as int)[k as int] != pattern@[k as int]);
            return false;
        }
        k = k + 1;
    }
    assert(s@.skip(at as int).subrange(0, pattern@.len() as int) =~= pattern@);
    true
}

/// Replaces every occurrence of `pattern` in `s` by `replacement`.
pub fn replace_text(s: &str, pattern: &str, replacement: &str) -> (r: String)
    ensures
        r@ == replace_all(s@, pattern@, replacement@),
{
    let cs = chars_of(s);
    let cp = chars_of(pattern);
    let cr = chars_of(replacement);
    let mut out: Vec<char> = Vec::new();
    let mut i: usize = 0;
    assert(cs@.skip(0) =~= cs@);
    while i < cs.len()
        invariant
            cs@ == s@,
            cp@ == pattern@,
            cr@ == replacement@,
            i <= cs@.len(),
            out@ + replace_all(cs@.skip(i as int), cp@, cr@) == replace_all(cs@, cp@, cr@),
        decreases cs@.len() - i,
    {
        let ghost rest = cs@.skip(i as int);
        let ghost before = out@;
        if cp.len() > 0 && occurs_at(cs.as_slice(), i, cp.as_slice()) {
            let mut k: usize = 0;
            while k < cr.len()
                invariant
                    k <= cr@.len(),
                    out@ == before + cr@.subrange(0, k as int),
                decreases cr@.len() - k,
            {
                out.push(cr[k]);
                k = k + 1;
                assert(out@ =~= before + cr@.subrange(0, k as int));
            }
            assert(cr@.subrange(0, cr@.len() as int) =~= cr@);
            assert(rest.skip(cp@.len() as int) =~= cs@.skip(i + cp@.len()));
            assert(before + replace_all(rest, cp@, cr@) == before + (cr@ + replace_all(rest.skip(cp@.len() as int), cp@, cr@)));
            assert(before + (cr@ + replace_all(rest.skip(cp@.len() as int), cp@, cr@)) =~= out@ + replace_all(cs@.skip(i + cp@.len()), cp@, cr@));
            i = i + cp.len();
        } else {
            out.push(cs[i]);
            assert(rest.drop_first() =~= cs@.skip(i + 1));
            assert(rest[0] == cs@[i as int]);
            assert(before + (seq![rest[0]] + replace_all(rest.drop_first(), cp@, cr@)) =~= out@ + replace_all(cs@.skip(i + 1), cp@, cr@));
            i = i + 1;
        }
    }
    assert(cs@.skip(i as int) =~= Seq::<char>::empty());
    assert(out@ + Seq::<char>::empty() =~= out@);
    string_from_chars(out.as_slice())
}

/// Rendered HTML in which links to web addresses open in a new tab, with no
/// access to the page that opened them.
pub fn open_external_links_in_new_tab(html: &str) -> (r: String)
    ensures
        r@ == replace_all(
            html@,
            "<a href=\"http"@,
            "<a target=\"_blank\" rel=\"noopener noreferrer\" href=\"http"@,
        ),
{
    replace_text(html, "<a href=\"http", "<a target=\"_blank\" rel=\"noopener noreferrer\" href=\"http")
}

// ---------------------------------------------------------------------------
// Rendering

/// An event of a Markdown parse, as far as the rendering rules look at it: text,
/// raw HTML, the start of a link or an image with its destination, or anything
/// else.
#[derive(Debug)]
pub enum MarkdownEvent {
    Text(String),
    RawHtml(String),
    Link(String),
    Image(String),
    Other,
}

/// The mathematical content of a [`MarkdownEvent`].
pub enum MarkdownEventView {
    Text(Seq<char>),
    RawHtml(Seq<char>),
    Link(Seq<char>),
    Image(Seq<char>),
    Other,
}

impl View for MarkdownEvent {
    type V = MarkdownEventView;

    open spec fn view(&self) -> MarkdownEventView {
        match self {
            MarkdownEvent::Text(t) => MarkdownEventView::Text(t@),
            MarkdownEvent::RawHtml(r) => MarkdownEventView::RawHtml(r@),
            MarkdownEvent::Link(d) => MarkdownEventView::Link(d@),
            MarkdownEvent::Image(d) => MarkdownEventView::Image(d@),
            MarkdownEvent::Other => MarkdownEventView::Other,
        }
    }
}

/// The views of a list of events.
pub open spec fn event_views(events: Seq<MarkdownEvent>) -> Seq<MarkdownEventView> {
    events.map_values(|e: MarkdownEvent| e@)
}

/// The events that `pulldown_cmark::Parser::new_ext` with `Options::all()` yields
/// for `source`, in order: `Text` as text, `Html` and `InlineHtml` as raw HTML,
/// the starts of links and images with their destinations, others as `Other`.
pub uninterp spec fn markdown_events(source: Seq<char>) -> Seq<MarkdownEventView>;

/// The HTML that `pulldown_cmark::html::push_html` writes for the parse of
/// `source` when its events are replaced by `events`, position by position: a
/// `Text` becomes that text, a `Link` or `Image` at the start of a link or image
/// sets its destination, and any other event is kept as parsed.
pub uninterp spec fn markdown_html_with(source: Seq<char>, events: Seq<MarkdownEventView>) -> Seq<char>;

/// Parses `source` with `pulldown_cmark` and describes each event.
///
/// Trusted: the result is [`markdown_events`] of `source`, each parsed event
/// converted one for one.
#[verifier::external_body]
fn parse_markdown(source: &str) -> (e: Vec<MarkdownEvent>)
    ensures
        event_views(e@) == markdown_events(source@),
{
    Parser::new_ext(source, Options::all()).map(|event| match event {
        Event::Text(t) => MarkdownEvent::Text(t.to_string()),
        Event::Html(raw) | Event::InlineHtml(raw) => MarkdownEvent::RawHtml(raw.to_string()),
        Event::Start(Tag::Link { dest_url, .. }) => MarkdownEvent::Link(dest_url.to_string()),
        Event::Start(Tag::Image { dest_url, .. }) => MarkdownEvent::Image(dest_url.to_string()),
        _ => MarkdownEvent::Other,
    }).collect()
}

/// Parses `source` again and writes it as HTML with `pulldown_cmark`, each
/// parsed event replaced as [`markdown_html_with`] describes.
///
/// Trusted: the result is [`markdown_html_with`] of the arguments.
#[verifier::external_body]
fn render_markdown(source: &str, events: &Vec<MarkdownEvent>) -> (h: String)
    ensures
        h@ == markdown_html_with(source@, event_views(events@)),
{
    let mut given = events.iter();
    let parsed = Parser::new_ext(source, Options::all()).map(|mut event| match (given.next(), &mut event) {
        (Some(MarkdownEvent::Text(t)), _) => Event::Text(t.clone().into()),
        (Some(MarkdownEvent::Link(d) | MarkdownEvent::Image(d)),
            Event::Start(Tag::Link { dest_url, .. } | Tag::Image { dest_url, .. })) => {
            *dest_url = d.clone().into();
            event
        },
        _ => event,
    });
    let mut html = String::new();
    pulldown_cmark::html::push_html(&mut html, parsed);
    html
}

/// The destination kept for a link or image (see [`safe_destination`]).
pub open spec fn kept_destination(destination: Seq<char>) -> Seq<char> {
    if unsafe_destination(destination) {
        Seq::<char>::empty()
    } else {
        destination
    }
}

/// An event as rendered: raw HTML is shown as text, and link and image
/// destinations are kept only when safe.
pub open spec fn sanitized_event(e: MarkdownEventView) -> MarkdownEventView {
    match e {
        MarkdownEventView::RawHtml(raw) => MarkdownEventView::Text(raw),
        MarkdownEventView::Link(d) => MarkdownEventView::Link(kept_destination(d)),
        MarkdownEventView::Image(d) => MarkdownEventView::Image(kept_destination(d)),
        other => other,
    }
}

/// The events as rendered.
pub open spec fn sanitized(events: Seq<MarkdownEventView>) -> Seq<MarkdownEventView> {
    events.map_values(|e: MarkdownEventView| sanitized_event(e))
}

fn sanitize(event: &MarkdownEvent) -> (r: MarkdownEvent)
    ensures
        r@ == sanitized_event(event@),
{
    match event {
        MarkdownEvent::Text(t) => MarkdownEvent::Text(t.clone()),
        MarkdownEvent::RawHtml(raw) => MarkdownEvent::Text(raw.clone()),
        MarkdownEvent::Link(d) => MarkdownEvent::Link(safe_destination(d.as_str())),
        MarkdownEvent::Image(d) => MarkdownEvent::Image(safe_destination(d.as_str())),
        MarkdownEvent::Other => MarkdownEvent::Other,
    }
}

/// The HTML of the Markdown `source` as the transcript shows it: raw HTML as
/// text, unsafe link and image destinations emptied, and links to web
/// addresses opening in a new tab.
pub fn markdown(source: &str) -> (html: String)
    ensures
        html@ == replace_all(
            markdown_html_with(source@, sanitized(markdown_events(source@))),
            "<a href=\"http"@,
            "<a target=\"_blank\" rel=\"noopener noreferrer\" href=\"http"@,
        ),
{
    let events = parse_markdown(source);
    let ghost parsed = event_views(events@);
    let mut kept: Vec<MarkdownEvent> = Vec::new();
    let mut i: usize = 0;
    while i < events.len()
        invariant
            parsed == event_views(events@),
            i <= events@.len(),
            event_views(kept@) == sanitized(parsed.take(i as int)),
            kept@.len() == i,
        decreases events@.len() - i,
    {
        let event = sanitize(&events[i]);
        proof {
            assert(parsed[i as int] == events@[i as int]@);
        }
        let ghost before = kept@;
        let ghost shown = event@;
        kept.push(event);
        proof {
            assert(kept@ == before.push(event));
            assert(event_views(kept@) =~= event_views(before).push(shown));
            assert(sanitized(parsed.take(i + 1)) =~= sanitized(parsed.take(i as int)).push(
                sanitized_event(parsed[i as int]),
            ));
        }
        i = i + 1;
    }
    assert(parsed.take(i as int) =~= parsed);
    let rendered = render_markdown(source, &kept);
    open_external_links_in_new_tab(rendered.as_str())
}

} // verus!
