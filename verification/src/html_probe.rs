//! Probes into rendered HTML text, used to check what the views produce: the
//! value of an attribute, the classes of the element with an id, the options of
//! a select, and a summary of the ids, questions and visible text of a page.

use vstd::prelude::*;
use vstd::slice::{slice_subrange, slice_to_vec};
use crate::text::{chars_of, string_from_chars};
use crate::present::joined;

verus! {

/// `pattern` occurs in `s` at `i`.
pub open spec fn occurs_at(s: Seq<char>, i: int, pattern: Seq<char>) -> bool {
    0 <= i && i + pattern.len() <= s.len() && s.subrange(i, i + pattern.len()) == pattern
}

/// The first place at or after `from` where `pattern` occurs in `s`.
pub open spec fn find_from(s: Seq<char>, pattern: Seq<char>, from: int) -> Option<int>
    decreases s.len() - from,
{
    if from < 0 || from + pattern.len() > s.len() {
        None
    } else if occurs_at(s, from, pattern) {
        Some(from)
    } else {
        proof {
            if pattern.len() == 0 {
                assert(s.subrange(from, from) =~= pattern);
            }
        }
        find_from(s, pattern, from + 1)
    }
}

/// The last place where `pattern` occurs in `s` ending no later than `end`.
pub open spec fn rfind_before(s: Seq<char>, pattern: Seq<char>, end: int) -> Option<int>
    decreases end,
{
    if end < pattern.len() || end > s.len() {
        None
    } else if occurs_at(s, end - pattern.len(), pattern) {
        Some(end - pattern.len())
    } else {
        proof {
            if pattern.len() == 0 {
                assert(s.subrange(end, end) =~= pattern);
            }
        }
        rfind_before(s, pattern, end - 1)
    }
}

fn matches_at(s: &[char], i: usize, pattern: &[char]) -> (r: bool)
    requires
        i + pattern@.len() <= s@.len(),
    ensures
        r == occurs_at(s@, i as int, pattern@),
{
    let n = s.len();
    let mut k: usize = 0;
    while k < pattern.len()
        invariant
            n == s@.len(),
            i + pattern@.len() <= s@.len(),
            k <= pattern@.len(),
            forall|j: int| 0 <= j < k ==> s@[i + j] == pattern@[j],
        decreases pattern@.len() - k,
    {
        if s[i + k] != pattern[k] {
            assert(s@.subrange(i as int, i + pattern@.len())[k as int] != pattern@[k as int]);
            return false;
        }
        k = k + 1;
    }
    assert(s@.subrange(i as int, i + pattern@.len()) =~= pattern@);
    true
}

/// The first place at or after `from` where `pattern` occurs in `s`.
pub fn find_text_from(s: &[char], pattern: &[char], from: usize) -> (r: Option<usize>)
    ensures
        match r {
            Some(i) => find_from(s@, pattern@, from as int) == Some(i as int),
            None => find_from(s@, pattern@, from as int) is None,
        },
{
    let n = s.len();
    let m = pattern.len();
    if m > n {
        return None;
    }
    let last = n - m;
    if from > last {
        return None;
    }
    let mut i = from;
    loop
        invariant
            n == s@.len(),
            m == pattern@.len(),
            m <= n,
            last == n - m,
            from <= i <= last,
            find_from(s@, pattern@, from as int) == find_from(s@, pattern@, i as int),
        decreases last - i,
    {
        if matches_at(s, i, pattern) {
            return Some(i);
        }
        if i == last {
            assert(find_from(s@, pattern@, i + 1) is None);
            return None;
        }
        i = i + 1;
    }
}

/// The last place where `pattern` occurs in `s` ending no later than `end`.
pub fn rfind_text_before(s: &[char], pattern: &[char], end: usize) -> (r: Option<usize>)
    requires
        end <= s@.len(),
    ensures
        match r {
            Some(i) => rfind_before(s@, pattern@, end as int) == Some(i as int),
            None => rfind_before(s@, pattern@, end as int) is None,
        },
{
    let m = pattern.len();
    if end < m {
        return None;
    }
    let mut e = end;
    loop
        invariant
            m == pattern@.len(),
            m <= e <= end <= s@.len(),
            rfind_before(s@, pattern@, end as int) == rfind_before(s@, pattern@, e as int),
        decreases e,
    {
        if matches_at(s, e - m, pattern) {
            return Some(e - m);
        }
        if e == m {
            proof {
                if m == 0 {
                    assert(s@.subrange(0, 0) =~= pattern@);
                }
            }
            assert(rfind_before(s@, pattern@, e - 1) is None);
            return None;
        }
        e = e - 1;
    }
}

fn sub_string(s: &[char], from: usize, to: usize) -> (r: String)
    requires
        from <= to <= s@.len(),
    ensures
        r@ == s@.subrange(from as int, to as int),
{
    string_from_chars(slice_subrange(s, from, to))
}

/// The value of the attribute `name` in the attribute text `attributes`: the
/// text between `name="` and the next `"`.
pub open spec fn attribute_value_spec(attributes: Seq<char>, name: Seq<char>) -> Option<Seq<char>> {
    let marker = name + "=\""@;
    match find_from(attributes, marker, 0) {
        None => None,
        Some(p) => match find_from(attributes, "\""@, p + marker.len()) {
            None => None,
            Some(e) => Some(attributes.subrange(p + marker.len(), e)),
        },
    }
}

/// A match found from `from` lies within `s`, at or after `from`.
pub proof fn lemma_find_from_bounds(s: Seq<char>, pattern: Seq<char>, from: int)
    ensures
        find_from(s, pattern, from) matches Some(i) ==> from <= i && i + pattern.len() <= s.len(),
    decreases s.len() - from,
{
    if !(from < 0 || from + pattern.len() > s.len()) && !occurs_at(s, from, pattern) {
        if pattern.len() == 0 {
            assert(s.subrange(from, from) =~= pattern);
        }
        lemma_find_from_bounds(s, pattern, from + 1);
    }
}

proof fn lemma_rfind_before_bounds(s: Seq<char>, pattern: Seq<char>, end: int)
    ensures
        rfind_before(s, pattern, end) matches Some(i) ==> 0 <= i && i + pattern.len() <= end,
    decreases end,
{
    if !(end < pattern.len() || end > s.len()) && !occurs_at(s, end - pattern.len(), pattern) {
        if pattern.len() == 0 {
            assert(s.subrange(end, end) =~= pattern);
        }
        lemma_rfind_before_bounds(s, pattern, end - 1);
    }
}

fn attribute_value_chars(attributes: &[char], name: &[char]) -> (r: Option<String>)
    ensures
        match r {
            Some(v) => attribute_value_spec(attributes@, name@) == Some(v@),
            None => attribute_value_spec(attributes@, name@) is None,
        },
{
    let mut marker: Vec<char> = Vec::new();
    let mut i: usize = 0;
    while i < name.len()
        invariant
            i <= name@.len(),
            marker@ == name@.take(i as int),
        decreases name@.len() - i,
    {
        marker.push(name[i]);
        i = i + 1;
        assert(marker@ =~= name@.take(i as int));
    }
    marker.push('=');
    marker.push('"');
    proof {
        reveal_strlit("=\"");
        assert(marker@ =~= name@ + "=\""@);
    }
    let quote = chars_of("\"");
    let n = attributes.len();
    match find_text_from(attributes, marker.as_slice(), 0) {
        None => None,
        Some(p) => {
            proof {
                lemma_find_from_bounds(attributes@, marker@, 0);
            }
            let start = p + marker.len();
            match find_text_from(attributes, quote.as_slice(), start) {
                None => None,
                Some(e) => {
                    proof {
                        lemma_find_from_bounds(attributes@, quote@, start as int);
                    }
                    Some(sub_string(attributes, start, e))
                },
            }
        },
    }
}

/// The value of the attribute `name` in the attribute text `attributes`.
pub fn attribute_value(attributes: &str, name: &str) -> (r: Option<String>)
    ensures
        match r {
            Some(v) => attribute_value_spec(attributes@, name@) == Some(v@),
            None => attribute_value_spec(attributes@, name@) is None,
        },
{
    let a = chars_of(attributes);
    let n = chars_of(name);
    attribute_value_chars(a.as_slice(), n.as_slice())
}

/// The classes of the element whose id is `id`: the `class` attribute of the
/// tag around the first `id="<id>"`.
pub open spec fn class_for_id_spec(rendered: Seq<char>, id: Seq<char>) -> Option<Seq<char>> {
    let marker = "id=\""@ + id + "\""@;
    match find_from(rendered, marker, 0) {
        None => None,
        Some(offset) => match rfind_before(rendered, "<"@, offset) {
            None => None,
            Some(tag_start) => match find_from(rendered, ">"@, offset) {
                None => None,
                Some(tag_end) => {
                    let tag = rendered.subrange(tag_start, tag_end);
                    match find_from(tag, "class=\""@, 0) {
                        None => None,
                        Some(c) => match find_from(tag, "\""@, c + 7) {
                            None => None,
                            Some(e) => Some(tag.subrange(c + 7, e)),
                        },
                    }
                },
            },
        },
    }
}

/// The classes of the element whose id is `id`; the element must be there.
pub fn class_for_id(rendered: &str, id: &str) -> (classes: String)
    requires
        class_for_id_spec(rendered@, id@) is Some,
    ensures
        class_for_id_spec(rendered@, id@) == Some(classes@),
{
    let r = chars_of(rendered);
    let mut marker_text = String::from_str("id=\"");
    marker_text.append(id);
    marker_text.append("\"");
    let marker = chars_of(marker_text.as_str());
    let lt = chars_of("<");
    let gt = chars_of(">");
    let class_marker = chars_of("class=\"");
    let quote = chars_of("\"");
    proof {
        reveal_strlit("class=\"");
        lemma_find_from_bounds(r@, marker@, 0);
    }
    let offset = find_text_from(r.as_slice(), marker.as_slice(), 0).unwrap();
    let tag_start = rfind_text_before(r.as_slice(), lt.as_slice(), offset).unwrap();
    let tag_end = find_text_from(r.as_slice(), gt.as_slice(), offset).unwrap();
    proof {
        lemma_rfind_before_bounds(r@, lt@, offset as int);
        lemma_find_from_bounds(r@, gt@, offset as int);
    }
    let tag = slice_subrange(r.as_slice(), tag_start, tag_end);
    let c = find_text_from(tag, class_marker.as_slice(), 0).unwrap();
    proof {
        lemma_find_from_bounds(tag@, class_marker@, 0);
    }
    let e = find_text_from(tag, quote.as_slice(), c + 7).unwrap();
    proof {
        lemma_find_from_bounds(tag@, quote@, c + 7);
    }
    sub_string(tag, c + 7, e)
}

/// The text after each occurrence of `marker` in `s`, up to the next one (the
/// parts of `s.split(marker)` after the first).
pub open spec fn segments_after(s: Seq<char>, marker: Seq<char>) -> Seq<Seq<char>>
    decreases s.len(),
{
    if marker.len() == 0 {
        Seq::empty()
    } else {
        match find_from(s, marker, 0) {
            None => Seq::empty(),
            Some(p) => {
                proof {
                    lemma_find_from_bounds(s, marker, 0);
                }
                let rest = s.skip(p + marker.len());
                let segment = match find_from(rest, marker, 0) {
                    Some(q) => rest.take(q),
                    None => rest,
                };
                seq![segment] + segments_after(rest, marker)
            },
        }
    }
}

/// For each text that holds a `"`, the part before the first one.
pub open spec fn quoted_prefixes(parts: Seq<Seq<char>>) -> Seq<Seq<char>>
    decreases parts.len(),
{
    if parts.len() == 0 {
        Seq::empty()
    } else {
        let rest = quoted_prefixes(parts.drop_first());
        match find_from(parts[0], "\""@, 0) {
            Some(q) => seq![parts[0].take(q)] + rest,
            None => rest,
        }
    }
}

/// The characters of `s` outside tags, `inside` telling whether `s` starts inside
/// one.
pub open spec fn text_outside_tags(s: Seq<char>, inside: bool) -> Seq<char>
    decreases s.len(),
{
    if s.len() == 0 {
        Seq::empty()
    } else if s[0] == '<' {
        text_outside_tags(s.drop_first(), true)
    } else if s[0] == '>' {
        text_outside_tags(s.drop_first(), false)
    } else if inside {
        text_outside_tags(s.drop_first(), inside)
    } else {
        seq![s[0]] + text_outside_tags(s.drop_first(), inside)
    }
}

/// The summary of a rendered page: the element ids, the question ids and the
/// visible text, one per line.
pub open spec fn element_summary_spec(rendered: Seq<char>) -> Seq<char> {
    "ids: "@ + joined(quoted_prefixes(segments_after(rendered, " id=\""@)), ", "@)
        + "\nquestions: "@ + joined(
        quoted_prefixes(segments_after(rendered, "data-question-id=\""@)),
        ", "@,
    ) + "\ntext: "@ + text_outside_tags(rendered, false)
}

fn segments(s: &[char], marker: &[char]) -> (parts: Vec<Vec<char>>)
    ensures
        parts@.map_values(|p: Vec<char>| p@) == segments_after(s@, marker@),
{
    let mut parts: Vec<Vec<char>> = Vec::new();
    if marker.len() == 0 {
        return parts;
    }
    let mut rest: Vec<char> = slice_to_vec(s);
    while true
        invariant
            marker@.len() > 0,
            parts@.map_values(|p: Vec<char>| p@) + segments_after(rest@, marker@) == segments_after(
                s@,
                marker@,
            ),
        decreases rest@.len(),
    {
        let ghost before = parts@.map_values(|p: Vec<char>| p@);
        let ghost old_rest = rest@;
        let n = rest.len();
        match find_text_from(rest.as_slice(), marker, 0) {
            None => {
                assert(segments_after(rest@, marker@) =~= Seq::<Seq<char>>::empty());
                assert(before + Seq::<Seq<char>>::empty() =~= before);
                return parts;
            },
            Some(p) => {
                proof {
                    lemma_find_from_bounds(rest@, marker@, 0);
                }
                let next = slice_to_vec(slice_subrange(rest.as_slice(), p + marker.len(), n));
                assert(next@ =~= old_rest.skip(p + marker@.len()));
                let segment = match find_text_from(next.as_slice(), marker, 0) {
                    Some(q) => {
                        proof {
                            lemma_find_from_bounds(next@, marker@, 0);
                        }
                        slice_to_vec(slice_subrange(next.as_slice(), 0, q))
                    },
                    None => slice_to_vec(next.as_slice()),
                };
                let ghost sv = segment@;
                parts.push(segment);
                proof {
                    assert(parts@.map_values(|p: Vec<char>| p@) =~= before.push(sv));
                    assert(sv =~= (match find_from(next@, marker@, 0) {
                        Some(q) => next@.take(q),
                        None => next@,
                    }));
                    assert(before.push(sv) + segments_after(next@, marker@) =~= before + (seq![sv]
                        + segments_after(next@, marker@)));
                }
                rest = next;
            },
        }
    }
    parts
}

fn quoted_prefix_strings(parts: &Vec<Vec<char>>) -> (r: Vec<String>)
    ensures
        r@.map_values(|t: String| t@) == quoted_prefixes(parts@.map_values(|p: Vec<char>| p@)),
{
    let ghost views = parts@.map_values(|p: Vec<char>| p@);
    let quote = chars_of("\"");
    let mut r: Vec<String> = Vec::new();
    let mut i: usize = parts.len();
    assert(views.skip(i as int) =~= Seq::<Seq<char>>::empty());
    // Built from the back: `r` holds the prefixes of the parts from `i` on.
    let mut reversed: Vec<String> = Vec::new();
    while i > 0
        invariant
            quote@ == "\""@,
            views == parts@.map_values(|p: Vec<char>| p@),
            i <= parts@.len(),
            reversed@.map_values(|t: String| t@).reverse() == quoted_prefixes(views.skip(i as int)),
        decreases i,
    {
        i = i - 1;
        let ghost tail = views.skip(i + 1);
        assert(views.skip(i as int).drop_first() =~= tail);
        assert(views.skip(i as int)[0] == parts@[i as int]@);
        let ghost before = reversed@.map_values(|t: String| t@);
        match find_text_from(parts[i].as_slice(), quote.as_slice(), 0) {
            Some(q) => {
                proof {
                    lemma_find_from_bounds(parts@[i as int]@, quote@, 0);
                }
                let prefix = sub_string(parts[i].as_slice(), 0, q);
                let ghost pv = prefix@;
                reversed.push(prefix);
                proof {
                    assert(reversed@.map_values(|t: String| t@) =~= before.push(pv));
                    assert(before.push(pv).reverse() =~= seq![pv] + before.reverse());
                    assert(pv =~= parts@[i as int]@.take(q as int));
                }
            },
            None => {},
        }
    }
    assert(views.skip(0) =~= views);
    let ghost all = reversed@.map_values(|t: String| t@);
    let mut k = reversed.len();
    while k > 0
        invariant
            k <= reversed@.len(),
            all == reversed@.map_values(|t: String| t@),
            r@.map_values(|t: String| t@) == all.reverse().take((all.len() - k) as int),
        decreases k,
    {
        k = k - 1;
        let t = reversed[k].clone();
        let ghost before = r@.map_values(|t: String| t@);
        assert(t@ == all[k as int]);
        r.push(t);
        proof {
            assert(r@.map_values(|t: String| t@) =~= before.push(all[k as int]));
            assert(all.reverse().take((all.len() - k) as int) =~= all.reverse().take(
                (all.len() - k - 1) as int,
            ).push(all[k as int]));
        }
    }
    assert(all.reverse().take(all.len() as int) =~= all.reverse());
    r
}

fn join_strings(parts: &Vec<String>, sep: &str) -> (r: String)
    ensures
        r@ == joined(parts@.map_values(|t: String| t@), sep@),
{
    let ghost views = parts@.map_values(|t: String| t@);
    let mut r = String::new();
    let mut i: usize = 0;
    assert(views.take(0) =~= Seq::<Seq<char>>::empty());
    while i < parts.len()
        invariant
            views == parts@.map_values(|t: String| t@),
            i <= parts@.len(),
            r@ == joined(views.take(i as int), sep@),
        decreases parts@.len() - i,
    {
        if i > 0 {
            r.append(sep);
        }
        r.append(parts[i].as_str());
        proof {
            let taken = views.take(i + 1);
            assert(taken.drop_last() =~= views.take(i as int));
            assert(taken.last() == views[i as int]);
        }
        i = i + 1;
    }
    assert(views.take(i as int) =~= views);
    r
}

fn visible_text(s: &[char]) -> (text: Vec<char>)
    ensures
        text@ == text_outside_tags(s@, false),
{
    let mut text: Vec<char> = Vec::new();
    let mut inside = false;
    let mut i: usize = 0;
    assert(s@.skip(0) =~= s@);
    while i < s.len()
        invariant
            i <= s@.len(),
            text@ + text_outside_tags(s@.skip(i as int), inside) == text_outside_tags(s@, false),
        decreases s@.len() - i,
    {
        let c = s[i];
        let ghost before = text@;
        assert(s@.skip(i as int)[0] == c);
        assert(s@.skip(i as int).drop_first() =~= s@.skip(i + 1));
        if c == '<' {
            inside = true;
        } else if c == '>' {
            inside = false;
        } else if !inside {
            text.push(c);
            assert(before + (seq![c] + text_outside_tags(s@.skip(i + 1), inside)) =~= text@
                + text_outside_tags(s@.skip(i + 1), inside));
        }
        i = i + 1;
    }
    assert(s@.skip(i as int) =~= Seq::<char>::empty());
    assert(text@ + Seq::<char>::empty() =~= text@);
    text
}

/// A summary of a rendered page: its element ids, its question ids and its
/// visible text.
pub fn element_summary(rendered: &str) -> (summary: String)
    ensures
        summary@ == element_summary_spec(rendered@),
{
    let r = chars_of(rendered);
    let id_marker = chars_of(" id=\"");
    let question_marker = chars_of("data-question-id=\"");
    let ids = quoted_prefix_strings(&segments(r.as_slice(), id_marker.as_slice()));
    let questions = quoted_prefix_strings(&segments(r.as_slice(), question_marker.as_slice()));
    let ids_text = join_strings(&ids, ", ");
    let questions_text = join_strings(&questions, ", ");
    let text = visible_text(r.as_slice());
    let mut summary = String::from_str("ids: ");
    summary.append(ids_text.as_str());
    summary.append("\nquestions: ");
    summary.append(questions_text.as_str());
    summary.append("\ntext: ");
    let text_string = string_from_chars(text.as_slice());
    summary.append(text_string.as_str());
    summary
}

/// The summary of one `<option` part of a select: `value=label`, marked when
/// selected; `None` when the part has no `>`.
pub open spec fn option_entry(option: Seq<char>) -> Option<Seq<char>> {
    match find_from(option, ">"@, 0) {
        None => None,
        Some(g) => {
            let attributes = option.take(g);
            let remainder = option.skip(g + 1);
            let label = match find_from(remainder, "<"@, 0) {
                Some(l) => remainder.take(l),
                None => remainder,
            };
            let value = match attribute_value_spec(attributes, "value"@) {
                Some(v) => v,
                None => Seq::empty(),
            };
            let mark = if find_from(attributes, "selected"@, 0) is Some {
                " [selected]"@
            } else {
                Seq::empty()
            };
            Some(value + "="@ + label + mark)
        },
    }
}

/// The summaries of all option parts, or `None` when one has no `>`.
pub open spec fn option_entries(options: Seq<Seq<char>>) -> Option<Seq<Seq<char>>>
    decreases options.len(),
{
    if options.len() == 0 {
        Some(Seq::empty())
    } else {
        match (option_entry(options[0]), option_entries(options.drop_first())) {
            (Some(e), Some(rest)) => Some(seq![e] + rest),
            _ => None,
        }
    }
}

/// The summary of the select whose id is `id`: its id and its options, or
/// `None` when the select cannot be found or an option is malformed.
pub open spec fn select_summary_spec(rendered: Seq<char>, id: Seq<char>) -> Option<Seq<char>> {
    let marker = "id=\""@ + id + "\""@;
    match find_from(rendered, marker, 0) {
        None => None,
        Some(offset) => match rfind_before(rendered, "<select"@, offset) {
            None => None,
            Some(start) => match find_from(rendered, "</select>"@, offset) {
                None => None,
                Some(end) => match option_entries(
                    segments_after(rendered.subrange(start, end), "<option"@),
                ) {
                    None => None,
                    Some(entries) => Some(id + ": "@ + joined(entries, ", "@)),
                },
            },
        },
    }
}

fn option_summary(option: &[char]) -> (r: Option<String>)
    ensures
        match r {
            Some(e) => option_entry(option@) == Some(e@),
            None => option_entry(option@) is None,
        },
{
    let gt = chars_of(">");
    let lt = chars_of("<");
    let selected_marker = chars_of("selected");
    let value_name = chars_of("value");
    let n = option.len();
    match find_text_from(option, gt.as_slice(), 0) {
        None => None,
        Some(g) => {
            proof {
                reveal_strlit(">");
                lemma_find_from_bounds(option@, gt@, 0);
            }
            let attributes = slice_subrange(option, 0, g);
            let remainder = slice_subrange(option, g + 1, n);
            assert(attributes@ =~= option@.take(g as int));
            assert(remainder@ =~= option@.skip(g + 1));
            let label = match find_text_from(remainder, lt.as_slice(), 0) {
                Some(l) => {
                    proof {
                        lemma_find_from_bounds(remainder@, lt@, 0);
                    }
                    sub_string(remainder, 0, l)
                },
                None => string_from_chars(remainder),
            };
            let mut entry = match attribute_value_chars(attributes, value_name.as_slice()) {
                Some(v) => v,
                None => String::new(),
            };
            entry.append("=");
            entry.append(label.as_str());
            if find_text_from(attributes, selected_marker.as_slice(), 0).is_some() {
                entry.append(" [selected]");
            }
            Some(entry)
        },
    }
}

/// The summary of the select whose id is `id`; the select must be there and
/// each of its options must close its tag.
pub fn select_summary(rendered: &str, id: &str) -> (summary: String)
    requires
        select_summary_spec(rendered@, id@) is Some,
    ensures
        select_summary_spec(rendered@, id@) == Some(summary@),
{
    let r = chars_of(rendered);
    let mut marker_text = String::from_str("id=\"");
    marker_text.append(id);
    marker_text.append("\"");
    let marker = chars_of(marker_text.as_str());
    let select_open = chars_of("<select");
    let select_close = chars_of("</select>");
    let option_marker = chars_of("<option");
    proof {
        lemma_find_from_bounds(r@, marker@, 0);
    }
    let offset = find_text_from(r.as_slice(), marker.as_slice(), 0).unwrap();
    let start = rfind_text_before(r.as_slice(), select_open.as_slice(), offset).unwrap();
    let end = find_text_from(r.as_slice(), select_close.as_slice(), offset).unwrap();
    proof {
        lemma_rfind_before_bounds(r@, select_open@, offset as int);
        lemma_find_from_bounds(r@, select_close@, offset as int);
    }
    let select = slice_subrange(r.as_slice(), start, end);
    let parts = segments(select, option_marker.as_slice());
    let ghost views = parts@.map_values(|p: Vec<char>| p@);
    let mut entries: Vec<String> = Vec::new();
    let mut i: usize = 0;
    assert(views.skip(0) =~= views);
    while i < parts.len()
        invariant
            views == parts@.map_values(|p: Vec<char>| p@),
            i <= parts@.len(),
            option_entries(views) is Some,
            option_entries(views) == (match option_entries(views.skip(i as int)) {
                Some(rest) => Some(entries@.map_values(|t: String| t@) + rest),
                None => None::<Seq<Seq<char>>>,
            }),
        decreases parts@.len() - i,
    {
        let ghost before = entries@.map_values(|t: String| t@);
        assert(views.skip(i as int)[0] == parts@[i as int]@);
        assert(views.skip(i as int).drop_first() =~= views.skip(i + 1));
        let entry = option_summary(parts[i].as_slice());
        let e = entry.unwrap();
        let ghost ev = e@;
        entries.push(e);
        proof {
            assert(entries@.map_values(|t: String| t@) =~= before.push(ev));
            match option_entries(views.skip(i + 1)) {
                Some(rest) => {
                    assert(before.push(ev) + rest =~= before + (seq![ev] + rest));
                },
                None => {},
            }
        }
        i = i + 1;
    }
    assert(views.skip(i as int) =~= Seq::<Seq<char>>::empty());
    assert(entries@.map_values(|t: String| t@) + Seq::<Seq<char>>::empty() =~= entries@.map_values(
        |t: String| t@,
    ));
    let options = join_strings(&entries, ", ");
    let mut summary = String::from_str(id);
    summary.append(": ");
    summary.append(options.as_str());
    summary
}

} // verus!
