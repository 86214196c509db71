//! The directory picker: which directory a request names, the order in which
//! its subdirectories are listed, and how the listing is paged.

use vstd::prelude::*;
use crate::error::{WebError, ErrorKind, ErrorView, error_with};
use crate::recovery::opt_str;
use crate::text::{text_less, compare_text, TextOrder, lemma_text_less_irreflexive,
    lemma_text_less_total, lemma_text_less_transitive};

verus! {

/// The longest path, in bytes, that the picker accepts.
pub const MAX_PATH_BYTES: usize = 32768;

/// The number of entries in one page of a listing.
pub const PAGE_SIZE: usize = 200;

/// The roots offered for navigation.
pub fn filesystem_roots() -> (roots: Vec<String>)
    ensures
        roots@.len() == 1,
        roots@[0]@ == "/"@,
{
    let mut roots: Vec<String> = Vec::new();
    roots.push(String::from_str("/"));
    roots
}

/// The directory a listing request names: its path when it gives a non-empty
/// one, else the home directory; refused when there is no home directory or the
/// path is too long.
pub fn requested_directory(path: Option<&str>, home: Option<String>) -> (r: Result<String, WebError>)
    ensures
        ({
            let chosen = match opt_str(path) {
                Some(p) => if p.len() > 0 {
                    Some(p)
                } else {
                    match home {
                        Some(h) => Some(h@),
                        None => None,
                    }
                },
                None => match home {
                    Some(h) => Some(h@),
                    None => None,
                },
            };
            match chosen {
                None => r is Err && r->Err_0@ == (ErrorView {
                    kind: ErrorKind::NotFound,
                    message: "home directory is unavailable"@,
                }),
                Some(c) => if vstd::utf8::encode_utf8(c).len() > MAX_PATH_BYTES {
                    r is Err && r->Err_0@ == (ErrorView {
                        kind: ErrorKind::InvalidInput,
                        message: "directory path is too long"@,
                    })
                } else {
                    r is Ok && r->Ok_0@ == c
                },
            }
        }),
{
    let chosen = match path {
        Some(p) if !p.is_empty() => String::from_str(p),
        _ => match home {
            Some(h) => h,
            None => {
                return Err(error_with(ErrorKind::NotFound, "home directory is unavailable"));
            },
        },
    };
    if chosen.as_str().as_bytes().len() > MAX_PATH_BYTES {
        return Err(error_with(ErrorKind::InvalidInput, "directory path is too long"));
    }
    Ok(chosen)
}

/// The part of a listing of `count` entries shown from `cursor` on: the range
/// `start..end` and the cursor of the next page, if there is one.
pub fn directory_page(count: usize, cursor: Option<usize>) -> (page: (usize, usize, Option<usize>))
    ensures
        ({
            let start = match cursor {
                Some(c) => if c < count {
                    c as int
                } else {
                    count as int
                },
                None => 0,
            };
            &&& page.0 == start
            &&& page.1 == if start + PAGE_SIZE < count {
                start + PAGE_SIZE
            } else {
                count as int
            }
            &&& page.2 == if start + PAGE_SIZE < count {
                Some((start + PAGE_SIZE) as usize)
            } else {
                None
            }
        }),
{
    let start = match cursor {
        Some(c) => if c < count {
            c
        } else {
            count
        },
        None => 0,
    };
    if count - start > PAGE_SIZE {
        (start, start + PAGE_SIZE, Some(start + PAGE_SIZE))
    } else {
        (start, count, None)
    }
}

/// The text that `str::to_lowercase` gives for `s` (Unicode's lowercase
/// mapping).
pub uninterp spec fn lowercase_mapping(s: Seq<char>) -> Seq<char>;

/// Calls `str::to_lowercase` on `s`.
///
/// Trusted: the result is the lowercase mapping of `s`.
#[verifier::external_body]
fn to_lowercase(s: &str) -> (r: String)
    ensures
        r@ == lowercase_mapping(s@),
{
    s.to_lowercase()
}

/// A subdirectory in a listing.
#[derive(Debug)]
pub struct DirectoryEntry {
    pub name: String,
    pub path: String,
    pub symlink: bool,
}

/// The mathematical content of a [`DirectoryEntry`].
pub struct EntryView {
    pub name: Seq<char>,
    pub path: Seq<char>,
    pub symlink: bool,
}

impl View for DirectoryEntry {
    type V = EntryView;

    open spec fn view(&self) -> EntryView {
        EntryView { name: self.name@, path: self.path@, symlink: self.symlink }
    }
}

/// `a` is listed before `b`: by name ignoring case, then by name.
pub open spec fn listed_before(a: EntryView, b: EntryView) -> bool {
    text_less(lowercase_mapping(a.name), lowercase_mapping(b.name)) || (lowercase_mapping(a.name)
        == lowercase_mapping(b.name) && text_less(a.name, b.name))
}

/// No entry of `entries` is listed before one that precedes it.
pub open spec fn listing_ordered(entries: Seq<EntryView>) -> bool {
    forall|i: int, j: int|
        0 <= i < j < entries.len() ==> !listed_before(#[trigger] entries[j], #[trigger] entries[i])
}

proof fn lemma_listed_before_transitive(a: EntryView, b: EntryView, c: EntryView)
    requires
        listed_before(a, b),
        listed_before(b, c),
    ensures
        listed_before(a, c),
{
    let (la, lb, lc) = (lowercase_mapping(a.name), lowercase_mapping(b.name), lowercase_mapping(c.name));
    if text_less(la, lb) && text_less(lb, lc) {
        lemma_text_less_transitive(la, lb, lc);
    } else if text_less(la, lb) {
        assert(lb == lc);
    } else if text_less(lb, lc) {
        assert(la == lb);
    } else {
        lemma_text_less_transitive(a.name, b.name, c.name);
    }
}

fn before(a: &DirectoryEntry, a_lower: &String, b: &DirectoryEntry, b_lower: &String) -> (r: bool)
    requires
        a_lower@ == lowercase_mapping(a.name@),
        b_lower@ == lowercase_mapping(b.name@),
    ensures
        r == listed_before(a@, b@),
{
    match compare_text(a_lower.as_str(), b_lower.as_str()) {
        TextOrder::Less => true,
        TextOrder::Greater => {
            proof {
                lemma_text_less_total(a_lower@, b_lower@);
            }
            false
        },
        TextOrder::Equal => matches!(compare_text(a.name.as_str(), b.name.as_str()), TextOrder::Less),
    }
}

/// The views of a list of entries.
pub open spec fn entry_views(entries: Seq<DirectoryEntry>) -> Seq<EntryView> {
    entries.map_values(|e: DirectoryEntry| e@)
}

/// The entries in listing order: by name ignoring case, then by name.
pub fn sort_entries(entries: Vec<DirectoryEntry>) -> (sorted: Vec<DirectoryEntry>)
    ensures
        listing_ordered(entry_views(sorted@)),
        entry_views(sorted@).to_multiset() == entry_views(entries@).to_multiset(),
{
    broadcast use vstd::multiset::group_multiset_axioms;

    let ghost input = entry_views(entries@);
    let mut sorted: Vec<DirectoryEntry> = Vec::new();
    let mut keys: Vec<String> = Vec::new();
    let mut rest = entries;
    let mut taken: usize = 0;
    // `rest` is first reversed so that entries are inserted in their given
    // order.
    let mut reversed: Vec<DirectoryEntry> = Vec::new();
    while rest.len() > 0
        invariant
            entry_views(reversed@) + entry_views(rest@).reverse() == input.reverse(),
        decreases rest@.len(),
    {
        let ghost before_rest = entry_views(rest@);
        let e = rest.pop().unwrap();
        let ghost ev = e@;
        let ghost before_rev = entry_views(reversed@);
        reversed.push(e);
        proof {
            assert(before_rest =~= entry_views(rest@).push(ev));
            assert(entry_views(reversed@) =~= before_rev.push(ev));
            assert(before_rest.reverse() =~= seq![ev] + entry_views(rest@).reverse());
            assert(entry_views(reversed@) + entry_views(rest@).reverse() =~= before_rev + before_rest.reverse());
        }
    }
    assert(entry_views(reversed@) =~= input.reverse()) by {
        assert(entry_views(rest@).reverse() =~= Seq::<EntryView>::empty());
    }
    let total = reversed.len();
    assert(entry_views(sorted@) =~= Seq::<EntryView>::empty());
    assert(input.take(0) =~= Seq::<EntryView>::empty());
    assert(entry_views(reversed@) =~= input.reverse().take(reversed@.len() as int));
    while reversed.len() > 0
        invariant
            total == input.len(),
            taken + reversed@.len() == total,
            entry_views(reversed@) == input.reverse().take(reversed@.len() as int),
            sorted@.len() == keys@.len(),
            forall|k: int| 0 <= k < keys@.len() ==> #[trigger] keys@[k]@ == lowercase_mapping(
                sorted@[k].name@,
            ),
            listing_ordered(entry_views(sorted@)),
            entry_views(sorted@).to_multiset() == input.take(taken as int).to_multiset(),
        decreases reversed@.len(),
    {
        let ghost before_rev = entry_views(reversed@);
        let e = reversed.pop().unwrap();
        let ghost ev = e@;
        proof {
            assert(before_rev =~= entry_views(reversed@).push(ev));
            assert(ev == input[taken as int]) by {
                assert(input.reverse().take(before_rev.len() as int)[before_rev.len() - 1]
                    == input.reverse()[before_rev.len() - 1]);
            }
            assert(entry_views(reversed@) =~= input.reverse().take(reversed@.len() as int));
        }
        let key = to_lowercase(e.name.as_str());
        let mut p: usize = 0;
        while p < sorted.len() && !before(&e, &key, &sorted[p], &keys[p])
            invariant
                p <= sorted@.len(),
                sorted@.len() == keys@.len(),
                key@ == lowercase_mapping(e.name@),
                forall|k: int| 0 <= k < keys@.len() ==> #[trigger] keys@[k]@ == lowercase_mapping(
                    sorted@[k].name@,
                ),
                forall|k: int| 0 <= k < p ==> !listed_before(e@, #[trigger] entry_views(sorted@)[k]),
            decreases sorted@.len() - p,
        {
            p = p + 1;
        }
        let ghost old_sorted = entry_views(sorted@);
        let ghost old_keys = keys@;
        sorted.insert(p, e);
        keys.insert(p, key);
        proof {
            let now = entry_views(sorted@);
            assert(now =~= old_sorted.insert(p as int, ev));
            assert forall|i: int, j: int| 0 <= i < j < now.len() implies !listed_before(
                #[trigger] now[j],
                #[trigger] now[i],
            ) by {
                if j < p {
                    assert(now[i] == old_sorted[i] && now[j] == old_sorted[j]);
                } else if j == p {
                    assert(now[i] == old_sorted[i]);
                } else if i == p {
                    assert(now[j] == old_sorted[j - 1]);
                    // `ev` comes before the entry that was at `p`, which is not after
                    // the entry now at `j`.
                    assert(p < old_sorted.len());
                    assert(listed_before(ev, old_sorted[p as int]));
                    if listed_before(old_sorted[j - 1], ev) {
                        lemma_listed_before_transitive(old_sorted[j - 1], ev, old_sorted[p as int]);
                        if j - 1 > p {
                            assert(!listed_before(old_sorted[j - 1], old_sorted[p as int]));
                        } else {
                            lemma_text_less_irreflexive(lowercase_mapping(old_sorted[p as int].name));
                            lemma_text_less_irreflexive(old_sorted[p as int].name);
                        }
                    }
                } else if i < p {
                    assert(now[i] == old_sorted[i] && now[j] == old_sorted[j - 1]);
                } else {
                    assert(now[i] == old_sorted[i - 1] && now[j] == old_sorted[j - 1]);
                }
            }
            assert forall|k: int| 0 <= k < keys@.len() implies #[trigger] keys@[k]@ == lowercase_mapping(
                sorted@[k].name@,
            ) by {
                if k < p {
                    assert(keys@[k] == old_keys[k]);
                } else if k > p {
                    assert(keys@[k] == old_keys[k - 1]);
                }
            }
            vstd::seq_lib::to_multiset_insert(old_sorted, p as int, ev);
            assert(input.take(taken + 1) =~= input.take(taken as int).push(ev));
            vstd::seq_lib::to_multiset_build(input.take(taken as int), ev);
        }
        taken = taken + 1;
    }
    assert(input.take(taken as int) =~= input);
    sorted
}

} // verus!
