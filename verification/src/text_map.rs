//! A map keyed by text whose entries are kept in the order of `String`'s `Ord`,
//! so that listing it gives the entries sorted by key.

use vstd::prelude::*;
use crate::text::{
    text_less, compare_text, TextOrder, lemma_text_less_irreflexive, lemma_text_less_total,
    lemma_text_less_transitive,
};

verus! {

/// Entries keyed by text, sorted by key, each key at most once.
pub struct TextMap<V> {
    entries: Vec<(String, V)>,
    contents: Ghost<Map<Seq<char>, V>>,
}

/// The keys of `entries` are strictly increasing.
pub open spec fn keys_sorted<V>(entries: Seq<(String, V)>) -> bool {
    forall|i: int, j: int|
        0 <= i < j < entries.len() ==> text_less(#[trigger] entries[i].0@, #[trigger] entries[j].0@)
}

/// `entries` lists exactly the pairs of `m`.
pub open spec fn lists_map<V>(entries: Seq<(String, V)>, m: Map<Seq<char>, V>) -> bool {
    &&& forall|i: int|
        0 <= i < entries.len() ==> m.contains_key(#[trigger] entries[i].0@) && m[entries[i].0@]
            == entries[i].1
    &&& forall|k: Seq<char>|
        #[trigger] m.contains_key(k) ==> exists|i: int| 0 <= i < entries.len() && #[trigger] entries[i].0@ == k
}

impl<V> TextMap<V> {
    /// The key-value pairs held.
    pub closed spec fn view(&self) -> Map<Seq<char>, V> {
        self.contents@
    }

    /// The entries, in key order.
    pub closed spec fn listed(&self) -> Seq<(String, V)> {
        self.entries@
    }

    /// The entries are sorted by key and list exactly the pairs held.
    pub closed spec fn wf(&self) -> bool {
        &&& keys_sorted(self.entries@)
        &&& lists_map(self.entries@, self.contents@)
    }

    /// An empty map.
    pub fn new() -> (m: TextMap<V>)
        ensures
            m.wf(),
            m.view() == Map::<Seq<char>, V>::empty(),
            m.listed() == Seq::<(String, V)>::empty(),
    {
        TextMap { entries: Vec::new(), contents: Ghost(Map::empty()) }
    }

    /// The number of entries.
    pub fn len(&self) -> (n: usize)
        ensures
            n == self.listed().len(),
    {
        self.entries.len()
    }

    /// The entries in key order.
    pub fn entries(&self) -> (entries: &Vec<(String, V)>)
        requires
            self.wf(),
        ensures
            entries@ == self.listed(),
            keys_sorted(entries@),
            lists_map(entries@, self.view()),
    {
        &self.entries
    }

    /// The position of the entry for `key`, if there is one.
    fn position(&self, key: &str) -> (r: Option<usize>)
        requires
            self.wf(),
        ensures
            match r {
                Some(i) => i < self.entries@.len() && self.entries@[i as int].0@ == key@,
                None => !self.contents@.contains_key(key@),
            },
    {
        let mut i: usize = 0;
        while i < self.entries.len()
            invariant
                self.wf(),
                i <= self.entries@.len(),
                forall|j: int| 0 <= j < i ==> #[trigger] self.entries@[j].0@ != key@,
            decreases self.entries@.len() - i,
        {
            match compare_text(self.entries[i].0.as_str(), key) {
                TextOrder::Equal => {
                    return Some(i);
                },
                _ => {},
            }
            i = i + 1;
        }
        None
    }

    /// The value held for `key`.
    pub fn get(&self, key: &str) -> (r: Option<&V>)
        requires
            self.wf(),
        ensures
            match r {
                Some(v) => self.view().contains_key(key@) && *v == self.view()[key@],
                None => !self.view().contains_key(key@),
            },
    {
        match self.position(key) {
            Some(i) => Some(&self.entries[i].1),
            None => None,
        }
    }

    /// Whether a value is held for `key`.
    pub fn contains(&self, key: &str) -> (r: bool)
        requires
            self.wf(),
        ensures
            r == self.view().contains_key(key@),
    {
        self.position(key).is_some()
    }

    /// Holds `value` for `key`, replacing any value held before.
    pub fn insert(&mut self, key: String, value: V)
        requires
            old(self).wf(),
        ensures
            final(self).wf(),
            final(self).view() == old(self).view().insert(key@, value),
    {
        let ghost old_entries = self.entries@;
        let ghost old_map = self.contents@;
        let mut p: usize = 0;
        while p < self.entries.len()
            invariant
                self.entries@ == old_entries,
                self.contents@ == old_map,
                self.wf(),
                p <= self.entries@.len(),
                forall|j: int| 0 <= j < p ==> text_less(#[trigger] self.entries@[j].0@, key@),
            ensures
                self.entries@ == old_entries,
                self.contents@ == old_map,
                self.wf(),
                p <= self.entries@.len(),
                forall|j: int| 0 <= j < p ==> text_less(#[trigger] self.entries@[j].0@, key@),
                p < self.entries@.len() ==> !text_less(self.entries@[p as int].0@, key@),
            decreases self.entries@.len() - p,
        {
            match compare_text(self.entries[p].0.as_str(), key.as_str()) {
                TextOrder::Less => {},
                _ => {
                    break;
                },
            }
            p = p + 1;
        }
        let ghost new_map = old_map.insert(key@, value);
        if p < self.entries.len() && matches!(compare_text(self.entries[p].0.as_str(), key.as_str()), TextOrder::Equal) {
            let ghost k = key@;
            self.entries.set(p, (key, value));
            self.contents = Ghost(new_map);
            proof {
                let e = self.entries@;
                assert forall|i: int, j: int| 0 <= i < j < e.len() implies text_less(
                    #[trigger] e[i].0@,
                    #[trigger] e[j].0@,
                ) by {
                    assert(old_entries[i].0@ == e[i].0@);
                    assert(old_entries[j].0@ == e[j].0@);
                }
                assert forall|i: int| 0 <= i < e.len() implies new_map.contains_key(
                    #[trigger] e[i].0@,
                ) && new_map[e[i].0@] == e[i].1 by {
                    if i != p {
                        lemma_text_less_irreflexive(k);
                        if i < p {
                            assert(text_less(old_entries[i].0@, old_entries[p as int].0@));
                        } else {
                            assert(text_less(old_entries[p as int].0@, old_entries[i].0@));
                        }
                    }
                }
                assert forall|kk: Seq<char>| #[trigger] new_map.contains_key(kk) implies exists|
                    i: int,
                | 0 <= i < e.len() && #[trigger] e[i].0@ == kk by {
                    if kk == k {
                        assert(e[p as int].0@ == kk);
                    } else {
                        let i = choose|i: int| 0 <= i < old_entries.len() && #[trigger] old_entries[i].0@ == kk;
                        assert(e[i].0@ == kk);
                    }
                }
            }
        } else {
            let ghost k = key@;
            let ghost v = value;
            self.entries.insert(p, (key, value));
            self.contents = Ghost(new_map);
            proof {
                let e = self.entries@;
                if p < old_entries.len() {
                    lemma_text_less_total(old_entries[p as int].0@, k);
                }
                assert forall|i: int, j: int| 0 <= i < j < e.len() implies text_less(
                    #[trigger] e[i].0@,
                    #[trigger] e[j].0@,
                ) by {
                    if j < p {
                        assert(e[i] == old_entries[i] && e[j] == old_entries[j]);
                    } else if j == p {
                        assert(e[i] == old_entries[i]);
                    } else if i < p {
                        assert(e[i] == old_entries[i] && e[j] == old_entries[j - 1]);
                        assert(text_less(old_entries[i].0@, k));
                        assert(text_less(k, old_entries[p as int].0@));
                        if j - 1 > p {
                            lemma_text_less_transitive(k, old_entries[p as int].0@, old_entries[j - 1].0@);
                        }
                        lemma_text_less_transitive(old_entries[i].0@, k, old_entries[j - 1].0@);
                    } else if i == p {
                        assert(e[j] == old_entries[j - 1]);
                        if j - 1 > p {
                            lemma_text_less_transitive(k, old_entries[p as int].0@, old_entries[j - 1].0@);
                        }
                    } else {
                        assert(e[i] == old_entries[i - 1] && e[j] == old_entries[j - 1]);
                    }
                }
                assert forall|i: int| 0 <= i < e.len() implies new_map.contains_key(
                    #[trigger] e[i].0@,
                ) && new_map[e[i].0@] == e[i].1 by {
                    if i < p {
                        assert(e[i] == old_entries[i]);
                        lemma_text_less_irreflexive(k);
                    } else if i > p {
                        assert(e[i] == old_entries[i - 1]);
                        lemma_text_less_irreflexive(k);
                        if i - 1 > p {
                            lemma_text_less_transitive(k, old_entries[p as int].0@, old_entries[i - 1].0@);
                        }
                        lemma_text_less_total(k, old_entries[i - 1].0@);
                    }
                }
                assert forall|kk: Seq<char>| #[trigger] new_map.contains_key(kk) implies exists|
                    i: int,
                | 0 <= i < e.len() && #[trigger] e[i].0@ == kk by {
                    if kk == k {
                        assert(e[p as int].0@ == kk);
                    } else {
                        let i = choose|i: int| 0 <= i < old_entries.len() && #[trigger] old_entries[i].0@ == kk;
                        if i < p {
                            assert(e[i].0@ == kk);
                        } else {
                            assert(e[i + 1].0@ == kk);
                        }
                    }
                }
            }
        }
    }

    /// Drops the entry for `key`, if there is one.
    pub fn remove(&mut self, key: &str)
        requires
            old(self).wf(),
        ensures
            final(self).wf(),
            final(self).view() == old(self).view().remove(key@),
    {
        let ghost old_entries = self.entries@;
        let ghost old_map = self.contents@;
        match self.position(key) {
            None => {
                assert(old_map.remove(key@) =~= old_map);
            },
            Some(p) => {
                let _ = self.entries.remove(p);
                let ghost new_map = old_map.remove(key@);
                self.contents = Ghost(new_map);
                proof {
                    let e = self.entries@;
                    assert forall|i: int, j: int| 0 <= i < j < e.len() implies text_less(
                        #[trigger] e[i].0@,
                        #[trigger] e[j].0@,
                    ) by {
                        let oi = if i < p { i } else { i + 1 };
                        let oj = if j < p { j } else { j + 1 };
                        assert(e[i] == old_entries[oi] && e[j] == old_entries[oj]);
                    }
                    assert forall|i: int| 0 <= i < e.len() implies new_map.contains_key(
                        #[trigger] e[i].0@,
                    ) && new_map[e[i].0@] == e[i].1 by {
                        let oi = if i < p { i } else { i + 1 };
                        assert(e[i] == old_entries[oi]);
                        lemma_text_less_irreflexive(key@);
                        if oi < p {
                            assert(text_less(old_entries[oi].0@, old_entries[p as int].0@));
                        } else {
                            assert(text_less(old_entries[p as int].0@, old_entries[oi].0@));
                        }
                    }
                    assert forall|kk: Seq<char>| #[trigger] new_map.contains_key(kk) implies exists|
                        i: int,
                    | 0 <= i < e.len() && #[trigger] e[i].0@ == kk by {
                        let i = choose|i: int| 0 <= i < old_entries.len() && #[trigger] old_entries[i].0@ == kk;
                        assert(i != p);
                        if i < p {
                            assert(e[i].0@ == kk);
                        } else {
                            assert(e[i - 1].0@ == kk);
                        }
                    }
                }
            },
        }
    }
}

/// Sorted entries that list a map list each of its keys once: there are as many
/// entries as keys.
pub proof fn lemma_listed_keys_count<V>(entries: Seq<(String, V)>, m: Map<Seq<char>, V>)
    requires
        keys_sorted(entries),
        lists_map(entries, m),
    ensures
        m.dom().finite(),
        m.dom().len() == entries.len(),
{
    let keys = entries.map_values(|e: (String, V)| e.0@);
    assert forall|i: int, j: int| 0 <= i < keys.len() && 0 <= j < keys.len() && i != j implies keys[i] != keys[j] by {
        if i < j {
            assert(text_less(entries[i].0@, entries[j].0@));
            lemma_text_less_irreflexive(entries[i].0@);
        } else {
            assert(text_less(entries[j].0@, entries[i].0@));
            lemma_text_less_irreflexive(entries[j].0@);
        }
    }
    assert(keys.no_duplicates());
    keys.unique_seq_to_set();
    assert forall|k: Seq<char>| m.dom().contains(k) <==> keys.to_set().contains(k) by {
        if m.dom().contains(k) {
            let i = choose|i: int| 0 <= i < entries.len() && #[trigger] entries[i].0@ == k;
            assert(keys[i] == k);
        }
        if keys.to_set().contains(k) {
            let i = choose|i: int| 0 <= i < keys.len() && keys[i] == k;
            assert(m.contains_key(entries[i].0@));
        }
    }
    assert(m.dom() =~= keys.to_set());
}

} // verus!
