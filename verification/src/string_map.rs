//! A small verified map from strings to strings, kept as an association
//! vector sorted by key. It backs request headers, query parameters, response
//! headers, locals and route parameter bindings, and its view is a
//! mathematical `Map` from character sequences to character sequences.

use vstd::map::*;
use vstd::prelude::*;

use crate::strutil::{lemma_lex_total, lex_lt, str_eq, str_lex_lt};

verus! {

/// The map described by an association sequence; later entries win.
pub open spec fn map_of(s: Seq<(String, String)>) -> Map<Seq<char>, Seq<char>>
    decreases s.len(),
{
    if s.len() == 0 {
        Map::empty()
    } else {
        map_of(s.drop_last()).insert(s.last().0@, s.last().1@)
    }
}

/// Inserting a sequence of pairs into a map, in order; later pairs win.
pub open spec fn insert_pairs(m: Map<Seq<char>, Seq<char>>, ps: Seq<(String, String)>) -> Map<
    Seq<char>,
    Seq<char>,
>
    decreases ps.len(),
{
    if ps.len() == 0 {
        m
    } else {
        insert_pairs(m.insert(ps[0].0@, ps[0].1@), ps.drop_first())
    }
}

/// Entry keys are strictly sorted, so every key occurs at most once.
pub open spec fn entries_sorted(s: Seq<(String, String)>) -> bool {
    forall|i: int, j: int| 0 <= i < j < s.len() ==> lex_lt(#[trigger] s[i].0@, #[trigger] s[j].0@)
}

proof fn lemma_lex_irrefl(a: Seq<char>)
    ensures
        !lex_lt(a, a),
    decreases a.len(),
{
    if a.len() > 0 {
        lemma_lex_irrefl(a.drop_first());
    }
}

proof fn lemma_lex_trans(a: Seq<char>, b: Seq<char>, c: Seq<char>)
    requires
        lex_lt(a, b),
        lex_lt(b, c),
    ensures
        lex_lt(a, c),
    decreases a.len() + b.len() + c.len(),
{
    if a.len() == 0 {
    } else if (a[0] as int) < (b[0] as int) {
        if (b[0] as int) < (c[0] as int) {
        } else {
            assert(b[0] == c[0]);
        }
    } else {
        assert(a[0] == b[0]);
        if (b[0] as int) < (c[0] as int) {
        } else {
            assert(b[0] == c[0]);
            lemma_lex_trans(a.drop_first(), b.drop_first(), c.drop_first());
        }
    }
}

/// How `map_of` relates to the entries themselves, when the keys are sorted:
/// the domain is exactly the set of keys, and each key maps to its entry's
/// value.
proof fn lemma_map_of_entries(s: Seq<(String, String)>)
    requires
        entries_sorted(s),
    ensures
        forall|k: Seq<char>|
            map_of(s).contains_key(k) <==> exists|i: int| 0 <= i < s.len() && (#[trigger] s[i].0@)
                == k,
        forall|i: int|
            0 <= i < s.len() ==> map_of(s).contains_key(#[trigger] s[i].0@)
                && map_of(s)[s[i].0@] == s[i].1@,
    decreases s.len(),
{
    if s.len() > 0 {
        let d = s.drop_last();
        assert(forall|i: int| 0 <= i < d.len() ==> (#[trigger] d[i]) == s[i]);
        assert(entries_sorted(d));
        lemma_map_of_entries(d);
        assert forall|i: int|
            0 <= i < s.len() implies map_of(s).contains_key(#[trigger] s[i].0@)
            && map_of(s)[s[i].0@] == s[i].1@ by {
            if i < s.len() - 1 {
                assert(lex_lt(s[i].0@, s.last().0@));
                lemma_lex_irrefl(s[i].0@);
                assert(s[i].0@ != s.last().0@);
                assert(map_of(d).contains_key(d[i].0@) && map_of(d)[d[i].0@] == d[i].1@);
            }
        }
        assert forall|k: Seq<char>| map_of(s).contains_key(k) implies exists|i: int|
            0 <= i < s.len() && (#[trigger] s[i].0@) == k by {
            if k == s.last().0@ {
                assert(s[s.len() - 1].0@ == k);
            } else {
                assert(map_of(d).contains_key(k));
                let i = choose|i: int| 0 <= i < d.len() && (#[trigger] d[i].0@) == k;
                assert(s[i].0@ == k);
            }
        }
        assert forall|k: Seq<char>|
            (exists|i: int| 0 <= i < s.len() && (#[trigger] s[i].0@) == k) implies map_of(
            s,
        ).contains_key(k) by {
            let i = choose|i: int| 0 <= i < s.len() && (#[trigger] s[i].0@) == k;
            if i < s.len() - 1 {
                assert(d[i].0@ == k);
                assert(map_of(d).contains_key(k));
            }
        }
    }
}

/// A map from strings to strings with a sorted unique-key representation.
pub struct StringMap {
    entries: Vec<(String, String)>,
}

impl View for StringMap {
    type V = Map<Seq<char>, Seq<char>>;

    closed spec fn view(&self) -> Map<Seq<char>, Seq<char>> {
        map_of(self.entries@)
    }
}

impl StringMap {
    /// The representation invariant: keys strictly sorted.
    pub closed spec fn wf(&self) -> bool {
        entries_sorted(self.entries@)
    }

    /// The entries as the map view sees them.
    pub closed spec fn spec_entries(&self) -> Seq<(String, String)> {
        self.entries@
    }

    /// A well-formed map's entries are exactly its view: each entry key is in
    /// the domain and maps to the entry value, and every domain element is an
    /// entry key.
    pub proof fn lemma_entries_view(&self)
        requires
            self.wf(),
        ensures
            forall|k: Seq<char>|
                self@.contains_key(k) <==> exists|i: int|
                    0 <= i < self.spec_entries().len() && (#[trigger] self.spec_entries()[i].0@)
                        == k,
            forall|i: int|
                0 <= i < self.spec_entries().len() ==> self@.contains_key(
                    #[trigger] self.spec_entries()[i].0@,
                ) && self@[self.spec_entries()[i].0@] == self.spec_entries()[i].1@,
            entries_sorted(self.spec_entries()),
            self@ == map_of(self.spec_entries()),
    {
        let s = self.spec_entries();
        assert(s == self.entries@);
        lemma_map_of_entries(s);
    }

    /// Creates an empty map.
    pub fn new() -> (r: StringMap)
        ensures
            r@ == Map::<Seq<char>, Seq<char>>::empty(),
            r.wf(),
            r.spec_entries().len() == 0,
    {
        StringMap { entries: Vec::new() }
    }

    /// The number of entries.
    pub fn len(&self) -> (r: usize)
        ensures
            r == self.spec_entries().len(),
    {
        self.entries.len()
    }

    /// The sorted entries themselves, for iteration.
    pub fn entries(&self) -> (r: &Vec<(String, String)>)
        ensures
            r@ == self.spec_entries(),
    {
        &self.entries
    }

    /// Looks a key up.
    pub fn get(&self, key: &str) -> (r: Option<&String>)
        requires
            self.wf(),
        ensures
            match r {
                Some(v) => self@.contains_key(key@) && v@ == self@[key@],
                None => !self@.contains_key(key@),
            },
    {
        let n = self.entries.len();
        let mut i: usize = 0;
        while i < n
            invariant
                self.wf(),
                n == self.entries@.len(),
                0 <= i <= n,
                forall|j: int| 0 <= j < i ==> (#[trigger] self.entries@[j].0@) != key@,
            decreases n - i,
        {
            if str_eq(self.entries[i].0.as_str(), key) {
                proof {
                    self.lemma_entries_view();
                    assert(self.spec_entries()[i as int].0@ == key@);
                }
                return Some(&self.entries[i].1);
            }
            i = i + 1;
        }
        proof {
            self.lemma_entries_view();
            if self@.contains_key(key@) {
                let j = choose|j: int|
                    0 <= j < self.spec_entries().len() && (#[trigger] self.spec_entries()[j].0@)
                        == key@;
                assert(self.entries@[j].0@ == key@);
                assert(false);
            }
        }
        None
    }

    /// Whether a key is present.
    pub fn contains_key(&self, key: &str) -> (r: bool)
        requires
            self.wf(),
        ensures
            r == self@.contains_key(key@),
    {
        match self.get(key) {
            Some(_) => true,
            None => false,
        }
    }

    /// Inserts a pair, replacing any earlier value for the key.
    pub fn insert(&mut self, key: &str, value: &str)
        requires
            old(self).wf(),
        ensures
            final(self).wf(),
            final(self)@ == old(self)@.insert(key@, value@),
    {
        let n = self.entries.len();
        let mut i: usize = 0;
        while i < n
            invariant
                self.wf(),
                n == self.entries@.len(),
                0 <= i <= n,
                forall|j: int| 0 <= j < i ==> lex_lt(#[trigger] self.entries@[j].0@, key@),
            ensures
                self.wf(),
                n == self.entries@.len(),
                0 <= i <= n,
                forall|j: int| 0 <= j < i ==> lex_lt(#[trigger] self.entries@[j].0@, key@),
                i < n ==> !lex_lt(self.entries@[i as int].0@, key@),
            decreases n - i,
        {
            if !str_lex_lt(self.entries[i].0.as_str(), key) {
                break ;
            }
            i = i + 1;
        }
        let replace: bool = if i < n {
            proof {
                lemma_lex_total(self.entries@[i as int].0@, key@);
            }
            str_eq(self.entries[i].0.as_str(), key)
        } else {
            false
        };
        let pair = (key.to_owned(), value.to_owned());
        let ghost old_entries = self.entries@;
        if replace {
            self.entries.remove(i);
            self.entries.insert(i, pair);
            proof {
                assert(self.entries@ =~= old_entries.update(i as int, pair));
                lemma_insert_update(self.entries@, old_entries, pair, i as int, key@, value@);
            }
        } else {
            self.entries.insert(i, pair);
            proof {
                if i < old_entries.len() {
                    lemma_lex_total(old_entries[i as int].0@, key@);
                }
                lemma_insert_fresh(self.entries@, old_entries, pair, i as int, key@, value@);
            }
        }
    }
}

proof fn lemma_insert_update(
    s2: Seq<(String, String)>,
    old_entries: Seq<(String, String)>,
    pair: (String, String),
    i: int,
    key: Seq<char>,
    value: Seq<char>,
)
    requires
        entries_sorted(old_entries),
        0 <= i < old_entries.len(),
        old_entries[i].0@ == key,
        pair.0@ == key,
        pair.1@ == value,
        s2 == old_entries.update(i, pair),
    ensures
        entries_sorted(s2),
        map_of(s2) == map_of(old_entries).insert(key, value),
{
    assert forall|a: int, b: int| 0 <= a < b < s2.len() implies lex_lt(
        #[trigger] s2[a].0@,
        #[trigger] s2[b].0@,
    ) by {
        assert(s2[a].0@ == old_entries[a].0@);
        assert(s2[b].0@ == old_entries[b].0@);
    }
    lemma_map_of_entries(old_entries);
    lemma_map_of_entries(s2);
    assert_maps_equal!(map_of(s2), map_of(old_entries).insert(key, value), k => {
        if map_of(s2).contains_key(k) {
            let j = choose|j: int| 0 <= j < s2.len() && (#[trigger] s2[j].0@) == k;
            if j != i {
                assert(old_entries[j].0@ == k);
            }
            assert(map_of(old_entries).insert(key, value).contains_key(k));
        }
        if map_of(old_entries).insert(key, value).contains_key(k) {
            if k == key {
                assert(s2[i].0@ == k);
                assert(map_of(s2)[k] == s2[i].1@);
            } else {
                assert(map_of(old_entries).contains_key(k));
                let j = choose|j: int|
                    0 <= j < old_entries.len() && (#[trigger] old_entries[j].0@) == k;
                assert(j != i);
                assert(s2[j].0@ == k);
                assert(map_of(s2)[k] == s2[j].1@);
                assert(map_of(old_entries)[k] == old_entries[j].1@);
            }
        }
    });
}

proof fn lemma_insert_fresh(
    s2: Seq<(String, String)>,
    old_entries: Seq<(String, String)>,
    pair: (String, String),
    i: int,
    key: Seq<char>,
    value: Seq<char>,
)
    requires
        entries_sorted(old_entries),
        0 <= i <= old_entries.len(),
        forall|j: int| 0 <= j < i ==> lex_lt(#[trigger] old_entries[j].0@, key),
        i < old_entries.len() ==> lex_lt(key, old_entries[i].0@),
        pair.0@ == key,
        pair.1@ == value,
        s2 == old_entries.insert(i, pair),
    ensures
        entries_sorted(s2),
        map_of(s2) == map_of(old_entries).insert(key, value),
{
    assert(s2.len() == old_entries.len() + 1);
    assert forall|j: int| 0 <= j < s2.len() implies (#[trigger] s2[j]) == (if j < i {
        old_entries[j]
    } else if j == i {
        pair
    } else {
        old_entries[j - 1]
    }) by {
        assert(s2 == old_entries.insert(i, pair));
    }
    assert forall|a: int, b: int| 0 <= a < b < s2.len() implies lex_lt(
        #[trigger] s2[a].0@,
        #[trigger] s2[b].0@,
    ) by {
        if b < i {
        } else if b == i {
            assert(lex_lt(old_entries[a].0@, key));
        } else if a == i {
            if b - 1 > i {
                lemma_lex_trans(key, old_entries[i].0@, old_entries[b - 1].0@);
            }
        } else if a < i {
            assert(lex_lt(old_entries[a].0@, key));
            if b - 1 == i {
                assert(lex_lt(key, old_entries[i].0@));
                lemma_lex_trans(old_entries[a].0@, key, old_entries[b - 1].0@);
            } else {
                lemma_lex_trans(key, old_entries[i].0@, old_entries[b - 1].0@);
                lemma_lex_trans(old_entries[a].0@, key, old_entries[b - 1].0@);
            }
        } else {
            assert(lex_lt(old_entries[a - 1].0@, old_entries[b - 1].0@));
        }
    }
    lemma_map_of_entries(old_entries);
    lemma_map_of_entries(s2);
    assert_maps_equal!(map_of(s2), map_of(old_entries).insert(key, value), k => {
        if map_of(s2).contains_key(k) {
            let j = choose|j: int| 0 <= j < s2.len() && (#[trigger] s2[j].0@) == k;
            if j < i {
                assert(old_entries[j].0@ == k);
            } else if j > i {
                assert(old_entries[j - 1].0@ == k);
            }
            assert(map_of(old_entries).insert(key, value).contains_key(k));
        }
        if map_of(old_entries).insert(key, value).contains_key(k) {
            lemma_lex_irrefl(key);
            if k == key {
                assert(s2[i].0@ == k);
                assert(map_of(s2)[k] == s2[i].1@);
            } else {
                assert(map_of(old_entries).contains_key(k));
                let j = choose|j: int|
                    0 <= j < old_entries.len() && (#[trigger] old_entries[j].0@) == k;
                if j < i {
                    assert(s2[j].0@ == k);
                    assert(map_of(s2)[k] == s2[j].1@);
                } else {
                    assert(old_entries[j].0@ != key);
                    assert(s2[j + 1].0@ == k);
                    assert(map_of(s2)[k] == s2[j + 1].1@);
                }
                assert(map_of(old_entries)[k] == old_entries[j].1@);
            }
        }
    });
}

proof fn lemma_remove_entry(
    s2: Seq<(String, String)>,
    old_entries: Seq<(String, String)>,
    i: int,
    key: Seq<char>,
)
    requires
        entries_sorted(old_entries),
        0 <= i < old_entries.len(),
        old_entries[i].0@ == key,
        s2 == old_entries.remove(i),
    ensures
        entries_sorted(s2),
        map_of(s2) == map_of(old_entries).remove(key),
{
    assert(s2.len() == old_entries.len() - 1);
    assert(forall|j: int|
        0 <= j < s2.len() ==> (#[trigger] s2[j]) == (if j < i {
            old_entries[j]
        } else {
            old_entries[j + 1]
        }));
    assert forall|a: int, b: int| 0 <= a < b < s2.len() implies lex_lt(
        #[trigger] s2[a].0@,
        #[trigger] s2[b].0@,
    ) by {
        if a < i && b >= i {
            assert(lex_lt(old_entries[a].0@, old_entries[b + 1].0@));
        }
    }
    lemma_map_of_entries(old_entries);
    lemma_map_of_entries(s2);
    assert_maps_equal!(map_of(s2), map_of(old_entries).remove(key), k => {
        if map_of(s2).contains_key(k) {
            let j = choose|j: int| 0 <= j < s2.len() && (#[trigger] s2[j].0@) == k;
            if j < i {
                assert(old_entries[j].0@ == k);
                lemma_lex_irrefl(k);
                assert(lex_lt(old_entries[j].0@, old_entries[i].0@));
                assert(k != key);
            } else {
                assert(old_entries[j + 1].0@ == k);
                lemma_lex_irrefl(k);
                assert(lex_lt(old_entries[i].0@, old_entries[j + 1].0@));
                assert(k != key);
            }
            assert(map_of(old_entries).remove(key).contains_key(k));
        }
        if map_of(old_entries).remove(key).contains_key(k) {
            assert(map_of(old_entries).contains_key(k) && k != key);
            let j = choose|j: int|
                0 <= j < old_entries.len() && (#[trigger] old_entries[j].0@) == k;
            assert(j != i);
            if j < i {
                assert(s2[j].0@ == k);
                assert(map_of(s2)[k] == s2[j].1@);
            } else {
                assert(s2[j - 1].0@ == k);
                assert(map_of(s2)[k] == s2[j - 1].1@);
            }
            assert(map_of(old_entries)[k] == old_entries[j].1@);
        }
    });
}

impl StringMap {
    /// Removes a key, if present.
    pub fn remove(&mut self, key: &str)
        requires
            old(self).wf(),
        ensures
            final(self).wf(),
            final(self)@ == old(self)@.remove(key@),
    {
        let n = self.entries.len();
        let mut i: usize = 0;
        while i < n
            invariant
                self.wf(),
                self.entries@ == old(self).entries@,
                n == self.entries@.len(),
                0 <= i <= n,
                forall|j: int| 0 <= j < i ==> (#[trigger] self.entries@[j].0@) != key@,
            decreases n - i,
        {
            if str_eq(self.entries[i].0.as_str(), key) {
                let ghost old_entries = self.entries@;
                self.entries.remove(i);
                proof {
                    lemma_remove_entry(self.entries@, old_entries, i as int, key@);
                }
                return ;
            }
            i = i + 1;
        }
        proof {
            self.lemma_entries_view();
            if self@.contains_key(key@) {
                let j = choose|j: int|
                    0 <= j < self.spec_entries().len() && (#[trigger] self.spec_entries()[j].0@)
                        == key@;
                assert(self.entries@[j].0@ == key@);
                assert(false);
            }
            assert(self@ =~= self@.remove(key@));
        }
    }
}

impl Clone for StringMap {
    /// Clones the map entry by entry: the clone has the same entries, hence
    /// the same view and the same well-formedness.
    fn clone(&self) -> (res: Self)
        ensures
            res.spec_entries() == self.spec_entries(),
            res@ == self@,
            res.wf() == self.wf(),
    {
        let n = self.entries.len();
        let mut entries: Vec<(String, String)> = Vec::new();
        let mut i: usize = 0;
        while i < n
            invariant
                n == self.entries@.len(),
                0 <= i <= n,
                entries@.len() == i,
                forall|j: int| 0 <= j < i ==> entries@[j] == self.entries@[j],
            decreases n - i,
        {
            entries.push((self.entries[i].0.clone(), self.entries[i].1.clone()));
            i = i + 1;
        }
        proof {
            assert(entries@ =~= self.entries@);
        }
        StringMap { entries }
    }
}

} // verus!
