//! The partial templates pages include: `www/partials/x.liquid` is included as
//! `partials/x.liquid`.
use vstd::prelude::*;
use crate::text::{owned, same_text};

verus! {

/// Partial templates by name.
#[derive(Clone)]
pub struct Partials {
    entries: Vec<(String, String)>,
}

/// The name a page includes a partial file by: `partials/` and the file's name.
pub open spec fn partial_name(file_name: Seq<char>) -> Seq<char> {
    "partials/"@ + file_name
}

/// Whether a file with this extension is a partial: `html` or `liquid`.
pub open spec fn is_partial_extension(ext: Seq<char>) -> bool {
    ext == "html"@ || ext == "liquid"@
}

/// Whether a file with this extension is loaded as a partial.
pub fn partial_extension(ext: &str) -> (r: bool)
    ensures
        r == is_partial_extension(ext@),
{
    same_text(ext, "html") || same_text(ext, "liquid")
}

/// The name a page includes a partial file by.
pub fn name_for_partial(file_name: &str) -> (name: String)
    ensures
        name@ == partial_name(file_name@),
{
    let mut name = owned("partials/");
    name.append(file_name);
    name
}

/// The names held by a list of entries.
pub open spec fn entry_names(entries: Seq<(String, String)>) -> Set<Seq<char>> {
    Set::new(|k: Seq<char>| exists|i: int| 0 <= i < entries.len() && (#[trigger] entries[i]).0@ == k)
}

/// The source held for `k`: that of the entry with that name.
pub open spec fn entry_source(entries: Seq<(String, String)>, k: Seq<char>) -> Seq<char> {
    entries[choose|i: int| 0 <= i < entries.len() && (#[trigger] entries[i]).0@ == k].1@
}

/// Each name occurs in one entry at most.
pub open spec fn names_unique(entries: Seq<(String, String)>) -> bool {
    forall|i: int, j: int|
        0 <= i < entries.len() && 0 <= j < entries.len() && i != j ==> (#[trigger] entries[i]).0@
            != (#[trigger] entries[j]).0@
}

/// The partials a list of entries holds: each name with the source of its entry.
pub open spec fn pairs_map(entries: Seq<(String, String)>) -> Map<Seq<char>, Seq<char>> {
    Map::new(|k: Seq<char>| entry_names(entries).contains(k), |k: Seq<char>| entry_source(entries, k))
}

impl View for Partials {
    type V = Map<Seq<char>, Seq<char>>;

    closed spec fn view(&self) -> Map<Seq<char>, Seq<char>> {
        pairs_map(self.entries@)
    }
}

proof fn lemma_entry(entries: Seq<(String, String)>, i: int)
    requires
        names_unique(entries),
        0 <= i < entries.len(),
    ensures
        entry_names(entries).contains(entries[i].0@),
        entry_source(entries, entries[i].0@) == entries[i].1@,
{
    let k = entries[i].0@;
    assert(entry_names(entries).contains(k));
    let c = choose|j: int| 0 <= j < entries.len() && (#[trigger] entries[j]).0@ == k;
    assert(c == i);
}

impl Partials {
    /// The entries hold each name once.
    pub closed spec fn well_formed(&self) -> bool {
        names_unique(self.entries@)
    }

    /// No partials.
    pub fn new() -> (p: Partials)
        ensures
            p.well_formed(),
            p@ == Map::<Seq<char>, Seq<char>>::empty(),
    {
        let p = Partials { entries: Vec::new() };
        assert(p@ =~= Map::<Seq<char>, Seq<char>>::empty());
        p
    }

    fn position(&self, name: &str) -> (r: Option<usize>)
        ensures
            match r {
                Some(i) => i < self.entries@.len() && self.entries@[i as int].0@ == name@,
                None => forall|i: int| 0 <= i < self.entries@.len() ==> (#[trigger] self.entries@[i]).0@ != name@,
            },
    {
        let mut i: usize = 0;
        while i < self.entries.len()
            invariant
                i <= self.entries@.len(),
                forall|k: int| 0 <= k < i ==> (#[trigger] self.entries@[k]).0@ != name@,
            decreases self.entries@.len() - i,
        {
            if same_text(self.entries[i].0.as_str(), name) {
                return Some(i);
            }
            i = i + 1;
        }
        None
    }

    /// Adds a partial, in place of any with the same name.
    pub fn insert(&mut self, name: String, source: String)
        requires
            old(self).well_formed(),
        ensures
            final(self).well_formed(),
            final(self)@ == old(self)@.insert(name@, source@),
    {
        let ghost before = self.entries@;
        let ghost old_map = self@;
        let ghost n = name@;
        let ghost s = source@;
        match self.position(name.as_str()) {
            Some(i) => {
                self.entries.set(i, (name, source));
                proof {
                    lemma_replace(before, self.entries@, i as int, n, s);
                }
            },
            None => {
                self.entries.push((name, source));
                proof {
                    assert(self.entries@.drop_last() =~= before);
                    lemma_append(before, self.entries@, n, s);
                }
            },
        }
        proof {
            assert(self@ =~= old_map.insert(n, s));
        }
    }

    /// Whether there is a partial with this name.
    pub fn contains(&self, name: &str) -> (r: bool)
        requires
            self.well_formed(),
        ensures
            r == self@.contains_key(name@),
    {
        match self.position(name) {
            Some(i) => {
                proof {
                    lemma_entry(self.entries@, i as int);
                }
                true
            },
            None => false,
        }
    }

    /// The source of the partial with this name.
    pub fn try_get(&self, name: &str) -> (r: Option<String>)
        requires
            self.well_formed(),
        ensures
            match r {
                Some(s) => self@.contains_key(name@) && self@[name@] == s@,
                None => !self@.contains_key(name@),
            },
    {
        match self.position(name) {
            Some(i) => {
                proof {
                    lemma_entry(self.entries@, i as int);
                }
                Some(self.entries[i].1.clone())
            },
            None => None,
        }
    }

    /// The partials as a list of entries, each name once.
    pub fn pairs(&self) -> (p: &Vec<(String, String)>)
        requires
            self.well_formed(),
        ensures
            pairs_map(p@) == self@,
            names_unique(p@),
    {
        &self.entries
    }

    /// The names of all partials, each once.
    pub fn names(&self) -> (names: Vec<String>)
        requires
            self.well_formed(),
        ensures
            forall|i: int, j: int| 0 <= i < j < names@.len() ==> (#[trigger] names@[i])@ != (#[trigger] names@[j])@,
            forall|i: int| 0 <= i < names@.len() ==> self@.contains_key(#[trigger] names@[i]@),
            forall|k: Seq<char>| #[trigger] self@.contains_key(k) ==> exists|i: int| 0 <= i < names@.len() && names@[i]@ == k,
    {
        let mut names: Vec<String> = Vec::new();
        let mut i: usize = 0;
        while i < self.entries.len()
            invariant
                self.well_formed(),
                i <= self.entries@.len(),
                names@.len() == i,
                forall|k: int| 0 <= k < i ==> (#[trigger] names@[k])@ == self.entries@[k].0@,
            decreases self.entries@.len() - i,
        {
            names.push(self.entries[i].0.clone());
            i = i + 1;
        }
        proof {
            assert forall|k: int| 0 <= k < names@.len() implies self@.contains_key(#[trigger] names@[k]@) by {
                lemma_entry(self.entries@, k);
            }
            assert forall|k: Seq<char>| #[trigger] self@.contains_key(k) implies exists|m: int| 0 <= m < names@.len() && names@[m]@ == k by {
                let j = choose|j: int| 0 <= j < self.entries@.len() && (#[trigger] self.entries@[j]).0@ == k;
                assert(names@[j]@ == k);
            }
        }
        names
    }
}

proof fn lemma_replace(before: Seq<(String, String)>, after: Seq<(String, String)>, i: int, n: Seq<char>, s: Seq<char>)
    requires
        names_unique(before),
        0 <= i < before.len(),
        before[i].0@ == n,
        after == before.update(i, after[i]),
        after[i].0@ == n,
        after[i].1@ == s,
    ensures
        names_unique(after),
        entry_names(after) == entry_names(before),
        forall|k: Seq<char>| #[trigger] entry_names(after).contains(k) && k != n ==> entry_source(after, k) == entry_source(before, k),
        entry_names(after).contains(n) && entry_source(after, n) == s,
{
    assert forall|a: int, b: int| 0 <= a < after.len() && 0 <= b < after.len() && a != b implies (#[trigger] after[a]).0@
        != (#[trigger] after[b]).0@ by {
        if a != i && b != i {
            assert(after[a] == before[a] && after[b] == before[b]);
        } else if a == i {
            assert(after[b] == before[b]);
        } else {
            assert(after[a] == before[a]);
        }
    }
    assert forall|k: Seq<char>| entry_names(after).contains(k) <==> entry_names(before).contains(k) by {
        if entry_names(before).contains(k) {
            let j = choose|j: int| 0 <= j < before.len() && (#[trigger] before[j]).0@ == k;
            if j == i {
                assert(after[i].0@ == k);
            } else {
                assert(after[j] == before[j]);
            }
        }
        if entry_names(after).contains(k) {
            let j = choose|j: int| 0 <= j < after.len() && (#[trigger] after[j]).0@ == k;
            if j == i {
                assert(before[i].0@ == k);
            } else {
                assert(after[j] == before[j]);
            }
        }
    }
    assert(entry_names(after) =~= entry_names(before));
    assert forall|k: Seq<char>| #[trigger] entry_names(after).contains(k) && k != n implies entry_source(after, k) == entry_source(before, k) by {
        let j = choose|j: int| 0 <= j < after.len() && (#[trigger] after[j]).0@ == k;
        assert(j != i);
        assert(after[j] == before[j]);
        lemma_entry(after, j);
        lemma_entry(before, j);
    }
    lemma_entry(after, i);
}

proof fn lemma_append(before: Seq<(String, String)>, after: Seq<(String, String)>, n: Seq<char>, s: Seq<char>)
    requires
        names_unique(before),
        forall|i: int| 0 <= i < before.len() ==> (#[trigger] before[i]).0@ != n,
        after.len() == before.len() + 1,
        after.drop_last() == before,
        after.last().0@ == n,
        after.last().1@ == s,
    ensures
        names_unique(after),
        entry_names(after) == entry_names(before).insert(n),
        forall|k: Seq<char>| #[trigger] entry_names(after).contains(k) && k != n ==> entry_source(after, k) == entry_source(before, k),
        entry_names(after).contains(n) && entry_source(after, n) == s,
{
    let m = before.len() as int;
    assert forall|j: int| 0 <= j < m implies after[j] == before[j] by {
        assert(after.drop_last()[j] == after[j]);
    }
    assert forall|a: int, b: int| 0 <= a < after.len() && 0 <= b < after.len() && a != b implies (#[trigger] after[a]).0@
        != (#[trigger] after[b]).0@ by {
        if a != m && b != m {
            assert(after[a] == before[a] && after[b] == before[b]);
        } else if a == m {
            assert(after[b] == before[b]);
        } else {
            assert(after[a] == before[a]);
        }
    }
    assert forall|k: Seq<char>| entry_names(after).contains(k) <==> entry_names(before).insert(n).contains(k) by {
        if entry_names(before).contains(k) {
            let j = choose|j: int| 0 <= j < before.len() && (#[trigger] before[j]).0@ == k;
            assert(after[j] == before[j]);
        }
        if k == n {
            assert(after[m].0@ == k);
        }
        if entry_names(after).contains(k) && k != n {
            let j = choose|j: int| 0 <= j < after.len() && (#[trigger] after[j]).0@ == k;
            assert(j != m);
            assert(after[j] == before[j]);
        }
    }
    assert(entry_names(after) =~= entry_names(before).insert(n));
    assert forall|k: Seq<char>| #[trigger] entry_names(after).contains(k) && k != n implies entry_source(after, k) == entry_source(before, k) by {
        let j = choose|j: int| 0 <= j < after.len() && (#[trigger] after[j]).0@ == k;
        assert(j != m);
        assert(after[j] == before[j]);
        lemma_entry(after, j);
        lemma_entry(before, j);
    }
    lemma_entry(after, m);
}

} // verus!
