//! A header table from names to values: at most one value per name, as in a hash map.
use vstd::prelude::*;
use crate::text::str_eq;

verus! {

/// The names of the entries are pairwise different.
pub open spec fn distinct_names(s: Seq<(String, String)>) -> bool {
    forall|i: int, j: int| 0 <= i < j < s.len() ==> (#[trigger] s[i]).0@ != (#[trigger] s[j]).0@
}

/// The map that a list of entries describes (a later entry overrides an earlier one).
pub open spec fn entries_map(s: Seq<(String, String)>) -> Map<Seq<char>, Seq<char>>
    decreases s.len(),
{
    if s.len() == 0 {
        Map::empty()
    } else {
        entries_map(s.drop_last()).insert(s.last().0@, s.last().1@)
    }
}

/// A name that no entry carries is not in the map.
pub proof fn lemma_entries_map_absent(s: Seq<(String, String)>, k: Seq<char>)
    requires
        forall|i: int| 0 <= i < s.len() ==> (#[trigger] s[i]).0@ != k,
    ensures
        !entries_map(s).dom().contains(k),
    decreases s.len(),
{
    if s.len() > 0 {
        lemma_entries_map_absent(s.drop_last(), k);
    }
}

/// Each entry of a list with distinct names is in the map, with its value.
pub proof fn lemma_entries_map_index(s: Seq<(String, String)>, i: int)
    requires
        distinct_names(s),
        0 <= i < s.len(),
    ensures
        entries_map(s).dom().contains(s[i].0@),
        entries_map(s)[s[i].0@] == s[i].1@,
    decreases s.len(),
{
    if i < s.len() - 1 {
        lemma_entries_map_index(s.drop_last(), i);
    }
}

/// Replacing the entry for a name updates that name in the map.
pub proof fn lemma_entries_map_update(s: Seq<(String, String)>, i: int, e: (String, String))
    requires
        distinct_names(s),
        0 <= i < s.len(),
        s[i].0@ == e.0@,
    ensures
        entries_map(s.update(i, e)) == entries_map(s).insert(e.0@, e.1@),
    decreases s.len(),
{
    let t = s.update(i, e);
    if i == s.len() - 1 {
        assert(t.drop_last() =~= s.drop_last());
        assert(entries_map(t) =~= entries_map(s).insert(e.0@, e.1@));
    } else {
        assert(t.drop_last() =~= s.drop_last().update(i, e));
        lemma_entries_map_update(s.drop_last(), i, e);
        assert(s.last().0@ != e.0@);
        assert(entries_map(t) =~= entries_map(s).insert(e.0@, e.1@));
    }
}

/// A list with distinct names describes a finite map with one name per entry.
pub proof fn lemma_entries_map_len(s: Seq<(String, String)>)
    requires
        distinct_names(s),
    ensures
        entries_map(s).dom().finite(),
        entries_map(s).dom().len() == s.len(),
    decreases s.len(),
{
    if s.len() > 0 {
        let p = s.drop_last();
        assert(distinct_names(p));
        lemma_entries_map_len(p);
        lemma_entries_map_absent(p, s.last().0@);
    }
}

/// A table of header names and values with at most one value per name.
#[derive(Debug)]
pub struct Headers {
    entries: Vec<(String, String)>,
}

impl View for Headers {
    type V = Map<Seq<char>, Seq<char>>;

    closed spec fn view(&self) -> Map<Seq<char>, Seq<char>> {
        entries_map(self.entries@)
    }
}

impl Headers {
    #[verifier::type_invariant]
    spec fn names_distinct(&self) -> bool {
        distinct_names(self.entries@)
    }

    /// An empty table.
    pub fn new() -> (r: Headers)
        ensures
            r@ == Map::<Seq<char>, Seq<char>>::empty(),
    {
        Headers { entries: Vec::new() }
    }

    /// The position of the entry named `name`, if any.
    fn position(&self, name: &str) -> (r: Option<usize>)
        ensures
            r matches Some(i) ==> i < self.entries@.len() && self.entries@[i as int].0@ == name@,
            r is None ==> forall|i: int| 0 <= i < self.entries@.len() ==> (#[trigger] self.entries@[i]).0@ != name@,
    {
        let mut i: usize = 0;
        while i < self.entries.len()
            invariant
                i <= self.entries@.len(),
                forall|j: int| 0 <= j < i ==> (#[trigger] self.entries@[j]).0@ != name@,
            decreases self.entries.len() - i,
        {
            if str_eq(self.entries[i].0.as_str(), name) {
                return Some(i);
            }
            i = i + 1;
        }
        None
    }

    /// The value stored under `name`.
    pub fn get(&self, name: &str) -> (r: Option<&String>)
        ensures
            r is Some <==> self@.dom().contains(name@),
            r matches Some(v) ==> v@ == self@[name@],
    {
        proof {
            use_type_invariant(self);
        }
        match self.position(name) {
            Some(i) => {
                proof {
                    lemma_entries_map_index(self.entries@, i as int);
                }
                Some(&self.entries[i].1)
            },
            None => {
                proof {
                    lemma_entries_map_absent(self.entries@, name@);
                }
                None
            },
        }
    }

    /// Whether a value is stored under `name`.
    pub fn contains_key(&self, name: &str) -> (r: bool)
        ensures
            r == self@.dom().contains(name@),
    {
        self.get(name).is_some()
    }

    /// Stores `value` under `name`, returning the value it replaces.
    pub fn insert(&mut self, name: String, value: String) -> (r: Option<String>)
        ensures
            final(self)@ == old(self)@.insert(name@, value@),
            r is Some <==> old(self)@.dom().contains(name@),
            r matches Some(v) ==> v@ == old(self)@[name@],
    {
        proof {
            use_type_invariant(&*self);
        }
        match self.position(name.as_str()) {
            Some(i) => {
                let previous = self.entries[i].1.clone();
                proof {
                    lemma_entries_map_index(self.entries@, i as int);
                    lemma_entries_map_update(self.entries@, i as int, (name, value));
                }
                assert(distinct_names(self.entries@.update(i as int, (name, value))));
                let mut entries: Vec<(String, String)> = Vec::new();
                std::mem::swap(&mut entries, &mut self.entries);
                entries.set(i, (name, value));
                self.entries = entries;
                Some(previous)
            },
            None => {
                proof {
                    lemma_entries_map_absent(self.entries@, name@);
                }
                assert(distinct_names(self.entries@.push((name, value))));
                assert(self.entries@.push((name, value)).drop_last() =~= self.entries@);
                let mut entries: Vec<(String, String)> = Vec::new();
                std::mem::swap(&mut entries, &mut self.entries);
                entries.push((name, value));
                self.entries = entries;
                None
            },
        }
    }

    /// The entries, one per name, in insertion order.
    pub closed spec fn entry_seq(&self) -> Seq<(String, String)> {
        self.entries@
    }

    /// The entries, one per name, in insertion order.
    pub fn entries(&self) -> (r: &Vec<(String, String)>)
        ensures
            r@ == self.entry_seq(),
            entries_map(r@) == self@,
            distinct_names(r@),
    {
        proof {
            use_type_invariant(self);
        }
        &self.entries
    }

    /// The number of names in the table.
    pub fn len(&self) -> (r: usize)
        ensures
            self@.dom().finite(),
            r == self@.dom().len(),
    {
        proof {
            use_type_invariant(self);
            lemma_entries_map_len(self.entries@);
        }
        self.entries.len()
    }
}

impl Clone for Headers {
    fn clone(&self) -> (r: Self)
        ensures
            r@ == self@,
            r.entry_seq() == self.entry_seq(),
    {
        proof {
            use_type_invariant(self);
        }
        let mut out: Vec<(String, String)> = Vec::new();
        let mut i: usize = 0;
        while i < self.entries.len()
            invariant
                i <= self.entries@.len(),
                out@ == self.entries@.take(i as int),
                distinct_names(self.entries@),
            decreases self.entries.len() - i,
        {
            let k = self.entries[i].0.clone();
            let v = self.entries[i].1.clone();
            out.push((k, v));
            assert(self.entries@.take(i + 1) =~= self.entries@.take(i as int).push((k, v)));
            i = i + 1;
        }
        assert(out@ =~= self.entries@);
        Headers { entries: out }
    }
}

} // verus!
