//! A finite map from generic parameter names to types, kept as a list of
//! entries with distinct keys.
use vstd::prelude::*;
use crate::types::{Type, SpecType};
use crate::equality::types_equal;
use crate::text::str_eq;

verus! {

/// Bindings of generic parameter names to types.
#[derive(Debug)]
pub struct TypeMap {
    entries: Vec<(String, Type)>,
}

/// The names bound by a list of entries, in order.
pub open spec fn entry_keys(s: Seq<(String, Type)>) -> Seq<Seq<char>> {
    s.map_values(|e: (String, Type)| e.0@)
}

/// Whether `k` is bound by one of the entries.
pub open spec fn has_key(s: Seq<(String, Type)>, k: Seq<char>) -> bool {
    exists|i: int| 0 <= i < s.len() && (#[trigger] s[i]).0@ == k
}

/// The position of the entry that binds `k`.
pub open spec fn key_index(s: Seq<(String, Type)>, k: Seq<char>) -> int {
    choose|i: int| 0 <= i < s.len() && (#[trigger] s[i]).0@ == k
}

/// The map that a list of entries with distinct keys stands for.
pub open spec fn entries_map(s: Seq<(String, Type)>) -> Map<Seq<char>, SpecType> {
    Map::new(|k: Seq<char>| has_key(s, k), |k: Seq<char>| s[key_index(s, k)].1@)
}

/// In a list with distinct keys, the entry that binds a key is the one found.
pub proof fn lemma_key_index(s: Seq<(String, Type)>, i: int)
    requires
        entry_keys(s).no_duplicates(),
        0 <= i < s.len(),
    ensures
        has_key(s, s[i].0@),
        key_index(s, s[i].0@) == i,
        entries_map(s).contains_key(s[i].0@),
        entries_map(s)[s[i].0@] == s[i].1@,
{
    let k = s[i].0@;
    assert(has_key(s, k));
    let j = key_index(s, k);
    assert(entry_keys(s)[j] == k && entry_keys(s)[i] == k);
}

/// The position of the entry that binds `key`, if any.
fn find_entry(entries: &Vec<(String, Type)>, key: &str) -> (r: Option<usize>)
    ensures
        match r {
            Some(i) => i < entries@.len() && entries@[i as int].0@ == key@,
            None => !has_key(entries@, key@),
        },
{
    let mut i: usize = 0;
    while i < entries.len()
        invariant
            0 <= i <= entries@.len(),
            forall|j: int| 0 <= j < i ==> (#[trigger] entries@[j]).0@ != key@,
        decreases entries@.len() - i,
    {
        if str_eq(entries[i].0.as_str(), key) {
            return Some(i);
        }
        i += 1;
    }
    None
}

/// A list of entries with distinct keys binds as many names as it has entries.
proof fn lemma_entries_len(s: Seq<(String, Type)>)
    requires
        entry_keys(s).no_duplicates(),
    ensures
        entries_map(s).dom().finite(),
        entries_map(s).len() == s.len(),
{
    let ks = entry_keys(s);
    ks.unique_seq_to_set();
    assert forall|q: Seq<char>| #[trigger] entries_map(s).dom().contains(q) == ks.to_set().contains(q) by {
        if has_key(s, q) {
            let j = choose|j: int| 0 <= j < s.len() && (#[trigger] s[j]).0@ == q;
            assert(ks[j] == q);
        }
        if ks.to_set().contains(q) {
            let j = choose|j: int| 0 <= j < ks.len() && ks[j] == q;
            assert(s[j].0@ == q);
        }
    }
    assert(entries_map(s).dom() =~= ks.to_set());
}

/// Binds `key` to `value` in a list of entries with distinct keys.
fn insert_entry(entries: &mut Vec<(String, Type)>, key: String, value: Type)
    requires
        entry_keys(old(entries)@).no_duplicates(),
    ensures
        entry_keys(final(entries)@).no_duplicates(),
        entries_map(final(entries)@) == entries_map(old(entries)@).insert(key@, value@),
{
    let ghost old_entries = entries@;
    let ghost k = key@;
    let ghost v = value@;
    match find_entry(entries, key.as_str()) {
        Some(i) => {
            entries.set(i, (key, value));
            proof {
                let s = entries@;
                assert(entry_keys(s) =~= entry_keys(old_entries));
                assert forall|q: Seq<char>| #[trigger] has_key(s, q) == has_key(old_entries, q) by {
                    if has_key(old_entries, q) {
                        let j = choose|j: int| 0 <= j < old_entries.len() && (#[trigger] old_entries[j]).0@ == q;
                        assert(s[j].0@ == q);
                    }
                    if has_key(s, q) {
                        let j = choose|j: int| 0 <= j < s.len() && (#[trigger] s[j]).0@ == q;
                        assert(old_entries[j].0@ == q);
                    }
                }
                assert forall|q: Seq<char>| #[trigger] has_key(s, q) implies
                    (if q == k { entries_map(s)[q] == v } else { entries_map(s)[q] == entries_map(old_entries)[q] }) by {
                    let j = choose|j: int| 0 <= j < s.len() && (#[trigger] s[j]).0@ == q;
                    lemma_key_index(s, j);
                    lemma_key_index(old_entries, j);
                    assert(entry_keys(s)[i as int] == k);
                    assert(entry_keys(s)[j] == q);
                    if q == k {
                        assert(i == j);
                        assert(s[j].1@ == v);
                    } else {
                        assert(s[j] == old_entries[j]);
                    }
                }
                assert(entries_map(s) =~= entries_map(old_entries).insert(k, v));
            }
        },
        None => {
            entries.push((key, value));
            proof {
                let s = entries@;
                let n = old_entries.len() as int;
                assert(entry_keys(s) =~= entry_keys(old_entries).push(k));
                assert forall|a: int, b: int| 0 <= a < b < entry_keys(s).len() implies
                    entry_keys(s)[a] != entry_keys(s)[b] by {
                    if b == n {
                        assert(old_entries[a].0@ == entry_keys(s)[a]);
                    }
                }
                assert forall|q: Seq<char>| #[trigger] has_key(s, q) == (has_key(old_entries, q) || q == k) by {
                    if has_key(old_entries, q) {
                        let j = choose|j: int| 0 <= j < old_entries.len() && (#[trigger] old_entries[j]).0@ == q;
                        assert(s[j].0@ == q);
                    }
                    if q == k {
                        assert(s[n].0@ == q);
                    }
                    if has_key(s, q) && q != k {
                        let j = choose|j: int| 0 <= j < s.len() && (#[trigger] s[j]).0@ == q;
                        assert(old_entries[j].0@ == q);
                    }
                }
                assert forall|q: Seq<char>| #[trigger] has_key(s, q) implies
                    (if q == k { entries_map(s)[q] == v } else { entries_map(s)[q] == entries_map(old_entries)[q] }) by {
                    let j = choose|j: int| 0 <= j < s.len() && (#[trigger] s[j]).0@ == q;
                    lemma_key_index(s, j);
                    if j < n {
                        lemma_key_index(old_entries, j);
                    }
                }
                assert(entries_map(s) =~= entries_map(old_entries).insert(k, v));
            }
        },
    }
}


impl TypeMap {
    /// The entries have distinct keys.
    #[verifier::type_invariant]
    spec fn wf(&self) -> bool {
        entry_keys(self.entries@).no_duplicates()
    }

    /// An empty map.
    pub fn new() -> (r: TypeMap)
        ensures
            r@ == Map::<Seq<char>, SpecType>::empty(),
    {
        let entries: Vec<(String, Type)> = Vec::new();
        proof {
            assert(entry_keys(entries@) =~= Seq::<Seq<char>>::empty());
        }
        let r = TypeMap { entries };
        assert(r@ =~= Map::<Seq<char>, SpecType>::empty());
        r
    }

    /// The type bound to `key`, if any.
    pub fn get(&self, key: &str) -> (r: Option<&Type>)
        ensures
            match r {
                Some(t) => self@.contains_key(key@) && t@ == self@[key@],
                None => !self@.contains_key(key@),
            },
    {
        proof {
            use_type_invariant(self);
        }
        match find_entry(&self.entries, key) {
            Some(i) => {
                proof {
                    lemma_key_index(self.entries@, i as int);
                }
                Some(&self.entries[i].1)
            },
            None => None,
        }
    }

    /// Whether `key` is bound.
    pub fn contains_key(&self, key: &str) -> (r: bool)
        ensures
            r == self@.contains_key(key@),
    {
        proof {
            use_type_invariant(self);
        }
        match find_entry(&self.entries, key) {
            Some(i) => {
                proof {
                    lemma_key_index(self.entries@, i as int);
                }
                true
            },
            None => false,
        }
    }

    /// Binds `key` to `value`, replacing an earlier binding of `key`.
    pub fn insert(&mut self, key: String, value: Type)
        ensures
            final(self)@ == old(self)@.insert(key@, value@),
    {
        proof {
            use_type_invariant(&*self);
        }
        let mut entries: Vec<(String, Type)> = Vec::new();
        proof {
            assert(entry_keys(entries@) =~= Seq::<Seq<char>>::empty());
        }
        std::mem::swap(&mut entries, &mut self.entries);
        insert_entry(&mut entries, key, value);
        self.entries = entries;
    }

    /// The number of bindings.
    pub fn len(&self) -> (r: usize)
        ensures
            r == self@.len(),
    {
        proof {
            use_type_invariant(self);
            lemma_entries_len(self.entries@);
        }
        self.entries.len()
    }

    /// Whether there are no bindings.
    pub fn is_empty(&self) -> (r: bool)
        ensures
            r == (self@.len() == 0),
            r == (self@ == Map::<Seq<char>, SpecType>::empty()),
    {
        proof {
            use_type_invariant(self);
            lemma_entries_len(self.entries@);
            if self.entries@.len() > 0 {
                lemma_key_index(self.entries@, 0);
                assert(self@.contains_key(self.entries@[0].0@));
            } else {
                assert(self@ =~= Map::<Seq<char>, SpecType>::empty());
            }
        }
        self.entries.len() == 0
    }

    /// Whether two maps hold the same bindings, whatever order they were made in.
    pub fn same_bindings(&self, other: &TypeMap) -> (r: bool)
        ensures
            r == (self@ == other@),
    {
        proof {
            use_type_invariant(self);
            use_type_invariant(other);
            lemma_entries_len(self.entries@);
            lemma_entries_len(other.entries@);
        }
        if self.entries.len() != other.entries.len() {
            return false;
        }
        let mut i: usize = 0;
        while i < self.entries.len()
            invariant
                self.entries@.len() == other.entries@.len(),
                entry_keys(self.entries@).no_duplicates(),
                entry_keys(other.entries@).no_duplicates(),
                0 <= i <= self.entries@.len(),
                forall|j: int| 0 <= j < i ==>
                    #[trigger] other@.contains_key(self.entries@[j].0@)
                    && other@[self.entries@[j].0@] == self.entries@[j].1@,
            decreases self.entries@.len() - i,
        {
            match find_entry(&other.entries, self.entries[i].0.as_str()) {
                Some(j) => {
                    proof {
                        lemma_key_index(self.entries@, i as int);
                        lemma_key_index(other.entries@, j as int);
                    }
                    if !types_equal(&other.entries[j].1, &self.entries[i].1) {
                        return false;
                    }
                },
                None => {
                    proof {
                        lemma_key_index(self.entries@, i as int);
                    }
                    return false;
                },
            }
            i += 1;
        }
        proof {
            assert forall|q: Seq<char>| #[trigger] self@.contains_key(q) implies other@.contains_key(q)
                && other@[q] == self@[q] by {
                let j = choose|j: int| 0 <= j < self.entries@.len() && (#[trigger] self.entries@[j]).0@ == q;
                lemma_key_index(self.entries@, j);
            }
            assert(self@.dom().subset_of(other@.dom()));
            vstd::set_lib::lemma_subset_equality(self@.dom(), other@.dom());
            assert(self@ =~= other@);
        }
        true
    }
}

impl Clone for TypeMap {
    fn clone(&self) -> (r: TypeMap)
        ensures
            r@ == self@,
    {
        proof {
            use_type_invariant(self);
        }
        let mut out: Vec<(String, Type)> = Vec::new();
        let mut i: usize = 0;
        while i < self.entries.len()
            invariant
                0 <= i <= self.entries@.len(),
                out@.len() == i,
                forall|j: int| 0 <= j < i ==> (#[trigger] out@[j]).0@ == self.entries@[j].0@
                    && out@[j].1@ == self.entries@[j].1@,
            decreases self.entries@.len() - i,
        {
            let k = self.entries[i].0.clone();
            let v = self.entries[i].1.clone();
            out.push((k, v));
            i += 1;
        }
        proof {
            let a = out@;
            let b = self.entries@;
            assert(entry_keys(a) =~= entry_keys(b));
            assert forall|q: Seq<char>| #[trigger] has_key(a, q) == has_key(b, q) by {
                if has_key(a, q) {
                    let j = choose|j: int| 0 <= j < a.len() && (#[trigger] a[j]).0@ == q;
                    assert(b[j].0@ == q);
                }
                if has_key(b, q) {
                    let j = choose|j: int| 0 <= j < b.len() && (#[trigger] b[j]).0@ == q;
                    assert(a[j].0@ == q);
                }
            }
            assert forall|q: Seq<char>| #[trigger] has_key(a, q) implies entries_map(a)[q] == entries_map(b)[q] by {
                let j = choose|j: int| 0 <= j < a.len() && (#[trigger] a[j]).0@ == q;
                lemma_key_index(a, j);
                lemma_key_index(b, j);
            }
            assert(entries_map(a) =~= entries_map(b));
        }
        TypeMap { entries: out }
    }
}

impl PartialEq for TypeMap {
    fn eq(&self, other: &TypeMap) -> (r: bool) {
        self.same_bindings(other)
    }
}

impl vstd::std_specs::cmp::PartialEqSpecImpl for TypeMap {
    open spec fn obeys_eq_spec() -> bool {
        true
    }

    open spec fn eq_spec(&self, other: &TypeMap) -> bool {
        self@ == other@
    }
}

impl View for TypeMap {
    type V = Map<Seq<char>, SpecType>;

    closed spec fn view(&self) -> Map<Seq<char>, SpecType> {
        entries_map(self.entries@)
    }
}

} // verus!
