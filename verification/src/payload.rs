use vstd::prelude::*;

verus! {

/// The entries of a payload, in the order they were first inserted.
pub type Entries = Seq<(Seq<char>, Seq<char>)>;

/// `entries` holds an entry under `k`.
pub open spec fn has_key(e: Entries, k: Seq<char>) -> bool {
    exists|i: int| 0 <= i < e.len() && #[trigger] e[i].0 == k
}

/// `i` is the first position of `entries` whose key is `k`.
pub open spec fn is_first_key(e: Entries, k: Seq<char>, i: int) -> bool {
    &&& 0 <= i < e.len()
    &&& e[i].0 == k
    &&& forall|j: int| 0 <= j < i ==> #[trigger] e[j].0 != k
}

/// The first position of `entries` whose key is `k`.
pub open spec fn first_key_index(e: Entries, k: Seq<char>) -> int {
    choose|i: int| is_first_key(e, k, i)
}

/// No key occurs twice.
pub open spec fn keys_distinct(e: Entries) -> bool {
    forall|i: int, j: int| 0 <= i < j < e.len() ==> #[trigger] e[i].0 != #[trigger] e[j].0
}

/// The entries after setting `k` to `v`: an entry already under `k` keeps its
/// place and takes the new value; a new key goes last.
pub open spec fn with_entry(e: Entries, k: Seq<char>, v: Seq<char>) -> Entries {
    if has_key(e, k) {
        e.update(first_key_index(e, k), (k, v))
    } else {
        e.push((k, v))
    }
}

/// The entries after setting each entry of `other`, in `other`'s order.
pub open spec fn with_entries(e: Entries, other: Entries) -> Entries
    decreases other.len(),
{
    if other.len() == 0 {
        e
    } else {
        with_entry(with_entries(e, other.drop_last()), other.last().0, other.last().1)
    }
}

/// The map that the entries stand for.
pub open spec fn entries_map(e: Entries) -> Map<Seq<char>, Seq<char>> {
    Map::new(|k: Seq<char>| has_key(e, k), |k: Seq<char>| e[first_key_index(e, k)].1)
}

/// A key that occurs has a first occurrence.
pub proof fn lemma_first_key_exists(e: Entries, k: Seq<char>, i: int)
    requires
        0 <= i < e.len(),
        e[i].0 == k,
    ensures
        is_first_key(e, k, first_key_index(e, k)),
    decreases i,
{
    if forall|j: int| 0 <= j < i ==> #[trigger] e[j].0 != k {
        assert(is_first_key(e, k, i));
    } else {
        let j = choose|j: int| 0 <= j < i && #[trigger] e[j].0 == k;
        lemma_first_key_exists(e, k, j);
    }
}

/// The first occurrence of a key is unique.
pub proof fn lemma_first_key_unique(e: Entries, k: Seq<char>, i: int)
    requires
        is_first_key(e, k, i),
    ensures
        first_key_index(e, k) == i,
{
    let f = first_key_index(e, k);
    assert(is_first_key(e, k, f));
    if f < i {
        assert(e[f].0 != k);
    } else if i < f {
        assert(e[i].0 != k);
    }
}

/// A string-to-string map that keeps its entries in insertion order, so
/// that what is written out of it is determined by how it was filled. No
/// key occurs twice.
pub struct Payload {
    entries: Vec<(String, String)>,
}

spec fn pairs_view(v: Seq<(String, String)>) -> Entries {
    v.map_values(|p: (String, String)| (p.0@, p.1@))
}

impl View for Payload {
    type V = Entries;

    closed spec fn view(&self) -> Entries {
        pairs_view(self.entries@)
    }
}

/// Sets `key` to `value` in `entries`, in the place of an earlier value
/// under `key`.
fn set_entry(entries: &mut Vec<(String, String)>, key: String, value: String)
    ensures
        pairs_view(final(entries)@) == with_entry(pairs_view(old(entries)@), key@, value@),
{
    let n = entries.len();
    let mut i: usize = 0;
    while i < n
        invariant
            n == entries@.len(),
            entries@ == old(entries)@,
            0 <= i <= n,
            forall|j: int| 0 <= j < i ==> #[trigger] pairs_view(entries@)[j].0 != key@,
        decreases n - i,
    {
        if entries[i].0 == key {
            let ghost before = pairs_view(entries@);
            proof {
                assert(before[i as int].0 == key@);
                lemma_first_key_unique(before, key@, i as int);
            }
            entries.set(i, (key, value));
            assert(pairs_view(entries@) =~= before.update(i as int, (key@, value@)));
            return;
        }
        i = i + 1;
    }
    let ghost before = pairs_view(entries@);
    assert(!has_key(before, key@)) by {
        if has_key(before, key@) {
            let j = choose|j: int| 0 <= j < before.len() && #[trigger] before[j].0 == key@;
            assert(before[j].0 == key@);
        }
    }
    entries.push((key, value));
    assert(pairs_view(entries@) =~= before.push((key@, value@)));
}

impl Payload {
    #[verifier::type_invariant]
    closed spec fn inv(self) -> bool {
        keys_distinct(self@)
    }

    /// The map that the payload stands for.
    pub open spec fn map(&self) -> Map<Seq<char>, Seq<char>> {
        entries_map(self@)
    }

    /// An empty payload.
    pub fn new() -> (p: Payload)
        ensures
            p@ == Seq::<(Seq<char>, Seq<char>)>::empty(),
    {
        let p = Payload { entries: Vec::new() };
        assert(p@ =~= Seq::<(Seq<char>, Seq<char>)>::empty());
        p
    }

    /// A payload of one entry.
    pub fn single(key: String, value: String) -> (p: Payload)
        ensures
            p@ == seq![(key@, value@)],
    {
        let mut p = Payload::new();
        p.insert(key, value);
        assert(!has_key(Seq::<(Seq<char>, Seq<char>)>::empty(), key@));
        assert(p@ =~= seq![(key@, value@)]);
        p
    }

    /// Sets `key`, which the payload does not hold yet, to `value`, last.
    pub fn push_new(&mut self, key: String, value: String)
        requires
            !has_key(old(self)@, key@),
        ensures
            final(self)@ == old(self)@.push((key@, value@)),
    {
        self.insert(key, value);
    }

    /// The number of entries.
    pub fn len(&self) -> (n: usize)
        ensures
            n == self@.len(),
    {
        self.entries.len()
    }

    /// The key and value of the entry at position `i`.
    pub fn entry(&self, i: usize) -> (kv: (&String, &String))
        requires
            i < self@.len(),
        ensures
            kv.0@ == self@[i as int].0,
            kv.1@ == self@[i as int].1,
    {
        let p = &self.entries[i];
        (&p.0, &p.1)
    }

    /// The value under `key`, if there is one.
    pub fn get(&self, key: &str) -> (v: Option<String>)
        ensures
            v is Some <==> self.map().dom().contains(key@),
            v is Some ==> v->Some_0@ == self.map()[key@],
    {
        let n = self.entries.len();
        let wanted = key.to_owned();
        let mut i: usize = 0;
        while i < n
            invariant
                n == self.entries@.len(),
                wanted@ == key@,
                0 <= i <= n,
                forall|j: int| 0 <= j < i ==> #[trigger] self@[j].0 != key@,
            decreases n - i,
        {
            if self.entries[i].0 == wanted {
                proof {
                    assert(self@[i as int].0 == key@);
                    lemma_first_key_unique(self@, key@, i as int);
                }
                return Some(self.entries[i].1.clone());
            }
            i = i + 1;
        }
        assert(!has_key(self@, key@)) by {
            if has_key(self@, key@) {
                let j = choose|j: int| 0 <= j < self@.len() && #[trigger] self@[j].0 == key@;
                assert(self@[j].0 == key@);
            }
        }
        None
    }

    /// Sets `key` to `value`, in the place of an earlier value under `key`.
    pub fn insert(&mut self, key: String, value: String)
        ensures
            final(self)@ == with_entry(old(self)@, key@, value@),
            final(self).map() == old(self).map().insert(key@, value@),
    {
        proof {
            use_type_invariant(&*self);
            lemma_with_entry_map(self@, key@, value@);
            lemma_with_entry_distinct(self@, key@, value@);
        }
        let mut entries: Vec<(String, String)> = Vec::new();
        assert(keys_distinct(pairs_view(entries@)));
        std::mem::swap(&mut entries, &mut self.entries);
        set_entry(&mut entries, key, value);
        assert(keys_distinct(pairs_view(entries@)));
        self.entries = entries;
    }

    /// Sets every entry of `other`, in `other`'s order.
    pub fn extend(&mut self, other: Payload)
        ensures
            final(self)@ == with_entries(old(self)@, other@),
            final(self).map() == old(self).map().union_prefer_right(other.map()),
    {
        proof {
            use_type_invariant(&other);
            lemma_with_entries_map(self@, other@);
        }
        self.set_entries(other);
    }

    fn set_entries(&mut self, other: Payload)
        ensures
            final(self)@ == with_entries(old(self)@, other@),
    {
        let n = other.entries.len();
        let mut i: usize = 0;
        let mut rest = other.entries;
        let ghost all = other@;
        // `rest` is consumed from the front by swapping each taken pair out.
        while i < n
            invariant
                n == rest@.len(),
                n == all.len(),
                0 <= i <= n,
                forall|j: int| i <= j < n ==> (#[trigger] rest@[j]).0@ == all[j].0 && rest@[j].1@
                    == all[j].1,
                self@ == with_entries(old(self)@, all.subrange(0, i as int)),
            decreases n - i,
        {
            let mut taken = (String::new(), String::new());
            std::mem::swap(&mut taken, &mut rest[i]);
            proof {
                assert(all.subrange(0, i + 1).drop_last() =~= all.subrange(0, i as int));
                assert(all.subrange(0, i + 1).last() == all[i as int]);
            }
            self.insert(taken.0, taken.1);
            i = i + 1;
        }
        assert(all.subrange(0, n as int) =~= all);
    }
}

/// Setting a key in a payload sets it in the map that the payload stands for.
pub proof fn lemma_with_entry_map(e: Entries, k: Seq<char>, v: Seq<char>)
    ensures
        entries_map(with_entry(e, k, v)) == entries_map(e).insert(k, v),
{
    let n = with_entry(e, k, v);
    let m = entries_map(e).insert(k, v);
    if has_key(e, k) {
        let f = first_key_index(e, k);
        let j0 = choose|j: int| 0 <= j < e.len() && #[trigger] e[j].0 == k;
        lemma_first_key_exists(e, k, j0);
        assert forall|x: Seq<char>| #![auto] has_key(n, x) == m.dom().contains(x) by {
            if has_key(e, x) {
                let j = choose|j: int| 0 <= j < e.len() && #[trigger] e[j].0 == x;
                assert(n[j].0 == x);
            }
            if has_key(n, x) {
                let j = choose|j: int| 0 <= j < n.len() && #[trigger] n[j].0 == x;
                assert(e[j].0 == x || j == f);
            }
        }
        assert forall|x: Seq<char>| #![auto] has_key(n, x) implies n[first_key_index(n, x)].1
            == m[x] by {
            let j = choose|j: int| 0 <= j < n.len() && #[trigger] n[j].0 == x;
            lemma_first_key_exists(n, x, j);
            let g = first_key_index(n, x);
            if x == k {
                assert(is_first_key(n, k, f));
                lemma_first_key_unique(n, k, f);
            } else {
                assert(e[j].0 == x);
                lemma_first_key_exists(e, x, j);
                let h = first_key_index(e, x);
                assert(is_first_key(n, x, h));
                lemma_first_key_unique(n, x, h);
            }
        }
        assert(entries_map(n) =~= m);
    } else {
        assert forall|x: Seq<char>| #![auto] has_key(n, x) == m.dom().contains(x) by {
            if has_key(e, x) {
                let j = choose|j: int| 0 <= j < e.len() && #[trigger] e[j].0 == x;
                assert(n[j].0 == x);
            }
            if x == k {
                assert(n[e.len() as int].0 == k);
            }
            if has_key(n, x) {
                let j = choose|j: int| 0 <= j < n.len() && #[trigger] n[j].0 == x;
                assert(j == e.len() || e[j].0 == x);
            }
        }
        assert forall|x: Seq<char>| #![auto] has_key(n, x) implies n[first_key_index(n, x)].1
            == m[x] by {
            let j = choose|j: int| 0 <= j < n.len() && #[trigger] n[j].0 == x;
            lemma_first_key_exists(n, x, j);
            if x == k {
                assert(is_first_key(n, k, e.len() as int));
                lemma_first_key_unique(n, k, e.len() as int);
            } else {
                assert(e[j].0 == x);
                lemma_first_key_exists(e, x, j);
                let h = first_key_index(e, x);
                assert(is_first_key(n, x, h));
                lemma_first_key_unique(n, x, h);
            }
        }
        assert(entries_map(n) =~= m);
    }
}

/// Setting a key keeps the keys of a payload distinct.
pub proof fn lemma_with_entry_distinct(e: Entries, k: Seq<char>, v: Seq<char>)
    requires
        keys_distinct(e),
    ensures
        keys_distinct(with_entry(e, k, v)),
{
    let n = with_entry(e, k, v);
    if has_key(e, k) {
        let j0 = choose|j: int| 0 <= j < e.len() && #[trigger] e[j].0 == k;
        lemma_first_key_exists(e, k, j0);
        let f = first_key_index(e, k);
        assert forall|i: int, j: int| 0 <= i < j < n.len() implies #[trigger] n[i].0
            != #[trigger] n[j].0 by {
            assert(e[i].0 != e[j].0);
        }
    } else {
        assert forall|i: int, j: int| 0 <= i < j < n.len() implies #[trigger] n[i].0
            != #[trigger] n[j].0 by {
            if j < e.len() {
                assert(e[i].0 != e[j].0);
            } else {
                assert(e[i].0 != k);
            }
        }
    }
}

/// Extending a payload by another whose keys are distinct (as those of any
/// map are) gives the union of the two maps, the other's values winning.
pub proof fn lemma_with_entries_map(e: Entries, other: Entries)
    requires
        keys_distinct(other),
    ensures
        entries_map(with_entries(e, other)) == entries_map(e).union_prefer_right(
            entries_map(other),
        ),
    decreases other.len(),
{
    if other.len() == 0 {
        assert(entries_map(other) =~= Map::<Seq<char>, Seq<char>>::empty()) by {
            assert forall|x: Seq<char>| !has_key(other, x) by {}
        }
        assert(entries_map(e).union_prefer_right(entries_map(other)) =~= entries_map(e));
    } else {
        let rest = other.drop_last();
        let (k, v) = other.last();
        assert(keys_distinct(rest));
        lemma_with_entries_map(e, rest);
        lemma_with_entry_map(with_entries(e, rest), k, v);
        assert(!has_key(rest, k)) by {
            if has_key(rest, k) {
                let j = choose|j: int| 0 <= j < rest.len() && #[trigger] rest[j].0 == k;
                assert(other[j].0 != other[other.len() - 1].0);
            }
        }
        assert(with_entry(rest, k, v) =~= other);
        lemma_with_entry_map(rest, k, v);
        assert(entries_map(e).union_prefer_right(entries_map(other)) =~= entries_map(
            e,
        ).union_prefer_right(entries_map(rest)).insert(k, v));
    }
}

/// Extending keeps the keys of a payload distinct.
pub proof fn lemma_with_entries_distinct(e: Entries, other: Entries)
    requires
        keys_distinct(e),
    ensures
        keys_distinct(with_entries(e, other)),
    decreases other.len(),
{
    if other.len() > 0 {
        lemma_with_entries_distinct(e, other.drop_last());
        lemma_with_entry_distinct(with_entries(e, other.drop_last()), other.last().0, other.last().1);
    }
}

} // verus!
