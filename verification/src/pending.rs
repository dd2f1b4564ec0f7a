use vstd::prelude::*;

use crate::common::RequestId;

verus! {

/// The requests that wait for a reply, each with whatever the waiting side
/// left to be answered through (a reply channel, a shared handle).
///
/// It behaves as a map from the identifier's text to that value: no
/// identifier occurs twice.
pub struct PendingTable<T> {
    entries: Vec<(RequestId, T)>,
}

/// No identifier occurs twice among `entries`.
pub open spec fn keys_distinct<T>(entries: Seq<(RequestId, T)>) -> bool {
    forall|i: int, j: int|
        #![trigger entries[i], entries[j]]
        0 <= i < entries.len() && 0 <= j < entries.len() && i != j ==> entries[i].0.0@
            != entries[j].0.0@
}

/// Whether some entry carries the identifier text `k`.
pub open spec fn has_key<T>(entries: Seq<(RequestId, T)>, k: Seq<char>) -> bool {
    exists|i: int| 0 <= i < entries.len() && #[trigger] entries[i].0.0@ == k
}

/// The position of an entry that carries `k`.
pub open spec fn key_index<T>(entries: Seq<(RequestId, T)>, k: Seq<char>) -> int {
    choose|i: int| 0 <= i < entries.len() && #[trigger] entries[i].0.0@ == k
}

/// The map that `entries` stand for.
pub open spec fn map_of<T>(entries: Seq<(RequestId, T)>) -> Map<Seq<char>, T> {
    Map::new(|k: Seq<char>| has_key(entries, k), |k: Seq<char>| entries[key_index(entries, k)].1)
}

proof fn lemma_unique_index<T>(entries: Seq<(RequestId, T)>, i: int)
    requires
        keys_distinct(entries),
        0 <= i < entries.len(),
    ensures
        has_key(entries, entries[i].0.0@),
        key_index(entries, entries[i].0.0@) == i,
        map_of(entries).dom().contains(entries[i].0.0@),
        map_of(entries)[entries[i].0.0@] == entries[i].1,
{
    let k = entries[i].0.0@;
    assert(has_key(entries, k));
    let j = key_index(entries, k);
    if j != i {
        assert(entries[j].0.0@ != entries[i].0.0@);
    }
}

proof fn lemma_map_push<T>(entries: Seq<(RequestId, T)>, id: RequestId, value: T)
    requires
        keys_distinct(entries),
        !has_key(entries, id.0@),
    ensures
        keys_distinct(entries.push((id, value))),
        map_of(entries.push((id, value))) =~= map_of(entries).insert(id.0@, value),
{
    let n = entries.push((id, value));
    assert forall|i: int, j: int|
        0 <= i < n.len() && 0 <= j < n.len() && i != j implies #[trigger] n[i].0.0@
        != #[trigger] n[j].0.0@ by {
        if i < entries.len() && j < entries.len() {
            assert(n[i] == entries[i] && n[j] == entries[j]);
        } else if i < entries.len() {
            assert(n[i] == entries[i]);
        } else {
            assert(n[j] == entries[j]);
        }
    }
    let m = map_of(entries).insert(id.0@, value);
    assert forall|k: Seq<char>| #[trigger] map_of(n).dom().contains(k) == m.dom().contains(k) by {
        if has_key(n, k) {
            let i = choose|i: int| 0 <= i < n.len() && #[trigger] n[i].0.0@ == k;
            if i < entries.len() {
                assert(entries[i] == n[i]);
                assert(has_key(entries, k));
            }
        }
        if has_key(entries, k) {
            let i = choose|i: int| 0 <= i < entries.len() && #[trigger] entries[i].0.0@ == k;
            assert(n[i] == entries[i]);
            assert(has_key(n, k));
        }
        if k == id.0@ {
            assert(n[entries.len() as int].0.0@ == k);
            assert(has_key(n, k));
        }
    }
    assert forall|k: Seq<char>| #[trigger] map_of(n).dom().contains(k) implies map_of(n)[k]
        == m[k] by {
        let i = choose|i: int| 0 <= i < n.len() && #[trigger] n[i].0.0@ == k;
        lemma_unique_index(n, i);
        if i < entries.len() {
            assert(n[i] == entries[i]);
            lemma_unique_index(entries, i);
        }
    }
}

proof fn lemma_map_remove<T>(entries: Seq<(RequestId, T)>, i: int)
    requires
        keys_distinct(entries),
        0 <= i < entries.len(),
    ensures
        keys_distinct(entries.remove(i)),
        map_of(entries.remove(i)) =~= map_of(entries).remove(entries[i].0.0@),
        !has_key(entries.remove(i), entries[i].0.0@),
{
    let n = entries.remove(i);
    let gone = entries[i].0.0@;
    assert forall|a: int| 0 <= a < n.len() implies #[trigger] n[a] == entries[if a < i {
        a
    } else {
        a + 1
    }] by {}
    assert forall|a: int, b: int|
        0 <= a < n.len() && 0 <= b < n.len() && a != b implies #[trigger] n[a].0.0@
        != #[trigger] n[b].0.0@ by {
        let a1 = if a < i { a } else { a + 1 };
        let b1 = if b < i { b } else { b + 1 };
        assert(n[a] == entries[a1] && n[b] == entries[b1]);
    }
    assert forall|a: int| 0 <= a < n.len() implies #[trigger] n[a].0.0@ != gone by {
        let a1 = if a < i { a } else { a + 1 };
        assert(n[a] == entries[a1]);
    }
    let m = map_of(entries).remove(gone);
    assert forall|k: Seq<char>| #[trigger] map_of(n).dom().contains(k) == m.dom().contains(k) by {
        if has_key(n, k) {
            let a = choose|a: int| 0 <= a < n.len() && #[trigger] n[a].0.0@ == k;
            let a1 = if a < i { a } else { a + 1 };
            assert(n[a] == entries[a1]);
            assert(has_key(entries, k));
        }
        if has_key(entries, k) && k != gone {
            let b = choose|b: int| 0 <= b < entries.len() && #[trigger] entries[b].0.0@ == k;
            assert(b != i);
            let b0 = if b < i { b } else { b - 1 };
            assert(n[b0] == entries[b]);
            assert(has_key(n, k));
        }
    }
    assert forall|k: Seq<char>| #[trigger] map_of(n).dom().contains(k) implies map_of(n)[k]
        == m[k] by {
        let a = choose|a: int| 0 <= a < n.len() && #[trigger] n[a].0.0@ == k;
        let a1 = if a < i { a } else { a + 1 };
        assert(n[a] == entries[a1]);
        lemma_unique_index(n, a);
        lemma_unique_index(entries, a1);
    }
}

impl<T> View for PendingTable<T> {
    type V = Map<Seq<char>, T>;

    closed spec fn view(&self) -> Map<Seq<char>, T> {
        map_of(self.entries@)
    }
}

impl<T> PendingTable<T> {
    #[verifier::type_invariant]
    spec fn distinct(self) -> bool {
        keys_distinct(self.entries@)
    }

    /// A table with nothing pending.
    pub fn new() -> (t: Self)
        ensures
            t@ == Map::<Seq<char>, T>::empty(),
    {
        let t = PendingTable { entries: Vec::new() };
        assert(map_of(t.entries@) =~= Map::<Seq<char>, T>::empty());
        t
    }

    /// The position of the entry for `id`, if there is one.
    fn find(&self, id: &RequestId) -> (r: Option<usize>)
        ensures
            match r {
                Some(i) => i < self.entries@.len() && self.entries@[i as int].0.0@ == id.0@,
                None => !has_key(self.entries@, id.0@),
            },
    {
        position_of(&self.entries, id)
    }

    /// Whether a request with this identifier is pending.
    pub fn contains_key(&self, id: &RequestId) -> (b: bool)
        ensures
            b == self@.contains_key(id.0@),
    {
        self.find(id).is_some()
    }

    /// What the request with this identifier left to be answered through.
    pub fn get(&self, id: &RequestId) -> (r: Option<&T>)
        ensures
            match r {
                Some(v) => self@.contains_key(id.0@) && *v == self@[id.0@],
                None => !self@.contains_key(id.0@),
            },
    {
        proof {
            use_type_invariant(self);
        }
        match self.find(id) {
            Some(i) => {
                proof {
                    lemma_unique_index(self.entries@, i as int);
                }
                Some(&self.entries[i].1)
            },
            None => None,
        }
    }

    /// Takes the entry for `id` out of the table.
    pub fn remove(&mut self, id: &RequestId) -> (r: Option<T>)
        ensures
            final(self)@ == old(self)@.remove(id.0@),
            match r {
                Some(v) => old(self)@.contains_key(id.0@) && v == old(self)@[id.0@],
                None => !old(self)@.contains_key(id.0@),
            },
    {
        proof {
            use_type_invariant(&*self);
        }
        match self.find(id) {
            Some(i) => {
                let mut entries: Vec<(RequestId, T)> = Vec::new();
                std::mem::swap(&mut entries, &mut self.entries);
                let ghost before = entries@;
                proof {
                    lemma_unique_index(before, i as int);
                    lemma_map_remove(before, i as int);
                }
                let (_, value) = entries.remove(i);
                self.entries = entries;
                Some(value)
            },
            None => {
                assert(map_of(self.entries@).remove(id.0@) =~= map_of(self.entries@));
                None
            },
        }
    }

    /// Records `value` for `id`; an entry that was there for `id` is
    /// replaced and handed back.
    pub fn insert(&mut self, id: RequestId, value: T) -> (r: Option<T>)
        ensures
            final(self)@ == old(self)@.insert(id.0@, value),
            match r {
                Some(v) => old(self)@.contains_key(id.0@) && v == old(self)@[id.0@],
                None => !old(self)@.contains_key(id.0@),
            },
    {
        proof {
            use_type_invariant(&*self);
        }
        let ghost k = id.0@;
        let ghost old_map = map_of(self.entries@);
        let mut entries: Vec<(RequestId, T)> = Vec::new();
        std::mem::swap(&mut entries, &mut self.entries);
        let previous = match position_of(&entries, &id) {
            Some(i) => {
                proof {
                    lemma_unique_index(entries@, i as int);
                    lemma_map_remove(entries@, i as int);
                }
                let (_, v) = entries.remove(i);
                Some(v)
            },
            None => {
                assert(old_map.remove(k) =~= old_map);
                None
            },
        };
        assert(map_of(entries@) == old_map.remove(k));
        proof {
            lemma_map_push(entries@, id, value);
        }
        entries.push((id, value));
        assert(map_of(entries@) =~= old_map.insert(k, value));
        self.entries = entries;
        previous
    }
}

/// The position of the entry for `id` among `entries`, if there is one.
fn position_of<T>(entries: &Vec<(RequestId, T)>, id: &RequestId) -> (r: Option<usize>)
    ensures
        match r {
            Some(i) => i < entries@.len() && entries@[i as int].0.0@ == id.0@,
            None => !has_key(entries@, id.0@),
        },
{
    let mut i: usize = 0;
    while i < entries.len()
        invariant
            i <= entries@.len(),
            forall|j: int| 0 <= j < i ==> #[trigger] entries@[j].0.0@ != id.0@,
        decreases entries@.len() - i,
    {
        if entries[i].0.same_as(id) {
            return Some(i);
        }
        i = i + 1;
    }
    None
}

} // verus!
