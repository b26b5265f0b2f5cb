//! One shard: an independently lockable partition of the key space,
//! holding a mapping from text keys to opaque byte values.
//!
//! The mapping is kept as a vector of key/value pairs with pairwise
//! distinct keys; its mathematical model is the finite map built from
//! those pairs.

use vstd::prelude::*;

verus! {

/// Does some entry bind the key `k`?
pub open spec fn has_key(entries: Seq<(String, Vec<u8>)>, k: Seq<char>) -> bool {
    exists|i: int| 0 <= i < entries.len() && entries[i].0@ == k
}

/// No two entries bind the same key.
pub open spec fn uniq_keys(entries: Seq<(String, Vec<u8>)>) -> bool {
    forall|i: int, j: int| 0 <= i < j < entries.len() ==> entries[i].0@ != entries[j].0@
}

/// The finite map that a sequence of entries represents.
pub open spec fn entries_map(entries: Seq<(String, Vec<u8>)>) -> Map<Seq<char>, Seq<u8>> {
    Map::new(
        |k: Seq<char>| has_key(entries, k),
        |k: Seq<char>|
            entries[choose|i: int| 0 <= i < entries.len() && entries[i].0@ == k].1@,
    )
}

/// An entry that binds `k` determines the map at `k`.
pub proof fn lemma_map_at(entries: Seq<(String, Vec<u8>)>, i: int, k: Seq<char>)
    requires
        uniq_keys(entries),
        0 <= i < entries.len(),
        entries[i].0@ == k,
    ensures
        entries_map(entries).dom().contains(k),
        entries_map(entries)[k] == entries[i].1@,
{
    assert(has_key(entries, k));
    let j = choose|j: int| 0 <= j < entries.len() && entries[j].0@ == k;
    if i < j {
        assert(entries[i].0@ != entries[j].0@);
    } else if j < i {
        assert(entries[j].0@ != entries[i].0@);
    }
}

/// A key bound by no entry is outside the map's domain.
pub proof fn lemma_map_absent(entries: Seq<(String, Vec<u8>)>, k: Seq<char>)
    requires
        forall|i: int| 0 <= i < entries.len() ==> entries[i].0@ != k,
    ensures
        !entries_map(entries).dom().contains(k),
{
}

/// One partition of the key space.
pub struct Shard {
    pub entries: Vec<(String, Vec<u8>)>,
}

impl View for Shard {
    type V = Map<Seq<char>, Seq<u8>>;

    open spec fn view(&self) -> Map<Seq<char>, Seq<u8>> {
        entries_map(self.entries@)
    }
}

impl Shard {
    /// Keys are pairwise distinct.
    pub open spec fn wf(self) -> bool {
        uniq_keys(self.entries@)
    }

    /// An empty shard.
    pub fn new() -> (r: Shard)
        ensures
            r.wf(),
            r@ == Map::<Seq<char>, Seq<u8>>::empty(),
    {
        let r = Shard { entries: Vec::new() };
        proof {
            assert(r@ =~= Map::<Seq<char>, Seq<u8>>::empty());
        }
        r
    }

    /// Look a key up; a copy of the stored value, or `None` if the key is absent.
    pub fn get(&self, key: &String) -> (r: Option<Vec<u8>>)
        requires
            self.wf(),
        ensures
            (match r {
                Some(v) => self@.dom().contains(key@) && v@ == self@[key@],
                None => !self@.dom().contains(key@),
            }),
    {
        let n = self.entries.len();
        let mut i: usize = 0;
        while i < n
            invariant
                self.wf(),
                n == self.entries@.len(),
                i <= n,
                forall|j: int| 0 <= j < i ==> self.entries@[j].0@ != key@,
            decreases n - i,
        {
            let e = &self.entries[i];
            if e.0 == *key {
                let v = e.1.clone();
                proof {
                    assert forall|j: int| 0 <= j < v@.len() implies v@[j] == e.1@[j] by {
                        assert(cloned::<u8>(e.1@[j], v@[j]));
                    }
                    assert(v@ =~= e.1@);
                    lemma_map_at(self.entries@, i as int, key@);
                }
                return Some(v);
            }
            i = i + 1;
        }
        proof {
            lemma_map_absent(self.entries@, key@);
        }
        None
    }

    /// Insert or overwrite, silently and unconditionally.
    pub fn set(&mut self, key: String, value: Vec<u8>)
        requires
            old(self).wf(),
        ensures
            final(self).wf(),
            final(self)@ == old(self)@.insert(key@, value@),
    {
        let n = self.entries.len();
        let mut i: usize = 0;
        let mut found: bool = false;
        let mut idx: usize = 0;
        while i < n
            invariant
                n == self.entries@.len(),
                i <= n,
                !found ==> forall|j: int| 0 <= j < i ==> self.entries@[j].0@ != key@,
                found ==> idx < n && self.entries@[idx as int].0@ == key@,
            decreases n - i,
        {
            if !found {
                let e = &self.entries[i];
                if e.0 == key {
                    found = true;
                    idx = i;
                }
            }
            i = i + 1;
        }
        let ghost e0 = self.entries@;
        if found {
            self.entries.set(idx, (key, value));
            proof {
                lemma_update_entry(e0, idx as int, self.entries@[idx as int]);
            }
        } else {
            self.entries.push((key, value));
            proof {
                lemma_push_entry(e0, self.entries@[n as int]);
            }
        }
    }
}

/// Overwriting the entry that binds a key inserts the new value into the map.
proof fn lemma_update_entry(e0: Seq<(String, Vec<u8>)>, idx: int, e: (String, Vec<u8>))
    requires
        uniq_keys(e0),
        0 <= idx < e0.len(),
        e0[idx].0@ == e.0@,
    ensures
        uniq_keys(e0.update(idx, e)),
        entries_map(e0.update(idx, e)) == entries_map(e0).insert(e.0@, e.1@),
{
    let e1 = e0.update(idx, e);
    let k = e.0@;
    assert forall|i: int, j: int| 0 <= i < j < e1.len() implies e1[i].0@ != e1[j].0@ by {
        assert(e0[i].0@ != e0[j].0@);
    }
    assert forall|q: Seq<char>| #[trigger] has_key(e1, q) implies has_key(e0, q) by {
        let i = choose|i: int| 0 <= i < e1.len() && e1[i].0@ == q;
        if i == idx {
            assert(e0[idx].0@ == q);
        } else {
            assert(e0[i].0@ == q);
        }
    }
    assert forall|q: Seq<char>| #[trigger] has_key(e0, q) implies has_key(e1, q) by {
        let i = choose|i: int| 0 <= i < e0.len() && e0[i].0@ == q;
        if i == idx {
            assert(e1[idx].0@ == k);
            assert(e0[idx].0@ == q);
        } else {
            assert(e1[i].0@ == q);
        }
    }
    assert forall|q: Seq<char>| has_key(e1, q) && q != k implies entries_map(e1)[q]
        == entries_map(e0)[q] by {
        let i = choose|i: int| 0 <= i < e1.len() && e1[i].0@ == q;
        assert(i != idx);
        assert(e0[i].0@ == q);
        lemma_map_at(e1, i, q);
        lemma_map_at(e0, i, q);
    }
    assert(entries_map(e1).dom().contains(k)) by {
        lemma_map_at(e1, idx, k);
    }
    assert(entries_map(e1)[k] == e.1@) by {
        lemma_map_at(e1, idx, k);
    }
    assert(entries_map(e1) =~= entries_map(e0).insert(k, e.1@));
}

/// Appending an entry for a key bound by no other entry inserts it into the map.
proof fn lemma_push_entry(e0: Seq<(String, Vec<u8>)>, e: (String, Vec<u8>))
    requires
        uniq_keys(e0),
        forall|i: int| 0 <= i < e0.len() ==> e0[i].0@ != e.0@,
    ensures
        uniq_keys(e0.push(e)),
        entries_map(e0.push(e)) == entries_map(e0).insert(e.0@, e.1@),
{
    let e1 = e0.push(e);
    let k = e.0@;
    let last = e0.len() as int;
    assert forall|i: int, j: int| 0 <= i < j < e1.len() implies e1[i].0@ != e1[j].0@ by {
        if j < last {
            assert(e0[i].0@ != e0[j].0@);
        } else {
            assert(e1[j].0@ == k);
            assert(e1[i].0@ == e0[i].0@);
        }
    }
    assert forall|q: Seq<char>| #[trigger] has_key(e1, q) implies q == k || has_key(e0, q) by {
        let i = choose|i: int| 0 <= i < e1.len() && e1[i].0@ == q;
        if i < last {
            assert(e0[i].0@ == q);
        }
    }
    assert forall|q: Seq<char>| #[trigger] has_key(e0, q) implies has_key(e1, q) by {
        let i = choose|i: int| 0 <= i < e0.len() && e0[i].0@ == q;
        assert(e1[i].0@ == q);
    }
    assert forall|q: Seq<char>| has_key(e1, q) && q != k implies entries_map(e1)[q]
        == entries_map(e0)[q] by {
        let i = choose|i: int| 0 <= i < e1.len() && e1[i].0@ == q;
        assert(i < last);
        lemma_map_at(e1, i, q);
        lemma_map_at(e0, i, q);
    }
    assert(has_key(e1, k)) by {
        assert(e1[last].0@ == k);
    }
    assert(entries_map(e1)[k] == e.1@) by {
        lemma_map_at(e1, last, k);
    }
    assert(entries_map(e1) =~= entries_map(e0).insert(k, e.1@));
}

} // verus!
