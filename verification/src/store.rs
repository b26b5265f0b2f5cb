//! The shared store: a fixed sequence of shards partitioning one
//! logical key space.
//!
//! Every key belongs to exactly one shard, chosen by the deterministic
//! routing hash, so an operation on one key never reads or writes any
//! other shard. Its mathematical model is the single map obtained by
//! reading each key in the shard it routes to.

use vstd::prelude::*;
use crate::routing::shard_of_spec;
use crate::routing::shard_index;
use crate::shard::Shard;

verus! {

/// The key space, split into shards.
pub struct Store {
    pub shards: Vec<Shard>,
}

impl View for Store {
    type V = Map<Seq<char>, Seq<u8>>;

    open spec fn view(&self) -> Map<Seq<char>, Seq<u8>> {
        Map::new(
            |k: Seq<char>|
                self.shards@[shard_of_spec(k, self.shards@.len() as int)]@.dom().contains(k),
            |k: Seq<char>| self.shards@[shard_of_spec(k, self.shards@.len() as int)]@[k],
        )
    }
}

impl Store {
    /// There is at least one shard, each shard is well formed, and every
    /// key sits in the shard it routes to.
    pub open spec fn wf(self) -> bool {
        &&& self.shards@.len() >= 1
        &&& forall|i: int| 0 <= i < self.shards@.len() ==> (#[trigger] self.shards@[i]).wf()
        &&& forall|i: int, k: Seq<char>|
            0 <= i < self.shards@.len() && #[trigger] self.shards@[i]@.dom().contains(k)
                ==> shard_of_spec(k, self.shards@.len() as int) == i
    }

    /// Look a key up in the shard it routes to; no other shard is read.
    pub fn get(&self, key: &String) -> (r: Option<Vec<u8>>)
        requires
            self.wf(),
        ensures
            (match r {
                Some(v) => self@.dom().contains(key@) && v@ == self@[key@],
                None => !self@.dom().contains(key@),
            }),
    {
        let idx = shard_index(key.as_str(), self.shards.len());
        let shard = &self.shards[idx];
        shard.get(key)
    }

    /// Insert or overwrite a key in the shard it routes to. Every other
    /// shard is left untouched.
    pub fn set(&mut self, key: String, value: Vec<u8>)
        requires
            old(self).wf(),
        ensures
            final(self).wf(),
            final(self)@ == old(self)@.insert(key@, value@),
            final(self).shards@.len() == old(self).shards@.len(),
            forall|j: int|
                0 <= j < old(self).shards@.len() && j != shard_of_spec(
                    key@,
                    old(self).shards@.len() as int,
                ) ==> final(self).shards@[j] == old(self).shards@[j],
    {
        let ghost kview = key@;
        let ghost vview = value@;
        let ghost pre = *self;
        let n = self.shards.len();
        let ghost nn = n as int;
        let ghost idx0 = shard_of_spec(kview, nn);
        let idx = shard_index(key.as_str(), n);
        let mut tmp = Shard::new();
        self.shards.set_and_swap(idx, &mut tmp);
        tmp.set(key, value);
        self.shards.set_and_swap(idx, &mut tmp);
        proof {
            assert(self.shards@ =~= pre.shards@.update(idx0, self.shards@[idx0]));
            assert(self.shards@[idx0]@ == pre.shards@[idx0]@.insert(kview, vview));
            assert forall|i: int, k: Seq<char>|
                0 <= i < self.shards@.len() && #[trigger] self.shards@[i]@.dom().contains(k)
                    implies shard_of_spec(k, nn) == i by {
                if i == idx0 {
                    if k != kview {
                        assert(pre.shards@[i]@.dom().contains(k));
                    }
                } else {
                    assert(pre.shards@[i]@.dom().contains(k));
                }
            }
            assert(self@ =~= pre@.insert(kview, vview)) by {
                assert forall|k: Seq<char>| true implies {
                    &&& self@.dom().contains(k) == pre@.insert(kview, vview).dom().contains(k)
                    &&& (self@.dom().contains(k) ==> self@[k] == pre@.insert(kview, vview)[k])
                } by {
                    let j = shard_of_spec(k, nn);
                    if j != idx0 {
                        assert(self.shards@[j] == pre.shards@[j]);
                    }
                }
            }
        }
    }
}

/// A store of `num_shards` empty shards.
pub fn new_sharded_db(num_shards: usize) -> (r: Store)
    requires
        num_shards >= 1,
    ensures
        r.wf(),
        r.shards@.len() == num_shards,
        r@ == Map::<Seq<char>, Seq<u8>>::empty(),
{
    let mut shards: Vec<Shard> = Vec::new();
    let mut i: usize = 0;
    while i < num_shards
        invariant
            i <= num_shards,
            shards@.len() == i,
            forall|j: int|
                0 <= j < i ==> (#[trigger] shards@[j]).wf() && shards@[j]@ =~= Map::<
                    Seq<char>,
                    Seq<u8>,
                >::empty(),
        decreases num_shards - i,
    {
        shards.push(Shard::new());
        i = i + 1;
    }
    let r = Store { shards };
    proof {
        assert(r@ =~= Map::<Seq<char>, Seq<u8>>::empty());
    }
    r
}

/// Two keys routed to different shards are isolated: a step that leaves
/// the second key's shard untouched leaves the second key's binding
/// untouched, whatever it did to the first key's shard.
pub proof fn lemma_shard_isolation(pre: Store, post: Store, k1: Seq<char>, k2: Seq<char>)
    requires
        pre.wf(),
        post.wf(),
        post.shards@.len() == pre.shards@.len(),
        shard_of_spec(k1, pre.shards@.len() as int) != shard_of_spec(k2, pre.shards@.len() as int),
        forall|j: int|
            0 <= j < pre.shards@.len() && j != shard_of_spec(k1, pre.shards@.len() as int)
                ==> post.shards@[j] == pre.shards@[j],
    ensures
        post@.dom().contains(k2) == pre@.dom().contains(k2),
        post@.dom().contains(k2) ==> post@[k2] == pre@[k2],
{
    let n = pre.shards@.len() as int;
    let j2 = shard_of_spec(k2, n);
    crate::routing::lemma_shard_of_bounds(k2, n);
    assert(post.shards@[j2] == pre.shards@[j2]);
}

} // verus!
