//! A set of message ids with a hash index, so that telling whether an id
//! has been seen takes time proportional to the ids that share its hash
//! rather than to all the ids seen.
use vstd::prelude::*;
use std::collections::HashMap;
use crate::text::{chars_of, same_text};

verus! {

broadcast use vstd::std_specs::hash::group_hash_axioms;

/// The modulus of the id hash (a Mersenne prime below 2^61).
pub const HASH_MODULUS: u128 = 0x1fff_ffff_ffff_ffff;

/// A polynomial hash of the characters of an id.
pub open spec fn id_hash(s: Seq<char>) -> u64
    decreases s.len(),
{
    if s.len() == 0 {
        0
    } else {
        ((id_hash(s.drop_last()) as int * 31 + s.last() as u32 as int) % (HASH_MODULUS as int)) as u64
    }
}

/// The hash of an id, computed over its characters.
pub fn hash_of(id: &str) -> (h: u64)
    ensures
        h == id_hash(id@),
{
    let v = chars_of(id);
    let mut h: u128 = 0;
    let mut i: usize = 0;
    assert(v@.subrange(0, 0) =~= Seq::<char>::empty());
    while i < v.len()
        invariant
            i <= v.len(),
            h == id_hash(v@.subrange(0, i as int)),
            h < HASH_MODULUS,
        decreases v.len() - i,
    {
        let ch = v[i];
        let c = ch as u32 as u128;
        assert(v@.subrange(0, i + 1).drop_last() =~= v@.subrange(0, i as int));
        assert(v@.subrange(0, i + 1).last() == ch);
        h = (h * 31 + c) % HASH_MODULUS;
        i = i + 1;
    }
    assert(v@.subrange(0, v.len() as int) =~= v@);
    h as u64
}

/// Ids in the order they were added, indexed by hash.
pub struct SeenIds {
    ids: Vec<String>,
    index: HashMap<u64, Vec<usize>>,
}

impl SeenIds {
    /// The ids added so far, in order.
    pub closed spec fn ids(&self) -> Seq<String> {
        self.ids@
    }

    /// Every id is listed under its hash, and every listed position holds an
    /// id with that hash.
    pub closed spec fn wf(&self) -> bool {
        &&& forall|i: int|
            0 <= i < self.ids.len() ==> #[trigger] self.index@.contains_key(
                id_hash(self.ids@[i]@),
            ) && self.index@[id_hash(self.ids@[i]@)]@.contains(i as usize)
        &&& forall|k: u64, j: int|
            #![trigger self.index@[k]@[j]]
            self.index@.contains_key(k) && 0 <= j < self.index@[k].len() ==> {
                &&& self.index@[k]@[j] < self.ids.len()
                &&& id_hash(self.ids@[self.index@[k]@[j] as int]@) == k
            }
    }

    pub fn new() -> (s: SeenIds)
        ensures
            s.wf(),
            s.ids() == Seq::<String>::empty(),
    {
        SeenIds { ids: Vec::new(), index: HashMap::new() }
    }

    /// Whether an id with the characters of `id` has been added.
    pub fn contains(&self, id: &String) -> (b: bool)
        requires
            self.wf(),
        ensures
            b == exists|i: int| 0 <= i < self.ids().len() && (#[trigger] self.ids()[i])@ == id@,
    {
        let h = hash_of(id.as_str());
        match self.index.get(&h) {
            None => {
                assert forall|i: int| 0 <= i < self.ids().len() implies (#[trigger] self.ids()[
                    i
                ])@ != id@ by {
                    assert(self.index@.contains_key(id_hash(self.ids@[i]@)));
                }
                false
            },
            Some(bucket) => {
                let mut j: usize = 0;
                while j < bucket.len()
                    invariant
                        self.wf(),
                        self.index@.contains_key(h),
                        *bucket == self.index@[h],
                        h == id_hash(id@),
                        j <= bucket.len(),
                        forall|m: int| 0 <= m < j ==> (#[trigger] self.ids@[bucket@[m] as int])@ != id@,
                    decreases bucket.len() - j,
                {
                    let p = bucket[j];
                    assert(self.index@[h]@[j as int] == p);
                    if same_text(self.ids[p].as_str(), id.as_str()) {
                        assert(self.ids()[p as int]@ == id@);
                        return true;
                    }
                    j = j + 1;
                }
                assert forall|i: int| 0 <= i < self.ids().len() implies (#[trigger] self.ids()[
                    i
                ])@ != id@ by {
                    if self.ids@[i]@ == id@ {
                        assert(self.index@[id_hash(self.ids@[i]@)]@.contains(i as usize));
                        let m = choose|m: int|
                            0 <= m < bucket@.len() && bucket@[m] == i as usize;
                        assert(self.ids@[bucket@[m] as int]@ != id@);
                    }
                }
                false
            },
        }
    }

    /// Adds `id` after the ids added so far.
    pub fn insert(&mut self, id: String)
        requires
            old(self).wf(),
        ensures
            final(self).wf(),
            final(self).ids() == old(self).ids().push(id),
    {
        let h = hash_of(id.as_str());
        let pos = self.ids.len();
        let ghost old_ids = self.ids@;
        let ghost old_index = self.index@;
        let mut bucket = match self.index.remove(&h) {
            Some(b) => b,
            None => Vec::new(),
        };
        let ghost old_bucket = bucket@;
        assert(old_index.contains_key(h) ==> old_bucket == old_index[h]@);
        assert(!old_index.contains_key(h) ==> old_bucket.len() == 0);
        bucket.push(pos);
        self.ids.push(id);
        self.index.insert(h, bucket);
        assert(self.ids@ == old_ids.push(self.ids@[pos as int]));
        assert forall|i: int| 0 <= i < self.ids.len() implies #[trigger] self.index@.contains_key(
            id_hash(self.ids@[i]@),
        ) && self.index@[id_hash(self.ids@[i]@)]@.contains(i as usize) by {
            if i == pos {
                assert(self.index@[h]@[old_bucket.len() as int] == pos);
            } else {
                assert(self.ids@[i] == old_ids[i]);
                let k = id_hash(old_ids[i]@);
                assert(old(self).index@.contains_key(id_hash(old(self).ids@[i]@)));
                assert(old_index.contains_key(k) && old_index[k]@.contains(i as usize));
                if k == h {
                    let m = choose|m: int| 0 <= m < old_index[k]@.len() && old_index[k]@[m] == i as usize;
                    assert(self.index@[h]@[m] == i as usize);
                }
            }
        }
        assert forall|k: u64, j: int|
            #![trigger self.index@[k]@[j]]
            self.index@.contains_key(k) && 0 <= j < self.index@[k].len() implies {
                &&& self.index@[k]@[j] < self.ids.len()
                &&& id_hash(self.ids@[self.index@[k]@[j] as int]@) == k
            } by {
            if k == h {
                if j < old_bucket.len() {
                    assert(self.index@[k]@[j] == old_index[k]@[j]);
                    assert(self.ids@[old_index[k]@[j] as int] == old_ids[old_index[k]@[j] as int]);
                }
            } else {
                assert(self.index@[k] == old_index[k]);
                assert(self.ids@[old_index[k]@[j] as int] == old_ids[old_index[k]@[j] as int]);
            }
        }
    }
}

} // verus!
