//! Store of original image bytes, keyed by image identifier.
//!
//! Two implementations stand behind one interface: a bounded in-memory cache
//! here, and a persistent one over the embedded key-value engine in
//! [`crate::persistent_store`]. The in-memory store is modeled exactly; the
//! persistent one answers from disk, so its contract promises only what holds
//! of every outcome (`modeled` is false there).

use vstd::prelude::*;
use crate::types::{clone_bytes, ImageId};

verus! {

/// One stored original.
pub struct StoreEntry {
    pub id: ImageId,
    pub data: Vec<u8>,
}

/// No two entries carry the same identifier.
pub open spec fn store_ids_unique(s: Seq<StoreEntry>) -> bool {
    forall|i: int, j: int| 0 <= i < j < s.len() ==> s[i].id@ != s[j].id@
}

/// Some entry carries `id`.
pub open spec fn store_has_id(s: Seq<StoreEntry>, id: Seq<char>) -> bool {
    exists|i: int| 0 <= i < s.len() && s[i].id@ == id
}

/// The index of the entry carrying `id` (meaningful when present).
pub open spec fn store_idx_of(s: Seq<StoreEntry>, id: Seq<char>) -> int {
    choose|i: int| 0 <= i < s.len() && s[i].id@ == id
}

/// A store of original image bytes. `set` overwrites idempotently; a `get`
/// after it observes the written bytes, except where an implementation
/// answers from outside state (`modeled` false: disk-backed tiers).
pub trait Storage: Sized {
    /// Internal well-formedness.
    spec fn inv(&self) -> bool;

    /// Whether the store's contents are modeled exactly by `stored` /
    /// `stored_at`. Disk-backed implementations answer from outside state
    /// and return false.
    spec fn modeled(&self) -> bool;

    /// The identifier currently holds bytes.
    spec fn stored(&self, id: Seq<char>) -> bool;

    /// The bytes held for the identifier.
    spec fn stored_at(&self, id: Seq<char>) -> Seq<u8>;

    /// Reads the original bytes for `image_id`, or reports a miss.
    fn get(&self, image_id: &ImageId) -> (r: Option<Vec<u8>>)
        requires
            self.inv(),
        ensures
            self.modeled() ==> ((r is Some) == self.stored(image_id@)),
            self.modeled() ==> (r matches Some(v) ==> v@ == self.stored_at(image_id@)),
    ;

    /// Stores `data` under `image_id`, overwriting any earlier bytes. An
    /// implementation may evict other identifiers to hold its capacity, but
    /// never invents an entry it was not given.
    fn set(&mut self, image_id: ImageId, data: &Vec<u8>)
        requires
            old(self).inv(),
        ensures
            final(self).inv(),
            final(self).modeled() == old(self).modeled(),
            old(self).modeled() ==> final(self).stored(image_id@)
                && final(self).stored_at(image_id@) == data@,
            old(self).modeled() ==> forall|id2: Seq<char>|
                id2 != image_id@ && #[trigger] final(self).stored(id2)
                    ==> old(self).stored(id2)
                        && final(self).stored_at(id2) == old(self).stored_at(id2),
    ;

    /// Drops the bytes held for `image_id`, if any.
    fn remove(&mut self, image_id: ImageId)
        requires
            old(self).inv(),
        ensures
            final(self).inv(),
            final(self).modeled() == old(self).modeled(),
            old(self).modeled() ==> !final(self).stored(image_id@),
            old(self).modeled() ==> forall|id2: Seq<char>| id2 != image_id@ ==> {
                &&& #[trigger] final(self).stored(id2) == old(self).stored(id2)
                &&& (old(self).stored(id2)
                    ==> final(self).stored_at(id2) == old(self).stored_at(id2))
            },
    ;
}

/// In-memory store of originals, bounded by an entry count; once full, the
/// oldest inserted entry is evicted to admit a new identifier.
pub struct CachingStorage {
    pub entries: Vec<StoreEntry>,
    pub capacity: usize,
}

impl CachingStorage {
    /// Creates an empty store admitting up to `capacity` originals.
    pub fn new(capacity: usize) -> (r: Self)
        requires
            capacity >= 1,
        ensures
            r.inv(),
            r.modeled(),
            forall|id: Seq<char>| !r.stored(id),
    {
        CachingStorage { entries: Vec::new(), capacity }
    }

    fn find(&self, image_id: &ImageId) -> (r: Option<usize>)
        ensures
            r matches Some(i) ==> i < self.entries@.len() && self.entries@[i as int].id@ == image_id@,
            r is None ==> !store_has_id(self.entries@, image_id@),
    {
        let mut i: usize = 0;
        while i < self.entries.len()
            invariant
                i <= self.entries@.len(),
                forall|j: int| 0 <= j < i ==> self.entries@[j].id@ != image_id@,
            decreases self.entries@.len() - i,
        {
            if self.entries[i].id == *image_id {
                return Some(i);
            }
            i = i + 1;
        }
        None
    }
}

/// With unique identifiers, `store_idx_of` returns the index of any witness.
proof fn lemma_store_idx_is(s: Seq<StoreEntry>, id: Seq<char>, i: int)
    requires
        store_ids_unique(s),
        0 <= i < s.len(),
        s[i].id@ == id,
    ensures
        store_has_id(s, id),
        store_idx_of(s, id) == i,
{
    assert(store_has_id(s, id));
    let j = store_idx_of(s, id);
    assert(0 <= j < s.len() && s[j].id@ == id);
    if i < j {
        assert(false);
    } else if j < i {
        assert(false);
    }
}

impl Storage for CachingStorage {
    open spec fn inv(&self) -> bool {
        &&& self.capacity >= 1
        &&& self.entries@.len() <= self.capacity
        &&& store_ids_unique(self.entries@)
    }

    open spec fn modeled(&self) -> bool {
        true
    }

    open spec fn stored(&self, id: Seq<char>) -> bool {
        store_has_id(self.entries@, id)
    }

    open spec fn stored_at(&self, id: Seq<char>) -> Seq<u8> {
        self.entries@[store_idx_of(self.entries@, id)].data@
    }

    fn get(&self, image_id: &ImageId) -> (r: Option<Vec<u8>>) {
        let found = self.find(image_id);
        match found {
            Option::None => Option::None,
            Option::Some(i) => {
                proof {
                    lemma_store_idx_is(self.entries@, image_id@, i as int);
                }
                Option::Some(clone_bytes(&self.entries[i].data))
            },
        }
    }

    fn set(&mut self, image_id: ImageId, data: &Vec<u8>) {
        let found = self.find(&image_id);
        let entry = StoreEntry { id: image_id, data: clone_bytes(data) };
        match found {
            Option::Some(i) => {
                let ghost pre = *self;
                let _ = self.entries.remove(i);
                self.entries.insert(i, entry);
                proof {
                    assert forall|k: int| 0 <= k < pre.entries@.len() && k != i
                        implies #[trigger] self.entries@[k] == pre.entries@[k] by {}
                    lemma_store_set_at(pre.entries@, self.entries@, i as int, entry.id@);
                }
            },
            Option::None => {
                if self.entries.len() == self.capacity {
                    let ghost pre = *self;
                    let _ = self.entries.remove(0);
                    self.entries.push(entry);
                    proof {
                        lemma_store_evict_push(pre.entries@, self.entries@, entry.id@);
                    }
                } else {
                    let ghost pre = *self;
                    self.entries.push(entry);
                    proof {
                        lemma_store_push(pre.entries@, self.entries@, entry.id@);
                    }
                }
            },
        }
    }

    fn remove(&mut self, image_id: ImageId) {
        let found = self.find(&image_id);
        if let Option::Some(i) = found {
            let ghost pre = *self;
            let _ = self.entries.remove(i);
            proof {
                lemma_store_remove(pre.entries@, self.entries@, i as int, image_id@);
            }
        }
    }
}

/// Replacing the entry at `i` with one carrying the same position's new
/// identifier: that identifier maps to the new bytes, others are untouched.
proof fn lemma_store_set_at(pre: Seq<StoreEntry>, post: Seq<StoreEntry>, i: int, id: Seq<char>)
    requires
        store_ids_unique(pre),
        0 <= i < pre.len(),
        pre[i].id@ == id,
        post.len() == pre.len(),
        forall|k: int| 0 <= k < pre.len() && k != i ==> #[trigger] post[k] == pre[k],
        post[i].id@ == id,
    ensures
        store_ids_unique(post),
        store_has_id(post, id),
        store_idx_of(post, id) == i,
        forall|id2: Seq<char>| id2 != id ==> {
            &&& #[trigger] store_has_id(post, id2) == store_has_id(pre, id2)
            &&& (store_has_id(pre, id2) ==> post[store_idx_of(post, id2)].data@
                == pre[store_idx_of(pre, id2)].data@)
        },
{
    assert(store_ids_unique(post)) by {
        assert forall|a: int, b: int| 0 <= a < b < post.len()
            implies post[a].id@ != post[b].id@ by {
            if a != i {
                assert(post[a] == pre[a]);
            }
            if b != i {
                assert(post[b] == pre[b]);
            }
        }
    }
    lemma_store_idx_is(post, id, i);
    assert forall|id2: Seq<char>| id2 != id implies {
        &&& #[trigger] store_has_id(post, id2) == store_has_id(pre, id2)
        &&& (store_has_id(pre, id2) ==> post[store_idx_of(post, id2)].data@
            == pre[store_idx_of(pre, id2)].data@)
    } by {
        if store_has_id(pre, id2) {
            let j = store_idx_of(pre, id2);
            assert(0 <= j < pre.len() && pre[j].id@ == id2);
            lemma_store_idx_is(pre, id2, j);
            assert(j != i);
            assert(post[j] == pre[j]);
            lemma_store_idx_is(post, id2, j);
        }
        if store_has_id(post, id2) {
            let j = store_idx_of(post, id2);
            assert(0 <= j < post.len() && post[j].id@ == id2);
            assert(j != i);
            assert(pre[j] == post[j]);
            assert(store_has_id(pre, id2));
        }
    }
}

/// Appending a fresh identifier keeps every other identifier intact.
proof fn lemma_store_push(pre: Seq<StoreEntry>, post: Seq<StoreEntry>, id: Seq<char>)
    requires
        store_ids_unique(pre),
        !store_has_id(pre, id),
        post.len() == pre.len() + 1,
        forall|k: int| 0 <= k < pre.len() ==> #[trigger] post[k] == pre[k],
        post.last().id@ == id,
    ensures
        store_ids_unique(post),
        store_has_id(post, id),
        store_idx_of(post, id) == pre.len(),
        forall|id2: Seq<char>| id2 != id ==> {
            &&& #[trigger] store_has_id(post, id2) == store_has_id(pre, id2)
            &&& (store_has_id(pre, id2) ==> post[store_idx_of(post, id2)].data@
                == pre[store_idx_of(pre, id2)].data@)
        },
{
    let n = pre.len() as int;
    assert(store_ids_unique(post)) by {
        assert forall|a: int, b: int| 0 <= a < b < post.len()
            implies post[a].id@ != post[b].id@ by {
            if b < n {
            } else {
                if post[a].id@ == id {
                    assert(pre[a].id@ == id);
                    assert(store_has_id(pre, id));
                }
            }
        }
    }
    lemma_store_idx_is(post, id, n);
    assert forall|id2: Seq<char>| id2 != id implies {
        &&& #[trigger] store_has_id(post, id2) == store_has_id(pre, id2)
        &&& (store_has_id(pre, id2) ==> post[store_idx_of(post, id2)].data@
            == pre[store_idx_of(pre, id2)].data@)
    } by {
        if store_has_id(pre, id2) {
            let j = store_idx_of(pre, id2);
            assert(0 <= j < pre.len() && pre[j].id@ == id2);
            lemma_store_idx_is(pre, id2, j);
            assert(post[j] == pre[j]);
            lemma_store_idx_is(post, id2, j);
        }
        if store_has_id(post, id2) {
            let j = store_idx_of(post, id2);
            assert(0 <= j < post.len() && post[j].id@ == id2);
            assert(j != n);
            assert(pre[j] == post[j]);
            assert(store_has_id(pre, id2));
        }
    }
}

/// Evicting the oldest entry and appending a fresh identifier: the fresh one
/// is stored, and every surviving identifier keeps its bytes.
proof fn lemma_store_evict_push(pre: Seq<StoreEntry>, post: Seq<StoreEntry>, id: Seq<char>)
    requires
        store_ids_unique(pre),
        !store_has_id(pre, id),
        pre.len() >= 1,
        post.len() == pre.len(),
        forall|k: int| 0 <= k < pre.len() - 1 ==> #[trigger] post[k] == pre[k + 1],
        post.last().id@ == id,
    ensures
        store_ids_unique(post),
        store_has_id(post, id),
        store_idx_of(post, id) == pre.len() - 1,
        forall|id2: Seq<char>| id2 != id && #[trigger] store_has_id(post, id2) ==> {
            &&& store_has_id(pre, id2)
            &&& post[store_idx_of(post, id2)].data@ == pre[store_idx_of(pre, id2)].data@
        },
{
    let n = pre.len() as int;
    assert(store_ids_unique(post)) by {
        assert forall|a: int, b: int| 0 <= a < b < post.len()
            implies post[a].id@ != post[b].id@ by {
            if b < n - 1 {
                assert(post[a] == pre[a + 1]);
                assert(post[b] == pre[b + 1]);
            } else {
                assert(post[b].id@ == id);
                if post[a].id@ == id {
                    assert(pre[a + 1].id@ == id);
                    assert(store_has_id(pre, id));
                }
            }
        }
    }
    lemma_store_idx_is(post, id, n - 1);
    assert forall|id2: Seq<char>| id2 != id && #[trigger] store_has_id(post, id2) implies {
        &&& store_has_id(pre, id2)
        &&& post[store_idx_of(post, id2)].data@ == pre[store_idx_of(pre, id2)].data@
    } by {
        let j = store_idx_of(post, id2);
        assert(0 <= j < post.len() && post[j].id@ == id2);
        assert(j != n - 1);
        assert(post[j] == pre[j + 1]);
        lemma_store_idx_is(pre, id2, j + 1);
        lemma_store_idx_is(post, id2, j);
    }
}

/// Removing an identifier's entry keeps every other identifier intact.
proof fn lemma_store_remove(pre: Seq<StoreEntry>, post: Seq<StoreEntry>, i: int, id: Seq<char>)
    requires
        store_ids_unique(pre),
        0 <= i < pre.len(),
        pre[i].id@ == id,
        post =~= pre.remove(i),
    ensures
        store_ids_unique(post),
        !store_has_id(post, id),
        forall|id2: Seq<char>| id2 != id ==> {
            &&& #[trigger] store_has_id(post, id2) == store_has_id(pre, id2)
            &&& (store_has_id(pre, id2) ==> post[store_idx_of(post, id2)].data@
                == pre[store_idx_of(pre, id2)].data@)
        },
{
    let n = pre.len() as int;
    assert(forall|k: int| 0 <= k < i ==> #[trigger] post[k] == pre[k]);
    assert(forall|k: int| i <= k < n - 1 ==> #[trigger] post[k] == pre[k + 1]);
    assert(store_ids_unique(post)) by {
        assert forall|a: int, b: int| 0 <= a < b < post.len()
            implies post[a].id@ != post[b].id@ by {
            let a2: int = if a < i { a } else { a + 1 };
            let b2: int = if b < i { b } else { b + 1 };
            assert(post[a] == pre[a2]);
            assert(post[b] == pre[b2]);
        }
    }
    lemma_store_idx_is(pre, id, i);
    assert(!store_has_id(post, id)) by {
        if store_has_id(post, id) {
            let j = store_idx_of(post, id);
            assert(0 <= j < post.len() && post[j].id@ == id);
            let j2: int = if j < i { j } else { j + 1 };
            assert(pre[j2].id@ == id);
            assert(j2 != i);
        }
    }
    assert forall|id2: Seq<char>| id2 != id implies {
        &&& #[trigger] store_has_id(post, id2) == store_has_id(pre, id2)
        &&& (store_has_id(pre, id2) ==> post[store_idx_of(post, id2)].data@
            == pre[store_idx_of(pre, id2)].data@)
    } by {
        if store_has_id(pre, id2) {
            let j = store_idx_of(pre, id2);
            assert(0 <= j < pre.len() && pre[j].id@ == id2);
            lemma_store_idx_is(pre, id2, j);
            assert(j != i);
            let j2: int = if j < i { j } else { j - 1 };
            assert(post[j2] == pre[j]);
            lemma_store_idx_is(post, id2, j2);
        }
        if store_has_id(post, id2) {
            let j = store_idx_of(post, id2);
            assert(0 <= j < post.len() && post[j].id@ == id2);
            let j2: int = if j < i { j } else { j + 1 };
            assert(pre[j2] == post[j]);
            assert(store_has_id(pre, id2));
        }
    }
}

} // verus!
