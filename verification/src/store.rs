use vstd::prelude::*;

use crate::item::Item;

verus! {

/// The item table: a durable mapping from numeric identifier to listing.
///
/// Entries are kept in strictly ascending key order, so a scan visits items
/// in ascending id order and every derived query that breaks ties by "first
/// encountered" has a deterministic, reproducible result.
pub struct ItemStore {
    pub entries: Vec<(u64, Item)>,
}

impl View for ItemStore {
    type V = Seq<(u64, Item)>;

    open spec fn view(&self) -> Seq<(u64, Item)> {
        self.entries@
    }
}

impl ItemStore {
    /// Keys strictly ascend along the table.
    pub open spec fn wf(self) -> bool {
        forall|i: int, j: int|
            0 <= i < j < self@.len() ==> (#[trigger] self@[i]).0 < (#[trigger] self@[j]).0
    }

    pub open spec fn contains_key(self, id: u64) -> bool {
        exists|i: int| 0 <= i < self@.len() && (#[trigger] self@[i]).0 == id
    }

    pub open spec fn index_of(self, id: u64) -> int {
        choose|i: int| 0 <= i < self@.len() && (#[trigger] self@[i]).0 == id
    }

    pub open spec fn spec_get(self, id: u64) -> Item
        recommends
            self.contains_key(id),
    {
        self@[self.index_of(id)].1
    }

    /// With strictly ascending keys an id occurs at most once, so the entry
    /// at any position is the entry its key looks up.
    pub proof fn lemma_at_index(self, i: int)
        requires
            self.wf(),
            0 <= i < self@.len(),
        ensures
            self.contains_key(self@[i].0),
            self.index_of(self@[i].0) == i,
            self.spec_get(self@[i].0) == self@[i].1,
    {
        assert(self.contains_key(self@[i].0));
        let j = self.index_of(self@[i].0);
        if j < i {
            assert(self@[j].0 < self@[i].0);
        } else if j > i {
            assert(self@[i].0 < self@[j].0);
        }
    }

    /// Replacing the item under one key leaves every key, and every other
    /// entry, as it was.
    pub proof fn lemma_update_entry(pre: ItemStore, post: ItemStore, i: int, it: Item)
        requires
            pre.wf(),
            0 <= i < pre@.len(),
            post@ == pre@.update(i, (pre@[i].0, it)),
        ensures
            post.wf(),
            post@.len() == pre@.len(),
            forall|k: u64| post.contains_key(k) == pre.contains_key(k),
            post.contains_key(pre@[i].0),
            post.spec_get(pre@[i].0) == it,
            forall|k: u64|
                k != pre@[i].0 && pre.contains_key(k) ==> post.spec_get(k) == pre.spec_get(k),
    {
        let id = pre@[i].0;
        assert forall|a: int, b: int| 0 <= a < b < post@.len() implies (#[trigger] post@[a]).0 < (
        #[trigger] post@[b]).0 by {
            assert(pre@[a].0 < pre@[b].0);
        }
        assert forall|k: u64| post.contains_key(k) == pre.contains_key(k) by {
            if pre.contains_key(k) {
                let x = pre.index_of(k);
                assert(post@[x].0 == k);
                assert(post.contains_key(k));
            }
            if post.contains_key(k) {
                let x = post.index_of(k);
                assert(pre@[x].0 == k);
                assert(pre.contains_key(k));
            }
        }
        post.lemma_at_index(i);
        assert forall|k: u64| k != id && pre.contains_key(k) implies post.spec_get(k)
            == pre.spec_get(k) by {
            let x = pre.index_of(k);
            pre.lemma_at_index(x);
            assert(post@[x].0 == k);
            post.lemma_at_index(x);
        }
    }

    /// Inserting a fresh key at its ordered position keeps every existing
    /// entry reachable under its key, unchanged.
    pub proof fn lemma_insert_entry(pre: ItemStore, post: ItemStore, p: int, id: u64, it: Item)
        requires
            pre.wf(),
            !pre.contains_key(id),
            0 <= p <= pre@.len(),
            forall|j: int| 0 <= j < p ==> (#[trigger] pre@[j]).0 < id,
            forall|j: int| p <= j < pre@.len() ==> id < (#[trigger] pre@[j]).0,
            post@ == pre@.insert(p, (id, it)),
        ensures
            post.wf(),
            post@.len() == pre@.len() + 1,
            post.contains_key(id),
            post.spec_get(id) == it,
            forall|k: u64| k != id ==> post.contains_key(k) == pre.contains_key(k),
            forall|k: u64|
                k != id && pre.contains_key(k) ==> post.spec_get(k) == pre.spec_get(k),
    {
        pre@.insert_ensures(p, (id, it));
        assert forall|x: int| p < x < post@.len() implies post@[x] == pre@[x - 1] by {
            assert(pre@.insert(p, (id, it))[(x - 1) + 1] == pre@[x - 1]);
        }
        assert forall|a: int, b: int| 0 <= a < b < post@.len() implies (#[trigger] post@[a]).0 < (
        #[trigger] post@[b]).0 by {
            if a < p {
                assert(post@[a] == pre@[a]);
            }
            if b < p {
                assert(post@[b] == pre@[b]);
            }
        }
        post.lemma_at_index(p);
        assert forall|k: u64| k != id implies post.contains_key(k) == pre.contains_key(k) by {
            if pre.contains_key(k) {
                let x = pre.index_of(k);
                if x < p {
                    assert(post@[x].0 == k);
                } else {
                    assert(post@[x + 1].0 == k);
                }
                assert(post.contains_key(k));
            }
            if post.contains_key(k) {
                let x = post.index_of(k);
                if x < p {
                    assert(pre@[x].0 == k);
                } else {
                    assert(x != p);
                    assert(pre@[x - 1].0 == k);
                }
                assert(pre.contains_key(k));
            }
        }
        assert forall|k: u64| k != id && pre.contains_key(k) implies post.spec_get(k)
            == pre.spec_get(k) by {
            let x = pre.index_of(k);
            pre.lemma_at_index(x);
            if x < p {
                assert(post@[x].0 == k);
                post.lemma_at_index(x);
            } else {
                assert(post@[x + 1].0 == k);
                post.lemma_at_index(x + 1);
            }
        }
    }

    /// An empty table.
    pub fn new() -> (r: ItemStore)
        ensures
            r@ == Seq::<(u64, Item)>::empty(),
            r.wf(),
    {
        ItemStore { entries: Vec::new() }
    }

    /// Number of stored entries.
    pub fn len(&self) -> (r: usize)
        ensures
            r == self@.len(),
    {
        self.entries.len()
    }

    /// Position of an id in the table, scanning in iteration order.
    pub fn index_of_key(&self, id: u64) -> (r: Option<usize>)
        ensures
            match r {
                Some(i) => i < self@.len() && self@[i as int].0 == id,
                None => !self.contains_key(id),
            },
    {
        let n = self.entries.len();
        let mut i: usize = 0;
        while i < n
            invariant
                n == self@.len(),
                i <= n,
                forall|j: int| 0 <= j < i ==> (#[trigger] self@[j]).0 != id,
            decreases n - i,
        {
            if self.entries[i].0 == id {
                return Some(i);
            }
            i = i + 1;
        }
        None
    }

    /// Shared access to the entry at one position.
    pub fn key_at(&self, i: usize) -> (r: u64)
        requires
            i < self@.len(),
        ensures
            r == self@[i as int].0,
    {
        self.entries[i].0
    }

    /// Shared access to the item at one position.
    pub fn item_at(&self, i: usize) -> (r: &Item)
        requires
            i < self@.len(),
        ensures
            *r == self@[i as int].1,
    {
        &self.entries[i].1
    }

    /// Mutable access to the item at one position; the key stays as it is.
    pub fn item_at_mut(&mut self, i: usize) -> (r: &mut Item)
        requires
            i < old(self)@.len(),
        ensures
            *r == old(self)@[i as int].1,
            final(self)@ == old(self)@.update(i as int, (old(self)@[i as int].0, *final(r))),
    {
        let entry = &mut self.entries[i];
        &mut entry.1
    }

    /// Stores a listing under a fresh id at its ordered position.
    pub fn insert_new(&mut self, id: u64, item: Item)
        requires
            old(self).wf(),
            !old(self).contains_key(id),
        ensures
            final(self).wf(),
            final(self)@.len() == old(self)@.len() + 1,
            final(self).contains_key(id),
            final(self).spec_get(id) == item,
            forall|k: u64|
                k != id ==> final(self).contains_key(k) == old(self).contains_key(k),
            forall|k: u64|
                k != id && old(self).contains_key(k) ==> final(self).spec_get(k) == old(
                    self,
                ).spec_get(k),
    {
        let n = self.entries.len();
        let mut i: usize = 0;
        while i < n && self.entries[i].0 < id
            invariant
                n == self@.len(),
                i <= n,
                forall|j: int| 0 <= j < i ==> (#[trigger] self@[j]).0 < id,
            decreases n - i,
        {
            i = i + 1;
        }
        proof {
            if i < self@.len() {
                if self@[i as int].0 == id {
                    assert(self.contains_key(id));
                }
                assert(id < self@[i as int].0);
                assert forall|j: int| i <= j < self@.len() implies id < (#[trigger] self@[j]).0 by {
                    if j > i {
                        assert(self@[i as int].0 < self@[j].0);
                    }
                }
            }
        }
        let ghost pre = *self;
        self.entries.insert(i, (id, item));
        proof {
            ItemStore::lemma_insert_entry(pre, *self, i as int, id, item);
        }
    }
}

} // verus!
