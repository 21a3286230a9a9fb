use vstd::prelude::*;

use crate::errors::{AuctionError, BidError};
use crate::item::{bid_error_of, edit_error_of, end_error_of, CreateBid, CreateItem, Item};
use crate::principal::Principal;
use crate::queries::{active_items, active_seq, best_sale, deref_items, highest_sale_of, most_bid,
    most_bid_of};
use crate::store::ItemStore;

verus! {

/// The auction engine: the public operation surface, enforcing the listing
/// invariants over the item store it owns.
pub struct AuctionEngine {
    pub store: ItemStore,
}

impl View for AuctionEngine {
    type V = Seq<(u64, Item)>;

    open spec fn view(&self) -> Seq<(u64, Item)> {
        self.store@
    }
}

impl AuctionEngine {
    /// Keys strictly ascend and every stored listing is well-formed.
    pub open spec fn inv(self) -> bool {
        &&& self.store.wf()
        &&& forall|i: int| 0 <= i < self@.len() ==> (#[trigger] self@[i]).1.wf()
    }

    pub open spec fn contains_key(self, id: u64) -> bool {
        self.store.contains_key(id)
    }

    pub open spec fn spec_get(self, id: u64) -> Item
        recommends
            self.contains_key(id),
    {
        self.store.spec_get(id)
    }

    /// Closing is one-way: no operation reactivates, or otherwise touches,
    /// a listing that is closed.
    pub open spec fn preserves_closed(pre: AuctionEngine, post: AuctionEngine) -> bool {
        forall|k: u64|
            #[trigger] pre.contains_key(k) && !pre.spec_get(k).is_active ==> post.contains_key(k)
                && post.spec_get(k) == pre.spec_get(k)
    }

    /// An engine over an empty store.
    pub fn new() -> (r: AuctionEngine)
        ensures
            r.inv(),
            r@ == Seq::<(u64, Item)>::empty(),
    {
        AuctionEngine { store: ItemStore::new() }
    }

    /// Direct lookup of one listing; no side effects.
    pub fn get_item(&self, id: u64) -> (r: Option<&Item>)
        requires
            self.inv(),
        ensures
            match r {
                Some(it) => self.contains_key(id) && *it == self.spec_get(id),
                None => !self.contains_key(id),
            },
    {
        match self.store.index_of_key(id) {
            None => None,
            Some(i) => {
                proof {
                    self.store.lemma_at_index(i as int);
                }
                Some(self.store.item_at(i))
            },
        }
    }

    /// All active listings, in ascending id order (the store's iteration
    /// order).
    pub fn list_active_items(&self) -> (r: Vec<&Item>)
        ensures
            deref_items(r@) == active_seq(self@),
    {
        active_items(&self.store.entries)
    }

    /// The stored listing with the maximal amount, earliest on ties;
    /// absent only while the store is empty.
    pub fn highest_sale_item(&self) -> (r: Option<&Item>)
        ensures
            match r {
                Some(it) => best_sale(self@) == Some(*it),
                None => self@.len() == 0,
            },
    {
        highest_sale_of(&self.store.entries)
    }

    /// The stored listing with the longest bid history, earliest on ties;
    /// absent only while the store is empty.
    pub fn most_bid_item(&self) -> (r: Option<&Item>)
        ensures
            match r {
                Some(it) => most_bid(self@) == Some(*it),
                None => self@.len() == 0,
            },
    {
        most_bid_of(&self.store.entries)
    }

    /// Total number of stored listings, active and closed alike.
    pub fn count_items(&self) -> (r: u64)
        ensures
            r == self@.len(),
    {
        self.store.len() as u64
    }

    /// Stores a new listing under a caller-chosen id: the caller becomes its
    /// owner, there is no winner yet, no bids, and the amount starts at 0.
    /// An id that already denotes an item is rejected rather than silently
    /// overwritten.
    pub fn create_item(&mut self, caller: Principal, id: u64, draft: CreateItem) -> (r: Result<
        (),
        AuctionError,
    >)
        requires
            old(self).inv(),
            !caller.spec_is_anonymous(),
        ensures
            final(self).inv(),
            AuctionEngine::preserves_closed(*old(self), *final(self)),
            match r {
                Ok(()) => {
                    &&& !old(self).contains_key(id)
                    &&& final(self).contains_key(id)
                    &&& final(self).spec_get(id).fresh(caller, draft)
                    &&& final(self)@.len() == old(self)@.len() + 1
                    &&& (forall|k: u64|
                        k != id ==> final(self).contains_key(k) == old(self).contains_key(k))
                    &&& (forall|k: u64|
                        k != id && old(self).contains_key(k) ==> final(self).spec_get(k)
                            == old(self).spec_get(k))
                },
                Err(e) => e == AuctionError::DuplicateItem && old(self).contains_key(id)
                    && final(self)@ == old(self)@,
            },
    {
        match self.store.index_of_key(id) {
            Some(i) => {
                proof {
                    self.store.lemma_at_index(i as int);
                }
                Err(AuctionError::DuplicateItem)
            },
            None => {
                let item = Item::from_draft(caller, draft);
                let ghost pre = *self;
                self.store.insert_new(id, item);
                proof {
                    assert forall|x: int| 0 <= x < self@.len() implies (
                    #[trigger] self@[x]).1.wf() by {
                        self.store.lemma_at_index(x);
                        let k = self@[x].0;
                        if k != id {
                            assert(pre.store.contains_key(k));
                            let y = pre.store.index_of(k);
                            pre.store.lemma_at_index(y);
                            assert(self@[x].1 == pre@[y].1);
                        }
                    }
                }
                Ok(())
            },
        }
    }

    /// Replaces the display fields of a listing from the draft, preserving
    /// amount, bids, owner and winner. Owner-only; a closed listing, or a
    /// draft that asks for an inactive listing, is rejected.
    pub fn edit_item(&mut self, caller: Principal, id: u64, draft: CreateItem) -> (r: Result<
        (),
        AuctionError,
    >)
        requires
            old(self).inv(),
        ensures
            final(self).inv(),
            AuctionEngine::preserves_closed(*old(self), *final(self)),
            match r {
                Ok(()) => {
                    &&& old(self).contains_key(id)
                    &&& edit_error_of(old(self).spec_get(id), caller, draft.is_active) is None
                    &&& final(self).contains_key(id)
                    &&& final(self).spec_get(id).edited(old(self).spec_get(id), draft)
                    &&& final(self)@.len() == old(self)@.len()
                    &&& (forall|k: u64|
                        final(self).contains_key(k) == old(self).contains_key(k))
                    &&& (forall|k: u64|
                        k != id && old(self).contains_key(k) ==> final(self).spec_get(k)
                            == old(self).spec_get(k))
                },
                Err(e) => {
                    &&& final(self)@ == old(self)@
                    &&& (if !old(self).contains_key(id) {
                        e == AuctionError::NoSuchAuction
                    } else {
                        Some(e) == edit_error_of(old(self).spec_get(id), caller, draft.is_active)
                    })
                },
            },
    {
        match self.store.index_of_key(id) {
            None => Err(AuctionError::NoSuchAuction),
            Some(i) => {
                proof {
                    self.store.lemma_at_index(i as int);
                    assert((self@[i as int]).1.wf());
                }
                let ghost pre = *self;
                let it = self.store.item_at_mut(i);
                let r = it.apply_edit(caller, draft);
                proof {
                    ItemStore::lemma_update_entry(
                        pre.store,
                        self.store,
                        i as int,
                        self@[i as int].1,
                    );
                    assert forall|x: int| 0 <= x < self@.len() implies (
                    #[trigger] self@[x]).1.wf() by {
                        if x != i as int {
                            assert(self@[x] == pre@[x]);
                        }
                    }
                    if r is Err {
                        assert(self@ =~= pre@);
                    }
                }
                r
            },
        }
    }

    /// Closes a listing: owner-only, deactivates it and transfers ownership
    /// to the bidder of the earliest maximal bid, or leaves the winner
    /// anonymous when no bid was recorded.
    pub fn end_item(&mut self, caller: Principal, id: u64) -> (r: Result<(), AuctionError>)
        requires
            old(self).inv(),
        ensures
            final(self).inv(),
            AuctionEngine::preserves_closed(*old(self), *final(self)),
            match r {
                Ok(()) => {
                    &&& old(self).contains_key(id)
                    &&& end_error_of(old(self).spec_get(id), caller) is None
                    &&& final(self).contains_key(id)
                    &&& final(self).spec_get(id).closed_from(old(self).spec_get(id))
                    &&& final(self)@.len() == old(self)@.len()
                    &&& (forall|k: u64|
                        final(self).contains_key(k) == old(self).contains_key(k))
                    &&& (forall|k: u64|
                        k != id && old(self).contains_key(k) ==> final(self).spec_get(k)
                            == old(self).spec_get(k))
                },
                Err(e) => {
                    &&& final(self)@ == old(self)@
                    &&& (if !old(self).contains_key(id) {
                        e == AuctionError::NoSuchAuction
                    } else {
                        Some(e) == end_error_of(old(self).spec_get(id), caller)
                    })
                },
            },
    {
        match self.store.index_of_key(id) {
            None => Err(AuctionError::NoSuchAuction),
            Some(i) => {
                proof {
                    self.store.lemma_at_index(i as int);
                    assert((self@[i as int]).1.wf());
                }
                let ghost pre = *self;
                let it = self.store.item_at_mut(i);
                let r = it.close(caller);
                proof {
                    ItemStore::lemma_update_entry(
                        pre.store,
                        self.store,
                        i as int,
                        self@[i as int].1,
                    );
                    assert forall|x: int| 0 <= x < self@.len() implies (
                    #[trigger] self@[x]).1.wf() by {
                        if x != i as int {
                            assert(self@[x] == pre@[x]);
                        }
                    }
                    if r is Err {
                        assert(self@ =~= pre@);
                    }
                    if r is Ok && !pre@[i as int].1.is_active {
                        // re-closing a closed listing recomputes the same winner,
                        // so the stored value does not change
                        assert(self@[i as int].1 == pre@[i as int].1);
                    }
                }
                r
            },
        }
    }

    /// Records a bid on a listing under the caller's identity; the listing
    /// must exist and be open, the offer strictly above the current amount,
    /// and the caller must not be the listing owner.
    pub fn bid(&mut self, caller: Principal, id: u64, req: CreateBid) -> (r: Result<(), BidError>)
        requires
            old(self).inv(),
            !caller.spec_is_anonymous(),
        ensures
            final(self).inv(),
            AuctionEngine::preserves_closed(*old(self), *final(self)),
            match r {
                Ok(()) => {
                    &&& old(self).contains_key(id)
                    &&& bid_error_of(old(self).spec_get(id), caller, req.amount) is None
                    &&& final(self).contains_key(id)
                    &&& final(self).spec_get(id).bid_added(old(self).spec_get(id), caller, req)
                    &&& final(self)@.len() == old(self)@.len()
                    &&& (forall|k: u64|
                        final(self).contains_key(k) == old(self).contains_key(k))
                    &&& (forall|k: u64|
                        k != id && old(self).contains_key(k) ==> final(self).spec_get(k)
                            == old(self).spec_get(k))
                },
                Err(e) => {
                    &&& final(self)@ == old(self)@
                    &&& (if !old(self).contains_key(id) {
                        e == BidError::NoSuchItem
                    } else {
                        Some(e) == bid_error_of(old(self).spec_get(id), caller, req.amount)
                    })
                },
            },
    {
        match self.store.index_of_key(id) {
            None => Err(BidError::NoSuchItem),
            Some(i) => {
                proof {
                    self.store.lemma_at_index(i as int);
                    assert((self@[i as int]).1.wf());
                }
                let ghost pre = *self;
                let it = self.store.item_at_mut(i);
                let r = it.apply_bid(caller, req);
                proof {
                    ItemStore::lemma_update_entry(
                        pre.store,
                        self.store,
                        i as int,
                        self@[i as int].1,
                    );
                    assert forall|x: int| 0 <= x < self@.len() implies (
                    #[trigger] self@[x]).1.wf() by {
                        if x != i as int {
                            assert(self@[x] == pre@[x]);
                        }
                    }
                    if r is Err {
                        assert(self@ =~= pre@);
                    }
                }
                r
            },
        }
    }
}

} // verus!
