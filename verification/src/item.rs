use vstd::prelude::*;

use crate::errors::{AuctionError, BidError};
use crate::principal::Principal;

verus! {

/// One accepted offer against an item, permanently recorded.
#[derive(Debug)]
pub struct Bid {
    /// The bidding principal.
    pub owner: Principal,
    /// The offered amount; strictly above the item's amount when accepted.
    pub amount: u32,
    /// Denomination label, an opaque string; not cross-validated.
    pub currency: String,
    /// Reserved for future invalidation; every stored bid counts as accepted.
    pub is_active: bool,
}

/// One auction listing, with its current high amount and bid history.
#[derive(Debug)]
pub struct Item {
    pub title: String,
    pub description: String,
    /// The principal that created the listing; immutable after creation.
    pub owner: Principal,
    /// The winner once the listing closes; anonymous until then.
    pub new_owner: Principal,
    /// Denomination label, an opaque string.
    pub currency: String,
    /// The current high-bid amount; 0 while no bid was accepted.
    pub amount: u32,
    /// True while open for bidding; false after close, never true again.
    pub is_active: bool,
    /// Caller-supplied opaque timestamp, stored but not enforced.
    pub start_time: String,
    /// Caller-supplied opaque timestamp, stored but not enforced.
    pub end_time: String,
    /// Accepted bids, appended in chronological order.
    pub bids: Vec<Bid>,
}

/// A caller-supplied draft for creating or editing a listing.
pub struct CreateItem {
    pub title: String,
    pub description: String,
    pub is_active: bool,
    pub start_time: String,
    pub end_time: String,
    pub currency: String,
    /// An amount basis carried by the draft; a created listing starts at 0
    /// regardless, and an edit preserves the stored amount.
    pub amount: u32,
}

/// A caller-supplied bid request; the bidder identity is the caller itself.
pub struct CreateBid {
    pub amount: u32,
    pub currency: String,
    pub is_active: bool,
}

/// The amount the forward scan over `bids` settles on: the maximal bid
/// amount, or 0 when no bid was recorded.
pub open spec fn winning_amount(bids: Seq<Bid>) -> u32
    decreases bids.len(),
{
    if bids.len() == 0 {
        0u32
    } else if bids.last().amount > winning_amount(bids.drop_last()) {
        bids.last().amount
    } else {
        winning_amount(bids.drop_last())
    }
}

/// The owner the forward scan over `bids` settles on: the owner of the
/// earliest bid of maximal amount, or the anonymous principal when no bid
/// was recorded.
pub open spec fn winning_owner(bids: Seq<Bid>) -> Principal
    decreases bids.len(),
{
    if bids.len() == 0 {
        Principal::spec_anonymous()
    } else if bids.last().amount > winning_amount(bids.drop_last()) {
        bids.last().owner
    } else {
        winning_owner(bids.drop_last())
    }
}

/// No stored bid exceeds the amount the scan settles on.
pub proof fn lemma_winning_amount_ge_all(bids: Seq<Bid>)
    ensures
        forall|i: int| 0 <= i < bids.len() ==> (#[trigger] bids[i]).amount <= winning_amount(bids),
    decreases bids.len(),
{
    if bids.len() > 0 {
        lemma_winning_amount_ge_all(bids.drop_last());
        assert forall|i: int| 0 <= i < bids.len() implies (#[trigger] bids[i]).amount
            <= winning_amount(bids) by {
            if i < bids.len() - 1 {
                assert(bids.drop_last()[i] == bids[i]);
            }
        }
    }
}

/// The amount and owner the closing scan settles on over recorded bids: a
/// forward pass keeping the strictly greatest amount seen so far.
pub fn scan_bids(bids: &Vec<Bid>) -> (r: (u32, Principal))
    ensures
        r.0 == winning_amount(bids@),
        r.1 == winning_owner(bids@),
{
    let n = bids.len();
    let mut best_amount: u32 = 0;
    let mut best_owner = Principal::anonymous();
    let mut i: usize = 0;
    while i < n
        invariant
            n == bids@.len(),
            i <= n,
            best_amount == winning_amount(bids@.take(i as int)),
            best_owner == winning_owner(bids@.take(i as int)),
        decreases n - i,
    {
        proof {
            assert(bids@.take(i as int + 1).drop_last() =~= bids@.take(i as int));
            assert(bids@.take(i as int + 1).last() == bids@[i as int]);
        }
        if bids[i].amount > best_amount {
            best_amount = bids[i].amount;
            best_owner = bids[i].owner;
        }
        i = i + 1;
    }
    proof {
        assert(bids@.take(n as int) =~= bids@);
    }
    (best_amount, best_owner)
}

/// The error a bid request receives against a given listing, in the order
/// the engine checks: activity, amount, self-bidding; `None` when accepted.
pub open spec fn bid_error_of(it: Item, caller: Principal, amount: u32) -> Option<BidError> {
    if !it.is_active {
        Some(BidError::AuctionIsNotActive)
    } else if amount <= it.amount {
        Some(BidError::BidAmountLessThanCurrent)
    } else if caller == it.owner {
        Some(BidError::OwnerIsNotValid)
    } else {
        None
    }
}

/// The error an edit request receives against a given listing: ownership
/// first, then activity of both the stored listing and the draft; `None`
/// when accepted. A closed listing rejects edits, since closing is terminal.
pub open spec fn edit_error_of(it: Item, caller: Principal, draft_active: bool) -> Option<
    AuctionError,
> {
    if caller != it.owner {
        Some(AuctionError::AccessRejected)
    } else if !it.is_active || !draft_active {
        Some(AuctionError::AuctionIsNotActive)
    } else {
        None
    }
}

/// The error a close request receives against a given listing; only the
/// listing owner may close it.
pub open spec fn end_error_of(it: Item, caller: Principal) -> Option<AuctionError> {
    if caller != it.owner {
        Some(AuctionError::AccessRejected)
    } else {
        None
    }
}

impl Item {
    /// Well-formedness of a stored listing: the recorded amount is the
    /// maximal accepted bid amount (0 when there is none), bids were accepted
    /// in strictly increasing amounts, no bid comes from the listing owner or
    /// from the anonymous identity, and the winner field is anonymous until
    /// the listing closes, the scan's winner afterwards.
    pub open spec fn wf(self) -> bool {
        &&& !self.owner.spec_is_anonymous()
        &&& self.amount == winning_amount(self.bids@)
        &&& (forall|i: int|
            0 <= i < self.bids@.len() ==> (#[trigger] self.bids@[i]).owner != self.owner)
        &&& (forall|i: int|
            0 <= i < self.bids@.len() ==> !(#[trigger] self.bids@[i]).owner.spec_is_anonymous())
        &&& (forall|i: int| 0 <= i < self.bids@.len() ==> (#[trigger] self.bids@[i]).amount > 0)
        &&& (forall|i: int, j: int|
            0 <= i < j < self.bids@.len() ==> (#[trigger] self.bids@[i]).amount < (
            #[trigger] self.bids@[j]).amount)
        &&& (self.is_active ==> self.new_owner == Principal::spec_anonymous())
        &&& (!self.is_active ==> self.new_owner == winning_owner(self.bids@))
    }

    /// The fields of a freshly created listing: everything display-related
    /// from the draft, ownership from the caller, no winner, no bids, amount 0.
    pub open spec fn fresh(self, owner: Principal, draft: CreateItem) -> bool {
        &&& self.title == draft.title
        &&& self.description == draft.description
        &&& self.owner == owner
        &&& self.new_owner == Principal::spec_anonymous()
        &&& self.currency == draft.currency
        &&& self.amount == 0u32
        &&& self.is_active == draft.is_active
        &&& self.start_time == draft.start_time
        &&& self.end_time == draft.end_time
        &&& self.bids@ == Seq::<Bid>::empty()
    }

    /// The fields after an accepted edit: display fields from the draft,
    /// while amount, bids, owner and winner carry over from the old listing.
    pub open spec fn edited(self, pre: Item, draft: CreateItem) -> bool {
        &&& self.title == draft.title
        &&& self.description == draft.description
        &&& self.currency == draft.currency
        &&& self.start_time == draft.start_time
        &&& self.end_time == draft.end_time
        &&& self.is_active == draft.is_active
        &&& self.owner == pre.owner
        &&& self.new_owner == pre.new_owner
        &&& self.amount == pre.amount
        &&& self.bids == pre.bids
    }

    /// The fields after a close: deactivated, the winner fixed to the scan's
    /// result over the recorded bids, everything else untouched.
    pub open spec fn closed_from(self, pre: Item) -> bool {
        &&& self.title == pre.title
        &&& self.description == pre.description
        &&& self.currency == pre.currency
        &&& self.start_time == pre.start_time
        &&& self.end_time == pre.end_time
        &&& self.owner == pre.owner
        &&& self.amount == pre.amount
        &&& self.bids == pre.bids
        &&& self.is_active == false
        &&& self.new_owner == winning_owner(pre.bids@)
    }

    /// The fields after an accepted bid: the request's bid appended under the
    /// caller's identity, the amount raised to the request's amount,
    /// everything else untouched.
    pub open spec fn bid_added(self, pre: Item, caller: Principal, req: CreateBid) -> bool {
        &&& self.title == pre.title
        &&& self.description == pre.description
        &&& self.currency == pre.currency
        &&& self.start_time == pre.start_time
        &&& self.end_time == pre.end_time
        &&& self.is_active == pre.is_active
        &&& self.owner == pre.owner
        &&& self.new_owner == pre.new_owner
        &&& self.amount == req.amount
        &&& self.bids@ == pre.bids@.push(
            Bid { owner: caller, amount: req.amount, currency: req.currency, is_active: req.is_active },
        )
    }

    /// Builds the stored record for a new listing.
    pub fn from_draft(caller: Principal, draft: CreateItem) -> (r: Item)
        ensures
            r.fresh(caller, draft),
            !caller.spec_is_anonymous() ==> r.wf(),
    {
        let r = Item {
            title: draft.title,
            description: draft.description,
            owner: caller,
            new_owner: Principal::anonymous(),
            currency: draft.currency,
            amount: 0u32,
            is_active: draft.is_active,
            start_time: draft.start_time,
            end_time: draft.end_time,
            bids: Vec::new(),
        };
        proof {
            assert(r.bids@ =~= Seq::<Bid>::empty());
        }
        r
    }

    /// Replaces the display fields from the draft; owner-only, and neither
    /// the stored listing nor the draft may be inactive (closing is done by
    /// `close` alone, and a closed listing is immutable).
    pub fn apply_edit(&mut self, caller: Principal, draft: CreateItem) -> (r: Result<
        (),
        AuctionError,
    >)
        requires
            old(self).wf(),
        ensures
            final(self).wf(),
            match r {
                Ok(()) => edit_error_of(*old(self), caller, draft.is_active) is None
                    && final(self).edited(*old(self), draft),
                Err(e) => Some(e) == edit_error_of(*old(self), caller, draft.is_active)
                    && *final(self) == *old(self),
            },
    {
        if caller != self.owner {
            return Err(AuctionError::AccessRejected);
        }
        if !self.is_active || !draft.is_active {
            return Err(AuctionError::AuctionIsNotActive);
        }
        self.title = draft.title;
        self.description = draft.description;
        self.currency = draft.currency;
        self.start_time = draft.start_time;
        self.end_time = draft.end_time;
        self.is_active = draft.is_active;
        Ok(())
    }

    /// Closes the listing: owner-only, deactivates it and fixes the winner
    /// to the owner of the earliest maximal bid (anonymous when there is
    /// none). This is the sole point where ownership transfers.
    pub fn close(&mut self, caller: Principal) -> (r: Result<(), AuctionError>)
        requires
            old(self).wf(),
        ensures
            final(self).wf(),
            match r {
                Ok(()) => end_error_of(*old(self), caller) is None
                    && final(self).closed_from(*old(self)),
                Err(e) => Some(e) == end_error_of(*old(self), caller)
                    && *final(self) == *old(self),
            },
    {
        if caller != self.owner {
            return Err(AuctionError::AccessRejected);
        }
        let scanned = scan_bids(&self.bids);
        self.is_active = false;
        self.new_owner = scanned.1;
        Ok(())
    }

    /// Runtime check of `wf`, for callers that hold records coming from
    /// outside the engine (decoded from a durable store, say).
    pub fn is_well_formed(&self) -> (r: bool)
        ensures
            r == self.wf(),
    {
        if self.owner.is_anonymous() {
            return false;
        }
        let scanned = scan_bids(&self.bids);
        if self.amount != scanned.0 {
            return false;
        }
        if self.is_active {
            if !self.new_owner.is_anonymous() {
                return false;
            }
        } else {
            if self.new_owner != scanned.1 {
                return false;
            }
        }
        let n = self.bids.len();
        let mut i: usize = 0;
        while i < n
            invariant
                n == self.bids@.len(),
                i <= n,
                forall|j: int|
                    0 <= j < i ==> (#[trigger] self.bids@[j]).owner != self.owner,
                forall|j: int|
                    0 <= j < i ==> !(#[trigger] self.bids@[j]).owner.spec_is_anonymous(),
                forall|j: int| 0 <= j < i ==> (#[trigger] self.bids@[j]).amount > 0,
                forall|a: int, b: int|
                    0 <= a < b < i ==> (#[trigger] self.bids@[a]).amount < (
                    #[trigger] self.bids@[b]).amount,
            decreases n - i,
        {
            if self.bids[i].owner == self.owner {
                return false;
            }
            if self.bids[i].owner.is_anonymous() {
                return false;
            }
            if self.bids[i].amount == 0 {
                return false;
            }
            if i > 0 && self.bids[i].amount <= self.bids[i - 1].amount {
                return false;
            }
            proof {
                assert forall|a: int, b: int| 0 <= a < b < i as int + 1 implies (
                #[trigger] self.bids@[a]).amount < (#[trigger] self.bids@[b]).amount by {
                    if b == i as int && a < i as int - 1 {
                        assert(self.bids@[a].amount < self.bids@[i as int - 1].amount);
                    }
                }
            }
            i = i + 1;
        }
        true
    }

    /// Records a bid under the caller's identity: the listing must be open,
    /// the offer strictly above the current amount, and the caller must not
    /// be the listing owner.
    pub fn apply_bid(&mut self, caller: Principal, req: CreateBid) -> (r: Result<(), BidError>)
        requires
            old(self).wf(),
            !caller.spec_is_anonymous(),
        ensures
            final(self).wf(),
            match r {
                Ok(()) => bid_error_of(*old(self), caller, req.amount) is None
                    && final(self).bid_added(*old(self), caller, req),
                Err(e) => Some(e) == bid_error_of(*old(self), caller, req.amount)
                    && *final(self) == *old(self),
            },
    {
        if !self.is_active {
            return Err(BidError::AuctionIsNotActive);
        }
        if req.amount <= self.amount {
            return Err(BidError::BidAmountLessThanCurrent);
        }
        if caller == self.owner {
            return Err(BidError::OwnerIsNotValid);
        }
        let amount = req.amount;
        let new_bid = Bid {
            owner: caller,
            amount,
            currency: req.currency,
            is_active: req.is_active,
        };
        proof {
            lemma_winning_amount_ge_all(self.bids@);
        }
        self.bids.push(new_bid);
        self.amount = amount;
        proof {
            assert(self.bids@.drop_last() =~= old(self).bids@);
            assert forall|i: int| 0 <= i < self.bids@.len() implies (
            #[trigger] self.bids@[i]).amount > 0 by {
                if i < self.bids@.len() - 1 {
                    assert(self.bids@[i] == old(self).bids@[i]);
                }
            }
            assert forall|i: int, j: int| 0 <= i < j < self.bids@.len() implies (
            #[trigger] self.bids@[i]).amount < (#[trigger] self.bids@[j]).amount by {
                if j == self.bids@.len() - 1 {
                    assert(self.bids@[i] == old(self).bids@[i]);
                    assert(old(self).bids@[i].amount <= winning_amount(old(self).bids@));
                } else {
                    assert(self.bids@[i] == old(self).bids@[i]);
                    assert(self.bids@[j] == old(self).bids@[j]);
                }
            }
        }
        Ok(())
    }
}

} // verus!
