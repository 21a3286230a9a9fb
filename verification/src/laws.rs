use vstd::prelude::*;

use crate::engine::AuctionEngine;
use crate::errors::{AuctionError, BidError};
use crate::item::{
    bid_error_of, edit_error_of, end_error_of, lemma_winning_amount_ge_all, winning_amount,
    winning_owner, Bid, CreateBid, Item,
};
use crate::principal::Principal;
use crate::queries::{best_sale, most_bid};

verus! {

/// The recorded amount of a well-formed listing equals the maximum accepted
/// bid amount, and is 0 while no bid was recorded.
pub proof fn lemma_amount_is_max(it: Item)
    requires
        it.wf(),
    ensures
        it.amount == winning_amount(it.bids@),
        forall|i: int| 0 <= i < it.bids@.len() ==> (#[trigger] it.bids@[i]).amount <= it.amount,
        it.bids@.len() == 0 ==> it.amount == 0,
{
    lemma_winning_amount_ge_all(it.bids@);
}

/// Accepting a bid strictly raises the recorded amount, which remains the
/// maximum accepted bid amount seen so far: along any sequence of accepted
/// bids the amount is non-decreasing.
pub proof fn lemma_accepted_bid_raises_amount(
    pre: Item,
    post: Item,
    caller: Principal,
    req: CreateBid,
)
    requires
        pre.wf(),
        bid_error_of(pre, caller, req.amount) is None,
        post.bid_added(pre, caller, req),
    ensures
        post.amount > pre.amount,
        post.amount == winning_amount(post.bids@),
        forall|i: int|
            0 <= i < post.bids@.len() ==> (#[trigger] post.bids@[i]).amount <= post.amount,
{
    assert(post.bids@.drop_last() =~= pre.bids@);
    lemma_winning_amount_ge_all(post.bids@);
}

/// No stored bid of any listing comes from the listing's own owner.
pub proof fn lemma_no_self_bid(e: AuctionEngine, id: u64)
    requires
        e.inv(),
        e.contains_key(id),
    ensures
        forall|j: int|
            0 <= j < e.spec_get(id).bids@.len() ==> (#[trigger] e.spec_get(id).bids@[j]).owner
                != e.spec_get(id).owner,
{
    let i = e.store.index_of(id);
    e.store.lemma_at_index(i);
    assert((e@[i]).1.wf());
    assert(e.spec_get(id) == e@[i].1);
}

/// A closed listing rejects every bid with `AuctionIsNotActive`, whatever
/// the offered amount and whoever the bidder; together with the engine's
/// guarantee that no operation touches a closed listing, closing is one-way.
pub proof fn lemma_closed_rejects_bids(it: Item, caller: Principal, amount: u32)
    requires
        !it.is_active,
    ensures
        bid_error_of(it, caller, amount) == Some(BidError::AuctionIsNotActive),
{
}

/// Edits and closes requested by anyone but the listing owner are rejected
/// with `AccessRejected`, whatever else the request holds.
pub proof fn lemma_access_control(it: Item, caller: Principal, draft_active: bool)
    requires
        caller != it.owner,
    ensures
        edit_error_of(it, caller, draft_active) == Some(AuctionError::AccessRejected),
        end_error_of(it, caller) == Some(AuctionError::AccessRejected),
{
}

/// The winner the closing scan settles on is the owner of the earliest bid
/// of maximal amount; with no bids the winner stays anonymous. The positive
/// amounts are those of any well-formed listing's bids.
pub proof fn lemma_winner_is_top_bidder(bids: Seq<Bid>)
    requires
        forall|i: int| 0 <= i < bids.len() ==> (#[trigger] bids[i]).amount > 0,
    ensures
        bids.len() == 0 ==> winning_owner(bids) == Principal::spec_anonymous(),
        bids.len() > 0 ==> exists|i: int|
            0 <= i < bids.len() && (#[trigger] bids[i]).owner == winning_owner(bids) && bids[
                i
            ].amount == winning_amount(bids) && (forall|j: int|
                0 <= j < i ==> (#[trigger] bids[j]).amount < winning_amount(bids)),
    decreases bids.len(),
{
    if bids.len() > 0 {
        let front = bids.drop_last();
        assert forall|i: int| 0 <= i < front.len() implies (#[trigger] front[i]).amount > 0 by {
            assert(front[i] == bids[i]);
        }
        lemma_winner_is_top_bidder(front);
        lemma_winning_amount_ge_all(front);
        if bids.last().amount > winning_amount(front) {
            let w = bids.len() - 1;
            assert forall|j: int| 0 <= j < w implies (#[trigger] bids[j]).amount < winning_amount(
                bids,
            ) by {
                assert(front[j] == bids[j]);
            }
            assert(0 <= w < bids.len() && (#[trigger] bids[w]).owner == winning_owner(bids)
                && bids[w].amount == winning_amount(bids) && (forall|j: int|
                0 <= j < w ==> (#[trigger] bids[j]).amount < winning_amount(bids)));
        } else {
            assert(front.len() > 0);
            let w = choose|i: int|
                0 <= i < front.len() && (#[trigger] front[i]).owner == winning_owner(front)
                    && front[i].amount == winning_amount(front) && (forall|j: int|
                    0 <= j < i ==> (#[trigger] front[j]).amount < winning_amount(front));
            assert(front[w] == bids[w]);
            assert forall|j: int| 0 <= j < w implies (#[trigger] bids[j]).amount < winning_amount(
                bids,
            ) by {
                assert(front[j] == bids[j]);
            }
            assert(0 <= w < bids.len() && (#[trigger] bids[w]).owner == winning_owner(bids)
                && bids[w].amount == winning_amount(bids) && (forall|j: int|
                0 <= j < w ==> (#[trigger] bids[j]).amount < winning_amount(bids)));
        }
    }
}

/// The highest-sale scan yields a stored listing; no stored listing's
/// amount exceeds it, and every earlier listing's amount is strictly below.
pub proof fn lemma_best_sale_is_max(s: Seq<(u64, Item)>)
    requires
        s.len() > 0,
    ensures
        best_sale(s) is Some,
        forall|j: int|
            0 <= j < s.len() ==> (#[trigger] s[j]).1.amount <= best_sale(s).unwrap().amount,
        exists|i: int|
            0 <= i < s.len() && (#[trigger] s[i]).1 == best_sale(s).unwrap() && (forall|j: int|
                0 <= j < i ==> (#[trigger] s[j]).1.amount < best_sale(s).unwrap().amount),
    decreases s.len(),
{
    let front = s.drop_last();
    if s.len() == 1 {
        assert(front.len() == 0);
        assert(best_sale(s) == Some(s[0].1));
        assert(0 <= 0 < s.len() && (#[trigger] s[0]).1 == best_sale(s).unwrap() && (forall|j: int|
            0 <= j < 0 ==> (#[trigger] s[j]).1.amount < best_sale(s).unwrap().amount));
    } else {
        lemma_best_sale_is_max(front);
        let b = best_sale(front).unwrap();
        assert forall|j: int| 0 <= j < s.len() implies (#[trigger] s[j]).1.amount <= best_sale(
            s,
        ).unwrap().amount by {
            if j < s.len() - 1 {
                assert(front[j] == s[j]);
            }
        }
        if s.last().1.amount > b.amount {
            let w = s.len() - 1;
            assert forall|j: int| 0 <= j < w implies (#[trigger] s[j]).1.amount < best_sale(
                s,
            ).unwrap().amount by {
                assert(front[j] == s[j]);
            }
            assert(0 <= w < s.len() && (#[trigger] s[w]).1 == best_sale(s).unwrap() && (forall|
                j: int,
            |
                0 <= j < w ==> (#[trigger] s[j]).1.amount < best_sale(s).unwrap().amount));
        } else {
            let w = choose|i: int|
                0 <= i < front.len() && (#[trigger] front[i]).1 == best_sale(front).unwrap() && (
                forall|j: int|
                    0 <= j < i ==> (#[trigger] front[j]).1.amount < best_sale(
                        front,
                    ).unwrap().amount);
            assert(front[w] == s[w]);
            assert forall|j: int| 0 <= j < w implies (#[trigger] s[j]).1.amount < best_sale(
                s,
            ).unwrap().amount by {
                assert(front[j] == s[j]);
            }
            assert(0 <= w < s.len() && (#[trigger] s[w]).1 == best_sale(s).unwrap() && (forall|
                j: int,
            |
                0 <= j < w ==> (#[trigger] s[j]).1.amount < best_sale(s).unwrap().amount));
        }
    }
}

/// The most-bid scan yields a stored listing; no stored listing records
/// more bids, and every earlier listing records strictly fewer.
pub proof fn lemma_most_bid_is_max(s: Seq<(u64, Item)>)
    requires
        s.len() > 0,
    ensures
        most_bid(s) is Some,
        forall|j: int|
            0 <= j < s.len() ==> (#[trigger] s[j]).1.bids@.len() <= most_bid(
                s,
            ).unwrap().bids@.len(),
        exists|i: int|
            0 <= i < s.len() && (#[trigger] s[i]).1 == most_bid(s).unwrap() && (forall|j: int|
                0 <= j < i ==> (#[trigger] s[j]).1.bids@.len() < most_bid(s).unwrap().bids@.len()),
    decreases s.len(),
{
    let front = s.drop_last();
    if s.len() == 1 {
        assert(front.len() == 0);
        assert(most_bid(s) == Some(s[0].1));
        assert(0 <= 0 < s.len() && (#[trigger] s[0]).1 == most_bid(s).unwrap() && (forall|j: int|
            0 <= j < 0 ==> (#[trigger] s[j]).1.bids@.len() < most_bid(s).unwrap().bids@.len()));
    } else {
        lemma_most_bid_is_max(front);
        let b = most_bid(front).unwrap();
        assert forall|j: int| 0 <= j < s.len() implies (#[trigger] s[j]).1.bids@.len() <= most_bid(
            s,
        ).unwrap().bids@.len() by {
            if j < s.len() - 1 {
                assert(front[j] == s[j]);
            }
        }
        if s.last().1.bids@.len() > b.bids@.len() {
            let w = s.len() - 1;
            assert forall|j: int| 0 <= j < w implies (#[trigger] s[j]).1.bids@.len() < most_bid(
                s,
            ).unwrap().bids@.len() by {
                assert(front[j] == s[j]);
            }
            assert(0 <= w < s.len() && (#[trigger] s[w]).1 == most_bid(s).unwrap() && (forall|
                j: int,
            |
                0 <= j < w ==> (#[trigger] s[j]).1.bids@.len() < most_bid(
                    s,
                ).unwrap().bids@.len()));
        } else {
            let w = choose|i: int|
                0 <= i < front.len() && (#[trigger] front[i]).1 == most_bid(front).unwrap() && (
                forall|j: int|
                    0 <= j < i ==> (#[trigger] front[j]).1.bids@.len() < most_bid(
                        front,
                    ).unwrap().bids@.len());
            assert(front[w] == s[w]);
            assert forall|j: int| 0 <= j < w implies (#[trigger] s[j]).1.bids@.len() < most_bid(
                s,
            ).unwrap().bids@.len() by {
                assert(front[j] == s[j]);
            }
            assert(0 <= w < s.len() && (#[trigger] s[w]).1 == most_bid(s).unwrap() && (forall|
                j: int,
            |
                0 <= j < w ==> (#[trigger] s[j]).1.bids@.len() < most_bid(
                    s,
                ).unwrap().bids@.len()));
        }
    }
}

} // verus!
