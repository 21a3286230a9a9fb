use auction::engine::AuctionEngine;
use auction::errors::{AuctionError, BidError};
use auction::item::{CreateBid, CreateItem};
use auction::principal::Principal;

fn draft(title: &str, active: bool) -> CreateItem {
    CreateItem {
        title: title.to_string(),
        description: format!("{} description", title),
        is_active: active,
        start_time: "t0".to_string(),
        end_time: "t1".to_string(),
        currency: "ICP".to_string(),
        amount: 0,
    }
}

fn bid_req(amount: u32) -> CreateBid {
    CreateBid {
        amount,
        currency: "ICP".to_string(),
        is_active: true,
    }
}

#[test]
fn scenario_a_bidding_rules() {
    let a = Principal { id: 1 };
    let b = Principal { id: 2 };
    let c = Principal { id: 3 };
    let mut e = AuctionEngine::new();
    assert!(e.create_item(a, 1, draft("lamp", true)).is_ok());
    assert_eq!(e.get_item(1).unwrap().amount, 0);
    assert!(e.bid(b, 1, bid_req(10)).is_ok());
    assert_eq!(e.get_item(1).unwrap().amount, 10);
    assert_eq!(e.bid(c, 1, bid_req(5)), Err(BidError::BidAmountLessThanCurrent));
    assert_eq!(e.bid(a, 1, bid_req(20)), Err(BidError::OwnerIsNotValid));
    assert_eq!(e.get_item(1).unwrap().amount, 10);
    assert_eq!(e.get_item(1).unwrap().bids.len(), 1);
}

#[test]
fn scenario_b_close_without_bids() {
    let a = Principal { id: 1 };
    let mut e = AuctionEngine::new();
    assert!(e.create_item(a, 2, draft("chair", true)).is_ok());
    assert!(e.end_item(a, 2).is_ok());
    let it = e.get_item(2).unwrap();
    assert!(!it.is_active);
    assert_eq!(it.new_owner, Principal::anonymous());
}

#[test]
fn scenario_c_highest_bidder_wins() {
    let a = Principal { id: 1 };
    let b = Principal { id: 2 };
    let c = Principal { id: 3 };
    let mut e = AuctionEngine::new();
    assert!(e.create_item(a, 3, draft("table", true)).is_ok());
    assert!(e.bid(b, 3, bid_req(10)).is_ok());
    assert!(e.bid(c, 3, bid_req(15)).is_ok());
    assert!(e.bid(b, 3, bid_req(20)).is_ok());
    assert!(e.end_item(a, 3).is_ok());
    let it = e.get_item(3).unwrap();
    assert_eq!(it.new_owner, b);
    assert_eq!(it.amount, 20);
    assert_eq!(it.bids.len(), 3);
}

#[test]
fn scenario_d_edit_by_non_owner_rejected() {
    let a = Principal { id: 1 };
    let b = Principal { id: 2 };
    let mut e = AuctionEngine::new();
    assert!(e.create_item(a, 4, draft("desk", true)).is_ok());
    assert_eq!(
        e.edit_item(b, 4, draft("hijacked", true)),
        Err(AuctionError::AccessRejected)
    );
    let it = e.get_item(4).unwrap();
    assert_eq!(it.title, "desk");
    assert_eq!(it.description, "desk description");
    assert_eq!(it.owner, a);
    assert_eq!(it.amount, 0);
    assert!(it.is_active);
}

#[test]
fn p1_amount_is_monotonic_and_maximal() {
    let a = Principal { id: 1 };
    let b = Principal { id: 2 };
    let c = Principal { id: 3 };
    let mut e = AuctionEngine::new();
    assert!(e.create_item(a, 9, draft("clock", true)).is_ok());
    let offers: [u32; 4] = [3, 7, 8, 30];
    let mut last: u32 = 0;
    for (n, amount) in offers.iter().enumerate() {
        let bidder = if n % 2 == 0 { b } else { c };
        assert!(e.bid(bidder, 9, bid_req(*amount)).is_ok());
        let recorded = e.get_item(9).unwrap().amount;
        assert!(recorded >= last);
        assert_eq!(recorded, *amount);
        last = recorded;
    }
    let it = e.get_item(9).unwrap();
    let max = it.bids.iter().map(|bd| bd.amount).max().unwrap();
    assert_eq!(it.amount, max);
}

#[test]
fn p2_no_stored_self_bid() {
    let a = Principal { id: 1 };
    let b = Principal { id: 2 };
    let mut e = AuctionEngine::new();
    assert!(e.create_item(a, 5, draft("vase", true)).is_ok());
    assert!(e.bid(b, 5, bid_req(4)).is_ok());
    assert_eq!(e.bid(a, 5, bid_req(9)), Err(BidError::OwnerIsNotValid));
    assert!(e.bid(b, 5, bid_req(9)).is_ok());
    let it = e.get_item(5).unwrap();
    for bd in it.bids.iter() {
        assert_ne!(bd.owner, it.owner);
    }
}

#[test]
fn p3_closing_is_one_way() {
    let a = Principal { id: 1 };
    let b = Principal { id: 2 };
    let mut e = AuctionEngine::new();
    assert!(e.create_item(a, 6, draft("rug", true)).is_ok());
    assert!(e.bid(b, 6, bid_req(12)).is_ok());
    assert!(e.end_item(a, 6).is_ok());
    assert_eq!(e.bid(b, 6, bid_req(50)), Err(BidError::AuctionIsNotActive));
    assert_eq!(
        e.edit_item(a, 6, draft("rug again", true)),
        Err(AuctionError::AuctionIsNotActive)
    );
    let it = e.get_item(6).unwrap();
    assert!(!it.is_active);
    assert_eq!(it.new_owner, b);
    assert_eq!(it.amount, 12);
}

#[test]
fn p5_access_control_on_end() {
    let a = Principal { id: 1 };
    let b = Principal { id: 2 };
    let mut e = AuctionEngine::new();
    assert!(e.create_item(a, 7, draft("sofa", true)).is_ok());
    assert_eq!(e.end_item(b, 7), Err(AuctionError::AccessRejected));
    assert!(e.get_item(7).unwrap().is_active);
}

#[test]
fn duplicate_id_rejected() {
    let a = Principal { id: 1 };
    let b = Principal { id: 2 };
    let mut e = AuctionEngine::new();
    assert!(e.create_item(a, 8, draft("first", true)).is_ok());
    assert_eq!(
        e.create_item(b, 8, draft("second", true)),
        Err(AuctionError::DuplicateItem)
    );
    assert_eq!(e.get_item(8).unwrap().title, "first");
    assert_eq!(e.count_items(), 1);
}

#[test]
fn unknown_ids_give_lookup_errors() {
    let a = Principal { id: 1 };
    let mut e = AuctionEngine::new();
    assert!(e.get_item(42).is_none());
    assert_eq!(
        e.edit_item(a, 42, draft("ghost", true)),
        Err(AuctionError::NoSuchAuction)
    );
    assert_eq!(e.end_item(a, 42), Err(AuctionError::NoSuchAuction));
    assert_eq!(e.bid(a, 42, bid_req(5)), Err(BidError::NoSuchItem));
}

#[test]
fn equal_offer_is_rejected() {
    let a = Principal { id: 1 };
    let b = Principal { id: 2 };
    let c = Principal { id: 3 };
    let mut e = AuctionEngine::new();
    assert!(e.create_item(a, 10, draft("print", true)).is_ok());
    assert!(e.bid(b, 10, bid_req(6)).is_ok());
    assert_eq!(e.bid(c, 10, bid_req(6)), Err(BidError::BidAmountLessThanCurrent));
}

#[test]
fn edit_replaces_display_fields_only() {
    let a = Principal { id: 1 };
    let b = Principal { id: 2 };
    let mut e = AuctionEngine::new();
    assert!(e.create_item(a, 11, draft("old title", true)).is_ok());
    assert!(e.bid(b, 11, bid_req(9)).is_ok());
    let new_draft = CreateItem {
        title: "new title".to_string(),
        description: "new description".to_string(),
        is_active: true,
        start_time: "t2".to_string(),
        end_time: "t3".to_string(),
        currency: "BTC".to_string(),
        amount: 999,
    };
    assert!(e.edit_item(a, 11, new_draft).is_ok());
    let it = e.get_item(11).unwrap();
    assert_eq!(it.title, "new title");
    assert_eq!(it.description, "new description");
    assert_eq!(it.currency, "BTC");
    assert_eq!(it.start_time, "t2");
    assert_eq!(it.end_time, "t3");
    assert_eq!(it.amount, 9);
    assert_eq!(it.bids.len(), 1);
    assert_eq!(it.owner, a);
    assert_eq!(it.new_owner, Principal::anonymous());
    assert!(it.is_active);
}

#[test]
fn edit_to_inactive_draft_rejected() {
    let a = Principal { id: 1 };
    let mut e = AuctionEngine::new();
    assert!(e.create_item(a, 12, draft("mirror", true)).is_ok());
    assert_eq!(
        e.edit_item(a, 12, draft("mirror", false)),
        Err(AuctionError::AuctionIsNotActive)
    );
    assert!(e.get_item(12).unwrap().is_active);
}

#[test]
fn closing_twice_keeps_the_winner() {
    let a = Principal { id: 1 };
    let b = Principal { id: 2 };
    let mut e = AuctionEngine::new();
    assert!(e.create_item(a, 13, draft("stool", true)).is_ok());
    assert!(e.bid(b, 13, bid_req(3)).is_ok());
    assert!(e.end_item(a, 13).is_ok());
    assert!(e.end_item(a, 13).is_ok());
    let it = e.get_item(13).unwrap();
    assert!(!it.is_active);
    assert_eq!(it.new_owner, b);
    assert_eq!(it.amount, 3);
}

#[test]
fn inactive_listing_takes_no_bids() {
    let a = Principal { id: 1 };
    let b = Principal { id: 2 };
    let mut e = AuctionEngine::new();
    assert!(e.create_item(a, 14, draft("crate", false)).is_ok());
    assert_eq!(e.bid(b, 14, bid_req(5)), Err(BidError::AuctionIsNotActive));
    assert_eq!(e.get_item(14).unwrap().amount, 0);
}
