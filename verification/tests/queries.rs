use auction::engine::AuctionEngine;
use auction::item::{CreateBid, CreateItem};
use auction::principal::Principal;

fn draft(title: &str, active: bool) -> CreateItem {
    CreateItem {
        title: title.to_string(),
        description: String::new(),
        is_active: active,
        start_time: "t0".to_string(),
        end_time: "t1".to_string(),
        currency: "ICP".to_string(),
        amount: 0,
    }
}

fn bid_req(amount: u32) -> CreateBid {
    CreateBid {
        amount,
        currency: "ICP".to_string(),
        is_active: true,
    }
}

#[test]
fn empty_store_queries() {
    let e = AuctionEngine::new();
    assert_eq!(e.count_items(), 0);
    assert!(e.get_item(1).is_none());
    assert!(e.list_active_items().is_empty());
    assert!(e.highest_sale_item().is_none());
    assert!(e.most_bid_item().is_none());
}

#[test]
fn count_covers_active_and_closed() {
    let a = Principal { id: 1 };
    let mut e = AuctionEngine::new();
    assert!(e.create_item(a, 1, draft("one", true)).is_ok());
    assert!(e.create_item(a, 2, draft("two", true)).is_ok());
    assert!(e.create_item(a, 3, draft("three", false)).is_ok());
    assert!(e.end_item(a, 2).is_ok());
    assert_eq!(e.count_items(), 3);
}

#[test]
fn active_listing_filter_and_order() {
    let a = Principal { id: 1 };
    let mut e = AuctionEngine::new();
    assert!(e.create_item(a, 5, draft("five", true)).is_ok());
    assert!(e.create_item(a, 2, draft("two", true)).is_ok());
    assert!(e.create_item(a, 9, draft("nine", false)).is_ok());
    assert!(e.create_item(a, 7, draft("seven", true)).is_ok());
    assert!(e.end_item(a, 5).is_ok());
    let active = e.list_active_items();
    let titles: Vec<&str> = active.iter().map(|it| it.title.as_str()).collect();
    assert_eq!(titles, vec!["two", "seven"]);
}

#[test]
fn scenario_e_most_bid_item() {
    let a = Principal { id: 1 };
    let b = Principal { id: 2 };
    let c = Principal { id: 3 };
    let mut e = AuctionEngine::new();
    assert!(e.create_item(a, 1, draft("zero bids", true)).is_ok());
    assert!(e.create_item(a, 2, draft("three bids", true)).is_ok());
    assert!(e.create_item(a, 3, draft("one bid", true)).is_ok());
    assert!(e.bid(b, 2, bid_req(1)).is_ok());
    assert!(e.bid(c, 2, bid_req(2)).is_ok());
    assert!(e.bid(b, 2, bid_req(3)).is_ok());
    assert!(e.bid(c, 3, bid_req(10)).is_ok());
    let most = e.most_bid_item().unwrap();
    assert_eq!(most.title, "three bids");
    assert_eq!(most.bids.len(), 3);
}

#[test]
fn most_bid_tie_takes_first_in_iteration_order() {
    let a = Principal { id: 1 };
    let b = Principal { id: 2 };
    let mut e = AuctionEngine::new();
    assert!(e.create_item(a, 4, draft("later", true)).is_ok());
    assert!(e.create_item(a, 3, draft("earlier", true)).is_ok());
    assert!(e.bid(b, 3, bid_req(1)).is_ok());
    assert!(e.bid(b, 4, bid_req(1)).is_ok());
    // both hold one bid; iteration ascends ids, so id 3 comes first
    assert_eq!(e.most_bid_item().unwrap().title, "earlier");
}

#[test]
fn highest_sale_is_the_maximal_amount() {
    let a = Principal { id: 1 };
    let b = Principal { id: 2 };
    let mut e = AuctionEngine::new();
    assert!(e.create_item(a, 1, draft("small", true)).is_ok());
    assert!(e.create_item(a, 2, draft("large", true)).is_ok());
    assert!(e.create_item(a, 3, draft("medium", true)).is_ok());
    assert!(e.bid(b, 1, bid_req(5)).is_ok());
    assert!(e.bid(b, 2, bid_req(40)).is_ok());
    assert!(e.bid(b, 3, bid_req(12)).is_ok());
    assert!(e.end_item(a, 2).is_ok());
    let top = e.highest_sale_item().unwrap();
    assert_eq!(top.title, "large");
    assert_eq!(top.amount, 40);
}

#[test]
fn highest_sale_tie_takes_first_in_iteration_order() {
    let a = Principal { id: 1 };
    let b = Principal { id: 2 };
    let mut e = AuctionEngine::new();
    assert!(e.create_item(a, 6, draft("second", true)).is_ok());
    assert!(e.create_item(a, 4, draft("first", true)).is_ok());
    assert!(e.bid(b, 4, bid_req(8)).is_ok());
    assert!(e.bid(b, 6, bid_req(8)).is_ok());
    assert_eq!(e.highest_sale_item().unwrap().title, "first");
}

#[test]
fn get_item_returns_the_stored_record() {
    let a = Principal { id: 1 };
    let mut e = AuctionEngine::new();
    assert!(e.create_item(a, 21, draft("stored", true)).is_ok());
    let it = e.get_item(21).unwrap();
    assert_eq!(it.title, "stored");
    assert_eq!(it.owner, a);
    assert_eq!(it.new_owner, Principal::anonymous());
    assert_eq!(it.amount, 0);
    assert!(it.bids.is_empty());
    assert_eq!(it.currency, "ICP");
    assert_eq!(it.start_time, "t0");
    assert_eq!(it.end_time, "t1");
}
