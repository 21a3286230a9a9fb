use vstd::prelude::*;

use crate::item::Item;

verus! {

/// The active listings a forward scan collects, in iteration order.
pub open spec fn active_seq(s: Seq<(u64, Item)>) -> Seq<Item>
    decreases s.len(),
{
    if s.len() == 0 {
        Seq::empty()
    } else if s.last().1.is_active {
        active_seq(s.drop_last()).push(s.last().1)
    } else {
        active_seq(s.drop_last())
    }
}

/// The listing a forward scan settles on as the highest sale: maximal
/// amount, earliest entry on ties; `None` over an empty table.
pub open spec fn best_sale(s: Seq<(u64, Item)>) -> Option<Item>
    decreases s.len(),
{
    if s.len() == 0 {
        None
    } else {
        match best_sale(s.drop_last()) {
            None => Some(s.last().1),
            Some(b) => if s.last().1.amount > b.amount {
                Some(s.last().1)
            } else {
                Some(b)
            },
        }
    }
}

/// The listing a forward scan settles on as the most bid on: longest bid
/// history, earliest entry on ties; `None` over an empty table.
pub open spec fn most_bid(s: Seq<(u64, Item)>) -> Option<Item>
    decreases s.len(),
{
    if s.len() == 0 {
        None
    } else {
        match most_bid(s.drop_last()) {
            None => Some(s.last().1),
            Some(b) => if s.last().1.bids@.len() > b.bids@.len() {
                Some(s.last().1)
            } else {
                Some(b)
            },
        }
    }
}

/// The listings a sequence of references points at.
pub open spec fn deref_items(s: Seq<&Item>) -> Seq<Item> {
    s.map_values(|it: &Item| *it)
}

/// Collects the active listings of a table, in iteration order.
pub fn active_items<'a>(entries: &'a Vec<(u64, Item)>) -> (r: Vec<&'a Item>)
    ensures
        deref_items(r@) == active_seq(entries@),
{
    let n = entries.len();
    let mut r: Vec<&'a Item> = Vec::new();
    let mut i: usize = 0;
    while i < n
        invariant
            n == entries@.len(),
            i <= n,
            deref_items(r@) == active_seq(entries@.take(i as int)),
        decreases n - i,
    {
        proof {
            assert(entries@.take(i as int + 1).drop_last() =~= entries@.take(i as int));
            assert(entries@.take(i as int + 1).last() == entries@[i as int]);
        }
        let ghost r_pre = r@;
        if entries[i].1.is_active {
            r.push(&entries[i].1);
            proof {
                assert(deref_items(r@) =~= deref_items(r_pre).push(entries@[i as int].1));
            }
        }
        i = i + 1;
    }
    proof {
        assert(entries@.take(n as int) =~= entries@);
    }
    r
}

/// The stored listing with the maximal amount, earliest on ties; `None`
/// only over an empty table.
pub fn highest_sale_of<'a>(entries: &'a Vec<(u64, Item)>) -> (r: Option<&'a Item>)
    ensures
        match r {
            Some(it) => best_sale(entries@) == Some(*it),
            None => entries@.len() == 0,
        },
{
    let n = entries.len();
    if n == 0 {
        return None;
    }
    let mut best: &'a Item = &entries[0].1;
    proof {
        assert(entries@.take(0).len() == 0);
        assert(best_sale(entries@.take(0)) is None);
        assert(entries@.take(1).last() == entries@[0]);
        assert(entries@.take(1).drop_last() =~= entries@.take(0));
        assert(best_sale(entries@.take(1)) == Some(entries@[0].1));
    }
    let mut i: usize = 1;
    while i < n
        invariant
            n == entries@.len(),
            1 <= i <= n,
            best_sale(entries@.take(i as int)) == Some(*best),
        decreases n - i,
    {
        proof {
            assert(entries@.take(i as int + 1).drop_last() =~= entries@.take(i as int));
            assert(entries@.take(i as int + 1).last() == entries@[i as int]);
        }
        if entries[i].1.amount > best.amount {
            best = &entries[i].1;
        }
        i = i + 1;
    }
    proof {
        assert(entries@.take(n as int) =~= entries@);
    }
    Some(best)
}

/// The stored listing with the longest bid history, earliest on ties;
/// `None` only over an empty table.
pub fn most_bid_of<'a>(entries: &'a Vec<(u64, Item)>) -> (r: Option<&'a Item>)
    ensures
        match r {
            Some(it) => most_bid(entries@) == Some(*it),
            None => entries@.len() == 0,
        },
{
    let n = entries.len();
    if n == 0 {
        return None;
    }
    let mut best: &'a Item = &entries[0].1;
    proof {
        assert(entries@.take(0).len() == 0);
        assert(most_bid(entries@.take(0)) is None);
        assert(entries@.take(1).last() == entries@[0]);
        assert(entries@.take(1).drop_last() =~= entries@.take(0));
        assert(most_bid(entries@.take(1)) == Some(entries@[0].1));
    }
    let mut i: usize = 1;
    while i < n
        invariant
            n == entries@.len(),
            1 <= i <= n,
            most_bid(entries@.take(i as int)) == Some(*best),
        decreases n - i,
    {
        proof {
            assert(entries@.take(i as int + 1).drop_last() =~= entries@.take(i as int));
            assert(entries@.take(i as int + 1).last() == entries@[i as int]);
        }
        if entries[i].1.bids.len() > best.bids.len() {
            best = &entries[i].1;
        }
        i = i + 1;
    }
    proof {
        assert(entries@.take(n as int) =~= entries@);
    }
    Some(best)
}

} // verus!
