//! Key-value storage conventions: the key an entity is stored under and how many items a
//! range read returns.
use vstd::prelude::*;

verus! {

/// The key an entity is stored under: its collection's prefix, `/`, its id.
pub fn entity_key(prefix: &str, id: &str) -> (r: String)
    ensures
        r@ == prefix@ + seq!['/'] + id@,
{
    let mut k = prefix.to_string();
    crate::text::push_char(&mut k, '/');
    k.append(id);
    k
}

/// The most items a range read returns: the limit given, or 65535.
pub open spec fn range_limit(limit: Option<u16>) -> nat {
    match limit {
        Some(l) => l as nat,
        None => 65535,
    }
}

/// How many of `available` items a range read returns: it takes an item, then stops once
/// it holds as many as the limit, so at least one when there is one.
pub open spec fn items_returned(available: nat, limit: Option<u16>) -> nat {
    if available == 0 {
        0
    } else if range_limit(limit) == 0 {
        1
    } else if available <= range_limit(limit) {
        available
    } else {
        range_limit(limit)
    }
}

/// Whether a range read stops after collecting `collected` items.
pub fn range_done(collected: usize, limit: Option<u16>) -> (r: bool)
    ensures
        r == (collected >= range_limit(limit)),
{
    let l: usize = match limit {
        Some(l) => l as usize,
        None => 65535,
    };
    collected >= l
}

/// The items a range read returns from the items of its range, in key order.
pub fn items_from_range<T>(scanned: Vec<T>, limit: Option<u16>) -> (r: Vec<T>)
    ensures
        r@ == scanned@.take(items_returned(scanned@.len(), limit) as int),
{
    let ghost all = scanned@;
    let mut rest = scanned;
    let mut rev: Vec<T> = Vec::new();
    while rest.len() > 0
        invariant
            rev@.len() + rest@.len() == all.len(),
            rest@ == all.take(rest@.len() as int),
            forall|j: int| 0 <= j < rev@.len() ==> #[trigger] rev@[j] == all[all.len() - 1 - j],
        decreases rest@.len(),
    {
        let x = rest.pop().unwrap();
        rev.push(x);
    }
    let mut items: Vec<T> = Vec::new();
    while rev.len() > 0
        invariant_except_break
            items@.len() == 0 || items@.len() < range_limit(limit),
        invariant
            rev@.len() + items@.len() == all.len(),
            forall|j: int| 0 <= j < rev@.len() ==> #[trigger] rev@[j] == all[all.len() - 1 - j],
            items@ == all.take(items@.len() as int),
        ensures
            items@ == all.take(items_returned(all.len(), limit) as int),
        decreases rev@.len(),
    {
        let x = rev.pop().unwrap();
        items.push(x);
        proof {
            assert(items@ =~= all.take(items@.len() as int));
        }
        if range_done(items.len(), limit) {
            break;
        }
    }
    items
}

} // verus!
