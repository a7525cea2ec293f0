//! What holds of the store across its operations: how ids are handed out,
//! what a read gives back after a write, what a refused or repeated request
//! changes, and that the audit trail accounts for every unit of stock.

use crate::inventory::{
    adjusted_label, adjusted_log, after_add, after_delete, after_update, as_i32, created_label,
    created_log, delete_fits, delete_outcome, deleted_label, empty_tables, is_last_key, new_item,
    next_id, sorted_by_id, stock_delta, update_fits, update_outcome, updated_item, Item, ItemView,
    LogView, Tables,
};
use vstd::prelude::*;

verus! {

// ----------------------------------------------------------------------------
// Ids
// ----------------------------------------------------------------------------

/// A new item's id is free and greater than every id in the table; once it
/// is written it is the greatest id, so ids handed out one after another
/// strictly increase.
pub proof fn law_new_id_is_fresh_and_last(
    t: Tables,
    last: Option<u32>,
    name: Seq<char>,
    price_bits: u64,
    stock: u32,
    log_id: u64,
    timestamp: u64,
)
    requires
        is_last_key(t.items, last),
        last != Some(u32::MAX),
    ensures
        !t.items.contains_key(next_id(last)),
        forall|k: u32| t.items.contains_key(k) ==> k < next_id(last),
        is_last_key(
            after_add(
                t,
                new_item(last, name, price_bits, stock),
                created_log(new_item(last, name, price_bits, stock), log_id, timestamp),
            ).items,
            Some(next_id(last)),
        ),
{
    if let Some(k) = last {
        assert(k < u32::MAX);
    } else {
        assert forall|k: u32| t.items.contains_key(k) implies k < next_id(last) by {
            assert(t.items.dom().contains(k));
        }
    }
}

/// Every item stands under its own id.
pub open spec fn keyed(t: Tables) -> bool {
    forall|k: u32| t.items.contains_key(k) ==> #[trigger] t.items[k].id == k
}

/// Creation, update and deletion keep every item under its own id.
pub proof fn law_items_stay_under_their_id(
    t: Tables,
    last: Option<u32>,
    id: u32,
    name: Seq<char>,
    price: Option<u64>,
    price_bits: u64,
    stock: Option<u32>,
    new_stock: u32,
    log_id: u64,
    timestamp: u64,
)
    requires
        keyed(t),
    ensures
        keyed(
            after_add(
                t,
                new_item(last, name, price_bits, new_stock),
                created_log(new_item(last, name, price_bits, new_stock), log_id, timestamp),
            ),
        ),
        keyed(after_update(t, id, update_outcome(id, if t.items.contains_key(id) {
            Some(t.items[id])
        } else {
            None
        }, price, stock, log_id, timestamp))),
        keyed(after_delete(t, id, delete_outcome(id, if t.items.contains_key(id) {
            Some(t.items[id])
        } else {
            None
        }, log_id, timestamp))),
{
}

/// Rows in ascending order of id, followed by a new item whose id is greater
/// than all of theirs, are still in order of id; so listing them (which
/// gives rows in order back as they are) gives the old listing with the new
/// item last.
pub proof fn law_listing_after_add(rows: Seq<Item>, item: Item)
    requires
        sorted_by_id(rows),
        forall|i: int| 0 <= i < rows.len() ==> #[trigger] rows[i].id < item.id,
    ensures
        sorted_by_id(rows.push(item)),
{
    let s = rows.push(item);
    assert forall|i: int, j: int| 0 <= i < j < s.len() implies s[i].id <= s[j].id by {
        if j < rows.len() {
            assert(s[i] == rows[i] && s[j] == rows[j]);
        } else {
            assert(s[i] == rows[i]);
        }
    }
}

// ----------------------------------------------------------------------------
// Reads after writes
// ----------------------------------------------------------------------------

/// The item that the table holds under `id`, if any.
pub open spec fn stored(t: Tables, id: u32) -> Option<ItemView> {
    if t.items.contains_key(id) {
        Some(t.items[id])
    } else {
        None
    }
}

/// After creation the new id reads back the item as given, its entry reads
/// back under its log id, and every other item is as it was.
pub proof fn law_read_after_add(
    t: Tables,
    last: Option<u32>,
    name: Seq<char>,
    price_bits: u64,
    stock: u32,
    log_id: u64,
    timestamp: u64,
)
    ensures
        ({
            let item = new_item(last, name, price_bits, stock);
            let after = after_add(t, item, created_log(item, log_id, timestamp));
            &&& stored(after, item.id) == Some(ItemView { id: next_id(last), name, price_bits, stock })
            &&& after.logs[log_id] == created_log(item, log_id, timestamp)
            &&& after.logs[log_id].change_type == created_label()
            &&& after.logs[log_id].delta == as_i32(stock)
            &&& forall|k: u32| k != item.id ==> stored(after, k) == stored(t, k)
        }),
{
}

/// An update of an id that holds no item is answered with nothing and
/// writes nothing.
pub proof fn law_update_of_missing_id_changes_nothing(
    t: Tables,
    id: u32,
    price: Option<u64>,
    stock: Option<u32>,
    log_id: u64,
    timestamp: u64,
)
    requires
        !t.items.contains_key(id),
    ensures
        update_outcome(id, stored(t, id), price, stock, log_id, timestamp) is None,
        after_update(t, id, update_outcome(id, stored(t, id), price, stock, log_id, timestamp)) == t,
{
}

/// After an update of an id that holds an item, the id reads back the same
/// item with the given price and stock (the old ones where none was given);
/// an entry is written exactly when a stock was given that differs from the
/// old one, and it records `new as i32 - old as i32` under the item's id.
pub proof fn law_read_after_update(
    t: Tables,
    id: u32,
    price: Option<u64>,
    stock: Option<u32>,
    log_id: u64,
    timestamp: u64,
)
    requires
        t.items.contains_key(id),
    ensures
        ({
            let old = t.items[id];
            let after = after_update(t, id, update_outcome(id, stored(t, id), price, stock, log_id, timestamp));
            &&& stored(after, id) == Some(updated_item(old, price, stock))
            &&& after.items[id].id == old.id
            &&& after.items[id].name == old.name
            &&& forall|k: u32| k != id ==> stored(after, k) == stored(t, k)
            &&& after.items.dom() == t.items.dom()
            &&& (match stock {
                Some(s) => if as_i32(s) != as_i32(old.stock) {
                    &&& after.logs == t.logs.insert(log_id, adjusted_log(id, stock_delta(old.stock, s), log_id, timestamp))
                    &&& after.logs[log_id].item_id == id
                    &&& after.logs[log_id].change_type == adjusted_label()
                } else {
                    after.logs == t.logs
                },
                None => after.logs == t.logs,
            })
        }),
{
    let old = t.items[id];
    let after = after_update(t, id, update_outcome(id, stored(t, id), price, stock, log_id, timestamp));
    assert(after.items.dom() =~= t.items.dom());
}

/// An update that gives neither a price nor a stock leaves both tables as
/// they were.
pub proof fn law_empty_update_is_identity(t: Tables, id: u32, log_id: u64, timestamp: u64)
    ensures
        after_update(t, id, update_outcome(id, stored(t, id), None, None, log_id, timestamp)) == t,
{
    if t.items.contains_key(id) {
        assert(t.items.insert(id, updated_item(t.items[id], None, None)) =~= t.items);
    }
}

/// Setting the stock to what it already is writes no entry.
pub proof fn law_unchanged_stock_writes_no_entry(
    t: Tables,
    id: u32,
    price: Option<u64>,
    log_id: u64,
    timestamp: u64,
)
    requires
        t.items.contains_key(id),
    ensures
        after_update(t, id, update_outcome(id, stored(t, id), price, Some(t.items[id].stock), log_id, timestamp)).logs
            == t.logs,
{
}

/// A deletion reports the item exactly when the id held one; afterwards the
/// id holds nothing, the other items are as they were, and when there was an
/// item an entry records `-(stock as i32)` under its id.
pub proof fn law_read_after_delete(t: Tables, id: u32, log_id: u64, timestamp: u64)
    ensures
        ({
            let outcome = delete_outcome(id, stored(t, id), log_id, timestamp);
            let after = after_delete(t, id, outcome);
            &&& (outcome is Some <==> t.items.contains_key(id))
            &&& stored(after, id) is None
            &&& forall|k: u32| k != id ==> stored(after, k) == stored(t, k)
            &&& (t.items.contains_key(id) ==> {
                &&& after.logs[log_id].item_id == id
                &&& after.logs[log_id].change_type == deleted_label()
                &&& after.logs[log_id].delta == (-as_i32(t.items[id].stock)) as i32
            })
            &&& (!t.items.contains_key(id) ==> after == t)
        }),
{
    let outcome = delete_outcome(id, stored(t, id), log_id, timestamp);
    if !t.items.contains_key(id) {
        assert(t.items.remove(id) =~= t.items);
    }
}

/// Deleting the same id twice: the second deletion reports nothing and
/// changes nothing; an update after the deletion reports nothing either.
pub proof fn law_delete_is_final(
    t: Tables,
    id: u32,
    price: Option<u64>,
    stock: Option<u32>,
    log_id: u64,
    second_log_id: u64,
    timestamp: u64,
)
    ensures
        ({
            let after = after_delete(t, id, delete_outcome(id, stored(t, id), log_id, timestamp));
            &&& delete_outcome(id, stored(after, id), second_log_id, timestamp) is None
            &&& after_delete(after, id, delete_outcome(id, stored(after, id), second_log_id, timestamp)) == after
            &&& update_outcome(id, stored(after, id), price, stock, second_log_id, timestamp) is None
        }),
{
    let after = after_delete(t, id, delete_outcome(id, stored(t, id), log_id, timestamp));
    assert(after.items.remove(id) =~= after.items);
}

// ----------------------------------------------------------------------------
// The audit trail accounts for the stock
// ----------------------------------------------------------------------------

/// The rows of the audit-log table, as (log id, entry) pairs.
pub open spec fn log_rows(logs: Map<u64, LogView>) -> Set<(u64, LogView)> {
    Set::new(|e: (u64, LogView)| logs.contains_key(e.0) && logs[e.0] == e.1)
}

/// Adds an entry's move in stock to a running total when it concerns item `k`.
pub open spec fn add_move(k: u32) -> spec_fn(int, (u64, LogView)) -> int {
    |acc: int, e: (u64, LogView)|
        if e.1.item_id == k {
            acc + e.1.delta
        } else {
            acc
        }
}

/// The sum of the moves in stock that the audit trail records for item `k`.
pub open spec fn ledger(logs: Map<u64, LogView>, k: u32) -> int {
    log_rows(logs).fold(0int, add_move(k))
}

/// The stock that the items table holds under `k`, read as `stock as i32`,
/// or 0 when it holds no item there.
pub open spec fn held(t: Tables, k: u32) -> int {
    if t.items.contains_key(k) {
        as_i32(t.items[k].stock)
    } else {
        0
    }
}

/// The audit trail accounts for the stock: for every id, its entries add up
/// to the stock of the item under it (read as `stock as i32`), or to 0 when
/// the id holds no item.
pub open spec fn reconciled(t: Tables) -> bool {
    &&& log_rows(t.logs).finite()
    &&& forall|k: u32| #[trigger] ledger(t.logs, k) == held(t, k)
}

/// The move in stock that an entry, if any, records for item `k`.
pub open spec fn entry_move(log: Option<LogView>, k: u32) -> int {
    match log {
        Some(l) => if l.item_id == k {
            l.delta as int
        } else {
            0
        },
        None => 0,
    }
}

/// Writing an entry under a log id that the table does not hold adds its
/// move to the ledger of its item and to no other.
proof fn lemma_ledger_insert(logs: Map<u64, LogView>, l: LogView)
    requires
        log_rows(logs).finite(),
        !logs.contains_key(l.id),
    ensures
        log_rows(logs.insert(l.id, l)).finite(),
        forall|k: u32| #[trigger]
            ledger(logs.insert(l.id, l), k) == ledger(logs, k) + if l.item_id == k {
                l.delta as int
            } else {
                0
            },
{
    let rows = log_rows(logs);
    let e = (l.id, l);
    assert(log_rows(logs.insert(l.id, l)) =~= rows.insert(e));
    assert(!rows.contains(e));
    assert forall|k: u32| #[trigger]
        ledger(logs.insert(l.id, l), k) == ledger(logs, k) + if l.item_id == k {
            l.delta as int
        } else {
            0
        } by {
        let f = add_move(k);
        assert(vstd::set::fold::is_fun_commutative(f));
        vstd::set::fold::lemma_fold_insert(rows, 0int, f, e);
    }
}

/// A step that writes at most one entry, under a fresh log id, and moves
/// every item's stock by exactly what that entry records keeps the audit
/// trail reconciled.
proof fn lemma_step_keeps_reconciled(t: Tables, after: Tables, log: Option<LogView>)
    requires
        reconciled(t),
        match log {
            Some(l) => !t.logs.contains_key(l.id) && after.logs == t.logs.insert(l.id, l),
            None => after.logs == t.logs,
        },
        forall|k: u32| #[trigger] held(after, k) == held(t, k) + entry_move(log, k),
    ensures
        reconciled(after),
{
    if let Some(l) = log {
        lemma_ledger_insert(t.logs, l);
    }
    assert forall|k: u32| #[trigger] ledger(after.logs, k) == held(after, k) by {
        assert(ledger(t.logs, k) == held(t, k));
        assert(held(after, k) == held(t, k) + entry_move(log, k));
    }
}

/// The empty store is reconciled.
pub proof fn law_empty_store_is_reconciled()
    ensures
        reconciled(empty_tables()),
{
    let t = empty_tables();
    assert(log_rows(t.logs) =~= Set::<(u64, LogView)>::empty());
    assert forall|k: u32| #[trigger] ledger(t.logs, k) == held(t, k) by {
        vstd::set::fold::lemma_fold_empty(0int, add_move(k));
    }
}

/// Creation keeps the audit trail reconciled, when its entry goes under a
/// log id that the table does not yet hold.
pub proof fn law_add_keeps_stock_reconciled(
    t: Tables,
    last: Option<u32>,
    name: Seq<char>,
    price_bits: u64,
    stock: u32,
    log_id: u64,
    timestamp: u64,
)
    requires
        reconciled(t),
        is_last_key(t.items, last),
        last != Some(u32::MAX),
        !t.logs.contains_key(log_id),
    ensures
        reconciled(
            after_add(
                t,
                new_item(last, name, price_bits, stock),
                created_log(new_item(last, name, price_bits, stock), log_id, timestamp),
            ),
        ),
{
    let item = new_item(last, name, price_bits, stock);
    let l = created_log(item, log_id, timestamp);
    let after = after_add(t, item, l);
    law_new_id_is_fresh_and_last(t, last, name, price_bits, stock, log_id, timestamp);
    assert forall|k: u32| #[trigger] held(after, k) == held(t, k) + entry_move(Some(l), k) by {}
    lemma_step_keeps_reconciled(t, after, Some(l));
}

/// An update keeps the audit trail reconciled, when its entry, if it writes
/// one, goes under a log id that the table does not yet hold.
pub proof fn law_update_keeps_stock_reconciled(
    t: Tables,
    id: u32,
    price: Option<u64>,
    stock: Option<u32>,
    log_id: u64,
    timestamp: u64,
)
    requires
        reconciled(t),
        update_fits(stored(t, id), stock),
        !t.logs.contains_key(log_id),
    ensures
        reconciled(after_update(t, id, update_outcome(id, stored(t, id), price, stock, log_id, timestamp))),
{
    let outcome = update_outcome(id, stored(t, id), price, stock, log_id, timestamp);
    let after = after_update(t, id, outcome);
    let log = match outcome {
        Some((_, l)) => l,
        None => None,
    };
    assert forall|k: u32| #[trigger] held(after, k) == held(t, k) + entry_move(log, k) by {}
    lemma_step_keeps_reconciled(t, after, log);
}

/// A deletion keeps the audit trail reconciled, when its entry, if it writes
/// one, goes under a log id that the table does not yet hold.
pub proof fn law_delete_keeps_stock_reconciled(t: Tables, id: u32, log_id: u64, timestamp: u64)
    requires
        reconciled(t),
        delete_fits(stored(t, id)),
        !t.logs.contains_key(log_id),
    ensures
        reconciled(after_delete(t, id, delete_outcome(id, stored(t, id), log_id, timestamp))),
{
    let log = delete_outcome(id, stored(t, id), log_id, timestamp);
    let after = after_delete(t, id, log);
    assert forall|k: u32| #[trigger] held(after, k) == held(t, k) + entry_move(log, k) by {}
    lemma_step_keeps_reconciled(t, after, log);
}

} // verus!
