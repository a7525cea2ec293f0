//! Items, audit-log entries and the decisions that the store makes on them.
//!
//! The store keeps two ordered tables: items keyed by their id, and audit-log
//! entries keyed by their log id. Every operation reads what it needs from
//! those tables, decides, and names the rows to write back; the functions
//! here are those decisions.

use crate::clock::{log_id_for, timestamp_for};
use std::time::{Duration, SystemTimeError};
use vstd::prelude::*;

verus! {

/// The value that `x as i32` gives for a `u32`: the same bits read as a
/// two's-complement number.
pub open spec fn as_i32(x: u32) -> int {
    if x < 0x8000_0000 {
        x as int
    } else {
        x - 0x1_0000_0000
    }
}

/// `x as i32`, written without a truncating cast.
pub fn wrap_to_i32(x: u32) -> (r: i32)
    ensures
        r == as_i32(x),
{
    if x < 0x8000_0000 {
        x as i32
    } else {
        let high: i32 = (x - 0x8000_0000) as i32;
        high - 0x7fff_ffff - 1
    }
}

/// A log id and a time as the clock gives them: each is what some reading of
/// the clock is turned into.
pub open spec fn stamped_by_clock(log_id: u64, timestamp: u64) -> bool {
    &&& exists|since: Result<Duration, SystemTimeError>| #[trigger] log_id_for(since) == log_id
    &&& exists|since: Result<Duration, SystemTimeError>| #[trigger] timestamp_for(since) == timestamp
}

/// A stock item. Its price is held as the bit pattern of the `f64` that the
/// client sent: the store never computes with a price, it only keeps it.
#[derive(Clone, Debug)]
pub struct Item {
    pub id: u32,
    pub name: String,
    pub price_bits: u64,
    pub stock: u32,
}

/// One entry of the audit trail: which item changed, how, and by how much
/// its stock moved.
#[derive(Clone, Debug)]
pub struct AuditLog {
    pub id: u64,
    pub item_id: u32,
    pub change_type: String,
    pub delta: i32,
    pub timestamp: u64,
}

/// What an item is, with its name as a sequence of characters.
pub struct ItemView {
    pub id: u32,
    pub name: Seq<char>,
    pub price_bits: u64,
    pub stock: u32,
}

/// What an audit-log entry is, with its change type as characters.
pub struct LogView {
    pub id: u64,
    pub item_id: u32,
    pub change_type: Seq<char>,
    pub delta: i32,
    pub timestamp: u64,
}

impl View for Item {
    type V = ItemView;

    open spec fn view(&self) -> ItemView {
        ItemView { id: self.id, name: self.name@, price_bits: self.price_bits, stock: self.stock }
    }
}

impl View for AuditLog {
    type V = LogView;

    open spec fn view(&self) -> LogView {
        LogView {
            id: self.id,
            item_id: self.item_id,
            change_type: self.change_type@,
            delta: self.delta,
            timestamp: self.timestamp,
        }
    }
}

/// The change type of the entry written when an item is created.
pub open spec fn created_label() -> Seq<char> {
    "Created"@
}

/// The change type of the entry written when an item's stock is set to a new value.
pub open spec fn adjusted_label() -> Seq<char> {
    "StockAdjusted"@
}

/// The change type of the entry written when an item is deleted.
pub open spec fn deleted_label() -> Seq<char> {
    "Deleted"@
}

// ----------------------------------------------------------------------------
// The tables
// ----------------------------------------------------------------------------

/// The two tables of the store: items by id, audit-log entries by log id.
pub struct Tables {
    pub items: Map<u32, ItemView>,
    pub logs: Map<u64, LogView>,
}

/// The store as it is first opened: both tables empty.
pub open spec fn empty_tables() -> Tables {
    Tables { items: Map::empty(), logs: Map::empty() }
}

/// `last` is the greatest key of the items table (`None` when it is empty),
/// as the last row of an ordered table gives it.
pub open spec fn is_last_key(items: Map<u32, ItemView>, last: Option<u32>) -> bool {
    match last {
        None => items.dom() =~= Set::<u32>::empty(),
        Some(k) => items.contains_key(k) && forall|j: u32| items.contains_key(j) ==> j <= k,
    }
}

// ----------------------------------------------------------------------------
// Creating an item
// ----------------------------------------------------------------------------

/// The id a new item gets: one past the greatest id, or 1 in an empty table.
pub open spec fn next_id(last: Option<u32>) -> u32 {
    match last {
        None => 1,
        Some(k) => (k + 1) as u32,
    }
}

/// The item that creation makes.
pub open spec fn new_item(last: Option<u32>, name: Seq<char>, price_bits: u64, stock: u32) -> ItemView {
    ItemView { id: next_id(last), name, price_bits, stock }
}

/// The entry written for a created item: its whole stock, as `stock as i32`.
pub open spec fn created_log(item: ItemView, log_id: u64, timestamp: u64) -> LogView {
    LogView {
        id: log_id,
        item_id: item.id,
        change_type: created_label(),
        delta: as_i32(item.stock) as i32,
        timestamp,
    }
}

/// The tables after creation has written the item and its entry.
pub open spec fn after_add(t: Tables, item: ItemView, log: LogView) -> Tables {
    Tables { items: t.items.insert(item.id, item), logs: t.logs.insert(log.id, log) }
}

/// The id for a new item, from the greatest id now in the table.
pub fn next_item_id(last: Option<u32>) -> (id: u32)
    requires
        last != Some(u32::MAX),
    ensures
        id == next_id(last),
{
    match last {
        Some(k) => k + 1,
        None => 1,
    }
}

/// Creation: the new item and the entry that records it, given the greatest
/// id in the table, the client's fields, and the log id and time to stamp.
pub fn add_item_at(
    last: Option<u32>,
    name: String,
    price_bits: u64,
    stock: u32,
    log_id: u64,
    timestamp: u64,
) -> (res: (Item, AuditLog))
    requires
        last != Some(u32::MAX),
    ensures
        res.0@ == new_item(last, name@, price_bits, stock),
        res.1@ == created_log(res.0@, log_id, timestamp),
{
    let id = next_item_id(last);
    let item = Item { id, name, price_bits, stock };
    let log = AuditLog {
        id: log_id,
        item_id: id,
        change_type: String::from_str("Created"),
        delta: wrap_to_i32(stock),
        timestamp,
    };
    (item, log)
}

/// Creation as the store does it: the log id and the time are read from the
/// system clock. The item is exact; the entry records it, stamped with
/// whatever the clock gave.
pub fn add_item(last: Option<u32>, name: String, price_bits: u64, stock: u32) -> (res: (Item, AuditLog))
    requires
        last != Some(u32::MAX),
    ensures
        res.0@ == new_item(last, name@, price_bits, stock),
        res.1@ == created_log(res.0@, res.1.id, res.1.timestamp),
        stamped_by_clock(res.1.id, res.1.timestamp),
{
    let log_id = crate::clock::next_log_id();
    let timestamp = crate::clock::current_timestamp();
    add_item_at(last, name, price_bits, stock, log_id, timestamp)
}

// ----------------------------------------------------------------------------
// Updating an item
// ----------------------------------------------------------------------------

/// The item after an update: the price and the stock that were given replace
/// the old ones; the id and the name stay.
pub open spec fn updated_item(old: ItemView, price: Option<u64>, stock: Option<u32>) -> ItemView {
    ItemView {
        id: old.id,
        name: old.name,
        price_bits: match price {
            Some(p) => p,
            None => old.price_bits,
        },
        stock: match stock {
            Some(s) => s,
            None => old.stock,
        },
    }
}

/// How far the stock moves from `old` to `new`, as `new as i32 - old as i32`.
pub open spec fn stock_delta(old: u32, new: u32) -> int {
    as_i32(new) - as_i32(old)
}

/// The move in stock that an update records: present only when a new stock
/// was given and it differs from the old one.
pub open spec fn adjustment(old: u32, stock: Option<u32>) -> Option<int> {
    match stock {
        Some(s) => if stock_delta(old, s) != 0 {
            Some(stock_delta(old, s))
        } else {
            None
        },
        None => None,
    }
}

/// The entry written when the stock of item `id` moved by `delta`.
pub open spec fn adjusted_log(id: u32, delta: int, log_id: u64, timestamp: u64) -> LogView {
    LogView { id: log_id, item_id: id, change_type: adjusted_label(), delta: delta as i32, timestamp }
}

/// An update whose stock move `new as i32 - old as i32` fits in an `i32`;
/// on the others the subtraction overflows.
pub open spec fn update_fits(existing: Option<ItemView>, stock: Option<u32>) -> bool {
    match (existing, stock) {
        (Some(old), Some(s)) => i32::MIN <= stock_delta(old.stock, s) <= i32::MAX,
        _ => true,
    }
}

/// What an update of key `id` decides, given what the key held: nothing when
/// it held no item; otherwise the updated item and, when the stock moved,
/// the entry that records the move.
pub open spec fn update_outcome(
    id: u32,
    existing: Option<ItemView>,
    price: Option<u64>,
    stock: Option<u32>,
    log_id: u64,
    timestamp: u64,
) -> Option<(ItemView, Option<LogView>)> {
    match existing {
        None => None,
        Some(old) => Some(
            (
                updated_item(old, price, stock),
                match adjustment(old.stock, stock) {
                    Some(d) => Some(adjusted_log(id, d, log_id, timestamp)),
                    None => None,
                },
            ),
        ),
    }
}

/// The view of an optional entry.
pub open spec fn log_opt_view(o: Option<AuditLog>) -> Option<LogView> {
    match o {
        Some(l) => Some(l@),
        None => None,
    }
}

/// The view of an item that may be absent.
pub open spec fn item_opt_view(o: Option<Item>) -> Option<ItemView> {
    match o {
        Some(i) => Some(i@),
        None => None,
    }
}

/// The view of what an update returns.
pub open spec fn update_view(r: Option<(Item, Option<AuditLog>)>) -> Option<(ItemView, Option<LogView>)> {
    match r {
        Some((i, l)) => Some((i@, log_opt_view(l))),
        None => None,
    }
}

/// The tables after the update has written its rows: the item back under its
/// key, and the entry, if any, under its log id.
pub open spec fn after_update(t: Tables, id: u32, r: Option<(ItemView, Option<LogView>)>) -> Tables {
    match r {
        None => t,
        Some((item, log)) => Tables {
            items: t.items.insert(id, item),
            logs: match log {
                Some(l) => t.logs.insert(l.id, l),
                None => t.logs,
            },
        },
    }
}

/// Applies the given price and stock to an item; also gives the move in
/// stock when there is one to record.
fn apply_update(item: Item, price: Option<u64>, stock: Option<u32>) -> (res: (Item, Option<i32>))
    requires
        update_fits(Some(item@), stock),
    ensures
        res.0@ == updated_item(item@, price, stock),
        match adjustment(item@.stock, stock) {
            Some(d) => res.1 == Some(d as i32),
            None => res.1 is None,
        },
{
    let mut item = item;
    let mut moved: Option<i32> = None;
    if let Some(new_stock) = stock {
        let delta = wrap_to_i32(new_stock) - wrap_to_i32(item.stock);
        if delta != 0 {
            moved = Some(delta);
        }
        item.stock = new_stock;
    }
    if let Some(p) = price {
        item.price_bits = p;
    }
    (item, moved)
}

/// The entry recording that the stock of item `id` moved by `delta`.
fn adjusted_entry(id: u32, delta: i32, log_id: u64, timestamp: u64) -> (r: AuditLog)
    ensures
        r@ == adjusted_log(id, delta as int, log_id, timestamp),
{
    AuditLog {
        id: log_id,
        item_id: id,
        change_type: String::from_str("StockAdjusted"),
        delta,
        timestamp,
    }
}

/// Update of key `id`, given the item it held (if any), the new price and
/// stock (each optional), and the log id and time to stamp an entry with.
pub fn update_item_at(
    id: u32,
    existing: Option<Item>,
    price: Option<u64>,
    stock: Option<u32>,
    log_id: u64,
    timestamp: u64,
) -> (res: Option<(Item, Option<AuditLog>)>)
    requires
        update_fits(item_opt_view(existing), stock),
    ensures
        update_view(res) == update_outcome(id, item_opt_view(existing), price, stock, log_id, timestamp),
{
    match existing {
        None => None,
        Some(item) => {
            let (item, moved) = apply_update(item, price, stock);
            let log = match moved {
                Some(delta) => Some(adjusted_entry(id, delta, log_id, timestamp)),
                None => None,
            };
            Some((item, log))
        },
    }
}

/// Update as the store does it: the clock is read only when there is a move
/// in stock to record. The item is exact; the entry, when there is one,
/// records the move, stamped with whatever the clock gave.
pub fn update_item(id: u32, existing: Option<Item>, price: Option<u64>, stock: Option<u32>) -> (res: Option<
    (Item, Option<AuditLog>),
>)
    requires
        update_fits(item_opt_view(existing), stock),
    ensures
        match (res, item_opt_view(existing)) {
            (None, None) => true,
            (Some((item, log)), Some(old)) => {
                &&& item@ == updated_item(old, price, stock)
                &&& match adjustment(old.stock, stock) {
                    Some(d) => log matches Some(l) && l@ == adjusted_log(id, d, l.id, l.timestamp)
                        && stamped_by_clock(l.id, l.timestamp),
                    None => log is None,
                }
            },
            _ => false,
        },
{
    let moves = match (&existing, stock) {
        (Some(item), Some(new_stock)) => wrap_to_i32(new_stock) - wrap_to_i32(item.stock) != 0,
        _ => false,
    };
    let (log_id, timestamp) = if moves {
        (crate::clock::next_log_id(), crate::clock::current_timestamp())
    } else {
        (0, 0)
    };
    update_item_at(id, existing, price, stock, log_id, timestamp)
}

// ----------------------------------------------------------------------------
// Deleting an item
// ----------------------------------------------------------------------------

/// A deletion whose entry can be written: `-(stock as i32)` overflows when
/// the stock reads as `i32::MIN`.
pub open spec fn delete_fits(removed: Option<ItemView>) -> bool {
    match removed {
        Some(item) => item.stock != 0x8000_0000,
        None => true,
    }
}

/// The entry written when the item under key `id` is deleted: its whole
/// stock leaves, as `-(stock as i32)`.
pub open spec fn deleted_log(id: u32, item: ItemView, log_id: u64, timestamp: u64) -> LogView {
    LogView {
        id: log_id,
        item_id: id,
        change_type: deleted_label(),
        delta: (-as_i32(item.stock)) as i32,
        timestamp,
    }
}

/// What a deletion of key `id` decides, given the item removed from it: an
/// entry when there was one, nothing otherwise.
pub open spec fn delete_outcome(id: u32, removed: Option<ItemView>, log_id: u64, timestamp: u64) -> Option<LogView> {
    match removed {
        Some(item) => Some(deleted_log(id, item, log_id, timestamp)),
        None => None,
    }
}

/// The tables after a deletion: the key removed, and the entry, if any, written.
pub open spec fn after_delete(t: Tables, id: u32, log: Option<LogView>) -> Tables {
    Tables {
        items: t.items.remove(id),
        logs: match log {
            Some(l) => t.logs.insert(l.id, l),
            None => t.logs,
        },
    }
}

/// The entry recording the deletion of `item` from key `id`.
fn deleted_entry(id: u32, item: &Item, log_id: u64, timestamp: u64) -> (r: AuditLog)
    requires
        delete_fits(Some(item@)),
    ensures
        r@ == deleted_log(id, item@, log_id, timestamp),
{
    let stock = wrap_to_i32(item.stock);
    AuditLog {
        id: log_id,
        item_id: id,
        change_type: String::from_str("Deleted"),
        delta: -stock,
        timestamp,
    }
}

/// Deletion of key `id`, given the item that removing the key gave back (if
/// any) and the log id and time to stamp the entry with. The item existed
/// exactly when an entry comes back.
pub fn delete_item_at(id: u32, removed: Option<Item>, log_id: u64, timestamp: u64) -> (res: Option<AuditLog>)
    requires
        delete_fits(item_opt_view(removed)),
    ensures
        log_opt_view(res) == delete_outcome(id, item_opt_view(removed), log_id, timestamp),
{
    match removed {
        Some(item) => Some(deleted_entry(id, &item, log_id, timestamp)),
        None => None,
    }
}

/// Deletion as the store does it: the clock is read only when an item was
/// removed. The entry records the removal, stamped with whatever the clock gave.
pub fn delete_item(id: u32, removed: Option<Item>) -> (res: Option<AuditLog>)
    requires
        delete_fits(item_opt_view(removed)),
    ensures
        match (res, item_opt_view(removed)) {
            (None, None) => true,
            (Some(l), Some(item)) => l@ == deleted_log(id, item, l.id, l.timestamp) && stamped_by_clock(
                l.id,
                l.timestamp,
            ),
            _ => false,
        },
{
    let (log_id, timestamp) = if removed.is_some() {
        (crate::clock::next_log_id(), crate::clock::current_timestamp())
    } else {
        (0, 0)
    };
    delete_item_at(id, removed, log_id, timestamp)
}

// ----------------------------------------------------------------------------
// Listing
// ----------------------------------------------------------------------------

/// Holds of the items whose id is `k`.
pub open spec fn with_id(k: u32) -> spec_fn(Item) -> bool {
    |it: Item| it.id == k
}

/// The items stand in ascending order of id.
pub open spec fn sorted_by_id(s: Seq<Item>) -> bool {
    forall|i: int, j: int| 0 <= i < j < s.len() ==> s[i].id <= s[j].id
}

/// A sequence none of whose elements meets `pred` filters to nothing.
proof fn lemma_filter_none<A>(s: Seq<A>, pred: spec_fn(A) -> bool)
    requires
        forall|i: int| 0 <= i < s.len() ==> !pred(s[i]),
    ensures
        s.filter(pred) =~= Seq::<A>::empty(),
    decreases s.len(),
{
    reveal(Seq::filter);
    if s.len() > 0 {
        lemma_filter_none(s.drop_last(), pred);
    }
}

/// Putting `x` at position `p` of `out`, before every item with a greater id
/// and after the others, adds `x` at the end of its own id's items and
/// leaves every other id's items as they were.
proof fn lemma_insert_by_id(out: Seq<Item>, p: int, x: Item, k: u32)
    requires
        0 <= p <= out.len(),
        forall|m: int| p <= m < out.len() ==> out[m].id > x.id,
    ensures
        out.insert(p, x).filter(with_id(k)) == (if x.id == k {
            out.filter(with_id(k)).push(x)
        } else {
            out.filter(with_id(k))
        }),
{
    broadcast use vstd::seq_lib::group_seq_properties;
    let pred = with_id(k);
    let front = out.subrange(0, p);
    let back = out.subrange(p, out.len() as int);
    assert(out =~= front + back);
    assert(out.insert(p, x) =~= front.push(x) + back);
    Seq::filter_distributes_over_add(front, back, pred);
    Seq::filter_distributes_over_add(front.push(x), back, pred);
    front.lemma_filter_push(x, pred);
    if x.id == k {
        lemma_filter_none(back, pred);
        assert(back.filter(pred) =~= Seq::<Item>::empty());
        assert(front.filter(pred) + back.filter(pred) =~= front.filter(pred));
        assert(front.filter(pred).push(x) + back.filter(pred) =~= front.filter(pred).push(x));
    }
}

/// The items in ascending order of id, as a stable sort by id leaves them:
/// items with the same id keep the order they came in. Rows already in
/// order of id come back as they are.
pub fn list_items(rows: Vec<Item>) -> (res: Vec<Item>)
    ensures
        sorted_by_id(res@),
        forall|k: u32| #[trigger] res@.filter(with_id(k)) == rows@.filter(with_id(k)),
        sorted_by_id(rows@) ==> res@ == rows@,
{
    let ghost orig = rows@;
    let n = rows.len();
    let mut rows = rows;
    let mut out: Vec<Item> = Vec::new();
    let mut consumed: usize = 0;
    while consumed < n
        invariant
            n == orig.len(),
            consumed <= n,
            rows@ == orig.subrange(consumed as int, n as int),
            sorted_by_id(out@),
            forall|k: u32| #[trigger] out@.filter(with_id(k)) == orig.subrange(0, consumed as int).filter(with_id(k)),
            sorted_by_id(orig) ==> out@ == orig.subrange(0, consumed as int),
        decreases n - consumed,
    {
        let x = rows.remove(0);
        assert(x == orig[consumed as int]);
        let mut p: usize = 0;
        while p < out.len() && out[p].id <= x.id
            invariant
                p <= out.len(),
                forall|m: int| 0 <= m < p ==> out@[m].id <= x.id,
            decreases out.len() - p,
        {
            p = p + 1;
        }
        assert forall|m: int| p <= m < out@.len() implies out@[m].id > x.id by {
            assert(out@[p as int].id > x.id);
        }
        let ghost before = out@;
        proof {
            if sorted_by_id(orig) {
                assert forall|m: int| 0 <= m < out@.len() implies out@[m].id <= x.id by {
                    assert(out@[m] == orig[m]);
                }
                assert(p == out.len());
            }
        }
        out.insert(p, x);
        proof {
            assert forall|k: u32| #[trigger] out@.filter(with_id(k)) == orig.subrange(0, consumed + 1).filter(with_id(k)) by {
                lemma_insert_by_id(before, p as int, x, k);
                assert(orig.subrange(0, consumed + 1) =~= orig.subrange(0, consumed as int).push(x));
                orig.subrange(0, consumed as int).lemma_filter_push(x, with_id(k));
            }
            assert forall|i: int, j: int| 0 <= i < j < out@.len() implies out@[i].id <= out@[j].id by {
                if j < p {
                } else if j == p {
                } else if i < p {
                    assert(out@[j] == before[j - 1]);
                } else if i == p {
                    assert(out@[j] == before[j - 1]);
                } else {
                    assert(out@[j] == before[j - 1]);
                    assert(out@[i] == before[i - 1]);
                }
            }
            if sorted_by_id(orig) {
                assert(out@ =~= orig.subrange(0, consumed + 1));
            }
        }
        consumed = consumed + 1;
    }
    proof {
        assert(orig.subrange(0, n as int) =~= orig);
    }
    out
}

/// The entries newest first: the rows, read in ascending order of log id,
/// come back reversed.
pub fn list_logs(rows: Vec<AuditLog>) -> (res: Vec<AuditLog>)
    ensures
        res@ == rows@.reverse(),
{
    let ghost orig = rows@;
    let mut rows = rows;
    let mut out: Vec<AuditLog> = Vec::new();
    while rows.len() > 0
        invariant
            rows@ == orig.subrange(0, rows@.len() as int),
            out@.len() + rows@.len() == orig.len(),
            forall|j: int| 0 <= j < out@.len() ==> out@[j] == orig[orig.len() - 1 - j],
        decreases rows@.len(),
    {
        let x = rows.pop().unwrap();
        out.push(x);
    }
    assert(out@ =~= orig.reverse());
    out
}

} // verus!
