use inventory_dashboard::inventory::{
    add_item, add_item_at, delete_item, delete_item_at, list_items, list_logs, next_item_id,
    update_item, update_item_at, wrap_to_i32, AuditLog, Item,
};

fn item(id: u32, name: &str, price: f64, stock: u32) -> Item {
    Item { id, name: name.to_string(), price_bits: price.to_bits(), stock }
}

fn log(id: u64, item_id: u32) -> AuditLog {
    AuditLog { id, item_id, change_type: "Created".to_string(), delta: 1, timestamp: 7 }
}

#[test]
fn first_item_gets_id_one() {
    assert_eq!(next_item_id(None), 1);
}

#[test]
fn next_id_follows_the_greatest() {
    assert_eq!(next_item_id(Some(41)), 42);
    assert_eq!(next_item_id(Some(u32::MAX - 1), ), u32::MAX);
}

#[test]
fn add_records_created_entry() {
    let (it, lg) = add_item_at(Some(3), "Pensil".to_string(), 2500.0f64.to_bits(), 12, 900, 1_700_000_000);
    assert_eq!(it.id, 4);
    assert_eq!(it.name, "Pensil");
    assert_eq!(f64::from_bits(it.price_bits), 2500.0);
    assert_eq!(it.stock, 12);
    assert_eq!(lg.id, 900);
    assert_eq!(lg.item_id, 4);
    assert_eq!(lg.change_type, "Created");
    assert_eq!(lg.delta, 12);
    assert_eq!(lg.timestamp, 1_700_000_000);
}

#[test]
fn add_with_huge_stock_wraps_the_delta() {
    let (_, lg) = add_item_at(None, "X".to_string(), 0, 3_000_000_000, 1, 1);
    assert_eq!(lg.delta, 3_000_000_000u32 as i32);
}

#[test]
fn add_reads_the_clock() {
    let (it, lg) = add_item(None, "Buku".to_string(), 1.5f64.to_bits(), 5);
    assert_eq!(it.id, 1);
    assert_eq!(lg.item_id, 1);
    assert_eq!(lg.change_type, "Created");
    assert_eq!(lg.delta, 5);
    assert!(lg.timestamp > 1_600_000_000);
    assert!(lg.id > 1_600_000_000_000_000);
}

#[test]
fn update_of_missing_item_is_none() {
    assert!(update_item_at(5, None, Some(1), Some(2), 1, 1).is_none());
    assert!(update_item(5, None, None, Some(2)).is_none());
}

#[test]
fn update_stock_logs_the_difference() {
    let (it, lg) = update_item_at(2, Some(item(2, "Tas", 10.0, 8)), None, Some(3), 77, 99).unwrap();
    assert_eq!(it.id, 2);
    assert_eq!(it.name, "Tas");
    assert_eq!(f64::from_bits(it.price_bits), 10.0);
    assert_eq!(it.stock, 3);
    let lg = lg.unwrap();
    assert_eq!(lg.id, 77);
    assert_eq!(lg.item_id, 2);
    assert_eq!(lg.change_type, "StockAdjusted");
    assert_eq!(lg.delta, -5);
    assert_eq!(lg.timestamp, 99);
}

#[test]
fn update_same_stock_logs_nothing() {
    let (it, lg) = update_item_at(2, Some(item(2, "Tas", 10.0, 8)), Some(12.5f64.to_bits()), Some(8), 77, 99).unwrap();
    assert!(lg.is_none());
    assert_eq!(it.stock, 8);
    assert_eq!(f64::from_bits(it.price_bits), 12.5);
}

#[test]
fn update_price_only_keeps_stock() {
    let (it, lg) = update_item(9, Some(item(9, "Meja", 1.0, 4)), Some(2.0f64.to_bits()), None).unwrap();
    assert!(lg.is_none());
    assert_eq!(it.stock, 4);
    assert_eq!(f64::from_bits(it.price_bits), 2.0);
}

#[test]
fn update_reads_the_clock_when_stock_moves() {
    let (it, lg) = update_item(9, Some(item(9, "Meja", 1.0, 4)), None, Some(10)).unwrap();
    assert_eq!(it.stock, 10);
    let lg = lg.unwrap();
    assert_eq!(lg.delta, 6);
    assert_eq!(lg.item_id, 9);
    assert_eq!(lg.change_type, "StockAdjusted");
    assert!(lg.timestamp > 1_600_000_000);
}

#[test]
fn update_with_nothing_given_changes_nothing() {
    let (it, lg) = update_item_at(1, Some(item(1, "Kursi", 3.0, 2)), None, None, 5, 5).unwrap();
    assert!(lg.is_none());
    assert_eq!(it.id, 1);
    assert_eq!(it.name, "Kursi");
    assert_eq!(f64::from_bits(it.price_bits), 3.0);
    assert_eq!(it.stock, 2);
}

#[test]
fn delete_records_negative_stock() {
    let lg = delete_item_at(4, Some(item(4, "Lampu", 1.0, 6)), 31, 32).unwrap();
    assert_eq!(lg.id, 31);
    assert_eq!(lg.item_id, 4);
    assert_eq!(lg.change_type, "Deleted");
    assert_eq!(lg.delta, -6);
    assert_eq!(lg.timestamp, 32);
}

#[test]
fn delete_of_missing_item_is_none() {
    assert!(delete_item_at(4, None, 31, 32).is_none());
    assert!(delete_item(4, None).is_none());
}

#[test]
fn delete_reads_the_clock() {
    let lg = delete_item(4, Some(item(4, "Lampu", 1.0, 0))).unwrap();
    assert_eq!(lg.delta, 0);
    assert_eq!(lg.change_type, "Deleted");
    assert!(lg.timestamp > 1_600_000_000);
}

#[test]
fn listing_sorts_by_id_and_keeps_ties_in_order() {
    let rows = vec![item(5, "e", 0.0, 0), item(2, "b", 0.0, 0), item(5, "f", 0.0, 0), item(1, "a", 0.0, 0)];
    let out = list_items(rows);
    let ids: Vec<u32> = out.iter().map(|i| i.id).collect();
    let names: Vec<&str> = out.iter().map(|i| i.name.as_str()).collect();
    assert_eq!(ids, vec![1, 2, 5, 5]);
    assert_eq!(names, vec!["a", "b", "e", "f"]);
}

#[test]
fn listing_sorted_rows_is_identity() {
    let out = list_items(vec![item(1, "a", 0.0, 1), item(3, "c", 0.0, 3)]);
    let ids: Vec<u32> = out.iter().map(|i| i.id).collect();
    assert_eq!(ids, vec![1, 3]);
    assert!(list_items(Vec::new()).is_empty());
}

#[test]
fn logs_come_newest_first() {
    let out = list_logs(vec![log(1, 1), log(2, 1), log(3, 2)]);
    let ids: Vec<u64> = out.iter().map(|l| l.id).collect();
    assert_eq!(ids, vec![3, 2, 1]);
    assert!(list_logs(Vec::new()).is_empty());
}

#[test]
fn wrapping_matches_as_cast() {
    for x in [0u32, 1, 0x7fff_ffff, 0x8000_0000, 0xffff_ffff, 123_456_789] {
        assert_eq!(wrap_to_i32(x), x as i32);
    }
}

/// The audit trail of a sequence of operations adds up to the stock.
#[test]
fn ledger_accounts_for_stock() {
    let (it, l1) = add_item_at(None, "Sepatu".to_string(), 0, 10, 1, 1);
    let (it, l2) = update_item_at(1, Some(it), None, Some(4), 2, 2).unwrap();
    let (it, l3) = update_item_at(1, Some(it), None, Some(4), 3, 3).unwrap();
    let (it, l4) = update_item_at(1, Some(it), None, Some(25), 4, 4).unwrap();
    assert!(l3.is_none());
    let sum: i64 = [Some(l1), l2, l4].iter().flatten().map(|l| l.delta as i64).sum();
    assert_eq!(sum, it.stock as i64);
    let l5 = delete_item_at(1, Some(it), 5, 5).unwrap();
    assert_eq!(sum + l5.delta as i64, 0);
}
