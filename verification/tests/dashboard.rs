use inventory_dashboard::dashboard::{
    csv_export, delta_text, form_submission, is_shown, is_refresh_signal, item_url, log_badges, no_match_message,
    refresh_signal, search_items, stock_after_click, stock_badge_class, stock_input, ws_url, CsvRow,
};
use inventory_dashboard::inventory::Item;

fn item(id: u32, name: &str) -> Item {
    Item { id, name: name.to_string(), price_bits: 0, stock: 1 }
}

#[test]
fn socket_url_follows_the_page() {
    assert_eq!(ws_url(Some("toko.example:8080".to_string()), Some("https:".to_string())), "wss://toko.example:8080/ws");
    assert_eq!(ws_url(Some("toko.example".to_string()), Some("http:".to_string())), "ws://toko.example/ws");
    assert_eq!(ws_url(None, Some("https:".to_string())), "wss://127.0.0.1:3030/ws");
    assert_eq!(ws_url(None, None), "ws://127.0.0.1:3030/ws");
}

#[test]
fn refresh_signal_is_recognised() {
    assert_eq!(refresh_signal(), "REFRESH");
    assert!(is_refresh_signal(&"REFRESH".to_string()));
    assert!(!is_refresh_signal(&"refresh".to_string()));
}

#[test]
fn stock_buttons() {
    assert_eq!(stock_after_click(5, -1), Some(4));
    assert_eq!(stock_after_click(0, -1), None);
    assert_eq!(stock_after_click(5, 1), Some(6));
    assert_eq!(stock_after_click(stock_after_click(7, 1).unwrap(), -1), Some(7));
}

#[test]
fn item_urls() {
    assert_eq!(item_url(0), "/items/0");
    assert_eq!(item_url(42), "/items/42");
}

#[test]
fn stock_field_reads_number_or_zero() {
    assert_eq!(stock_input("15"), 15);
    assert_eq!(stock_input(""), 0);
    assert_eq!(stock_input("1.5"), 0);
    assert_eq!(stock_input("-3"), 0);
}

#[test]
fn form_needs_a_name() {
    assert!(form_submission(String::new(), "3").is_none());
    let (name, stock) = form_submission("Kertas".to_string(), "12").unwrap();
    assert_eq!(name, "Kertas");
    assert_eq!(stock, 12);
    let (_, stock) = form_submission("Kertas".to_string(), "abc").unwrap();
    assert_eq!(stock, 0);
}

#[test]
fn search_matches_in_lower_case() {
    let items = vec![item(1, "Pensil Merah"), item(2, "Buku"), item(3, "pensil biru")];
    let shown = search_items(items, "PENSIL");
    let ids: Vec<u32> = shown.iter().map(|i| i.id).collect();
    assert_eq!(ids, vec![1, 3]);
}

#[test]
fn empty_search_shows_everything() {
    let items = vec![item(4, "a"), item(2, "b")];
    let ids: Vec<u32> = search_items(items, "").iter().map(|i| i.id).collect();
    assert_eq!(ids, vec![4, 2]);
}

#[test]
fn search_without_match_is_empty() {
    assert!(search_items(vec![item(1, "Buku")], "meja").is_empty());
    assert_eq!(no_match_message("meja"), "Tidak ada barang yang cocok dengan kata kunci \"meja\"");
}

#[test]
fn stock_badges() {
    assert_eq!(stock_badge_class(5), "bg-red-100 text-red-700 font-bold");
    assert_eq!(stock_badge_class(0), "bg-red-100 text-red-700 font-bold");
    assert_eq!(stock_badge_class(6), "bg-blue-100 text-blue-800");
}

#[test]
fn log_badge_styles() {
    assert_eq!(log_badges(&"Created".to_string(), 3), ("bg-blue-100 text-blue-700", "text-blue-600 font-bold"));
    assert_eq!(log_badges(&"Deleted".to_string(), -3), ("bg-red-100 text-red-700", "text-red-600 font-bold"));
    assert_eq!(log_badges(&"StockAdjusted".to_string(), 2), ("bg-amber-100 text-amber-700", "text-emerald-600 font-bold"));
    assert_eq!(log_badges(&"StockAdjusted".to_string(), -2), ("bg-amber-100 text-amber-700", "text-rose-600 font-bold"));
    assert_eq!(log_badges(&"StockAdjusted".to_string(), 0), ("bg-amber-100 text-amber-700", "text-rose-600 font-bold"));
}

#[test]
fn delta_texts() {
    assert_eq!(delta_text(5), "+5");
    assert_eq!(delta_text(0), "0");
    assert_eq!(delta_text(-12), "-12");
    assert_eq!(delta_text(i32::MIN), "-2147483648");
}

#[test]
fn csv_document() {
    let rows = vec![
        CsvRow { id: 1, name: "Meja \"Jati\"".to_string(), price_text: "150000".to_string(), stock: 3 },
        CsvRow { id: 12, name: "Kursi".to_string(), price_text: "2.5".to_string(), stock: 0 },
    ];
    assert_eq!(
        csv_export(&rows),
        "ID,Nama Barang,Harga,Stok\n1,\"Meja \"\"Jati\"\"\",150000,3\n12,\"Kursi\",2.5,0\n"
    );
    assert_eq!(csv_export(&Vec::new()), "ID,Nama Barang,Harga,Stok\n");
}

#[test]
fn shown_when_query_inside_name() {
    assert!(is_shown("pensil merah", "merah"));
    assert!(is_shown("pensil merah", ""));
    assert!(!is_shown("pensil merah", "biru"));
    assert!(!is_shown("", "a"));
}
