//! What the dashboard page decides: where its live-update socket connects,
//! which requests its buttons and form send, what its search shows, how it
//! labels stock and audit entries, and the CSV it exports.

use crate::inventory::Item;
use crate::text::{
    all_ascii, ascii_lowered, contains_text, csv_escape, csv_escaped, decimal, decimal_text, is_infix, lowercase, lowercased,
    parse_u32, parsed_u32, signed_decimal, signed_text,
};
use vstd::prelude::*;

verus! {

// ----------------------------------------------------------------------------
// Live updates
// ----------------------------------------------------------------------------

/// The address of the live-update socket: `wss:` when the page was served
/// over `https:`, `ws:` otherwise; the page's host, or the server's default
/// address when the page has none.
pub open spec fn socket_url(host: Option<Seq<char>>, protocol: Option<Seq<char>>) -> Seq<char> {
    let scheme = if protocol == Some("https:"@) {
        "wss:"@
    } else {
        "ws:"@
    };
    let h = match host {
        Some(h) => h,
        None => "127.0.0.1:3030"@,
    };
    scheme + "//"@ + h + "/ws"@
}

/// The view of a text that may be absent.
pub open spec fn text_opt_view(o: Option<String>) -> Option<Seq<char>> {
    match o {
        Some(s) => Some(s@),
        None => None,
    }
}

/// The live-update socket's address, from the page's host and protocol
/// (each absent when the page cannot tell it).
pub fn ws_url(host: Option<String>, protocol: Option<String>) -> (r: String)
    ensures
        r@ == socket_url(text_opt_view(host), text_opt_view(protocol)),
{
    let secure = match &protocol {
        Some(p) => *p == String::from_str("https:"),
        None => false,
    };
    let scheme = if secure {
        String::from_str("wss:")
    } else {
        String::from_str("ws:")
    };
    let h = match host {
        Some(h) => h,
        None => String::from_str("127.0.0.1:3030"),
    };
    scheme.concat("//").concat(h.as_str()).concat("/ws")
}

/// The message by which the server tells the page to reload its data.
pub open spec fn refresh_text() -> Seq<char> {
    "REFRESH"@
}

/// The reload message.
pub fn refresh_signal() -> (r: String)
    ensures
        r@ == refresh_text(),
{
    String::from_str("REFRESH")
}

/// Whether a socket message asks the page to reload.
pub fn is_refresh_signal(msg: &String) -> (r: bool)
    ensures
        r == (msg@ == refresh_text()),
{
    *msg == refresh_signal()
}

// ----------------------------------------------------------------------------
// Buttons and the form
// ----------------------------------------------------------------------------

/// The stock that a `-` or `+` button asks for: one less (nothing when the
/// stock is already 0) or one more.
pub open spec fn stock_after(current: u32, delta: i32) -> Option<u32> {
    if delta < 0 {
        if current == 0 {
            None
        } else {
            Some((current - 1) as u32)
        }
    } else {
        Some((current + 1) as u32)
    }
}

/// The stock a button asks for; nothing is sent when it would go below 0.
/// A `+` on `u32::MAX` overflows and is left out.
pub fn stock_after_click(current: u32, delta: i32) -> (r: Option<u32>)
    requires
        delta < 0 || current < u32::MAX,
    ensures
        r == stock_after(current, delta),
{
    if delta < 0 {
        if current == 0 {
            return None;
        }
        Some(current - 1)
    } else {
        Some(current + 1)
    }
}

/// The path of one item in the API.
pub open spec fn item_path(id: u32) -> Seq<char> {
    "/items/"@ + decimal(id as nat)
}

/// The address that the update and delete buttons of item `id` send to.
pub fn item_url(id: u32) -> (r: String)
    ensures
        r@ == item_path(id),
{
    let digits = decimal_text(id);
    String::from_str("/items/").concat(digits.as_str())
}

/// The stock typed in the form, as the page reads it: the number, or 0 when
/// the text is not one.
pub fn stock_input(text: &str) -> (r: u32)
    ensures
        r == match parsed_u32(text@) {
            Some(v) => v,
            None => 0,
        },
{
    match parse_u32(text) {
        Some(v) => v,
        None => 0,
    }
}

/// What the form sends: nothing when the name is empty; otherwise the name
/// and the stock read from its text.
pub fn form_submission(name: String, stock_text: &str) -> (r: Option<(String, u32)>)
    ensures
        name@.len() == 0 ==> r is None,
        name@.len() > 0 ==> (r matches Some((n, s)) && n@ == name@ && s == match parsed_u32(stock_text@) {
            Some(v) => v,
            None => 0,
        }),
{
    if name.as_str().unicode_len() == 0 {
        return None;
    }
    let stock = stock_input(stock_text);
    Some((name, stock))
}

// ----------------------------------------------------------------------------
// Search
// ----------------------------------------------------------------------------

/// An item name is shown for a lower-cased query when the query is empty or
/// stands inside the lower-cased name.
pub open spec fn shown_for(query: Seq<char>) -> spec_fn(Item) -> bool {
    |it: Item| query.len() == 0 || is_infix(query, lowercased(it.name@))
}

/// Whether a name, already in lower case, is shown for a query, already in
/// lower case: the query is empty or stands inside the name.
pub fn is_shown(lower_name: &str, lower_query: &str) -> (r: bool)
    ensures
        r == (lower_query@.len() == 0 || is_infix(lower_query@, lower_name@)),
{
    lower_query.unicode_len() == 0 || contains_text(lower_name, lower_query)
}

/// The items that the search box shows for `query`, in their order; the
/// query and the names are compared in lower case.
///
/// For a query and names of ASCII text, an item is shown exactly when the
/// query stands inside its name with upper- and lower-case letters taken as
/// the same (or the query is empty).
pub fn search_items(items: Vec<Item>, query: &str) -> (res: Vec<Item>)
    ensures
        res@ == items@.filter(shown_for(lowercased(query@))),
        all_ascii(query@) && (forall|i: int| 0 <= i < items@.len() ==> all_ascii(#[trigger] items@[i].name@))
            ==> res@ == items@.filter(matches_ignoring_case(query@)),
{
    let q = lowercase(query);
    let ghost pred = shown_for(lowercased(query@));
    let ghost pred2 = matches_ignoring_case(query@);
    let ghost ascii_case = all_ascii(query@) && (forall|i: int|
        0 <= i < items@.len() ==> all_ascii(#[trigger] items@[i].name@));
    let ghost orig = items@;
    let n = items.len();
    let mut items = items;
    let mut out: Vec<Item> = Vec::new();
    let mut i: usize = 0;
    while i < n
        invariant
            n == orig.len(),
            i <= n,
            items@ == orig.subrange(i as int, n as int),
            out@ == orig.subrange(0, i as int).filter(pred),
            q@ == lowercased(query@),
            pred == shown_for(lowercased(query@)),
            pred2 == matches_ignoring_case(query@),
            ascii_case ==> all_ascii(query@) && q@ == ascii_lowered(query@),
            ascii_case ==> forall|j: int| 0 <= j < n ==> all_ascii(#[trigger] orig[j].name@),
            ascii_case ==> out@ == orig.subrange(0, i as int).filter(pred2),
        decreases n - i,
    {
        let x = items.remove(0);
        assert(x == orig[i as int]);
        let lowered = lowercase(x.name.as_str());
        let keep = is_shown(lowered.as_str(), q.as_str());
        proof {
            assert(orig.subrange(0, i + 1) =~= orig.subrange(0, i as int).push(x));
            orig.subrange(0, i as int).lemma_filter_push(x, pred);
            orig.subrange(0, i as int).lemma_filter_push(x, pred2);
            if ascii_case {
                assert(all_ascii(orig[i as int].name@));
                assert(lowered@ == ascii_lowered(x.name@));
                assert(q@.len() == query@.len());
                assert(keep == pred2(x));
            }
        }
        if keep {
            out.push(x);
        }
        i = i + 1;
    }
    assert(orig.subrange(0, n as int) =~= orig);
    out
}

/// An item's name holds the query when upper- and lower-case ASCII letters
/// are taken as the same (an empty query is held by every name).
pub open spec fn matches_ignoring_case(query: Seq<char>) -> spec_fn(Item) -> bool {
    |it: Item| query.len() == 0 || is_infix(ascii_lowered(query), ascii_lowered(it.name@))
}

/// Queries that differ only in the case of their letters show the same
/// items.
pub proof fn law_search_ignores_case(items: Seq<Item>, q1: Seq<char>, q2: Seq<char>)
    requires
        ascii_lowered(q1) == ascii_lowered(q2),
    ensures
        items.filter(matches_ignoring_case(q1)) == items.filter(matches_ignoring_case(q2)),
{
    assert(q1.len() == ascii_lowered(q1).len());
    assert(q2.len() == ascii_lowered(q2).len());
    assert(matches_ignoring_case(q1) =~= matches_ignoring_case(q2));
}

/// A name that holds the query as it was typed holds it when case is
/// ignored, so the item is shown.
pub proof fn law_search_finds_verbatim(item: Item, query: Seq<char>)
    requires
        is_infix(query, item.name@),
    ensures
        matches_ignoring_case(query)(item),
{
    let name = item.name@;
    let k = choose|k: int| 0 <= k <= name.len() - query.len() && #[trigger] name.subrange(k, k + query.len()) == query;
    assert(ascii_lowered(name).subrange(k, k + query.len()) =~= ascii_lowered(query));
}

/// What the list says when the search shows nothing.
pub open spec fn no_match_text(query: Seq<char>) -> Seq<char> {
    "Tidak ada barang yang cocok dengan kata kunci \""@ + query + "\""@
}

/// The message for a search that shows nothing, quoting the query.
pub fn no_match_message(query: &str) -> (r: String)
    ensures
        r@ == no_match_text(query@),
{
    String::from_str("Tidak ada barang yang cocok dengan kata kunci \"").concat(query).concat("\"")
}

// ----------------------------------------------------------------------------
// Labels
// ----------------------------------------------------------------------------

/// Stock of five or fewer is shown as running low.
pub open spec fn low_stock(stock: u32) -> bool {
    stock <= 5
}

/// The style of an item's stock badge: red when stock runs low, blue otherwise.
pub fn stock_badge_class(stock: u32) -> (r: &'static str)
    ensures
        low_stock(stock) ==> r@ == "bg-red-100 text-red-700 font-bold"@,
        !low_stock(stock) ==> r@ == "bg-blue-100 text-blue-800"@,
{
    if stock <= 5 {
        "bg-red-100 text-red-700 font-bold"
    } else {
        "bg-blue-100 text-blue-800"
    }
}

/// The styles of an audit entry's type badge and delta: blue for a
/// creation, red for a deletion, and for any other change amber with the
/// delta green when stock rose and rose-red otherwise.
pub open spec fn badge_styles(change_type: Seq<char>, delta: i32) -> (Seq<char>, Seq<char>) {
    if change_type == "Created"@ {
        ("bg-blue-100 text-blue-700"@, "text-blue-600 font-bold"@)
    } else if change_type == "Deleted"@ {
        ("bg-red-100 text-red-700"@, "text-red-600 font-bold"@)
    } else if delta > 0 {
        ("bg-amber-100 text-amber-700"@, "text-emerald-600 font-bold"@)
    } else {
        ("bg-amber-100 text-amber-700"@, "text-rose-600 font-bold"@)
    }
}

/// The badge styles of an audit entry.
pub fn log_badges(change_type: &String, delta: i32) -> (r: (&'static str, &'static str))
    ensures
        (r.0@, r.1@) == badge_styles(change_type@, delta),
{
    if *change_type == String::from_str("Created") {
        ("bg-blue-100 text-blue-700", "text-blue-600 font-bold")
    } else if *change_type == String::from_str("Deleted") {
        ("bg-red-100 text-red-700", "text-red-600 font-bold")
    } else if delta > 0 {
        ("bg-amber-100 text-amber-700", "text-emerald-600 font-bold")
    } else {
        ("bg-amber-100 text-amber-700", "text-rose-600 font-bold")
    }
}

/// How an audit entry's delta is shown: a `+` before a rise, the plain
/// number otherwise.
pub open spec fn delta_shown(delta: i32) -> Seq<char> {
    if delta > 0 {
        seq!['+'] + decimal(delta as nat)
    } else {
        signed_decimal(delta as int)
    }
}

/// The text of an audit entry's delta.
pub fn delta_text(delta: i32) -> (r: String)
    ensures
        r@ == delta_shown(delta),
{
    if delta > 0 {
        let digits = decimal_text(delta as u32);
        proof {
            reveal_strlit("+");
        }
        String::from_str("+").concat(digits.as_str())
    } else {
        signed_text(delta)
    }
}

// ----------------------------------------------------------------------------
// CSV export
// ----------------------------------------------------------------------------

/// One item as the export writes it; its price is already in the text that
/// the page shows for it.
pub struct CsvRow {
    pub id: u32,
    pub name: String,
    pub price_text: String,
    pub stock: u32,
}

/// The first line of the export.
pub open spec fn csv_header() -> Seq<char> {
    "ID,Nama Barang,Harga,Stok\n"@
}

/// One line of the export: id, quoted name, price, stock.
pub open spec fn csv_line(row: CsvRow) -> Seq<char> {
    decimal(row.id as nat) + ",\""@ + csv_escaped(row.name@) + "\","@ + row.price_text@ + ","@
        + decimal(row.stock as nat) + "\n"@
}

/// The export of the given rows: the header, then one line per row in order.
pub open spec fn csv_document(rows: Seq<CsvRow>) -> Seq<char>
    decreases rows.len(),
{
    if rows.len() == 0 {
        csv_header()
    } else {
        csv_document(rows.drop_last()) + csv_line(rows.last())
    }
}

fn write_csv_line(out: &mut String, row: &CsvRow)
    ensures
        final(out)@ == old(out)@ + csv_line(*row),
{
    let id = decimal_text(row.id);
    let escaped = csv_escape(row.name.as_str());
    let stock = decimal_text(row.stock);
    out.append(id.as_str());
    out.append(",\"");
    out.append(escaped.as_str());
    out.append("\",");
    out.append(row.price_text.as_str());
    out.append(",");
    out.append(stock.as_str());
    out.append("\n");
    assert(final(out)@ =~= old(out)@ + csv_line(*row));
}

/// The CSV text that the export button downloads.
pub fn csv_export(rows: &Vec<CsvRow>) -> (r: String)
    ensures
        r@ == csv_document(rows@),
{
    let mut out = String::from_str("ID,Nama Barang,Harga,Stok\n");
    let n = rows.len();
    let mut i: usize = 0;
    while i < n
        invariant
            n == rows@.len(),
            i <= n,
            out@ == csv_document(rows@.subrange(0, i as int)),
        decreases n - i,
    {
        assert(rows@.subrange(0, i + 1).drop_last() =~= rows@.subrange(0, i as int));
        write_csv_line(&mut out, &rows[i]);
        i = i + 1;
    }
    assert(rows@.subrange(0, n as int) =~= rows@);
    out
}

// ----------------------------------------------------------------------------
// What the page promises
// ----------------------------------------------------------------------------

/// A `+` then a `-` asks for the stock one started from; a `-` at 0 asks
/// for nothing, and a `-` never asks for more stock than there was.
pub proof fn law_stock_buttons(current: u32)
    ensures
        current < u32::MAX ==> (stock_after(current, 1i32) matches Some(up) && stock_after(up, -1i32) == Some(current)),
        stock_after(0, -1i32) is None,
        current > 0 ==> stock_after(current, -1i32) == Some((current - 1) as u32),
{
}

/// When the lower-cased query is empty, the search shows every item in
/// its order.
pub proof fn law_empty_query_shows_all(items: Seq<Item>, query: Seq<char>)
    requires
        query.len() == 0,
    ensures
        items.filter(shown_for(query)) == items,
    decreases items.len(),
{
    reveal(Seq::filter);
    if items.len() > 0 {
        law_empty_query_shows_all(items.drop_last(), query);
        assert(items.drop_last().push(items.last()) =~= items);
    }
}

/// Every item that the search shows has the lower-cased query inside its
/// lower-cased name.
pub proof fn law_search_shows_only_matches(items: Seq<Item>, query: Seq<char>)
    ensures
        forall|i: int| 0 <= i < items.filter(shown_for(query)).len() ==>
            query.len() == 0 || is_infix(query, lowercased(#[trigger] items.filter(shown_for(query))[i].name@)),
{
    broadcast use vstd::seq_lib::group_filter_ensures;
    assert forall|i: int| 0 <= i < items.filter(shown_for(query)).len() implies
        query.len() == 0 || is_infix(query, lowercased(#[trigger] items.filter(shown_for(query))[i].name@)) by {
        items.lemma_filter_pred(shown_for(query), i);
    }
}

} // verus!
