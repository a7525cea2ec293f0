use inventory_dashboard::text::{contains_text, csv_escape, decimal_text, lowercase, parse_u32, signed_text};

#[test]
fn decimal_of_numbers() {
    assert_eq!(decimal_text(0), "0");
    assert_eq!(decimal_text(7), "7");
    assert_eq!(decimal_text(10), "10");
    assert_eq!(decimal_text(4_294_967_295), "4294967295");
}

#[test]
fn signed_decimal_of_numbers() {
    assert_eq!(signed_text(0), "0");
    assert_eq!(signed_text(-6), "-6");
    assert_eq!(signed_text(15), "15");
    assert_eq!(signed_text(i32::MIN), "-2147483648");
    assert_eq!(signed_text(i32::MAX), "2147483647");
}

#[test]
fn parse_accepts_what_std_accepts() {
    for s in ["0", "12", "+12", "007", "4294967295", "", "+", "-1", "4294967296", "1 ", " 1", "1a", "٣", "99999999999999999999999"] {
        assert_eq!(parse_u32(s), s.parse::<u32>().ok(), "input {:?}", s);
    }
}

#[test]
fn decimal_reads_back() {
    for n in [0u32, 1, 9, 10, 99, 100, 65_535, 4_294_967_295] {
        assert_eq!(parse_u32(&decimal_text(n)), Some(n));
    }
}

#[test]
fn contains_finds_infixes() {
    assert!(contains_text("pensil warna", "warna"));
    assert!(contains_text("pensil", ""));
    assert!(contains_text("", ""));
    assert!(contains_text("abc", "abc"));
    assert!(!contains_text("abc", "abcd"));
    assert!(!contains_text("pensil", "pensl"));
    assert!(contains_text("kopi ☕ susu", "☕ s"));
}

#[test]
fn lowercase_follows_unicode() {
    assert_eq!(lowercase("Pensil BESAR"), "pensil besar");
    assert_eq!(lowercase(""), "");
    assert_eq!(lowercase("ÄÖÜ"), "äöü");
}

#[test]
fn csv_escape_doubles_quotes() {
    assert_eq!(csv_escape("Meja \"Jati\""), "Meja \"\"Jati\"\"");
    assert_eq!(csv_escape(""), "");
    assert_eq!(csv_escape("\""), "\"\"");
    assert_eq!(csv_escape("biasa"), "biasa");
}
