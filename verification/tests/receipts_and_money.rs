use pos_desktop::number::{display_cell, format_amount, money};
use pos_desktop::receipt_layout::{
    detail, header, paper_mm, sale, sale_receipt, DetailItem, ItemText, Row, SaleItem, SaleTotals, TotalsText,
};
use pos_desktop::receipts::{filter_receipts, parse_receipt_date, ReceiptDate, ReceiptSummary};
use pos_desktop::regional::{format_ks, normalize, AmountText, Currency};
use pos_desktop::settings::{setting_value, settings_rows, Settings};

fn settings(pairs: &[(&str, &str)]) -> Settings {
    let owned: Vec<(String, String)> = pairs.iter().map(|(k, v)| (k.to_string(), v.to_string())).collect();
    Settings::from_pairs(&owned)
}

fn row(kind: &'static str, text: &str, right: &str) -> Row {
    Row::new(kind, text.to_string(), right.to_string())
}

#[test]
fn valid_paper_sizes_and_default() {
    let mut settings = Settings::new();
    assert_eq!(paper_mm(&settings), 80);
    settings.insert("receipt_paper_size".into(), "58".into());
    assert_eq!(paper_mm(&settings), 58);
    settings.insert("receipt_paper_size".into(), "invalid".into());
    assert_eq!(paper_mm(&settings), 80);
}

#[test]
fn header_skips_blank_shop_details() {
    let s = settings(&[("shop_name", "  "), ("shop_phone", "0911"), ("shop_address", " \t"), ("receipt_header", "Hi")]);
    let rows = header(&s, "INV-1", "Cash");
    assert_eq!(
        rows,
        vec![
            row("title", "KAY POS", ""),
            row("center", "0911", ""),
            row("center", "Hi", ""),
            row("rule", "", ""),
            row("center", "INV-1", ""),
            row("pair", "Payment method", "Cash"),
            row("rule", "", ""),
        ]
    );
}

fn foot() -> TotalsText {
    TotalsText {
        subtotal: Some("5,000 Ks".into()),
        tax: None,
        discount: Some("500 Ks".into()),
        total: "4,500 Ks".into(),
        received: "4,000 Ks".into(),
        change: "0 Ks".into(),
        balance_due: Some("500 Ks".into()),
    }
}

#[test]
fn sale_receipt_lines_in_print_order() {
    let s = settings(&[("shop_name", "Shop <&>"), ("receipt_footer", "Thank you")]);
    let items = vec![ItemText { name: "Sample item".into(), quantity: "2".into(), price: "2,500 Ks".into(), total: "5,000 Ks".into() }];
    let rows = sale(&s, "A1", "Credit", &items, &foot());
    assert_eq!(rows[0], row("title", "Shop <&>", ""));
    assert_eq!(rows[5], row("item", "Sample item", ""));
    assert_eq!(rows[6], row("pair", "2 x 2,500 Ks", "5,000 Ks"));
    assert_eq!(rows[7], row("rule", "", ""));
    assert_eq!(rows[8], row("pair", "Subtotal", "5,000 Ks"));
    assert_eq!(rows[9], row("pair", "Discount", "500 Ks"));
    assert_eq!(rows[10], row("total", "TOTAL", "4,500 Ks"));
    assert_eq!(rows[13], row("pair", "Balance due", "500 Ks"));
    assert_eq!(rows[14], row("rule", "", ""));
    assert_eq!(rows[15], row("center", "Thank you", ""));
    assert_eq!(rows.len(), 16);
}

#[test]
fn reprint_uses_fallback_names() {
    let s = Settings::new();
    let items = vec![DetailItem { product_name: None, quantity: "1".into(), price: "10 Ks".into(), total: "10 Ks".into() }];
    let rows = detail(&s, &None, -42, &None, &items, &foot());
    assert_eq!(rows[2], row("center", "Sale #-42", ""));
    assert_eq!(rows[3], row("pair", "Payment method", "Unknown"));
    assert_eq!(rows[5], row("item", "Item", ""));
    let rows = detail(&s, &Some("INV-7".into()), 7, &Some("Cash".into()), &items, &foot());
    assert_eq!(rows[2], row("center", "INV-7", ""));
}

#[test]
fn currency_selection_overrides_stale_symbol() {
    for (value, symbol) in [("Dollar ($)", "$"), ("THB", "B"), ("MMK", "Ks")] {
        let mut s = settings(&[("currency", value), ("currency_symbol", "Ks")]);
        normalize(&mut s);
        assert_eq!(s.get("currency_symbol").unwrap(), symbol);
        assert_eq!(Currency::from_settings(&s).symbol(), symbol);
    }
    assert_eq!(Currency::from_settings(&Settings::new()), Currency::Kyats);
    assert_eq!(Currency::from_settings(&settings(&[("currency_symbol", "$")])), Currency::Dollar);
}

#[test]
fn currency_names_and_parsing() {
    assert_eq!(Currency::parse("  kYaTs  "), Some(Currency::Kyats));
    assert_eq!(Currency::parse("usd"), Some(Currency::Dollar));
    assert_eq!(Currency::parse("Baht (B)"), Some(Currency::Baht));
    assert_eq!(Currency::parse("euro"), None);
    assert_eq!(Currency::Dollar.name(), "Dollar ($)");
    let mut s = settings(&[("currency", "nonsense"), ("currency_symbol", "b")]);
    normalize(&mut s);
    assert_eq!(s.get("currency").unwrap(), "Baht (B)");
}

#[test]
fn currency_text_formatting() {
    assert_eq!(Currency::Kyats.format("2500"), "2,500 Ks");
    assert_eq!(Currency::Dollar.format("2500.25"), "2,500.25 $");
    assert_eq!(Currency::Baht.format("-1234.50"), "-1,234.50 B");
    assert_eq!(Currency::Dollar.format("0.00"), "0.00 $");
    assert_eq!(format_amount("1234567", "Ks"), "1,234,567 Ks");
}

#[test]
fn money_display_preserves_decimal_values() {
    assert_eq!(display_cell("-1234567.25", true, "Ks"), "-1,234,567.25 Ks");
    assert_eq!(display_cell("Unknown", false, "Ks"), "Unknown");
}

#[test]
fn kyats_and_expense_amounts() {
    let ks = |whole: &str| format_ks(Currency::Kyats, &amount(whole, "unused"));
    assert_eq!(ks("0"), "0 Ks");
    assert_eq!(ks("999"), "999 Ks");
    assert_eq!(ks("1000"), "1,000 Ks");
    assert_eq!(ks("-1234567"), "-1,234,567 Ks");
    assert_eq!(ks("9223372036854775807"), "9,223,372,036,854,775,807 Ks");
    assert_eq!(money("12345.5"), "12,345.5");
    assert_eq!(money("100"), "100");
    assert_eq!(money("100."), "100");
}

#[test]
fn setting_values_fall_back_when_blank() {
    let s = settings(&[("a", " "), ("b", "x")]);
    assert_eq!(setting_value(&s, "a", "fb"), "fb");
    assert_eq!(setting_value(&s, "b", "fb"), "x");
    assert_eq!(setting_value(&s, "c", "fb"), "fb");
    assert_eq!(settings_rows(&s, &["b", "c"]), vec![("b".to_string(), "x".to_string()), ("c".to_string(), String::new())]);
}

#[test]
fn receipt_picker_date_format() {
    assert_eq!(parse_receipt_date("2026-09-17"), Some(ReceiptDate { year: 2026, month: 9, day: 17 }));
    assert!(parse_receipt_date("").is_none());
    assert!(parse_receipt_date("2026-02-30").is_none());
    let today = chrono::Local::now().date_naive().format("%Y-%m-%d").to_string();
    assert!(parse_receipt_date(&today).is_some());
}

fn receipt(invoice: &str, status: &str, payment: &str, day: u32, discounted: bool) -> ReceiptSummary {
    ReceiptSummary {
        invoice_no: Some(invoice.into()),
        customer_name: Some("Aung".into()),
        payment_type: Some(payment.into()),
        status: Some(status.into()),
        created_on: Some(ReceiptDate { year: 2026, month: 1, day }),
        discounted,
    }
}

#[test]
fn receipt_tabs_dates_and_search() {
    let list = vec![
        receipt("INV-1", "Completed", "Cash", 5, false),
        receipt("INV-2", "REFUNDED", "Cash", 6, true),
        receipt("INV-3", "completed", "Credit", 7, true),
        receipt("INV-4", "completed", "Cash", 20, false),
    ];
    assert_eq!(filter_receipts(&list, "", "receipts", "2026-01-01", "2026-01-10"), vec![0, 2]);
    assert_eq!(filter_receipts(&list, "", "refunded", "", ""), vec![1]);
    assert_eq!(filter_receipts(&list, "", "discounted", "", ""), vec![1, 2]);
    assert_eq!(filter_receipts(&list, "", "credit", "", ""), vec![2]);
    assert_eq!(filter_receipts(&list, "  inv-4 ", "receipts", "bad", ""), vec![3]);
    assert_eq!(filter_receipts(&list, "AUNG", "receipts", "", "2026-01-06"), vec![0]);
}

fn amount(whole: &str, cents: &str) -> AmountText {
    AmountText { whole: whole.into(), cents: cents.into() }
}

/// The preview receipt: two of a 2,500 item, paid with 10,000 in cash or
/// 1,000 on credit (leaving 4,000 due).
fn sample_rows(s: &Settings, payment_type: &str, credit: bool) -> Vec<Row> {
    let items = vec![SaleItem {
        name: "Sample item".into(),
        quantity: "2".into(),
        price: amount("2500", "2500.00"),
        total: amount("5000", "5000.00"),
    }];
    let t = SaleTotals {
        subtotal: amount("5000", "5000.00"),
        tax: None,
        discount: None,
        total: amount("5000", "5000.00"),
        received: if credit { amount("1000", "1000.00") } else { amount("10000", "10000.00") },
        change: if credit { amount("0", "0.00") } else { amount("5000", "5000.00") },
        balance_due: if credit { Some(amount("4000", "4000.00")) } else { None },
    };
    sale_receipt(s, "PREVIEW-001", payment_type, &items, &t)
}

#[test]
fn formatting_preserves_amount_and_foreign_currency_cents() {
    // the till rounds the amounts (2500.0, 2500.25, -1234.5, 0.0) to these texts
    assert_eq!(Currency::Kyats.format("2500"), "2,500 Ks");
    assert_eq!(Currency::Dollar.format("2500.25"), "2,500.25 $");
    assert_eq!(Currency::Baht.format("-1234.50"), "-1,234.50 B");
    assert_eq!(Currency::Dollar.format("0.00"), "0.00 $");
}

#[test]
fn printed_receipt_uses_explicit_currency_without_ui_context() {
    for (currency, symbol, amount) in [("Kyats (Ks)", "Ks", "5,000 Ks"), ("Dollar ($)", "$", "5,000.00 $"), ("Baht (B)", "B", "5,000.00 B")] {
        let s = settings(&[("currency", currency), ("currency_symbol", "Ks")]);
        let rows = sample_rows(&s, "Cash", false);
        assert!(rows.iter().any(|r| r.kind == "total" && r.right == amount));
        for row in rows.iter().filter(|r| r.kind == "total" || (r.kind == "pair" && r.text != "Payment method")) {
            assert!(row.right.ends_with(symbol), "{}", row.right);
        }
        if symbol != "Ks" {
            assert!(!rows.iter().any(|r| r.text.contains(" Ks") || r.right.contains(" Ks")));
        }
    }
}

#[test]
fn preview_uses_printer_lines_and_draft_values() {
    let mut s = settings(&[("shop_name", "Original")]);
    s.extend(&settings(&[("shop_name", "Shop <&>"), ("receipt_footer", "Thank you")]));
    let rows = sample_rows(&s, "Cash", false);
    assert_eq!(rows[0].text, "Shop <&>");
    assert_eq!(rows[0].kind, "title");
    assert!(rows.iter().any(|r| r.kind == "item" && r.text == "Sample item"));
    assert!(rows.iter().any(|r| r.kind == "total" && r.text == "TOTAL"));
    assert!(rows.iter().any(|r| r.text == "Payment method" && r.right == "Cash"));
    let credit_rows = sample_rows(&s, "Credit", true);
    assert!(credit_rows.iter().any(|r| r.text == "Payment method" && r.right == "Credit"));
    assert!(credit_rows.iter().any(|r| r.text == "Balance due"));
    assert_eq!(rows.last().unwrap().text, "Thank you");
    s.insert("receipt_footer".into(), String::new());
    assert!(!sample_rows(&s, "Cash", false).iter().any(|r| r.text == "Thank you"));
}

#[test]
fn child_components_refresh_when_currency_changes() {
    // 2500.25 as the till rounds it: 2500 whole, 2500.25 with cents
    let value = amount("2500", "2500.25");
    for (name, expected) in [("Dollar ($)", "2,500.25 $"), ("Baht (B)", "2,500.25 B"), ("Kyats (Ks)", "2,500 Ks")] {
        let s = settings(&[("currency", name)]);
        assert_eq!(format_ks(Currency::from_settings(&s), &value), expected);
    }
}
