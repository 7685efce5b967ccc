use pos_desktop::listing::{
    current_page, date_part, distinct_sorted, filter_statement, filter_customers, filter_expenses, filter_prompts, filter_purchases, invalid_range,
    page_count, positions, search_hits, text_less, CustomerRow, ExpenseRow, PromptRow, PurchaseRow, StatementRow,
};

fn chars(s: &str) -> Vec<char> {
    s.chars().collect()
}

fn expense(no: &str, description: &str, category: &str, date: &str) -> ExpenseRow {
    ExpenseRow {
        expense_no: no.into(),
        description: description.into(),
        reference_no: String::new(),
        category: category.into(),
        expense_date: date.into(),
    }
}

#[test]
fn text_order_is_str_order() {
    for (a, b) in [("", "a"), ("a", "b"), ("ab", "abc"), ("2026-01-31", "2026-02-01"), ("Z", "a"), ("é", "z")] {
        assert_eq!(text_less(&chars(a), &chars(b)), a < b, "{a} {b}");
        assert_eq!(text_less(&chars(b), &chars(a)), b < a, "{b} {a}");
    }
    assert!(!text_less(&chars("same"), &chars("same")));
    assert!(invalid_range("2026-02-01", "2026-01-31"));
    assert!(!invalid_range("2026-01-01", "2026-01-31"));
    assert!(!invalid_range("", "2026-01-31"));
}

#[test]
fn pages_hold_at_least_one_page() {
    assert_eq!(page_count(0, 25), 1);
    assert_eq!(page_count(25, 25), 1);
    assert_eq!(page_count(26, 25), 2);
    assert_eq!(page_count(13, 12), 2);
    assert_eq!(page_count(usize::MAX, 2), usize::MAX / 2 + 1);
    assert_eq!(current_page(5, 2), 1);
    assert_eq!(current_page(0, 2), 0);
    assert_eq!(positions(&[false, true, true, false, true]), vec![1, 2, 4]);
}

#[test]
fn search_covers_the_joined_fields_in_lower_case() {
    assert!(search_hits(&["EXP1", "Rent", "", "Office"], &chars("rent")));
    assert!(search_hits(&["EXP1", "Rent"], &chars("1 re")));
    assert!(search_hits(&["EXP1", "Rent"], &[]));
    assert!(!search_hits(&["EXP1", "Rent"], &chars("water")));
}

#[test]
fn expenses_filter_by_category_dates_and_search() {
    let rows = vec![
        expense("EXP1", "Rent", "Office", "2026-01-05"),
        expense("EXP2", "Water bill", "Utilities", "2026-01-20"),
        expense("EXP3", "Printer paper", "Office", "2026-02-02"),
    ];
    assert_eq!(filter_expenses(&rows, "", "", "", ""), vec![0, 1, 2]);
    assert_eq!(filter_expenses(&rows, "Office", "", "", ""), vec![0, 2]);
    assert_eq!(filter_expenses(&rows, "", "2026-01-10", "2026-01-31", ""), vec![1]);
    assert_eq!(filter_expenses(&rows, "", "", "", "PAPER"), vec![2]);
    assert_eq!(filter_expenses(&rows, "", "", "", "office"), vec![0, 2]);
}

#[test]
fn customers_purchases_and_prompts_filter() {
    let customers = vec![
        CustomerRow { name: "Aye Aye".into(), phone: "0911".into(), email: String::new() },
        CustomerRow { name: "Mg Mg".into(), phone: "0922".into(), email: "mg@shop.test".into() },
    ];
    assert_eq!(filter_customers(&customers, "  MG "), vec![1]);
    assert_eq!(filter_customers(&customers, "09"), vec![0, 1]);
    let purchases = vec![
        PurchaseRow { number: "PO-1".into(), supplier: "Tea Co".into(), supplier_id: Some(3), status: "draft".into() },
        PurchaseRow { number: "PO-2".into(), supplier: "Rice Ltd".into(), supplier_id: None, status: "paid".into() },
    ];
    assert_eq!(filter_purchases(&purchases, 0, "", ""), vec![0, 1]);
    assert_eq!(filter_purchases(&purchases, 3, "", ""), vec![0]);
    assert_eq!(filter_purchases(&purchases, 0, "paid", ""), vec![1]);
    assert_eq!(filter_purchases(&purchases, 0, "", "rice"), vec![1]);
    let prompts = vec![
        PromptRow { title: "Repair".into(), category: "Phones".into(), prompt_text: "Screen".into(), active: 1 },
        PromptRow { title: "Old".into(), category: "Phones".into(), prompt_text: "".into(), active: 0 },
    ];
    assert_eq!(filter_prompts(&prompts, false, "", ""), vec![0]);
    assert_eq!(filter_prompts(&prompts, true, "Phones", ""), vec![0, 1]);
    assert_eq!(filter_prompts(&prompts, true, "", "screen"), vec![0]);
}

#[test]
fn filter_names_are_sorted_and_distinct() {
    let names: Vec<String> = ["Office", "", "Utilities", "Office", "Fuel"].iter().map(|s| s.to_string()).collect();
    assert_eq!(distinct_sorted(&names, false), vec!["", "Fuel", "Office", "Utilities"]);
    assert_eq!(distinct_sorted(&names, true), vec!["Fuel", "Office", "Utilities"]);
    assert!(distinct_sorted(&[], true).is_empty());
}

#[test]
fn statements_filter_outstanding_lines_by_date() {
    assert_eq!(date_part("2026-01-31 10:15:00").iter().collect::<String>(), "2026-01-31");
    assert_eq!(date_part("2026-1-5").iter().collect::<String>(), "2026-1-5");
    assert_eq!(date_part("2026-01-3é5").iter().collect::<String>(), "2026-01-3é5");
    let line = |date: &str, status: &str, has_balance: bool| StatementRow {
        date: date.into(),
        status: status.into(),
        has_balance,
    };
    let rows = vec![
        line("2026-01-05 09:00:00", "credit", true),
        line("2026-01-31 18:30:00", "credit", true),
        line("2026-02-01 08:00:00", "refunded", true),
        line("2026-01-20 12:00:00", "paid", false),
    ];
    assert_eq!(filter_statement(&rows, false, "", ""), vec![0, 1, 2, 3]);
    assert_eq!(filter_statement(&rows, true, "", ""), vec![0, 1]);
    // the date part is compared with the end of the range, so the whole last day counts
    assert_eq!(filter_statement(&rows, false, "2026-01-10", "2026-01-31"), vec![1, 3]);
    assert_eq!(filter_statement(&rows, true, "2026-01-10", "2026-01-31"), vec![1]);
}
