//! The icons shown beside action labels.
use vstd::prelude::*;
use crate::text::{chars_of, has_prefix, lead, same_text, slice_of, starts_with, string_of, trim, trimmed};

verus! {

/// Number of leading `+` characters.
pub open spec fn pluses(s: Seq<char>) -> nat
    decreases s.len(),
{
    if s.len() > 0 && s[0] == '+' {
        1 + pluses(s.drop_first())
    } else {
        0
    }
}

/// `s` without its leading `+` characters (`trim_start_matches('+')`).
pub open spec fn without_pluses(s: Seq<char>) -> Seq<char> {
    s.subrange(pluses(s) as int, s.len() as int)
}

proof fn lemma_pluses_is(s: Seq<char>, k: int)
    requires
        0 <= k <= s.len(),
        forall|i: int| 0 <= i < k ==> #[trigger] s[i] == '+',
        k < s.len() ==> s[k] != '+',
    ensures
        pluses(s) == k,
    decreases s.len(),
{
    if k > 0 {
        assert forall|i: int| 0 <= i < k - 1 implies #[trigger] s.drop_first()[i] == '+' by {
            assert(s.drop_first()[i] == s[i + 1]);
        }
        lemma_pluses_is(s.drop_first(), k - 1);
    }
}

/// The characters of `v` after its leading `+` characters.
pub fn strip_pluses(v: &[char]) -> (r: Vec<char>)
    ensures
        r@ == without_pluses(v@),
{
    let mut i: usize = 0;
    while i < v.len() && v[i] == '+'
        invariant
            i <= v@.len(),
            forall|j: int| 0 <= j < i ==> #[trigger] v@[j] == '+',
        decreases v@.len() - i,
    {
        i = i + 1;
    }
    proof {
        lemma_pluses_is(v@, i as int);
    }
    slice_of(v, i, v.len())
}

/// The label an icon is chosen by: trimmed, leading `+` removed, trimmed again.
pub open spec fn icon_key(label: Seq<char>) -> Seq<char> {
    trimmed(without_pluses(trimmed(label)))
}

/// The icon for a label's key.
pub open spec fn icon_for(s: Seq<char>) -> Option<Seq<char>> {
    if s == "Dashboard"@ {
        Some("dashboard"@)
    } else if s == "Sales"@ {
        Some("point_of_sale"@)
    } else if s == "Receipts"@ {
        Some("receipt"@)
    } else if s == "Products"@ {
        Some("products"@)
    } else if s == "Inventory"@ {
        Some("inventory"@)
    } else if s == "Categories"@ {
        Some("category"@)
    } else if s == "Locations"@ {
        Some("location_on"@)
    } else if s == "Customers"@ {
        Some("person"@)
    } else if s == "Employees"@ {
        Some("groups"@)
    } else if s == "Suppliers"@ {
        Some("supplier"@)
    } else if s == "Expenses"@ {
        Some("payments"@)
    } else if s == "Sale Summary"@ {
        Some("analytics"@)
    } else if s == "Service Order"@ || s == "Service Orders"@ {
        Some("orders"@)
    } else if s == "Settings Center"@ {
        Some("settings"@)
    } else if s == "Sign out"@ {
        Some("logout"@)
    } else if s == "Sign in"@ {
        Some("login"@)
    } else if s == "Refresh"@ {
        Some("refresh"@)
    } else if s == "Search"@ || s == "Apply filters"@ {
        Some("search"@)
    } else if s == "Reset"@ || s == "Reverse"@ {
        Some("undo"@)
    } else if s == "Edit"@ {
        Some("edit"@)
    } else if s == "Cancel"@ {
        Some("cancel"@)
    } else if s == "Close"@ || s == "×"@ || s == "✕"@ {
        Some("close"@)
    } else if s == "Print Receipt"@ || s == "Print"@ {
        Some("print"@)
    } else if s == "Export Excel"@ {
        Some("file_export"@)
    } else if s == "View Movements"@ || s == "View ledger"@ || s == "Ledger"@ {
        Some("history"@)
    } else if s == "Payment Collection"@ {
        Some("payments"@)
    } else if s == "Credit Sale"@ {
        Some("credit_card"@)
    } else if s == "Outstanding Report"@ {
        Some("analytics"@)
    } else if s == "Choose File"@ {
        Some("folder_open"@)
    } else if s == "Open Cashdrawer"@ {
        Some("payments"@)
    } else if s == "Show Customer Display"@ {
        Some("tv_displays"@)
    } else if s == "Sync Attendance"@ {
        Some("refresh"@)
    } else if s == "Test Connection"@ || s == "Test TCP Connection"@ {
        Some("check_circle"@)
    } else if s == "Check for Updates"@ {
        Some("refresh"@)
    } else if s == "Download & Install"@ {
        Some("download_done"@)
    } else if s == "Restart KAY POS"@ {
        Some("refresh"@)
    } else if s == "Save"@ {
        Some("save"@)
    } else if s == "New"@ {
        Some("add"@)
    } else if has_prefix(s, "Add "@) {
        Some("add"@)
    } else if has_prefix(s, "Save "@) {
        Some("save"@)
    } else if has_prefix(s, "Delete"@) {
        Some("delete"@)
    } else {
        None
    }
}

/// The icon shown beside an action label, if it has one.
pub fn for_label(label: &str) -> (r: Option<&'static str>)
    ensures
        match (r, icon_for(icon_key(label@))) {
            (Some(a), Some(b)) => a@ == b,
            (None, None) => true,
            _ => false,
        },
{
    let t = trim(chars_of(label).as_slice());
    let p = strip_pluses(t.as_slice());
    let v = trim(p.as_slice());
    let text = string_of(v.as_slice());
    let s = text.as_str();
    if same_text(s, "Dashboard") {
        Some("dashboard")
    } else if same_text(s, "Sales") {
        Some("point_of_sale")
    } else if same_text(s, "Receipts") {
        Some("receipt")
    } else if same_text(s, "Products") {
        Some("products")
    } else if same_text(s, "Inventory") {
        Some("inventory")
    } else if same_text(s, "Categories") {
        Some("category")
    } else if same_text(s, "Locations") {
        Some("location_on")
    } else if same_text(s, "Customers") {
        Some("person")
    } else if same_text(s, "Employees") {
        Some("groups")
    } else if same_text(s, "Suppliers") {
        Some("supplier")
    } else if same_text(s, "Expenses") {
        Some("payments")
    } else if same_text(s, "Sale Summary") {
        Some("analytics")
    } else if same_text(s, "Service Order") || same_text(s, "Service Orders") {
        Some("orders")
    } else if same_text(s, "Settings Center") {
        Some("settings")
    } else if same_text(s, "Sign out") {
        Some("logout")
    } else if same_text(s, "Sign in") {
        Some("login")
    } else if same_text(s, "Refresh") {
        Some("refresh")
    } else if same_text(s, "Search") || same_text(s, "Apply filters") {
        Some("search")
    } else if same_text(s, "Reset") || same_text(s, "Reverse") {
        Some("undo")
    } else if same_text(s, "Edit") {
        Some("edit")
    } else if same_text(s, "Cancel") {
        Some("cancel")
    } else if same_text(s, "Close") || same_text(s, "×") || same_text(s, "✕") {
        Some("close")
    } else if same_text(s, "Print Receipt") || same_text(s, "Print") {
        Some("print")
    } else if same_text(s, "Export Excel") {
        Some("file_export")
    } else if same_text(s, "View Movements") || same_text(s, "View ledger") || same_text(s, "Ledger") {
        Some("history")
    } else if same_text(s, "Payment Collection") {
        Some("payments")
    } else if same_text(s, "Credit Sale") {
        Some("credit_card")
    } else if same_text(s, "Outstanding Report") {
        Some("analytics")
    } else if same_text(s, "Choose File") {
        Some("folder_open")
    } else if same_text(s, "Open Cashdrawer") {
        Some("payments")
    } else if same_text(s, "Show Customer Display") {
        Some("tv_displays")
    } else if same_text(s, "Sync Attendance") {
        Some("refresh")
    } else if same_text(s, "Test Connection") || same_text(s, "Test TCP Connection") {
        Some("check_circle")
    } else if same_text(s, "Check for Updates") {
        Some("refresh")
    } else if same_text(s, "Download & Install") {
        Some("download_done")
    } else if same_text(s, "Restart KAY POS") {
        Some("refresh")
    } else if same_text(s, "Save") {
        Some("save")
    } else if same_text(s, "New") {
        Some("add")
    } else if starts_with(v.as_slice(), chars_of("Add ").as_slice()) {
        Some("add")
    } else if starts_with(v.as_slice(), chars_of("Save ").as_slice()) {
        Some("save")
    } else if starts_with(v.as_slice(), chars_of("Delete").as_slice()) {
        Some("delete")
    } else {
        None
    }
}

/// The text shown for a label: an "add" label loses its redundant leading
/// `+` (and the spaces around it), any other label is kept as written.
pub open spec fn shown_label(label: Seq<char>) -> Seq<char> {
    if icon_for(icon_key(label)) == Some("add"@) {
        crate::text::trimmed_start(without_pluses(trimmed(label)))
    } else {
        label
    }
}

/// The text shown for an action label.
pub fn display_label(label: &str) -> (r: String)
    ensures
        r@ == shown_label(label@),
{
    let is_add = match for_label(label) {
        Some(name) => same_text(name, "add"),
        None => false,
    };
    if is_add {
        let t = trim(chars_of(label).as_slice());
        let p = strip_pluses(t.as_slice());
        let start = crate::text::lead_index(p.as_slice());
        proof {
            crate::text::lemma_lead_bounds(p@);
        }
        string_of(slice_of(p.as_slice(), start, p.len()).as_slice())
    } else {
        label.to_owned()
    }
}

/// The icons the application carries, by name.
pub open spec fn icon_names() -> Seq<Seq<char>> {
    seq![
        "add"@,
        "edit"@,
        "delete"@,
        "save"@,
        "cancel"@,
        "close"@,
        "refresh"@,
        "search"@,
        "print"@,
        "file_export"@,
        "history"@,
        "undo"@,
        "logout"@,
        "login"@,
        "settings"@,
        "dashboard"@,
        "point_of_sale"@,
        "receipt"@,
        "products"@,
        "inventory"@,
        "category"@,
        "location_on"@,
        "person"@,
        "groups"@,
        "supplier"@,
        "payments"@,
        "credit_card"@,
        "analytics"@,
        "orders"@,
        "folder_open"@,
        "download_done"@,
        "upload_file"@,
        "tv_displays"@,
        "calendar"@,
        "check_circle"@,
        "visibility"@,
        "backup"@,
        "shopping_cart"@,
    ]
}

/// Whether `name` is one of the icons the application carries; any other
/// name (such as a path) has no icon.
pub fn icon_asset(name: &str) -> (r: bool)
    ensures
        r == icon_names().contains(name@),
{
    let names = ["add", "edit", "delete", "save", "cancel", "close", "refresh", "search", "print", "file_export", "history", "undo", "logout", "login", "settings", "dashboard", "point_of_sale", "receipt", "products", "inventory", "category", "location_on", "person", "groups", "supplier", "payments", "credit_card", "analytics", "orders", "folder_open", "download_done", "upload_file", "tv_displays", "calendar", "check_circle", "visibility", "backup", "shopping_cart"];
    proof {
        assert(crate::text::strs_view(names@) =~= icon_names());
    }
    crate::text::listed(&names, name)
}

/// Every icon a label is given is one the application carries.
pub proof fn law_label_icons_are_carried(label: Seq<char>)
    ensures
        icon_for(icon_key(label)) matches Some(n) ==> icon_names().contains(n),
{
    assert(icon_names()[0] == "add"@);
    assert(icon_names()[1] == "edit"@);
    assert(icon_names()[2] == "delete"@);
    assert(icon_names()[3] == "save"@);
    assert(icon_names()[4] == "cancel"@);
    assert(icon_names()[5] == "close"@);
    assert(icon_names()[6] == "refresh"@);
    assert(icon_names()[7] == "search"@);
    assert(icon_names()[8] == "print"@);
    assert(icon_names()[9] == "file_export"@);
    assert(icon_names()[10] == "history"@);
    assert(icon_names()[11] == "undo"@);
    assert(icon_names()[12] == "logout"@);
    assert(icon_names()[13] == "login"@);
    assert(icon_names()[14] == "settings"@);
    assert(icon_names()[15] == "dashboard"@);
    assert(icon_names()[16] == "point_of_sale"@);
    assert(icon_names()[17] == "receipt"@);
    assert(icon_names()[18] == "products"@);
    assert(icon_names()[19] == "inventory"@);
    assert(icon_names()[20] == "category"@);
    assert(icon_names()[21] == "location_on"@);
    assert(icon_names()[22] == "person"@);
    assert(icon_names()[23] == "groups"@);
    assert(icon_names()[24] == "supplier"@);
    assert(icon_names()[25] == "payments"@);
    assert(icon_names()[26] == "credit_card"@);
    assert(icon_names()[27] == "analytics"@);
    assert(icon_names()[28] == "orders"@);
    assert(icon_names()[29] == "folder_open"@);
    assert(icon_names()[30] == "download_done"@);
    assert(icon_names()[31] == "upload_file"@);
    assert(icon_names()[32] == "tv_displays"@);
    assert(icon_names()[33] == "calendar"@);
    assert(icon_names()[34] == "check_circle"@);
    assert(icon_names()[35] == "visibility"@);
    assert(icon_names()[36] == "backup"@);
    assert(icon_names()[37] == "shopping_cart"@);
}

} // verus!
