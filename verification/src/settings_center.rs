//! The Settings Center: its pages, their titles, and the search over them.
use vstd::prelude::*;
use crate::appearance_colors::{field, field_key, valid, valid_color, FIELD_COUNT};
use crate::settings::Settings;
use crate::text::{
    chars_of, contains, lowercase, occurs, push_all, same_text, string_of, to_lowercase, to_uppercase,
    trim, trimmed, uppercase,
};

verus! {

/// A page of the Settings Center: its id, title and search keywords.
#[derive(Clone, Copy, Debug, PartialEq, Eq)]
pub struct SettingsNavItem {
    pub id: &'static str,
    pub title: &'static str,
    pub keywords: &'static str,
}

impl SettingsNavItem {
    pub open spec fn view(self) -> (Seq<char>, Seq<char>, Seq<char>) {
        (self.id@, self.title@, self.keywords@)
    }
}

/// The pages in menu order.
pub open spec fn nav_items() -> Seq<(Seq<char>, Seq<char>, Seq<char>)> {
    seq![
        ("updates"@, "App Updates"@, "version github update release"@),
        ("overview"@, "Overview"@, "status summary quick settings"@),
        ("payments"@, "Payment Types"@, "payment method cash credit mobile money"@),
        ("tax_discount"@, "Tax & Discount"@, "tax discount percentage fixed manual"@),
        ("appearance"@, "Appearance"@, "theme display touch mode"@),
        ("receipt"@, "Receipt"@, "receipt header footer branding shop name printer"@),
        ("regional"@, "Regional"@, "currency language kyats"@),
        ("printer"@, "Printer"@, "windows receipt local printer printing"@),
        ("database"@, "Database"@, "postgresql server host port connection"@),
        ("users"@, "Users"@, "user role admin cashier permission"@),
    ]
}

/// The pages of the Settings Center, in menu order.
pub fn settings_nav_items() -> (r: Vec<SettingsNavItem>)
    ensures
        r@.map_values(|i: SettingsNavItem| i.view()) == nav_items(),
{
    let mut v: Vec<SettingsNavItem> = Vec::new();
    v.push(SettingsNavItem { id: "updates", title: "App Updates", keywords: "version github update release" });
    v.push(SettingsNavItem { id: "overview", title: "Overview", keywords: "status summary quick settings" });
    v.push(SettingsNavItem { id: "payments", title: "Payment Types", keywords: "payment method cash credit mobile money" });
    v.push(SettingsNavItem { id: "tax_discount", title: "Tax & Discount", keywords: "tax discount percentage fixed manual" });
    v.push(SettingsNavItem { id: "appearance", title: "Appearance", keywords: "theme display touch mode" });
    v.push(SettingsNavItem { id: "receipt", title: "Receipt", keywords: "receipt header footer branding shop name printer" });
    v.push(SettingsNavItem { id: "regional", title: "Regional", keywords: "currency language kyats" });
    v.push(SettingsNavItem { id: "printer", title: "Printer", keywords: "windows receipt local printer printing" });
    v.push(SettingsNavItem { id: "database", title: "Database", keywords: "postgresql server host port connection" });
    v.push(SettingsNavItem { id: "users", title: "Users", keywords: "user role admin cashier permission" });
    proof {
        assert(v@.map_values(|i: SettingsNavItem| i.view()) =~= nav_items());
    }
    v
}

/// The title of the first page with this id.
pub open spec fn title_in(items: Seq<(Seq<char>, Seq<char>, Seq<char>)>, page: Seq<char>) -> Seq<char>
    decreases items.len(),
{
    if items.len() == 0 {
        "Settings"@
    } else if items[0].0 == page {
        items[0].1
    } else {
        title_in(items.drop_first(), page)
    }
}

/// The title of a page, `Settings` for an unknown one.
pub fn settings_page_title(page: &str) -> (r: &'static str)
    ensures
        r@ == title_in(nav_items(), page@),
{
    let items = settings_nav_items();
    let ghost all = items@.map_values(|i: SettingsNavItem| i.view());
    proof {
        assert(all.subrange(0, all.len() as int) =~= all);
    }
    let mut k: usize = 0;
    while k < items.len()
        invariant
            k <= items@.len(),
            all == items@.map_values(|i: SettingsNavItem| i.view()),
            all == nav_items(),
            title_in(all.subrange(k as int, all.len() as int), page@) == title_in(nav_items(), page@),
        decreases items@.len() - k,
    {
        let ghost rest = all.subrange(k as int, all.len() as int);
        proof {
            assert(rest.drop_first() =~= all.subrange(k + 1, all.len() as int));
            assert(rest[0] == items@[k as int].view());
        }
        if same_text(items[k].id, page) {
            return items[k].title;
        }
        k = k + 1;
    }
    proof {
        assert(all.subrange(k as int, all.len() as int) =~= Seq::<(Seq<char>, Seq<char>, Seq<char>)>::empty());
    }
    "Settings"
}

/// The subtitle of a page.
pub open spec fn subtitle_of(page: Seq<char>) -> Seq<char> {
    if page == "overview"@ {
        "Quick summary for this Rust POS client."@
    } else if page == "payments"@ {
        "Configure sale payment options."@
    } else if page == "tax_discount"@ {
        "Discount and future tax behavior."@
    } else if page == "appearance"@ {
        "Display and workspace behavior."@
    } else if page == "receipt"@ {
        "Receipt output and print behavior."@
    } else if page == "regional"@ {
        "Currency and language display."@
    } else if page == "database"@ {
        "PostgreSQL connection used by this client."@
    } else if page == "users"@ {
        "Account and permission planning."@
    } else {
        "Settings Center"@
    }
}

/// The subtitle of a page, `Settings Center` for one without its own.
pub fn settings_page_subtitle(page: &str) -> (r: &'static str)
    ensures
        r@ == subtitle_of(page@),
{
    if same_text(page, "overview") {
        "Quick summary for this Rust POS client."
    } else if same_text(page, "payments") {
        "Configure sale payment options."
    } else if same_text(page, "tax_discount") {
        "Discount and future tax behavior."
    } else if same_text(page, "appearance") {
        "Display and workspace behavior."
    } else if same_text(page, "receipt") {
        "Receipt output and print behavior."
    } else if same_text(page, "regional") {
        "Currency and language display."
    } else if same_text(page, "database") {
        "PostgreSQL connection used by this client."
    } else if same_text(page, "users") {
        "Account and permission planning."
    } else {
        "Settings Center"
    }
}

/// A page is listed for a search (lower-cased and trimmed): every page for
/// an empty one, else those whose lower-cased title or keywords contain it.
pub open spec fn page_matches(item: (Seq<char>, Seq<char>, Seq<char>), query: Seq<char>) -> bool {
    query.len() == 0 || occurs(lowercase(item.1), query) || occurs(lowercase(item.2), query)
}

/// The pages listed for what was typed into the settings search, in menu order.
pub fn matching_pages(query: &str) -> (r: Vec<SettingsNavItem>)
    ensures
        r@.map_values(|i: SettingsNavItem| i.view()) == nav_items().filter(
            |item: (Seq<char>, Seq<char>, Seq<char>)| page_matches(item, lowercase(trimmed(query@))),
        ),
{
    let q = chars_of(to_lowercase(string_of(trim(chars_of(query).as_slice()).as_slice()).as_str()).as_str());
    let items = settings_nav_items();
    let ghost all = items@.map_values(|i: SettingsNavItem| i.view());
    let ghost pred = |item: (Seq<char>, Seq<char>, Seq<char>)| page_matches(item, q@);
    let mut out: Vec<SettingsNavItem> = Vec::new();
    let mut k: usize = 0;
    while k < items.len()
        invariant
            k <= items@.len(),
            all == items@.map_values(|i: SettingsNavItem| i.view()),
            pred == (|item: (Seq<char>, Seq<char>, Seq<char>)| page_matches(item, q@)),
            out@.map_values(|i: SettingsNavItem| i.view()) == all.subrange(0, k as int).filter(pred),
        decreases items@.len() - k,
    {
        let item = items[k];
        let keep = q.len() == 0 || contains(chars_of(to_lowercase(item.title).as_str()).as_slice(), q.as_slice())
            || contains(chars_of(to_lowercase(item.keywords).as_str()).as_slice(), q.as_slice());
        let ghost before = out@;
        if keep {
            out.push(item);
        }
        proof {
            let s = all.subrange(0, k + 1);
            assert(s.drop_last() =~= all.subrange(0, k as int));
            assert(s.last() == item.view());
            reveal_with_fuel(Seq::<_>::filter, 1);
            assert(keep == pred(item.view()));
            assert(out@.map_values(|i: SettingsNavItem| i.view()) =~= s.filter(pred));
        }
        k = k + 1;
    }
    proof {
        assert(all.subrange(0, k as int) =~= all);
    }
    out
}

/// A setting key as a label: each `_` becomes a space and each word starts
/// with its upper-case letter.
pub open spec fn humanized(key: Seq<char>, k: int) -> Seq<char>
    decreases k,
{
    if k <= 0 {
        Seq::empty()
    } else {
        humanized(key, k - 1) + (if key[k - 1] == '_' {
            seq![' ']
        } else if k - 1 == 0 || key[k - 2] == '_' {
            uppercase(key[k - 1])
        } else {
            seq![key[k - 1]]
        })
    }
}

/// A setting key written as a label (`receipt_paper_size` reads
/// `Receipt Paper Size`).
pub fn humanize_setting_key(key: &str) -> (r: String)
    ensures
        r@ == humanized(key@, key@.len() as int),
{
    let v = chars_of(key);
    let mut out: Vec<char> = Vec::new();
    let mut i: usize = 0;
    while i < v.len()
        invariant
            i <= v@.len(),
            v@ == key@,
            out@ == humanized(key@, i as int),
        decreases v@.len() - i,
    {
        let c = v[i];
        if c == '_' {
            out.push(' ');
        } else if i == 0 || v[i - 1] == '_' {
            let up = to_uppercase(c);
            push_all(&mut out, up.as_slice());
        } else {
            out.push(c);
        }
        proof {
            assert(out@ =~= humanized(key@, i + 1));
        }
        i = i + 1;
    }
    string_of(out.as_slice())
}

/// Why a settings page refuses to save its changes.
#[derive(Debug, PartialEq, Eq)]
pub enum SettingsRejection {
    /// A colour setting is not in the form `#rrggbb`.
    InvalidColor,
}

/// The symbol stored beside a currency chosen on the Regional page.
pub open spec fn chosen_symbol(name: Seq<char>) -> Option<Seq<char>> {
    if name == "Kyats (Ks)"@ {
        Some("Ks"@)
    } else if name == "Dollar ($)"@ {
        Some("$"@)
    } else if name == "Baht (B)"@ {
        Some("B"@)
    } else {
        None
    }
}

/// The changes a page saves: the edited values of the settings the page
/// shows, and on the Regional page the symbol of a chosen currency.
pub open spec fn page_changes(
    shown: Seq<Seq<char>>,
    draft: Map<Seq<char>, Seq<char>>,
    regional: bool,
) -> Map<Seq<char>, Seq<char>> {
    let kept = draft.restrict(shown.to_set());
    if regional && kept.contains_key("currency"@) && chosen_symbol(kept["currency"@]) is Some {
        kept.insert("currency_symbol"@, chosen_symbol(kept["currency"@])->Some_0)
    } else {
        kept
    }
}

/// The keys of the rows a page shows.
pub open spec fn row_keys(rows: Seq<(String, String)>) -> Seq<Seq<char>> {
    rows.map_values(|p: (String, String)| p.0@)
}

/// Some colour setting among the changes is not a valid colour.
pub open spec fn bad_color(m: Map<Seq<char>, Seq<char>>) -> bool {
    exists|i: int|
        0 <= i < FIELD_COUNT && m.contains_key(#[trigger] field_key(i)) && !valid_color(m[field_key(i)])
}

fn symbol_for(name: &str) -> (r: Option<&'static str>)
    ensures
        match r {
            Some(s) => chosen_symbol(name@) == Some(s@),
            None => chosen_symbol(name@) is None,
        },
{
    if same_text(name, "Kyats (Ks)") {
        Some("Ks")
    } else if same_text(name, "Dollar ($)") {
        Some("$")
    } else if same_text(name, "Baht (B)") {
        Some("B")
    } else {
        None
    }
}

/// The changes a settings page saves from its draft: only the settings the
/// page shows (`rows`), with the chosen currency's symbol on the Regional
/// page; refused when a colour among them is not valid. Numeric settings are
/// checked by the caller, which reads them as floating point.
pub fn page_settings_changes(rows: &[(String, String)], draft: &Settings, regional: bool) -> (r: Result<
    Settings,
    SettingsRejection,
>)
    ensures
        match r {
            Ok(s) => !bad_color(page_changes(row_keys(rows@), draft@, regional))
                && s@ == page_changes(row_keys(rows@), draft@, regional),
            Err(e) => e == SettingsRejection::InvalidColor && bad_color(
                page_changes(row_keys(rows@), draft@, regional),
            ),
        },
{
    let ghost shown = row_keys(rows@);
    let mut keys: Vec<&str> = Vec::new();
    let mut i: usize = 0;
    while i < rows.len()
        invariant
            i <= rows@.len(),
            shown == row_keys(rows@),
            keys@.len() == i,
            crate::text::strs_view(keys@) =~= shown.take(i as int),
        decreases rows@.len() - i,
    {
        let k: &str = rows[i].0.as_str();
        keys.push(k);
        proof {
            assert(shown[i as int] == rows@[i as int].0@);
            assert(keys@[i as int]@ == shown[i as int]);
            assert(crate::text::strs_view(keys@) =~= shown.take(i + 1));
        }
        i = i + 1;
    }
    proof {
        assert(shown.take(rows@.len() as int) =~= shown);
    }
    let mut changes = draft.filtered(keys.as_slice(), true);
    let ghost kept = changes@;
    if regional {
        let symbol = match changes.get("currency") {
            Some(name) => symbol_for(name.as_str()),
            None => None,
        };
        match symbol {
            Some(s) => changes.insert("currency_symbol".to_owned(), s.to_owned()),
            None => {},
        }
    }
    proof {
        assert(changes@ =~= page_changes(shown, draft@, regional));
    }
    let mut f: usize = 0;
    while f < FIELD_COUNT
        invariant
            f <= FIELD_COUNT,
            shown == row_keys(rows@),
            changes@ == page_changes(shown, draft@, regional),
            forall|j: int|
                0 <= j < f ==> !(changes@.contains_key(#[trigger] field_key(j)) && !valid_color(changes@[field_key(j)])),
        decreases FIELD_COUNT - f,
    {
        let (key, _, _) = field(f);
        match changes.get(key) {
            Some(v) => if !valid(v.as_str()) {
                proof {
                    assert(changes@.contains_key(field_key(f as int)) && !valid_color(changes@[field_key(f as int)]));
                    assert(bad_color(changes@));
                }
                return Err(SettingsRejection::InvalidColor);
            },
            None => {},
        }
        f = f + 1;
    }
    Ok(changes)
}

} // verus!
