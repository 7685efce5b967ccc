//! The lines of a printed receipt, in the order the printer prints them.
use vstd::prelude::*;
use crate::number::{digits, int_text, i64_text};
use crate::settings::{setting_value, value_or, Settings};
use crate::regional::{amount_in, currency_of, format_ks, symbol_of, AmountText, Currency};
use crate::text::{blank, has_suffix, is_blank, push_all, push_str, string_of};

verus! {

/// One printed line: its kind (`title`, `center`, `rule`, `pair`, `item`,
/// `total`), its text and the text on its right.
#[derive(Clone, Debug, PartialEq)]
pub struct Row {
    pub kind: &'static str,
    pub text: String,
    pub right: String,
}

pub type RowView = (Seq<char>, Seq<char>, Seq<char>);

impl Row {
    pub open spec fn view(self) -> RowView {
        (self.kind@, self.text@, self.right@)
    }

    pub fn new(kind: &'static str, text: String, right: String) -> (r: Row)
        ensures
            r.kind == kind,
            r.text == text,
            r.right == right,
    {
        Row { kind, text, right }
    }
}

pub open spec fn rows_view(v: Seq<Row>) -> Seq<RowView> {
    v.map_values(|r: Row| r.view())
}

pub open spec fn rule_row() -> RowView {
    ("rule"@, Seq::empty(), Seq::empty())
}

/// Paper width in millimetres: 58 when chosen, 80 otherwise.
pub open spec fn paper_width(m: Map<Seq<char>, Seq<char>>) -> u16 {
    if m.contains_key("receipt_paper_size"@) && m["receipt_paper_size"@] == "58"@ {
        58
    } else {
        80
    }
}

/// The receipt paper width in millimetres.
pub fn paper_mm(settings: &Settings) -> (r: u16)
    ensures
        r == paper_width(settings@),
{
    match settings.get("receipt_paper_size") {
        Some(v) => if crate::text::same_text(v.as_str(), "58") {
            58
        } else {
            80
        },
        None => 80,
    }
}

/// A centred line for the setting under `key` when it is present and not blank.
pub open spec fn optional_center(m: Map<Seq<char>, Seq<char>>, key: Seq<char>) -> Seq<RowView> {
    if m.contains_key(key) && !blank(m[key]) {
        seq![("center"@, m[key], Seq::empty())]
    } else {
        Seq::empty()
    }
}

/// The shop's heading, the invoice and the payment method.
pub open spec fn header_rows(m: Map<Seq<char>, Seq<char>>, invoice: Seq<char>, payment: Seq<char>) -> Seq<
    RowView,
> {
    seq![("title"@, value_or(m, "shop_name"@, "KAY POS"@), Seq::empty())] + optional_center(
        m,
        "shop_phone"@,
    ) + optional_center(m, "shop_address"@) + optional_center(m, "receipt_header"@) + seq![
        rule_row(),
        ("center"@, invoice, Seq::empty()),
        ("pair"@, "Payment method"@, payment),
        rule_row(),
    ]
}

fn push_center(rows: &mut Vec<Row>, settings: &Settings, key: &str)
    ensures
        rows_view(final(rows)@) == rows_view(old(rows)@) + optional_center(settings@, key@),
{
    let ghost before = rows_view(rows@);
    if let Some(text) = settings.get(key) {
        if !is_blank(text.as_str()) {
            rows.push(Row::new("center", text.clone(), String::new()));
            proof {
                assert(rows_view(rows@) =~= before + optional_center(settings@, key@));
            }
            return;
        }
    }
    proof {
        assert(rows_view(rows@) =~= before + optional_center(settings@, key@));
    }
}

/// The heading lines of a receipt.
pub fn header(settings: &Settings, invoice: &str, payment_type: &str) -> (r: Vec<Row>)
    ensures
        rows_view(r@) == header_rows(settings@, invoice@, payment_type@),
{
    let mut rows: Vec<Row> = Vec::new();
    rows.push(Row::new("title", setting_value(settings, "shop_name", "KAY POS"), String::new()));
    proof {
        assert(rows_view(rows@) =~= seq![("title"@, value_or(settings@, "shop_name"@, "KAY POS"@), Seq::<char>::empty())]);
    }
    push_center(&mut rows, settings, "shop_phone");
    push_center(&mut rows, settings, "shop_address");
    push_center(&mut rows, settings, "receipt_header");
    let ghost before = rows_view(rows@);
    rows.push(Row::new("rule", String::new(), String::new()));
    rows.push(Row::new("center", invoice.to_owned(), String::new()));
    rows.push(Row::new("pair", "Payment method".to_owned(), payment_type.to_owned()));
    rows.push(Row::new("rule", String::new(), String::new()));
    proof {
        assert(rows_view(rows@) =~= header_rows(settings@, invoice@, payment_type@));
    }
    rows
}

/// The amounts at the foot of a receipt, already written as text; a line
/// that is not printed is `None` (tax and discount only when positive, the
/// balance only when less than the total was received).
pub struct TotalsText {
    pub subtotal: Option<String>,
    pub tax: Option<String>,
    pub discount: Option<String>,
    pub total: String,
    pub received: String,
    pub change: String,
    pub balance_due: Option<String>,
}

/// A `pair` line labelled `label` when the amount is present.
pub open spec fn optional_pair(label: Seq<char>, amount: Option<String>) -> Seq<RowView> {
    match amount {
        Some(a) => seq![("pair"@, label, a@)],
        None => Seq::empty(),
    }
}

/// The foot of a receipt: subtotal and tax, discount, total, received,
/// change, balance due, then the footer messages.
pub open spec fn totals_rows(t: TotalsText, m: Map<Seq<char>, Seq<char>>) -> Seq<RowView> {
    seq![rule_row()] + (match t.subtotal {
        Some(s) => seq![("pair"@, "Subtotal"@, s@)] + optional_pair("Tax"@, t.tax),
        None => Seq::empty(),
    }) + optional_pair("Discount"@, t.discount) + seq![
        ("total"@, "TOTAL"@, t.total@),
        ("pair"@, "Received"@, t.received@),
        ("pair"@, "Change"@, t.change@),
    ] + optional_pair("Balance due"@, t.balance_due) + seq![rule_row()] + optional_center(
        m,
        "receipt_footer"@,
    ) + optional_center(m, "shop_footer_message"@)
}

fn push_optional_pair(rows: &mut Vec<Row>, label: &'static str, amount: &Option<String>)
    ensures
        rows_view(final(rows)@) == rows_view(old(rows)@) + optional_pair(label@, *amount),
{
    let ghost before = rows_view(rows@);
    match amount {
        Some(a) => {
            rows.push(Row::new("pair", label.to_owned(), a.clone()));
        },
        None => {},
    }
    proof {
        assert(rows_view(rows@) =~= before + optional_pair(label@, *amount));
    }
}

/// Append the foot of a receipt.
pub fn totals(rows: &mut Vec<Row>, t: &TotalsText, settings: &Settings)
    ensures
        rows_view(final(rows)@) == rows_view(old(rows)@) + totals_rows(*t, settings@),
{
    let ghost start = rows_view(rows@);
    rows.push(Row::new("rule", String::new(), String::new()));
    let ghost a = rows_view(rows@);
    match &t.subtotal {
        Some(s) => {
            rows.push(Row::new("pair", "Subtotal".to_owned(), s.clone()));
            push_optional_pair(rows, "Tax", &t.tax);
        },
        None => {},
    }
    proof {
        assert(rows_view(rows@) =~= a + match t.subtotal {
            Some(s) => seq![("pair"@, "Subtotal"@, s@)] + optional_pair("Tax"@, t.tax),
            None => Seq::<RowView>::empty(),
        });
    }
    push_optional_pair(rows, "Discount", &t.discount);
    let ghost b = rows_view(rows@);
    rows.push(Row::new("total", "TOTAL".to_owned(), t.total.clone()));
    rows.push(Row::new("pair", "Received".to_owned(), t.received.clone()));
    rows.push(Row::new("pair", "Change".to_owned(), t.change.clone()));
    proof {
        assert(rows_view(rows@) =~= b + seq![
            ("total"@, "TOTAL"@, t.total@),
            ("pair"@, "Received"@, t.received@),
            ("pair"@, "Change"@, t.change@),
        ]);
    }
    push_optional_pair(rows, "Balance due", &t.balance_due);
    let ghost c = rows_view(rows@);
    rows.push(Row::new("rule", String::new(), String::new()));
    proof {
        assert(rows_view(rows@) =~= c + seq![rule_row()]);
    }
    push_center(rows, settings, "receipt_footer");
    push_center(rows, settings, "shop_footer_message");
    proof {
        assert(rows_view(rows@) =~= start + totals_rows(*t, settings@));
    }
}

/// One sold line, already written as text: its name, quantity, unit price
/// and line total.
pub struct ItemText {
    pub name: String,
    pub quantity: String,
    pub price: String,
    pub total: String,
}

/// The two lines of an item: its name, then `quantity x price` with the total.
pub open spec fn item_rows(name: Seq<char>, quantity: Seq<char>, price: Seq<char>, total: Seq<char>) -> Seq<
    RowView,
> {
    seq![("item"@, name, Seq::empty()), ("pair"@, quantity + " x "@ + price, total)]
}

/// The lines of the items, in order.
pub open spec fn items_rows(items: Seq<ItemText>) -> Seq<RowView>
    decreases items.len(),
{
    if items.len() == 0 {
        Seq::empty()
    } else {
        let last = items.last();
        items_rows(items.drop_last()) + item_rows(last.name@, last.quantity@, last.price@, last.total@)
    }
}

fn push_item(rows: &mut Vec<Row>, name: String, quantity: &str, price: &str, total: &str)
    ensures
        rows_view(final(rows)@) == rows_view(old(rows)@) + item_rows(name@, quantity@, price@, total@),
{
    let ghost before = rows_view(rows@);
    let ghost n = name@;
    rows.push(Row::new("item", name, String::new()));
    let mut line: Vec<char> = Vec::new();
    push_str(&mut line, quantity);
    push_str(&mut line, " x ");
    push_str(&mut line, price);
    rows.push(Row::new("pair", string_of(line.as_slice()), total.to_owned()));
    proof {
        assert(rows_view(rows@) =~= before + item_rows(n, quantity@, price@, total@));
    }
}

/// The lines of a sale just made: heading, items, foot.
pub open spec fn sale_rows(
    m: Map<Seq<char>, Seq<char>>,
    invoice: Seq<char>,
    payment: Seq<char>,
    items: Seq<ItemText>,
    t: TotalsText,
) -> Seq<RowView> {
    header_rows(m, invoice, payment) + items_rows(items) + totals_rows(t, m)
}

proof fn lemma_items_rows_len(items: Seq<ItemText>)
    ensures
        items_rows(items).len() == 2 * items.len(),
    decreases items.len(),
{
    if items.len() > 0 {
        lemma_items_rows_len(items.drop_last());
    }
}

proof fn lemma_items_rows_at(items: Seq<ItemText>, k: int)
    requires
        0 <= k < items.len(),
    ensures
        items_rows(items)[2 * k] == ("item"@, items[k].name@, Seq::<char>::empty()),
        items_rows(items)[2 * k + 1] == ("pair"@, items[k].quantity@ + " x "@ + items[k].price@, items[k].total@),
    decreases items.len(),
{
    lemma_items_rows_len(items.drop_last());
    if k < items.len() - 1 {
        lemma_items_rows_at(items.drop_last(), k);
    }
}

/// On the receipt of a sale just made, item `k` prints as two lines right
/// after the heading's lines and those of the items before it: its name,
/// then `quantity x unit price` with the line total on the right.
pub proof fn law_sale_item_lines(
    m: Map<Seq<char>, Seq<char>>,
    invoice: Seq<char>,
    payment: Seq<char>,
    items: Seq<ItemText>,
    t: TotalsText,
    k: int,
)
    requires
        0 <= k < items.len(),
    ensures
        ({
            let rows = sale_rows(m, invoice, payment, items, t);
            let h = header_rows(m, invoice, payment).len();
            &&& rows[h + 2 * k] == ("item"@, items[k].name@, Seq::<char>::empty())
            &&& rows[h + 2 * k + 1] == ("pair"@, items[k].quantity@ + " x "@ + items[k].price@, items[k].total@)
        }),
{
    lemma_items_rows_len(items);
    lemma_items_rows_at(items, k);
}

/// The receipt of a sale just made.
pub fn sale(settings: &Settings, invoice: &str, payment_type: &str, items: &[ItemText], t: &TotalsText) -> (r:
    Vec<Row>)
    ensures
        rows_view(r@) == sale_rows(settings@, invoice@, payment_type@, items@, *t),
{
    let mut rows = header(settings, invoice, payment_type);
    let ghost head = rows_view(rows@);
    let mut i: usize = 0;
    while i < items.len()
        invariant
            i <= items@.len(),
            rows_view(rows@) == head + items_rows(items@.subrange(0, i as int)),
        decreases items@.len() - i,
    {
        let item = &items[i];
        push_item(&mut rows, item.name.clone(), item.quantity.as_str(), item.price.as_str(), item.total.as_str());
        proof {
            let s = items@.subrange(0, i + 1);
            assert(s.drop_last() =~= items@.subrange(0, i as int));
        }
        i = i + 1;
    }
    proof {
        assert(items@.subrange(0, i as int) =~= items@);
    }
    totals(&mut rows, t, settings);
    proof {
        assert(rows_view(rows@) =~= sale_rows(settings@, invoice@, payment_type@, items@, *t));
    }
    rows
}

/// One line of a stored sale: its product name when known, and its
/// quantity, price and total already written as text.
pub struct DetailItem {
    pub product_name: Option<String>,
    pub quantity: String,
    pub price: String,
    pub total: String,
}

/// The name printed for a stored line.
pub open spec fn detail_name(i: DetailItem) -> Seq<char> {
    match i.product_name {
        Some(n) => n@,
        None => "Item"@,
    }
}

/// A stored sale's lines shown as printed items.
pub open spec fn detail_items(items: Seq<DetailItem>) -> Seq<RowView>
    decreases items.len(),
{
    if items.len() == 0 {
        Seq::empty()
    } else {
        let last = items.last();
        detail_items(items.drop_last()) + item_rows(detail_name(last), last.quantity@, last.price@, last.total@)
    }
}

/// The invoice line of a stored sale: its number, or `Sale #id`.
pub open spec fn detail_invoice(invoice_no: Option<String>, id: i32) -> Seq<char> {
    match invoice_no {
        Some(n) => n@,
        None => "Sale #"@ + int_text(id as int),
    }
}

/// The lines of a reprinted receipt.
pub open spec fn detail_rows(
    m: Map<Seq<char>, Seq<char>>,
    invoice_no: Option<String>,
    id: i32,
    payment_type: Option<String>,
    items: Seq<DetailItem>,
    t: TotalsText,
) -> Seq<RowView> {
    header_rows(
        m,
        detail_invoice(invoice_no, id),
        match payment_type {
            Some(p) => p@,
            None => "Unknown"@,
        },
    ) + detail_items(items) + totals_rows(t, m)
}

/// The invoice line of a stored sale.
pub fn invoice_label(invoice_no: &Option<String>, id: i32) -> (r: String)
    ensures
        r@ == detail_invoice(*invoice_no, id),
{
    match invoice_no {
        Some(n) => n.clone(),
        None => {
            let mut v: Vec<char> = Vec::new();
            push_str(&mut v, "Sale #");
            let d = i64_text(id as i64);
            push_all(&mut v, d.as_slice());
            string_of(v.as_slice())
        },
    }
}

/// The receipt of a stored sale, as reprinted.
pub fn detail(
    settings: &Settings,
    invoice_no: &Option<String>,
    id: i32,
    payment_type: &Option<String>,
    items: &[DetailItem],
    t: &TotalsText,
) -> (r: Vec<Row>)
    ensures
        rows_view(r@) == detail_rows(settings@, *invoice_no, id, *payment_type, items@, *t),
{
    let invoice = invoice_label(invoice_no, id);
    let payment: &str = match payment_type {
        Some(p) => p.as_str(),
        None => "Unknown",
    };
    let mut rows = header(settings, invoice.as_str(), payment);
    let ghost head = rows_view(rows@);
    let mut i: usize = 0;
    while i < items.len()
        invariant
            i <= items@.len(),
            rows_view(rows@) == head + detail_items(items@.subrange(0, i as int)),
        decreases items@.len() - i,
    {
        let item = &items[i];
        let name = match &item.product_name {
            Some(n) => n.clone(),
            None => "Item".to_owned(),
        };
        push_item(&mut rows, name, item.quantity.as_str(), item.price.as_str(), item.total.as_str());
        proof {
            let s = items@.subrange(0, i + 1);
            assert(s.drop_last() =~= items@.subrange(0, i as int));
        }
        i = i + 1;
    }
    proof {
        assert(items@.subrange(0, i as int) =~= items@);
    }
    totals(&mut rows, t, settings);
    proof {
        assert(rows_view(rows@) =~= detail_rows(settings@, *invoice_no, id, *payment_type, items@, *t));
    }
    rows
}

proof fn lemma_detail_items_len(items: Seq<DetailItem>)
    ensures
        detail_items(items).len() == 2 * items.len(),
    decreases items.len(),
{
    if items.len() > 0 {
        lemma_detail_items_len(items.drop_last());
    }
}

proof fn lemma_detail_items_at(items: Seq<DetailItem>, k: int)
    requires
        0 <= k < items.len(),
    ensures
        detail_items(items)[2 * k] == ("item"@, detail_name(items[k]), Seq::<char>::empty()),
        detail_items(items)[2 * k + 1] == ("pair"@, items[k].quantity@ + " x "@ + items[k].price@, items[k].total@),
    decreases items.len(),
{
    lemma_detail_items_len(items.drop_last());
    if k < items.len() - 1 {
        lemma_detail_items_at(items.drop_last(), k);
    }
}

/// On a reprinted receipt, stored item `k` prints as two lines right after
/// the heading's lines and those of the items before it: its name (`Item`
/// when unknown), then `quantity x unit price` with the line total on the
/// right.
pub proof fn law_detail_item_lines(
    m: Map<Seq<char>, Seq<char>>,
    invoice_no: Option<String>,
    id: i32,
    payment_type: Option<String>,
    items: Seq<DetailItem>,
    t: TotalsText,
    k: int,
)
    requires
        0 <= k < items.len(),
    ensures
        ({
            let rows = detail_rows(m, invoice_no, id, payment_type, items, t);
            let h = header_rows(
                m,
                detail_invoice(invoice_no, id),
                match payment_type {
                    Some(p) => p@,
                    None => "Unknown"@,
                },
            ).len();
            &&& rows[h + 2 * k] == (
                "item"@,
                match items[k].product_name {
                    Some(n) => n@,
                    None => "Item"@,
                },
                Seq::<char>::empty(),
            )
            &&& rows[h + 2 * k + 1] == ("pair"@, items[k].quantity@ + " x "@ + items[k].price@, items[k].total@)
        }),
{
    lemma_detail_items_len(items);
    lemma_detail_items_at(items, k);
}

/// One sold line: its name, its quantity as text, its unit price and its total.
pub struct SaleItem {
    pub name: String,
    pub quantity: String,
    pub price: AmountText,
    pub total: AmountText,
}

/// The amounts at the foot of a sale receipt; a line that is not printed is
/// `None` (tax and discount only when positive, the balance only when less
/// than the total was received).
pub struct SaleTotals {
    pub subtotal: AmountText,
    pub tax: Option<AmountText>,
    pub discount: Option<AmountText>,
    pub total: AmountText,
    pub received: AmountText,
    pub change: AmountText,
    pub balance_due: Option<AmountText>,
}

/// The lines of the sold items with their amounts in currency `c`.
pub open spec fn priced_items_rows(items: Seq<SaleItem>, c: Currency) -> Seq<RowView>
    decreases items.len(),
{
    if items.len() == 0 {
        Seq::empty()
    } else {
        let last = items.last();
        priced_items_rows(items.drop_last(), c) + item_rows(
            last.name@,
            last.quantity@,
            amount_in(last.price, c),
            amount_in(last.total, c),
        )
    }
}

/// A `pair` line labelled `label` with the amount in `c`, when it is present.
pub open spec fn priced_pair(label: Seq<char>, amount: Option<AmountText>, c: Currency) -> Seq<RowView> {
    match amount {
        Some(a) => seq![("pair"@, label, amount_in(a, c))],
        None => Seq::empty(),
    }
}

/// The foot of a sale receipt with its amounts in currency `c`.
pub open spec fn priced_totals_rows(t: SaleTotals, m: Map<Seq<char>, Seq<char>>, c: Currency) -> Seq<RowView> {
    seq![rule_row(), ("pair"@, "Subtotal"@, amount_in(t.subtotal, c))] + priced_pair("Tax"@, t.tax, c)
        + priced_pair("Discount"@, t.discount, c) + seq![
        ("total"@, "TOTAL"@, amount_in(t.total, c)),
        ("pair"@, "Received"@, amount_in(t.received, c)),
        ("pair"@, "Change"@, amount_in(t.change, c)),
    ] + priced_pair("Balance due"@, t.balance_due, c) + seq![rule_row()] + optional_center(
        m,
        "receipt_footer"@,
    ) + optional_center(m, "shop_footer_message"@)
}

/// The printed receipt of a sale: heading, items, foot, every amount in the
/// currency the settings choose.
pub open spec fn sale_receipt_rows(
    m: Map<Seq<char>, Seq<char>>,
    invoice: Seq<char>,
    payment: Seq<char>,
    items: Seq<SaleItem>,
    t: SaleTotals,
) -> Seq<RowView> {
    header_rows(m, invoice, payment) + priced_items_rows(items, currency_of(m)) + priced_totals_rows(
        t,
        m,
        currency_of(m),
    )
}

fn write_optional(c: Currency, a: &Option<AmountText>) -> (r: Option<String>)
    ensures
        match (r, *a) {
            (Some(x), Some(y)) => x@ == amount_in(y, c),
            (None, None) => true,
            _ => false,
        },
{
    match a {
        Some(x) => Some(format_ks(c, x)),
        None => None,
    }
}

proof fn lemma_items_priced(built: Seq<ItemText>, items: Seq<SaleItem>, c: Currency)
    requires
        built.len() == items.len(),
        forall|k: int|
            0 <= k < items.len() ==> {
                &&& (#[trigger] built[k]).name@ == items[k].name@
                &&& built[k].quantity@ == items[k].quantity@
                &&& built[k].price@ == amount_in(items[k].price, c)
                &&& built[k].total@ == amount_in(items[k].total, c)
            },
    ensures
        items_rows(built) == priced_items_rows(items, c),
    decreases items.len(),
{
    if items.len() > 0 {
        lemma_items_priced(built.drop_last(), items.drop_last(), c);
        assert(built.last() == built[built.len() - 1]);
    }
}

/// The receipt of a sale just made, its amounts written in the currency the
/// settings choose (`Currency::from_settings`).
pub fn sale_receipt(settings: &Settings, invoice: &str, payment_type: &str, items: &[SaleItem], t: &SaleTotals) -> (r:
    Vec<Row>)
    ensures
        rows_view(r@) == sale_receipt_rows(settings@, invoice@, payment_type@, items@, *t),
{
    let c = Currency::from_settings(settings);
    let mut built: Vec<ItemText> = Vec::new();
    let mut i: usize = 0;
    while i < items.len()
        invariant
            i <= items@.len(),
            c == currency_of(settings@),
            built@.len() == i,
            forall|k: int|
                0 <= k < i ==> {
                    &&& (#[trigger] built@[k]).name@ == items@[k].name@
                    &&& built@[k].quantity@ == items@[k].quantity@
                    &&& built@[k].price@ == amount_in(items@[k].price, c)
                    &&& built@[k].total@ == amount_in(items@[k].total, c)
                },
        decreases items@.len() - i,
    {
        let item = &items[i];
        built.push(
            ItemText {
                name: item.name.clone(),
                quantity: item.quantity.clone(),
                price: format_ks(c, &item.price),
                total: format_ks(c, &item.total),
            },
        );
        i = i + 1;
    }
    let foot = TotalsText {
        subtotal: Some(format_ks(c, &t.subtotal)),
        tax: write_optional(c, &t.tax),
        discount: write_optional(c, &t.discount),
        total: format_ks(c, &t.total),
        received: format_ks(c, &t.received),
        change: format_ks(c, &t.change),
        balance_due: write_optional(c, &t.balance_due),
    };
    let r = sale(settings, invoice, payment_type, built.as_slice(), &foot);
    proof {
        lemma_items_priced(built@, items@, c);
        assert(optional_pair("Tax"@, foot.tax) =~= priced_pair("Tax"@, t.tax, c));
        assert(optional_pair("Discount"@, foot.discount) =~= priced_pair("Discount"@, t.discount, c));
        assert(optional_pair("Balance due"@, foot.balance_due) =~= priced_pair("Balance due"@, t.balance_due, c));
        assert(totals_rows(foot, settings@) =~= priced_totals_rows(*t, settings@, c));
    }
    r
}

/// Every amount line (the total, and each `pair` but the payment method)
/// ends with a space and `symbol`.
pub open spec fn amounts_end_with(rows: Seq<RowView>, symbol: Seq<char>) -> bool {
    forall|k: int|
        0 <= k < rows.len() && ((#[trigger] rows[k]).0 == "total"@ || (rows[k].0 == "pair"@ && rows[k].1
            != "Payment method"@)) ==> has_suffix(rows[k].2, seq![' '] + symbol)
}

proof fn lemma_amount_suffix(a: AmountText, c: Currency)
    ensures
        has_suffix(amount_in(a, c), seq![' '] + symbol_of(c)),
{
    let t = amount_in(a, c);
    let tail = seq![' '] + symbol_of(c);
    assert(t.subrange(t.len() - tail.len(), t.len() as int) =~= tail);
}

proof fn lemma_amounts_concat(a: Seq<RowView>, b: Seq<RowView>, symbol: Seq<char>)
    requires
        amounts_end_with(a, symbol),
        amounts_end_with(b, symbol),
    ensures
        amounts_end_with(a + b, symbol),
{
    assert forall|k: int|
        0 <= k < (a + b).len() && ((#[trigger] (a + b)[k]).0 == "total"@ || ((a + b)[k].0 == "pair"@ && (a
            + b)[k].1 != "Payment method"@)) implies has_suffix((a + b)[k].2, seq![' '] + symbol) by {
        if k < a.len() {
            assert((a + b)[k] == a[k]);
        } else {
            assert((a + b)[k] == b[k - a.len()]);
        }
    }
}

/// The kinds of lines that carry no amount differ from `total` and `pair`.
proof fn lemma_kinds()
    ensures
        "title"@ != "total"@,
        "title"@ != "pair"@,
        "center"@ != "total"@,
        "center"@ != "pair"@,
        "rule"@ != "total"@,
        "rule"@ != "pair"@,
        "item"@ != "total"@,
        "item"@ != "pair"@,
        "pair"@ != "total"@,
{
    reveal_strlit("title");
    reveal_strlit("center");
    reveal_strlit("rule");
    reveal_strlit("item");
    reveal_strlit("total");
    reveal_strlit("pair");
    assert("title"@[1] != "total"@[1]);
    assert("title"@[0] != "pair"@[0]);
    assert("center"@[0] != "total"@[0]);
    assert("center"@[0] != "pair"@[0]);
    assert("rule"@[0] != "total"@[0]);
    assert("rule"@[0] != "pair"@[0]);
    assert("item"@[0] != "total"@[0]);
    assert("item"@[0] != "pair"@[0]);
    assert("pair"@[0] != "total"@[0]);
}

proof fn lemma_center_rows(m: Map<Seq<char>, Seq<char>>, key: Seq<char>, symbol: Seq<char>)
    ensures
        amounts_end_with(optional_center(m, key), symbol),
{
    lemma_kinds();
}

proof fn lemma_priced_pair(label: Seq<char>, amount: Option<AmountText>, c: Currency)
    ensures
        amounts_end_with(priced_pair(label, amount, c), symbol_of(c)),
{
    if let Some(a) = amount {
        lemma_amount_suffix(a, c);
    }
}

proof fn lemma_priced_items(items: Seq<SaleItem>, c: Currency)
    ensures
        amounts_end_with(priced_items_rows(items, c), symbol_of(c)),
    decreases items.len(),
{
    lemma_kinds();
    if items.len() > 0 {
        let last = items.last();
        lemma_priced_items(items.drop_last(), c);
        lemma_amount_suffix(last.total, c);
        lemma_amounts_concat(
            priced_items_rows(items.drop_last(), c),
            item_rows(last.name@, last.quantity@, amount_in(last.price, c), amount_in(last.total, c)),
            symbol_of(c),
        );
    }
}

/// Every amount on a sale receipt is written in the currency the settings
/// choose: each amount line ends with a space and that currency's symbol,
/// whatever the stored symbol says.
pub proof fn law_receipt_amounts_in_currency(
    m: Map<Seq<char>, Seq<char>>,
    invoice: Seq<char>,
    payment: Seq<char>,
    items: Seq<SaleItem>,
    t: SaleTotals,
)
    ensures
        amounts_end_with(sale_receipt_rows(m, invoice, payment, items, t), symbol_of(currency_of(m))),
{
    let c = currency_of(m);
    let sym = symbol_of(c);
    lemma_kinds();
    lemma_center_rows(m, "shop_phone"@, sym);
    lemma_center_rows(m, "shop_address"@, sym);
    lemma_center_rows(m, "receipt_header"@, sym);
    lemma_center_rows(m, "receipt_footer"@, sym);
    lemma_center_rows(m, "shop_footer_message"@, sym);
    let title = seq![("title"@, value_or(m, "shop_name"@, "KAY POS"@), Seq::<char>::empty())];
    let tail = seq![rule_row(), ("center"@, invoice, Seq::empty()), ("pair"@, "Payment method"@, payment), rule_row()];
    assert(amounts_end_with(title, sym));
    assert forall|k: int|
        0 <= k < tail.len() && ((#[trigger] tail[k]).0 == "total"@ || (tail[k].0 == "pair"@ && tail[k].1
            != "Payment method"@)) implies has_suffix(tail[k].2, seq![' '] + sym) by {
        if k == 0 || k == 3 {
            assert(tail[k].0 == "rule"@);
        } else if k == 1 {
            assert(tail[k].0 == "center"@);
        } else {
            assert(tail[k].1 == "Payment method"@);
        }
    }
    lemma_amounts_concat(title, optional_center(m, "shop_phone"@), sym);
    lemma_amounts_concat(title + optional_center(m, "shop_phone"@), optional_center(m, "shop_address"@), sym);
    lemma_amounts_concat(
        title + optional_center(m, "shop_phone"@) + optional_center(m, "shop_address"@),
        optional_center(m, "receipt_header"@),
        sym,
    );
    lemma_amounts_concat(
        title + optional_center(m, "shop_phone"@) + optional_center(m, "shop_address"@) + optional_center(
            m,
            "receipt_header"@,
        ),
        tail,
        sym,
    );
    let head = header_rows(m, invoice, payment);
    lemma_priced_items(items, c);
    lemma_amounts_concat(head, priced_items_rows(items, c), sym);
    // the foot
    lemma_amount_suffix(t.subtotal, c);
    lemma_amount_suffix(t.total, c);
    lemma_amount_suffix(t.received, c);
    lemma_amount_suffix(t.change, c);
    lemma_priced_pair("Tax"@, t.tax, c);
    lemma_priced_pair("Discount"@, t.discount, c);
    lemma_priced_pair("Balance due"@, t.balance_due, c);
    let f1 = seq![rule_row(), ("pair"@, "Subtotal"@, amount_in(t.subtotal, c))];
    let f2 = seq![
        ("total"@, "TOTAL"@, amount_in(t.total, c)),
        ("pair"@, "Received"@, amount_in(t.received, c)),
        ("pair"@, "Change"@, amount_in(t.change, c)),
    ];
    let f3 = seq![rule_row()];
    assert(amounts_end_with(f1, sym));
    assert(amounts_end_with(f2, sym));
    assert(amounts_end_with(f3, sym));
    let a1 = f1 + priced_pair("Tax"@, t.tax, c);
    lemma_amounts_concat(f1, priced_pair("Tax"@, t.tax, c), sym);
    let a2 = a1 + priced_pair("Discount"@, t.discount, c);
    lemma_amounts_concat(a1, priced_pair("Discount"@, t.discount, c), sym);
    let a3 = a2 + f2;
    lemma_amounts_concat(a2, f2, sym);
    let a4 = a3 + priced_pair("Balance due"@, t.balance_due, c);
    lemma_amounts_concat(a3, priced_pair("Balance due"@, t.balance_due, c), sym);
    let a5 = a4 + f3;
    lemma_amounts_concat(a4, f3, sym);
    let a6 = a5 + optional_center(m, "receipt_footer"@);
    lemma_amounts_concat(a5, optional_center(m, "receipt_footer"@), sym);
    lemma_amounts_concat(a6, optional_center(m, "shop_footer_message"@), sym);
    assert(priced_totals_rows(t, m, c) == a6 + optional_center(m, "shop_footer_message"@));
    lemma_amounts_concat(head + priced_items_rows(items, c), priced_totals_rows(t, m, c), sym);
}

proof fn lemma_priced_items_len(items: Seq<SaleItem>, c: Currency)
    ensures
        priced_items_rows(items, c).len() == 2 * items.len(),
    decreases items.len(),
{
    if items.len() > 0 {
        lemma_priced_items_len(items.drop_last(), c);
    }
}

proof fn lemma_priced_items_at(items: Seq<SaleItem>, c: Currency, k: int)
    requires
        0 <= k < items.len(),
    ensures
        priced_items_rows(items, c)[2 * k] == ("item"@, items[k].name@, Seq::<char>::empty()),
        priced_items_rows(items, c)[2 * k + 1] == (
            "pair"@,
            items[k].quantity@ + " x "@ + amount_in(items[k].price, c),
            amount_in(items[k].total, c),
        ),
    decreases items.len(),
{
    lemma_priced_items_len(items.drop_last(), c);
    if k < items.len() - 1 {
        lemma_priced_items_at(items.drop_last(), c, k);
    }
}

/// On a printed sale receipt, item `k` prints as two lines right after the
/// heading's lines and those of the items before it: its name, then
/// `quantity x unit price` with the line total on the right, both amounts
/// written in the currency the settings choose.
pub proof fn law_sale_receipt_item_lines(
    m: Map<Seq<char>, Seq<char>>,
    invoice: Seq<char>,
    payment: Seq<char>,
    items: Seq<SaleItem>,
    t: SaleTotals,
    k: int,
)
    requires
        0 <= k < items.len(),
    ensures
        ({
            let rows = sale_receipt_rows(m, invoice, payment, items, t);
            let h = header_rows(m, invoice, payment).len();
            &&& rows[h + 2 * k] == ("item"@, items[k].name@, Seq::<char>::empty())
            &&& rows[h + 2 * k + 1] == (
                "pair"@,
                items[k].quantity@ + " x "@ + amount_in(items[k].price, currency_of(m)),
                amount_in(items[k].total, currency_of(m)),
            )
        }),
{
    lemma_priced_items_len(items, currency_of(m));
    lemma_priced_items_at(items, currency_of(m), k);
}

} // verus!
