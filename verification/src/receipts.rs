//! The receipts list: dates typed into its filters and which receipts each
//! tab and search shows.
use vstd::prelude::*;
use chrono::Datelike;
use crate::text::{
    blank, chars_of, lowercase, occurs, string_of, to_lowercase, trim, trimmed,
};

verus! {

/// A calendar date.
#[derive(Clone, Copy, Debug, PartialEq, Eq)]
pub struct ReceiptDate {
    pub year: i32,
    pub month: u32,
    pub day: u32,
}

/// Calendar order.
pub open spec fn date_le(a: ReceiptDate, b: ReceiptDate) -> bool {
    a.year < b.year || (a.year == b.year && (a.month < b.month || (a.month == b.month && a.day <= b.day)))
}

pub fn date_not_after(a: ReceiptDate, b: ReceiptDate) -> (r: bool)
    ensures
        r == date_le(a, b),
{
    a.year < b.year || (a.year == b.year && (a.month < b.month || (a.month == b.month && a.day <= b.day)))
}

/// The date `chrono` reads from a text in a format, as year, month and day.
pub uninterp spec fn chrono_ymd(s: Seq<char>, format: Seq<char>) -> Option<(i32, u32, u32)>;

/// `chrono::NaiveDate::parse_from_str`, the date given as year, month and
/// day. Claims: the result is the named reading of the text in the format;
/// a date it reads has a month from 1 to 12 and a day from 1 to 31.
#[verifier::external_body]
fn parse_ymd(text: &str, format: &str) -> (r: Option<(i32, u32, u32)>)
    ensures
        r == chrono_ymd(text@, format@),
        r matches Some(d) ==> 1 <= d.1 <= 12 && 1 <= d.2 <= 31,
{
    chrono::NaiveDate::parse_from_str(text, format).ok().map(|d| (d.year(), d.month(), d.day()))
}

/// The date a filter field holds, if it holds one.
pub open spec fn date_of(s: Seq<char>) -> Option<ReceiptDate> {
    match chrono_ymd(s, "%Y-%m-%d"@) {
        Some(d) => Some(ReceiptDate { year: d.0, month: d.1, day: d.2 }),
        None => None,
    }
}

/// The date typed into a receipts filter (`YYYY-MM-DD`).
pub fn parse_receipt_date(value: &str) -> (r: Option<ReceiptDate>)
    ensures
        r == date_of(value@),
{
    match parse_ymd(value, "%Y-%m-%d") {
        Some((y, m, d)) => Some(ReceiptDate { year: y, month: m, day: d }),
        None => None,
    }
}

/// What the receipts list reads of a receipt: its number, customer, payment
/// type and status when known, the day it was made, and whether it has a
/// discount.
pub struct ReceiptSummary {
    pub invoice_no: Option<String>,
    pub customer_name: Option<String>,
    pub payment_type: Option<String>,
    pub status: Option<String>,
    pub created_on: Option<ReceiptDate>,
    pub discounted: bool,
}

pub open spec fn text_or_empty(s: Option<String>) -> Seq<char> {
    match s {
        Some(t) => t@,
        None => Seq::empty(),
    }
}

/// A receipt made within the dates (each bound optional; a receipt without
/// a date always matches).
pub open spec fn in_dates(r: ReceiptSummary, from: Option<ReceiptDate>, to: Option<ReceiptDate>) -> bool {
    match r.created_on {
        None => true,
        Some(d) => (match from {
            Some(f) => date_le(f, d),
            None => true,
        }) && (match to {
            Some(t) => date_le(d, t),
            None => true,
        }),
    }
}

/// A receipt belongs to a tab: `refunded`, `discounted`, `credit`, and
/// otherwise every receipt that is not refunded.
pub open spec fn in_tab(r: ReceiptSummary, tab: Seq<char>) -> bool {
    let status = lowercase(text_or_empty(r.status));
    if tab == "refunded"@ {
        status == "refunded"@
    } else if tab == "discounted"@ {
        r.discounted
    } else if tab == "credit"@ {
        lowercase(text_or_empty(r.payment_type)) == "credit"@
    } else {
        status != "refunded"@
    }
}

/// A receipt matches the (lower-cased, trimmed) search: it is empty, or it
/// occurs in the lower-cased invoice number, customer or payment type.
pub open spec fn in_search(r: ReceiptSummary, search: Seq<char>) -> bool {
    search.len() == 0 || occurs(lowercase(text_or_empty(r.invoice_no)), search) || occurs(
        lowercase(text_or_empty(r.customer_name)),
        search,
    ) || occurs(lowercase(text_or_empty(r.payment_type)), search)
}

/// A receipt shown for these filters.
pub open spec fn shown(
    r: ReceiptSummary,
    search: Seq<char>,
    tab: Seq<char>,
    from: Seq<char>,
    to: Seq<char>,
) -> bool {
    in_dates(r, date_of(from), date_of(to)) && in_tab(r, tab) && in_search(r, lowercase(trimmed(search)))
}

fn lower_of(s: &Option<String>) -> (r: Vec<char>)
    ensures
        r@ == lowercase(text_or_empty(*s)),
{
    match s {
        Some(t) => chars_of(to_lowercase(t.as_str()).as_str()),
        None => {
            let e = String::new();
            chars_of(to_lowercase(e.as_str()).as_str())
        },
    }
}

fn shows(
    r: &ReceiptSummary,
    search: &[char],
    tab: &str,
    from: Option<ReceiptDate>,
    to: Option<ReceiptDate>,
) -> (b: bool)
    ensures
        b == (in_dates(*r, from, to) && in_tab(*r, tab@) && in_search(*r, search@)),
{
    let dates = match r.created_on {
        None => true,
        Some(d) => (match from {
            Some(f) => date_not_after(f, d),
            None => true,
        }) && (match to {
            Some(t) => date_not_after(d, t),
            None => true,
        }),
    };
    if !dates {
        return false;
    }
    let status = lower_of(&r.status);
    let payment = lower_of(&r.payment_type);
    let refunded = chars_of("refunded");
    let is_refunded = crate::text::matches_at(status.as_slice(), refunded.as_slice(), 0) && status.len()
        == refunded.len();
    proof {
        if status@ == "refunded"@ {
            assert(status@.subrange(0, refunded@.len() as int) =~= refunded@);
        }
        if is_refunded {
            assert(status@ =~= refunded@);
        }
    }
    let tab_ok = if crate::text::same_text(tab, "refunded") {
        is_refunded
    } else if crate::text::same_text(tab, "discounted") {
        r.discounted
    } else if crate::text::same_text(tab, "credit") {
        let credit = chars_of("credit");
        let c = crate::text::matches_at(payment.as_slice(), credit.as_slice(), 0) && payment.len()
            == credit.len();
        proof {
            if payment@ == "credit"@ {
                assert(payment@.subrange(0, credit@.len() as int) =~= credit@);
            }
            if c {
                assert(payment@ =~= credit@);
            }
        }
        c
    } else {
        !is_refunded
    };
    if !tab_ok {
        return false;
    }
    if search.len() == 0 {
        return true;
    }
    let invoice = lower_of(&r.invoice_no);
    let customer = lower_of(&r.customer_name);
    crate::text::contains(invoice.as_slice(), search) || crate::text::contains(customer.as_slice(), search)
        || crate::text::contains(payment.as_slice(), search)
}

/// The positions of the receipts shown for a search, a tab and a date range,
/// in list order.
pub fn filter_receipts(receipts: &[ReceiptSummary], search: &str, active_tab: &str, from_date: &str, to_date: &str) -> (r:
    Vec<usize>)
    ensures
        forall|k: int| 0 <= k < r@.len() ==> (#[trigger] r@[k]) < receipts@.len(),
        forall|a: int, b: int| 0 <= a < b < r@.len() ==> (#[trigger] r@[a]) < (#[trigger] r@[b]),
        forall|k: int| 0 <= k < r@.len() ==> shown(receipts@[#[trigger] r@[k] as int], search@, active_tab@, from_date@, to_date@),
        forall|i: int| 0 <= i < receipts@.len() && shown(#[trigger] receipts@[i], search@, active_tab@, from_date@, to_date@) ==> r@.contains(i as usize),
{
    let trimmed_search = string_of(trim(chars_of(search).as_slice()).as_slice());
    let needle = chars_of(to_lowercase(trimmed_search.as_str()).as_str());
    let from = parse_receipt_date(from_date);
    let to = parse_receipt_date(to_date);
    let mut out: Vec<usize> = Vec::new();
    let mut i: usize = 0;
    while i < receipts.len()
        invariant
            i <= receipts@.len(),
            needle@ == lowercase(trimmed(search@)),
            from == date_of(from_date@),
            to == date_of(to_date@),
            forall|k: int| 0 <= k < out@.len() ==> (#[trigger] out@[k]) < i,
            forall|a: int, b: int| 0 <= a < b < out@.len() ==> (#[trigger] out@[a]) < (#[trigger] out@[b]),
            forall|k: int| 0 <= k < out@.len() ==> shown(receipts@[#[trigger] out@[k] as int], search@, active_tab@, from_date@, to_date@),
            forall|j: int| 0 <= j < i && shown(#[trigger] receipts@[j], search@, active_tab@, from_date@, to_date@) ==> out@.contains(j as usize),
        decreases receipts@.len() - i,
    {
        if shows(&receipts[i], needle.as_slice(), active_tab, from, to) {
            let ghost before = out@;
            out.push(i);
            proof {
                assert forall|j: int| 0 <= j < i + 1 && shown(#[trigger] receipts@[j], search@, active_tab@, from_date@, to_date@) implies out@.contains(j as usize) by {
                    if j < i {
                        let k = choose|k: int| 0 <= k < before.len() && before[k] == j as usize;
                        assert(out@[k] == j as usize);
                    } else {
                        assert(out@[before.len() as int] == i);
                    }
                }
            }
        }
        i = i + 1;
    }
    out
}

/// A date as one number, year then month then day: for months up to 12 and
/// days up to 31, later days have larger numbers.
pub open spec fn day_number(d: ReceiptDate) -> int {
    d.year * 10000 + d.month * 100 + d.day
}

/// A month from 1 to 12 and a day from 1 to 31.
pub open spec fn plausible_date(d: ReceiptDate) -> bool {
    1 <= d.month <= 12 && 1 <= d.day <= 31
}

proof fn lemma_day_number_order(a: ReceiptDate, b: ReceiptDate)
    requires
        plausible_date(a),
        plausible_date(b),
    ensures
        date_le(a, b) <==> day_number(a) <= day_number(b),
{
}

/// Both ends of the receipts date range are inclusive: a receipt made on day
/// `d` is within the range exactly when the from date, if set, is not after
/// `d` and `d` is not after the to date, if set. A receipt made on the to
/// date, or on a day that is both the from and the to date, is within it; a
/// receipt with no date always is.
pub proof fn law_date_range_inclusive(r: ReceiptSummary, from: Option<ReceiptDate>, to: Option<ReceiptDate>)
    requires
        r.created_on matches Some(d) ==> plausible_date(d),
        from matches Some(f) ==> plausible_date(f),
        to matches Some(t) ==> plausible_date(t),
    ensures
        r.created_on is None ==> in_dates(r, from, to),
        r.created_on matches Some(d) ==> (in_dates(r, from, to) <==> ((from matches Some(f) ==> day_number(f)
            <= day_number(d)) && (to matches Some(t) ==> day_number(d) <= day_number(t)))),
        r.created_on matches Some(d) ==> in_dates(r, Some(d), Some(d)),
{
    if let Some(d) = r.created_on {
        if let Some(f) = from {
            lemma_day_number_order(f, d);
        }
        if let Some(t) = to {
            lemma_day_number_order(d, t);
        }
        lemma_day_number_order(d, d);
    }
}

} // verus!
