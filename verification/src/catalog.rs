//! Products as the catalogue shows them: how they are sold, their variants,
//! their colour tone and the labels of stock movements.
use vstd::prelude::*;
use crate::text::{
    blank, chars_of, ends_with, has_suffix, is_blank, lowercase, push_all, push_str, replace,
    replace_char, same_text, string_of, to_lowercase, trim, trimmed,
};

verus! {

/// How a product is sold, as compared: trimmed, `_` read as a space, lower case.
pub open spec fn sold_by_of(sold_by: Option<String>) -> Seq<char> {
    let raw = match sold_by {
        Some(s) => s@,
        None => "Each"@,
    };
    lowercase(replace_char(trimmed(raw), '_', " "@))
}

/// How a product is sold, in the form the catalogue compares.
pub fn sold_by_mode(sold_by: &Option<String>) -> (r: String)
    ensures
        r@ == sold_by_of(*sold_by),
{
    let raw: &str = match sold_by {
        Some(s) => s.as_str(),
        None => "Each",
    };
    let v = chars_of(raw);
    let t = trim(v.as_slice());
    let space = chars_of(" ");
    let replaced = replace(t.as_slice(), '_', space.as_slice());
    let text = string_of(replaced.as_slice());
    to_lowercase(text.as_str())
}

/// A service: sold by `service`, `services` or `... service`.
pub open spec fn service_mode(mode: Seq<char>) -> bool {
    mode == "service"@ || mode == "services"@ || has_suffix(mode, " service"@)
}

/// Sold in variants: `variant`, `variants` or `... variants`.
pub open spec fn variant_mode(mode: Seq<char>) -> bool {
    mode == "variant"@ || mode == "variants"@ || has_suffix(mode, " variants"@)
}

/// Whether a product with this selling mode is a service (no stock kept).
pub fn is_service_product(sold_by: &Option<String>) -> (r: bool)
    ensures
        r == service_mode(sold_by_of(*sold_by)),
{
    let mode = sold_by_mode(sold_by);
    let m = chars_of(mode.as_str());
    let suffix = chars_of(" service");
    same_text(mode.as_str(), "service") || same_text(mode.as_str(), "services") || ends_with(
        m.as_slice(),
        suffix.as_slice(),
    )
}

/// Whether a product with this selling mode is sold in variants.
pub fn is_variant_product(sold_by: &Option<String>) -> (r: bool)
    ensures
        r == variant_mode(sold_by_of(*sold_by)),
{
    let mode = sold_by_mode(sold_by);
    let m = chars_of(mode.as_str());
    let suffix = chars_of(" variants");
    same_text(mode.as_str(), "variant") || same_text(mode.as_str(), "variants") || ends_with(
        m.as_slice(),
        suffix.as_slice(),
    )
}

/// The kind shown for a product: `Service`, `Variants` or how it is sold.
pub open spec fn kind_of(sold_by: Option<String>) -> Seq<char> {
    if service_mode(sold_by_of(sold_by)) {
        "Service"@
    } else if variant_mode(sold_by_of(sold_by)) {
        "Variants"@
    } else {
        match sold_by {
            Some(s) => s@,
            None => "Each"@,
        }
    }
}

/// The kind shown for a product.
pub fn kind(sold_by: &Option<String>) -> (r: &str)
    ensures
        r@ == kind_of(*sold_by),
{
    if is_service_product(sold_by) {
        "Service"
    } else if is_variant_product(sold_by) {
        "Variants"
    } else {
        match sold_by {
            Some(s) => s.as_str(),
            None => "Each",
        }
    }
}

/// The parts of a variant label that are present and not blank.
pub open spec fn label_parts(color: Option<String>, size: Option<String>) -> Seq<Seq<char>> {
    let c = match color {
        Some(s) => if blank(s@) {
            Seq::<Seq<char>>::empty()
        } else {
            seq![s@]
        },
        None => Seq::empty(),
    };
    let z = match size {
        Some(s) => if blank(s@) {
            Seq::<Seq<char>>::empty()
        } else {
            seq![s@]
        },
        None => Seq::empty(),
    };
    c + z
}

/// A variant's label: colour and size joined by ` / `, blanks left out.
pub open spec fn variant_text(color: Option<String>, size: Option<String>) -> Seq<char> {
    let p = label_parts(color, size);
    if p.len() == 0 {
        Seq::empty()
    } else if p.len() == 1 {
        p[0]
    } else {
        p[0] + " / "@ + p[1]
    }
}

/// The label of a variant.
pub fn variant_label(color: &Option<String>, size: &Option<String>) -> (r: String)
    ensures
        r@ == variant_text(*color, *size),
{
    let c: Option<&String> = match color {
        Some(s) => if is_blank(s.as_str()) {
            None
        } else {
            Some(s)
        },
        None => None,
    };
    let z: Option<&String> = match size {
        Some(s) => if is_blank(s.as_str()) {
            None
        } else {
            Some(s)
        },
        None => None,
    };
    match (c, z) {
        (Some(a), Some(b)) => {
            let mut v = chars_of(a.as_str());
            push_str(&mut v, " / ");
            push_str(&mut v, b.as_str());
            proof {
                assert(label_parts(*color, *size) =~= seq![a@, b@]);
            }
            string_of(v.as_slice())
        },
        (Some(a), None) => {
            proof {
                assert(label_parts(*color, *size) =~= seq![a@]);
            }
            a.clone()
        },
        (None, Some(b)) => {
            proof {
                assert(label_parts(*color, *size) =~= seq![b@]);
            }
            b.clone()
        },
        (None, None) => {
            proof {
                assert(label_parts(*color, *size) =~= Seq::<Seq<char>>::empty());
            }
            String::new()
        },
    }
}

/// The hash of a category name that picks its tone.
pub open spec fn name_hash(bytes: Seq<u8>) -> usize
    decreases bytes.len(),
{
    if bytes.len() == 0 {
        0
    } else {
        vstd::wrapping::usize_specs::wrapping_add(
            vstd::wrapping::usize_specs::wrapping_mul(name_hash(bytes.drop_last()), 31),
            bytes.last() as usize,
        )
    }
}

/// Which of the six category colours a category gets: by its id when it has
/// one, else by the hash of its name's UTF-8 bytes.
pub open spec fn tone_of(id: Option<i32>, name: Seq<char>) -> usize {
    match id {
        Some(i) => ((if i < 0 {
            -i
        } else {
            i as int
        }) % 6) as usize,
        None => (name_hash(vstd::utf8::encode_utf8(name)) % 6) as usize,
    }
}

/// The colour tone of a category.
pub fn category_tone(id: Option<i32>, name: &str) -> (r: usize)
    ensures
        r == tone_of(id, name@),
        r < 6,
{
    if let Some(i) = id {
        let abs: u64 = if i < 0 {
            (-(i as i64)) as u64
        } else {
            i as u64
        };
        return (abs % 6) as usize;
    }
    let bytes = name.as_bytes();
    let mut hash: usize = 0;
    let mut k: usize = 0;
    while k < bytes.len()
        invariant
            k <= bytes@.len(),
            bytes@ == vstd::utf8::encode_utf8(name@),
            hash == name_hash(bytes@.subrange(0, k as int)),
        decreases bytes@.len() - k,
    {
        proof {
            let s = bytes@.subrange(0, k + 1);
            assert(s.drop_last() =~= bytes@.subrange(0, k as int));
        }
        hash = hash.wrapping_mul(31).wrapping_add(bytes[k] as usize);
        k = k + 1;
    }
    proof {
        assert(bytes@.subrange(0, k as int) =~= bytes@);
    }
    hash % 6
}

/// The label of a stock movement kind.
pub open spec fn movement_text(kind: Seq<char>) -> Seq<char> {
    if kind == "in"@ || kind == "stock_in"@ {
        "Stock In"@
    } else if kind == "out"@ || kind == "stock_out"@ {
        "Stock Out"@
    } else if kind == "adjustment"@ {
        "Adjustment"@
    } else if kind == "sale"@ {
        "Sale"@
    } else if kind == "refund"@ {
        "Refund"@
    } else {
        kind
    }
}

/// The label shown for a stock movement kind.
pub fn movement_label(kind: &str) -> (r: &str)
    ensures
        r@ == movement_text(kind@),
{
    if same_text(kind, "in") || same_text(kind, "stock_in") {
        "Stock In"
    } else if same_text(kind, "out") || same_text(kind, "stock_out") {
        "Stock Out"
    } else if same_text(kind, "adjustment") {
        "Adjustment"
    } else if same_text(kind, "sale") {
        "Sale"
    } else if same_text(kind, "refund") {
        "Refund"
    } else {
        kind
    }
}

/// A contact detail as listed: a dash when blank.
pub fn contact(value: &str) -> (r: &str)
    ensures
        r@ == (if blank(value@) {
            "—"@
        } else {
            value@
        }),
{
    if is_blank(value) {
        "—"
    } else {
        value
    }
}

/// What the sales screen searches in a product.
pub struct ProductSearch {
    pub category_id: Option<i32>,
    pub name: String,
    pub sku: Option<String>,
    pub barcode: Option<String>,
}

pub open spec fn or_empty(s: Option<String>) -> Seq<char> {
    match s {
        Some(t) => t@,
        None => Seq::empty(),
    }
}

/// A product is listed: it is in the selected category (if one is selected),
/// and the lower-cased query is empty or occurs in its lower-cased name, SKU
/// or barcode.
pub open spec fn product_listed(p: ProductSearch, category: Option<i32>, query: Seq<char>) -> bool {
    (match category {
        Some(c) => p.category_id == Some(c),
        None => true,
    }) && (query.len() == 0 || crate::text::occurs(lowercase(p.name@), query) || crate::text::occurs(
        lowercase(or_empty(p.sku)),
        query,
    ) || crate::text::occurs(lowercase(or_empty(p.barcode)), query))
}

fn lower_chars(s: &str) -> (r: Vec<char>)
    ensures
        r@ == lowercase(s@),
{
    chars_of(to_lowercase(s).as_str())
}

fn lower_opt(s: &Option<String>) -> (r: Vec<char>)
    ensures
        r@ == lowercase(or_empty(*s)),
{
    match s {
        Some(t) => lower_chars(t.as_str()),
        None => {
            let e = String::new();
            lower_chars(e.as_str())
        },
    }
}

/// Whether the sales screen lists a product.
pub fn product_matches(p: &ProductSearch, category: Option<i32>, query: &[char]) -> (r: bool)
    ensures
        r == product_listed(*p, category, query@),
{
    let in_category = match category {
        Some(c) => match p.category_id {
            Some(id) => id == c,
            None => false,
        },
        None => true,
    };
    if !in_category {
        return false;
    }
    if query.len() == 0 {
        return true;
    }
    crate::text::contains(lower_chars(p.name.as_str()).as_slice(), query) || crate::text::contains(
        lower_opt(&p.sku).as_slice(),
        query,
    ) || crate::text::contains(lower_opt(&p.barcode).as_slice(), query)
}

/// The positions of the products the sales screen lists, in catalogue order.
pub fn filter_products(products: &[ProductSearch], category: Option<i32>, query: &str) -> (r: Vec<usize>)
    ensures
        forall|k: int| 0 <= k < r@.len() ==> (#[trigger] r@[k]) < products@.len(),
        forall|a: int, b: int| 0 <= a < b < r@.len() ==> (#[trigger] r@[a]) < (#[trigger] r@[b]),
        forall|k: int| 0 <= k < r@.len() ==> product_listed(products@[#[trigger] r@[k] as int], category, lowercase(query@)),
        forall|i: int| 0 <= i < products@.len() && product_listed(#[trigger] products@[i], category, lowercase(query@)) ==> r@.contains(i as usize),
{
    let q = lower_chars(query);
    let mut out: Vec<usize> = Vec::new();
    let mut i: usize = 0;
    while i < products.len()
        invariant
            i <= products@.len(),
            q@ == lowercase(query@),
            forall|k: int| 0 <= k < out@.len() ==> (#[trigger] out@[k]) < i,
            forall|a: int, b: int| 0 <= a < b < out@.len() ==> (#[trigger] out@[a]) < (#[trigger] out@[b]),
            forall|k: int| 0 <= k < out@.len() ==> product_listed(products@[#[trigger] out@[k] as int], category, q@),
            forall|j: int| 0 <= j < i && product_listed(#[trigger] products@[j], category, q@) ==> out@.contains(j as usize),
        decreases products@.len() - i,
    {
        if product_matches(&products[i], category, q.as_slice()) {
            let ghost before = out@;
            out.push(i);
            proof {
                assert forall|j: int| 0 <= j < i + 1 && product_listed(#[trigger] products@[j], category, q@) implies out@.contains(j as usize) by {
                    if j < i {
                        let k = choose|k: int| 0 <= k < before.len() && before[k] == j as usize;
                        assert(out@[k] == j as usize);
                    } else {
                        assert(out@[before.len() as int] == i);
                    }
                }
            }
        }
        i = i + 1;
    }
    out
}

/// A category is listed for a lower-cased query: it is empty or occurs in
/// the lower-cased name.
pub open spec fn category_listed(name: Seq<char>, query: Seq<char>) -> bool {
    query.len() == 0 || crate::text::occurs(lowercase(name), query)
}

/// The positions of the categories listed for what was typed into the
/// category search, in order.
pub fn filter_categories(names: &[String], query: &str) -> (r: Vec<usize>)
    ensures
        forall|k: int| 0 <= k < r@.len() ==> (#[trigger] r@[k]) < names@.len(),
        forall|a: int, b: int| 0 <= a < b < r@.len() ==> (#[trigger] r@[a]) < (#[trigger] r@[b]),
        forall|k: int| 0 <= k < r@.len() ==> category_listed(names@[#[trigger] r@[k] as int]@, lowercase(query@)),
        forall|i: int| 0 <= i < names@.len() && category_listed(#[trigger] names@[i]@, lowercase(query@)) ==> r@.contains(i as usize),
{
    let q = lower_chars(query);
    let mut out: Vec<usize> = Vec::new();
    let mut i: usize = 0;
    while i < names.len()
        invariant
            i <= names@.len(),
            q@ == lowercase(query@),
            forall|k: int| 0 <= k < out@.len() ==> (#[trigger] out@[k]) < i,
            forall|a: int, b: int| 0 <= a < b < out@.len() ==> (#[trigger] out@[a]) < (#[trigger] out@[b]),
            forall|k: int| 0 <= k < out@.len() ==> category_listed(names@[#[trigger] out@[k] as int]@, q@),
            forall|j: int| 0 <= j < i && category_listed(#[trigger] names@[j]@, q@) ==> out@.contains(j as usize),
        decreases names@.len() - i,
    {
        let keep = q.len() == 0 || crate::text::contains(lower_chars(names[i].as_str()).as_slice(), q.as_slice());
        if keep {
            let ghost before = out@;
            out.push(i);
            proof {
                assert forall|j: int| 0 <= j < i + 1 && category_listed(#[trigger] names@[j]@, q@) implies out@.contains(j as usize) by {
                    if j < i {
                        let k = choose|k: int| 0 <= k < before.len() && before[k] == j as usize;
                        assert(out@[k] == j as usize);
                    } else {
                        assert(out@[before.len() as int] == i);
                    }
                }
            }
        }
        i = i + 1;
    }
    out
}

/// How many of the listed products are shown under the current limit, and
/// whether more can be loaded.
pub fn visible_products(listed: usize, limit: usize) -> (r: (usize, bool))
    ensures
        r.0 == (if listed < limit {
            listed
        } else {
            limit
        }),
        r.1 == (r.0 < listed),
{
    let shown = if listed < limit {
        listed
    } else {
        limit
    };
    (shown, shown < listed)
}

/// A supplier's details as its card lists them.
pub struct Supplier {
    pub name: String,
    pub company_name: String,
    pub contact_person: String,
    pub phone: String,
    pub email: String,
    pub address: String,
    pub tax_number: String,
    pub website: String,
    pub payment_terms: String,
    pub bank_account: String,
}

/// The labelled details of a supplier, in card order.
pub open spec fn supplier_rows(s: Supplier) -> Seq<(Seq<char>, Seq<char>)> {
    seq![
        ("Supplier name"@, s.name@),
        ("Company"@, s.company_name@),
        ("Contact person"@, s.contact_person@),
        ("Phone"@, s.phone@),
        ("Email"@, s.email@),
        ("Address"@, s.address@),
        ("Tax number"@, s.tax_number@),
        ("Website"@, s.website@),
        ("Payment terms"@, s.payment_terms@),
        ("Bank account"@, s.bank_account@),
    ]
}

/// The labelled details of a supplier.
pub fn fields(s: &Supplier) -> (r: Vec<(&'static str, String)>)
    ensures
        r@.map_values(|p: (&'static str, String)| (p.0@, p.1@)) == supplier_rows(*s),
{
    let mut v: Vec<(&'static str, String)> = Vec::new();
    v.push(("Supplier name", s.name.clone()));
    v.push(("Company", s.company_name.clone()));
    v.push(("Contact person", s.contact_person.clone()));
    v.push(("Phone", s.phone.clone()));
    v.push(("Email", s.email.clone()));
    v.push(("Address", s.address.clone()));
    v.push(("Tax number", s.tax_number.clone()));
    v.push(("Website", s.website.clone()));
    v.push(("Payment terms", s.payment_terms.clone()));
    v.push(("Bank account", s.bank_account.clone()));
    proof {
        assert(v@.map_values(|p: (&'static str, String)| (p.0@, p.1@)) =~= supplier_rows(*s));
    }
    v
}

} // verus!
