//! Held sales: which current products and variants a held cart resumes
//! with, which lines share one stock count, and the recovery journal that
//! keeps a hold request until its outcome is known.
use vstd::prelude::*;
use crate::catalog::{is_service_product, is_variant_product, service_mode, sold_by_of, variant_mode};
use crate::journal::same_bytes;
use crate::text::{eq_ignore_ascii_case, eq_ignore_case, lower_ascii_seq, same_text, chars_of};

verus! {

/// One row of a held cart, as far as resuming it reads it.
pub struct HeldRow {
    /// The row names a batch location (present and not null).
    pub location_set: bool,
    /// The row asks for an expiry clearance discount.
    pub clearance: bool,
    /// The product id, when the row holds it as an integer.
    pub product_id: Option<i64>,
    /// The variant id, when the row holds it as an integer.
    pub variant_id: Option<i64>,
    /// The row holds its quantity as a number.
    pub has_qty: bool,
}

/// What resuming reads of a current product: its id, how it is sold and the
/// ids of its active variants.
pub struct HeldProduct {
    pub id: i32,
    pub sold_by: Option<String>,
    pub variant_ids: Vec<i32>,
}

/// Why a held cart cannot be resumed here.
#[derive(Debug, PartialEq, Eq)]
pub enum RestoreError {
    /// The hold picked a batch or a clearance: it is resumed in the main till.
    MainPosSelection,
    /// A row has no integer product id.
    InvalidProductId,
    /// A held product is no longer listed.
    ProductRemoved,
    /// Restaurant holds are resumed in the main till.
    Restaurant,
    /// A held variant is inactive or removed.
    VariantRemoved,
    /// The product now has variants and the row none, or the reverse.
    VariantChanged,
    /// A row has no numeric quantity.
    InvalidQuantity,
}

/// A resumed line: the product's place in the product list and, for a
/// variant, the variant's place in that product's variants.
pub struct PlannedLine {
    pub product: usize,
    pub variant: Option<usize>,
}

impl PlannedLine {
    pub open spec fn view(self) -> (int, Option<int>) {
        (
            self.product as int,
            match self.variant {
                Some(v) => Some(v as int),
                None => None,
            },
        )
    }
}

/// The first place at or after `from` where `s` holds `x`.
pub open spec fn first_at<T>(s: Seq<T>, x: T, from: int) -> Option<int>
    decreases s.len() - from,
{
    if from < 0 || from >= s.len() {
        None
    } else if s[from] == x {
        Some(from)
    } else {
        first_at(s, x, from + 1)
    }
}

pub open spec fn product_ids(products: Seq<HeldProduct>) -> Seq<i32> {
    products.map_values(|p: HeldProduct| p.id)
}

pub open spec fn wide_variant_ids(p: HeldProduct) -> Seq<i64> {
    p.variant_ids@.map_values(|v: i32| v as i64)
}

/// Sold as `Restaurant`, in any ASCII case.
pub open spec fn restaurant(sold_by: Option<String>) -> bool {
    eq_ignore_case(
        match sold_by {
            Some(s) => s@,
            None => Seq::empty(),
        },
        "Restaurant"@,
    )
}

/// What one row resumes as, or the first reason it cannot, in the order the
/// checks are made.
pub open spec fn row_plan(row: HeldRow, products: Seq<HeldProduct>) -> Result<(int, Option<int>), RestoreError> {
    if row.location_set || row.clearance {
        Err(RestoreError::MainPosSelection)
    } else {
        match row.product_id {
            None => Err(RestoreError::InvalidProductId),
            Some(id) => match first_at(product_ids(products), id as i32, 0) {
                None => Err(RestoreError::ProductRemoved),
                Some(p) => if restaurant(products[p].sold_by) {
                    Err(RestoreError::Restaurant)
                } else {
                    let found = match row.variant_id {
                        None => Ok(None),
                        Some(vid) => match first_at(wide_variant_ids(products[p]), vid, 0) {
                            None => Err(RestoreError::VariantRemoved),
                            Some(v) => Ok(Some(v)),
                        },
                    };
                    match found {
                        Err(e) => Err(e),
                        Ok(v) => if variant_mode(sold_by_of(products[p].sold_by)) != (v is Some) {
                            Err(RestoreError::VariantChanged)
                        } else if !row.has_qty {
                            Err(RestoreError::InvalidQuantity)
                        } else {
                            Ok((p, v))
                        },
                    }
                },
            },
        }
    }
}

/// The resumed lines of a whole cart, or the error of its first refused row.
pub open spec fn cart_plan(rows: Seq<HeldRow>, products: Seq<HeldProduct>) -> Result<Seq<(int, Option<int>)>, RestoreError>
    decreases rows.len(),
{
    if rows.len() == 0 {
        Ok(Seq::empty())
    } else {
        match cart_plan(rows.drop_last(), products) {
            Err(e) => Err(e),
            Ok(s) => match row_plan(rows.last(), products) {
                Err(e) => Err(e),
                Ok(l) => Ok(s.push(l)),
            },
        }
    }
}

/// A line that points at a listed product and, for a variant, at one of
/// that product's variants.
pub open spec fn points_into(products: Seq<HeldProduct>, l: PlannedLine) -> bool {
    l.product < products.len() && match l.variant {
        Some(v) => v < products[l.product as int].variant_ids@.len(),
        None => true,
    }
}

pub open spec fn lines_view(v: Seq<PlannedLine>) -> Seq<(int, Option<int>)> {
    v.map_values(|l: PlannedLine| l.view())
}

fn find_product(products: &[HeldProduct], id: i32) -> (r: Option<usize>)
    ensures
        match r {
            Some(i) => i < products@.len() && first_at(product_ids(products@), id, 0) == Some(i as int),
            None => first_at(product_ids(products@), id, 0) is None,
        },
{
    let ghost ids = product_ids(products@);
    let mut i: usize = 0;
    while i < products.len()
        invariant
            i <= products@.len(),
            ids == product_ids(products@),
            first_at(ids, id, 0) == first_at(ids, id, i as int),
        decreases products@.len() - i,
    {
        if products[i].id == id {
            return Some(i);
        }
        i = i + 1;
    }
    None
}

fn find_variant(variants: &[i32], id: i64) -> (r: Option<usize>)
    ensures
        match r {
            Some(i) => i < variants@.len() && first_at(variants@.map_values(|v: i32| v as i64), id, 0) == Some(
                i as int,
            ),
            None => first_at(variants@.map_values(|v: i32| v as i64), id, 0) is None,
        },
{
    let ghost wide = variants@.map_values(|v: i32| v as i64);
    let mut i: usize = 0;
    while i < variants.len()
        invariant
            i <= variants@.len(),
            wide == variants@.map_values(|v: i32| v as i64),
            first_at(wide, id, 0) == first_at(wide, id, i as int),
        decreases variants@.len() - i,
    {
        let v: i64 = variants[i] as i64;
        if v == id {
            return Some(i);
        }
        i = i + 1;
    }
    None
}

fn plan_row(row: &HeldRow, products: &[HeldProduct]) -> (r: Result<PlannedLine, RestoreError>)
    ensures
        match r {
            Ok(l) => row_plan(*row, products@) == Ok::<(int, Option<int>), RestoreError>(l.view())
                && points_into(products@, l),
            Err(e) => row_plan(*row, products@) == Err::<(int, Option<int>), RestoreError>(e),
        },
{
    if row.location_set || row.clearance {
        return Err(RestoreError::MainPosSelection);
    }
    let id: i64 = match row.product_id {
        Some(id) => id,
        None => {
            return Err(RestoreError::InvalidProductId);
        },
    };
    let narrow: i32 = #[verifier::truncate] (id as i32);
    let p = match find_product(products, narrow) {
        Some(p) => p,
        None => {
            return Err(RestoreError::ProductRemoved);
        },
    };
    let is_restaurant = match &products[p].sold_by {
        Some(s) => eq_ignore_ascii_case(s.as_str(), "Restaurant"),
        None => {
            proof {
                reveal_strlit("Restaurant");
                assert(lower_ascii_seq(Seq::<char>::empty()).len() != lower_ascii_seq("Restaurant"@).len());
            }
            false
        },
    };
    if is_restaurant {
        return Err(RestoreError::Restaurant);
    }
    let variant: Option<usize> = match row.variant_id {
        None => None,
        Some(vid) => match find_variant(products[p].variant_ids.as_slice(), vid) {
            Some(v) => Some(v),
            None => {
                return Err(RestoreError::VariantRemoved);
            },
        },
    };
    if is_variant_product(&products[p].sold_by) != variant.is_some() {
        return Err(RestoreError::VariantChanged);
    }
    if !row.has_qty {
        return Err(RestoreError::InvalidQuantity);
    }
    Ok(PlannedLine { product: p, variant })
}

/// The products and variants a held cart resumes with, row by row, or the
/// first row's reason for refusing it. Prices and stock are checked by the
/// caller on the lines returned (see `stock_groups`).
pub fn restore_plan(rows: &[HeldRow], products: &[HeldProduct]) -> (r: Result<Vec<PlannedLine>, RestoreError>)
    ensures
        match r {
            Ok(lines) => cart_plan(rows@, products@) == Ok::<Seq<(int, Option<int>)>, RestoreError>(
                lines_view(lines@),
            ) && forall|k: int| 0 <= k < lines@.len() ==> points_into(products@, #[trigger] lines@[k]),
            Err(e) => cart_plan(rows@, products@) == Err::<Seq<(int, Option<int>)>, RestoreError>(e),
        },
{
    let mut out: Vec<PlannedLine> = Vec::new();
    proof {
        assert(rows@.take(0) =~= Seq::<HeldRow>::empty());
        assert(lines_view(out@) =~= Seq::<(int, Option<int>)>::empty());
    }
    let mut i: usize = 0;
    while i < rows.len()
        invariant
            i <= rows@.len(),
            cart_plan(rows@.take(i as int), products@) == Ok::<Seq<(int, Option<int>)>, RestoreError>(
                lines_view(out@),
            ),
            forall|k: int| 0 <= k < out@.len() ==> points_into(products@, #[trigger] out@[k]),
        decreases rows@.len() - i,
    {
        proof {
            assert(rows@.take(i as int + 1).drop_last() =~= rows@.take(i as int));
            assert(rows@.take(i as int + 1).last() == rows@[i as int]);
        }
        let line = plan_row(&rows[i], products);
        match line {
            Ok(l) => {
                let ghost before = out@;
                out.push(l);
                proof {
                    assert(lines_view(out@) =~= lines_view(before).push(l.view()));
                }
            },
            Err(e) => {
                proof {
                    lemma_plan_stops(rows@, products@, i as int);
                }
                return Err(e);
            },
        }
        i = i + 1;
    }
    proof {
        assert(rows@.take(rows@.len() as int) =~= rows@);
    }
    Ok(out)
}

/// Once a prefix of the cart is refused, the whole cart is refused with the
/// same error.
proof fn lemma_plan_stops(rows: Seq<HeldRow>, products: Seq<HeldProduct>, i: int)
    requires
        0 <= i < rows.len(),
        cart_plan(rows.take(i + 1), products) is Err,
    ensures
        cart_plan(rows, products) == cart_plan(rows.take(i + 1), products),
    decreases rows.len() - i,
{
    if i + 1 == rows.len() {
        assert(rows.take(i + 1) =~= rows);
    } else {
        assert(rows.drop_last().take(i + 1) =~= rows.take(i + 1));
        lemma_plan_stops(rows.drop_last(), products, i);
    }
}

/// Nothing between `from` and `p` holds `x`, and `p` does: `p` is the first
/// place at or after `from` that holds it.
proof fn lemma_first_at_is<T>(s: Seq<T>, x: T, from: int, p: int)
    requires
        0 <= from <= p < s.len(),
        s[p] == x,
        forall|q: int| from <= q < p ==> s[q] != x,
    ensures
        first_at(s, x, from) == Some(p),
    decreases p - from,
{
    if from < p {
        lemma_first_at_is(s, x, from + 1, p);
    }
}

/// A held cart whose rows before `i` resume, and whose row `i` (without a
/// batch or a clearance) holds the id of a listed product sold as
/// `Restaurant` in any ASCII case (`Restaurant`, `RESTAURANT`, `restaurant`),
/// is refused as a restaurant hold, to be resumed in the main till. The
/// product is the first listed one with the row's id read as an `i32`.
pub proof fn law_restaurant_holds_refused(rows: Seq<HeldRow>, products: Seq<HeldProduct>, i: int, p: int)
    requires
        0 <= i < rows.len(),
        cart_plan(rows.take(i), products) is Ok,
        !rows[i].location_set,
        !rows[i].clearance,
        rows[i].product_id is Some,
        0 <= p < products.len(),
        products[p].id == rows[i].product_id->0 as i32,
        forall|q: int| 0 <= q < p ==> products[q].id != rows[i].product_id->0 as i32,
        products[p].sold_by is Some,
        lower_ascii_seq(products[p].sold_by->0@) == "restaurant"@,
    ensures
        cart_plan(rows, products) == Err::<Seq<(int, Option<int>)>, RestoreError>(RestoreError::Restaurant),
{
    let id = rows[i].product_id->0 as i32;
    let ids = product_ids(products);
    assert forall|q: int| 0 <= q < p implies ids[q] != id by {
        assert(ids[q] == products[q].id);
    }
    lemma_first_at_is(ids, id, 0, p);
    reveal_strlit("Restaurant");
    reveal_strlit("restaurant");
    assert(lower_ascii_seq("Restaurant"@) =~= "restaurant"@);
    assert(restaurant(products[p].sold_by));
    assert(row_plan(rows[i], products) == Err::<(int, Option<int>), RestoreError>(RestoreError::Restaurant));
    let t = rows.take(i + 1);
    assert(t.drop_last() =~= rows.take(i));
    assert(t.last() == rows[i]);
    lemma_plan_stops(rows, products, i);
}

proof fn lemma_first_at_found<T>(s: Seq<T>, x: T, from: int)
    requires
        first_at(s, x, from) is Some,
    ensures
        from <= first_at(s, x, from)->0 < s.len(),
        0 <= from,
        s[first_at(s, x, from)->0] == x,
        forall|q: int| from <= q < first_at(s, x, from)->0 ==> s[q] != x,
    decreases s.len() - from,
{
    if s[from] != x {
        lemma_first_at_found(s, x, from + 1);
    }
}

proof fn lemma_first_at_absent<T>(s: Seq<T>, x: T, from: int)
    requires
        0 <= from,
        forall|q: int| from <= q < s.len() ==> s[q] != x,
    ensures
        first_at(s, x, from) is None,
    decreases s.len() - from,
{
    if from < s.len() {
        lemma_first_at_absent(s, x, from + 1);
    }
}

/// How a resumed line answers its row: the row picks no batch or clearance
/// and has a numeric quantity; the line's product is the first listed one
/// with the row's id (read as an `i32`) and is not sold as `Restaurant` in
/// any ASCII case; a line with a variant points at the first of that
/// product's variants with the row's variant id, and a line without one
/// comes from a row without one.
pub open spec fn line_answers_row(row: HeldRow, products: Seq<HeldProduct>, l: (int, Option<int>)) -> bool {
    &&& !row.location_set && !row.clearance && row.has_qty
    &&& row.product_id is Some
    &&& 0 <= l.0 < products.len()
    &&& products[l.0].id == row.product_id->0 as i32
    &&& forall|q: int| 0 <= q < l.0 ==> products[q].id != row.product_id->0 as i32
    &&& (products[l.0].sold_by matches Some(x) ==> lower_ascii_seq(x@) != "restaurant"@)
    &&& match l.1 {
        Some(v) => {
            &&& row.variant_id is Some
            &&& 0 <= v < products[l.0].variant_ids@.len()
            &&& products[l.0].variant_ids@[v] as i64 == row.variant_id->0
            &&& forall|q: int| 0 <= q < v ==> products[l.0].variant_ids@[q] as i64 != row.variant_id->0
        },
        None => row.variant_id is None,
    }
}

proof fn lemma_row_answered(row: HeldRow, products: Seq<HeldProduct>)
    requires
        row_plan(row, products) is Ok,
    ensures
        line_answers_row(row, products, row_plan(row, products)->Ok_0),
{
    let id = row.product_id->0 as i32;
    let ids = product_ids(products);
    lemma_first_at_found(ids, id, 0);
    let p = first_at(ids, id, 0)->0;
    assert(ids[p] == products[p].id);
    assert forall|q: int| 0 <= q < p implies products[q].id != id by {
        assert(ids[q] == products[q].id);
    }
    reveal_strlit("Restaurant");
    reveal_strlit("restaurant");
    assert(lower_ascii_seq("Restaurant"@) =~= "restaurant"@);
    if let Some(vid) = row.variant_id {
        let w = wide_variant_ids(products[p]);
        lemma_first_at_found(w, vid, 0);
        let v = first_at(w, vid, 0)->0;
        assert(w[v] == products[p].variant_ids@[v] as i64);
        assert forall|q: int| 0 <= q < v implies products[p].variant_ids@[q] as i64 != vid by {
            assert(w[q] == products[p].variant_ids@[q] as i64);
        }
    }
}

/// A resumed cart has one line per held row, in row order, and each line
/// answers its row (see `line_answers_row`): the product the row names, the
/// variant it names, and nothing that must be resumed in the main till.
pub proof fn law_resumed_lines_answer_rows(rows: Seq<HeldRow>, products: Seq<HeldProduct>)
    requires
        cart_plan(rows, products) is Ok,
    ensures
        cart_plan(rows, products)->Ok_0.len() == rows.len(),
        forall|k: int|
            0 <= k < rows.len() ==> line_answers_row(
                #[trigger] rows[k],
                products,
                cart_plan(rows, products)->Ok_0[k],
            ),
    decreases rows.len(),
{
    if rows.len() > 0 {
        let front = rows.drop_last();
        law_resumed_lines_answer_rows(front, products);
        lemma_row_answered(rows.last(), products);
        let s = cart_plan(rows, products)->Ok_0;
        assert forall|k: int| 0 <= k < rows.len() implies line_answers_row(#[trigger] rows[k], products, s[k]) by {
            if k < rows.len() - 1 {
                assert(rows[k] == front[k]);
            }
        }
    }
}

/// Why a row is refused before its product is looked at: a batch or a
/// clearance sends the hold to the main till; a row without an integer
/// product id is invalid; a product id that no listed product has (read as
/// an `i32`) means the product was removed.
pub proof fn law_row_refusals(row: HeldRow, products: Seq<HeldProduct>)
    ensures
        row.location_set || row.clearance ==> row_plan(row, products) == Err::<(int, Option<int>), RestoreError>(
            RestoreError::MainPosSelection,
        ),
        !row.location_set && !row.clearance && row.product_id is None ==> row_plan(row, products) == Err::<
            (int, Option<int>),
            RestoreError,
        >(RestoreError::InvalidProductId),
        !row.location_set && !row.clearance && row.product_id is Some && (forall|q: int|
            0 <= q < products.len() ==> products[q].id != row.product_id->0 as i32) ==> row_plan(row, products)
            == Err::<(int, Option<int>), RestoreError>(RestoreError::ProductRemoved),
{
    if !row.location_set && !row.clearance && row.product_id is Some && (forall|q: int|
        0 <= q < products.len() ==> products[q].id != row.product_id->0 as i32) {
        let ids = product_ids(products);
        assert forall|q: int| 0 <= q < ids.len() implies ids[q] != row.product_id->0 as i32 by {
            assert(ids[q] == products[q].id);
        }
        lemma_first_at_absent(ids, row.product_id->0 as i32, 0);
    }
}

/// The stock key of a resumed line: its product id and its variant id.
pub open spec fn line_key(products: Seq<HeldProduct>, l: (int, Option<int>)) -> (i32, Option<i32>) {
    (
        products[l.0].id,
        match l.1 {
            Some(v) => Some(products[l.0].variant_ids@[v]),
            None => None,
        },
    )
}

/// The stock keys of resumed lines, in line order.
pub fn line_keys(lines: &[PlannedLine], products: &[HeldProduct]) -> (r: Vec<(i32, Option<i32>)>)
    requires
        forall|k: int| 0 <= k < lines@.len() ==> points_into(products@, #[trigger] lines@[k]),
    ensures
        r@.len() == lines@.len(),
        forall|k: int| 0 <= k < lines@.len() ==> #[trigger] r@[k] == line_key(products@, lines@[k].view()),
{
    let mut out: Vec<(i32, Option<i32>)> = Vec::new();
    let mut i: usize = 0;
    while i < lines.len()
        invariant
            i <= lines@.len(),
            out@.len() == i,
            forall|k: int| 0 <= k < lines@.len() ==> points_into(products@, #[trigger] lines@[k]),
            forall|k: int| 0 <= k < i ==> #[trigger] out@[k] == line_key(products@, lines@[k].view()),
        decreases lines@.len() - i,
    {
        let p = lines[i].product;
        let variant: Option<i32> = match lines[i].variant {
            Some(v) => Some(products[p].variant_ids[v]),
            None => None,
        };
        out.push((products[p].id, variant));
        i = i + 1;
    }
    out
}

fn same_key(a: (i32, Option<i32>), b: (i32, Option<i32>)) -> (r: bool)
    ensures
        r == (a == b),
{
    a.0 == b.0 && match (a.1, b.1) {
        (Some(x), Some(y)) => x == y,
        (None, None) => true,
        _ => false,
    }
}

/// For each line, the first line with the same stock key: lines that share
/// a group are counted together against one stock figure.
pub fn stock_groups(keys: &[(i32, Option<i32>)]) -> (r: Vec<usize>)
    ensures
        r@.len() == keys@.len(),
        forall|i: int| 0 <= i < keys@.len() ==> first_at(keys@, keys@[i], 0) == Some(#[trigger] r@[i] as int),
{
    let mut out: Vec<usize> = Vec::new();
    let mut i: usize = 0;
    while i < keys.len()
        invariant
            i <= keys@.len(),
            out@.len() == i,
            forall|k: int| 0 <= k < i ==> first_at(keys@, keys@[k], 0) == Some(#[trigger] out@[k] as int),
        decreases keys@.len() - i,
    {
        let mut j: usize = 0;
        while j < i
            invariant
                j <= i < keys@.len(),
                first_at(keys@, keys@[i as int], 0) == first_at(keys@, keys@[i as int], j as int),
            ensures
                j <= i,
                keys@[j as int] == keys@[i as int],
                first_at(keys@, keys@[i as int], 0) == first_at(keys@, keys@[i as int], j as int),
            decreases i - j,
        {
            if same_key(keys[j], keys[i]) {
                break;
            }
            j = j + 1;
        }
        out.push(j);
        i = i + 1;
    }
    out
}

/// The recovery journal of held sales: the operator it belongs to, the hold
/// request (serialized) not yet known to be done, and the token of a resumed
/// hold still open in the cart.
pub struct HeldJournal {
    pub owner: String,
    pub pending: Option<Vec<u8>>,
    pub active: Option<String>,
}

pub type HeldJournalView = (Seq<char>, Option<Seq<u8>>, Option<Seq<char>>);

impl HeldJournal {
    pub open spec fn view(self) -> HeldJournalView {
        (
            self.owner@,
            match self.pending {
                Some(c) => Some(c@),
                None => None,
            },
            match self.active {
                Some(t) => Some(t@),
                None => None,
            },
        )
    }

    /// The empty journal.
    pub fn empty() -> (r: HeldJournal)
        ensures
            r.view() == empty_journal(),
    {
        HeldJournal { owner: String::new(), pending: None, active: None }
    }
}

pub open spec fn empty_journal() -> HeldJournalView {
    (Seq::empty(), None, None)
}

/// Why a hold request is not started.
#[derive(Debug, PartialEq, Eq)]
pub enum HoldRefusal {
    /// The journal belongs to another operator, who must sign in to recover it.
    OtherOperator,
    /// Another hold request is unresolved.
    Unresolved,
}

/// The journal once `command` by `username` is recorded, or why it is not:
/// another operator's journal, or another request still pending.
pub open spec fn begin_view(j: HeldJournalView, username: Seq<char>, command: Seq<u8>) -> Result<
    HeldJournalView,
    HoldRefusal,
> {
    if j.0.len() != 0 && j.0 != username {
        Err(HoldRefusal::OtherOperator)
    } else if j.1 is Some && j.1 != Some(command) {
        Err(HoldRefusal::Unresolved)
    } else {
        Ok((username, Some(command), j.2))
    }
}

fn copy_bytes(a: &[u8]) -> (r: Vec<u8>)
    ensures
        r@ == a@,
{
    let mut out: Vec<u8> = Vec::new();
    let mut i: usize = 0;
    while i < a.len()
        invariant
            i <= a@.len(),
            out@ == a@.take(i as int),
        decreases a@.len() - i,
    {
        out.push(a[i]);
        i = i + 1;
        proof {
            assert(out@ =~= a@.take(i as int));
        }
    }
    proof {
        assert(a@.take(a@.len() as int) =~= a@);
    }
    out
}

/// Records a hold request before it is sent, keeping the resumed hold's
/// token: refused for another operator's journal and while another request
/// is unresolved; the same request again is a retry and is accepted.
pub fn begin_hold_request(j: &HeldJournal, username: &str, command: &[u8]) -> (r: Result<HeldJournal, HoldRefusal>)
    ensures
        match r {
            Ok(n) => begin_view(j.view(), username@, command@) == Ok::<HeldJournalView, HoldRefusal>(n.view()),
            Err(e) => begin_view(j.view(), username@, command@) == Err::<HeldJournalView, HoldRefusal>(e),
        },
{
    if chars_of(j.owner.as_str()).len() != 0 && !same_text(j.owner.as_str(), username) {
        return Err(HoldRefusal::OtherOperator);
    }
    match &j.pending {
        Some(old) => if !same_bytes(old.as_slice(), command) {
            return Err(HoldRefusal::Unresolved);
        },
        None => {},
    }
    let active: Option<String> = match &j.active {
        Some(t) => Some(t.clone()),
        None => None,
    };
    Ok(HeldJournal { owner: username.to_string(), pending: Some(copy_bytes(command)), active })
}

/// The journal once the database has carried out the pending request: a
/// resumed hold whose session is still open stays active (nothing pending);
/// otherwise the journal is emptied.
pub open spec fn done_view(j: HeldJournalView, token: Option<Seq<char>>, session_open: bool) -> HeldJournalView {
    match token {
        Some(t) => if session_open {
            (j.0, None, Some(t))
        } else {
            empty_journal()
        },
        None => empty_journal(),
    }
}

/// The journal after a request succeeded, from the token it returned and
/// whether that token's session is still open.
pub fn after_hold_done(j: &HeldJournal, token: &Option<String>, session_open: bool) -> (r: HeldJournal)
    ensures
        r.view() == done_view(
            j.view(),
            match token {
                Some(t) => Some(t@),
                None => None,
            },
            session_open,
        ),
{
    match token {
        Some(t) => if session_open {
            HeldJournal { owner: j.owner.clone(), pending: None, active: Some(t.clone()) }
        } else {
            HeldJournal::empty()
        },
        None => HeldJournal::empty(),
    }
}

/// The journal after an unsaved request was cancelled: empty, except that a
/// cancelled save of a resumed hold leaves that hold active for `username`.
/// `return_token` is `Some` for a save request, holding the token it returned.
pub fn after_cancel(username: &str, return_token: &Option<Option<String>>) -> (r: HeldJournal)
    ensures
        r.view() == match return_token {
            Some(t) => (
                username@,
                None,
                match t {
                    Some(x) => Some(x@),
                    None => None,
                },
            ),
            None => empty_journal(),
        },
{
    match return_token {
        Some(t) => HeldJournal {
            owner: username.to_string(),
            pending: None,
            active: match t {
                Some(x) => Some(x.clone()),
                None => None,
            },
        },
        None => HeldJournal::empty(),
    }
}

/// Whether the recovery dialog is shown: a request is pending or a hold is
/// active, and recovery has not been dealt with yet.
pub fn needs_recovery(j: &HeldJournal, initialized: bool) -> (r: bool)
    ensures
        r == ((j.pending is Some || j.active is Some) && !initialized),
{
    (j.pending.is_some() || j.active.is_some()) && !initialized
}

/// A recorded hold request is kept until its outcome is known: retrying it
/// changes nothing, a different request is refused while it is pending, and
/// another operator cannot take the journal over.
pub proof fn law_hold_request_kept(j: HeldJournalView, user: Seq<char>, other_user: Seq<char>, a: Seq<u8>, b: Seq<u8>)
    requires
        begin_view(j, user, a) is Ok,
        a != b,
        user.len() != 0,
        other_user != user,
    ensures
        begin_view(begin_view(j, user, a)->Ok_0, user, a) == begin_view(j, user, a),
        begin_view(begin_view(j, user, a)->Ok_0, user, b) == Err::<HeldJournalView, HoldRefusal>(
            HoldRefusal::Unresolved,
        ),
        begin_view(begin_view(j, user, a)->Ok_0, other_user, a) == Err::<HeldJournalView, HoldRefusal>(
            HoldRefusal::OtherOperator,
        ),
{
}

/// A resumed line keeps the price it was held at when its product is a
/// service (a quote, not counted against stock); any other line takes the
/// product's current price and is counted against its stock.
pub open spec fn keeps_held_quote(products: Seq<HeldProduct>, l: PlannedLine) -> bool {
    service_mode(sold_by_of(products[l.product as int].sold_by))
}

/// For each resumed line, whether it keeps its held quote.
pub fn held_quotes(lines: &[PlannedLine], products: &[HeldProduct]) -> (r: Vec<bool>)
    requires
        forall|k: int| 0 <= k < lines@.len() ==> points_into(products@, #[trigger] lines@[k]),
    ensures
        r@.len() == lines@.len(),
        forall|k: int| 0 <= k < lines@.len() ==> #[trigger] r@[k] == keeps_held_quote(products@, lines@[k]),
{
    let mut out: Vec<bool> = Vec::new();
    let mut i: usize = 0;
    while i < lines.len()
        invariant
            i <= lines@.len(),
            out@.len() == i,
            forall|k: int| 0 <= k < lines@.len() ==> points_into(products@, #[trigger] lines@[k]),
            forall|k: int| 0 <= k < i ==> #[trigger] out@[k] == keeps_held_quote(products@, lines@[k]),
        decreases lines@.len() - i,
    {
        out.push(is_service_product(&products[lines[i].product].sold_by));
        i = i + 1;
    }
    out
}

} // verus!
