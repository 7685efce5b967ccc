//! What the list pages share: text order (as `str` compares), search over a
//! record's joined fields, pages of rows, and the sorted list of distinct
//! names offered as a filter.
use vstd::prelude::*;
use crate::number::{byte_len, byte_length};
use crate::text::{slice_of, chars_of, contains, lowercase, occurs, push_str, same_text, string_of, to_lowercase, trim, trimmed};

verus! {

/// `a` sorts before `b`: the first differing character is smaller, or `a`
/// is a proper prefix of `b`. For UTF-8 text this is the byte order in which
/// `str` compares.
pub open spec fn text_lt(a: Seq<char>, b: Seq<char>) -> bool
    decreases a.len(),
{
    if a.len() == 0 {
        b.len() > 0
    } else if b.len() == 0 {
        false
    } else if a[0] != b[0] {
        (a[0] as int) < (b[0] as int)
    } else {
        text_lt(a.drop_first(), b.drop_first())
    }
}

/// `a` sorts before `b` or equals it.
pub open spec fn text_le(a: Seq<char>, b: Seq<char>) -> bool {
    text_lt(a, b) || a == b
}

pub proof fn lemma_text_lt_irreflexive(a: Seq<char>)
    ensures
        !text_lt(a, a),
    decreases a.len(),
{
    if a.len() > 0 {
        lemma_text_lt_irreflexive(a.drop_first());
    }
}

pub proof fn lemma_text_lt_transitive(a: Seq<char>, b: Seq<char>, c: Seq<char>)
    requires
        text_lt(a, b),
        text_lt(b, c),
    ensures
        text_lt(a, c),
    decreases a.len(),
{
    if a.len() > 0 && b.len() > 0 && c.len() > 0 && a[0] == b[0] && b[0] == c[0] {
        lemma_text_lt_transitive(a.drop_first(), b.drop_first(), c.drop_first());
    }
}

/// Two different texts are ordered one way or the other.
pub proof fn lemma_text_lt_total(a: Seq<char>, b: Seq<char>)
    ensures
        a == b || text_lt(a, b) || text_lt(b, a),
    decreases a.len(),
{
    if a.len() > 0 && b.len() > 0 && a[0] == b[0] {
        lemma_text_lt_total(a.drop_first(), b.drop_first());
        if a.drop_first() == b.drop_first() {
            assert(a =~= seq![a[0]] + a.drop_first());
            assert(b =~= seq![b[0]] + b.drop_first());
        }
    } else if a.len() > 0 && b.len() > 0 {
        assert((a[0] as int) != (b[0] as int));
    } else if a.len() == 0 && b.len() == 0 {
        assert(a =~= b);
    }
}

pub proof fn lemma_text_lt_asymmetric(a: Seq<char>, b: Seq<char>)
    requires
        text_lt(a, b),
    ensures
        !text_lt(b, a),
{
    if text_lt(b, a) {
        lemma_text_lt_transitive(a, b, a);
        lemma_text_lt_irreflexive(a);
    }
}

/// Comparing after a common prefix gives the same order.
proof fn lemma_text_lt_skip(a: Seq<char>, b: Seq<char>, i: int)
    requires
        0 <= i <= a.len(),
        i <= b.len(),
        a.take(i) == b.take(i),
    ensures
        text_lt(a, b) == text_lt(a.skip(i), b.skip(i)),
    decreases i,
{
    if i > 0 {
        assert(a[0] == a.take(i)[0]);
        assert(b[0] == b.take(i)[0]);
        assert(a.drop_first().take(i - 1) =~= a.take(i).drop_first());
        assert(b.drop_first().take(i - 1) =~= b.take(i).drop_first());
        lemma_text_lt_skip(a.drop_first(), b.drop_first(), i - 1);
        assert(a.drop_first().skip(i - 1) =~= a.skip(i));
        assert(b.drop_first().skip(i - 1) =~= b.skip(i));
    } else {
        assert(a.skip(0) =~= a);
        assert(b.skip(0) =~= b);
    }
}

/// Whether `a` sorts before `b`.
pub fn text_less(a: &[char], b: &[char]) -> (r: bool)
    ensures
        r == text_lt(a@, b@),
{
    let mut i: usize = 0;
    while i < a.len() && i < b.len()
        invariant
            i <= a@.len(),
            i <= b@.len(),
            a@.take(i as int) == b@.take(i as int),
        decreases a@.len() - i,
    {
        if a[i] != b[i] {
            proof {
                lemma_text_lt_skip(a@, b@, i as int);
                assert(a@.skip(i as int)[0] == a@[i as int]);
                assert(b@.skip(i as int)[0] == b@[i as int]);
            }
            return a[i] < b[i];
        }
        proof {
            assert(a@.take(i + 1) =~= a@.take(i as int).push(a@[i as int]));
            assert(b@.take(i + 1) =~= b@.take(i as int).push(b@[i as int]));
        }
        i = i + 1;
    }
    proof {
        lemma_text_lt_skip(a@, b@, i as int);
    }
    i == a.len() && i < b.len()
}

/// The number of pages of `per_page` rows that `len` rows fill; at least one.
pub open spec fn pages_for(len: nat, per_page: nat) -> nat {
    let full = len / per_page + (if len % per_page == 0 { 0nat } else { 1nat });
    if full == 0 {
        1
    } else {
        full
    }
}

/// The number of pages a list of `len` rows takes, `per_page` to a page.
pub fn page_count(len: usize, per_page: usize) -> (r: usize)
    requires
        per_page > 0,
    ensures
        r == pages_for(len as nat, per_page as nat),
{
    let full = if len % per_page == 0 {
        len / per_page
    } else {
        proof {
            assert(per_page > 1) by (nonlinear_arith)
                requires
                    len % per_page != 0,
                    per_page > 0,
            ;
            assert(len / per_page < usize::MAX) by (nonlinear_arith)
                requires
                    per_page > 1,
                    len <= usize::MAX,
            ;
        }
        len / per_page + 1
    };
    if full == 0 {
        1
    } else {
        full
    }
}

/// The page shown: the one asked for, or the last one when it is past the end.
pub fn current_page(page: usize, pages: usize) -> (r: usize)
    requires
        pages >= 1,
    ensures
        r == if page < pages { page } else { (pages - 1) as usize },
{
    if page < pages {
        page
    } else {
        pages - 1
    }
}

/// The positions of the `true` flags, in order.
pub open spec fn true_positions(flags: Seq<bool>) -> Seq<usize>
    decreases flags.len(),
{
    if flags.len() == 0 {
        Seq::empty()
    } else {
        true_positions(flags.drop_last()) + if flags.last() {
            seq![(flags.len() - 1) as usize]
        } else {
            Seq::<usize>::empty()
        }
    }
}

/// The positions of the `true` flags.
pub fn positions(flags: &[bool]) -> (r: Vec<usize>)
    ensures
        r@ == true_positions(flags@),
{
    let mut out: Vec<usize> = Vec::new();
    let mut i: usize = 0;
    while i < flags.len()
        invariant
            i <= flags@.len(),
            out@ == true_positions(flags@.take(i as int)),
        decreases flags@.len() - i,
    {
        proof {
            assert(flags@.take(i + 1).drop_last() =~= flags@.take(i as int));
        }
        if flags[i] {
            out.push(i);
        }
        i = i + 1;
    }
    proof {
        assert(flags@.take(flags@.len() as int) =~= flags@);
    }
    out
}

/// The fields joined by single spaces, as `format!("{} {}", ..)` writes them.
pub open spec fn joined(fields: Seq<Seq<char>>) -> Seq<char>
    decreases fields.len(),
{
    if fields.len() == 0 {
        Seq::empty()
    } else if fields.len() == 1 {
        fields[0]
    } else {
        joined(fields.drop_last()) + " "@ + fields.last()
    }
}

/// A record matches a lower-cased search when it occurs in the lower-cased
/// text of its fields joined by spaces (an empty search matches every record).
pub open spec fn search_hit(fields: Seq<Seq<char>>, search: Seq<char>) -> bool {
    occurs(lowercase(joined(fields)), search)
}

pub open spec fn fields_view(fields: Seq<&str>) -> Seq<Seq<char>> {
    fields.map_values(|f: &str| f@)
}

/// Whether the lower-cased search occurs in the record's joined fields.
pub fn search_hits(fields: &[&str], search: &[char]) -> (r: bool)
    ensures
        r == search_hit(fields_view(fields@), search@),
{
    let mut text: Vec<char> = Vec::new();
    let mut i: usize = 0;
    while i < fields.len()
        invariant
            i <= fields@.len(),
            text@ == joined(fields_view(fields@.take(i as int))),
        decreases fields@.len() - i,
    {
        proof {
            assert(fields_view(fields@.take(i + 1)).drop_last() =~= fields_view(fields@.take(i as int)));
        }
        if i > 0 {
            push_str(&mut text, " ");
        }
        push_str(&mut text, fields[i]);
        proof {
            if i == 0 {
                assert(text@ =~= fields_view(fields@.take(1))[0]);
            }
        }
        i = i + 1;
    }
    proof {
        assert(fields@.take(fields@.len() as int) =~= fields@);
    }
    let lower = to_lowercase(string_of(text.as_slice()).as_str());
    contains(chars_of(lower.as_str()).as_slice(), search)
}

/// The search text a page filters by: the query lower-cased, trimmed first
/// when `trim` is set.
pub fn search_text(query: &str, trim_first: bool) -> (r: Vec<char>)
    ensures
        r@ == lowercase(if trim_first { trimmed(query@) } else { query@ }),
{
    if trim_first {
        let t = string_of(trim(chars_of(query).as_slice()).as_slice());
        chars_of(to_lowercase(t.as_str()).as_str())
    } else {
        chars_of(to_lowercase(query).as_str())
    }
}

pub open spec fn texts(v: Seq<String>) -> Seq<Seq<char>> {
    v.map_values(|x: String| x@)
}

/// Each text sorts strictly before every later one.
pub open spec fn strictly_sorted(v: Seq<Seq<char>>) -> bool {
    forall|i: int, j: int| 0 <= i < j < v.len() ==> text_lt(#[trigger] v[i], #[trigger] v[j])
}

/// `x` is one of the first `k` names (not the empty one when `skip_empty`).
pub open spec fn admitted(names: Seq<String>, k: int, skip_empty: bool, x: Seq<char>) -> bool {
    !(skip_empty && x.len() == 0) && exists|m: int| 0 <= m < k && #[trigger] names[m]@ == x
}

fn insert_sorted(out: &mut Vec<String>, name: &String)
    requires
        strictly_sorted(texts(old(out)@)),
    ensures
        strictly_sorted(texts(final(out)@)),
        forall|x: Seq<char>| texts(final(out)@).contains(x) <==> (texts(old(out)@).contains(x) || x == name@),
{
    let ghost before = texts(out@);
    let n = chars_of(name.as_str());
    let mut p: usize = 0;
    while p < out.len() && text_less(chars_of(out[p].as_str()).as_slice(), n.as_slice())
        invariant
            p <= out@.len(),
            n@ == name@,
            before == texts(out@),
            forall|j: int| 0 <= j < p ==> text_lt(#[trigger] before[j], name@),
        decreases out@.len() - p,
    {
        p = p + 1;
    }
    if p < out.len() && same_text(out[p].as_str(), name.as_str()) {
        proof {
            assert(before[p as int] == name@);
        }
        return;
    }
    proof {
        if p < before.len() {
            lemma_text_lt_total(before[p as int], name@);
        }
    }
    out.insert(p, name.clone());
    proof {
        let after = texts(out@);
        assert(after =~= before.insert(p as int, name@));
        assert forall|i: int, j: int| 0 <= i < j < after.len() implies text_lt(#[trigger] after[i], #[trigger] after[j]) by {
            if j == p {
            } else if i == p {
                if j - 1 > p {
                    lemma_text_lt_transitive(name@, before[p as int], before[j - 1]);
                }
            } else if i < p && j > p {
                assert(after[j] == before[j - 1]);
            } else if j < p {
            } else {
                assert(after[i] == before[i - 1]);
                assert(after[j] == before[j - 1]);
            }
        }
        assert forall|x: Seq<char>| after.contains(x) <==> (before.contains(x) || x == name@) by {
            if after.contains(x) {
                let i = choose|i: int| 0 <= i < after.len() && after[i] == x;
                if i < p {
                    assert(before[i] == x);
                } else if i > p {
                    assert(before[i - 1] == x);
                }
            }
            if before.contains(x) {
                let i = choose|i: int| 0 <= i < before.len() && before[i] == x;
                if i < p {
                    assert(after[i] == x);
                } else {
                    assert(after[i + 1] == x);
                }
            }
            if x == name@ {
                assert(after[p as int] == x);
            }
        }
    }
}

/// The names sorted in text order with each kept once (and, when
/// `skip_empty`, without the empty one).
pub fn distinct_sorted(names: &[String], skip_empty: bool) -> (r: Vec<String>)
    ensures
        strictly_sorted(texts(r@)),
        forall|x: Seq<char>| texts(r@).contains(x) <==> admitted(names@, names@.len() as int, skip_empty, x),
{
    let mut out: Vec<String> = Vec::new();
    let mut k: usize = 0;
    while k < names.len()
        invariant
            k <= names@.len(),
            strictly_sorted(texts(out@)),
            forall|x: Seq<char>| texts(out@).contains(x) <==> admitted(names@, k as int, skip_empty, x),
        decreases names@.len() - k,
    {
        let ghost before = texts(out@);
        let empty = names[k].as_str().is_empty();
        if !(skip_empty && empty) {
            insert_sorted(&mut out, &names[k]);
        }
        proof {
            assert forall|x: Seq<char>| texts(out@).contains(x) <==> admitted(names@, k + 1, skip_empty, x) by {
                if admitted(names@, k + 1, skip_empty, x) {
                    let m = choose|m: int| 0 <= m < k + 1 && #[trigger] names@[m]@ == x;
                    if m < k {
                        assert(admitted(names@, k as int, skip_empty, x));
                    }
                }
                if admitted(names@, k as int, skip_empty, x) {
                    let m = choose|m: int| 0 <= m < k && #[trigger] names@[m]@ == x;
                    assert(0 <= m < k + 1 && names@[m]@ == x);
                }
                if texts(out@).contains(x) && x == names@[k as int]@ {
                    assert(0 <= k < k + 1 && names@[k as int]@ == x);
                }
            }
        }
        k = k + 1;
    }
    out
}

/// `a` sorts after `b` exactly when `b` does not sort before or equal `a`.
proof fn lemma_not_lt(a: Seq<char>, b: Seq<char>)
    ensures
        !text_lt(a, b) <==> text_le(b, a),
{
    lemma_text_lt_total(a, b);
    if text_lt(a, b) {
        lemma_text_lt_asymmetric(a, b);
        if a == b {
            lemma_text_lt_irreflexive(a);
        }
    }
}

/// A from/to pair that cannot hold any date: both set and `from` after `to`.
pub fn invalid_range(from: &str, to: &str) -> (r: bool)
    ensures
        r == (from@.len() > 0 && to@.len() > 0 && text_lt(to@, from@)),
{
    let f = chars_of(from);
    let t = chars_of(to);
    f.len() > 0 && t.len() > 0 && text_less(t.as_slice(), f.as_slice())
}

/// What the expense list filters on.
pub struct ExpenseRow {
    pub expense_no: String,
    pub description: String,
    pub reference_no: String,
    pub category: String,
    pub expense_date: String,
}

/// An expense is listed: of the chosen category (any when none is chosen),
/// dated within the from/to texts (either may be empty), and matching the
/// lower-cased search over its number, description, reference and category.
pub open spec fn expense_shown(
    r: ExpenseRow,
    category: Seq<char>,
    from: Seq<char>,
    to: Seq<char>,
    search: Seq<char>,
) -> bool {
    &&& (category.len() == 0 || category == r.category@)
    &&& (from.len() == 0 || text_le(from, r.expense_date@))
    &&& (to.len() == 0 || text_le(r.expense_date@, to))
    &&& search_hit(seq![r.expense_no@, r.description@, r.reference_no@, r.category@], search)
}

/// The positions of the listed expenses, for a category, a date range and a query.
pub fn filter_expenses(rows: &[ExpenseRow], category: &str, from: &str, to: &str, query: &str) -> (r: Vec<usize>)
    ensures
        r@ == true_positions(
            Seq::new(
                rows@.len(),
                |j: int| expense_shown(rows@[j], category@, from@, to@, lowercase(query@)),
            ),
        ),
{
    let search = search_text(query, false);
    let f = chars_of(from);
    let t = chars_of(to);
    let mut flags: Vec<bool> = Vec::new();
    let mut i: usize = 0;
    while i < rows.len()
        invariant
            i <= rows@.len(),
            search@ == lowercase(query@),
            f@ == from@,
            t@ == to@,
            flags@ == Seq::new(i as nat, |j: int| expense_shown(rows@[j], category@, from@, to@, search@)),
        decreases rows@.len() - i,
    {
        let r = &rows[i];
        let date = chars_of(r.expense_date.as_str());
        let fields = [r.expense_no.as_str(), r.description.as_str(), r.reference_no.as_str(), r.category.as_str()];
        proof {
            lemma_not_lt(date@, from@);
            lemma_not_lt(to@, date@);
            assert(fields_view(fields@) =~= seq![r.expense_no@, r.description@, r.reference_no@, r.category@]);
        }
        let shown = (category.is_empty() || same_text(category, r.category.as_str())) && (f.len() == 0
            || !text_less(date.as_slice(), f.as_slice())) && (t.len() == 0 || !text_less(
            t.as_slice(),
            date.as_slice(),
        )) && search_hits(&fields, search.as_slice());
        flags.push(shown);
        proof {
            assert(flags@ =~= Seq::new((i + 1) as nat, |j: int| expense_shown(rows@[j], category@, from@, to@, search@)));
        }
        i = i + 1;
    }
    positions(flags.as_slice())
}

/// What the customer list searches.
pub struct CustomerRow {
    pub name: String,
    pub phone: String,
    pub email: String,
}

/// The positions of the customers whose name, phone and email match the
/// trimmed, lower-cased query.
pub fn filter_customers(rows: &[CustomerRow], query: &str) -> (r: Vec<usize>)
    ensures
        r@ == true_positions(
            Seq::new(
                rows@.len(),
                |j: int| search_hit(seq![rows@[j].name@, rows@[j].phone@, rows@[j].email@], lowercase(trimmed(query@))),
            ),
        ),
{
    let search = search_text(query, true);
    let mut flags: Vec<bool> = Vec::new();
    let mut i: usize = 0;
    while i < rows.len()
        invariant
            i <= rows@.len(),
            search@ == lowercase(trimmed(query@)),
            flags@ == Seq::new(
                i as nat,
                |j: int| search_hit(seq![rows@[j].name@, rows@[j].phone@, rows@[j].email@], search@),
            ),
        decreases rows@.len() - i,
    {
        let r = &rows[i];
        let fields = [r.name.as_str(), r.phone.as_str(), r.email.as_str()];
        proof {
            assert(fields_view(fields@) =~= seq![r.name@, r.phone@, r.email@]);
        }
        flags.push(search_hits(&fields, search.as_slice()));
        proof {
            assert(flags@ =~= Seq::new(
                (i + 1) as nat,
                |j: int| search_hit(seq![rows@[j].name@, rows@[j].phone@, rows@[j].email@], search@),
            ));
        }
        i = i + 1;
    }
    positions(flags.as_slice())
}

/// What the purchase lists filter on: a draft's or an order's number,
/// supplier, supplier id and status (an order's payment status).
pub struct PurchaseRow {
    pub number: String,
    pub supplier: String,
    pub supplier_id: Option<i32>,
    pub status: String,
}

/// A purchase is listed: of the chosen supplier (any when it is 0), with the
/// chosen status (any when none), and matching the lower-cased search over
/// its number and supplier.
pub open spec fn purchase_shown(r: PurchaseRow, supplier: i32, status: Seq<char>, search: Seq<char>) -> bool {
    &&& (supplier == 0 || r.supplier_id == Some(supplier))
    &&& (status.len() == 0 || r.status@ == status)
    &&& search_hit(seq![r.number@, r.supplier@], search)
}

/// The positions of the listed purchases.
pub fn filter_purchases(rows: &[PurchaseRow], supplier: i32, status: &str, query: &str) -> (r: Vec<usize>)
    ensures
        r@ == true_positions(
            Seq::new(rows@.len(), |j: int| purchase_shown(rows@[j], supplier, status@, lowercase(query@))),
        ),
{
    let search = search_text(query, false);
    let mut flags: Vec<bool> = Vec::new();
    let mut i: usize = 0;
    while i < rows.len()
        invariant
            i <= rows@.len(),
            search@ == lowercase(query@),
            flags@ == Seq::new(i as nat, |j: int| purchase_shown(rows@[j], supplier, status@, search@)),
        decreases rows@.len() - i,
    {
        let r = &rows[i];
        let fields = [r.number.as_str(), r.supplier.as_str()];
        proof {
            assert(fields_view(fields@) =~= seq![r.number@, r.supplier@]);
        }
        let of_supplier = supplier == 0 || match r.supplier_id {
            Some(id) => id == supplier,
            None => false,
        };
        let shown = of_supplier && (status.is_empty() || same_text(r.status.as_str(), status)) && search_hits(
            &fields,
            search.as_slice(),
        );
        flags.push(shown);
        proof {
            assert(flags@ =~= Seq::new((i + 1) as nat, |j: int| purchase_shown(rows@[j], supplier, status@, search@)));
        }
        i = i + 1;
    }
    positions(flags.as_slice())
}

/// What the prompt library filters on.
pub struct PromptRow {
    pub title: String,
    pub category: String,
    pub prompt_text: String,
    pub active: i32,
}

/// A prompt is listed: active (or inactive ones are shown too), of the
/// chosen category (any when none), and matching the lower-cased search over
/// its title, category and text.
pub open spec fn prompt_shown(r: PromptRow, inactive: bool, category: Seq<char>, search: Seq<char>) -> bool {
    &&& (inactive || r.active == 1)
    &&& (category.len() == 0 || r.category@ == category)
    &&& search_hit(seq![r.title@, r.category@, r.prompt_text@], search)
}

/// The positions of the listed prompts.
pub fn filter_prompts(rows: &[PromptRow], inactive: bool, category: &str, query: &str) -> (r: Vec<usize>)
    ensures
        r@ == true_positions(
            Seq::new(rows@.len(), |j: int| prompt_shown(rows@[j], inactive, category@, lowercase(query@))),
        ),
{
    let search = search_text(query, false);
    let mut flags: Vec<bool> = Vec::new();
    let mut i: usize = 0;
    while i < rows.len()
        invariant
            i <= rows@.len(),
            search@ == lowercase(query@),
            flags@ == Seq::new(i as nat, |j: int| prompt_shown(rows@[j], inactive, category@, search@)),
        decreases rows@.len() - i,
    {
        let r = &rows[i];
        let fields = [r.title.as_str(), r.category.as_str(), r.prompt_text.as_str()];
        proof {
            assert(fields_view(fields@) =~= seq![r.title@, r.category@, r.prompt_text@]);
        }
        let shown = (inactive || r.active == 1) && (category.is_empty() || same_text(r.category.as_str(), category))
            && search_hits(&fields, search.as_slice());
        flags.push(shown);
        proof {
            assert(flags@ =~= Seq::new((i + 1) as nat, |j: int| prompt_shown(rows@[j], inactive, category@, search@)));
        }
        i = i + 1;
    }
    positions(flags.as_slice())
}

/// The first characters of `d`, from the `k`th on, that make up exactly ten
/// bytes; all of `d` when no prefix does.
pub open spec fn date_head_from(d: Seq<char>, k: int) -> Seq<char>
    decreases d.len() + 1 - k,
{
    if k < 0 || k > d.len() {
        d
    } else if byte_len(d.take(k)) == 10 {
        d.take(k)
    } else {
        date_head_from(d, k + 1)
    }
}

/// The date part of a stored date and time: its first ten bytes when they
/// end on a character boundary, else the whole text (as `get(..10)` falls back).
pub open spec fn date_head(d: Seq<char>) -> Seq<char> {
    date_head_from(d, 0)
}

/// The date part of a stored date and time.
pub fn date_part(date: &str) -> (r: Vec<char>)
    ensures
        r@ == date_head(date@),
{
    let d = chars_of(date);
    let mut k: usize = 0;
    while k < d.len()
        invariant
            k <= d@.len(),
            d@ == date@,
            date_head(date@) == date_head_from(d@, k as int),
        decreases d@.len() + 1 - k,
    {
        let prefix = slice_of(d.as_slice(), 0, k);
        proof {
            assert(prefix@ =~= d@.take(k as int));
        }
        if byte_length(prefix.as_slice()) == 10 {
            return prefix;
        }
        k = k + 1;
    }
    proof {
        assert(d@.take(d@.len() as int) =~= d@);
        assert(date_head_from(d@, d@.len() as int + 1) == d@);
        assert(date_head_from(d@, d@.len() as int) == d@);
    }
    d
}

/// A line of a customer's credit statement: its date, its status, and
/// whether a balance is still owed on it.
pub struct StatementRow {
    pub date: String,
    pub status: String,
    pub has_balance: bool,
}

/// A statement line is shown: on the outstanding report only when a balance
/// is owed and it is not refunded; dated from `from` (when set) and, by its
/// date part, up to `to` (when set).
pub open spec fn statement_shown(r: StatementRow, outstanding: bool, from: Seq<char>, to: Seq<char>) -> bool {
    &&& (!outstanding || (r.has_balance && r.status@ != "refunded"@))
    &&& (from.len() == 0 || text_le(from, r.date@))
    &&& (to.len() == 0 || text_le(date_head(r.date@), to))
}

/// The positions of the statement lines shown for a report and a date range.
pub fn filter_statement(rows: &[StatementRow], outstanding: bool, from: &str, to: &str) -> (r: Vec<usize>)
    ensures
        r@ == true_positions(
            Seq::new(rows@.len(), |j: int| statement_shown(rows@[j], outstanding, from@, to@)),
        ),
{
    let f = chars_of(from);
    let t = chars_of(to);
    let mut flags: Vec<bool> = Vec::new();
    let mut i: usize = 0;
    while i < rows.len()
        invariant
            i <= rows@.len(),
            f@ == from@,
            t@ == to@,
            flags@ == Seq::new(i as nat, |j: int| statement_shown(rows@[j], outstanding, from@, to@)),
        decreases rows@.len() - i,
    {
        let r = &rows[i];
        let date = chars_of(r.date.as_str());
        let head = date_part(r.date.as_str());
        proof {
            lemma_not_lt(date@, from@);
            lemma_not_lt(to@, head@);
        }
        let owed = !outstanding || (r.has_balance && !same_text(r.status.as_str(), "refunded"));
        let shown = owed && (f.len() == 0 || !text_less(date.as_slice(), f.as_slice())) && (t.len() == 0
            || !text_less(t.as_slice(), head.as_slice()));
        flags.push(shown);
        proof {
            assert(flags@ =~= Seq::new((i + 1) as nat, |j: int| statement_shown(rows@[j], outstanding, from@, to@)));
        }
        i = i + 1;
    }
    positions(flags.as_slice())
}

/// The expense date range is inclusive at both ends in text order: an
/// expense is listed exactly when it is of the chosen category (or none is
/// chosen), its date does not sort before a set from-text nor after a set
/// to-text, and the search hits its fields. An expense dated on the to-text
/// (or on the from-text) is listed when the other filters pass.
pub proof fn law_expense_dates_inclusive(
    r: ExpenseRow,
    category: Seq<char>,
    from: Seq<char>,
    to: Seq<char>,
    search: Seq<char>,
)
    ensures
        expense_shown(r, category, from, to, search) <==> {
            &&& (category.len() == 0 || category == r.category@)
            &&& (from.len() == 0 || !text_lt(r.expense_date@, from))
            &&& (to.len() == 0 || !text_lt(to, r.expense_date@))
            &&& search_hit(seq![r.expense_no@, r.description@, r.reference_no@, r.category@], search)
        },
        (category.len() == 0 || category == r.category@) && search_hit(
            seq![r.expense_no@, r.description@, r.reference_no@, r.category@],
            search,
        ) ==> expense_shown(r, category, r.expense_date@, r.expense_date@, search),
{
    lemma_not_lt(r.expense_date@, from);
    lemma_not_lt(to, r.expense_date@);
    lemma_text_lt_irreflexive(r.expense_date@);
}

/// The statement date range is inclusive at both ends in text order: a line
/// passes the dates exactly when its date does not sort before a set
/// from-text and its date part does not sort after a set to-text; a line
/// whose date part is the to-text passes it.
pub proof fn law_statement_dates_inclusive(r: StatementRow, outstanding: bool, from: Seq<char>, to: Seq<char>)
    ensures
        statement_shown(r, outstanding, from, to) <==> {
            &&& (!outstanding || (r.has_balance && r.status@ != "refunded"@))
            &&& (from.len() == 0 || !text_lt(r.date@, from))
            &&& (to.len() == 0 || !text_lt(to, date_head(r.date@)))
        },
        statement_shown(r, false, Seq::empty(), date_head(r.date@)),
{
    lemma_not_lt(r.date@, from);
    lemma_not_lt(to, date_head(r.date@));
    lemma_text_lt_irreflexive(date_head(r.date@));
}

} // verus!
