//! Categories listed as a tree: each parent followed by its children, with
//! the depth and the path of parent names that lead to it.
use vstd::prelude::*;
use crate::text::{push_all, push_str, string_of};

verus! {

/// A category: its id, its parent's id, and its name.
pub struct CategoryRecord {
    pub id: i32,
    pub parent_id: Option<i32>,
    pub name: String,
}

/// A listed category: where it stands in the input, its depth, and the names
/// of its ancestors, each after a space.
pub struct OrderedCategory {
    pub index: usize,
    pub depth: usize,
    pub path: String,
}

/// The ids of the listed categories, in list order.
pub open spec fn listed_ids(rows: Seq<CategoryRecord>, out: Seq<OrderedCategory>) -> Seq<i32> {
    out.map_values(|e: OrderedCategory| rows[e.index as int].id)
}

/// Entry `k` is placed: at depth 0 with an empty path, or one deeper than an
/// earlier entry for its parent, with the parent's path and name as its path.
pub open spec fn placed(rows: Seq<CategoryRecord>, out: Seq<OrderedCategory>, k: int) -> bool {
    let e = out[k];
    (e.depth == 0 && e.path@ == Seq::<char>::empty()) || exists|p: int|
        0 <= p < k && rows[e.index as int].parent_id == Some(rows[out[p].index as int].id)
            && #[trigger] out[p].depth + 1 == e.depth && e.path@ == out[p].path@ + " "@
            + rows[out[p].index as int].name@
}

/// What holds of the list while it is built.
pub open spec fn sound(rows: Seq<CategoryRecord>, out: Seq<OrderedCategory>, seen: Seq<i32>) -> bool {
    &&& seen == listed_ids(rows, out)
    &&& seen.no_duplicates()
    &&& forall|k: int| 0 <= k < out.len() ==> (#[trigger] out[k]).index < rows.len()
    &&& forall|k: int| 0 <= k < out.len() ==> #[trigger] placed(rows, out, k)
}

pub open spec fn row_ids(rows: Seq<CategoryRecord>) -> Seq<i32> {
    rows.map_values(|r: CategoryRecord| r.id)
}

/// A listed entry as values: position in the input, depth and path.
pub type EntryView = (int, int, Seq<char>);

impl OrderedCategory {
    pub open spec fn view(self) -> EntryView {
        (self.index as int, self.depth as int, self.path@)
    }
}

pub open spec fn entries_view(out: Seq<OrderedCategory>) -> Seq<EntryView> {
    out.map_values(|e: OrderedCategory| e.view())
}

/// The ids in the input not yet in `seen`: how much listing is left.
pub open spec fn unseen(rows: Seq<CategoryRecord>, seen: Set<i32>) -> nat {
    row_ids(rows).to_set().difference(seen).len()
}

pub proof fn lemma_unseen_shrinks(rows: Seq<CategoryRecord>, seen: Set<i32>, more: Set<i32>)
    ensures
        unseen(rows, seen.union(more)) <= unseen(rows, seen),
{
    broadcast use vstd::seq_lib::seq_to_set_is_finite;

    let all = row_ids(rows).to_set();
    assert(all.difference(seen.union(more)).subset_of(all.difference(seen)));
    vstd::set_lib::lemma_len_subset(all.difference(seen.union(more)), all.difference(seen));
}

pub proof fn lemma_unseen_drops(rows: Seq<CategoryRecord>, seen: Set<i32>, i: int)
    requires
        0 <= i < rows.len(),
        !seen.contains(rows[i].id),
    ensures
        unseen(rows, seen.insert(rows[i].id)) < unseen(rows, seen),
{
    broadcast use vstd::seq_lib::seq_to_set_is_finite;

    let all = row_ids(rows).to_set();
    let id = rows[i].id;
    assert(row_ids(rows)[i] == id);
    assert(all.contains(id));
    assert(all.difference(seen.insert(id)) =~= all.difference(seen).remove(id));
}

/// Listing row `i` at `depth` under `path`, with the ids in `seen` already
/// listed: nothing when its id was listed; else the row, then each row whose
/// parent it is, in input order, one level deeper, under the path extended
/// by a space and its name. Also gives the ids listed by then.
pub open spec fn visit_rows(
    rows: Seq<CategoryRecord>,
    i: int,
    depth: int,
    path: Seq<char>,
    seen: Set<i32>,
) -> (Seq<EntryView>, Set<i32>)
    decreases unseen(rows, seen), 0int, 0int,
{
    if i < 0 || i >= rows.len() || seen.contains(rows[i].id) {
        (Seq::empty(), seen)
    } else {
        proof {
            lemma_unseen_drops(rows, seen, i);
        }
        let below = children_rows(
            rows,
            rows[i].id,
            0,
            depth + 1,
            path + " "@ + rows[i].name@,
            seen.insert(rows[i].id),
        );
        (seq![(i, depth, path)] + below.0, below.1)
    }
}

/// Listing, from row `j` on, the rows whose parent has the id `parent`.
pub open spec fn children_rows(
    rows: Seq<CategoryRecord>,
    parent: i32,
    j: int,
    depth: int,
    path: Seq<char>,
    seen: Set<i32>,
) -> (Seq<EntryView>, Set<i32>)
    decreases unseen(rows, seen), 1int, rows.len() - j,
{
    if j < 0 || j >= rows.len() {
        (Seq::empty(), seen)
    } else {
        let here = if rows[j].parent_id == Some(parent) {
            visit_rows(rows, j, depth, path, seen)
        } else {
            (Seq::empty(), seen)
        };
        proof {
            lemma_unseen_shrinks(rows, seen, here.1);
        }
        let rest = children_rows(rows, parent, j + 1, depth, path, seen.union(here.1));
        (here.0 + rest.0, rest.1)
    }
}

/// Listing, from row `j` on, every row (`roots_only`: every row without a
/// parent) at the top.
pub open spec fn top_rows(rows: Seq<CategoryRecord>, j: int, roots_only: bool, seen: Set<i32>) -> (
    Seq<EntryView>,
    Set<i32>,
)
    decreases rows.len() - j,
{
    if j < 0 || j >= rows.len() {
        (Seq::empty(), seen)
    } else {
        let here = if !roots_only || rows[j].parent_id is None {
            visit_rows(rows, j, 0, Seq::empty(), seen)
        } else {
            (Seq::empty(), seen)
        };
        let rest = top_rows(rows, j + 1, roots_only, seen.union(here.1));
        (here.0 + rest.0, rest.1)
    }
}

/// The tree list: the rows without a parent and what lies below them, then
/// every row not listed yet (a row whose parent is missing, or in a cycle)
/// with what lies below it.
pub open spec fn tree_list(rows: Seq<CategoryRecord>) -> Seq<EntryView> {
    let roots = top_rows(rows, 0, true, Set::empty());
    roots.0 + top_rows(rows, 0, false, roots.1).0
}

proof fn lemma_seen_bounded(rows: Seq<CategoryRecord>, out: Seq<OrderedCategory>, seen: Seq<i32>)
    requires
        sound(rows, out, seen),
    ensures
        seen.len() <= rows.len(),
{
    assert forall|i: int| 0 <= i < seen.len() implies row_ids(rows).contains(#[trigger] seen[i]) by {
        let j = out[i].index as int;
        assert(row_ids(rows)[j] == seen[i]);
    }
    crate::products::lemma_distinct_within(seen, row_ids(rows));
}

proof fn lemma_placed_grows(rows: Seq<CategoryRecord>, a: Seq<OrderedCategory>, b: Seq<OrderedCategory>, k: int)
    requires
        a.len() <= b.len(),
        0 <= k < a.len(),
        forall|i: int| 0 <= i < a.len() ==> b[i] == a[i],
        placed(rows, a, k),
    ensures
        placed(rows, b, k),
{
    if !(a[k].depth == 0 && a[k].path@ == Seq::<char>::empty()) {
        let p = choose|p: int|
            0 <= p < k && rows[a[k].index as int].parent_id == Some(rows[a[p].index as int].id)
                && #[trigger] a[p].depth + 1 == a[k].depth && a[k].path@ == a[p].path@ + " "@ + rows[a[p].index as int].name@;
        assert(b[p] == a[p]);
    }
}

fn seen_contains(seen: &Vec<i32>, id: i32) -> (r: bool)
    ensures
        r == seen@.contains(id),
{
    let mut i: usize = 0;
    while i < seen.len()
        invariant
            i <= seen@.len(),
            forall|j: int| 0 <= j < i ==> seen@[j] != id,
        decreases seen@.len() - i,
    {
        if seen[i] == id {
            return true;
        }
        i = i + 1;
    }
    false
}

/// Whether an entry may be added for row `at` at this depth and path: at the
/// top, or as a child of an entry already listed.
pub open spec fn may_list(
    rows: Seq<CategoryRecord>,
    out: Seq<OrderedCategory>,
    at: int,
    depth: int,
    path: Seq<char>,
) -> bool {
    (depth == 0 && path == Seq::<char>::empty()) || exists|p: int|
        0 <= p < out.len() && rows[at].parent_id == Some(rows[out[p].index as int].id)
            && #[trigger] out[p].depth + 1 == depth && path == out[p].path@ + " "@ + rows[out[p].index as int].name@
}

fn visit(
    rows: &[CategoryRecord],
    at: usize,
    depth: usize,
    path: &[char],
    seen: &mut Vec<i32>,
    out: &mut Vec<OrderedCategory>,
)
    requires
        at < rows@.len(),
        sound(rows@, old(out)@, old(seen)@),
        depth <= old(seen)@.len(),
        may_list(rows@, old(out)@, at as int, depth as int, path@),
    ensures
        sound(rows@, final(out)@, final(seen)@),
        old(out)@.len() <= final(out)@.len(),
        forall|i: int| 0 <= i < old(out)@.len() ==> final(out)@[i] == old(out)@[i],
        final(seen)@.contains(rows@[at as int].id),
        forall|x: i32| old(seen)@.contains(x) ==> final(seen)@.contains(x),
        entries_view(final(out)@) == entries_view(old(out)@) + visit_rows(
            rows@,
            at as int,
            depth as int,
            path@,
            old(seen)@.to_set(),
        ).0,
        final(seen)@.to_set() == visit_rows(rows@, at as int, depth as int, path@, old(seen)@.to_set()).1,
    decreases rows@.len() - old(seen)@.len(),
{
    proof {
        lemma_seen_bounded(rows@, out@, seen@);
    }
    let id = rows[at].id;
    if seen_contains(seen, id) {
        proof {
            assert(old(seen)@.to_set().contains(id));
        }
        return;
    }
    let ghost entry_len = seen@.len();
    let ghost before = out@;
    seen.push(id);
    out.push(OrderedCategory { index: at, depth, path: string_of(path) });
    proof {
        assert(seen@ =~= listed_ids(rows@, out@));
        assert forall|k: int| 0 <= k < out@.len() implies #[trigger] placed(rows@, out@, k) by {
            if k < before.len() {
                lemma_placed_grows(rows@, before, out@, k);
            } else {
                if !(depth == 0 && path@ == Seq::<char>::empty()) {
                    let p = choose|p: int|
                        0 <= p < before.len() && rows@[at as int].parent_id == Some(rows@[before[p].index as int].id)
                            && #[trigger] before[p].depth + 1 == depth && path@ == before[p].path@ + " "@
                            + rows@[before[p].index as int].name@;
                    assert(out@[p] == before[p]);
                }
            }
        }
        assert(seen@.no_duplicates()) by {
            assert forall|a: int, b: int| 0 <= a < b < seen@.len() implies seen@[a] != seen@[b] by {
                if b == seen@.len() - 1 {
                    assert(old(seen)@[a] == seen@[a]);
                }
            }
        }
        lemma_seen_bounded(rows@, out@, seen@);
        assert(seen@[seen@.len() - 1] == id);
        assert forall|x: i32| old(seen)@.contains(x) implies seen@.contains(x) by {
            let q = choose|q: int| 0 <= q < old(seen)@.len() && old(seen)@[q] == x;
            assert(seen@[q] == x);
        }
    }
    let me = out.len() - 1;
    let mut child_path: Vec<char> = Vec::new();
    push_all(&mut child_path, path);
    push_str(&mut child_path, " ");
    push_str(&mut child_path, rows[at].name.as_str());
    let ghost first = out@;
    let ghost s0 = seen@.to_set();
    proof {
        assert(s0 =~= old(seen)@.to_set().insert(id));
        assert(entries_view(first) =~= entries_view(old(out)@).push((at as int, depth as int, path@)));
        assert(entries_view(out@).skip(first.len() as int) =~= Seq::<EntryView>::empty());
    }
    let mut j: usize = 0;
    while j < rows.len()
        invariant
            s0 == old(seen)@.to_set().insert(id),
            entries_view(first) == entries_view(old(out)@).push((at as int, depth as int, path@)),
            children_rows(rows@, id, 0, depth + 1, child_path@, s0).0 == entries_view(out@).skip(first.len() as int)
                + children_rows(rows@, id, j as int, depth + 1, child_path@, seen@.to_set()).0,
            children_rows(rows@, id, 0, depth + 1, child_path@, s0).1 == children_rows(
                rows@,
                id,
                j as int,
                depth + 1,
                child_path@,
                seen@.to_set(),
            ).1,
            at < rows@.len(),
            me == first.len() - 1,
            first[me as int].index == at,
            first[me as int].depth == depth,
            first[me as int].path@ == path@,
            child_path@ == path@ + " "@ + rows@[at as int].name@,
            sound(rows@, out@, seen@),
            seen@.len() > entry_len,
            entry_len == old(seen)@.len(),
            depth <= entry_len,
            first.len() <= out@.len(),
            before.len() <= first.len(),
            forall|i: int| 0 <= i < first.len() ==> out@[i] == first[i],
            forall|i: int| 0 <= i < before.len() ==> first[i] == before[i],
            before == old(out)@,
            seen@.contains(id),
            id == rows@[at as int].id,
            forall|x: i32| old(seen)@.contains(x) ==> seen@.contains(x),
        decreases rows@.len() - j,
    {
        let is_child = match rows[j].parent_id {
            Some(p) => p == id,
            None => false,
        };
        let ghost big_s = seen@.to_set();
        let ghost o = entries_view(out@);
        let ghost here = if rows@[j as int].parent_id == Some(id) {
            visit_rows(rows@, j as int, depth + 1, child_path@, big_s)
        } else {
            (Seq::<EntryView>::empty(), big_s)
        };
        proof {
            assert(children_rows(rows@, id, j as int, depth + 1, child_path@, big_s) == (
                here.0 + children_rows(rows@, id, j + 1, depth + 1, child_path@, big_s.union(here.1)).0,
                children_rows(rows@, id, j + 1, depth + 1, child_path@, big_s.union(here.1)).1,
            ));
        }
        if is_child {
            proof {
                lemma_seen_bounded(rows@, out@, seen@);
                assert(out@[me as int] == first[me as int]);
                assert(may_list(rows@, out@, j as int, depth + 1, child_path@));
            }
            let ghost mid = out@;
            let ghost mid_seen = seen@;
            visit(rows, j, depth + 1, child_path.as_slice(), seen, out);
            proof {
                assert forall|i: int| 0 <= i < first.len() implies out@[i] == first[i] by {
                    assert(mid[i] == first[i]);
                }
                assert(mid_seen.contains(id));
                assert(big_s.union(here.1) =~= seen@.to_set());
                assert(entries_view(out@).skip(first.len() as int) =~= o.skip(first.len() as int) + here.0);
            }
        } else {
            proof {
                assert(big_s.union(here.1) =~= big_s);
            }
        }
        j = j + 1;
    }
    proof {
        assert forall|i: int| 0 <= i < before.len() implies out@[i] == before[i] by {
            assert(first[i] == before[i]);
        }
        assert(!old(seen)@.to_set().contains(id));
        assert(entries_view(out@) =~= entries_view(first) + entries_view(out@).skip(first.len() as int));
    }
}

/// The categories as a tree list (`tree_list`): every category appears once
/// (by id), a child one level deeper than, and after, its parent with the
/// parent's path and name as its path; tops (and categories whose parent is
/// never listed before them) at depth 0 with an empty path.
pub fn ordered(rows: &[CategoryRecord]) -> (r: Vec<OrderedCategory>)
    ensures
        entries_view(r@) == tree_list(rows@),
        forall|k: int| 0 <= k < r@.len() ==> (#[trigger] r@[k]).index < rows@.len(),
        listed_ids(rows@, r@).no_duplicates(),
        forall|i: int| 0 <= i < rows@.len() ==> listed_ids(rows@, r@).contains(#[trigger] rows@[i].id),
        forall|k: int| 0 <= k < r@.len() ==> #[trigger] placed(rows@, r@, k),
        forall|i: int|
            0 <= i < rows@.len() && rows@[i].parent_id is None && (forall|j: int| 0 <= j < rows@.len() && j != i ==> rows@[j].id != rows@[i].id)
                ==> exists|k: int| 0 <= k < r@.len() && (#[trigger] r@[k]).index == i && r@[k].depth == 0,
{
    let mut out: Vec<OrderedCategory> = Vec::new();
    let mut seen: Vec<i32> = Vec::new();
    proof {
        assert(seen@ =~= listed_ids(rows@, out@));
        assert(seen@.to_set() =~= Set::<i32>::empty());
        assert(entries_view(out@) =~= Seq::<EntryView>::empty());
    }
    let ghost roots = top_rows(rows@, 0, true, Set::empty());
    let mut i: usize = 0;
    while i < rows.len()
        invariant
            i <= rows@.len(),
            sound(rows@, out@, seen@),
            forall|j: int| 0 <= j < i && rows@[j].parent_id is None ==> seen@.contains(#[trigger] rows@[j].id),
            roots == top_rows(rows@, 0, true, Set::empty()),
            roots.0 == entries_view(out@) + top_rows(rows@, i as int, true, seen@.to_set()).0,
            roots.1 == top_rows(rows@, i as int, true, seen@.to_set()).1,
        decreases rows@.len() - i,
    {
        let ghost big_s = seen@.to_set();
        let ghost o = entries_view(out@);
        let ghost here = if rows@[i as int].parent_id is None {
            visit_rows(rows@, i as int, 0, Seq::empty(), big_s)
        } else {
            (Seq::<EntryView>::empty(), big_s)
        };
        if rows[i].parent_id.is_none() {
            proof {
                reveal_strlit(" ");
            }
            let empty: Vec<char> = Vec::new();
            visit(rows, i, 0, empty.as_slice(), &mut seen, &mut out);
            proof {
                assert(big_s.union(here.1) =~= seen@.to_set());
            }
        } else {
            proof {
                assert(big_s.union(here.1) =~= big_s);
            }
        }
        proof {
            assert(top_rows(rows@, i as int, true, big_s).0 == here.0 + top_rows(rows@, i + 1, true, big_s.union(here.1)).0);
            assert(entries_view(out@) =~= o + here.0);
        }
        i = i + 1;
    }
    let ghost rest = top_rows(rows@, 0, false, roots.1);
    proof {
        assert(entries_view(out@) =~= roots.0);
    }
    let mut i: usize = 0;
    while i < rows.len()
        invariant
            i <= rows@.len(),
            sound(rows@, out@, seen@),
            forall|j: int| 0 <= j < i ==> seen@.contains(#[trigger] rows@[j].id),
            rest == top_rows(rows@, 0, false, roots.1),
            roots.0 + rest.0 == entries_view(out@) + top_rows(rows@, i as int, false, seen@.to_set()).0,
        decreases rows@.len() - i,
    {
        let ghost big_s = seen@.to_set();
        let ghost o = entries_view(out@);
        let ghost here = visit_rows(rows@, i as int, 0, Seq::empty(), big_s);
        let empty: Vec<char> = Vec::new();
        visit(rows, i, 0, empty.as_slice(), &mut seen, &mut out);
        proof {
            assert(big_s.union(here.1) =~= seen@.to_set());
            assert(top_rows(rows@, i as int, false, big_s).0 == here.0 + top_rows(rows@, i + 1, false, big_s.union(here.1)).0);
            assert(entries_view(out@) =~= o + here.0);
        }
        i = i + 1;
    }
    proof {
        assert(entries_view(out@) =~= tree_list(rows@));
    }
    proof {
        assert forall|i: int|
            0 <= i < rows@.len() && rows@[i].parent_id is None && (forall|j: int| 0 <= j < rows@.len() && j != i ==> rows@[j].id != rows@[i].id)
            implies exists|k: int| 0 <= k < out@.len() && (#[trigger] out@[k]).index == i && out@[k].depth == 0 by {
            assert(seen@.contains(rows@[i].id));
            let k = choose|k: int| 0 <= k < seen@.len() && seen@[k] == rows@[i].id;
            assert(listed_ids(rows@, out@)[k] == rows@[out@[k].index as int].id);
            assert(out@[k].index < rows@.len());
            assert(out@[k].index == i);
            assert(placed(rows@, out@, k));
        }
    }
    out
}

} // verus!
