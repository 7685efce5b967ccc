//! Key/value settings as the shop database and the local files hold them.
use vstd::prelude::*;
use crate::text::{blank, is_blank, listed, same_text, strs_view};

verus! {

/// The text view of a list of key/value pairs.
pub open spec fn pairs_view(v: Seq<(String, String)>) -> Seq<(Seq<char>, Seq<char>)> {
    v.map_values(|p: (String, String)| (p.0@, p.1@))
}

/// No key occurs twice.
pub open spec fn unique_keys(s: Seq<(Seq<char>, Seq<char>)>) -> bool {
    forall|i: int, j: int| 0 <= i < j < s.len() ==> #[trigger] s[i].0 != #[trigger] s[j].0
}

/// `m` with the pairs inserted in order: a later pair wins.
pub open spec fn overlay(m: Map<Seq<char>, Seq<char>>, s: Seq<(Seq<char>, Seq<char>)>) -> Map<
    Seq<char>,
    Seq<char>,
>
    decreases s.len(),
{
    if s.len() == 0 {
        m
    } else {
        overlay(m, s.drop_last()).insert(s.last().0, s.last().1)
    }
}

pub proof fn lemma_overlay_union(m: Map<Seq<char>, Seq<char>>, s: Seq<(Seq<char>, Seq<char>)>)
    ensures
        overlay(m, s) == m.union_prefer_right(pairs_map(s)),
    decreases s.len(),
{
    if s.len() == 0 {
        assert(m.union_prefer_right(pairs_map(s)) =~= m);
    } else {
        lemma_overlay_union(m, s.drop_last());
        assert(overlay(m, s) =~= m.union_prefer_right(pairs_map(s)));
    }
}

/// Some pair has key `k`.
pub open spec fn has_key(s: Seq<(Seq<char>, Seq<char>)>, k: Seq<char>) -> bool {
    exists|i: int| 0 <= i < s.len() && #[trigger] s[i].0 == k
}

/// Whether `k` is kept when keeping (`keep`) or dropping (`!keep`) `keys`.
pub open spec fn selected(keys: Seq<Seq<char>>, keep: bool, k: Seq<char>) -> bool {
    keys.contains(k) == keep
}

/// The map that inserting the pairs in order gives: a later pair wins.
pub open spec fn pairs_map(s: Seq<(Seq<char>, Seq<char>)>) -> Map<Seq<char>, Seq<char>>
    decreases s.len(),
{
    if s.len() == 0 {
        Map::empty()
    } else {
        pairs_map(s.drop_last()).insert(s.last().0, s.last().1)
    }
}

pub proof fn lemma_pairs_map_domain(s: Seq<(Seq<char>, Seq<char>)>, k: Seq<char>)
    ensures
        pairs_map(s).contains_key(k) <==> exists|i: int| 0 <= i < s.len() && #[trigger] s[i].0 == k,
    decreases s.len(),
{
    if s.len() > 0 {
        lemma_pairs_map_domain(s.drop_last(), k);
        if pairs_map(s.drop_last()).contains_key(k) {
            let i = choose|i: int| 0 <= i < s.drop_last().len() && #[trigger] s.drop_last()[i].0 == k;
            assert(s[i].0 == k);
        }
        if exists|i: int| 0 <= i < s.len() && #[trigger] s[i].0 == k {
            let i = choose|i: int| 0 <= i < s.len() && #[trigger] s[i].0 == k;
            if i < s.len() - 1 {
                assert(s.drop_last()[i].0 == k);
            }
        }
    }
}

pub proof fn lemma_pairs_map_value(s: Seq<(Seq<char>, Seq<char>)>, i: int)
    requires
        unique_keys(s),
        0 <= i < s.len(),
    ensures
        pairs_map(s).contains_key(s[i].0),
        pairs_map(s)[s[i].0] == s[i].1,
    decreases s.len(),
{
    if i < s.len() - 1 {
        assert(unique_keys(s.drop_last())) by {
            assert forall|a: int, b: int| 0 <= a < b < s.drop_last().len() implies
                #[trigger] s.drop_last()[a].0 != #[trigger] s.drop_last()[b].0 by {
                assert(s.drop_last()[a] == s[a] && s.drop_last()[b] == s[b]);
            }
        }
        lemma_pairs_map_value(s.drop_last(), i);
        assert(s.drop_last()[i] == s[i]);
        assert(s[i].0 != s.last().0);
    }
}

/// Replacing the pair of key `k` changes only the value under `k`.
pub proof fn lemma_pairs_map_update(s: Seq<(Seq<char>, Seq<char>)>, i: int, v: Seq<char>)
    requires
        unique_keys(s),
        0 <= i < s.len(),
    ensures
        unique_keys(s.update(i, (s[i].0, v))),
        pairs_map(s.update(i, (s[i].0, v))) == pairs_map(s).insert(s[i].0, v),
{
    let t = s.update(i, (s[i].0, v));
    assert(unique_keys(t)) by {
        assert forall|a: int, b: int| 0 <= a < b < t.len() implies #[trigger] t[a].0 != #[trigger] t[b].0 by {
            assert(t[a].0 == s[a].0 && t[b].0 == s[b].0);
        }
    }
    let m = pairs_map(s).insert(s[i].0, v);
    assert forall|k: Seq<char>| #[trigger] pairs_map(t).contains_key(k) <==> m.contains_key(k) by {
        lemma_pairs_map_domain(t, k);
        lemma_pairs_map_domain(s, k);
        if exists|j: int| 0 <= j < s.len() && #[trigger] s[j].0 == k {
            let j = choose|j: int| 0 <= j < s.len() && #[trigger] s[j].0 == k;
            assert(t[j].0 == k);
        }
        if exists|j: int| 0 <= j < t.len() && #[trigger] t[j].0 == k {
            let j = choose|j: int| 0 <= j < t.len() && #[trigger] t[j].0 == k;
            assert(s[j].0 == k);
        }
        assert(t[i].0 == s[i].0);
    }
    assert forall|k: Seq<char>| #[trigger] pairs_map(t).contains_key(k) implies pairs_map(t)[k] == m[k] by {
        lemma_pairs_map_domain(t, k);
        let j = choose|j: int| 0 <= j < t.len() && #[trigger] t[j].0 == k;
        lemma_pairs_map_value(t, j);
        if j != i {
            lemma_pairs_map_value(s, j);
            assert(s[j].0 != s[i].0);
        }
    }
    assert(pairs_map(t) =~= m);
}

/// Settings: text values looked up by text keys.
pub struct Settings {
    entries: Vec<(String, String)>,
}

impl Settings {
    #[verifier::type_invariant]
    spec fn keys_are_unique(self) -> bool {
        unique_keys(pairs_view(self.entries@))
    }

    /// The pairs in insertion order.
    pub closed spec fn pairs(self) -> Seq<(Seq<char>, Seq<char>)> {
        pairs_view(self.entries@)
    }

    /// Settings with no entry.
    pub fn new() -> (s: Settings)
        ensures
            s@ == Map::<Seq<char>, Seq<char>>::empty(),
            s.pairs().len() == 0,
    {
        let s = Settings { entries: Vec::new() };
        assert(pairs_view(s.entries@) =~= Seq::empty());
        s
    }

    /// Where `key` stands among the entries, if it is there.
    fn position(&self, key: &str) -> (r: Option<usize>)
        ensures
            match r {
                Some(i) => i < self.entries@.len() && self.entries@[i as int].0@ == key@,
                None => forall|i: int| 0 <= i < self.entries@.len() ==> self.entries@[i].0@ != key@,
            },
    {
        let mut i: usize = 0;
        while i < self.entries.len()
            invariant
                i <= self.entries@.len(),
                forall|j: int| 0 <= j < i ==> self.entries@[j].0@ != key@,
            decreases self.entries@.len() - i,
        {
            if same_text(self.entries[i].0.as_str(), key) {
                return Some(i);
            }
            i = i + 1;
        }
        None
    }

    /// The value stored under `key`.
    pub fn get(&self, key: &str) -> (r: Option<&String>)
        ensures
            match r {
                Some(v) => self@.contains_key(key@) && self@[key@] == v@,
                None => !self@.contains_key(key@),
            },
    {
        proof {
            use_type_invariant(self);
            lemma_pairs_map_domain(self.pairs(), key@);
        }
        match self.position(key) {
            Some(i) => {
                proof {
                    lemma_pairs_map_value(self.pairs(), i as int);
                }
                Some(&self.entries[i].1)
            },
            None => {
                proof {
                    assert forall|j: int| 0 <= j < self.pairs().len() implies #[trigger] self.pairs()[j].0
                        != key@ by {
                        assert(self.pairs()[j].0 == self.entries@[j].0@);
                    }
                }
                None
            },
        }
    }
}

impl Settings {
    /// Store `value` under `key`, in place of any value it had.
    pub fn insert(&mut self, key: String, value: String)
        ensures
            final(self)@ == old(self)@.insert(key@, value@),
    {
        proof {
            use_type_invariant(&*self);
        }
        let ghost old_pairs = self.pairs();
        let found = self.position(key.as_str());
        let mut entries: Vec<(String, String)> = Vec::new();
        std::mem::swap(&mut entries, &mut self.entries);
        match found {
            Some(i) => {
                proof {
                    lemma_pairs_map_update(old_pairs, i as int, value@);
                }
                let ghost kv = key@;
                let ghost vv = value@;
                entries.set(i, (key, value));
                proof {
                    assert(pairs_view(entries@) =~= old_pairs.update(i as int, (old_pairs[i as int].0, vv)));
                }
                self.entries = entries;
            },
            None => {
                let ghost kv = key@;
                let ghost vv = value@;
                entries.push((key, value));
                proof {
                    assert(pairs_view(entries@) =~= old_pairs.push((kv, vv)));
                    assert(pairs_view(entries@).drop_last() =~= old_pairs);
                    assert forall|a: int, b: int| 0 <= a < b < pairs_view(entries@).len() implies
                        #[trigger] pairs_view(entries@)[a].0 != #[trigger] pairs_view(entries@)[b].0 by {
                        if b == old_pairs.len() {
                            assert(old_pairs[a].0 == entries@[a].0@);
                        }
                    }
                }
                self.entries = entries;
            },
        }
    }
}

impl Settings {
    /// The entries whose key is (`keep`) or is not (`!keep`) in `keys`.
    pub fn filtered(&self, keys: &[&str], keep: bool) -> (r: Settings)
        ensures
            r@ == (if keep {
                self@.restrict(strs_view(keys@).to_set())
            } else {
                self@.remove_keys(strs_view(keys@).to_set())
            }),
            forall|k: Seq<char>| #[trigger] r@.contains_key(k) ==> (strs_view(keys@).contains(k) == keep),
    {
        proof {
            use_type_invariant(self);
        }
        let ghost src = self.pairs();
        let mut out: Vec<(String, String)> = Vec::new();
        let mut i: usize = 0;
        while i < self.entries.len()
            invariant
                i <= self.entries@.len(),
                src == pairs_view(self.entries@),
                unique_keys(src),
                unique_keys(pairs_view(out@)),
                forall|a: int| 0 <= a < out@.len() ==> selected(strs_view(keys@), keep, #[trigger] pairs_view(out@)[a].0),
                forall|a: int| #![trigger pairs_view(out@)[a]] 0 <= a < out@.len() ==> exists|b: int| 0 <= b < i && #[trigger] src[b] == pairs_view(out@)[a],
                forall|b: int| 0 <= b < i && selected(strs_view(keys@), keep, #[trigger] src[b].0) ==> has_key(pairs_view(out@), src[b].0),
            decreases self.entries@.len() - i,
        {
            proof {
                assert(src[i as int] == (self.entries@[i as int].0@, self.entries@[i as int].1@));
            }
            let kept = listed(keys, self.entries[i].0.as_str()) == keep;
            if kept {
                let ghost before = pairs_view(out@);
                let pair = (self.entries[i].0.clone(), self.entries[i].1.clone());
                out.push(pair);
                proof {
                    let now = pairs_view(out@);
                    assert(now =~= before.push(src[i as int]));
                    assert forall|a: int, b: int| 0 <= a < b < now.len() implies #[trigger] now[a].0 != #[trigger] now[b].0 by {
                        if b == before.len() {
                            let c = choose|c: int| 0 <= c < i && #[trigger] src[c] == before[a];
                            assert(src[c].0 != src[i as int].0);
                        } else {
                            assert(now[a] == before[a] && now[b] == before[b]);
                        }
                    }
                    assert forall|a: int| #![trigger pairs_view(out@)[a]] 0 <= a < out@.len() implies exists|b: int| 0 <= b < i + 1 && #[trigger] src[b] == pairs_view(out@)[a] by {
                        if a == before.len() {
                            assert(src[i as int] == now[a]);
                        } else {
                            assert(now[a] == before[a]);
                            let c = choose|c: int| 0 <= c < i && #[trigger] src[c] == before[a];
                            assert(src[c] == now[a]);
                        }
                    }
                    assert forall|b: int| 0 <= b < i + 1 && selected(strs_view(keys@), keep, #[trigger] src[b].0) implies has_key(now, src[b].0) by {
                        if b == i {
                            assert(now[before.len() as int].0 == src[b].0);
                        } else {
                            let c = choose|c: int| 0 <= c < before.len() && #[trigger] before[c].0 == src[b].0;
                            assert(now[c].0 == src[b].0);
                        }
                    }
                }
            } else {
                proof {
                    assert(!selected(strs_view(keys@), keep, src[i as int].0));
                }
            }
            i = i + 1;
        }
        let r = Settings { entries: out };
        proof {
            let o = pairs_view(out@);
            let target = if keep {
                self@.restrict(strs_view(keys@).to_set())
            } else {
                self@.remove_keys(strs_view(keys@).to_set())
            };
            assert forall|k: Seq<char>| #[trigger] pairs_map(o).contains_key(k) <==> target.contains_key(k) by {
                lemma_pairs_map_domain(o, k);
                lemma_pairs_map_domain(src, k);
                if has_key(o, k) {
                    let a = choose|a: int| 0 <= a < o.len() && #[trigger] o[a].0 == k;
                    let b = choose|b: int| 0 <= b < i && #[trigger] src[b] == o[a];
                    assert(src[b].0 == k);
                    assert(selected(strs_view(keys@), keep, o[a].0));
                }
                if target.contains_key(k) {
                    let b = choose|b: int| 0 <= b < src.len() && #[trigger] src[b].0 == k;
                    assert(selected(strs_view(keys@), keep, src[b].0));
                }
            }
            assert forall|k: Seq<char>| #[trigger] pairs_map(o).contains_key(k) implies pairs_map(o)[k] == target[k] by {
                lemma_pairs_map_domain(o, k);
                let a = choose|a: int| 0 <= a < o.len() && #[trigger] o[a].0 == k;
                let b = choose|b: int| 0 <= b < i && #[trigger] src[b] == o[a];
                lemma_pairs_map_value(o, a);
                lemma_pairs_map_value(src, b);
            }
            assert(pairs_map(o) =~= target);
            assert forall|k: Seq<char>| #[trigger] pairs_map(o).contains_key(k) implies (strs_view(keys@).contains(k) == keep) by {
                lemma_pairs_map_domain(o, k);
                let a = choose|a: int| 0 <= a < o.len() && #[trigger] o[a].0 == k;
                assert(selected(strs_view(keys@), keep, o[a].0));
            }
        }
        r
    }
}

impl Settings {
    /// Insert the pairs in order; a later pair wins.
    pub fn extend_pairs(&mut self, pairs: &[(String, String)])
        ensures
            final(self)@ == overlay(old(self)@, pairs_view(pairs@)),
            final(self)@ == old(self)@.union_prefer_right(pairs_map(pairs_view(pairs@))),
    {
        let ghost start = self@;
        let mut i: usize = 0;
        while i < pairs.len()
            invariant
                i <= pairs@.len(),
                self@ == overlay(start, pairs_view(pairs@).take(i as int)),
            decreases pairs@.len() - i,
        {
            let key = pairs[i].0.clone();
            let value = pairs[i].1.clone();
            self.insert(key, value);
            proof {
                let t = pairs_view(pairs@).take(i + 1);
                assert(t.drop_last() =~= pairs_view(pairs@).take(i as int));
                assert(t.last() == (pairs@[i as int].0@, pairs@[i as int].1@));
            }
            i = i + 1;
        }
        proof {
            assert(pairs_view(pairs@).take(i as int) =~= pairs_view(pairs@));
            lemma_overlay_union(start, pairs_view(pairs@));
        }
    }

    /// Settings built from pairs inserted in order; a later pair wins.
    pub fn from_pairs(pairs: &[(String, String)]) -> (s: Settings)
        ensures
            s@ == pairs_map(pairs_view(pairs@)),
    {
        let mut s = Settings::new();
        s.extend_pairs(pairs);
        proof {
            assert(s@ =~= pairs_map(pairs_view(pairs@)));
        }
        s
    }

    /// Every entry of `other` stored here, in place of any value it had.
    pub fn extend(&mut self, other: &Settings)
        ensures
            final(self)@ == old(self)@.union_prefer_right(other@),
    {
        self.extend_pairs(other.entries.as_slice());
    }

    /// The entries as pairs of strings, each key once.
    pub fn to_pairs(&self) -> (r: Vec<(String, String)>)
        ensures
            pairs_view(r@) == self.pairs(),
            unique_keys(pairs_view(r@)),
            pairs_map(pairs_view(r@)) == self@,
    {
        proof {
            use_type_invariant(self);
        }
        let mut out: Vec<(String, String)> = Vec::new();
        let mut i: usize = 0;
        while i < self.entries.len()
            invariant
                i <= self.entries@.len(),
                pairs_view(out@) == pairs_view(self.entries@).take(i as int),
            decreases self.entries@.len() - i,
        {
            let k = self.entries[i].0.clone();
            let v = self.entries[i].1.clone();
            let ghost before = out@;
            out.push((k, v));
            proof {
                assert(out@ == before.push((k, v)));
                assert(pairs_view(out@) =~= pairs_view(before).push((k@, v@)));
                assert(pairs_view(out@) =~= pairs_view(self.entries@).take(i + 1));
            }
            i = i + 1;
        }
        proof {
            assert(pairs_view(self.entries@).take(i as int) =~= pairs_view(self.entries@));
        }
        out
    }

    /// Whether some value is stored under `key`.
    pub fn contains_key(&self, key: &str) -> (r: bool)
        ensures
            r == self@.contains_key(key@),
    {
        self.get(key).is_some()
    }
}

impl View for Settings {
    type V = Map<Seq<char>, Seq<char>>;

    closed spec fn view(&self) -> Map<Seq<char>, Seq<char>> {
        pairs_map(pairs_view(self.entries@))
    }
}

/// The value under `key` unless it is missing or blank; `fallback` then.
pub open spec fn value_or(m: Map<Seq<char>, Seq<char>>, key: Seq<char>, fallback: Seq<char>) -> Seq<char> {
    if m.contains_key(key) && !blank(m[key]) {
        m[key]
    } else {
        fallback
    }
}

/// The setting under `key`, or `fallback` when it is missing or blank.
pub fn setting_value(settings: &Settings, key: &str, fallback: &str) -> (r: String)
    ensures
        r@ == value_or(settings@, key@, fallback@),
{
    match settings.get(key) {
        Some(v) => {
            if is_blank(v.as_str()) {
                fallback.to_owned()
            } else {
                v.clone()
            }
        },
        None => fallback.to_owned(),
    }
}

/// Each key with its setting, blank when missing.
pub fn settings_rows(settings: &Settings, keys: &[&str]) -> (r: Vec<(String, String)>)
    ensures
        r@.len() == keys@.len(),
        forall|i: int|
            0 <= i < keys@.len() ==> (#[trigger] r@[i]).0@ == keys@[i]@ && r@[i].1@ == value_or(
                settings@,
                keys@[i]@,
                Seq::empty(),
            ),
{
    let mut out: Vec<(String, String)> = Vec::new();
    let mut i: usize = 0;
    while i < keys.len()
        invariant
            i <= keys@.len(),
            out@.len() == i,
            forall|j: int|
                0 <= j < i ==> (#[trigger] out@[j]).0@ == keys@[j]@ && out@[j].1@ == value_or(
                    settings@,
                    keys@[j]@,
                    Seq::empty(),
                ),
        decreases keys@.len() - i,
    {
        let empty = "";
        proof {
            reveal_strlit("");
        }
        let value = setting_value(settings, keys[i], empty);
        out.push((keys[i].to_owned(), value));
        i = i + 1;
    }
    out
}

} // verus!
