//! The SKU proposed for a new variant: the product's prefix and the first
//! two-digit (or longer) number that no variant of the product uses yet.
use vstd::prelude::*;
use crate::number::{digit_char, digits, digits_of};
use crate::text::{chars_of, push_all, push_str, same_text, string_of};

verus! {

/// `k` zeros.
pub open spec fn zeros(k: nat) -> Seq<char> {
    Seq::new(k, |i: int| '0')
}

/// `d` padded with leading zeros to at least `w` characters.
pub open spec fn zero_pad(d: Seq<char>, w: nat) -> Seq<char> {
    if d.len() < w {
        zeros((w - d.len()) as nat) + d
    } else {
        d
    }
}

/// The SKU prefix of a product: `VAR-NEW` for a product not saved yet, else
/// `P` and its id zero-padded to five characters (sign included).
pub open spec fn sku_prefix(id: i32) -> Seq<char> {
    if id == 0 {
        "VAR-NEW"@
    } else if id < 0 {
        "P-"@ + zero_pad(digits((-id) as nat), 4)
    } else {
        "P"@ + zero_pad(digits(id as nat), 5)
    }
}

/// The `n`th candidate SKU: the prefix, `-` and `n` padded to two digits.
pub open spec fn candidate(id: i32, n: nat) -> Seq<char> {
    sku_prefix(id) + "-"@ + zero_pad(digits(n), 2)
}

/// Some variant already has this SKU.
pub open spec fn taken(skus: Seq<Option<String>>, s: Seq<char>) -> bool {
    exists|i: int| 0 <= i < skus.len() && (#[trigger] skus[i]) is Some && skus[i]->Some_0@ == s
}

/// The value of a string of decimal digits.
pub open spec fn digits_value(s: Seq<char>) -> int
    decreases s.len(),
{
    if s.len() == 0 {
        0
    } else {
        digits_value(s.drop_last()) * 10 + (s.last() as int - '0' as int)
    }
}

proof fn lemma_digit_value(d: nat)
    requires
        d < 10,
    ensures
        digit_char(d) as int - '0' as int == d,
{
    let x: u32 = ('0' as u32 + d) as u32;
    assert(x == 48 + d);
    assert((x as char) as u32 == x);
}

proof fn lemma_digits_value(n: nat)
    ensures
        digits_value(digits(n)) == n,
    decreases n,
{
    lemma_digit_value(n % 10);
    if n >= 10 {
        lemma_digits_value(n / 10);
        assert(digits(n).drop_last() =~= digits(n / 10));
        assert(digits(n).last() == digit_char(n % 10));
        assert(n == (n / 10) * 10 + n % 10) by (nonlinear_arith);
        assert(digits_value(digits(n)) == digits_value(digits(n / 10)) * 10 + (digit_char(n % 10) as int - '0' as int));
    } else {
        assert(digits(n).drop_last() =~= Seq::<char>::empty());
        assert(digits(n).last() == digit_char(n));
        assert(digits_value(Seq::<char>::empty()) == 0);
        assert(digits_value(digits(n)) == digits_value(Seq::<char>::empty()) * 10 + (digit_char(n) as int - '0' as int));
    }
}

proof fn lemma_leading_zero_value(d: Seq<char>)
    ensures
        digits_value(seq!['0'] + d) == digits_value(d),
    decreases d.len(),
{
    if d.len() > 0 {
        lemma_leading_zero_value(d.drop_last());
        assert((seq!['0'] + d).drop_last() =~= seq!['0'] + d.drop_last());
        assert((seq!['0'] + d).last() == d.last());
        assert(digits_value(seq!['0'] + d) == digits_value(seq!['0'] + d.drop_last()) * 10 + (d.last() as int - '0' as int));
    } else {
        assert((seq!['0'] + d).drop_last() =~= Seq::<char>::empty());
        assert((seq!['0'] + d).last() == '0');
        assert(digits_value(Seq::<char>::empty()) == 0);
        assert(digits_value(seq!['0'] + d) == digits_value(Seq::<char>::empty()) * 10 + ('0' as int - '0' as int));
    }
}

proof fn lemma_pad_value(n: nat)
    ensures
        digits_value(zero_pad(digits(n), 2)) == n,
{
    lemma_digits_value(n);
    crate::number::lemma_digits_ascii(n);
    if digits(n).len() < 2 {
        assert(zeros(1) =~= seq!['0']);
        lemma_leading_zero_value(digits(n));
    }
}

/// Distinct numbers give distinct candidates.
proof fn lemma_candidates_differ(id: i32, m: nat, n: nat)
    requires
        m != n,
    ensures
        candidate(id, m) != candidate(id, n),
{
    let head = sku_prefix(id) + "-"@;
    lemma_pad_value(m);
    lemma_pad_value(n);
    if candidate(id, m) == candidate(id, n) {
        assert(candidate(id, m).skip(head.len() as int) =~= zero_pad(digits(m), 2));
        assert(candidate(id, n).skip(head.len() as int) =~= zero_pad(digits(n), 2));
    }
}

/// A duplicate-free sequence of values that all occur in `t` is no longer than `t`.
pub proof fn lemma_distinct_within<A>(s: Seq<A>, t: Seq<A>)
    requires
        s.no_duplicates(),
        forall|i: int| 0 <= i < s.len() ==> t.contains(#[trigger] s[i]),
    ensures
        s.len() <= t.len(),
{
    broadcast use vstd::seq_lib::seq_to_set_is_finite;

    s.unique_seq_to_set();
    t.lemma_cardinality_of_set();
    assert forall|x: A| s.to_set().contains(x) implies t.to_set().contains(x) by {
        let i = choose|i: int| 0 <= i < s.len() && s[i] == x;
        assert(t.contains(s[i]));
    }
    vstd::set_lib::lemma_len_subset(s.to_set(), t.to_set());
}

pub open spec fn sku_views(skus: Seq<Option<String>>) -> Seq<Seq<char>> {
    skus.map_values(
        |o: Option<String>|
            match o {
                Some(x) => x@,
                None => Seq::empty(),
            },
    )
}

/// While the candidates `1..n` are all taken, there are at least `n - 1`
/// SKUs.
proof fn lemma_taken_bound(id: i32, skus: Seq<Option<String>>, n: nat)
    requires
        n >= 1,
        forall|m: nat| 1 <= m < n ==> taken(skus, #[trigger] candidate(id, m)),
    ensures
        n - 1 <= skus.len(),
{
    let s = Seq::new((n - 1) as nat, |i: int| candidate(id, (i + 1) as nat));
    assert(s.no_duplicates()) by {
        assert forall|a: int, b: int| 0 <= a < s.len() && 0 <= b < s.len() && a != b implies s[a] != s[b] by {
            lemma_candidates_differ(id, (a + 1) as nat, (b + 1) as nat);
        }
    }
    assert forall|i: int| 0 <= i < s.len() implies sku_views(skus).contains(#[trigger] s[i]) by {
        let m = (i + 1) as nat;
        assert(taken(skus, candidate(id, m)));
        let k = choose|k: int| 0 <= k < skus.len() && (#[trigger] skus[k]) is Some && skus[k]->Some_0@ == candidate(id, m);
        assert(sku_views(skus)[k] == s[i]);
    }
    lemma_distinct_within(s, sku_views(skus));
}

fn padded_digits(n: u64, w: usize) -> (r: Vec<char>)
    ensures
        r@ == zero_pad(digits(n as nat), w as nat),
{
    let d = digits_of(n);
    if d.len() < w {
        let mut out: Vec<char> = Vec::new();
        let k = w - d.len();
        let mut i: usize = 0;
        while i < k
            invariant
                i <= k,
                out@ == zeros(i as nat),
            decreases k - i,
        {
            out.push('0');
            i = i + 1;
            proof {
                assert(out@ =~= zeros(i as nat));
            }
        }
        push_all(&mut out, d.as_slice());
        out
    } else {
        d
    }
}

fn prefix_of(id: i32) -> (r: Vec<char>)
    ensures
        r@ == sku_prefix(id),
{
    if id == 0 {
        chars_of("VAR-NEW")
    } else if id < 0 {
        let wide: i64 = id as i64;
        let m: u64 = (-wide) as u64;
        let mut v = chars_of("P-");
        let d = padded_digits(m, 4);
        push_all(&mut v, d.as_slice());
        v
    } else {
        let mut v = chars_of("P");
        let d = padded_digits(id as u64, 5);
        push_all(&mut v, d.as_slice());
        v
    }
}

fn is_taken(skus: &[Option<String>], s: &str) -> (r: bool)
    ensures
        r == taken(skus@, s@),
{
    let mut i: usize = 0;
    while i < skus.len()
        invariant
            i <= skus@.len(),
            forall|j: int| 0 <= j < i ==> !((#[trigger] skus@[j]) is Some && skus@[j]->Some_0@ == s@),
        decreases skus@.len() - i,
    {
        match &skus[i] {
            Some(x) => if same_text(x.as_str(), s) {
                return true;
            },
            None => {},
        }
        i = i + 1;
    }
    false
}

/// The SKU proposed for a new variant of product `id`, whose variants have
/// the SKUs `skus`: the first candidate, counting from 1, that no variant
/// has.
pub fn next_variant_sku(id: i32, skus: &[Option<String>]) -> (r: String)
    requires
        skus@.len() < u64::MAX,
    ensures
        exists|n: nat|
            n >= 1 && r@ == candidate(id, n) && !taken(skus@, candidate(id, n)) && forall|m: nat|
                1 <= m < n ==> taken(skus@, #[trigger] candidate(id, m)),
{
    let prefix = prefix_of(id);
    let mut n: u64 = 1;
    loop
        invariant
            1 <= n <= skus@.len() + 1,
            prefix@ == sku_prefix(id),
            skus@.len() < u64::MAX,
            forall|m: nat| 1 <= m < n ==> taken(skus@, #[trigger] candidate(id, m)),
        decreases skus@.len() + 1 - n,
    {
        let mut v: Vec<char> = Vec::new();
        push_all(&mut v, prefix.as_slice());
        push_str(&mut v, "-");
        let d = padded_digits(n, 2);
        push_all(&mut v, d.as_slice());
        let s = string_of(v.as_slice());
        assert(s@ == candidate(id, n as nat));
        if !is_taken(skus, s.as_str()) {
            return s;
        }
        proof {
            assert forall|m: nat| 1 <= m < n + 1 implies taken(skus@, #[trigger] candidate(id, m)) by {
                if m < n {
                } else {
                    assert(m == n);
                }
            }
            lemma_taken_bound(id, skus@, (n + 1) as nat);
        }
        n = n + 1;
    }
}

} // verus!
