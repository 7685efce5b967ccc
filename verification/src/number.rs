//! Decimal text of whole numbers and of money amounts.
use vstd::prelude::*;
use crate::text::{chars_of, first_index, push_all, push_str, split_first, split_once, string_of};

verus! {

/// The decimal digit for `d < 10`.
pub open spec fn digit_char(d: nat) -> char {
    ('0' as u32 + d) as char
}

/// The decimal digits of `n`, most significant first, without leading zeros.
pub open spec fn digits(n: nat) -> Seq<char>
    decreases n,
{
    if n < 10 {
        seq![digit_char(n)]
    } else {
        digits(n / 10).push(digit_char(n % 10))
    }
}

/// The decimal text of an integer, with `-` before a negative one.
pub open spec fn int_text(n: int) -> Seq<char> {
    if n < 0 {
        seq!['-'] + digits((-n) as nat)
    } else {
        digits(n as nat)
    }
}

pub proof fn lemma_digits_ascii(n: nat)
    ensures
        digits(n).len() >= 1,
        forall|i: int| 0 <= i < digits(n).len() ==> '0' <= #[trigger] digits(n)[i] <= '9',
    decreases n,
{
    if n >= 10 {
        lemma_digits_ascii(n / 10);
    }
}

fn digit_of(d: u64) -> (c: char)
    requires
        d < 10,
    ensures
        c == digit_char(d as nat),
{
    crate::text::char_from_ascii((d + 48) as u32)
}

/// The decimal digits of `n`.
pub fn digits_of(n: u64) -> (r: Vec<char>)
    ensures
        r@ == digits(n as nat),
    decreases n,
{
    if n < 10 {
        let mut v: Vec<char> = Vec::new();
        v.push(digit_of(n));
        proof {
            assert(v@ =~= digits(n as nat));
        }
        v
    } else {
        let mut v = digits_of(n / 10);
        v.push(digit_of(n % 10));
        v
    }
}

/// The decimal text of `n` (as `Display` writes it).
pub fn i64_text(n: i64) -> (r: Vec<char>)
    ensures
        r@ == int_text(n as int),
{
    if n < 0 {
        let m: u64 = if n == i64::MIN {
            9223372036854775808u64
        } else {
            (-n) as u64
        };
        let d = digits_of(m);
        let mut v: Vec<char> = Vec::new();
        v.push('-');
        push_all(&mut v, d.as_slice());
        proof {
            assert(v@ =~= seq!['-'] + digits(m as nat));
        }
        v
    } else {
        digits_of(n as u64)
    }
}

/// `w` with a `,` before each character (but the first) that has a multiple
/// of three of the `n` bytes from it to the end: thousands separators, as
/// the money formatters place them on the whole part of a number whose text
/// is `n` bytes long.
pub open spec fn grouped(w: Seq<char>, n: int, k: int) -> Seq<char>
    decreases k,
{
    if k <= 0 {
        Seq::empty()
    } else {
        grouped(w, n, k - 1) + (if k - 1 > 0 && (n - (k - 1)) % 3 == 0 {
            seq![',']
        } else {
            Seq::<char>::empty()
        }) + seq![w[k - 1]]
    }
}

/// The whole part `w` (of `n` bytes) with thousands separators.
pub fn group(w: &[char], n: usize) -> (r: Vec<char>)
    requires
        w@.len() <= n,
    ensures
        r@ == grouped(w@, n as int, w@.len() as int),
{
    let mut out: Vec<char> = Vec::new();
    let mut i: usize = 0;
    while i < w.len()
        invariant
            i <= w@.len() <= n,
            out@ == grouped(w@, n as int, i as int),
        decreases w@.len() - i,
    {
        if i > 0 && (n - i) % 3 == 0 {
            out.push(',');
        }
        out.push(w[i]);
        proof {
            assert(out@ =~= grouped(w@, n as int, i + 1));
        }
        i = i + 1;
    }
    out
}

/// Byte length of a text.
pub open spec fn byte_len(s: Seq<char>) -> int {
    vstd::utf8::encode_utf8(s).len() as int
}

/// The text `s` with `prefix` removed when it starts with it.
pub open spec fn strip_sign(s: Seq<char>) -> (Seq<char>, Seq<char>) {
    if s.len() > 0 && s[0] == '-' {
        (seq!['-'], s.drop_first())
    } else {
        (Seq::empty(), s)
    }
}

/// A decimal amount's text with thousands separators in its whole part,
/// its sign and its fraction kept, then a space and `unit`: how prices and
/// report amounts are shown (`-1,234,567.25 Ks`).
pub open spec fn amount_text(s: Seq<char>, unit: Seq<char>) -> Seq<char> {
    let (sign, rest) = strip_sign(s);
    sign + unsigned_amount(rest) + seq![' '] + unit
}

pub proof fn lemma_byte_len_bounds(s: Seq<char>)
    ensures
        s.len() <= byte_len(s),
    decreases s.len(),
{
    if s.len() > 0 {
        lemma_byte_len_bounds(s.drop_first());
    }
}

/// The number of bytes of the UTF-8 encoding of the characters.
pub(crate) fn byte_length(v: &[char]) -> (n: usize)
    ensures
        n == byte_len(v@),
{
    let s = string_of(v);
    s.as_str().as_bytes().len()
}

/// The whole part `w` with thousands separators placed by its byte length.
pub fn group_whole(w: &[char]) -> (r: Vec<char>)
    ensures
        r@ == grouped(w@, byte_len(w@), w@.len() as int),
{
    let n = byte_length(w);
    proof {
        lemma_byte_len_bounds(w@);
    }
    group(w, n)
}

/// The unsigned part of an amount's text: separators in the whole part, the
/// fraction kept.
pub open spec fn unsigned_amount(rest: Seq<char>) -> Seq<char> {
    match split_first(rest, '.') {
        Some(p) => grouped(p.0, byte_len(p.0), p.0.len() as int) + seq!['.'] + p.1,
        None => grouped(rest, byte_len(rest), rest.len() as int),
    }
}

fn unsigned_part(rest: &[char]) -> (r: Vec<char>)
    ensures
        r@ == unsigned_amount(rest@),
{
    match split_once(rest, '.') {
        Some((whole, fraction)) => {
            let mut g = group_whole(whole.as_slice());
            g.push('.');
            push_all(&mut g, fraction.as_slice());
            g
        },
        None => group_whole(rest),
    }
}

/// An amount's decimal text shown with separators and a unit.
pub fn format_amount(text: &str, unit: &str) -> (r: String)
    ensures
        r@ == amount_text(text@, unit@),
{
    let all = chars_of(text);
    let negative = all.len() > 0 && all[0] == '-';
    let rest = if negative {
        crate::text::slice_of(all.as_slice(), 1, all.len())
    } else {
        crate::text::slice_of(all.as_slice(), 0, all.len())
    };
    proof {
        assert(rest@ =~= strip_sign(text@).1);
    }
    let mut out: Vec<char> = Vec::new();
    if negative {
        out.push('-');
    }
    proof {
        assert(out@ =~= strip_sign(text@).0);
    }
    let body = unsigned_part(rest.as_slice());
    push_all(&mut out, body.as_slice());
    out.push(' ');
    push_str(&mut out, unit);
    proof {
        assert(out@ =~= strip_sign(text@).0 + unsigned_amount(strip_sign(text@).1) + seq![' '] + unit@);
    }
    string_of(out.as_slice())
}

/// An expense amount from its decimal text: separators in the whole part,
/// the fraction after `.` kept when not empty.
pub open spec fn money_text(s: Seq<char>) -> Seq<char> {
    match split_first(s, '.') {
        Some(p) => grouped(p.0, byte_len(p.0), p.0.len() as int) + (if p.1.len() > 0 {
            seq!['.'] + p.1
        } else {
            Seq::<char>::empty()
        }),
        None => grouped(s, byte_len(s), s.len() as int),
    }
}

/// An expense amount (rounded to cents, as decimal text) as listed.
pub fn money(text: &str) -> (r: String)
    ensures
        r@ == money_text(text@),
{
    let v = chars_of(text);
    match split_once(v.as_slice(), '.') {
        Some((whole, fraction)) => {
            let mut g = group_whole(whole.as_slice());
            if fraction.len() > 0 {
                g.push('.');
                push_all(&mut g, fraction.as_slice());
            }
            proof {
                assert(g@ =~= money_text(text@));
            }
            string_of(g.as_slice())
        },
        None => string_of(group_whole(v.as_slice()).as_slice()),
    }
}

/// A report cell as shown: money (its decimal text) with separators and the
/// currency, anything else as its plain text.
pub fn display_cell(plain: &str, is_money: bool, currency: &str) -> (r: String)
    ensures
        r@ == (if is_money {
            amount_text(plain@, currency@)
        } else {
            plain@
        }),
{
    if is_money {
        format_amount(plain, currency)
    } else {
        plain.to_owned()
    }
}

/// The text with its `,` separators left out.
pub open spec fn uncomma(s: Seq<char>) -> Seq<char>
    decreases s.len(),
{
    if s.len() == 0 {
        Seq::empty()
    } else {
        uncomma(s.drop_last()) + (if s.last() == ',' {
            Seq::<char>::empty()
        } else {
            seq![s.last()]
        })
    }
}

pub proof fn lemma_uncomma_add(a: Seq<char>, b: Seq<char>)
    ensures
        uncomma(a + b) == uncomma(a) + uncomma(b),
    decreases b.len(),
{
    if b.len() == 0 {
        assert(a + b =~= a);
        assert(uncomma(a) + uncomma(b) =~= uncomma(a));
    } else {
        lemma_uncomma_add(a, b.drop_last());
        assert((a + b).drop_last() =~= a + b.drop_last());
        assert((a + b).last() == b.last());
        assert(uncomma(a + b) =~= uncomma(a) + uncomma(b));
    }
}

pub proof fn lemma_uncomma_plain(s: Seq<char>)
    requires
        forall|i: int| 0 <= i < s.len() ==> s[i] != ',',
    ensures
        uncomma(s) == s,
    decreases s.len(),
{
    if s.len() > 0 {
        lemma_uncomma_plain(s.drop_last());
        assert(s.drop_last().push(s.last()) =~= s);
    }
}

proof fn lemma_uncomma_comma()
    ensures
        uncomma(seq![',']) == Seq::<char>::empty(),
{
    assert(seq![','].drop_last() =~= Seq::<char>::empty());
    assert(uncomma(Seq::<char>::empty()) == Seq::<char>::empty());
}

proof fn lemma_uncomma_grouped(w: Seq<char>, n: int, k: int)
    requires
        0 <= k <= w.len(),
        forall|i: int| 0 <= i < w.len() ==> w[i] != ',',
    ensures
        uncomma(grouped(w, n, k)) == w.subrange(0, k),
    decreases k,
{
    if k > 0 {
        lemma_uncomma_grouped(w, n, k - 1);
        let sep = if k - 1 > 0 && (n - (k - 1)) % 3 == 0 {
            seq![',']
        } else {
            Seq::<char>::empty()
        };
        lemma_uncomma_add(grouped(w, n, k - 1), sep);
        lemma_uncomma_add(grouped(w, n, k - 1) + sep, seq![w[k - 1]]);
        if sep.len() > 0 {
            lemma_uncomma_comma();
        } else {
            assert(uncomma(sep) == Seq::<char>::empty());
        }
        lemma_uncomma_plain(seq![w[k - 1]]);
        assert(w.subrange(0, k) =~= w.subrange(0, k - 1).push(w[k - 1]));
    }
}

/// Separators never change an amount: leaving out the `,` of a grouped whole
/// part (which holds no `,` itself) gives the whole part back.
pub proof fn law_grouping_keeps_digits(w: Seq<char>, n: int)
    requires
        forall|i: int| 0 <= i < w.len() ==> w[i] != ',',
    ensures
        uncomma(grouped(w, n, w.len() as int)) == w,
{
    lemma_uncomma_grouped(w, n, w.len() as int);
    assert(w.subrange(0, w.len() as int) =~= w);
}

/// The first `c` of a text, when it has one, is at a position holding `c`
/// with no `c` before it.
proof fn lemma_first_index(s: Seq<char>, c: char)
    ensures
        first_index(s, c) matches Some(i) ==> 0 <= i < s.len() && s[i] == c && forall|j: int|
            0 <= j < i ==> s[j] != c,
    decreases s.len(),
{
    if exists|i: int| 0 <= i < s.len() && s[i] == c {
        lemma_first_exists(s, c);
    }
}

proof fn lemma_first_exists(s: Seq<char>, c: char)
    requires
        exists|i: int| 0 <= i < s.len() && s[i] == c,
    ensures
        exists|i: int| 0 <= i < s.len() && s[i] == c && forall|j: int| 0 <= j < i ==> s[j] != c,
    decreases s.len(),
{
    let t = s.drop_last();
    if exists|i: int| 0 <= i < t.len() && t[i] == c {
        lemma_first_exists(t, c);
        let i = choose|i: int| 0 <= i < t.len() && t[i] == c && forall|j: int| 0 <= j < i ==> t[j] != c;
        assert(s[i] == t[i]);
        assert forall|j: int| 0 <= j < i implies s[j] != c by {
            assert(s[j] == t[j]);
        }
    } else {
        let k = s.len() - 1;
        assert forall|j: int| 0 <= j < k implies s[j] != c by {
            assert(t[j] == s[j]);
        }
        let w = choose|i: int| 0 <= i < s.len() && s[i] == c;
        if w < k {
            assert(t[w] == c);
        }
        assert(s[k] == c);
    }
}

/// Separators never change an amount: an amount written with separators and
/// a unit reads back, without its `,`, as its decimal text, a space and the
/// unit.
pub proof fn law_amount_text_keeps_amount(s: Seq<char>, unit: Seq<char>)
    requires
        forall|i: int| 0 <= i < s.len() ==> s[i] != ',',
        forall|i: int| 0 <= i < unit.len() ==> unit[i] != ',',
    ensures
        uncomma(amount_text(s, unit)) == s + seq![' '] + unit,
{
    let (sign, rest) = strip_sign(s);
    assert(s =~= sign + rest);
    assert forall|i: int| 0 <= i < rest.len() implies rest[i] != ',' by {
        assert(rest[i] == s[i + sign.len()]);
    }
    lemma_uncomma_plain(sign);
    lemma_uncomma_plain(unit);
    lemma_uncomma_plain(seq![' ']);
    lemma_first_index(rest, '.');
    match split_first(rest, '.') {
        Some(p) => {
            let i = first_index(rest, '.')->Some_0;
            assert(p.0 =~= rest.subrange(0, i));
            assert(p.1 =~= rest.subrange(i + 1, rest.len() as int));
            assert forall|k: int| 0 <= k < p.0.len() implies p.0[k] != ',' by {
                assert(p.0[k] == rest[k]);
            }
            assert forall|k: int| 0 <= k < p.1.len() implies p.1[k] != ',' by {
                assert(p.1[k] == rest[k + i + 1]);
            }
            law_grouping_keeps_digits(p.0, byte_len(p.0));
            let g = grouped(p.0, byte_len(p.0), p.0.len() as int);
            lemma_uncomma_plain(seq!['.'] + p.1);
            lemma_uncomma_add(g, seq!['.'] + p.1);
            assert(g + seq!['.'] + p.1 =~= g + (seq!['.'] + p.1));
            assert(rest =~= p.0 + (seq!['.'] + p.1));
            assert(uncomma(unsigned_amount(rest)) == rest);
        },
        None => {
            law_grouping_keeps_digits(rest, byte_len(rest));
            assert(uncomma(unsigned_amount(rest)) == rest);
        },
    }
    lemma_uncomma_add(sign, unsigned_amount(rest));
    lemma_uncomma_add(sign + unsigned_amount(rest), seq![' ']);
    lemma_uncomma_add(sign + unsigned_amount(rest) + seq![' '], unit);
}

} // verus!
