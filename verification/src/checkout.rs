//! Checkout rules: discounts, the default payment type and what the cashier
//! types or scans.
use vstd::prelude::*;
use crate::settings::{setting_value, value_or, Settings};
use crate::text::{
    chars_of, eq_ignore_ascii_case, eq_ignore_case, lowercase, push_all, string_of, to_lowercase, trim,
    trimmed,
};

verus! {

/// Whether the text is one of the words the settings use for "on".
pub open spec fn switched_on(v: Seq<char>) -> bool {
    v == "1"@ || v == "true"@ || v == "yes"@ || v == "on"@
}

/// The cashier types the discount: discounts are switched on (`1`, `true`,
/// `yes`, `on`, any case) and their type is `manual`, any ASCII case.
pub open spec fn manual_discount_allowed(m: Map<Seq<char>, Seq<char>>) -> bool {
    switched_on(lowercase(value_or(m, "discount_enabled"@, "0"@))) && eq_ignore_case(
        value_or(m, "discount_type"@, "manual"@),
        "manual"@,
    )
}

fn is_one_of(v: &str, words: &[&str]) -> (r: bool)
    ensures
        r == exists|i: int| 0 <= i < words@.len() && v@ == #[trigger] words@[i]@,
{
    let mut i: usize = 0;
    while i < words.len()
        invariant
            i <= words@.len(),
            forall|j: int| 0 <= j < i ==> v@ != #[trigger] words@[j]@,
        decreases words@.len() - i,
    {
        if crate::text::same_text(v, words[i]) {
            return true;
        }
        i = i + 1;
    }
    false
}

/// Whether the cashier enters the discount by hand.
pub fn checkout_manual_discount(settings: &Settings) -> (r: bool)
    ensures
        r == manual_discount_allowed(settings@),
{
    let enabled = setting_value(settings, "discount_enabled", "0");
    let lower = to_lowercase(enabled.as_str());
    let words = ["1", "true", "yes", "on"];
    let on = is_one_of(lower.as_str(), &words);
    proof {
        if switched_on(lower@) {
            assert(lower@ == words@[0]@ || lower@ == words@[1]@ || lower@ == words@[2]@ || lower@ == words@[3]@);
        }
    }
    if !on {
        return false;
    }
    let kind = setting_value(settings, "discount_type", "manual");
    eq_ignore_ascii_case(kind.as_str(), "manual")
}

/// How the discount of a sale is decided when the cashier does not type it.
#[derive(Debug, PartialEq, Eq)]
pub enum DiscountRule {
    /// No discount.
    NoDiscount,
    /// This percentage (as text) of the subtotal.
    Percentage(String),
    /// This amount (as text), at most the subtotal.
    Fixed(String),
}

/// Exactly one of the words the automatic discount accepts as "on".
pub open spec fn default_switch_on(v: Seq<char>) -> bool {
    v == "1"@ || v == "true"@ || v == "True"@ || v == "yes"@ || v == "on"@
}

/// The automatic discount the settings describe: none unless switched on,
/// then by the lower-cased type `percentage` or `fixed` with the
/// `discount_value` text (default `0`).
pub open spec fn discount_rule_of(m: Map<Seq<char>, Seq<char>>, rule: DiscountRule) -> bool {
    let value = value_or(m, "discount_value"@, "0"@);
    let kind = lowercase(value_or(m, "discount_type"@, "manual"@));
    if !default_switch_on(value_or(m, "discount_enabled"@, "0"@)) {
        rule == DiscountRule::NoDiscount
    } else if kind == "percentage"@ {
        rule matches DiscountRule::Percentage(v) && v@ == value
    } else if kind == "fixed"@ {
        rule matches DiscountRule::Fixed(v) && v@ == value
    } else {
        rule == DiscountRule::NoDiscount
    }
}

/// The automatic discount rule of the settings.
pub fn checkout_discount_rule(settings: &Settings) -> (r: DiscountRule)
    ensures
        discount_rule_of(settings@, r),
{
    let enabled = setting_value(settings, "discount_enabled", "0");
    let words = ["1", "true", "True", "yes", "on"];
    let on = is_one_of(enabled.as_str(), &words);
    proof {
        if default_switch_on(enabled@) {
            assert(enabled@ == words@[0]@ || enabled@ == words@[1]@ || enabled@ == words@[2]@ || enabled@
                == words@[3]@ || enabled@ == words@[4]@);
        }
    }
    if !on {
        return DiscountRule::NoDiscount;
    }
    let value = setting_value(settings, "discount_value", "0");
    let kind = setting_value(settings, "discount_type", "manual");
    let lower = to_lowercase(kind.as_str());
    if crate::text::same_text(lower.as_str(), "percentage") {
        DiscountRule::Percentage(value)
    } else if crate::text::same_text(lower.as_str(), "fixed") {
        DiscountRule::Fixed(value)
    } else {
        DiscountRule::NoDiscount
    }
}

/// The first name equal to `target` ignoring ASCII case.
pub open spec fn first_match(names: Seq<Seq<char>>, target: Seq<char>) -> Option<int> {
    if exists|i: int| 0 <= i < names.len() && eq_ignore_case(#[trigger] names[i], target) {
        Some(
            choose|i: int|
                0 <= i < names.len() && eq_ignore_case(#[trigger] names[i], target) && forall|j: int|
                    0 <= j < i ==> !eq_ignore_case(#[trigger] names[j], target),
        )
    } else {
        None
    }
}

pub open spec fn names_view(v: Seq<String>) -> Seq<Seq<char>> {
    v.map_values(|s: String| s@)
}

/// The payment type a new sale starts with: the configured one when some
/// payment type has that name (ASCII case ignored), else the first named
/// `cash`, else the first, else `Cash`.
pub open spec fn default_payment(m: Map<Seq<char>, Seq<char>>, names: Seq<Seq<char>>) -> Seq<char> {
    let configured = value_or(m, "default_payment_type"@, Seq::empty());
    if configured.len() > 0 && first_match(names, configured) is Some {
        configured
    } else {
        match first_match(names, "cash"@) {
            Some(i) => names[i],
            None => if names.len() > 0 {
                names[0]
            } else {
                "Cash"@
            },
        }
    }
}

fn find_name(names: &[String], target: &str) -> (r: Option<usize>)
    ensures
        match r {
            Some(i) => i < names@.len() && first_match(names_view(names@), target@) == Some(i as int),
            None => first_match(names_view(names@), target@) is None,
        },
{
    let ghost v = names_view(names@);
    let mut i: usize = 0;
    while i < names.len()
        invariant
            i <= names@.len(),
            v == names_view(names@),
            forall|j: int| 0 <= j < i ==> !eq_ignore_case(#[trigger] v[j], target@),
        decreases names@.len() - i,
    {
        if eq_ignore_ascii_case(names[i].as_str(), target) {
            proof {
                assert(eq_ignore_case(v[i as int], target@));
                let k = choose|k: int|
                    0 <= k < v.len() && eq_ignore_case(#[trigger] v[k], target@) && forall|j: int|
                        0 <= j < k ==> !eq_ignore_case(#[trigger] v[j], target@);
                if k < i {
                } else if k > i {
                    assert(!eq_ignore_case(v[i as int], target@));
                }
            }
            return Some(i);
        }
        i = i + 1;
    }
    None
}

/// The payment type a new sale starts with.
pub fn default_payment_type(settings: &Settings, payment_types: &[String]) -> (r: String)
    ensures
        r@ == default_payment(settings@, names_view(payment_types@)),
{
    proof {
        reveal_strlit("");
    }
    let configured = setting_value(settings, "default_payment_type", "");
    if !configured.as_str().is_empty() {
        if find_name(payment_types, configured.as_str()).is_some() {
            return configured;
        }
    }
    match find_name(payment_types, "cash") {
        Some(i) => payment_types[i].clone(),
        None => if payment_types.len() > 0 {
            payment_types[0].clone()
        } else {
            "Cash".to_owned()
        },
    }
}

/// A Myanmar digit (U+1040 to U+1049) read as its ASCII digit; other characters kept.
pub open spec fn scan_char(c: char) -> char {
    if '\u{1040}' <= c && c <= '\u{1049}' {
        ((c as u32) - 0x1040 + 48) as char
    } else {
        c
    }
}

/// A scanned or typed code: trimmed, with Myanmar digits read as ASCII digits.
pub open spec fn scanned(s: Seq<char>) -> Seq<char> {
    trimmed(s).map_values(|c: char| scan_char(c))
}

/// A scanned or typed code as the catalogue looks it up.
pub fn normalize_scan(value: &str) -> (r: String)
    ensures
        r@ == scanned(value@),
{
    let v = chars_of(value);
    let t = trim(v.as_slice());
    let mut out: Vec<char> = Vec::new();
    let mut i: usize = 0;
    while i < t.len()
        invariant
            i <= t@.len(),
            out@ == t@.subrange(0, i as int).map_values(|c: char| scan_char(c)),
        decreases t@.len() - i,
    {
        let c = t[i];
        let d = if '\u{1040}' <= c && c <= '\u{1049}' {
            crate::text::char_from_ascii((c as u32) - 0x1040 + 48)
        } else {
            c
        };
        out.push(d);
        proof {
            assert(out@ =~= t@.subrange(0, i + 1).map_values(|c: char| scan_char(c)));
        }
        i = i + 1;
    }
    proof {
        assert(t@.subrange(0, i as int) =~= t@);
    }
    string_of(out.as_slice())
}

/// The ASCII digits of `s`, in order.
pub open spec fn digits_in(s: Seq<char>) -> Seq<char> {
    s.filter(|c: char| crate::text::is_digit(c))
}

/// Number of leading `0` characters.
pub open spec fn zeros(s: Seq<char>) -> nat
    decreases s.len(),
{
    if s.len() > 0 && s[0] == '0' {
        1 + zeros(s.drop_first())
    } else {
        0
    }
}

/// A whole-number field as typed: its digits without leading zeros, `0` when
/// all were zeros, empty when there were none.
pub open spec fn whole_number_input(s: Seq<char>) -> Seq<char> {
    let d = digits_in(s);
    let t = d.subrange(zeros(d) as int, d.len() as int);
    if d.len() == 0 || t.len() > 0 {
        t
    } else {
        "0"@
    }
}

proof fn lemma_zeros_is(s: Seq<char>, k: int)
    requires
        0 <= k <= s.len(),
        forall|i: int| 0 <= i < k ==> #[trigger] s[i] == '0',
        k < s.len() ==> s[k] != '0',
    ensures
        zeros(s) == k,
    decreases s.len(),
{
    if k > 0 {
        assert forall|i: int| 0 <= i < k - 1 implies #[trigger] s.drop_first()[i] == '0' by {
            assert(s.drop_first()[i] == s[i + 1]);
        }
        lemma_zeros_is(s.drop_first(), k - 1);
    }
}

/// The digits kept from what was typed into a whole-number field.
pub fn only_digits(value: &str) -> (r: String)
    ensures
        r@ == whole_number_input(value@),
{
    let v = chars_of(value);
    let mut d: Vec<char> = Vec::new();
    let mut i: usize = 0;
    while i < v.len()
        invariant
            i <= v@.len(),
            v@ == value@,
            d@ == digits_in(v@.subrange(0, i as int)),
        decreases v@.len() - i,
    {
        let ghost before = v@.subrange(0, i as int);
        if crate::text::digit(v[i]) {
            d.push(v[i]);
        }
        proof {
            let s = v@.subrange(0, i + 1);
            assert(s.drop_last() =~= before);
            reveal_with_fuel(Seq::<_>::filter, 1);
            assert(d@ =~= digits_in(s));
        }
        i = i + 1;
    }
    proof {
        assert(v@.subrange(0, i as int) =~= v@);
    }
    let mut z: usize = 0;
    while z < d.len() && d[z] == '0'
        invariant
            z <= d@.len(),
            forall|j: int| 0 <= j < z ==> #[trigger] d@[j] == '0',
        decreases d@.len() - z,
    {
        z = z + 1;
    }
    proof {
        lemma_zeros_is(d@, z as int);
    }
    let t = crate::text::slice_of(d.as_slice(), z, d.len());
    if d.len() == 0 || t.len() > 0 {
        string_of(t.as_slice())
    } else {
        "0".to_owned()
    }
}

/// A decimal field as typed: digits and the first `.` kept, everything else
/// dropped, with `0` put before a leading `.`.
pub open spec fn decimal_kept(s: Seq<char>) -> Seq<char>
    decreases s.len(),
{
    if s.len() == 0 {
        Seq::empty()
    } else {
        let prev = decimal_kept(s.drop_last());
        let c = s.last();
        if crate::text::is_digit(c) {
            prev.push(c)
        } else if c == '.' && !prev.contains('.') {
            prev.push(c)
        } else {
            prev
        }
    }
}

pub open spec fn decimal_text(s: Seq<char>) -> Seq<char> {
    let k = decimal_kept(s);
    if k.len() > 0 && k[0] == '.' {
        seq!['0'] + k
    } else {
        k
    }
}

/// What is kept of what was typed into a decimal field.
pub fn decimal_input(value: &str) -> (r: String)
    ensures
        r@ == decimal_text(value@),
{
    let v = chars_of(value);
    let mut out: Vec<char> = Vec::new();
    let mut has_dot = false;
    let mut i: usize = 0;
    while i < v.len()
        invariant
            i <= v@.len(),
            v@ == value@,
            out@ == decimal_kept(v@.subrange(0, i as int)),
            has_dot == out@.contains('.'),
        decreases v@.len() - i,
    {
        let c = v[i];
        let ghost before = out@;
        if crate::text::digit(c) {
            out.push(c);
        } else if c == '.' && !has_dot {
            out.push(c);
            has_dot = true;
        }
        proof {
            let s = v@.subrange(0, i + 1);
            assert(s.drop_last() =~= v@.subrange(0, i as int));
            if crate::text::is_digit(c) {
                assert(c != '.');
                if out@.contains('.') {
                    let j = choose|j: int| 0 <= j < out@.len() && out@[j] == '.';
                    if j < before.len() {
                        assert(before[j] == '.');
                    }
                }
                if before.contains('.') {
                    let j = choose|j: int| 0 <= j < before.len() && before[j] == '.';
                    assert(out@[j] == '.');
                }
            } else if c == '.' && !before.contains('.') {
                assert(out@[before.len() as int] == '.');
            }
        }
        i = i + 1;
    }
    proof {
        assert(v@.subrange(0, i as int) =~= v@);
    }
    if out.len() > 0 && out[0] == '.' {
        let mut r: Vec<char> = Vec::new();
        r.push('0');
        push_all(&mut r, out.as_slice());
        string_of(r.as_slice())
    } else {
        string_of(out.as_slice())
    }
}

/// The received amount after a keypad key: the key appended, then kept as
/// a decimal field keeps what is typed.
pub fn keypad_press(received: &str, key: &str) -> (r: String)
    ensures
        r@ == decimal_text(received@ + key@),
{
    let mut v = chars_of(received);
    crate::text::push_str(&mut v, key);
    decimal_input(string_of(v.as_slice()).as_str())
}

/// The received amount after the backspace key: its last character removed.
pub fn keypad_back(received: &str) -> (r: String)
    ensures
        r@ == if received@.len() == 0 { received@ } else { received@.drop_last() },
{
    let v = chars_of(received);
    if v.len() == 0 {
        return string_of(v.as_slice());
    }
    let kept = crate::text::slice_of(v.as_slice(), 0, v.len() - 1);
    proof {
        assert(kept@ =~= received@.drop_last());
    }
    string_of(kept.as_slice())
}

/// The names without those equal to `Credit` ignoring ASCII case.
pub open spec fn without_credit(names: Seq<Seq<char>>) -> Seq<Seq<char>>
    decreases names.len(),
{
    if names.len() == 0 {
        Seq::empty()
    } else {
        without_credit(names.drop_last()) + if eq_ignore_case(names.last(), "Credit"@) {
            Seq::<Seq<char>>::empty()
        } else {
            seq![names.last()]
        }
    }
}

/// Some name is `Cash`, ignoring ASCII case.
pub open spec fn has_cash_name(names: Seq<Seq<char>>) -> bool {
    exists|i: int| 0 <= i < names.len() && eq_ignore_case(#[trigger] names[i], "Cash"@)
}

/// The payment choices at checkout: the shop's payment types (`Cash` and
/// `Credit` when it has none) without credit, with `Cash` first when it is
/// missing, and `Credit` last for a sale to a chosen customer.
pub open spec fn payment_choices(types: Seq<Seq<char>>, has_customer: bool) -> Seq<Seq<char>> {
    let base = if types.len() == 0 { seq!["Cash"@, "Credit"@] } else { types };
    let kept = without_credit(base);
    let with_cash = if has_cash_name(kept) {
        kept
    } else {
        seq!["Cash"@] + kept
    };
    if has_customer {
        with_cash.push("Credit"@)
    } else {
        with_cash
    }
}

/// The payment choices offered at checkout.
pub fn payment_options(payment_types: &[String], has_customer: bool) -> (r: Vec<String>)
    ensures
        names_view(r@) == payment_choices(names_view(payment_types@), has_customer),
{
    let mut base: Vec<String> = Vec::new();
    if payment_types.len() == 0 {
        base.push("Cash".to_owned());
        base.push("Credit".to_owned());
    } else {
        let mut i: usize = 0;
        while i < payment_types.len()
            invariant
                i <= payment_types@.len(),
                names_view(base@) == names_view(payment_types@.take(i as int)),
            decreases payment_types@.len() - i,
        {
            let ghost before = names_view(base@);
            let c = payment_types[i].clone();
            base.push(c);
            proof {
                assert(names_view(base@) =~= before.push(payment_types@[i as int]@));
                assert(payment_types@.take(i + 1) =~= payment_types@.take(i as int).push(payment_types@[i as int]));
                assert(names_view(payment_types@.take(i + 1)) =~= names_view(payment_types@.take(i as int)).push(
                    payment_types@[i as int]@,
                ));
            }
            i = i + 1;
        }
        proof {
            assert(payment_types@.take(payment_types@.len() as int) =~= payment_types@);
        }
    }
    let ghost types = names_view(base@);
    proof {
        assert(types == if names_view(payment_types@).len() == 0 {
            seq!["Cash"@, "Credit"@]
        } else {
            names_view(payment_types@)
        });
    }
    let mut out: Vec<String> = Vec::new();
    let mut has_cash = false;
    let mut i: usize = 0;
    while i < base.len()
        invariant
            i <= base@.len(),
            types == names_view(base@),
            names_view(out@) == without_credit(types.take(i as int)),
            has_cash == has_cash_name(names_view(out@)),
        decreases base@.len() - i,
    {
        proof {
            assert(types.take(i + 1).drop_last() =~= types.take(i as int));
            assert(types.take(i + 1).last() == base@[i as int]@);
        }
        if !eq_ignore_ascii_case(base[i].as_str(), "Credit") {
            let ghost before = names_view(out@);
            let cash = eq_ignore_ascii_case(base[i].as_str(), "Cash");
            out.push(base[i].clone());
            proof {
                assert(names_view(out@) =~= before.push(base@[i as int]@));
                if has_cash {
                    let j = choose|j: int| 0 <= j < before.len() && eq_ignore_case(#[trigger] before[j], "Cash"@);
                    assert(names_view(out@)[j] == before[j]);
                }
                if cash {
                    assert(eq_ignore_case(names_view(out@)[before.len() as int], "Cash"@));
                }
                if exists|j: int| 0 <= j < names_view(out@).len() && eq_ignore_case(#[trigger] names_view(out@)[j], "Cash"@) {
                    let j = choose|j: int| 0 <= j < names_view(out@).len() && eq_ignore_case(#[trigger] names_view(out@)[j], "Cash"@);
                    if j < before.len() {
                        assert(names_view(out@)[j] == before[j]);
                    }
                }
            }
            has_cash = has_cash || cash;
        }
        i = i + 1;
    }
    proof {
        assert(types.take(base@.len() as int) =~= types);
    }
    let mut r: Vec<String> = Vec::new();
    if !has_cash {
        r.push("Cash".to_owned());
    }
    let ghost head = names_view(r@);
    let mut k: usize = 0;
    while k < out.len()
        invariant
            k <= out@.len(),
            names_view(r@) == head + names_view(out@).take(k as int),
        decreases out@.len() - k,
    {
        let ghost before = names_view(r@);
        let c = out[k].clone();
        r.push(c);
        proof {
            assert(names_view(r@) =~= before.push(out@[k as int]@));
            assert(names_view(out@).take(k + 1) =~= names_view(out@).take(k as int).push(out@[k as int]@));
        }
        k = k + 1;
    }
    proof {
        assert(names_view(out@).take(out@.len() as int) =~= names_view(out@));
    }
    proof {
        assert(names_view(r@) =~= head + names_view(out@));
        assert(head =~= if has_cash { Seq::<Seq<char>>::empty() } else { seq!["Cash"@] });
        assert(names_view(out@) == without_credit(types));
        let base_spec = if names_view(payment_types@).len() == 0 {
            seq!["Cash"@, "Credit"@]
        } else {
            names_view(payment_types@)
        };
        assert(types == base_spec);
        let kept = without_credit(base_spec);
        let with_cash = if has_cash { kept } else { seq!["Cash"@] + kept };
        assert(names_view(r@) =~= with_cash);
    }
    let ghost mid = names_view(r@);
    if has_customer {
        r.push("Credit".to_owned());
        proof {
            assert(names_view(r@) =~= mid.push("Credit"@));
        }
    }
    r
}

} // verus!
