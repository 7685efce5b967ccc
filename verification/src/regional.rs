//! The shop currency: how it is chosen from the settings and how amounts in
//! it are written.
use vstd::prelude::*;
use crate::number::{amount_text, format_amount};
use crate::settings::Settings;
use crate::text::{chars_of, lower_ascii_seq, to_lower_ascii, trim, trimmed};

verus! {

/// A currency the shop can work in.
#[derive(Clone, Copy, Debug, PartialEq, Eq)]
pub enum Currency {
    Kyats,
    Dollar,
    Baht,
}

/// The currency that a setting value names (trimmed, ASCII case ignored).
pub open spec fn currency_named(v: Seq<char>) -> Option<Currency> {
    let t = lower_ascii_seq(trimmed(v));
    if t == "kyats (ks)"@ || t == "ks"@ || t == "mmk"@ || t == "kyats"@ {
        Some(Currency::Kyats)
    } else if t == "dollar ($)"@ || t == "$"@ || t == "usd"@ || t == "dollar"@ {
        Some(Currency::Dollar)
    } else if t == "baht (b)"@ || t == "b"@ || t == "thb"@ || t == "baht"@ {
        Some(Currency::Baht)
    } else {
        None
    }
}

/// The currency a value of the settings map names, if present.
pub open spec fn currency_at(m: Map<Seq<char>, Seq<char>>, key: Seq<char>) -> Option<Currency> {
    if m.contains_key(key) {
        currency_named(m[key])
    } else {
        None
    }
}

/// The shop currency: named by `currency`, else by `currency_symbol`, else kyats.
pub open spec fn currency_of(m: Map<Seq<char>, Seq<char>>) -> Currency {
    match currency_at(m, "currency"@) {
        Some(c) => c,
        None => match currency_at(m, "currency_symbol"@) {
            Some(c) => c,
            None => Currency::Kyats,
        },
    }
}

pub open spec fn symbol_of(c: Currency) -> Seq<char> {
    match c {
        Currency::Kyats => "Ks"@,
        Currency::Dollar => "$"@,
        Currency::Baht => "B"@,
    }
}

pub open spec fn name_of(c: Currency) -> Seq<char> {
    match c {
        Currency::Kyats => "Kyats (Ks)"@,
        Currency::Dollar => "Dollar ($)"@,
        Currency::Baht => "Baht (B)"@,
    }
}

/// Whether the text equals one of the candidates.
fn one_of(t: &[char], candidates: &[&str]) -> (r: bool)
    ensures
        r == exists|i: int| 0 <= i < candidates@.len() && t@ == #[trigger] candidates@[i]@,
{
    let mut i: usize = 0;
    while i < candidates.len()
        invariant
            i <= candidates@.len(),
            forall|j: int| 0 <= j < i ==> t@ != #[trigger] candidates@[j]@,
        decreases candidates@.len() - i,
    {
        let c = chars_of(candidates[i]);
        if crate::text::matches_at(t, c.as_slice(), 0) && c.len() == t.len() {
            proof {
                assert(t@ =~= candidates@[i as int]@);
            }
            return true;
        }
        proof {
            if t@ == candidates@[i as int]@ {
                assert(t@.subrange(0, c@.len() as int) =~= c@);
            }
        }
        i = i + 1;
    }
    false
}

impl Currency {
    /// The currency a setting value names.
    pub fn parse(value: &str) -> (r: Option<Currency>)
        ensures
            r == currency_named(value@),
    {
        let v = chars_of(value);
        let t = trim(v.as_slice());
        let mut lower: Vec<char> = Vec::new();
        let mut i: usize = 0;
        while i < t.len()
            invariant
                i <= t@.len(),
                lower@ == lower_ascii_seq(t@.subrange(0, i as int)),
            decreases t@.len() - i,
        {
            lower.push(to_lower_ascii(t[i]));
            proof {
                assert(lower@ =~= lower_ascii_seq(t@.subrange(0, i + 1)));
            }
            i = i + 1;
        }
        proof {
            assert(t@.subrange(0, i as int) =~= t@);
            reveal_strlit("kyats (ks)");
            reveal_strlit("ks");
            reveal_strlit("mmk");
            reveal_strlit("kyats");
            reveal_strlit("dollar ($)");
            reveal_strlit("$");
            reveal_strlit("usd");
            reveal_strlit("dollar");
        }
        let k = ["kyats (ks)", "ks", "mmk", "kyats"];
        let d = ["dollar ($)", "$", "usd", "dollar"];
        let b = ["baht (b)", "b", "thb", "baht"];
        if one_of(lower.as_slice(), &k) {
            proof {
                let j = choose|j: int| 0 <= j < k@.len() && lower@ == #[trigger] k@[j]@;
            }
            Some(Currency::Kyats)
        } else if one_of(lower.as_slice(), &d) {
            proof {
                assert(!(lower@ == k@[0]@ || lower@ == k@[1]@ || lower@ == k@[2]@ || lower@ == k@[3]@));
            }
            Some(Currency::Dollar)
        } else if one_of(lower.as_slice(), &b) {
            proof {
                assert(!(lower@ == k@[0]@ || lower@ == k@[1]@ || lower@ == k@[2]@ || lower@ == k@[3]@));
                assert(!(lower@ == d@[0]@ || lower@ == d@[1]@ || lower@ == d@[2]@ || lower@ == d@[3]@));
            }
            Some(Currency::Baht)
        } else {
            proof {
                assert(!(lower@ == k@[0]@ || lower@ == k@[1]@ || lower@ == k@[2]@ || lower@ == k@[3]@));
                assert(!(lower@ == d@[0]@ || lower@ == d@[1]@ || lower@ == d@[2]@ || lower@ == d@[3]@));
                assert(!(lower@ == b@[0]@ || lower@ == b@[1]@ || lower@ == b@[2]@ || lower@ == b@[3]@));
            }
            None
        }
    }

    fn named_at(settings: &Settings, key: &str) -> (r: Option<Currency>)
        ensures
            r == currency_at(settings@, key@),
    {
        match settings.get(key) {
            Some(v) => Currency::parse(v.as_str()),
            None => None,
        }
    }

    /// The shop currency the settings choose.
    pub fn from_settings(settings: &Settings) -> (r: Currency)
        ensures
            r == currency_of(settings@),
    {
        match Currency::named_at(settings, "currency") {
            Some(c) => c,
            None => match Currency::named_at(settings, "currency_symbol") {
                Some(c) => c,
                None => Currency::Kyats,
            },
        }
    }

    /// The symbol written after amounts.
    pub fn symbol(self) -> (r: &'static str)
        ensures
            r@ == symbol_of(self),
    {
        match self {
            Currency::Kyats => "Ks",
            Currency::Dollar => "$",
            Currency::Baht => "B",
        }
    }

    /// The name the settings store.
    pub fn name(self) -> (r: &'static str)
        ensures
            r@ == name_of(self),
    {
        match self {
            Currency::Kyats => "Kyats (Ks)",
            Currency::Dollar => "Dollar ($)",
            Currency::Baht => "Baht (B)",
        }
    }

    /// An amount written in this currency, from its decimal text (whole kyats;
    /// two decimals for the others): separators in the whole part, then the symbol.
    pub fn format(self, text: &str) -> (r: String)
        ensures
            r@ == amount_text(text@, symbol_of(self)),
    {
        format_amount(text, self.symbol())
    }
}

/// An amount as the caller has rounded it: in whole units (how kyats are
/// written) and with two decimals (how the other currencies are written).
pub struct AmountText {
    pub whole: String,
    pub cents: String,
}

/// An amount written in currency `c`: the rounding `c` uses, with thousands
/// separators and `c`'s symbol.
pub open spec fn amount_in(a: AmountText, c: Currency) -> Seq<char> {
    amount_text(
        match c {
            Currency::Kyats => a.whole@,
            _ => a.cents@,
        },
        symbol_of(c),
    )
}

/// An amount as the shop shows it: in the shop's currency, with that
/// currency's rounding, thousands separators and symbol.
pub fn format_ks(currency: Currency, amount: &AmountText) -> (r: String)
    ensures
        r@ == amount_in(*amount, currency),
{
    match currency {
        Currency::Kyats => currency.format(amount.whole.as_str()),
        _ => currency.format(amount.cents.as_str()),
    }
}

/// The settings with the currency written out in full: its name and its symbol.
pub open spec fn normalized(m: Map<Seq<char>, Seq<char>>) -> Map<Seq<char>, Seq<char>> {
    m.insert("currency"@, name_of(currency_of(m))).insert("currency_symbol"@, symbol_of(currency_of(m)))
}

/// Store the chosen currency's name and symbol, replacing a stale symbol.
pub fn normalize(settings: &mut Settings)
    ensures
        final(settings)@ == normalized(old(settings)@),
{
    let currency = Currency::from_settings(settings);
    settings.insert("currency".to_owned(), currency.name().to_owned());
    settings.insert("currency_symbol".to_owned(), currency.symbol().to_owned());
}

pub proof fn lemma_lower_literal(s: Seq<char>, t: Seq<char>)
    requires
        s.len() == t.len(),
        s.len() > 0,
        !crate::text::is_ws(s[0]),
        !crate::text::is_ws(s.last()),
        forall|i: int| 0 <= i < s.len() ==> crate::text::lower_ascii(#[trigger] s[i]) == t[i],
    ensures
        lower_ascii_seq(trimmed(s)) == t,
{
    let a = s.subrange(crate::text::lead(s) as int, s.len() as int);
    assert(a =~= s);
    assert(crate::text::trail(a) == 0);
    assert(trimmed(s) =~= s);
    assert(lower_ascii_seq(s) =~= t);
}

/// The name of each currency names it again.
pub proof fn lemma_name_names(c: Currency)
    ensures
        currency_named(name_of(c)) == Some(c),
        currency_named(symbol_of(c)) == Some(c),
{
    reveal_strlit("kyats (ks)");
    reveal_strlit("ks");
    reveal_strlit("mmk");
    reveal_strlit("kyats");
    reveal_strlit("dollar ($)");
    reveal_strlit("$");
    reveal_strlit("usd");
    reveal_strlit("dollar");
    reveal_strlit("baht (b)");
    reveal_strlit("b");
    match c {
        Currency::Kyats => {
            reveal_strlit("Kyats (Ks)");
            reveal_strlit("Ks");
            lemma_lower_literal("Kyats (Ks)"@, "kyats (ks)"@);
            lemma_lower_literal("Ks"@, "ks"@);
        },
        Currency::Dollar => {
            reveal_strlit("Dollar ($)");
            lemma_lower_literal("Dollar ($)"@, "dollar ($)"@);
            lemma_lower_literal("$"@, "$"@);
            assert("dollar ($)"@[0] != "kyats (ks)"@[0]);
            assert("dollar ($)"@ != "kyats (ks)"@);
            assert("$"@.len() != "ks"@.len());
        },
        Currency::Baht => {
            reveal_strlit("Baht (B)");
            reveal_strlit("B");
            lemma_lower_literal("Baht (B)"@, "baht (b)"@);
            lemma_lower_literal("B"@, "b"@);
            assert("baht (b)"@.len() != "kyats (ks)"@.len());
            assert("baht (b)"@.len() != "dollar ($)"@.len());
            assert("b"@ != "$"@) by {
                assert("b"@[0] != "$"@[0]);
            }
            assert("b"@.len() != "ks"@.len());
        },
    }
}

/// A currency choice survives normalization: after the name and symbol are
/// written out, the settings choose the same currency, and writing them out
/// again changes nothing.
pub proof fn law_normalize_keeps_currency(m: Map<Seq<char>, Seq<char>>)
    ensures
        currency_of(normalized(m)) == currency_of(m),
        normalized(normalized(m)) == normalized(m),
{
    reveal_strlit("currency");
    reveal_strlit("currency_symbol");
    assert("currency"@.len() == 8);
    assert("currency_symbol"@.len() == 15);
    let c = currency_of(m);
    lemma_name_names(c);
    let n = normalized(m);
    assert(n.contains_key("currency"@));
    assert(n["currency"@] == name_of(c));
    assert(currency_of(n) == c);
    assert(normalized(n) =~= n);
}

} // verus!
