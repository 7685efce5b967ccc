//! Shop colour preferences: which colours are accepted and the CSS custom
//! properties that carry them to the interface.
use vstd::prelude::*;
use crate::settings::Settings;
use crate::text::{chars_of, eq_ignore_ascii_case, eq_ignore_case, push_str, string_of};

verus! {

/// Number of colour fields.
pub const FIELD_COUNT: usize = 8;

/// Setting key of colour field `i`.
pub open spec fn field_key(i: int) -> Seq<char> {
    if i == 0 {
        "ui_header_color"@
    } else if i == 1 {
        "ui_status_color"@
    } else if i == 2 {
        "ui_button_color"@
    } else if i == 3 {
        "ui_hover_color"@
    } else if i == 4 {
        "ui_focus_color"@
    } else if i == 5 {
        "ui_category_color"@
    } else if i == 6 {
        "ui_product_hover_color"@
    } else {
        "ui_sidebar_color"@
    }
}

/// Label shown for colour field `i`.
pub open spec fn field_label(i: int) -> Seq<char> {
    if i == 0 {
        "Header"@
    } else if i == 1 {
        "Status bar"@
    } else if i == 2 {
        "Primary buttons"@
    } else if i == 3 {
        "Button hover"@
    } else if i == 4 {
        "Focus outline"@
    } else if i == 5 {
        "Selected category / tab"@
    } else if i == 6 {
        "Product card hover"@
    } else {
        "Side menu"@
    }
}

/// Default colour of field `i`.
pub open spec fn field_default(i: int) -> Seq<char> {
    if i == 0 || i == 1 {
        "#1d4ed8"@
    } else if i == 3 {
        "#1e40af"@
    } else if i == 7 {
        "#101827"@
    } else {
        "#2563eb"@
    }
}

/// CSS name of colour field `i`.
pub open spec fn field_css(i: int) -> Seq<char> {
    if i == 0 {
        "header"@
    } else if i == 1 {
        "status"@
    } else if i == 2 {
        "button"@
    } else if i == 3 {
        "hover"@
    } else if i == 4 {
        "focus"@
    } else if i == 5 {
        "category"@
    } else if i == 6 {
        "product-hover"@
    } else {
        "sidebar"@
    }
}

/// Key, label and default colour of field `i`.
pub fn field(i: usize) -> (r: (&'static str, &'static str, &'static str))
    requires
        i < FIELD_COUNT,
    ensures
        r.0@ == field_key(i as int),
        r.1@ == field_label(i as int),
        r.2@ == field_default(i as int),
{
    if i == 0 {
        ("ui_header_color", "Header", "#1d4ed8")
    } else if i == 1 {
        ("ui_status_color", "Status bar", "#1d4ed8")
    } else if i == 2 {
        ("ui_button_color", "Primary buttons", "#2563eb")
    } else if i == 3 {
        ("ui_hover_color", "Button hover", "#1e40af")
    } else if i == 4 {
        ("ui_focus_color", "Focus outline", "#2563eb")
    } else if i == 5 {
        ("ui_category_color", "Selected category / tab", "#2563eb")
    } else if i == 6 {
        ("ui_product_hover_color", "Product card hover", "#2563eb")
    } else {
        ("ui_sidebar_color", "Side menu", "#101827")
    }
}

/// CSS name of field `i`.
pub fn css_name(i: usize) -> (r: &'static str)
    requires
        i < FIELD_COUNT,
    ensures
        r@ == field_css(i as int),
{
    if i == 0 {
        "header"
    } else if i == 1 {
        "status"
    } else if i == 2 {
        "button"
    } else if i == 3 {
        "hover"
    } else if i == 4 {
        "focus"
    } else if i == 5 {
        "category"
    } else if i == 6 {
        "product-hover"
    } else {
        "sidebar"
    }
}

/// ASCII hexadecimal digit.
pub open spec fn is_hex(c: char) -> bool {
    ('0' <= c && c <= '9') || ('a' <= c && c <= 'f') || ('A' <= c && c <= 'F')
}

/// `#` followed by six hexadecimal digits.
pub open spec fn valid_color(s: Seq<char>) -> bool {
    s.len() == 7 && s[0] == '#' && forall|i: int| 1 <= i < 7 ==> is_hex(#[trigger] s[i])
}

/// Whether `value` is a colour in the form `#rrggbb`.
pub fn valid(value: &str) -> (b: bool)
    ensures
        b == valid_color(value@),
{
    let v = chars_of(value);
    if v.len() != 7 || v[0] != '#' {
        return false;
    }
    let mut i: usize = 1;
    while i < 7
        invariant
            1 <= i <= 7,
            v@ == value@,
            v@.len() == 7,
            forall|j: int| 1 <= j < i ==> is_hex(#[trigger] v@[j]),
        decreases 7 - i,
    {
        let c = v[i];
        if !(('0' <= c && c <= '9') || ('a' <= c && c <= 'f') || ('A' <= c && c <= 'F')) {
            return false;
        }
        i = i + 1;
    }
    true
}

/// Field `i` takes the focus colour when its own is not valid.
pub open spec fn follows_focus(i: int) -> bool {
    i == 5 || i == 6
}

/// The colour that field `i` shows: its own valid setting, else (for the
/// category and product-hover fields) a valid focus colour, else its default.
pub open spec fn resolved_color(m: Map<Seq<char>, Seq<char>>, i: int) -> Seq<char> {
    if m.contains_key(field_key(i)) && valid_color(m[field_key(i)]) {
        m[field_key(i)]
    } else if follows_focus(i) && m.contains_key(field_key(4)) && valid_color(m[field_key(4)]) {
        m[field_key(4)]
    } else {
        field_default(i)
    }
}

pub proof fn lemma_defaults_valid(i: int)
    requires
        0 <= i < 8,
    ensures
        valid_color(field_default(i)),
{
    reveal_strlit("#1d4ed8");
    reveal_strlit("#1e40af");
    reveal_strlit("#101827");
    reveal_strlit("#2563eb");
}

/// The valid setting under `key`, if there is one.
fn valid_setting<'a>(settings: &'a Settings, key: &str) -> (r: Option<&'a String>)
    ensures
        match r {
            Some(v) => settings@.contains_key(key@) && settings@[key@] == v@ && valid_color(v@),
            None => !(settings@.contains_key(key@) && valid_color(settings@[key@])),
        },
{
    match settings.get(key) {
        Some(v) => if valid(v.as_str()) {
            Some(v)
        } else {
            None
        },
        None => None,
    }
}

/// The colour that field `i` shows under these settings.
pub fn field_color(settings: &Settings, i: usize) -> (r: String)
    requires
        i < FIELD_COUNT,
    ensures
        r@ == resolved_color(settings@, i as int),
        valid_color(r@),
{
    proof {
        lemma_defaults_valid(i as int);
    }
    let (key, _, default) = field(i);
    if let Some(v) = valid_setting(settings, key) {
        return v.clone();
    }
    if i == 5 || i == 6 {
        let (focus, _, _) = field(4);
        if let Some(v) = valid_setting(settings, focus) {
            return v.clone();
        }
    }
    default.to_owned()
}

/// The colours of all fields, in field order.
pub fn colors(settings: &Settings) -> (r: Vec<String>)
    ensures
        r@.len() == FIELD_COUNT,
        forall|i: int| 0 <= i < FIELD_COUNT ==> (#[trigger] r@[i])@ == resolved_color(settings@, i),
        forall|i: int| 0 <= i < FIELD_COUNT ==> valid_color((#[trigger] r@[i])@),
{
    let mut out: Vec<String> = Vec::new();
    let mut i: usize = 0;
    while i < FIELD_COUNT
        invariant
            i <= FIELD_COUNT,
            out@.len() == i,
            forall|j: int| 0 <= j < i ==> (#[trigger] out@[j])@ == resolved_color(settings@, j),
            forall|j: int| 0 <= j < i ==> valid_color((#[trigger] out@[j])@),
        decreases FIELD_COUNT - i,
    {
        out.push(field_color(settings, i));
        i = i + 1;
    }
    out
}

/// The declarations of field `i` with its colour and text colour.
pub open spec fn rule(i: int, color: Seq<char>, text: Seq<char>) -> Seq<char> {
    "--shop-"@ + field_css(i) + ":"@ + color + ";--shop-"@ + field_css(i) + "-text:"@ + text + ";"@
}

/// The declarations of the first `n` fields.
pub open spec fn rules(colors: Seq<Seq<char>>, texts: Seq<Seq<char>>, n: int) -> Seq<char>
    decreases n,
{
    if n <= 0 {
        Seq::empty()
    } else {
        rules(colors, texts, n - 1) + rule(n - 1, colors[n - 1], texts[n - 1])
    }
}

pub open spec fn texts_view(v: Seq<String>) -> Seq<Seq<char>> {
    v.map_values(|s: String| s@)
}

/// The inline style that carries the shop colours: for each field, its colour
/// and the colour of text drawn on it.
pub fn style(colors: &[String], text_colors: &[String]) -> (r: String)
    requires
        colors@.len() == FIELD_COUNT,
        text_colors@.len() == FIELD_COUNT,
    ensures
        r@ == rules(texts_view(colors@), texts_view(text_colors@), FIELD_COUNT as int),
{
    let ghost cs = texts_view(colors@);
    let ghost ts = texts_view(text_colors@);
    let mut out: Vec<char> = Vec::new();
    let mut i: usize = 0;
    while i < FIELD_COUNT
        invariant
            i <= FIELD_COUNT,
            colors@.len() == FIELD_COUNT,
            text_colors@.len() == FIELD_COUNT,
            cs == texts_view(colors@),
            ts == texts_view(text_colors@),
            out@ == rules(cs, ts, i as int),
        decreases FIELD_COUNT - i,
    {
        let name = css_name(i);
        let ghost before = out@;
        push_str(&mut out, "--shop-");
        push_str(&mut out, name);
        push_str(&mut out, ":");
        push_str(&mut out, colors[i].as_str());
        push_str(&mut out, ";--shop-");
        push_str(&mut out, name);
        push_str(&mut out, "-text:");
        push_str(&mut out, text_colors[i].as_str());
        push_str(&mut out, ";");
        proof {
            assert(cs[i as int] == colors@[i as int]@);
            assert(ts[i as int] == text_colors@[i as int]@);
            assert(out@ =~= before + rule(i as int, cs[i as int], ts[i as int]));
        }
        i = i + 1;
    }
    string_of(out.as_slice())
}


/// Number of colour presets.
pub const PRESET_COUNT: usize = 9;

/// Name of preset `p`.
pub open spec fn preset_name(p: int) -> Seq<char> {
    if p == 0 {
        "Blue"@
    } else if p == 1 {
        "Teal"@
    } else if p == 2 {
        "Green"@
    } else if p == 3 {
        "Rose"@
    } else if p == 4 {
        "Graphite"@
    } else if p == 5 {
        "Magenta"@
    } else if p == 6 {
        "Orange"@
    } else if p == 7 {
        "Sky Blue"@
    } else {
        "Lavender"@
    }
}

/// Colours of preset `p`, in field order.
pub open spec fn preset_colors(p: int) -> Seq<Seq<char>> {
    if p == 0 {
        seq!["#1d4ed8"@, "#1d4ed8"@, "#2563eb"@, "#1e40af"@, "#2563eb"@, "#2563eb"@, "#2563eb"@, "#172554"@]
    } else if p == 1 {
        seq!["#0f766e"@, "#115e59"@, "#0f766e"@, "#134e4a"@, "#0d9488"@, "#0d9488"@, "#0d9488"@, "#134e4a"@]
    } else if p == 2 {
        seq!["#166534"@, "#14532d"@, "#15803d"@, "#14532d"@, "#16a34a"@, "#16a34a"@, "#16a34a"@, "#14532d"@]
    } else if p == 3 {
        seq!["#be123c"@, "#9f1239"@, "#e11d48"@, "#881337"@, "#e11d48"@, "#e11d48"@, "#e11d48"@, "#881337"@]
    } else if p == 4 {
        seq!["#374151"@, "#1f2937"@, "#4b5563"@, "#111827"@, "#64748b"@, "#64748b"@, "#64748b"@, "#111827"@]
    } else if p == 5 {
        seq!["#a21caf"@, "#86198f"@, "#c026d3"@, "#86198f"@, "#c026d3"@, "#c026d3"@, "#c026d3"@, "#4a044e"@]
    } else if p == 6 {
        seq!["#c2410c"@, "#9a3412"@, "#ea580c"@, "#9a3412"@, "#ea580c"@, "#ea580c"@, "#ea580c"@, "#431407"@]
    } else if p == 7 {
        seq!["#0284c7"@, "#0369a1"@, "#0ea5e9"@, "#0369a1"@, "#0284c7"@, "#0284c7"@, "#0284c7"@, "#082f49"@]
    } else {
        seq!["#a78bfa"@, "#8b5cf6"@, "#a78bfa"@, "#7c3aed"@, "#8b5cf6"@, "#8b5cf6"@, "#8b5cf6"@, "#2e1065"@]
    }
}

/// Name and colours of preset `p`.
pub fn preset(p: usize) -> (r: (&'static str, [&'static str; 8]))
    requires
        p < PRESET_COUNT,
    ensures
        r.0@ == preset_name(p as int),
        r.1@.map_values(|s: &str| s@) == preset_colors(p as int),
{
    let r = if p == 0 {
            ("Blue", ["#1d4ed8", "#1d4ed8", "#2563eb", "#1e40af", "#2563eb", "#2563eb", "#2563eb", "#172554"])
        } else if p == 1 {
            ("Teal", ["#0f766e", "#115e59", "#0f766e", "#134e4a", "#0d9488", "#0d9488", "#0d9488", "#134e4a"])
        } else if p == 2 {
            ("Green", ["#166534", "#14532d", "#15803d", "#14532d", "#16a34a", "#16a34a", "#16a34a", "#14532d"])
        } else if p == 3 {
            ("Rose", ["#be123c", "#9f1239", "#e11d48", "#881337", "#e11d48", "#e11d48", "#e11d48", "#881337"])
        } else if p == 4 {
            ("Graphite", ["#374151", "#1f2937", "#4b5563", "#111827", "#64748b", "#64748b", "#64748b", "#111827"])
        } else if p == 5 {
            ("Magenta", ["#a21caf", "#86198f", "#c026d3", "#86198f", "#c026d3", "#c026d3", "#c026d3", "#4a044e"])
        } else if p == 6 {
            ("Orange", ["#c2410c", "#9a3412", "#ea580c", "#9a3412", "#ea580c", "#ea580c", "#ea580c", "#431407"])
        } else if p == 7 {
            ("Sky Blue", ["#0284c7", "#0369a1", "#0ea5e9", "#0369a1", "#0284c7", "#0284c7", "#0284c7", "#082f49"])
        } else {
            ("Lavender", ["#a78bfa", "#8b5cf6", "#a78bfa", "#7c3aed", "#8b5cf6", "#8b5cf6", "#8b5cf6", "#2e1065"])
        };
    proof {
        assert(r.1@.map_values(|s: &str| s@) =~= preset_colors(p as int));
    }
    r
}


/// The colour a field shows in the editor: its own valid setting, else its default.
pub open spec fn own_color(m: Map<Seq<char>, Seq<char>>, i: int) -> Seq<char> {
    if m.contains_key(field_key(i)) && valid_color(m[field_key(i)]) {
        m[field_key(i)]
    } else {
        field_default(i)
    }
}

/// Whether every field shows the colour of preset `colors` (ignoring ASCII case).
pub open spec fn preset_active(m: Map<Seq<char>, Seq<char>>, colors: Seq<Seq<char>>) -> bool {
    forall|i: int| 0 <= i < FIELD_COUNT ==> eq_ignore_case(#[trigger] own_color(m, i), colors[i])
}

/// Whether the shown colours are those of a preset, so its button shows as pressed.
pub fn preset_pressed(values: &Settings, colors: &[&str; 8]) -> (r: bool)
    ensures
        r == preset_active(values@, colors@.map_values(|s: &str| s@)),
{
    let ghost cs = colors@.map_values(|s: &str| s@);
    let mut i: usize = 0;
    while i < FIELD_COUNT
        invariant
            i <= FIELD_COUNT,
            cs == colors@.map_values(|s: &str| s@),
            forall|j: int| 0 <= j < i ==> eq_ignore_case(#[trigger] own_color(values@, j), cs[j]),
        decreases FIELD_COUNT - i,
    {
        let (key, _, default) = field(i);
        let shown = match valid_setting(values, key) {
            Some(v) => v.as_str(),
            None => default,
        };
        proof {
            assert(shown@ == own_color(values@, i as int));
            assert(cs[i as int] == colors@[i as int]@);
        }
        if !eq_ignore_ascii_case(shown, colors[i]) {
            proof {
                assert(!eq_ignore_case(own_color(values@, i as int), cs[i as int]));
            }
            return false;
        }
        i = i + 1;
    }
    true
}

/// The colour the category and product-hover fields fall back to.
pub open spec fn focus_fallback(m: Map<Seq<char>, Seq<char>>) -> Seq<char> {
    if m.contains_key(field_key(4)) && valid_color(m[field_key(4)]) {
        m[field_key(4)]
    } else {
        "#2563eb"@
    }
}

/// `m` with field `i` set to the focus fallback unless it holds a valid colour.
pub open spec fn with_fallback(m: Map<Seq<char>, Seq<char>>, i: int) -> Map<Seq<char>, Seq<char>> {
    if m.contains_key(field_key(i)) && valid_color(m[field_key(i)]) {
        m
    } else {
        m.insert(field_key(i), focus_fallback(m))
    }
}

/// The values the colour editor shows: the saved values, then the draft over
/// them, with the category and product-hover colours filled from the focus colour.
pub open spec fn editor_values(saved: Map<Seq<char>, Seq<char>>, draft: Map<Seq<char>, Seq<char>>) -> Map<
    Seq<char>,
    Seq<char>,
> {
    with_fallback(with_fallback(saved.union_prefer_right(draft), 5), 6)
}

/// The values shown by the colour editor for saved pairs and an unsaved draft.
pub fn preference_values(saved: &[(String, String)], draft: &Settings) -> (r: Settings)
    ensures
        r@ == editor_values(crate::settings::pairs_map(crate::settings::pairs_view(saved@)), draft@),
{
    let mut values = Settings::from_pairs(saved);
    values.extend(draft);
    let mut k: usize = 5;
    while k < 7
        invariant
            5 <= k <= 7,
            values@ == (if k == 5 {
                crate::settings::pairs_map(crate::settings::pairs_view(saved@)).union_prefer_right(draft@)
            } else if k == 6 {
                with_fallback(crate::settings::pairs_map(crate::settings::pairs_view(saved@)).union_prefer_right(draft@), 5)
            } else {
                editor_values(crate::settings::pairs_map(crate::settings::pairs_view(saved@)), draft@)
            }),
        decreases 7 - k,
    {
        let (key, _, _) = field(k);
        if valid_setting(&values, key).is_none() {
            let (focus, _, _) = field(4);
            let fallback = match valid_setting(&values, focus) {
                Some(v) => v.clone(),
                None => "#2563eb".to_owned(),
            };
            values.insert(key.to_owned(), fallback);
        }
        k = k + 1;
    }
    values
}

/// The theme the window uses: `system` when told to follow the system
/// (`1` or `true`), `dark` when the theme is dark (any ASCII case), else `light`.
pub open spec fn theme_of(m: Map<Seq<char>, Seq<char>>) -> Seq<char> {
    if m.contains_key("follow_system_theme"@) && (m["follow_system_theme"@] == "1"@
        || m["follow_system_theme"@] == "true"@) {
        "system"@
    } else if m.contains_key("theme"@) && eq_ignore_case(m["theme"@], "dark"@) {
        "dark"@
    } else {
        "light"@
    }
}

/// The theme the window uses.
pub fn appearance_mode(settings: &Settings) -> (r: &'static str)
    ensures
        r@ == theme_of(settings@),
{
    let follow = match settings.get("follow_system_theme") {
        Some(v) => crate::text::same_text(v.as_str(), "1") || crate::text::same_text(v.as_str(), "true"),
        None => false,
    };
    if follow {
        return "system";
    }
    let dark = match settings.get("theme") {
        Some(v) => eq_ignore_ascii_case(v.as_str(), "dark"),
        None => false,
    };
    if dark {
        "dark"
    } else {
        "light"
    }
}

/// A change made in the colour editor: a colour picked for field `i`, or a
/// preset chosen.
pub enum ColorEvent {
    Pick(usize, String),
    Preset(usize),
}

/// The event names an existing field or preset.
pub open spec fn color_event_ok(e: ColorEvent) -> bool {
    match e {
        ColorEvent::Pick(i, _) => i < FIELD_COUNT,
        ColorEvent::Preset(p) => p < PRESET_COUNT,
    }
}

/// `m` with the first `n` fields set to the preset's colours.
pub open spec fn with_preset(m: Map<Seq<char>, Seq<char>>, colors: Seq<Seq<char>>, n: int) -> Map<
    Seq<char>,
    Seq<char>,
>
    decreases n,
{
    if n <= 0 {
        m
    } else {
        with_preset(m, colors, n - 1).insert(field_key(n - 1), colors[n - 1])
    }
}

/// The unsaved colour draft after an event: a picked colour is kept only when
/// it is a valid colour; a preset writes all eight colour settings.
pub open spec fn color_step(draft: Map<Seq<char>, Seq<char>>, e: ColorEvent) -> Map<Seq<char>, Seq<char>> {
    match e {
        ColorEvent::Pick(i, c) => if valid_color(c@) {
            draft.insert(field_key(i as int), c@)
        } else {
            draft
        },
        ColorEvent::Preset(p) => with_preset(draft, preset_colors(p as int), FIELD_COUNT as int),
    }
}

/// Apply an editor event to the unsaved colour draft.
pub fn color_draft_step(draft: &mut Settings, event: ColorEvent)
    requires
        color_event_ok(event),
    ensures
        final(draft)@ == color_step(old(draft)@, event),
{
    match event {
        ColorEvent::Pick(i, color) => {
            if valid(color.as_str()) {
                let (key, _, _) = field(i);
                draft.insert(key.to_owned(), color);
            }
        },
        ColorEvent::Preset(p) => {
            let (_, colors) = preset(p);
            let ghost cs = preset_colors(p as int);
            let mut i: usize = 0;
            while i < FIELD_COUNT
                invariant
                    i <= FIELD_COUNT,
                    cs == colors@.map_values(|s: &str| s@),
                    cs.len() == FIELD_COUNT,
                    draft@ == with_preset(old(draft)@, cs, i as int),
                decreases FIELD_COUNT - i,
            {
                let (key, _, _) = field(i);
                draft.insert(key.to_owned(), colors[i].to_owned());
                i = i + 1;
            }
        },
    }
}

} // verus!
