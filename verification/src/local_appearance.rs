//! Appearance settings kept per client: imported once from the shop settings,
//! then owned locally so each till keeps its own look.
use vstd::prelude::*;
use crate::settings::{pairs_map, pairs_view, unique_keys, Settings};
use crate::text::{listed, strs_view};

verus! {

/// The keys that belong to the local appearance.
pub open spec fn appearance_keys() -> Seq<Seq<char>> {
    seq![
        "theme"@,
        "follow_system_theme"@,
        "window_resolution"@,
        "ui_header_color"@,
        "ui_status_color"@,
        "ui_button_color"@,
        "ui_hover_color"@,
        "ui_focus_color"@,
        "ui_category_color"@,
        "ui_product_hover_color"@,
        "ui_sidebar_color"@,
    ]
}

/// The appearance keys as a set.
pub open spec fn appearance_key_set() -> Set<Seq<char>> {
    appearance_keys().to_set()
}

/// The keys that belong to the local appearance, in a fixed order.
pub fn keys() -> (r: [&'static str; 11])
    ensures
        strs_view(r@) == appearance_keys(),
{
    let r = [
        "theme",
        "follow_system_theme",
        "window_resolution",
        "ui_header_color",
        "ui_status_color",
        "ui_button_color",
        "ui_hover_color",
        "ui_focus_color",
        "ui_category_color",
        "ui_product_hover_color",
        "ui_sidebar_color",
    ];
    proof {
        assert(strs_view(r@) =~= appearance_keys());
    }
    r
}

/// Whether `key` is an appearance setting.
pub fn is_key(key: &str) -> (r: bool)
    ensures
        r == appearance_keys().contains(key@),
{
    let k = keys();
    listed(&k, key)
}

/// Why the local appearance could not be used.
#[derive(Debug, PartialEq, Eq)]
pub enum AppearanceError {
    /// The local file does not hold a JSON object of strings.
    Damaged,
    /// A change names a key that is not an appearance setting.
    NotAppearance,
}

/// What `serde_json` decodes from `bytes` as a map of strings to strings.
pub uninterp spec fn json_string_map(bytes: Seq<u8>) -> Option<Map<Seq<char>, Seq<char>>>;

/// What `serde_json::to_vec_pretty` writes for a map of strings to strings.
pub uninterp spec fn json_string_map_bytes(m: Map<Seq<char>, Seq<char>>) -> Seq<u8>;

/// Decodes a JSON object of strings with `serde_json::from_slice` into a
/// `BTreeMap<String, String>` (a later duplicate key wins) and lists its
/// entries. Claims: the result is the decoded map, each key once.
#[verifier::external_body]
fn decode_string_map(bytes: &[u8]) -> (r: Option<Vec<(String, String)>>)
    ensures
        r is Some == json_string_map(bytes@) is Some,
        r matches Some(v) ==> unique_keys(pairs_view(v@)) && pairs_map(pairs_view(v@))
            == json_string_map(bytes@)->0,
{
    serde_json::from_slice::<std::collections::BTreeMap<String, String>>(bytes).ok().map(
        |m| m.into_iter().collect(),
    )
}

/// Encodes the pairs as a pretty JSON object with `serde_json::to_vec_pretty`
/// over a `BTreeMap<String, String>`. Claims: the bytes are the named encoding
/// of the map, and `serde_json` decodes them back to that same map.
#[verifier::external_body]
fn encode_string_map(pairs: Vec<(String, String)>) -> (r: Vec<u8>)
    requires
        unique_keys(pairs_view(pairs@)),
    ensures
        r@ == json_string_map_bytes(pairs_map(pairs_view(pairs@))),
        json_string_map(r@) == Some(pairs_map(pairs_view(pairs@))),
{
    let map: std::collections::BTreeMap<String, String> = pairs.into_iter().collect();
    serde_json::to_vec_pretty(&map).unwrap()
}

/// The appearance part of a map.
pub open spec fn appearance_only(m: Map<Seq<char>, Seq<char>>) -> Map<Seq<char>, Seq<char>> {
    m.restrict(appearance_key_set())
}

/// The settings stored in a local appearance file's contents, appearance keys only.
pub open spec fn stored(bytes: Seq<u8>) -> Option<Map<Seq<char>, Seq<char>>> {
    match json_string_map(bytes) {
        Some(m) => Some(appearance_only(m)),
        None => None,
    }
}

/// The appearance settings held in a local file's contents.
pub fn decode(bytes: &[u8]) -> (r: Result<Settings, AppearanceError>)
    ensures
        match (r, stored(bytes@)) {
            (Ok(s), Some(m)) => s@ == m,
            (Err(e), None) => e == AppearanceError::Damaged,
            _ => false,
        },
{
    match decode_string_map(bytes) {
        Some(pairs) => {
            let all = Settings::from_pairs(pairs.as_slice());
            let k = keys();
            let kept = all.filtered(&k, true);
            Ok(kept)
        },
        None => Err(AppearanceError::Damaged),
    }
}

/// The contents of a local appearance file holding `values`.
pub fn encode(values: &Settings) -> (r: Vec<u8>)
    ensures
        r@ == json_string_map_bytes(values@),
        json_string_map(r@) == Some(values@),
{
    let pairs = values.to_pairs();
    encode_string_map(pairs)
}

/// The local appearance read from a file's contents (`None` when there is no
/// file): empty when there is no file.
pub fn load(contents: Option<&[u8]>) -> (r: Result<Settings, AppearanceError>)
    ensures
        match contents {
            None => r matches Ok(s) && s@ == Map::<Seq<char>, Seq<char>>::empty(),
            Some(b) => match (r, stored(b@)) {
                (Ok(s), Some(m)) => s@ == m,
                (Err(e), None) => e == AppearanceError::Damaged,
                _ => false,
            },
        },
{
    match contents {
        None => Ok(Settings::new()),
        Some(b) => decode(b),
    }
}

/// The first local appearance: the appearance part of the shop settings.
pub fn initial(shared: &Settings) -> (r: Settings)
    ensures
        r@ == appearance_only(shared@),
{
    let k = keys();
    shared.filtered(&k, true)
}

/// The settings a client uses: the shop settings without their appearance
/// keys, with the local appearance over them.
pub open spec fn resolved(shared: Map<Seq<char>, Seq<char>>, local: Map<Seq<char>, Seq<char>>) -> Map<
    Seq<char>,
    Seq<char>,
> {
    shared.remove_keys(appearance_key_set()).union_prefer_right(local)
}

/// The settings a client uses, given the shop settings and the local appearance.
pub fn resolve(shared: &Settings, local: &Settings) -> (r: Settings)
    ensures
        r@ == resolved(shared@, local@),
{
    let k = keys();
    let mut r = shared.filtered(&k, false);
    r.extend(local);
    r
}

/// Every change names an appearance key.
pub open spec fn appearance_changes(changes: Seq<(Seq<char>, Seq<char>)>) -> bool {
    forall|i: int| 0 <= i < changes.len() ==> appearance_keys().contains(#[trigger] changes[i].0)
}

/// The local appearance after saving `changes` over the file's contents
/// (`None` when there is no file): refused when a change is not an appearance
/// setting or the file is damaged.
pub fn save(contents: Option<&[u8]>, changes: &[(String, String)]) -> (r: Result<Settings, AppearanceError>)
    ensures
        !appearance_changes(pairs_view(changes@)) ==> r == Err::<Settings, AppearanceError>(
            AppearanceError::NotAppearance,
        ),
        appearance_changes(pairs_view(changes@)) ==> match contents {
            None => r matches Ok(s) && s@ == pairs_map(pairs_view(changes@)),
            Some(b) => match (r, stored(b@)) {
                (Ok(s), Some(m)) => s@ == m.union_prefer_right(pairs_map(pairs_view(changes@))),
                (Err(e), None) => e == AppearanceError::Damaged,
                _ => false,
            },
        },
{
    let mut i: usize = 0;
    while i < changes.len()
        invariant
            i <= changes@.len(),
            forall|j: int| 0 <= j < i ==> appearance_keys().contains(#[trigger] pairs_view(changes@)[j].0),
        decreases changes@.len() - i,
    {
        if !is_key(changes[i].0.as_str()) {
            proof {
                assert(pairs_view(changes@)[i as int].0 == changes@[i as int].0@);
            }
            return Err(AppearanceError::NotAppearance);
        }
        i = i + 1;
    }
    let mut values = match load(contents) {
        Ok(v) => v,
        Err(e) => return Err(e),
    };
    values.extend_pairs(changes);
    proof {
        if contents is None {
            assert(Map::<Seq<char>, Seq<char>>::empty().union_prefer_right(pairs_map(pairs_view(changes@)))
                =~= pairs_map(pairs_view(changes@)));
        }
    }
    Ok(values)
}

/// Whether only appearance keys are present.
pub open spec fn appearance_keyed(m: Map<Seq<char>, Seq<char>>) -> bool {
    forall|k: Seq<char>| #[trigger] m.contains_key(k) ==> appearance_keys().contains(k)
}

/// Clients are independent and shop settings still refresh: in what a client
/// uses, every setting that is not an appearance setting is the shop's, and
/// every appearance setting is the client's own (present exactly when the
/// local appearance has it).
pub proof fn law_resolve_separates(shared: Map<Seq<char>, Seq<char>>, local: Map<Seq<char>, Seq<char>>)
    requires
        appearance_keyed(local),
    ensures
        forall|k: Seq<char>|
            !appearance_keys().contains(k) ==> (#[trigger] resolved(shared, local).contains_key(k)
                <==> shared.contains_key(k)),
        forall|k: Seq<char>|
            !appearance_keys().contains(k) && shared.contains_key(k) ==> #[trigger] resolved(
                shared,
                local,
            )[k] == shared[k],
        forall|k: Seq<char>|
            appearance_keys().contains(k) ==> (#[trigger] resolved(shared, local).contains_key(k)
                <==> local.contains_key(k)),
        forall|k: Seq<char>| #[trigger] local.contains_key(k) ==> resolved(shared, local)[k] == local[k],
{
    assert forall|k: Seq<char>| appearance_keys().contains(k) implies appearance_key_set().contains(k) by {}
    assert forall|k: Seq<char>| appearance_key_set().contains(k) implies appearance_keys().contains(k) by {}
}

/// A changed shop appearance does not reach a client that has its own: two
/// clients with the same local appearance use the same appearance whatever
/// the shop settings say.
pub proof fn law_shop_appearance_ignored(
    shared1: Map<Seq<char>, Seq<char>>,
    shared2: Map<Seq<char>, Seq<char>>,
    local: Map<Seq<char>, Seq<char>>,
)
    requires
        appearance_keyed(local),
    ensures
        appearance_only(resolved(shared1, local)) == appearance_only(resolved(shared2, local)),
        appearance_only(resolved(shared1, local)) == local,
{
    law_resolve_separates(shared1, local);
    law_resolve_separates(shared2, local);
    assert forall|k: Seq<char>| appearance_key_set().contains(k) <==> appearance_keys().contains(k) by {}
    assert(appearance_only(resolved(shared1, local)) =~= local);
    assert(appearance_only(resolved(shared2, local)) =~= local);
}

/// The local file only ever holds appearance settings: what is read back from
/// it, and what a successful save produces, has appearance keys only.
pub proof fn law_local_holds_appearance_only(bytes: Seq<u8>)
    ensures
        stored(bytes) matches Some(m) ==> appearance_keyed(m),
{
    if let Some(m) = stored(bytes) {
        assert forall|k: Seq<char>| #[trigger] m.contains_key(k) implies appearance_keys().contains(k) by {
            assert(appearance_key_set().contains(k));
        }
    }
}

/// A save is read back as saved: decoding the encoded appearance gives it back.
pub proof fn law_saved_appearance_reloads(values: Map<Seq<char>, Seq<char>>, bytes: Seq<u8>)
    requires
        appearance_keyed(values),
        json_string_map(bytes) == Some(values),
    ensures
        stored(bytes) == Some(values),
{
    assert forall|k: Seq<char>| appearance_key_set().contains(k) <==> appearance_keys().contains(k) by {}
    assert(appearance_only(values) =~= values);
}

} // verus!
