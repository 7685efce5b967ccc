use pos_desktop::appearance_colors::{
    appearance_mode, colors, field, preference_values, preset, preset_pressed, style, valid, FIELD_COUNT,
    PRESET_COUNT,
};
use pos_desktop::local_appearance::{decode, encode, initial, is_key, load, resolve, save, AppearanceError};
use pos_desktop::settings::Settings;

fn settings(pairs: &[(&str, &str)]) -> Settings {
    let owned: Vec<(String, String)> = pairs.iter().map(|(k, v)| (k.to_string(), v.to_string())).collect();
    Settings::from_pairs(&owned)
}

fn styled(s: &Settings, texts: &[&str]) -> String {
    let cs = colors(s);
    let ts: Vec<String> = texts.iter().map(|t| t.to_string()).collect();
    style(&cs, &ts)
}

#[test]
fn colors_validate_and_keep_text_readable() {
    assert!(valid("#12abEF"));
    assert!(!valid("red;display:none"));
    assert!(!valid("#123"));
    let s = settings(&[("ui_header_color", "invalid")]);
    assert!(styled(&s, &["#ffffff"; 8]).contains("--shop-header:#1d4ed8;"));
}

#[test]
fn style_lists_every_field_with_its_text_colour() {
    let s = settings(&[("ui_focus_color", "#abcdef"), ("ui_button_color", "#ABCDEF")]);
    let out = styled(&s, &["#000000", "#ffffff", "#000000", "#ffffff", "#000000", "#ffffff", "#000000", "#ffffff"]);
    assert!(out.starts_with("--shop-header:#1d4ed8;--shop-header-text:#000000;"));
    assert!(out.contains("--shop-button:#ABCDEF;--shop-button-text:#000000;"));
    assert!(out.contains("--shop-category:#abcdef;--shop-category-text:#ffffff;"));
    assert!(out.contains("--shop-product-hover:#abcdef;"));
    assert!(out.ends_with("--shop-sidebar:#101827;--shop-sidebar-text:#ffffff;"));
}

#[test]
fn injected_colours_never_reach_the_style() {
    let s = settings(&[("ui_sidebar_color", "red;display:none"), ("ui_focus_color", "#12345g")]);
    let cs = colors(&s);
    assert_eq!(cs.len(), FIELD_COUNT);
    for c in &cs {
        assert!(valid(c));
    }
    assert_eq!(cs[7], "#101827");
    assert_eq!(cs[5], "#2563eb");
}

#[test]
fn editor_fills_category_colours_from_focus() {
    let saved = vec![("ui_focus_color".to_string(), "#111111".to_string())];
    let draft = settings(&[("ui_category_color", "nope")]);
    let v = preference_values(&saved, &draft);
    assert_eq!(v.get("ui_category_color").unwrap(), "#111111");
    assert_eq!(v.get("ui_product_hover_color").unwrap(), "#111111");
    let v = preference_values(&[], &Settings::new());
    assert_eq!(v.get("ui_category_color").unwrap(), "#2563eb");
}

#[test]
fn blue_preset_is_pressed_for_matching_colours() {
    let (name, blue) = preset(0);
    assert_eq!(name, "Blue");
    let pairs: Vec<(String, String)> =
        (0..FIELD_COUNT).map(|i| (field(i).0.to_string(), blue[i].to_uppercase())).collect();
    assert!(preset_pressed(&Settings::from_pairs(&pairs), &blue));
    let (_, teal) = preset(1);
    assert!(!preset_pressed(&Settings::from_pairs(&pairs), &teal));
    assert_eq!(preset(PRESET_COUNT - 1).0, "Lavender");
}

#[test]
fn appearance_theme_selection() {
    let mut s = Settings::new();
    assert_eq!(appearance_mode(&s), "light");
    s.insert("theme".into(), "Light Gray".into());
    assert_eq!(appearance_mode(&s), "light");
    s.insert("theme".into(), "Dark".into());
    assert_eq!(appearance_mode(&s), "dark");
    s.insert("follow_system_theme".into(), "1".into());
    assert_eq!(appearance_mode(&s), "system");
}

fn shared(theme: &str) -> Settings {
    settings(&[("theme", theme), ("shop_name", "Shop")])
}

/// A local appearance file: written once from the shop settings when missing.
fn resolve_file(file: &mut Option<Vec<u8>>, shared: Settings) -> Result<Settings, AppearanceError> {
    if file.is_none() {
        *file = Some(encode(&initial(&shared)));
    }
    let local = load(file.as_deref())?;
    Ok(resolve(&shared, &local))
}

#[test]
fn clients_are_independent_and_shared_settings_still_refresh() {
    let mut a: Option<Vec<u8>> = None;
    let mut b: Option<Vec<u8>> = None;
    resolve_file(&mut a, shared("light")).unwrap();
    resolve_file(&mut b, shared("light")).unwrap();
    a = Some(encode(&save(a.as_deref(), &[("theme".into(), "dark".into())]).unwrap()));
    assert_eq!(resolve_file(&mut a, shared("light")).unwrap().get("theme").unwrap(), "dark");
    let mut server = shared("dark");
    server.insert("shop_name".into(), "New Shop".into());
    server.insert("ui_sidebar_color".into(), "#ffffff".into());
    let client_b = resolve_file(&mut b, server).unwrap();
    assert_eq!(client_b.get("theme").unwrap(), "light");
    assert_eq!(client_b.get("shop_name").unwrap(), "New Shop");
    assert!(!client_b.contains_key("ui_sidebar_color"));
    assert!(!decode(a.as_deref().unwrap()).unwrap().contains_key("shop_name"));
}

#[test]
fn invalid_files_and_nonappearance_writes_are_not_overwritten() {
    let mut file: Option<Vec<u8>> = None;
    assert_eq!(save(file.as_deref(), &[("shop_name".into(), "No".into())]).err(), Some(AppearanceError::NotAppearance));
    file = Some(b"damaged".to_vec());
    assert_eq!(resolve_file(&mut file, shared("dark")).err(), Some(AppearanceError::Damaged));
    assert_eq!(save(file.as_deref(), &[("theme".into(), "dark".into())]).err(), Some(AppearanceError::Damaged));
    assert_eq!(file.unwrap(), b"damaged");
}

#[test]
fn appearance_keys_and_stored_file() {
    assert!(is_key("ui_sidebar_color"));
    assert!(is_key("window_resolution"));
    assert!(!is_key("shop_name"));
    let bytes = br#"{"theme":"dark","shop_name":"X","theme":"light"}"#;
    let s = decode(bytes).unwrap();
    assert_eq!(s.get("theme").unwrap(), "light");
    assert!(!s.contains_key("shop_name"));
    assert_eq!(load(None).unwrap().to_pairs().len(), 0);
    let saved = save(None, &[("theme".into(), "dark".into())]).unwrap();
    let reread = decode(&encode(&saved)).unwrap();
    assert_eq!(reread.get("theme").unwrap(), "dark");
}
