use pos_desktop::held_sales::{
    after_cancel, after_hold_done, begin_hold_request, held_quotes, line_keys, needs_recovery, restore_plan, stock_groups,
    HeldJournal, HeldProduct, HeldRow, HoldRefusal, RestoreError,
};

fn product() -> HeldProduct {
    HeldProduct { id: 1, sold_by: Some("Each".into()), variant_ids: vec![] }
}

fn row(id: i64) -> HeldRow {
    HeldRow { location_set: false, clearance: false, product_id: Some(id), variant_id: None, has_qty: true }
}

#[test]
fn restore_uses_current_price_and_aggregate_stock() {
    // the current product list: price 120, 5 in stock
    let prices = [120.0];
    let stock = [5.0];
    let lines = restore_plan(&[row(1)], &[product()]).unwrap();
    assert_eq!(prices[lines[0].product], 120.0);
    // two rows of 3 of the same product share one stock count of 5
    let duplicate = restore_plan(&[row(1), row(1)], &[product()]).unwrap();
    let groups = stock_groups(&line_keys(&duplicate, &[product()]));
    assert_eq!(groups, vec![0, 0]);
    let held_qty = [3.0, 3.0];
    let counted: f64 = (0..2).filter(|i| groups[*i] == 0).map(|i| held_qty[i]).sum();
    assert!(counted > stock[duplicate[0].product]);
    assert_eq!(restore_plan(&[row(1)], &[]).err(), Some(RestoreError::ProductRemoved));
}

#[test]
fn restore_rejects_missing_variants_and_main_batch_selection() {
    let mut h = row(1);
    h.variant_id = Some(99);
    assert_eq!(restore_plan(&[h], &[product()]).err(), Some(RestoreError::VariantRemoved));
    let mut h = row(1);
    h.location_set = true;
    assert_eq!(restore_plan(&[h], &[product()]).err(), Some(RestoreError::MainPosSelection));
}

#[test]
fn restore_preserves_service_quote_without_stock() {
    let mut p = product();
    p.sold_by = Some("Service".into());
    let products = [p];
    let lines = restore_plan(&[row(1)], &products).unwrap();
    assert_eq!((lines[0].product, lines[0].variant), (0, None));
    // a service keeps the held price (275) and is not counted against stock
    assert_eq!(held_quotes(&lines, &products), vec![true]);
    let each = restore_plan(&[row(1)], &[product()]).unwrap();
    assert_eq!(held_quotes(&each, &[product()]), vec![false]);
}

fn facts(id: i32, sold_by: &str, variants: Vec<i32>) -> HeldProduct {
    HeldProduct { id, sold_by: Some(sold_by.into()), variant_ids: variants }
}

fn held(id: Option<i64>, variant: Option<i64>) -> HeldRow {
    HeldRow { location_set: false, clearance: false, product_id: id, variant_id: variant, has_qty: true }
}

#[test]
fn restore_errors_come_in_check_order() {
    let products = vec![facts(1, "Each", vec![]), facts(2, "variants", vec![7, 8]), facts(3, "restaurant", vec![])];
    let mut clearance = held(Some(1), None);
    clearance.clearance = true;
    assert_eq!(restore_plan(&[clearance], &products).err(), Some(RestoreError::MainPosSelection));
    assert_eq!(restore_plan(&[held(None, None)], &products).err(), Some(RestoreError::InvalidProductId));
    assert_eq!(restore_plan(&[held(Some(9), None)], &products).err(), Some(RestoreError::ProductRemoved));
    assert_eq!(restore_plan(&[held(Some(3), None)], &products).err(), Some(RestoreError::Restaurant));
    assert_eq!(restore_plan(&[held(Some(2), Some(9))], &products).err(), Some(RestoreError::VariantRemoved));
    assert_eq!(restore_plan(&[held(Some(2), None)], &products).err(), Some(RestoreError::VariantChanged));
    assert_eq!(restore_plan(&[held(Some(1), Some(7))], &products).err(), Some(RestoreError::VariantRemoved));
    let mut no_qty = held(Some(1), None);
    no_qty.has_qty = false;
    assert_eq!(restore_plan(&[no_qty], &products).err(), Some(RestoreError::InvalidQuantity));
    let lines = restore_plan(&[held(Some(2), Some(8)), held(Some(1), None)], &products).unwrap();
    assert_eq!((lines[0].product, lines[0].variant), (1, Some(1)));
    assert_eq!((lines[1].product, lines[1].variant), (0, None));
    assert_eq!(line_keys(&lines, &products), vec![(2, Some(8)), (1, None)]);
    // the first refused row decides, even after accepted rows
    assert_eq!(
        restore_plan(&[held(Some(1), None), held(Some(9), None), held(None, None)], &products).err(),
        Some(RestoreError::ProductRemoved)
    );
}

#[test]
fn lines_with_one_stock_key_share_a_group() {
    let keys = vec![(1, None), (2, Some(7)), (1, None), (2, Some(8)), (2, Some(7))];
    assert_eq!(stock_groups(&keys), vec![0, 1, 0, 3, 1]);
    assert!(stock_groups(&[]).is_empty());
}

#[test]
fn hold_requests_are_kept_until_resolved() {
    let j = HeldJournal::empty();
    let started = begin_hold_request(&j, "operator", b"save-1").unwrap();
    assert_eq!(started.owner, "operator");
    assert_eq!(started.pending.as_deref(), Some(&b"save-1"[..]));
    let again = begin_hold_request(&started, "operator", b"save-1").unwrap();
    assert_eq!(again.pending.as_deref(), Some(&b"save-1"[..]));
    assert_eq!(begin_hold_request(&started, "operator", b"save-2").err(), Some(HoldRefusal::Unresolved));
    assert_eq!(begin_hold_request(&started, "cashier", b"save-1").err(), Some(HoldRefusal::OtherOperator));
    assert!(needs_recovery(&started, false));
    assert!(!needs_recovery(&started, true));
    let resumed = after_hold_done(&started, &Some("tok".into()), true);
    assert_eq!((resumed.owner.as_str(), resumed.pending.is_none(), resumed.active.as_deref()), ("operator", true, Some("tok")));
    let closed = after_hold_done(&started, &Some("tok".into()), false);
    assert!(closed.owner.is_empty() && closed.pending.is_none() && closed.active.is_none());
    let saved = after_hold_done(&started, &None, true);
    assert!(saved.pending.is_none() && saved.active.is_none());
    assert!(!needs_recovery(&saved, false));
    let back = after_cancel("operator", &Some(Some("tok".into())));
    assert_eq!((back.owner.as_str(), back.active.as_deref()), ("operator", Some("tok")));
    let gone = after_cancel("operator", &None);
    assert!(gone.owner.is_empty() && gone.active.is_none());
}
