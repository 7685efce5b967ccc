//! Point-of-sale desktop logic: settings, appearance, receipts, currency
//! formatting, cart helpers and durable request journals.
use vstd::prelude::*;

pub mod access;
pub mod appearance_colors;
pub mod catalog;
pub mod categories;
pub mod checkout;
pub mod customer_display;
pub mod db_form;
pub mod employees;
pub mod held_sales;
pub mod journal;
pub mod icons;
pub mod listing;
pub mod local_appearance;
pub mod media;
pub mod number;
pub mod products;
pub mod receipt_layout;
pub mod receipts;
pub mod regional;
pub mod service_orders;
pub mod settings;
pub mod settings_center;
pub mod text;
pub mod updates;

verus! {

} // verus!
