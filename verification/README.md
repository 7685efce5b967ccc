# pos_desktop

The decision logic of a point-of-sale desktop client, written in Verus and
verified: every public function states in `requires` / `ensures` what it
returns, and the laws that span several functions are proof functions
(`law_*`).

## Layout

- `src/` — the verified library.
  - `text`, `number`, `listing`: characters, decimal and money text, text
    order, search, pages and sorted filter lists.
  - `settings`: the shop settings as a map with unique keys.
  - `appearance_colors`, `local_appearance`: shop colours and the appearance
    each client keeps for itself.
  - `regional`, `receipt_layout`, `receipts`: currency, printed receipt lines,
    the receipt list.
  - `checkout`, `catalog`, `products`, `categories`, `held_sales`: discounts,
    payment choices and keypad input, products and variants, the category
    tree, resuming held carts.
  - `journal`, `held_sales`: request journals that keep an unresolved request
    until its outcome is known.
  - `db_form`, `updates`, `media`, `employees`, `settings_center`, `access`,
    `customer_display`, `service_orders`, `icons`: the remaining pages.
- `tests/` — tests of the library on concrete values.
- `app/` — the program around the library: the updater's self-check, the
  files kept on the machine, and the floating-point arithmetic of the till.

Calls into `std`, `serde_json`, `chrono`, `semver`, `image` and `base64` that
the library makes go through a few trusted wrappers, each with a doc comment
saying what its contract claims.
