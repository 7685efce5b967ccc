//! Employee records as the staff pages show them: how a cell is written and
//! which fields an action asks for.
use vstd::prelude::*;
use crate::text::{listed, same_text, strs_view};

verus! {

/// How an employee cell is written.
#[derive(Debug, PartialEq, Eq)]
pub enum CellKind {
    /// An amount of money, written in kyats (blank when not a number).
    Money,
    /// A flag stored as `1`, written `Yes` or `No`.
    YesNo,
    /// Any other value, as text.
    Text,
}

/// The keys whose values are amounts of money.
pub open spec fn money_keys() -> Seq<Seq<char>> {
    seq![
        "basic_salary"@,
        "net_salary"@,
        "amount"@,
        "repaid_amount"@,
        "balance"@,
        "opening_cash"@,
        "expected_cash"@,
        "actual_cash"@,
        "difference"@,
        "sales_total"@,
        "discount_total"@,
        "target_amount"@,
        "commission_amount"@,
    ]
}

/// How the value under `key` is written.
pub open spec fn cell_kind_of(key: Seq<char>) -> CellKind {
    if money_keys().contains(key) {
        CellKind::Money
    } else if key == "is_overnight"@ || key == "active"@ {
        CellKind::YesNo
    } else {
        CellKind::Text
    }
}

/// How the value under `key` is written.
pub fn cell_kind(key: &str) -> (r: CellKind)
    ensures
        r == cell_kind_of(key@),
{
    let money = [
        "basic_salary",
        "net_salary",
        "amount",
        "repaid_amount",
        "balance",
        "opening_cash",
        "expected_cash",
        "actual_cash",
        "difference",
        "sales_total",
        "discount_total",
        "target_amount",
        "commission_amount",
    ];
    let is_money = listed(&money, key);
    proof {
        assert(strs_view(money@) =~= money_keys());
    }
    if is_money {
        CellKind::Money
    } else if same_text(key, "is_overnight") || same_text(key, "active") {
        CellKind::YesNo
    } else {
        CellKind::Text
    }
}

/// A form field: its key, label, input kind and default.
pub struct Field {
    pub key: &'static str,
    pub label: &'static str,
    pub kind: &'static str,
    pub default: &'static str,
}

pub type FieldView = (Seq<char>, Seq<char>, Seq<char>, Seq<char>);

impl Field {
    pub open spec fn view(self) -> FieldView {
        (self.key@, self.label@, self.kind@, self.default@)
    }
}

pub open spec fn fields_view(v: Seq<Field>) -> Seq<FieldView> {
    v.map_values(|f: Field| f.view())
}

/// The fields an action asks for.
pub enum ActionFields {
    /// All the fields of the section being edited.
    SectionFields,
    /// These fields (none for an action without a form).
    Fixed(Vec<Field>),
}

/// The fields each action asks for: `save` the section's own fields; `pay`,
/// `repay`, `close` and `review` their own; any other action none.
pub open spec fn action_fields_of(action: Seq<char>) -> Option<Seq<FieldView>> {
    if action == "save"@ {
        None
    } else if action == "pay"@ {
        Some(
            seq![
                ("paid_date"@, "Paid date"@, "date"@, "today"@),
                ("payment_method"@, "Payment method"@, "Cash|Bank Transfer|Mobile Payment"@, "Cash"@),
            ],
        )
    } else if action == "repay"@ {
        Some(seq![("amount"@, "Repayment amount"@, "number"@, "0"@)])
    } else if action == "close"@ {
        Some(seq![("actual_cash"@, "Actual cash"@, "number"@, "0"@)])
    } else if action == "review"@ {
        Some(
            seq![
                ("status"@, "Decision"@, "Approved|Rejected|Cancelled"@, "Approved"@),
                ("review_notes"@, "Review notes"@, "memo"@, ""@),
            ],
        )
    } else {
        Some(Seq::empty())
    }
}

/// The fields an action asks for.
pub fn action_fields(action: &str) -> (r: ActionFields)
    ensures
        match r {
            ActionFields::SectionFields => action_fields_of(action@) is None,
            ActionFields::Fixed(v) => action_fields_of(action@) == Some(fields_view(v@)),
        },
{
    if same_text(action, "save") {
        return ActionFields::SectionFields;
    }
    let mut v: Vec<Field> = Vec::new();
    if same_text(action, "pay") {
        v.push(Field { key: "paid_date", label: "Paid date", kind: "date", default: "today" });
        v.push(
            Field {
                key: "payment_method",
                label: "Payment method",
                kind: "Cash|Bank Transfer|Mobile Payment",
                default: "Cash",
            },
        );
    } else if same_text(action, "repay") {
        v.push(Field { key: "amount", label: "Repayment amount", kind: "number", default: "0" });
    } else if same_text(action, "close") {
        v.push(Field { key: "actual_cash", label: "Actual cash", kind: "number", default: "0" });
    } else if same_text(action, "review") {
        v.push(Field { key: "status", label: "Decision", kind: "Approved|Rejected|Cancelled", default: "Approved" });
        v.push(Field { key: "review_notes", label: "Review notes", kind: "memo", default: "" });
    }
    proof {
        assert(fields_view(v@) =~= action_fields_of(action@)->Some_0);
    }
    ActionFields::Fixed(v)
}

} // verus!
