//! Which workspaces a signed-in user may open.
use vstd::prelude::*;

verus! {

/// The workspaces of the point-of-sale window.
#[derive(Clone, Copy, Debug, PartialEq, Eq, Structural)]
pub enum WorkspaceView {
    ServiceOrders,
    SaleSummary,
    Inventory,
    Locations,
    Categories,
    Products,
    Suppliers,
    Expenses,
    Customers,
    Sales,
    Receipts,
    Settings,
}

/// What a user must be allowed to do to open a workspace.
#[derive(Clone, Copy, Debug, PartialEq, Eq, Structural)]
pub enum Permission {
    Sell,
    Manage,
    Admin,
}

/// Selling opens sales, receipts and service orders; settings need an
/// administrator; every other workspace needs a manager.
pub open spec fn permission_for(view: WorkspaceView) -> Permission {
    match view {
        WorkspaceView::Sales | WorkspaceView::Receipts | WorkspaceView::ServiceOrders => Permission::Sell,
        WorkspaceView::Settings => Permission::Admin,
        _ => Permission::Manage,
    }
}

/// The permission a workspace needs.
pub fn required_permission(view: WorkspaceView) -> (r: Permission)
    ensures
        r == permission_for(view),
{
    match view {
        WorkspaceView::Sales | WorkspaceView::Receipts | WorkspaceView::ServiceOrders => Permission::Sell,
        WorkspaceView::Settings => Permission::Admin,
        _ => Permission::Manage,
    }
}

/// Whether a user holding `allowed` may open `view`.
pub fn can_open(allowed: &[Permission], view: WorkspaceView) -> (r: bool)
    ensures
        r == allowed@.contains(permission_for(view)),
{
    let needed = required_permission(view);
    let mut i: usize = 0;
    while i < allowed.len()
        invariant
            i <= allowed@.len(),
            needed == permission_for(view),
            forall|j: int| 0 <= j < i ==> allowed@[j] != needed,
        decreases allowed@.len() - i,
    {
        if allowed[i] == needed {
            return true;
        }
        i = i + 1;
    }
    false
}

/// The permission table: sales, receipts and service orders need the right
/// to sell, settings need an administrator, and every other workspace needs
/// a manager. A user holding only the right to sell may therefore open sales,
/// receipts and service orders, and no other workspace.
pub proof fn law_permission_table(view: WorkspaceView, allowed: Seq<Permission>)
    ensures
        (permission_for(view) == Permission::Sell) <==> (view == WorkspaceView::Sales || view
            == WorkspaceView::Receipts || view == WorkspaceView::ServiceOrders),
        (permission_for(view) == Permission::Admin) <==> (view == WorkspaceView::Settings),
        (permission_for(view) == Permission::Manage) <==> !(view == WorkspaceView::Sales || view
            == WorkspaceView::Receipts || view == WorkspaceView::ServiceOrders || view == WorkspaceView::Settings),
        allowed =~= seq![Permission::Sell] ==> (allowed.contains(permission_for(view)) <==> (view
            == WorkspaceView::Sales || view == WorkspaceView::Receipts || view == WorkspaceView::ServiceOrders)),
{
    if allowed =~= seq![Permission::Sell] {
        if allowed.contains(permission_for(view)) {
            let k = choose|k: int| 0 <= k < allowed.len() && allowed[k] == permission_for(view);
            assert(k == 0);
        } else {
            assert(allowed[0] == Permission::Sell);
        }
    }
}

} // verus!
