//! The customer-facing display on a second monitor: what it shows and on
//! which monitor it opens.
use vstd::prelude::*;

verus! {

/// One line of the sale as the customer sees it.
#[derive(Clone, Debug, Default, PartialEq)]
pub struct DisplayLine {
    pub name: String,
    pub quantity: String,
    pub amount: String,
}

/// What the customer display shows.
#[derive(Clone, Debug, Default, PartialEq)]
pub struct DisplaySnapshot {
    pub shop: String,
    pub lines: Vec<DisplayLine>,
    pub total: String,
    pub received: Option<String>,
    pub change: Option<String>,
    pub completed: bool,
}

/// A monitor by its position and size.
#[derive(Clone, Copy, Debug, PartialEq, Eq, Structural)]
pub struct Monitor {
    pub x: i32,
    pub y: i32,
    pub width: u32,
    pub height: u32,
}

/// Where a monitor is.
pub open spec fn pos(m: Monitor) -> (i32, i32) {
    (m.x, m.y)
}

/// The monitor the display belongs on: when enabled and the cashier's monitor
/// is known, the first monitor at another position.
pub open spec fn target_of(enabled: bool, primary: Option<(i32, i32)>, monitors: Seq<Monitor>) -> Option<Monitor> {
    if enabled && primary is Some && exists|i: int|
        0 <= i < monitors.len() && pos(#[trigger] monitors[i]) != primary->0 {
        Some(
            monitors[choose|i: int|
                0 <= i < monitors.len() && pos(#[trigger] monitors[i]) != primary->0
                    && forall|j: int| 0 <= j < i ==> pos(#[trigger] monitors[j]) == primary->0],
        )
    } else {
        None
    }
}

/// The monitor the customer display opens on, if any.
pub fn display_target(enabled: bool, primary: Option<(i32, i32)>, monitors: &[Monitor]) -> (r: Option<Monitor>)
    ensures
        r == target_of(enabled, primary, monitors@),
{
    if !enabled {
        return None;
    }
    let p = match primary {
        Some(p) => p,
        None => return None,
    };
    let mut i: usize = 0;
    while i < monitors.len()
        invariant
            i <= monitors@.len(),
            primary == Some(p),
            enabled,
            forall|j: int| 0 <= j < i ==> pos(#[trigger] monitors@[j]) == p,
        decreases monitors@.len() - i,
    {
        let m = monitors[i];
        if m.x != p.0 || m.y != p.1 {
            proof {
                assert(pos(monitors@[i as int]) != p);
                let k = choose|k: int|
                    0 <= k < monitors@.len() && pos(#[trigger] monitors@[k]) != p && forall|j: int|
                        0 <= j < k ==> pos(#[trigger] monitors@[j]) == p;
                if k < i {
                } else if k > i {
                    assert(pos(monitors@[i as int]) == p);
                }
            }
            return Some(m);
        }
        i = i + 1;
    }
    None
}

/// What the display loop does after looking at the monitors: reopen the
/// window when the target changed (close the old one, open on the new one
/// if any), else nothing.
#[derive(Clone, Copy, Debug, PartialEq, Eq, Structural)]
pub enum DisplayAction {
    Keep,
    Close,
    OpenOn(Monitor),
}

/// The next step of the display loop, from the current target and the one
/// just found; the new target becomes the current one.
pub fn display_step(current: Option<Monitor>, next: Option<Monitor>) -> (r: DisplayAction)
    ensures
        current == next ==> r == DisplayAction::Keep,
        current != next ==> r == match next {
            Some(m) => DisplayAction::OpenOn(m),
            None => DisplayAction::Close,
        },
{
    if current == next {
        DisplayAction::Keep
    } else {
        match next {
            Some(m) => DisplayAction::OpenOn(m),
            None => DisplayAction::Close,
        }
    }
}

} // verus!
