//! Service orders: the labels of their actions and how urgent a job is.
use vstd::prelude::*;
use crate::text::same_text;

verus! {

/// What can be done to a service job.
#[derive(Clone, Copy, Debug, PartialEq, Eq)]
pub enum JobAction {
    Start,
    Complete,
    Cancel,
    Delete,
    Collect,
}

/// The button label of an action.
pub fn action_button_label(action: JobAction) -> (r: &'static str)
    ensures
        r@ == match action {
            JobAction::Start => "Start"@,
            JobAction::Complete => "Complete"@,
            JobAction::Cancel => "Cancel"@,
            JobAction::Delete => "Delete"@,
            JobAction::Collect => "Mark as Collected"@,
        },
{
    match action {
        JobAction::Start => "Start",
        JobAction::Complete => "Complete",
        JobAction::Cancel => "Cancel",
        JobAction::Delete => "Delete",
        JobAction::Collect => "Mark as Collected",
    }
}

/// How urgent a job is: nothing once it is ready, delivered or cancelled;
/// otherwise by the minutes left until it is expected: overdue when past,
/// soon within a day, upcoming within three days.
pub open spec fn urgency_of(ready: bool, status: Seq<char>, minutes_left: Option<i64>) -> Seq<char> {
    if ready || status == "delivered"@ || status == "cancelled"@ {
        Seq::empty()
    } else {
        match minutes_left {
            Some(n) => if n < 0 {
                "overdue"@
            } else if n <= 1440 {
                "soon"@
            } else if n <= 4320 {
                "upcoming"@
            } else {
                Seq::empty()
            },
            None => Seq::empty(),
        }
    }
}

/// The urgency class of a job, given whether its status counts as ready and
/// the minutes until it is expected (when it has an expected time).
pub fn urgency(ready: bool, status: &str, minutes_left: Option<i64>) -> (r: &'static str)
    ensures
        r@ == urgency_of(ready, status@, minutes_left),
{
    proof {
        reveal_strlit("");
    }
    if ready || same_text(status, "delivered") || same_text(status, "cancelled") {
        return "";
    }
    match minutes_left {
        Some(n) => if n < 0 {
            "overdue"
        } else if n <= 1440 {
            "soon"
        } else if n <= 4320 {
            "upcoming"
        } else {
            ""
        },
        None => "",
    }
}

} // verus!
