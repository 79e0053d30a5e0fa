//! The action executor's decisions: try the semantic invoke first, fall back
//! to a raw click at the control's clickable point unless that point is the
//! degenerate origin, and report the outcome.
use vstd::prelude::*;

verus! {

/// A screen point, as the platform reports a control's clickable point.
#[derive(Clone, Copy, Debug, PartialEq, Eq)]
pub struct ClickPoint {
    pub x: i32,
    pub y: i32,
}

/// What the platform answered to the last command.
#[derive(Clone, Copy, Debug)]
pub enum ActionEvent {
    /// Nothing was attempted yet.
    Start,
    /// The invoke succeeded or not.
    Invoked(bool),
    /// The clickable point, or `None` when it could not be read.
    PointRead(Option<ClickPoint>),
    /// The click at the given point succeeded or not.
    Clicked(bool, ClickPoint),
}

/// What to do next on the platform.
#[derive(Clone, Copy, Debug)]
pub enum ActionCommand {
    Invoke,
    QueryPoint,
    Click(ClickPoint),
    /// The control was activated; let the interface settle briefly.
    Succeeded,
    /// Both ways failed; go on with the next window.
    Failed,
}

/// The point is the origin, the mark of an off-screen or unresolved control.
pub open spec fn degenerate(p: ClickPoint) -> bool {
    p.x == 0 && p.y == 0
}

/// The next command after `ev`.
pub open spec fn action_next(ev: ActionEvent) -> ActionCommand {
    match ev {
        ActionEvent::Start => ActionCommand::Invoke,
        ActionEvent::Invoked(ok) => if ok {
            ActionCommand::Succeeded
        } else {
            ActionCommand::QueryPoint
        },
        ActionEvent::PointRead(p) => match p {
            Some(q) => if degenerate(q) {
                ActionCommand::Failed
            } else {
                ActionCommand::Click(q)
            },
            None => ActionCommand::Failed,
        },
        ActionEvent::Clicked(ok, _) => if ok {
            ActionCommand::Succeeded
        } else {
            ActionCommand::Failed
        },
    }
}

/// Whether a click at `p` may be attempted.
pub fn click_allowed(p: ClickPoint) -> (r: bool)
    ensures
        r == !degenerate(p),
{
    !(p.x == 0 && p.y == 0)
}

/// The next command after `ev`: invoke first; on failure read the clickable
/// point; click there unless it is unreadable or the origin.
pub fn next_action(ev: ActionEvent) -> (r: ActionCommand)
    ensures
        r == action_next(ev),
{
    match ev {
        ActionEvent::Start => ActionCommand::Invoke,
        ActionEvent::Invoked(ok) => if ok {
            ActionCommand::Succeeded
        } else {
            ActionCommand::QueryPoint
        },
        ActionEvent::PointRead(p) => match p {
            Some(q) => if click_allowed(q) {
                ActionCommand::Click(q)
            } else {
                ActionCommand::Failed
            },
            None => ActionCommand::Failed,
        },
        ActionEvent::Clicked(ok, _) => if ok {
            ActionCommand::Succeeded
        } else {
            ActionCommand::Failed
        },
    }
}

} // verus!
