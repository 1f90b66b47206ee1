//! Request states and actions shared by the nodes' request protocols.
use vstd::prelude::*;

verus! {

/// The state of a request.
#[derive(PartialEq, Eq, Structural, Clone, Copy)]
pub enum RequestState {
    Idle,
    Planning,
    Executing,
    Succeeded,
    Failed,
    Cancelled,
}

/// The action a node request asks for.
#[derive(PartialEq, Eq, Structural, Clone, Copy)]
pub enum RequestAction {
    Refresh,
    Discover,
    Select,
    Apply,
    Connect,
    Disconnect,
    Unselect,
    Cancel,
    Reset,
    Snapshot,
    Reconstruct,
    GenerateGrasps,
}

/// The name of an action as it appears in messages (its `Debug` form).
pub open spec fn action_text(action: RequestAction) -> Seq<char> {
    match action {
        RequestAction::Refresh => "Refresh"@,
        RequestAction::Discover => "Discover"@,
        RequestAction::Select => "Select"@,
        RequestAction::Apply => "Apply"@,
        RequestAction::Connect => "Connect"@,
        RequestAction::Disconnect => "Disconnect"@,
        RequestAction::Unselect => "Unselect"@,
        RequestAction::Cancel => "Cancel"@,
        RequestAction::Reset => "Reset"@,
        RequestAction::Snapshot => "Snapshot"@,
        RequestAction::Reconstruct => "Reconstruct"@,
        RequestAction::GenerateGrasps => "GenerateGrasps"@,
    }
}

/// The name of an action as it appears in messages.
pub fn action_label(action: RequestAction) -> (res: &'static str)
    ensures
        res@ == action_text(action),
{
    match action {
        RequestAction::Refresh => "Refresh",
        RequestAction::Discover => "Discover",
        RequestAction::Select => "Select",
        RequestAction::Apply => "Apply",
        RequestAction::Connect => "Connect",
        RequestAction::Disconnect => "Disconnect",
        RequestAction::Unselect => "Unselect",
        RequestAction::Cancel => "Cancel",
        RequestAction::Reset => "Reset",
        RequestAction::Snapshot => "Snapshot",
        RequestAction::Reconstruct => "Reconstruct",
        RequestAction::GenerateGrasps => "GenerateGrasps",
    }
}

} // verus!
