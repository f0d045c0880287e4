//! Cheatsheet sections.

use vstd::prelude::*;
use super::action::{Action, ActionView, System};

verus! {

/// Cheatsheet sections, in display order.
#[derive(Debug, Clone, Copy, PartialEq, Eq, Hash, Structural)]
pub enum CategoryKind {
    Navigation,
    ManageWindows,
    MoveWindows,
    WindowTiling,
    System,
    Accessibility,
    Custom,
    Other,
}

/// Position of a section in display order.
pub open spec fn kind_rank(k: CategoryKind) -> int {
    match k {
        CategoryKind::Navigation => 0,
        CategoryKind::ManageWindows => 1,
        CategoryKind::MoveWindows => 2,
        CategoryKind::WindowTiling => 3,
        CategoryKind::System => 4,
        CategoryKind::Accessibility => 5,
        CategoryKind::Custom => 6,
        CategoryKind::Other => 7,
    }
}

impl CategoryKind {
    /// Position of the section in display order.
    pub fn rank(self) -> (r: u8)
        ensures r == kind_rank(self),
    {
        match self {
            CategoryKind::Navigation => 0,
            CategoryKind::ManageWindows => 1,
            CategoryKind::MoveWindows => 2,
            CategoryKind::WindowTiling => 3,
            CategoryKind::System => 4,
            CategoryKind::Accessibility => 5,
            CategoryKind::Custom => 6,
            CategoryKind::Other => 7,
        }
    }
}

/// The section an action is listed in (the grouping of cosmic-settings).
pub open spec fn category_of_view(a: ActionView) -> CategoryKind {
    match a {
        ActionView::Focus(_)
        | ActionView::Workspace(_)
        | ActionView::LastWorkspace
        | ActionView::NextWorkspace
        | ActionView::PreviousWorkspace
        | ActionView::SwitchOutput(_)
        | ActionView::NextOutput
        | ActionView::PreviousOutput => CategoryKind::Navigation,

        ActionView::Close
        | ActionView::Maximize
        | ActionView::Fullscreen
        | ActionView::Minimize
        | ActionView::Resizing(_)
        | ActionView::ToggleSticky => CategoryKind::ManageWindows,

        ActionView::Move(_)
        | ActionView::MoveToWorkspace(_)
        | ActionView::MoveToLastWorkspace
        | ActionView::MoveToNextWorkspace
        | ActionView::MoveToPreviousWorkspace
        | ActionView::MoveToOutput(_)
        | ActionView::MoveToNextOutput
        | ActionView::MoveToPreviousOutput
        | ActionView::SendToWorkspace(_)
        | ActionView::SendToLastWorkspace
        | ActionView::SendToNextWorkspace
        | ActionView::SendToPreviousWorkspace
        | ActionView::SendToOutput(_)
        | ActionView::SendToNextOutput
        | ActionView::SendToPreviousOutput
        | ActionView::MigrateWorkspaceToOutput(_)
        | ActionView::MigrateWorkspaceToNextOutput
        | ActionView::MigrateWorkspaceToPreviousOutput => CategoryKind::MoveWindows,

        ActionView::Orientation(_)
        | ActionView::ToggleOrientation
        | ActionView::ToggleTiling
        | ActionView::ToggleStacking
        | ActionView::ToggleWindowFloating
        | ActionView::SwapWindow => CategoryKind::WindowTiling,

        ActionView::ZoomIn
        | ActionView::ZoomOut
        | ActionView::System(System::ScreenReader) => CategoryKind::Accessibility,

        ActionView::System(_) => CategoryKind::System,

        ActionView::Spawn(_) => CategoryKind::Custom,

        ActionView::Terminate
        | ActionView::Debug
        | ActionView::Disable => CategoryKind::Other,
    }
}

/// The section an action is listed in.
pub fn category_of(action: &Action) -> (k: CategoryKind)
    ensures
        k == category_of_view(action@),
{
    match action {
        Action::Focus(_)
        | Action::Workspace(_)
        | Action::LastWorkspace
        | Action::NextWorkspace
        | Action::PreviousWorkspace
        | Action::SwitchOutput(_)
        | Action::NextOutput
        | Action::PreviousOutput => CategoryKind::Navigation,

        Action::Close
        | Action::Maximize
        | Action::Fullscreen
        | Action::Minimize
        | Action::Resizing(_)
        | Action::ToggleSticky => CategoryKind::ManageWindows,

        Action::Move(_)
        | Action::MoveToWorkspace(_)
        | Action::MoveToLastWorkspace
        | Action::MoveToNextWorkspace
        | Action::MoveToPreviousWorkspace
        | Action::MoveToOutput(_)
        | Action::MoveToNextOutput
        | Action::MoveToPreviousOutput
        | Action::SendToWorkspace(_)
        | Action::SendToLastWorkspace
        | Action::SendToNextWorkspace
        | Action::SendToPreviousWorkspace
        | Action::SendToOutput(_)
        | Action::SendToNextOutput
        | Action::SendToPreviousOutput
        | Action::MigrateWorkspaceToOutput(_)
        | Action::MigrateWorkspaceToNextOutput
        | Action::MigrateWorkspaceToPreviousOutput => CategoryKind::MoveWindows,

        Action::Orientation(_)
        | Action::ToggleOrientation
        | Action::ToggleTiling
        | Action::ToggleStacking
        | Action::ToggleWindowFloating
        | Action::SwapWindow => CategoryKind::WindowTiling,

        Action::ZoomIn
        | Action::ZoomOut
        | Action::System(System::ScreenReader) => CategoryKind::Accessibility,

        Action::System(_) => CategoryKind::System,

        Action::Spawn(_) => CategoryKind::Custom,

        Action::Terminate
        | Action::Debug
        | Action::Disable => CategoryKind::Other,
    }
}

} // verus!
