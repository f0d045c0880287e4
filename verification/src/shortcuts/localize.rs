//! Labels for actions and categories.

use vstd::prelude::*;
use super::action::{Action, ActionView, Direction, FocusDirection, Orientation, ResizeDirection, System};
use super::binding::Binding;
use super::categories::CategoryKind;
use crate::text::{blank, decimal, decimal_u8, is_blank};

verus! {

/// Title shown above a section.
pub open spec fn category_title_text(kind: CategoryKind) -> Seq<char> {
    match kind {
        CategoryKind::Navigation => "Navigation"@,
        CategoryKind::ManageWindows => "Manage windows"@,
        CategoryKind::MoveWindows => "Move windows"@,
        CategoryKind::WindowTiling => "Window tiling"@,
        CategoryKind::System => "System"@,
        CategoryKind::Accessibility => "Accessibility"@,
        CategoryKind::Custom => "Custom"@,
        CategoryKind::Other => "Other"@,
    }
}

/// Title shown above a section.
pub fn category_title(kind: CategoryKind) -> (s: String)
    ensures
        s@ == category_title_text(kind),
{
    match kind {
        CategoryKind::Navigation => String::from_str("Navigation"),
        CategoryKind::ManageWindows => String::from_str("Manage windows"),
        CategoryKind::MoveWindows => String::from_str("Move windows"),
        CategoryKind::WindowTiling => String::from_str("Window tiling"),
        CategoryKind::System => String::from_str("System"),
        CategoryKind::Accessibility => String::from_str("Accessibility"),
        CategoryKind::Custom => String::from_str("Custom"),
        CategoryKind::Other => String::from_str("Other"),
    }
}

/// Word for a direction.
pub open spec fn direction_word(d: Direction) -> Seq<char> {
    match d {
        Direction::Left => "left"@,
        Direction::Right => "right"@,
        Direction::Up => "up"@,
        Direction::Down => "down"@,
    }
}

fn direction_word_of(d: Direction) -> (s: &'static str)
    ensures
        s@ == direction_word(d),
{
    match d {
        Direction::Left => "left",
        Direction::Right => "right",
        Direction::Up => "up",
        Direction::Down => "down",
    }
}

/// Word for a focus direction.
pub open spec fn focus_direction_word(d: FocusDirection) -> Seq<char> {
    match d {
        FocusDirection::Left => "left"@,
        FocusDirection::Right => "right"@,
        FocusDirection::Up => "up"@,
        FocusDirection::Down => "down"@,
        FocusDirection::In => "in"@,
        FocusDirection::Out => "out"@,
    }
}

fn focus_direction_word_of(d: FocusDirection) -> (s: &'static str)
    ensures
        s@ == focus_direction_word(d),
{
    match d {
        FocusDirection::Left => "left",
        FocusDirection::Right => "right",
        FocusDirection::Up => "up",
        FocusDirection::Down => "down",
        FocusDirection::In => "in",
        FocusDirection::Out => "out",
    }
}

/// Label of a system action.
pub open spec fn system_label_text(s: System) -> Seq<char> {
    match s {
        System::AppLibrary => "Open the app library"@,
        System::BrightnessDown => "Decrease display brightness"@,
        System::BrightnessUp => "Increase display brightness"@,
        System::DisplayToggle => "Toggle displays"@,
        System::HomeFolder => "Open home folder"@,
        System::InputSourceSwitch => "Switch keyboard layout"@,
        System::KeyboardBrightnessDown => "Decrease keyboard brightness"@,
        System::KeyboardBrightnessUp => "Increase keyboard brightness"@,
        System::Launcher => "Open the launcher"@,
        System::LockScreen => "Lock the screen"@,
        System::LogOut => "Log out"@,
        System::Mute => "Mute audio output"@,
        System::MuteMic => "Mute microphone"@,
        System::PlayPause => "Play/Pause"@,
        System::PlayNext => "Next track"@,
        System::PlayPrev => "Previous track"@,
        System::PowerOff => "Power off"@,
        System::ScreenReader => "Toggle screen reader"@,
        System::Screenshot => "Take a screenshot"@,
        System::Suspend => "Suspend"@,
        System::Terminal => "Open a terminal"@,
        System::TouchpadToggle => "Toggle touchpad"@,
        System::VolumeLower => "Decrease volume"@,
        System::VolumeRaise => "Increase volume"@,
        System::WebBrowser => "Open a web browser"@,
        System::WindowSwitcher => "Switch between windows"@,
        System::WindowSwitcherPrevious => "Switch between windows backwards"@,
        System::WorkspaceOverview => "Open the workspace overview"@,
    }
}

/// Label of a system action.
pub fn system_label(system: &System) -> (s: String)
    ensures
        s@ == system_label_text(*system),
{
    match system {
        System::AppLibrary => String::from_str("Open the app library"),
        System::BrightnessDown => String::from_str("Decrease display brightness"),
        System::BrightnessUp => String::from_str("Increase display brightness"),
        System::DisplayToggle => String::from_str("Toggle displays"),
        System::HomeFolder => String::from_str("Open home folder"),
        System::InputSourceSwitch => String::from_str("Switch keyboard layout"),
        System::KeyboardBrightnessDown => String::from_str("Decrease keyboard brightness"),
        System::KeyboardBrightnessUp => String::from_str("Increase keyboard brightness"),
        System::Launcher => String::from_str("Open the launcher"),
        System::LockScreen => String::from_str("Lock the screen"),
        System::LogOut => String::from_str("Log out"),
        System::Mute => String::from_str("Mute audio output"),
        System::MuteMic => String::from_str("Mute microphone"),
        System::PlayPause => String::from_str("Play/Pause"),
        System::PlayNext => String::from_str("Next track"),
        System::PlayPrev => String::from_str("Previous track"),
        System::PowerOff => String::from_str("Power off"),
        System::ScreenReader => String::from_str("Toggle screen reader"),
        System::Screenshot => String::from_str("Take a screenshot"),
        System::Suspend => String::from_str("Suspend"),
        System::Terminal => String::from_str("Open a terminal"),
        System::TouchpadToggle => String::from_str("Toggle touchpad"),
        System::VolumeLower => String::from_str("Decrease volume"),
        System::VolumeRaise => String::from_str("Increase volume"),
        System::WebBrowser => String::from_str("Open a web browser"),
        System::WindowSwitcher => String::from_str("Switch between windows"),
        System::WindowSwitcherPrevious => String::from_str("Switch between windows backwards"),
        System::WorkspaceOverview => String::from_str("Open the workspace overview"),
    }
}

/// The description stored with a binding, if there is a binding.
pub open spec fn description_of(binding: Option<&Binding>) -> Option<Seq<char>> {
    match binding {
        Some(b) => b@.description,
        None => None,
    }
}

/// Label for an action. For a custom `Spawn` entry the description of its
/// binding is used when it is not blank, and the command otherwise.
pub open spec fn action_label_text(a: ActionView, description: Option<Seq<char>>) -> Seq<char> {
    match a {
        ActionView::Close => "Close window"@,
        ActionView::Debug => "Toggle debug overlay"@,
        ActionView::Disable => "Disabled shortcut"@,
        ActionView::Focus(d) => "Move focus "@ + focus_direction_word(d),
        ActionView::LastWorkspace => "Switch to last workspace"@,
        ActionView::Maximize => "Maximize window"@,
        ActionView::Fullscreen => "Toggle fullscreen"@,
        ActionView::Minimize => "Minimize window"@,
        ActionView::MigrateWorkspaceToNextOutput => "Move workspace to next display"@,
        ActionView::MigrateWorkspaceToOutput(d) => "Move workspace to "@ + direction_word(d) + " display"@,
        ActionView::MigrateWorkspaceToPreviousOutput => "Move workspace to previous display"@,
        ActionView::Move(d) => "Move window "@ + direction_word(d),
        ActionView::MoveToLastWorkspace => "Move window to last workspace"@,
        ActionView::MoveToNextOutput => "Move window to next display"@,
        ActionView::MoveToNextWorkspace => "Move window to next workspace"@,
        ActionView::MoveToOutput(d) => "Move window to "@ + direction_word(d) + " display"@,
        ActionView::MoveToPreviousOutput => "Move window to previous display"@,
        ActionView::MoveToPreviousWorkspace => "Move window to previous workspace"@,
        ActionView::MoveToWorkspace(n) => "Move window to workspace "@ + decimal(n as nat),
        ActionView::NextOutput => "Focus next display"@,
        ActionView::NextWorkspace => "Switch to next workspace"@,
        ActionView::Orientation(Orientation::Horizontal) => "Horizontal tiling orientation"@,
        ActionView::Orientation(Orientation::Vertical) => "Vertical tiling orientation"@,
        ActionView::PreviousOutput => "Focus previous display"@,
        ActionView::PreviousWorkspace => "Switch to previous workspace"@,
        ActionView::Resizing(ResizeDirection::Inwards) => "Resize window inwards"@,
        ActionView::Resizing(ResizeDirection::Outwards) => "Resize window outwards"@,
        ActionView::SendToLastWorkspace => "Move window to last workspace"@,
        ActionView::SendToNextOutput => "Move window to next display"@,
        ActionView::SendToNextWorkspace => "Move window to next workspace"@,
        ActionView::SendToOutput(d) => "Move window to "@ + direction_word(d) + " display"@,
        ActionView::SendToPreviousOutput => "Move window to previous display"@,
        ActionView::SendToPreviousWorkspace => "Move window to previous workspace"@,
        ActionView::SendToWorkspace(n) => "Move window to workspace "@ + decimal(n as nat),
        ActionView::SwapWindow => "Swap window"@,
        ActionView::SwitchOutput(d) => "Focus "@ + direction_word(d) + " display"@,
        ActionView::System(s) => system_label_text(s),
        ActionView::Terminate => "Quit the compositor"@,
        ActionView::ToggleOrientation => "Toggle tiling orientation"@,
        ActionView::ToggleStacking => "Toggle window stacking"@,
        ActionView::ToggleSticky => "Toggle sticky window"@,
        ActionView::ToggleTiling => "Toggle tiling"@,
        ActionView::ToggleWindowFloating => "Toggle window floating"@,
        ActionView::Workspace(n) => "Switch to workspace "@ + decimal(n as nat),
        ActionView::ZoomIn => "Zoom in"@,
        ActionView::ZoomOut => "Zoom out"@,
        ActionView::Spawn(c) => match description {
            Some(d) => if is_blank(d) { c } else { d },
            None => c,
        },
    }
}

/// Label for an action. `binding` is used for custom `Spawn` entries, whose
/// description lives on the binding rather than the action.
pub fn action_label(action: &Action, binding: Option<&Binding>) -> (s: String)
    ensures
        s@ == action_label_text(action@, description_of(binding)),
{
    match action {
        Action::Close => String::from_str("Close window"),
        Action::Debug => String::from_str("Toggle debug overlay"),
        Action::Disable => String::from_str("Disabled shortcut"),
        Action::Focus(d) => {
            let mut s = String::from_str("Move focus ");
            s.append(focus_direction_word_of(*d));
            s
        },
        Action::LastWorkspace => String::from_str("Switch to last workspace"),
        Action::Maximize => String::from_str("Maximize window"),
        Action::Fullscreen => String::from_str("Toggle fullscreen"),
        Action::Minimize => String::from_str("Minimize window"),
        Action::MigrateWorkspaceToNextOutput => String::from_str("Move workspace to next display"),
        Action::MigrateWorkspaceToOutput(d) => {
            let mut s = String::from_str("Move workspace to ");
            s.append(direction_word_of(*d));
            s.append(" display");
            s
        },
        Action::MigrateWorkspaceToPreviousOutput => String::from_str("Move workspace to previous display"),
        Action::Move(d) => {
            let mut s = String::from_str("Move window ");
            s.append(direction_word_of(*d));
            s
        },
        Action::MoveToLastWorkspace => String::from_str("Move window to last workspace"),
        Action::MoveToNextOutput => String::from_str("Move window to next display"),
        Action::MoveToNextWorkspace => String::from_str("Move window to next workspace"),
        Action::MoveToOutput(d) => {
            let mut s = String::from_str("Move window to ");
            s.append(direction_word_of(*d));
            s.append(" display");
            s
        },
        Action::MoveToPreviousOutput => String::from_str("Move window to previous display"),
        Action::MoveToPreviousWorkspace => String::from_str("Move window to previous workspace"),
        Action::MoveToWorkspace(n) => {
            let mut s = String::from_str("Move window to workspace ");
            let digits = decimal_u8(*n);
            s.append(digits.as_str());
            s
        },
        Action::NextOutput => String::from_str("Focus next display"),
        Action::NextWorkspace => String::from_str("Switch to next workspace"),
        Action::Orientation(Orientation::Horizontal) => String::from_str("Horizontal tiling orientation"),
        Action::Orientation(Orientation::Vertical) => String::from_str("Vertical tiling orientation"),
        Action::PreviousOutput => String::from_str("Focus previous display"),
        Action::PreviousWorkspace => String::from_str("Switch to previous workspace"),
        Action::Resizing(ResizeDirection::Inwards) => String::from_str("Resize window inwards"),
        Action::Resizing(ResizeDirection::Outwards) => String::from_str("Resize window outwards"),
        Action::SendToLastWorkspace => String::from_str("Move window to last workspace"),
        Action::SendToNextOutput => String::from_str("Move window to next display"),
        Action::SendToNextWorkspace => String::from_str("Move window to next workspace"),
        Action::SendToOutput(d) => {
            let mut s = String::from_str("Move window to ");
            s.append(direction_word_of(*d));
            s.append(" display");
            s
        },
        Action::SendToPreviousOutput => String::from_str("Move window to previous display"),
        Action::SendToPreviousWorkspace => String::from_str("Move window to previous workspace"),
        Action::SendToWorkspace(n) => {
            let mut s = String::from_str("Move window to workspace ");
            let digits = decimal_u8(*n);
            s.append(digits.as_str());
            s
        },
        Action::SwapWindow => String::from_str("Swap window"),
        Action::SwitchOutput(d) => {
            let mut s = String::from_str("Focus ");
            s.append(direction_word_of(*d));
            s.append(" display");
            s
        },
        Action::System(s) => system_label(s),
        Action::Terminate => String::from_str("Quit the compositor"),
        Action::ToggleOrientation => String::from_str("Toggle tiling orientation"),
        Action::ToggleStacking => String::from_str("Toggle window stacking"),
        Action::ToggleSticky => String::from_str("Toggle sticky window"),
        Action::ToggleTiling => String::from_str("Toggle tiling"),
        Action::ToggleWindowFloating => String::from_str("Toggle window floating"),
        Action::Workspace(n) => {
            let mut s = String::from_str("Switch to workspace ");
            let digits = decimal_u8(*n);
            s.append(digits.as_str());
            s
        },
        Action::ZoomIn => String::from_str("Zoom in"),
        Action::ZoomOut => String::from_str("Zoom out"),
        Action::Spawn(command) => {
            match binding {
                Some(b) => match &b.description {
                    Some(d) => {
                        if blank(d.as_str()) {
                            command.clone()
                        } else {
                            d.clone()
                        }
                    },
                    None => command.clone(),
                },
                None => command.clone(),
            }
        },
    }
}

} // verus!
