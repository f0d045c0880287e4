//! Compositor actions that a key binding can trigger.

use vstd::prelude::*;
use crate::text::chars_of;

verus! {

/// A direction on screen.
#[derive(Debug, Clone, Copy, PartialEq, Eq, Hash, Structural)]
pub enum Direction {
    Left,
    Right,
    Up,
    Down,
}

/// Position of a value in the declaration order of `Direction`.
pub open spec fn direction_index(x: Direction) -> int {
    match x {
        Direction::Left => 0,
        Direction::Right => 1,
        Direction::Up => 2,
        Direction::Down => 3,
    }
}

/// Position of a value in the declaration order of `Direction`.
pub fn direction_index_of(x: Direction) -> (r: u8)
    ensures
        r == direction_index(x),
{
    match x {
        Direction::Left => 0,
        Direction::Right => 1,
        Direction::Up => 2,
        Direction::Down => 3,
    }
}

/// A direction in which focus moves.
#[derive(Debug, Clone, Copy, PartialEq, Eq, Hash, Structural)]
pub enum FocusDirection {
    Left,
    Right,
    Up,
    Down,
    In,
    Out,
}

/// Position of a value in the declaration order of `FocusDirection`.
pub open spec fn focus_direction_index(x: FocusDirection) -> int {
    match x {
        FocusDirection::Left => 0,
        FocusDirection::Right => 1,
        FocusDirection::Up => 2,
        FocusDirection::Down => 3,
        FocusDirection::In => 4,
        FocusDirection::Out => 5,
    }
}

/// Position of a value in the declaration order of `FocusDirection`.
pub fn focus_direction_index_of(x: FocusDirection) -> (r: u8)
    ensures
        r == focus_direction_index(x),
{
    match x {
        FocusDirection::Left => 0,
        FocusDirection::Right => 1,
        FocusDirection::Up => 2,
        FocusDirection::Down => 3,
        FocusDirection::In => 4,
        FocusDirection::Out => 5,
    }
}

/// Tiling orientation.
#[derive(Debug, Clone, Copy, PartialEq, Eq, Hash, Structural)]
pub enum Orientation {
    Horizontal,
    Vertical,
}

/// Position of a value in the declaration order of `Orientation`.
pub open spec fn orientation_index(x: Orientation) -> int {
    match x {
        Orientation::Horizontal => 0,
        Orientation::Vertical => 1,
    }
}

/// Position of a value in the declaration order of `Orientation`.
pub fn orientation_index_of(x: Orientation) -> (r: u8)
    ensures
        r == orientation_index(x),
{
    match x {
        Orientation::Horizontal => 0,
        Orientation::Vertical => 1,
    }
}

/// Direction of an interactive resize.
#[derive(Debug, Clone, Copy, PartialEq, Eq, Hash, Structural)]
pub enum ResizeDirection {
    Inwards,
    Outwards,
}

/// Position of a value in the declaration order of `ResizeDirection`.
pub open spec fn resize_direction_index(x: ResizeDirection) -> int {
    match x {
        ResizeDirection::Inwards => 0,
        ResizeDirection::Outwards => 1,
    }
}

/// Position of a value in the declaration order of `ResizeDirection`.
pub fn resize_direction_index_of(x: ResizeDirection) -> (r: u8)
    ensures
        r == resize_direction_index(x),
{
    match x {
        ResizeDirection::Inwards => 0,
        ResizeDirection::Outwards => 1,
    }
}

/// Actions that run a configurable system command.
#[derive(Debug, Clone, Copy, PartialEq, Eq, Hash, Structural)]
pub enum System {
    AppLibrary,
    BrightnessDown,
    BrightnessUp,
    DisplayToggle,
    HomeFolder,
    InputSourceSwitch,
    KeyboardBrightnessDown,
    KeyboardBrightnessUp,
    Launcher,
    LockScreen,
    LogOut,
    Mute,
    MuteMic,
    PlayPause,
    PlayNext,
    PlayPrev,
    PowerOff,
    ScreenReader,
    Screenshot,
    Suspend,
    Terminal,
    TouchpadToggle,
    VolumeLower,
    VolumeRaise,
    WebBrowser,
    WindowSwitcher,
    WindowSwitcherPrevious,
    WorkspaceOverview,
}

/// Position of a value in the declaration order of `System`.
pub open spec fn system_index(x: System) -> int {
    match x {
        System::AppLibrary => 0,
        System::BrightnessDown => 1,
        System::BrightnessUp => 2,
        System::DisplayToggle => 3,
        System::HomeFolder => 4,
        System::InputSourceSwitch => 5,
        System::KeyboardBrightnessDown => 6,
        System::KeyboardBrightnessUp => 7,
        System::Launcher => 8,
        System::LockScreen => 9,
        System::LogOut => 10,
        System::Mute => 11,
        System::MuteMic => 12,
        System::PlayPause => 13,
        System::PlayNext => 14,
        System::PlayPrev => 15,
        System::PowerOff => 16,
        System::ScreenReader => 17,
        System::Screenshot => 18,
        System::Suspend => 19,
        System::Terminal => 20,
        System::TouchpadToggle => 21,
        System::VolumeLower => 22,
        System::VolumeRaise => 23,
        System::WebBrowser => 24,
        System::WindowSwitcher => 25,
        System::WindowSwitcherPrevious => 26,
        System::WorkspaceOverview => 27,
    }
}

/// Position of a value in the declaration order of `System`.
pub fn system_index_of(x: System) -> (r: u8)
    ensures
        r == system_index(x),
{
    match x {
        System::AppLibrary => 0,
        System::BrightnessDown => 1,
        System::BrightnessUp => 2,
        System::DisplayToggle => 3,
        System::HomeFolder => 4,
        System::InputSourceSwitch => 5,
        System::KeyboardBrightnessDown => 6,
        System::KeyboardBrightnessUp => 7,
        System::Launcher => 8,
        System::LockScreen => 9,
        System::LogOut => 10,
        System::Mute => 11,
        System::MuteMic => 12,
        System::PlayPause => 13,
        System::PlayNext => 14,
        System::PlayPrev => 15,
        System::PowerOff => 16,
        System::ScreenReader => 17,
        System::Screenshot => 18,
        System::Suspend => 19,
        System::Terminal => 20,
        System::TouchpadToggle => 21,
        System::VolumeLower => 22,
        System::VolumeRaise => 23,
        System::WebBrowser => 24,
        System::WindowSwitcher => 25,
        System::WindowSwitcherPrevious => 26,
        System::WorkspaceOverview => 27,
    }
}

/// A compositor action, in declaration order (which is the order of the
/// cheatsheet's rows within a section).
#[derive(Debug, Clone, PartialEq, Eq)]
pub enum Action {
    /// Close the active window
    Close,
    /// Show a debug overlay, if the compositor has one
    Debug,
    /// Disable a default binding
    Disable,
    /// Move focus in the given direction
    Focus(FocusDirection),
    /// Switch to the last workspace
    LastWorkspace,
    /// Maximize the active window
    Maximize,
    /// Make the active window fullscreen
    Fullscreen,
    /// Minimize the active window
    Minimize,
    /// Move the active workspace to the next output
    MigrateWorkspaceToNextOutput,
    /// Move the active workspace to the output in the given direction
    MigrateWorkspaceToOutput(Direction),
    /// Move the active workspace to the previous output
    MigrateWorkspaceToPreviousOutput,
    /// Move the active window in the given direction
    Move(Direction),
    /// Move the active window to the last workspace
    MoveToLastWorkspace,
    /// Move the active window to the next output
    MoveToNextOutput,
    /// Move the active window to the next workspace
    MoveToNextWorkspace,
    /// Move the active window to the output in the given direction
    MoveToOutput(Direction),
    /// Move the active window to the previous output
    MoveToPreviousOutput,
    /// Move the active window to the previous workspace
    MoveToPreviousWorkspace,
    /// Move the active window to the given workspace
    MoveToWorkspace(u8),
    /// Focus the next output
    NextOutput,
    /// Switch to the next workspace
    NextWorkspace,
    /// Set the tiling orientation
    Orientation(Orientation),
    /// Focus the previous output
    PreviousOutput,
    /// Switch to the previous workspace
    PreviousWorkspace,
    /// Start resizing the active window
    Resizing(ResizeDirection),
    /// Send the active window to the last workspace, keeping focus
    SendToLastWorkspace,
    /// Send the active window to the next output, keeping focus
    SendToNextOutput,
    /// Send the active window to the next workspace, keeping focus
    SendToNextWorkspace,
    /// Send the active window to the output in the given direction, keeping focus
    SendToOutput(Direction),
    /// Send the active window to the previous output, keeping focus
    SendToPreviousOutput,
    /// Send the active window to the previous workspace, keeping focus
    SendToPreviousWorkspace,
    /// Send the active window to the given workspace, keeping focus
    SendToWorkspace(u8),
    /// Swap two tiled windows
    SwapWindow,
    /// Focus the output in the given direction
    SwitchOutput(Direction),
    /// Run a system action
    System(System),
    /// Quit the compositor
    Terminate,
    /// Toggle the tiling orientation
    ToggleOrientation,
    /// Toggle stacking of the active window
    ToggleStacking,
    /// Toggle whether the active window stays on every workspace
    ToggleSticky,
    /// Toggle tiling of the workspace
    ToggleTiling,
    /// Toggle floating of the active window
    ToggleWindowFloating,
    /// Switch to the given workspace
    Workspace(u8),
    /// Zoom in
    ZoomIn,
    /// Zoom out
    ZoomOut,
    /// Run a shell command
    Spawn(String),
}

/// The mathematical value of an [`Action`]: the command of `Spawn` is its
/// sequence of characters.
pub enum ActionView {
    Close,
    Debug,
    Disable,
    Focus(FocusDirection),
    LastWorkspace,
    Maximize,
    Fullscreen,
    Minimize,
    MigrateWorkspaceToNextOutput,
    MigrateWorkspaceToOutput(Direction),
    MigrateWorkspaceToPreviousOutput,
    Move(Direction),
    MoveToLastWorkspace,
    MoveToNextOutput,
    MoveToNextWorkspace,
    MoveToOutput(Direction),
    MoveToPreviousOutput,
    MoveToPreviousWorkspace,
    MoveToWorkspace(u8),
    NextOutput,
    NextWorkspace,
    Orientation(Orientation),
    PreviousOutput,
    PreviousWorkspace,
    Resizing(ResizeDirection),
    SendToLastWorkspace,
    SendToNextOutput,
    SendToNextWorkspace,
    SendToOutput(Direction),
    SendToPreviousOutput,
    SendToPreviousWorkspace,
    SendToWorkspace(u8),
    SwapWindow,
    SwitchOutput(Direction),
    System(System),
    Terminate,
    ToggleOrientation,
    ToggleStacking,
    ToggleSticky,
    ToggleTiling,
    ToggleWindowFloating,
    Workspace(u8),
    ZoomIn,
    ZoomOut,
    Spawn(Seq<char>),
}

impl View for Action {
    type V = ActionView;

    open spec fn view(&self) -> ActionView {
        match self {
            Action::Close => ActionView::Close,
            Action::Debug => ActionView::Debug,
            Action::Disable => ActionView::Disable,
            Action::Focus(x) => ActionView::Focus(*x),
            Action::LastWorkspace => ActionView::LastWorkspace,
            Action::Maximize => ActionView::Maximize,
            Action::Fullscreen => ActionView::Fullscreen,
            Action::Minimize => ActionView::Minimize,
            Action::MigrateWorkspaceToNextOutput => ActionView::MigrateWorkspaceToNextOutput,
            Action::MigrateWorkspaceToOutput(x) => ActionView::MigrateWorkspaceToOutput(*x),
            Action::MigrateWorkspaceToPreviousOutput => ActionView::MigrateWorkspaceToPreviousOutput,
            Action::Move(x) => ActionView::Move(*x),
            Action::MoveToLastWorkspace => ActionView::MoveToLastWorkspace,
            Action::MoveToNextOutput => ActionView::MoveToNextOutput,
            Action::MoveToNextWorkspace => ActionView::MoveToNextWorkspace,
            Action::MoveToOutput(x) => ActionView::MoveToOutput(*x),
            Action::MoveToPreviousOutput => ActionView::MoveToPreviousOutput,
            Action::MoveToPreviousWorkspace => ActionView::MoveToPreviousWorkspace,
            Action::MoveToWorkspace(x) => ActionView::MoveToWorkspace(*x),
            Action::NextOutput => ActionView::NextOutput,
            Action::NextWorkspace => ActionView::NextWorkspace,
            Action::Orientation(x) => ActionView::Orientation(*x),
            Action::PreviousOutput => ActionView::PreviousOutput,
            Action::PreviousWorkspace => ActionView::PreviousWorkspace,
            Action::Resizing(x) => ActionView::Resizing(*x),
            Action::SendToLastWorkspace => ActionView::SendToLastWorkspace,
            Action::SendToNextOutput => ActionView::SendToNextOutput,
            Action::SendToNextWorkspace => ActionView::SendToNextWorkspace,
            Action::SendToOutput(x) => ActionView::SendToOutput(*x),
            Action::SendToPreviousOutput => ActionView::SendToPreviousOutput,
            Action::SendToPreviousWorkspace => ActionView::SendToPreviousWorkspace,
            Action::SendToWorkspace(x) => ActionView::SendToWorkspace(*x),
            Action::SwapWindow => ActionView::SwapWindow,
            Action::SwitchOutput(x) => ActionView::SwitchOutput(*x),
            Action::System(x) => ActionView::System(*x),
            Action::Terminate => ActionView::Terminate,
            Action::ToggleOrientation => ActionView::ToggleOrientation,
            Action::ToggleStacking => ActionView::ToggleStacking,
            Action::ToggleSticky => ActionView::ToggleSticky,
            Action::ToggleTiling => ActionView::ToggleTiling,
            Action::ToggleWindowFloating => ActionView::ToggleWindowFloating,
            Action::Workspace(x) => ActionView::Workspace(*x),
            Action::ZoomIn => ActionView::ZoomIn,
            Action::ZoomOut => ActionView::ZoomOut,
            Action::Spawn(x) => ActionView::Spawn(x@),
        }
    }
}

/// Position of the action's variant in declaration order.
pub open spec fn action_variant(a: ActionView) -> int {
    match a {
        ActionView::Close => 0,
        ActionView::Debug => 1,
        ActionView::Disable => 2,
        ActionView::Focus(..) => 3,
        ActionView::LastWorkspace => 4,
        ActionView::Maximize => 5,
        ActionView::Fullscreen => 6,
        ActionView::Minimize => 7,
        ActionView::MigrateWorkspaceToNextOutput => 8,
        ActionView::MigrateWorkspaceToOutput(..) => 9,
        ActionView::MigrateWorkspaceToPreviousOutput => 10,
        ActionView::Move(..) => 11,
        ActionView::MoveToLastWorkspace => 12,
        ActionView::MoveToNextOutput => 13,
        ActionView::MoveToNextWorkspace => 14,
        ActionView::MoveToOutput(..) => 15,
        ActionView::MoveToPreviousOutput => 16,
        ActionView::MoveToPreviousWorkspace => 17,
        ActionView::MoveToWorkspace(..) => 18,
        ActionView::NextOutput => 19,
        ActionView::NextWorkspace => 20,
        ActionView::Orientation(..) => 21,
        ActionView::PreviousOutput => 22,
        ActionView::PreviousWorkspace => 23,
        ActionView::Resizing(..) => 24,
        ActionView::SendToLastWorkspace => 25,
        ActionView::SendToNextOutput => 26,
        ActionView::SendToNextWorkspace => 27,
        ActionView::SendToOutput(..) => 28,
        ActionView::SendToPreviousOutput => 29,
        ActionView::SendToPreviousWorkspace => 30,
        ActionView::SendToWorkspace(..) => 31,
        ActionView::SwapWindow => 32,
        ActionView::SwitchOutput(..) => 33,
        ActionView::System(..) => 34,
        ActionView::Terminate => 35,
        ActionView::ToggleOrientation => 36,
        ActionView::ToggleStacking => 37,
        ActionView::ToggleSticky => 38,
        ActionView::ToggleTiling => 39,
        ActionView::ToggleWindowFloating => 40,
        ActionView::Workspace(..) => 41,
        ActionView::ZoomIn => 42,
        ActionView::ZoomOut => 43,
        ActionView::Spawn(..) => 44,
    }
}

/// Order of the action's payload among payloads of the same variant (0 when
/// it has none, or for `Spawn`).
pub open spec fn action_payload(a: ActionView) -> int {
    match a {
        ActionView::Focus(d) => focus_direction_index(d),
        ActionView::MigrateWorkspaceToOutput(d) => direction_index(d),
        ActionView::Move(d) => direction_index(d),
        ActionView::MoveToOutput(d) => direction_index(d),
        ActionView::MoveToWorkspace(n) => n as int,
        ActionView::Orientation(d) => orientation_index(d),
        ActionView::Resizing(d) => resize_direction_index(d),
        ActionView::SendToOutput(d) => direction_index(d),
        ActionView::SendToWorkspace(n) => n as int,
        ActionView::SwitchOutput(d) => direction_index(d),
        ActionView::System(d) => system_index(d),
        ActionView::Workspace(n) => n as int,
        _ => 0,
    }
}

/// The command of a `Spawn` action; empty for every other action.
pub open spec fn action_text(a: ActionView) -> Seq<char> {
    match a {
        ActionView::Spawn(c) => c,
        _ => seq![],
    }
}

/// Strict lexicographic order of texts by character code, the order of `String`.
pub open spec fn text_before(s: Seq<char>, t: Seq<char>) -> bool
    decreases s.len(),
{
    if s.len() == 0 {
        t.len() > 0
    } else if t.len() == 0 {
        false
    } else if (s[0] as int) < (t[0] as int) {
        true
    } else if s[0] == t[0] {
        text_before(s.drop_first(), t.drop_first())
    } else {
        false
    }
}

/// Strict order of actions: by variant in declaration order, then by payload,
/// then by command text.
pub open spec fn action_before(a: ActionView, b: ActionView) -> bool {
    ||| action_variant(a) < action_variant(b)
    ||| action_variant(a) == action_variant(b) && action_payload(a) < action_payload(b)
    ||| action_variant(a) == action_variant(b) && action_payload(a) == action_payload(b)
        && text_before(action_text(a), action_text(b))
}

/// Variant position and payload order of an action.
pub fn action_key(a: &Action) -> (r: (u8, u8))
    ensures
        r.0 == action_variant(a@),
        r.1 == action_payload(a@),
{
    match a {
        Action::Close => (0, 0),
        Action::Debug => (1, 0),
        Action::Disable => (2, 0),
        Action::Focus(d) => (3, focus_direction_index_of(*d)),
        Action::LastWorkspace => (4, 0),
        Action::Maximize => (5, 0),
        Action::Fullscreen => (6, 0),
        Action::Minimize => (7, 0),
        Action::MigrateWorkspaceToNextOutput => (8, 0),
        Action::MigrateWorkspaceToOutput(d) => (9, direction_index_of(*d)),
        Action::MigrateWorkspaceToPreviousOutput => (10, 0),
        Action::Move(d) => (11, direction_index_of(*d)),
        Action::MoveToLastWorkspace => (12, 0),
        Action::MoveToNextOutput => (13, 0),
        Action::MoveToNextWorkspace => (14, 0),
        Action::MoveToOutput(d) => (15, direction_index_of(*d)),
        Action::MoveToPreviousOutput => (16, 0),
        Action::MoveToPreviousWorkspace => (17, 0),
        Action::MoveToWorkspace(n) => (18, *n),
        Action::NextOutput => (19, 0),
        Action::NextWorkspace => (20, 0),
        Action::Orientation(d) => (21, orientation_index_of(*d)),
        Action::PreviousOutput => (22, 0),
        Action::PreviousWorkspace => (23, 0),
        Action::Resizing(d) => (24, resize_direction_index_of(*d)),
        Action::SendToLastWorkspace => (25, 0),
        Action::SendToNextOutput => (26, 0),
        Action::SendToNextWorkspace => (27, 0),
        Action::SendToOutput(d) => (28, direction_index_of(*d)),
        Action::SendToPreviousOutput => (29, 0),
        Action::SendToPreviousWorkspace => (30, 0),
        Action::SendToWorkspace(n) => (31, *n),
        Action::SwapWindow => (32, 0),
        Action::SwitchOutput(d) => (33, direction_index_of(*d)),
        Action::System(d) => (34, system_index_of(*d)),
        Action::Terminate => (35, 0),
        Action::ToggleOrientation => (36, 0),
        Action::ToggleStacking => (37, 0),
        Action::ToggleSticky => (38, 0),
        Action::ToggleTiling => (39, 0),
        Action::ToggleWindowFloating => (40, 0),
        Action::Workspace(n) => (41, *n),
        Action::ZoomIn => (42, 0),
        Action::ZoomOut => (43, 0),
        Action::Spawn(..) => (44, 0),
    }
}

/// No text comes before itself.
pub proof fn lemma_text_before_irreflexive(s: Seq<char>)
    ensures
        !text_before(s, s),
    decreases s.len(),
{
    if s.len() > 0 {
        lemma_text_before_irreflexive(s.drop_first());
    }
}

/// Of two texts, at most one comes before the other.
pub proof fn lemma_text_before_asymmetric(s: Seq<char>, t: Seq<char>)
    ensures
        !(text_before(s, t) && text_before(t, s)),
    decreases s.len(),
{
    if s.len() > 0 && t.len() > 0 && s[0] == t[0] {
        lemma_text_before_asymmetric(s.drop_first(), t.drop_first());
    }
}

/// The order of texts is transitive.
pub proof fn lemma_text_before_transitive(s: Seq<char>, t: Seq<char>, u: Seq<char>)
    requires
        text_before(s, t),
        text_before(t, u),
    ensures
        text_before(s, u),
    decreases s.len(),
{
    if s.len() > 0 && t.len() > 0 && u.len() > 0 && s[0] == t[0] && t[0] == u[0] {
        lemma_text_before_transitive(s.drop_first(), t.drop_first(), u.drop_first());
    }
}

/// Of two different texts, one comes before the other.
pub proof fn lemma_text_before_total(s: Seq<char>, t: Seq<char>)
    requires
        s != t,
    ensures
        text_before(s, t) || text_before(t, s),
    decreases s.len(),
{
    if s.len() > 0 && t.len() > 0 && s[0] == t[0] {
        if s.drop_first() == t.drop_first() {
            assert(s =~= seq![s[0]] + s.drop_first());
            assert(t =~= seq![t[0]] + t.drop_first());
        }
        lemma_text_before_total(s.drop_first(), t.drop_first());
    } else if s.len() > 0 && t.len() > 0 {
        assert((s[0] as int) != (t[0] as int));
    } else if s.len() == 0 && t.len() == 0 {
        assert(s =~= t);
    }
}

/// Variant, payload and command text together identify an action.
pub proof fn lemma_action_key_injective(a: ActionView, b: ActionView)
    requires
        action_variant(a) == action_variant(b),
        action_payload(a) == action_payload(b),
        action_text(a) == action_text(b),
    ensures
        a == b,
{
}

/// The order of actions is a strict total order.
pub proof fn lemma_action_order(a: ActionView, b: ActionView, c: ActionView)
    ensures
        !action_before(a, a),
        !(action_before(a, b) && action_before(b, a)),
        action_before(a, b) && action_before(b, c) ==> action_before(a, c),
        a != b ==> action_before(a, b) || action_before(b, a),
{
    lemma_text_before_irreflexive(action_text(a));
    lemma_text_before_asymmetric(action_text(a), action_text(b));
    if action_before(a, b) && action_before(b, c) && action_variant(a) == action_variant(c)
        && action_payload(a) == action_payload(c) {
        lemma_text_before_transitive(action_text(a), action_text(b), action_text(c));
    }
    if a != b && action_variant(a) == action_variant(b) && action_payload(a) == action_payload(b) {
        if action_text(a) == action_text(b) {
            lemma_action_key_injective(a, b);
        }
        lemma_text_before_total(action_text(a), action_text(b));
    }
}

proof fn lemma_text_before_step(s: Seq<char>, t: Seq<char>, i: int)
    requires
        0 <= i < s.len(),
        i < t.len(),
        s[i] == t[i],
    ensures
        text_before(s.skip(i), t.skip(i)) == text_before(s.skip(i + 1), t.skip(i + 1)),
{
    assert(s.skip(i).drop_first() =~= s.skip(i + 1));
    assert(t.skip(i).drop_first() =~= t.skip(i + 1));
}

/// Whether the text `s` comes before the text `t`.
pub fn chars_before(s: &Vec<char>, t: &Vec<char>) -> (r: bool)
    ensures
        r == text_before(s@, t@),
{
    let mut i: usize = 0;
    assert(s@.skip(0) =~= s@);
    assert(t@.skip(0) =~= t@);
    while i < s.len() && i < t.len()
        invariant
            i <= s@.len(),
            i <= t@.len(),
            text_before(s@, t@) == text_before(s@.skip(i as int), t@.skip(i as int)),
        decreases s@.len() - i,
    {
        if s[i] < t[i] {
            return true;
        }
        if s[i] != t[i] {
            return false;
        }
        proof {
            lemma_text_before_step(s@, t@, i as int);
        }
        i = i + 1;
    }
    i == s.len() && i < t.len()
}

/// Whether two texts are equal.
fn same_text(s: &String, t: &String) -> (r: bool)
    ensures
        r == (s@ == t@),
{
    *s == *t
}

/// Whether action `a` comes before action `b` in the cheatsheet's order.
pub fn action_before_exec(a: &Action, b: &Action) -> (r: bool)
    ensures
        r == action_before(a@, b@),
{
    let (va, pa) = action_key(a);
    let (vb, pb) = action_key(b);
    if va != vb {
        return va < vb;
    }
    if pa != pb {
        return pa < pb;
    }
    match (a, b) {
        (Action::Spawn(x), Action::Spawn(y)) => {
            let xs = chars_of(x.as_str());
            let ys = chars_of(y.as_str());
            chars_before(&xs, &ys)
        },
        _ => {
            proof {
                lemma_text_before_irreflexive(seq![]);
            }
            false
        },
    }
}

/// A copy of an action.
pub fn duplicate_action(a: &Action) -> (r: Action)
    ensures
        r@ == a@,
{
    match a {
        Action::Close => Action::Close,
        Action::Debug => Action::Debug,
        Action::Disable => Action::Disable,
        Action::Focus(x) => Action::Focus(*x),
        Action::LastWorkspace => Action::LastWorkspace,
        Action::Maximize => Action::Maximize,
        Action::Fullscreen => Action::Fullscreen,
        Action::Minimize => Action::Minimize,
        Action::MigrateWorkspaceToNextOutput => Action::MigrateWorkspaceToNextOutput,
        Action::MigrateWorkspaceToOutput(x) => Action::MigrateWorkspaceToOutput(*x),
        Action::MigrateWorkspaceToPreviousOutput => Action::MigrateWorkspaceToPreviousOutput,
        Action::Move(x) => Action::Move(*x),
        Action::MoveToLastWorkspace => Action::MoveToLastWorkspace,
        Action::MoveToNextOutput => Action::MoveToNextOutput,
        Action::MoveToNextWorkspace => Action::MoveToNextWorkspace,
        Action::MoveToOutput(x) => Action::MoveToOutput(*x),
        Action::MoveToPreviousOutput => Action::MoveToPreviousOutput,
        Action::MoveToPreviousWorkspace => Action::MoveToPreviousWorkspace,
        Action::MoveToWorkspace(x) => Action::MoveToWorkspace(*x),
        Action::NextOutput => Action::NextOutput,
        Action::NextWorkspace => Action::NextWorkspace,
        Action::Orientation(x) => Action::Orientation(*x),
        Action::PreviousOutput => Action::PreviousOutput,
        Action::PreviousWorkspace => Action::PreviousWorkspace,
        Action::Resizing(x) => Action::Resizing(*x),
        Action::SendToLastWorkspace => Action::SendToLastWorkspace,
        Action::SendToNextOutput => Action::SendToNextOutput,
        Action::SendToNextWorkspace => Action::SendToNextWorkspace,
        Action::SendToOutput(x) => Action::SendToOutput(*x),
        Action::SendToPreviousOutput => Action::SendToPreviousOutput,
        Action::SendToPreviousWorkspace => Action::SendToPreviousWorkspace,
        Action::SendToWorkspace(x) => Action::SendToWorkspace(*x),
        Action::SwapWindow => Action::SwapWindow,
        Action::SwitchOutput(x) => Action::SwitchOutput(*x),
        Action::System(x) => Action::System(*x),
        Action::Terminate => Action::Terminate,
        Action::ToggleOrientation => Action::ToggleOrientation,
        Action::ToggleStacking => Action::ToggleStacking,
        Action::ToggleSticky => Action::ToggleSticky,
        Action::ToggleTiling => Action::ToggleTiling,
        Action::ToggleWindowFloating => Action::ToggleWindowFloating,
        Action::Workspace(x) => Action::Workspace(*x),
        Action::ZoomIn => Action::ZoomIn,
        Action::ZoomOut => Action::ZoomOut,
        Action::Spawn(x) => Action::Spawn(x.clone()),
    }
}

/// Whether two actions are the same action.
pub fn same_action(a: &Action, b: &Action) -> (r: bool)
    ensures
        r == (a@ == b@),
{
    let (va, pa) = action_key(a);
    let (vb, pb) = action_key(b);
    if va != vb || pa != pb {
        return false;
    }
    proof {
        if action_text(a@) == action_text(b@) {
            lemma_action_key_injective(a@, b@);
        }
    }
    match (a, b) {
        (Action::Spawn(x), Action::Spawn(y)) => same_text(x, y),
        _ => true,
    }
}

} // verus!
