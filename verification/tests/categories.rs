use cosmic_ext_cheatsheet::shortcuts::action::{Action, Direction, FocusDirection, Orientation, System};
use cosmic_ext_cheatsheet::shortcuts::binding::{Binding, Modifiers};
use cosmic_ext_cheatsheet::shortcuts::categories::{category_of, CategoryKind};
use cosmic_ext_cheatsheet::shortcuts::localize::{action_label, category_title, system_label};

#[test]
fn actions_fall_into_their_sections() {
    assert_eq!(category_of(&Action::Focus(FocusDirection::Left)), CategoryKind::Navigation);
    assert_eq!(category_of(&Action::Workspace(2)), CategoryKind::Navigation);
    assert_eq!(category_of(&Action::Maximize), CategoryKind::ManageWindows);
    assert_eq!(category_of(&Action::Move(Direction::Up)), CategoryKind::MoveWindows);
    assert_eq!(category_of(&Action::Orientation(Orientation::Vertical)), CategoryKind::WindowTiling);
    assert_eq!(category_of(&Action::System(System::Terminal)), CategoryKind::System);
    assert_eq!(category_of(&Action::System(System::ScreenReader)), CategoryKind::Accessibility);
    assert_eq!(category_of(&Action::ZoomIn), CategoryKind::Accessibility);
    assert_eq!(category_of(&Action::Spawn("firefox".to_string())), CategoryKind::Custom);
    assert_eq!(category_of(&Action::Terminate), CategoryKind::Other);
}

#[test]
fn sections_are_ranked_in_display_order() {
    assert_eq!(CategoryKind::Navigation.rank(), 0);
    assert_eq!(CategoryKind::System.rank(), 4);
    assert_eq!(CategoryKind::Other.rank(), 7);
}

#[test]
fn section_titles() {
    assert_eq!(category_title(CategoryKind::Navigation), "Navigation");
    assert_eq!(category_title(CategoryKind::WindowTiling), "Window tiling");
    assert_eq!(category_title(CategoryKind::Custom), "Custom");
}

#[test]
fn action_labels() {
    assert_eq!(action_label(&Action::Workspace(3), None), "Switch to workspace 3");
    assert_eq!(action_label(&Action::MoveToWorkspace(10), None), "Move window to workspace 10");
    assert_eq!(action_label(&Action::Focus(FocusDirection::Left), None), "Move focus left");
    assert_eq!(action_label(&Action::SwitchOutput(Direction::Right), None), "Focus right display");
    assert_eq!(action_label(&Action::System(System::Terminal), None), "Open a terminal");
    assert_eq!(system_label(&System::LockScreen), "Lock the screen");
}

#[test]
fn spawn_label_prefers_a_description() {
    let spawn = Action::Spawn("firefox --private".to_string());
    let mut b = Binding::new(Modifiers::new().logo(), Some(0x62));
    assert_eq!(action_label(&spawn, Some(&b)), "firefox --private");
    b.description = Some("Private browsing".to_string());
    assert_eq!(action_label(&spawn, Some(&b)), "Private browsing");
    b.description = Some("   ".to_string());
    assert_eq!(action_label(&spawn, Some(&b)), "firefox --private");
    assert_eq!(action_label(&spawn, None), "firefox --private");
}
