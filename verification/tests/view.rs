use cosmic_ext_cheatsheet::config::CheatsheetConfig;
use cosmic_ext_cheatsheet::shortcuts::action::{Action, System};
use cosmic_ext_cheatsheet::shortcuts::binding::{Binding, KeyNames, Modifiers, Shortcuts, SystemActions};
use cosmic_ext_cheatsheet::shortcuts::CheatsheetModel;
use cosmic_ext_cheatsheet::view::cheatsheet::{body, column_count, place_in_columns, search_id, Body, MAX_COLUMNS};
use cosmic_ext_cheatsheet::view::settings::{page, State, Status};

fn names() -> KeyNames {
    let mut n = KeyNames::new();
    n.insert(0x2f, "slash".to_string());
    n.insert(0x74, "t".to_string());
    n
}

#[test]
fn search_box_id() {
    assert_eq!(search_id(), "cheatsheet-search");
}

#[test]
fn body_tells_empty_from_no_match() {
    let empty = CheatsheetModel { categories: Vec::new() };
    assert_eq!(body(&empty.search("")), Body::Empty);
    assert_eq!(body(&empty.search("x")), Body::NoMatch);
    let mut t = Shortcuts::new();
    t.insert(Binding::new(Modifiers::new().logo(), Some(0x74)), Action::System(System::Terminal));
    let m = CheatsheetModel::from_shortcuts(&t, &SystemActions::new(), &names());
    assert_eq!(body(&m.search("")), Body::Categories);
    assert_eq!(body(&m.search("terminal")), Body::Categories);
    assert_eq!(body(&m.search("zzz")), Body::NoMatch);
    assert_eq!(Body::Empty.message(), Some("No shortcuts are configured"));
    assert_eq!(Body::NoMatch.message(), Some("No shortcut matches the search"));
    assert_eq!(Body::Categories.message(), None);
}

#[test]
fn column_count_is_clamped() {
    assert_eq!(column_count(0), 1);
    assert_eq!(column_count(3), 3);
    assert_eq!(column_count(9), MAX_COLUMNS);
}

#[test]
fn categories_go_to_the_lowest_column() {
    // Column heights after each category: [7,0,0], [7,3,0], [7,3,12], [7,8,12], [9,8,12].
    let cols = place_in_columns(&vec![5, 1, 10, 3, 0], 3);
    assert_eq!(cols, vec![0, 1, 2, 1, 0]);
    assert_eq!(place_in_columns(&vec![4, 4, 4], 1), vec![0, 0, 0]);
    assert_eq!(place_in_columns(&vec![], 4), Vec::<usize>::new());
}

#[test]
fn settings_page_when_not_registered() {
    let p = page(&State::new(), &CheatsheetConfig::default(), false, &names());
    assert_eq!(p.current, "Not registered");
    assert!(!p.recording);
    assert_eq!(p.recording_hint, None);
    assert!(!p.can_remove);
    assert_eq!(p.replace_prompt, None);
    assert_eq!(p.status, None);
    assert!(!p.resident);
}

#[test]
fn settings_page_while_recording_and_asking() {
    let mut s = State::new();
    s.recording = true;
    let config = CheatsheetConfig::default();
    let p = page(&s, &config, true, &names());
    assert_eq!(p.current, "Super + Shift + /");
    assert!(p.can_remove);
    assert_eq!(p.recording_hint.as_deref(), Some("…"));
    s.pending = Some(Binding::new(Modifiers::new().logo().alt(), None));
    let p = page(&s, &config, true, &names());
    assert_eq!(p.recording_hint.as_deref(), Some("Super + Alt"));
    s.pending = Some(Binding::new(Modifiers::new(), None));
    let p = page(&s, &config, true, &names());
    assert_eq!(p.recording_hint.as_deref(), Some("…"));
    s.replace = Some((Binding::new(Modifiers::new().logo(), Some(0x74)), "Open a terminal".to_string()));
    s.status = Some(Status::Error("boom".to_string()));
    let p = page(&s, &config, true, &names());
    assert_eq!(p.replace_prompt.as_deref(), Some("Super + T is already used by “Open a terminal”. Replace it?"));
    assert_eq!(p.status, Some(Status::Error("boom".to_string())));
}

#[test]
fn columns_stay_balanced() {
    let sizes = vec![9, 1, 1, 1, 1, 6, 2, 0, 3];
    let cols = place_in_columns(&sizes, 3);
    let mut heights = [0usize; 3];
    for (size, col) in sizes.iter().zip(cols.iter()) {
        heights[*col] += size + 2;
    }
    let tallest = sizes.iter().map(|s| s + 2).max().unwrap();
    let (lo, hi) = (*heights.iter().min().unwrap(), *heights.iter().max().unwrap());
    assert!(hi <= lo + tallest);
    assert_eq!(heights.iter().sum::<usize>(), sizes.iter().map(|s| s + 2).sum::<usize>());
}
