use cosmic_ext_cheatsheet::shortcuts::action::{Action, FocusDirection, System};
use cosmic_ext_cheatsheet::shortcuts::binding::{Binding, KeyNames, Modifiers, Shortcuts, SystemActions};
use cosmic_ext_cheatsheet::shortcuts::categories::CategoryKind;
use cosmic_ext_cheatsheet::shortcuts::CheatsheetModel;

fn names() -> KeyNames {
    let mut n = KeyNames::new();
    n.insert(0x2f, "slash".to_string());
    n.insert(0xff51, "Left".to_string());
    n.insert(0x68, "h".to_string());
    n.insert(0x74, "t".to_string());
    n
}

fn table() -> Shortcuts {
    let mut t = Shortcuts::new();
    t.insert(Binding::new(Modifiers::new().logo(), Some(0x74)), Action::System(System::Terminal));
    t.insert(Binding::new(Modifiers::new().logo(), Some(0x68)), Action::Focus(FocusDirection::Left));
    t.insert(Binding::new(Modifiers::new().logo(), Some(0xff51)), Action::Focus(FocusDirection::Left));
    let mut own = Binding::new(Modifiers::new().logo().shift(), Some(0x2f));
    own.description = Some("Keyboard shortcut cheatsheet".to_string());
    t.insert(own, Action::Spawn("cosmic-ext-cheatsheet toggle".to_string()));
    t.insert(Binding::new(Modifiers::new().ctrl(), Some(0x74)), Action::Disable);
    t.insert(Binding::new(Modifiers::new().ctrl(), Some(0x68)), Action::Debug);
    let mut keycode_only = Binding::new(Modifiers::new().alt(), None);
    keycode_only.keycode = Some(42);
    t.insert(keycode_only, Action::Maximize);
    t
}

fn system() -> SystemActions {
    let mut s = SystemActions::new();
    s.insert(System::Terminal, "cosmic-term".to_string());
    s
}

#[test]
fn from_shortcuts_groups_into_sections() {
    let m = CheatsheetModel::from_shortcuts(&table(), &system(), &names());
    let kinds: Vec<CategoryKind> = m.categories.iter().map(|c| c.kind).collect();
    assert_eq!(kinds, vec![CategoryKind::Navigation, CategoryKind::System, CategoryKind::Custom]);
    let titles: Vec<&str> = m.categories.iter().map(|c| c.title.as_str()).collect();
    assert_eq!(titles, vec!["Navigation", "System", "Custom"]);
    assert_eq!(m.len(), 3);
    assert!(!m.is_empty());
}

#[test]
fn one_entry_per_action_with_sorted_bindings() {
    let m = CheatsheetModel::from_shortcuts(&table(), &system(), &names());
    let nav = &m.categories[0];
    assert_eq!(nav.entries.len(), 1);
    let e = &nav.entries[0];
    assert_eq!(e.action, Action::Focus(FocusDirection::Left));
    assert_eq!(e.label, "Move focus left");
    // The arrow binding comes first, whatever the table order.
    assert_eq!(
        e.bindings,
        vec![vec!["Super".to_string(), "←".to_string()], vec!["Super".to_string(), "H".to_string()]]
    );
    assert_eq!(e.command, None);
    assert_eq!(e.search_text, "move focus left navigation super ← super h");
}

#[test]
fn commands_of_system_and_custom_entries() {
    let m = CheatsheetModel::from_shortcuts(&table(), &system(), &names());
    let term = &m.categories[1].entries[0];
    assert_eq!(term.label, "Open a terminal");
    assert_eq!(term.command, Some("cosmic-term".to_string()));
    assert_eq!(term.search_text, "open a terminal system super t cosmic-term");
    let custom = &m.categories[2].entries[0];
    assert_eq!(custom.label, "Keyboard shortcut cheatsheet");
    assert_eq!(custom.command, Some("cosmic-ext-cheatsheet toggle".to_string()));
}

#[test]
fn system_action_without_command_has_none() {
    let m = CheatsheetModel::from_shortcuts(&table(), &SystemActions::new(), &names());
    assert_eq!(m.categories[1].entries[0].command, None);
    let mut blank = SystemActions::new();
    blank.insert(System::Terminal, "   ".to_string());
    let m = CheatsheetModel::from_shortcuts(&table(), &blank, &names());
    assert_eq!(m.categories[1].entries[0].command, None);
}

#[test]
fn empty_table_gives_empty_model() {
    let m = CheatsheetModel::from_shortcuts(&Shortcuts::new(), &system(), &names());
    assert!(m.categories.is_empty());
    assert_eq!(m.len(), 0);
    assert!(m.is_empty());
}

#[test]
fn empty_query_matches_everything_inactively() {
    let m = CheatsheetModel::from_shortcuts(&table(), &system(), &names());
    let s = m.search("   ");
    assert!(!s.active);
    assert_eq!(s.categories.len(), 3);
    assert!(!s.is_empty());
    assert!(s.enter_target().is_none());
}

#[test]
fn search_keeps_entries_with_every_term() {
    let m = CheatsheetModel::from_shortcuts(&table(), &system(), &names());
    let s = m.search("TERM");
    assert!(s.active);
    assert_eq!(s.categories.len(), 1);
    assert_eq!(s.categories[0].category.kind, CategoryKind::System);
    assert_eq!(s.enter_target().map(|e| e.label.clone()), Some("Open a terminal".to_string()));
    let both = m.search("super left");
    assert_eq!(both.categories.len(), 1);
    assert_eq!(both.categories[0].entries[0].label, "Move focus left");
    assert!(both.enter_target().is_none());
    let none = m.search("nothing-like-this");
    assert!(none.active);
    assert!(none.is_empty());
    assert!(none.enter_target().is_none());
}

#[test]
fn blank_query_lists_every_entry() {
    let m = CheatsheetModel::from_shortcuts(&table(), &system(), &names());
    let s = m.search(" \t ");
    assert!(!s.active);
    for (matched, category) in s.categories.iter().zip(m.categories.iter()) {
        assert_eq!(matched.category.kind, category.kind);
        assert_eq!(matched.entries.len(), category.entries.len());
    }
}

#[test]
fn search_ignores_case_and_term_order() {
    let m = CheatsheetModel::from_shortcuts(&table(), &system(), &names());
    let labels = |q: &str| -> Vec<String> {
        m.search(q).categories.iter().flat_map(|c| c.entries.iter().map(|e| e.label.clone())).collect()
    };
    assert_eq!(labels("TERMINAL"), labels("terminal"));
    assert_eq!(labels("SUPER LEFT"), labels("super left"));
    assert_eq!(labels("left super"), labels("super left"));
    assert_eq!(labels("super left super"), labels("super left"));
    // More terms never add entries.
    let wide = labels("super");
    for l in labels("super left") {
        assert!(wide.contains(&l));
    }
    assert_eq!(labels("super").len(), 3);
}
