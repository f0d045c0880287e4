use cosmic_ext_cheatsheet::shortcuts::action::Action;
use cosmic_ext_cheatsheet::shortcuts::binding::{key_names_from, table_keysyms, Shortcuts};
use cosmic_ext_cheatsheet::shortcuts::binding::{Binding, KeyNames, Modifiers};
use cosmic_ext_cheatsheet::shortcuts::keys::{chips, display, key_label, label_for_name, sort_key};

fn names() -> KeyNames {
    let mut n = KeyNames::new();
    n.insert(0x2f, "slash".to_string());
    n.insert(0xff51, "Left".to_string());
    n.insert(0x74, "t".to_string());
    n.insert(0x1008ff12, "XF86AudioMute".to_string());
    n
}

#[test]
fn label_for_name_uses_dedicated_labels() {
    assert_eq!(label_for_name("Left"), "←");
    assert_eq!(label_for_name("Return"), "⏎");
    assert_eq!(label_for_name("slash"), "/");
    assert_eq!(label_for_name("Page_Down"), "PgDn");
}

#[test]
fn label_for_name_capitalises_single_letters() {
    assert_eq!(label_for_name("a"), "A");
    assert_eq!(label_for_name("7"), "7");
}

#[test]
fn label_for_name_strips_prefixes() {
    assert_eq!(label_for_name("XF86Explorer"), "Explorer");
    assert_eq!(label_for_name("KP_5"), "Num 5");
    assert_eq!(label_for_name("F5"), "F5");
}

#[test]
fn key_label_of_unnamed_keysym_is_empty() {
    assert_eq!(key_label(&names(), 0x1234), "");
    assert_eq!(key_label(&names(), 0x74), "T");
}

#[test]
fn chips_list_modifiers_then_key() {
    let b = Binding::new(Modifiers::new().logo().shift(), Some(0x2f));
    assert_eq!(chips(&b, &names()), vec!["Super".to_string(), "Shift".to_string(), "/".to_string()]);
    let all = Binding::new(Modifiers::new().shift().alt().ctrl().logo(), Some(0xff51));
    assert_eq!(
        chips(&all, &names()),
        vec!["Super".to_string(), "Ctrl".to_string(), "Alt".to_string(), "Shift".to_string(), "←".to_string()]
    );
}

#[test]
fn display_joins_chips() {
    let b = Binding::new(Modifiers::new().logo().shift(), Some(0x2f));
    assert_eq!(display(&b, &names()), "Super + Shift + /");
    let super_only = Binding::new(Modifiers::new().logo(), None);
    assert_eq!(display(&super_only, &names()), "Super");
    let nothing = Binding::new(Modifiers::new(), None);
    assert_eq!(display(&nothing, &names()), "");
}

#[test]
fn sort_key_puts_arrows_and_short_combinations_first() {
    let left = Binding::new(Modifiers::new().logo(), Some(0xff51));
    let slash = Binding::new(Modifiers::new().logo().shift(), Some(0x2f));
    assert_eq!(sort_key(&left, &names()), (0, 1, "Left".to_string()));
    assert_eq!(sort_key(&slash, &names()), (1, 2, "slash".to_string()));
    assert!(sort_key(&left, &names()) < sort_key(&slash, &names()));
    let none = Binding::new(Modifiers::new().logo(), None);
    assert_eq!(sort_key(&none, &names()), (1, 1, String::new()));
}

#[test]
fn key_names_follow_the_table() {
    let mut t = Shortcuts::new();
    t.insert(Binding::new(Modifiers::new().logo(), Some(0x74)), Action::Maximize);
    t.insert(Binding::new(Modifiers::new().logo(), None), Action::Minimize);
    t.insert(Binding::new(Modifiers::new().ctrl(), Some(0x2f)), Action::Close);
    let keys = table_keysyms(&t);
    assert_eq!(keys, vec![0x74, 0x2f]);
    let names = key_names_from(&keys, &vec!["t".to_string(), "slash".to_string()]);
    assert_eq!(key_label(&names, 0x2f), "/");
    assert_eq!(key_label(&names, 0x74), "T");
    assert_eq!(key_label(&names, 0x61), "");
    let twice = key_names_from(&vec![1, 1], &vec!["a".to_string(), "b".to_string()]);
    assert_eq!(key_label(&twice, 1), "B");
}
