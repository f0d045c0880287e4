use cosmic_ext_cheatsheet::config::binding_from_lookup;
use cosmic_ext_cheatsheet::config::{
    binding_from_parts, default_binding, read_combination, CheatsheetConfig, Startup, DEFAULT_BINDING,
    KEYSYM_SLASH,
};
use cosmic_ext_cheatsheet::shortcuts::binding::{Binding, Modifiers};

#[test]
fn default_binding_is_super_shift_slash() {
    let b = default_binding();
    assert_eq!(b.modifiers, Modifiers::new().logo().shift());
    assert_eq!(b.key, Some(KEYSYM_SLASH));
    assert_eq!(b.keycode, None);
    assert_eq!(b.description.as_deref(), Some("Keyboard shortcut cheatsheet"));
    assert_eq!(DEFAULT_BINDING, "Super+Shift+slash");
}

#[test]
fn default_config() {
    let c = CheatsheetConfig::default();
    assert_eq!(c.binding.key, Some(0x2f));
    assert!(c.registered.is_none());
    assert!(!c.resident);
    assert!(c.auto_register);
    assert_eq!(c.startup(), Startup::RegisterDefault);
}

#[test]
fn read_combination_reads_modifiers_and_key() {
    assert_eq!(read_combination("Super+Shift+slash"), Ok((Modifiers::new().logo().shift(), Some("slash".to_string()))));
    assert_eq!(read_combination(" ctrl + ALT + k "), Ok((Modifiers::new().ctrl().alt(), Some("k".to_string()))));
    assert_eq!(read_combination("Logo+Control"), Ok((Modifiers::new().logo().ctrl(), None)));
}

#[test]
fn read_combination_errors() {
    assert_eq!(read_combination("Super++k"), Err("empty part in key combination".to_string()));
    assert_eq!(read_combination(""), Err("empty part in key combination".to_string()));
    assert_eq!(read_combination("Super+a+b"), Err("more than one key in key combination".to_string()));
}

#[test]
fn binding_from_parts_has_no_keycode() {
    let b: Binding = binding_from_parts(Modifiers::new().alt(), Some(0x6b));
    assert_eq!(b.modifiers, Modifiers::new().alt());
    assert_eq!(b.key, Some(0x6b));
    assert_eq!(b.keycode, None);
    assert_eq!(b.description, None);
}

#[test]
fn registering_and_unregistering_steer_the_next_launch() {
    let mut c = CheatsheetConfig::default();
    let chosen = Binding::new(Modifiers::new().logo().alt(), Some(0x6b));
    c.mark_registered(&chosen);
    assert_eq!(c.binding.key, Some(0x6b));
    assert_eq!(c.registered.as_ref().map(|b| b.key), Some(Some(0x6b)));
    assert!(c.auto_register);
    assert_eq!(c.startup(), Startup::Sync);
    c.mark_unregistered();
    assert!(c.registered.is_none());
    assert!(!c.auto_register);
    assert_eq!(c.binding.key, Some(0x6b));
    assert_eq!(c.startup(), Startup::Nothing);
}

#[test]
fn looked_up_key_becomes_a_binding() {
    let b = binding_from_lookup(Modifiers::new().logo(), Some(("k".to_string(), 0x6b))).unwrap();
    assert_eq!(b.key, Some(0x6b));
    assert_eq!(b.modifiers, Modifiers::new().logo());
    assert_eq!(
        binding_from_lookup(Modifiers::new().logo(), Some(("nokey".to_string(), 0))).err(),
        Some("unknown key nokey".to_string())
    );
    assert_eq!(binding_from_lookup(Modifiers::new().ctrl(), None).unwrap().key, None);
}
