use cosmic_ext_cheatsheet::keycapture::{
    binding_from_key, is_modifier_key, modifiers, validate, Key, KeyboardModifiers, NamedKey,
};
use cosmic_ext_cheatsheet::shortcuts::binding::{Binding, Modifiers};

fn mods(logo: bool, control: bool, alt: bool, shift: bool) -> KeyboardModifiers {
    KeyboardModifiers { logo, control, alt, shift }
}

#[test]
fn modifiers_convert_flag_by_flag() {
    assert_eq!(modifiers(mods(true, false, false, true)), Modifiers::new().logo().shift());
    assert_eq!(modifiers(mods(false, true, true, false)), Modifiers::new().ctrl().alt());
    assert_eq!(modifiers(mods(false, false, false, false)), Modifiers::new());
}

#[test]
fn modifier_keys() {
    assert!(is_modifier_key(&Key::Named(NamedKey::Shift)));
    assert!(is_modifier_key(&Key::Named(NamedKey::Super)));
    assert!(is_modifier_key(&Key::Named(NamedKey::CapsLock)));
    assert!(!is_modifier_key(&Key::Named(NamedKey::Escape)));
    assert!(!is_modifier_key(&Key::Named(NamedKey::Other)));
    assert!(!is_modifier_key(&Key::Character("k".to_string())));
    assert!(!is_modifier_key(&Key::Unidentified));
}

#[test]
fn binding_from_key_needs_a_real_key() {
    let b = binding_from_key(&Key::Character("k".to_string()), Some(0x6b), mods(true, false, false, false)).unwrap();
    assert_eq!(b.modifiers, Modifiers::new().logo());
    assert_eq!(b.key, Some(0x6b));
    assert_eq!(b.keycode, None);
    assert!(binding_from_key(&Key::Named(NamedKey::Shift), Some(0xffe1), mods(false, false, false, true)).is_none());
    assert!(binding_from_key(&Key::Unidentified, None, mods(true, false, false, false)).is_none());
}

#[test]
fn validate_rejects_empty_and_bare_super() {
    assert_eq!(validate(&Binding::new(Modifiers::new(), None)), Err("a modifier plus a key is required".to_string()));
    assert_eq!(
        validate(&Binding::new(Modifiers::new().logo(), None)),
        Err("Super alone is reserved for the launcher".to_string())
    );
    assert_eq!(validate(&Binding::new(Modifiers::new().logo(), Some(0x6b))), Ok(()));
    assert_eq!(validate(&Binding::new(Modifiers::new(), Some(0x6b))), Ok(()));
}
