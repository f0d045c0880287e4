//! Turns key presses into a compositor [`Binding`].

use vstd::prelude::*;
use crate::shortcuts::binding::{Binding, BindingView, Modifiers, binding_is_set, binding_is_super};

verus! {

/// Modifier flags of a key event, as the toolkit reports them.
#[derive(Debug, Clone, Copy, PartialEq, Eq, Structural)]
pub struct KeyboardModifiers {
    pub logo: bool,
    pub control: bool,
    pub alt: bool,
    pub shift: bool,
}

/// Named keys of a key event that matter here: the modifier and lock keys,
/// Escape, and every other named key.
#[derive(Debug, Clone, Copy, PartialEq, Eq, Structural)]
pub enum NamedKey {
    Super,
    Meta,
    Hyper,
    Alt,
    AltGraph,
    Control,
    Shift,
    CapsLock,
    NumLock,
    ScrollLock,
    Fn,
    FnLock,
    Symbol,
    SymbolLock,
    Escape,
    Other,
}

/// The key of a key event.
#[derive(Debug, Clone, PartialEq, Eq)]
pub enum Key {
    Named(NamedKey),
    Character(String),
    Unidentified,
}

/// Compositor modifiers for the toolkit's modifier flags.
pub open spec fn modifiers_of(m: KeyboardModifiers) -> Modifiers {
    Modifiers { ctrl: m.control, alt: m.alt, shift: m.shift, logo: m.logo }
}

/// Convert toolkit modifier flags into compositor modifiers.
pub fn modifiers(m: KeyboardModifiers) -> (out: Modifiers)
    ensures
        out == modifiers_of(m),
{
    let mut out = Modifiers::new();
    if m.logo {
        out = out.logo();
    }
    if m.control {
        out = out.ctrl();
    }
    if m.alt {
        out = out.alt();
    }
    if m.shift {
        out = out.shift();
    }
    out
}

/// Whether a key is itself a modifier or lock key.
pub open spec fn modifier_key(key: Key) -> bool {
    match key {
        Key::Named(n) => !(n is Escape) && !(n is Other),
        _ => false,
    }
}

/// Whether the key is itself a modifier (and therefore never the "main" key).
pub fn is_modifier_key(key: &Key) -> (r: bool)
    ensures
        r == modifier_key(*key),
{
    match key {
        Key::Named(NamedKey::Escape) | Key::Named(NamedKey::Other) => false,
        Key::Named(_) => true,
        _ => false,
    }
}

/// Build a binding from a key press whose key maps to `keysym` (none when the
/// key has no xkb keysym). Returns `None` for pure modifier presses or keys
/// without a keysym.
pub fn binding_from_key(key: &Key, keysym: Option<u32>, mods: KeyboardModifiers) -> (r: Option<Binding>)
    ensures
        match r {
            Some(b) => !modifier_key(*key) && keysym.is_some() && b@ == (BindingView {
                modifiers: modifiers_of(mods),
                keycode: None,
                key: keysym,
                description: None,
            }),
            None => modifier_key(*key) || keysym.is_none(),
        },
{
    if is_modifier_key(key) {
        return None;
    }
    match keysym {
        Some(k) => {
            let mut binding = Binding::new(modifiers(mods), Some(k));
            binding.keycode = None;
            Some(binding)
        },
        None => None,
    }
}

/// Why a binding cannot be used as a global shortcut, if it cannot.
pub open spec fn invalid_reason(b: BindingView) -> Option<Seq<char>> {
    if !binding_is_set(b) {
        Some("a modifier plus a key is required"@)
    } else if binding_is_super(b) {
        Some("Super alone is reserved for the launcher"@)
    } else {
        None
    }
}

/// Validate a binding the user chose. Returns a human-readable reason if it
/// cannot be used as a global shortcut.
pub fn validate(binding: &Binding) -> (r: Result<(), String>)
    ensures
        match r {
            Ok(()) => invalid_reason(binding@).is_none(),
            Err(why) => invalid_reason(binding@) == Some(why@),
        },
{
    if !binding.is_set() {
        return Err(String::from_str("a modifier plus a key is required"));
    }
    if binding.is_super() {
        return Err(String::from_str("Super alone is reserved for the launcher"));
    }
    Ok(())
}

} // verus!
