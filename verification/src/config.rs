//! Persistent configuration of the cheatsheet app itself, and the text form
//! of key combinations typed by the user.

use vstd::prelude::*;
use crate::ids::SHORTCUT_DESCRIPTION;
use crate::shortcuts::binding::{Binding, BindingView, Modifiers, opt_text};
use crate::text::{chars_of, eq_lit, is_ws, is_whitespace, string_of};

verus! {

/// Default key combination: Super+Shift+/ (i.e. Super+?).
pub const DEFAULT_BINDING: &'static str = "Super+Shift+slash";

/// The xkb keysym of `slash`.
pub const KEYSYM_SLASH: u32 = 0x2f;

/// The configuration of the cheatsheet app.
#[derive(Debug, Clone)]
pub struct CheatsheetConfig {
    /// The key combination the user wants to open the cheatsheet with.
    pub binding: Binding,
    /// The binding that was last written into the compositor's custom shortcuts.
    /// Used to remove the previous entry when the user changes the combination.
    pub registered: Option<Binding>,
    /// Keep the process alive after hiding the overlay (faster re-open).
    pub resident: bool,
    /// Register the default binding automatically on first launch.
    pub auto_register: bool,
}

/// The default binding: Super+Shift+slash, with the description the
/// compositor shows for it.
pub open spec fn default_binding_view() -> BindingView {
    BindingView {
        modifiers: Modifiers { ctrl: false, alt: false, shift: true, logo: true },
        keycode: None,
        key: Some(0x2f),
        description: Some("Keyboard shortcut cheatsheet"@),
    }
}

/// The default binding (`Super+Shift+slash`), with the description the
/// compositor shows for it.
pub fn default_binding() -> (b: Binding)
    ensures
        b@ == default_binding_view(),
{
    let mut binding = Binding::new(Modifiers::new().logo().shift(), Some(KEYSYM_SLASH));
    binding.description = Some(String::from_str(SHORTCUT_DESCRIPTION));
    proof {
        reveal_strlit("Keyboard shortcut cheatsheet");
    }
    binding
}

impl Default for CheatsheetConfig {
    /// The default binding, not registered, not resident, registered
    /// automatically on first launch.
    fn default() -> (c: CheatsheetConfig)
        ensures
            c.binding@ == default_binding_view(),
            c.registered.is_none(),
            !c.resident,
            c.auto_register,
            startup_of(c) == Startup::RegisterDefault,
    {
        CheatsheetConfig {
            binding: default_binding(),
            registered: None,
            resident: false,
            auto_register: true,
        }
    }
}

/// What a launch does about the global shortcut.
#[derive(Debug, Clone, Copy, PartialEq, Eq)]
pub enum Startup {
    /// First run: register the configured combination, if it is free.
    RegisterDefault,
    /// Check that the registered entry is still ours and spawns this binary.
    Sync,
    /// Leave the compositor's shortcuts alone.
    Nothing,
}

/// What a launch does with the configuration `c`: register when automatic
/// registration is on and nothing is registered yet, check the entry when
/// something is registered, and nothing otherwise.
pub open spec fn startup_of(c: CheatsheetConfig) -> Startup {
    if c.auto_register && c.registered.is_none() {
        Startup::RegisterDefault
    } else if c.registered.is_some() {
        Startup::Sync
    } else {
        Startup::Nothing
    }
}

impl CheatsheetConfig {
    /// What a launch with this configuration does about the global shortcut.
    pub fn startup(&self) -> (s: Startup)
        ensures
            s == startup_of(*self),
    {
        if self.auto_register && self.registered.is_none() {
            Startup::RegisterDefault
        } else if self.registered.is_some() {
            Startup::Sync
        } else {
            Startup::Nothing
        }
    }

    /// Record that `binding` was written into the compositor's shortcuts:
    /// it becomes the chosen and the registered combination, and automatic
    /// registration is on again, so later launches keep it in place.
    pub fn mark_registered(&mut self, binding: &Binding)
        ensures
            final(self).binding@ == binding@,
            final(self).registered matches Some(b) && b@ == binding@,
            final(self).auto_register,
            final(self).resident == old(self).resident,
            startup_of(*final(self)) == Startup::Sync,
    {
        self.binding = binding.duplicate();
        self.registered = Some(binding.duplicate());
        self.auto_register = true;
    }

    /// Record that our entry was removed from the compositor's shortcuts.
    /// An explicit removal turns automatic registration off, so the next
    /// launch does not add the shortcut back.
    pub fn mark_unregistered(&mut self)
        ensures
            final(self).binding == old(self).binding,
            final(self).registered.is_none(),
            !final(self).auto_register,
            final(self).resident == old(self).resident,
            startup_of(*final(self)) == Startup::Nothing,
    {
        self.registered = None;
        self.auto_register = false;
    }
}

/// The pieces of `s` between `+` signs, empty pieces included.
pub open spec fn plus_pieces(s: Seq<char>) -> Seq<Seq<char>>
    decreases s.len(),
{
    if s.len() == 0 {
        seq![seq![]]
    } else {
        let w = plus_pieces(s.drop_last());
        if s.last() == '+' {
            w.push(seq![])
        } else {
            w.update(w.len() - 1, w.last().push(s.last()))
        }
    }
}

/// The text without leading whitespace.
pub open spec fn trim_start(t: Seq<char>) -> Seq<char>
    decreases t.len(),
{
    if t.len() > 0 && is_ws(t[0]) {
        trim_start(t.drop_first())
    } else {
        t
    }
}

/// The text without trailing whitespace.
pub open spec fn trim_end(t: Seq<char>) -> Seq<char>
    decreases t.len(),
{
    if t.len() > 0 && is_ws(t.last()) {
        trim_end(t.drop_last())
    } else {
        t
    }
}

/// The text without surrounding whitespace.
pub open spec fn trimmed(t: Seq<char>) -> Seq<char> {
    trim_end(trim_start(t))
}

/// The text with ASCII capitals made small.
pub open spec fn ascii_lower(t: Seq<char>) -> Seq<char> {
    t.map_values(|c: char| if 'A' <= c && c <= 'Z' { ((c as int) + 32) as char } else { c })
}

/// Modifiers and key name read from the pieces of a combination, or why they
/// cannot be read: a piece names a modifier (`Super`/`Logo`, `Ctrl`/`Control`,
/// `Alt`, `Shift`, in any case) or the key; at most one piece names the key,
/// and no piece is blank.
pub open spec fn read_pieces(pieces: Seq<Seq<char>>) -> Result<(Modifiers, Option<Seq<char>>), Seq<char>>
    decreases pieces.len(),
{
    if pieces.len() == 0 {
        Ok((Modifiers { ctrl: false, alt: false, shift: false, logo: false }, None))
    } else {
        match read_pieces(pieces.drop_last()) {
            Err(e) => Err(e),
            Ok((m, k)) => {
                let t = trimmed(pieces.last());
                let l = ascii_lower(t);
                if t.len() == 0 {
                    Err("empty part in key combination"@)
                } else if l == "super"@ || l == "logo"@ {
                    Ok((Modifiers { logo: true, ..m }, k))
                } else if l == "ctrl"@ || l == "control"@ {
                    Ok((Modifiers { ctrl: true, ..m }, k))
                } else if l == "alt"@ {
                    Ok((Modifiers { alt: true, ..m }, k))
                } else if l == "shift"@ {
                    Ok((Modifiers { shift: true, ..m }, k))
                } else if k.is_some() {
                    Err("more than one key in key combination"@)
                } else {
                    Ok((m, Some(t)))
                }
            },
        }
    }
}

/// The modifiers and key name written in a combination such as
/// `Super+Shift+slash`, or why it cannot be read.
pub open spec fn combination_of(text: Seq<char>) -> Result<(Modifiers, Option<Seq<char>>), Seq<char>> {
    read_pieces(plus_pieces(text))
}

/// The characters of `t` without leading and trailing whitespace.
pub fn trim_chars(t: &Vec<char>) -> (r: Vec<char>)
    ensures
        r@ == trimmed(t@),
{
    let mut a: usize = 0;
    assert(t@.skip(0) =~= t@);
    while a < t.len() && is_whitespace(t[a])
        invariant
            a <= t@.len(),
            trim_start(t@) == trim_start(t@.skip(a as int)),
        decreases t@.len() - a,
    {
        assert(t@.skip(a as int).drop_first() =~= t@.skip(a + 1));
        a = a + 1;
    }
    let ghost s = t@.skip(a as int);
    assert(trim_start(t@) == s);
    let mut b: usize = t.len();
    assert(s.take((b - a) as int) =~= s);
    while b > a && is_whitespace(t[b - 1])
        invariant
            a <= b <= t@.len(),
            s == t@.skip(a as int),
            trim_end(s) == trim_end(s.take((b - a) as int)),
        decreases b,
    {
        assert(s.take((b - a) as int).drop_last() =~= s.take((b - 1 - a) as int));
        assert(s.take((b - a) as int).last() == t@[b - 1]);
        b = b - 1;
    }
    let mut r: Vec<char> = Vec::new();
    let mut i = a;
    while i < b
        invariant
            a <= i <= b <= t@.len(),
            r@ == t@.subrange(a as int, i as int),
        decreases b - i,
    {
        r.push(t[i]);
        assert(t@.subrange(a as int, i as int).push(t@[i as int]) =~= t@.subrange(a as int, i + 1));
        i = i + 1;
    }
    assert(r@ =~= s.take((b - a) as int));
    r
}

fn lower_ascii(t: &Vec<char>) -> (r: Vec<char>)
    ensures
        r@ == ascii_lower(t@),
{
    let mut r: Vec<char> = Vec::new();
    for i in 0..t.len()
        invariant
            r@ == ascii_lower(t@.take(i as int)),
    {
        let c = t[i];
        let d = if 'A' <= c && c <= 'Z' {
            (((c as u32) + 32) as u8) as char
        } else {
            c
        };
        r.push(d);
        assert(r@ =~= ascii_lower(t@.take(i + 1)));
    }
    assert(t@.take(t@.len() as int) =~= t@);
    r
}

proof fn lemma_plus_pieces_nonempty(s: Seq<char>)
    ensures
        plus_pieces(s).len() >= 1,
    decreases s.len(),
{
    if s.len() > 0 {
        lemma_plus_pieces_nonempty(s.drop_last());
    }
}

/// The views of character vectors.
pub open spec fn piece_views(v: Seq<Vec<char>>) -> Seq<Seq<char>> {
    v.map_values(|w: Vec<char>| w@)
}

fn split_plus(s: &Vec<char>) -> (out: Vec<Vec<char>>)
    ensures
        piece_views(out@) == plus_pieces(s@),
{
    let mut out: Vec<Vec<char>> = Vec::new();
    out.push(Vec::new());
    assert(s@.take(0) =~= Seq::<char>::empty());
    assert(piece_views(out@) =~= plus_pieces(s@.take(0)));
    for i in 0..s.len()
        invariant
            piece_views(out@) == plus_pieces(s@.take(i as int)),
            out@.len() >= 1,
    {
        let c = s[i];
        let ghost before = s@.take(i as int);
        let ghost after = s@.take(i + 1);
        assert(after.drop_last() =~= before);
        assert(after.last() == c);
        proof {
            lemma_plus_pieces_nonempty(before);
        }
        if c == '+' {
            out.push(Vec::new());
            assert(piece_views(out@) =~= plus_pieces(after));
        } else {
            let mut w = out.pop().unwrap();
            w.push(c);
            out.push(w);
            assert(piece_views(out@) =~= plus_pieces(after));
        }
    }
    assert(s@.take(s@.len() as int) =~= s@);
    out
}

/// Once a prefix of the pieces cannot be read, neither can the whole.
proof fn lemma_read_error_stays(p: Seq<Seq<char>>, k: int)
    requires
        0 <= k <= p.len(),
        read_pieces(p.take(k)) is Err,
    ensures
        read_pieces(p) == read_pieces(p.take(k)),
    decreases p.len() - k,
{
    if k < p.len() {
        assert(p.take(k + 1).drop_last() =~= p.take(k));
        lemma_read_error_stays(p, k + 1);
    } else {
        assert(p.take(k) =~= p);
    }
}

/// The view of a read combination.
pub open spec fn combination_view(r: Result<(Modifiers, Option<String>), String>) -> Result<(Modifiers, Option<Seq<char>>), Seq<char>> {
    match r {
        Ok((m, k)) => Ok((m, opt_text(k))),
        Err(e) => Err(e@),
    }
}

/// Read the modifiers and key name of a combination such as
/// `Super+Shift+slash`.
pub fn read_combination(text: &str) -> (r: Result<(Modifiers, Option<String>), String>)
    ensures
        combination_view(r) == combination_of(text@),
{
    let v = chars_of(text);
    let pieces = split_plus(&v);
    let ghost pv = piece_views(pieces@);
    let mut m = Modifiers::new();
    let mut key: Option<String> = None;
    for i in 0..pieces.len()
        invariant
            pv == piece_views(pieces@),
            pv == plus_pieces(text@),
            read_pieces(pv.take(i as int)) == Ok::<(Modifiers, Option<Seq<char>>), Seq<char>>((m, opt_text(key))),
    {
        let ghost prefix = pv.take(i as int);
        assert(pv.take(i + 1).drop_last() =~= prefix);
        assert(pv.take(i + 1).last() == pieces@[i as int]@);
        let t = trim_chars(&pieces[i]);
        let l = lower_ascii(&t);
        if t.len() == 0 {
            proof {
                lemma_read_error_stays(pv, i + 1);
            }
            return Err(String::from_str("empty part in key combination"));
        } else if eq_lit(&l, "super") || eq_lit(&l, "logo") {
            m = m.logo();
        } else if eq_lit(&l, "ctrl") || eq_lit(&l, "control") {
            m = m.ctrl();
        } else if eq_lit(&l, "alt") {
            m = m.alt();
        } else if eq_lit(&l, "shift") {
            m = m.shift();
        } else if key.is_some() {
            proof {
                lemma_read_error_stays(pv, i + 1);
            }
            return Err(String::from_str("more than one key in key combination"));
        } else {
            key = Some(string_of(&t));
        }
    }
    assert(pv.take(pieces@.len() as int) =~= pv);
    Ok((m, key))
}

/// A binding of the given modifiers and keysym, without keycode or
/// description.
pub fn binding_from_parts(modifiers: Modifiers, keysym: Option<u32>) -> (b: Binding)
    ensures
        b@ == (BindingView { modifiers, keycode: None, key: keysym, description: None }),
{
    Binding::new(modifiers, keysym)
}

/// The message for a key name that names no keysym.
pub open spec fn unknown_key_text(name: Seq<char>) -> Seq<char> {
    "unknown key "@ + name
}

/// The binding of a typed combination once its key name was looked up:
/// `key` holds the name and the keysym libxkbcommon gave for it (0 when the
/// name names none). An unknown key name is an error; otherwise the binding
/// of the modifiers and keysym.
pub fn binding_from_lookup(modifiers: Modifiers, key: Option<(String, u32)>) -> (r: Result<Binding, String>)
    ensures
        match key {
            Some((name, 0)) => r matches Err(e) && e@ == unknown_key_text(name@),
            Some((_, k)) => r matches Ok(b) && b@ == (BindingView { modifiers, keycode: None, key: Some(k), description: None }),
            None => r matches Ok(b) && b@ == (BindingView { modifiers, keycode: None, key: None, description: None }),
        },
{
    match key {
        Some((name, k)) => {
            if k == 0 {
                let mut e = String::from_str("unknown key ");
                e.append(name.as_str());
                proof {
                    reveal_strlit("unknown key ");
                }
                Err(e)
            } else {
                Ok(binding_from_parts(modifiers, Some(k)))
            }
        },
        None => Ok(binding_from_parts(modifiers, None)),
    }
}

} // verus!
