//! Renders bindings as human-readable key chips.

use vstd::prelude::*;
use super::binding::{Binding, BindingView, KeyNames, Modifiers, name_for};
use crate::text::{
    chars_of, eq_lit, push_char, skip_chars, starts_with_lit, string_of, to_uppercase,
    uppercase_of,
};

verus! {

/// Label for a keysym name that has a dedicated one.
pub open spec fn table_label(n: Seq<char>) -> Option<Seq<char>> {
    if n == "Left"@ {
        Some("←"@)
    } else if n == "Right"@ {
        Some("→"@)
    } else if n == "Up"@ {
        Some("↑"@)
    } else if n == "Down"@ {
        Some("↓"@)
    } else if n == "Return"@ || n == "KP_Enter"@ {
        Some("⏎"@)
    } else if n == "Escape"@ {
        Some("Esc"@)
    } else if n == "space"@ {
        Some("Space"@)
    } else if n == "Tab"@ {
        Some("Tab"@)
    } else if n == "ISO_Left_Tab"@ {
        Some("Tab"@)
    } else if n == "BackSpace"@ {
        Some("⌫"@)
    } else if n == "Delete"@ {
        Some("Del"@)
    } else if n == "Insert"@ {
        Some("Ins"@)
    } else if n == "Home"@ {
        Some("Home"@)
    } else if n == "End"@ {
        Some("End"@)
    } else if n == "Page_Up"@ || n == "Prior"@ {
        Some("PgUp"@)
    } else if n == "Page_Down"@ || n == "Next"@ {
        Some("PgDn"@)
    } else if n == "Print"@ {
        Some("PrtSc"@)
    } else if n == "slash"@ {
        Some("/"@)
    } else if n == "backslash"@ {
        Some("\\"@)
    } else if n == "question"@ {
        Some("?"@)
    } else if n == "equal"@ {
        Some("="@)
    } else if n == "plus"@ {
        Some("+"@)
    } else if n == "minus"@ {
        Some("-"@)
    } else if n == "underscore"@ {
        Some("_"@)
    } else if n == "period"@ {
        Some("."@)
    } else if n == "comma"@ {
        Some(","@)
    } else if n == "semicolon"@ {
        Some(";"@)
    } else if n == "colon"@ {
        Some(":"@)
    } else if n == "apostrophe"@ {
        Some("'"@)
    } else if n == "quotedbl"@ {
        Some("\""@)
    } else if n == "grave"@ {
        Some("`"@)
    } else if n == "asciitilde"@ {
        Some("~"@)
    } else if n == "bracketleft"@ {
        Some("["@)
    } else if n == "bracketright"@ {
        Some("]"@)
    } else if n == "braceleft"@ {
        Some("{"@)
    } else if n == "braceright"@ {
        Some("}"@)
    } else if n == "less"@ {
        Some("<"@)
    } else if n == "greater"@ {
        Some(">"@)
    } else if n == "bar"@ {
        Some("|"@)
    } else if n == "asterisk"@ {
        Some("*"@)
    } else if n == "ampersand"@ {
        Some("&"@)
    } else if n == "percent"@ {
        Some("%"@)
    } else if n == "dollar"@ {
        Some("$"@)
    } else if n == "numbersign"@ {
        Some("#"@)
    } else if n == "at"@ {
        Some("@"@)
    } else if n == "exclam"@ {
        Some("!"@)
    } else if n == "asciicircum"@ {
        Some("^"@)
    } else if n == "parenleft"@ {
        Some("("@)
    } else if n == "parenright"@ {
        Some(")"@)
    } else if n == "XF86AudioRaiseVolume"@ {
        Some("Vol +"@)
    } else if n == "XF86AudioLowerVolume"@ {
        Some("Vol −"@)
    } else if n == "XF86AudioMute"@ {
        Some("Mute"@)
    } else if n == "XF86AudioMicMute"@ {
        Some("Mic mute"@)
    } else if n == "XF86MonBrightnessUp"@ {
        Some("Brightness +"@)
    } else if n == "XF86MonBrightnessDown"@ {
        Some("Brightness −"@)
    } else if n == "XF86KbdBrightnessUp"@ {
        Some("Kbd light +"@)
    } else if n == "XF86KbdBrightnessDown"@ {
        Some("Kbd light −"@)
    } else if n == "XF86AudioPlay"@ {
        Some("Play"@)
    } else if n == "XF86AudioPause"@ {
        Some("Pause"@)
    } else if n == "XF86AudioStop"@ {
        Some("Stop"@)
    } else if n == "XF86AudioPrev"@ {
        Some("Prev track"@)
    } else if n == "XF86AudioNext"@ {
        Some("Next track"@)
    } else if n == "XF86PowerOff"@ {
        Some("Power"@)
    } else if n == "XF86Sleep"@ {
        Some("Sleep"@)
    } else if n == "XF86TouchpadToggle"@ {
        Some("Touchpad"@)
    } else if n == "XF86Display"@ {
        Some("Display"@)
    } else if n == "XF86LaunchA"@ {
        Some("Launch A"@)
    } else if n == "XF86Search"@ {
        Some("Search"@)
    } else if n == "XF86Explorer"@ {
        Some("Explorer"@)
    } else if n == "XF86WWW"@ {
        Some("WWW"@)
    } else if n == "XF86HomePage"@ {
        Some("Home page"@)
    } else if n == "XF86Calculator"@ {
        Some("Calc"@)
    } else if n == "XF86Mail"@ {
        Some("Mail"@)
    } else {
        None
    }
}

/// The upper-case form of a one-character key name: ASCII letters are mapped
/// to their capitals, other ASCII characters are kept, and anything else is
/// upper-cased as `str::to_uppercase` does it.
pub open spec fn upper_name(n: Seq<char>) -> Seq<char> {
    if 'a' <= n[0] && n[0] <= 'z' {
        seq![((n[0] as int) - 32) as char]
    } else if n[0] <= '\x7f' {
        n
    } else {
        uppercase_of(n)
    }
}

/// Human-readable label for a keysym name: a dedicated label when there is
/// one, single characters upper-cased, `XF86` and `KP_` prefixes turned into
/// plain and `Num ` labels, and the name itself otherwise.
pub open spec fn key_label_text(n: Seq<char>) -> Seq<char> {
    match table_label(n) {
        Some(l) => l,
        None => if n.len() == 1 {
            upper_name(n)
        } else if n.len() >= 4 && n.take(4) == "XF86"@ {
            n.skip(4)
        } else if n.len() >= 3 && n.take(3) == "KP_"@ {
            "Num "@ + n.skip(3)
        } else {
            n
        },
    }
}

fn table_label_of(name: &Vec<char>) -> (r: Option<String>)
    ensures
        match r {
            Some(s) => table_label(name@) == Some(s@),
            None => table_label(name@).is_none(),
        },
{
    if eq_lit(name, "Left") {
        Some(String::from_str("←"))
    } else if eq_lit(name, "Right") {
        Some(String::from_str("→"))
    } else if eq_lit(name, "Up") {
        Some(String::from_str("↑"))
    } else if eq_lit(name, "Down") {
        Some(String::from_str("↓"))
    } else if eq_lit(name, "Return") || eq_lit(name, "KP_Enter") {
        Some(String::from_str("⏎"))
    } else if eq_lit(name, "Escape") {
        Some(String::from_str("Esc"))
    } else if eq_lit(name, "space") {
        Some(String::from_str("Space"))
    } else if eq_lit(name, "Tab") {
        Some(String::from_str("Tab"))
    } else if eq_lit(name, "ISO_Left_Tab") {
        Some(String::from_str("Tab"))
    } else if eq_lit(name, "BackSpace") {
        Some(String::from_str("⌫"))
    } else if eq_lit(name, "Delete") {
        Some(String::from_str("Del"))
    } else if eq_lit(name, "Insert") {
        Some(String::from_str("Ins"))
    } else if eq_lit(name, "Home") {
        Some(String::from_str("Home"))
    } else if eq_lit(name, "End") {
        Some(String::from_str("End"))
    } else if eq_lit(name, "Page_Up") || eq_lit(name, "Prior") {
        Some(String::from_str("PgUp"))
    } else if eq_lit(name, "Page_Down") || eq_lit(name, "Next") {
        Some(String::from_str("PgDn"))
    } else if eq_lit(name, "Print") {
        Some(String::from_str("PrtSc"))
    } else if eq_lit(name, "slash") {
        Some(String::from_str("/"))
    } else if eq_lit(name, "backslash") {
        Some(String::from_str("\\"))
    } else if eq_lit(name, "question") {
        Some(String::from_str("?"))
    } else if eq_lit(name, "equal") {
        Some(String::from_str("="))
    } else if eq_lit(name, "plus") {
        Some(String::from_str("+"))
    } else if eq_lit(name, "minus") {
        Some(String::from_str("-"))
    } else if eq_lit(name, "underscore") {
        Some(String::from_str("_"))
    } else if eq_lit(name, "period") {
        Some(String::from_str("."))
    } else if eq_lit(name, "comma") {
        Some(String::from_str(","))
    } else if eq_lit(name, "semicolon") {
        Some(String::from_str(";"))
    } else if eq_lit(name, "colon") {
        Some(String::from_str(":"))
    } else if eq_lit(name, "apostrophe") {
        Some(String::from_str("'"))
    } else if eq_lit(name, "quotedbl") {
        Some(String::from_str("\""))
    } else if eq_lit(name, "grave") {
        Some(String::from_str("`"))
    } else if eq_lit(name, "asciitilde") {
        Some(String::from_str("~"))
    } else if eq_lit(name, "bracketleft") {
        Some(String::from_str("["))
    } else if eq_lit(name, "bracketright") {
        Some(String::from_str("]"))
    } else if eq_lit(name, "braceleft") {
        Some(String::from_str("{"))
    } else if eq_lit(name, "braceright") {
        Some(String::from_str("}"))
    } else if eq_lit(name, "less") {
        Some(String::from_str("<"))
    } else if eq_lit(name, "greater") {
        Some(String::from_str(">"))
    } else if eq_lit(name, "bar") {
        Some(String::from_str("|"))
    } else if eq_lit(name, "asterisk") {
        Some(String::from_str("*"))
    } else if eq_lit(name, "ampersand") {
        Some(String::from_str("&"))
    } else if eq_lit(name, "percent") {
        Some(String::from_str("%"))
    } else if eq_lit(name, "dollar") {
        Some(String::from_str("$"))
    } else if eq_lit(name, "numbersign") {
        Some(String::from_str("#"))
    } else if eq_lit(name, "at") {
        Some(String::from_str("@"))
    } else if eq_lit(name, "exclam") {
        Some(String::from_str("!"))
    } else if eq_lit(name, "asciicircum") {
        Some(String::from_str("^"))
    } else if eq_lit(name, "parenleft") {
        Some(String::from_str("("))
    } else if eq_lit(name, "parenright") {
        Some(String::from_str(")"))
    } else if eq_lit(name, "XF86AudioRaiseVolume") {
        Some(String::from_str("Vol +"))
    } else if eq_lit(name, "XF86AudioLowerVolume") {
        Some(String::from_str("Vol −"))
    } else if eq_lit(name, "XF86AudioMute") {
        Some(String::from_str("Mute"))
    } else if eq_lit(name, "XF86AudioMicMute") {
        Some(String::from_str("Mic mute"))
    } else if eq_lit(name, "XF86MonBrightnessUp") {
        Some(String::from_str("Brightness +"))
    } else if eq_lit(name, "XF86MonBrightnessDown") {
        Some(String::from_str("Brightness −"))
    } else if eq_lit(name, "XF86KbdBrightnessUp") {
        Some(String::from_str("Kbd light +"))
    } else if eq_lit(name, "XF86KbdBrightnessDown") {
        Some(String::from_str("Kbd light −"))
    } else if eq_lit(name, "XF86AudioPlay") {
        Some(String::from_str("Play"))
    } else if eq_lit(name, "XF86AudioPause") {
        Some(String::from_str("Pause"))
    } else if eq_lit(name, "XF86AudioStop") {
        Some(String::from_str("Stop"))
    } else if eq_lit(name, "XF86AudioPrev") {
        Some(String::from_str("Prev track"))
    } else if eq_lit(name, "XF86AudioNext") {
        Some(String::from_str("Next track"))
    } else if eq_lit(name, "XF86PowerOff") {
        Some(String::from_str("Power"))
    } else if eq_lit(name, "XF86Sleep") {
        Some(String::from_str("Sleep"))
    } else if eq_lit(name, "XF86TouchpadToggle") {
        Some(String::from_str("Touchpad"))
    } else if eq_lit(name, "XF86Display") {
        Some(String::from_str("Display"))
    } else if eq_lit(name, "XF86LaunchA") {
        Some(String::from_str("Launch A"))
    } else if eq_lit(name, "XF86Search") {
        Some(String::from_str("Search"))
    } else if eq_lit(name, "XF86Explorer") {
        Some(String::from_str("Explorer"))
    } else if eq_lit(name, "XF86WWW") {
        Some(String::from_str("WWW"))
    } else if eq_lit(name, "XF86HomePage") {
        Some(String::from_str("Home page"))
    } else if eq_lit(name, "XF86Calculator") {
        Some(String::from_str("Calc"))
    } else if eq_lit(name, "XF86Mail") {
        Some(String::from_str("Mail"))
    } else {
        None
    }
}

/// Human-readable label for a keysym name.
pub fn label_for_name(name: &str) -> (s: String)
    ensures
        s@ == key_label_text(name@),
{
    let v = chars_of(name);
    if let Some(l) = table_label_of(&v) {
        return l;
    }
    if v.len() == 1 {
        let c = v[0];
        if 'a' <= c && c <= 'z' {
            let u = ((c as u32) - 32) as u8;
            let mut s = String::new();
            push_char(&mut s, u as char);
            assert(s@ =~= upper_name(name@));
            return s;
        } else if c <= '\x7f' {
            return String::from_str(name);
        } else {
            return to_uppercase(name);
        }
    }
    if starts_with_lit(&v, "XF86") {
        proof {
            reveal_strlit("XF86");
        }
        let rest = skip_chars(&v, 4);
        return string_of(&rest);
    }
    if starts_with_lit(&v, "KP_") {
        proof {
            reveal_strlit("KP_");
            reveal_strlit("Num ");
        }
        let rest = skip_chars(&v, 3);
        let mut s = String::from_str("Num ");
        let r = string_of(&rest);
        s.append(r.as_str());
        return s;
    }
    proof {
        reveal_strlit("XF86");
        reveal_strlit("KP_");
    }
    String::from_str(name)
}

/// Human-readable label for a keysym, given the names libxkbcommon gives the
/// keysyms in use.
pub fn key_label(names: &KeyNames, key: u32) -> (s: String)
    requires
        names.wf(),
    ensures
        s@ == key_label_text(name_for(names@, key)),
{
    let name = names.name(key);
    label_for_name(name.as_str())
}

/// The views of a vector of strings.
pub open spec fn texts(v: Seq<String>) -> Seq<Seq<char>> {
    v.map_values(|s: String| s@)
}

/// One chip when `held`, none otherwise.
pub open spec fn chip_if(held: bool, label: Seq<char>) -> Seq<Seq<char>> {
    if held {
        seq![label]
    } else {
        seq![]
    }
}

/// The name libxkbcommon gives the key of a binding; empty when it has none.
pub open spec fn key_name_of(b: BindingView, names: Seq<(u32, Seq<char>)>) -> Seq<char> {
    match b.key {
        Some(k) => name_for(names, k),
        None => seq![],
    }
}

/// The chips of a binding, modifiers first (Super, Ctrl, Alt, Shift), then
/// the label of its key when it has one.
pub open spec fn chip_texts(b: BindingView, names: Seq<(u32, Seq<char>)>) -> Seq<Seq<char>> {
    chip_if(b.modifiers.logo, "Super"@) + chip_if(b.modifiers.ctrl, "Ctrl"@) + chip_if(
        b.modifiers.alt,
        "Alt"@,
    ) + chip_if(b.modifiers.shift, "Shift"@) + match b.key {
        Some(k) => seq![key_label_text(name_for(names, k))],
        None => seq![],
    }
}

/// Chips for one binding, modifiers first: `["Super", "Shift", "/"]`.
pub fn chips(binding: &Binding, names: &KeyNames) -> (r: Vec<String>)
    requires
        names.wf(),
    ensures
        texts(r@) == chip_texts(binding@, names@),
{
    let mut r: Vec<String> = Vec::new();
    let m = binding.modifiers;
    if m.logo {
        r.push(String::from_str("Super"));
    }
    let ghost a = texts(r@);
    assert(a =~= chip_if(m.logo, "Super"@));
    if m.ctrl {
        r.push(String::from_str("Ctrl"));
    }
    let ghost b = texts(r@);
    assert(b =~= a + chip_if(m.ctrl, "Ctrl"@));
    if m.alt {
        r.push(String::from_str("Alt"));
    }
    let ghost c = texts(r@);
    assert(c =~= b + chip_if(m.alt, "Alt"@));
    if m.shift {
        r.push(String::from_str("Shift"));
    }
    let ghost d = texts(r@);
    assert(d =~= c + chip_if(m.shift, "Shift"@));
    if let Some(k) = binding.key {
        r.push(key_label(names, k));
        assert(texts(r@) =~= d + seq![key_label_text(name_for(names@, k))]);
    } else {
        assert(texts(r@) =~= d + Seq::<Seq<char>>::empty());
    }
    r
}

/// The pieces of `list` joined by `sep`.
pub open spec fn joined(list: Seq<Seq<char>>, sep: Seq<char>) -> Seq<char>
    decreases list.len(),
{
    if list.len() == 0 {
        seq![]
    } else if list.len() == 1 {
        list[0]
    } else {
        joined(list.drop_last(), sep) + sep + list.last()
    }
}

/// The whole binding as a single string, e.g. `Super + Shift + /`.
pub fn display(binding: &Binding, names: &KeyNames) -> (s: String)
    requires
        names.wf(),
    ensures
        s@ == joined(chip_texts(binding@, names@), " + "@),
{
    let list = chips(binding, names);
    let ghost l = texts(list@);
    let mut s = String::new();
    for i in 0..list.len()
        invariant
            l == texts(list@),
            s@ == joined(l.take(i as int), " + "@),
    {
        let ghost prefix = l.take(i as int);
        assert(l.take(i + 1).drop_last() =~= prefix);
        if i > 0 {
            s.append(" + ");
        }
        s.append(list[i].as_str());
        if i == 0 {
            assert(s@ =~= joined(l.take(1), " + "@));
        }
    }
    assert(l.take(list.len() as int) =~= l);
    s
}

/// Whether a keysym name is one of the four arrow keys.
pub open spec fn is_arrow_name(n: Seq<char>) -> bool {
    n == "Left"@ || n == "Right"@ || n == "Up"@ || n == "Down"@
}

/// Number of modifiers held.
pub open spec fn modifier_count(m: Modifiers) -> nat {
    (if m.logo { 1nat } else { 0nat }) + (if m.ctrl { 1nat } else { 0nat }) + (if m.alt { 1nat } else { 0nat }) + (if m.shift { 1nat } else { 0nat })
}

/// Sort key of a binding among the bindings of one action: arrow keys
/// first, then fewer modifiers, then the key name.
pub open spec fn sort_key_of(b: BindingView, names: Seq<(u32, Seq<char>)>) -> (int, int, Seq<char>) {
    let name = key_name_of(b, names);
    (if is_arrow_name(name) { 0 } else { 1 }, modifier_count(b.modifiers) as int, name)
}

/// Sort key so that, among several bindings for one action, arrow keys and
/// shorter combinations come first.
pub fn sort_key(binding: &Binding, names: &KeyNames) -> (r: (u8, usize, String))
    requires
        names.wf(),
    ensures
        r.0 == sort_key_of(binding@, names@).0,
        r.1 == sort_key_of(binding@, names@).1,
        r.2@ == sort_key_of(binding@, names@).2,
{
    let name = match binding.key {
        Some(k) => names.name(k),
        None => String::new(),
    };
    let v = chars_of(name.as_str());
    let arrow: u8 = if eq_lit(&v, "Left") || eq_lit(&v, "Right") || eq_lit(&v, "Up") || eq_lit(
        &v,
        "Down",
    ) {
        0
    } else {
        1
    };
    let m = binding.modifiers;
    let mut count: usize = 0;
    if m.logo {
        count = count + 1;
    }
    if m.ctrl {
        count = count + 1;
    }
    if m.alt {
        count = count + 1;
    }
    if m.shift {
        count = count + 1;
    }
    (arrow, count, name)
}

/// The arrow keys are shown as arrows pointing their way: `Left` as `←`,
/// `Right` as `→`, `Up` as `↑` and `Down` as `↓`, so the four get four
/// different labels.
pub proof fn law_arrow_labels()
    ensures
        key_label_text("Left"@) == "←"@,
        key_label_text("Right"@) == "→"@,
        key_label_text("Up"@) == "↑"@,
        key_label_text("Down"@) == "↓"@,
        "←"@ != "→"@ && "←"@ != "↑"@ && "←"@ != "↓"@ && "→"@ != "↑"@ && "→"@ != "↓"@ && "↑"@ != "↓"@,
{
    reveal_strlit("Left");
    reveal_strlit("Right");
    reveal_strlit("Up");
    reveal_strlit("Down");
    reveal_strlit("←");
    reveal_strlit("→");
    reveal_strlit("↑");
    reveal_strlit("↓");
    assert("Left"@.len() == 4 && "Right"@.len() == 5 && "Up"@.len() == 2 && "Down"@.len() == 4);
    assert("Down"@[0] != "Left"@[0]);
    assert("←"@[0] != "→"@[0] && "←"@[0] != "↑"@[0] && "←"@[0] != "↓"@[0]);
    assert("→"@[0] != "↑"@[0] && "→"@[0] != "↓"@[0] && "↑"@[0] != "↓"@[0]);
}

} // verus!
