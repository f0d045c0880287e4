//! Registers the cheatsheet's global shortcut with the COSMIC compositor: the
//! entry is a `Spawn` binding in the user's custom shortcuts
//! (`~/.config/cosmic/com.system76.CosmicSettings.Shortcuts/v1/custom`), which
//! the compositor watches and reloads immediately. This module decides what
//! that table becomes; reading and writing the file is left to the caller.

use vstd::prelude::*;
use crate::ids::{BIN_NAME, SHORTCUT_DESCRIPTION};
use crate::path::{components, file_name, is_named, segments, file_name_is, path_components, pieces, starts_with_components, starts_with_pieces};
use crate::shortcuts::action::{Action, ActionView, duplicate_action};
use crate::shortcuts::binding::{
    Binding, BindingView, Modifiers, Shortcuts, binding_key, has_key, inserted, keys_distinct,
    lemma_filter_other_than_absent, lemma_filter_other_than_remove, lemma_keys_distinct_prefix,
    lemma_row_of_index, opt_text, other_than, row_of,
};
use crate::seqs::{lemma_filter_all, lemma_filter_all_but, lemma_filter_elem, lemma_filter_none, lemma_filter_only};
use crate::config::trim_start;
use crate::sandbox::{host_launch_command, host_launch_text};
use crate::text::{chars_of, is_whitespace, is_ws, push_char, starts_with_lit, string_of};

verus! {

/// Whether a character may stand unquoted in a shell word: ASCII letters and
/// digits and `/._-+`.
pub open spec fn quote_safe(c: char) -> bool {
    ('a' <= c && c <= 'z') || ('A' <= c && c <= 'Z') || ('0' <= c && c <= '9') || c == '/'
        || c == '.' || c == '_' || c == '-' || c == '+'
}

/// The text with every `'` written as `'\''`.
pub open spec fn escape_quotes(s: Seq<char>) -> Seq<char>
    decreases s.len(),
{
    if s.len() == 0 {
        seq![]
    } else {
        escape_quotes(s.drop_last()) + if s.last() == '\'' {
            seq!['\'', '\\', '\'', '\'']
        } else {
            seq![s.last()]
        }
    }
}

/// A path as a shell word: unchanged when every character is safe, and
/// otherwise in single quotes with its own single quotes escaped.
pub open spec fn shell_quoted(s: Seq<char>) -> Seq<char> {
    if forall|i: int| 0 <= i < s.len() ==> quote_safe(#[trigger] s[i]) {
        s
    } else {
        seq!['\''] + escape_quotes(s) + seq!['\'']
    }
}

fn is_quote_safe(c: char) -> (r: bool)
    ensures
        r == quote_safe(c),
{
    ('a' <= c && c <= 'z') || ('A' <= c && c <= 'Z') || ('0' <= c && c <= '9') || c == '/'
        || c == '.' || c == '_' || c == '-' || c == '+'
}

/// A path (given as text) quoted for the shell.
pub fn shell_quote(path: &str) -> (q: String)
    ensures
        q@ == shell_quoted(path@),
{
    let v = chars_of(path);
    let mut safe = true;
    for i in 0..v.len()
        invariant
            v@ == path@,
            safe == (forall|j: int| 0 <= j < i ==> quote_safe(#[trigger] v@[j])),
    {
        if !is_quote_safe(v[i]) {
            safe = false;
        }
    }
    if safe {
        return String::from_str(path);
    }
    let mut q = String::new();
    push_char(&mut q, '\'');
    let ghost start = q@;
    for i in 0..v.len()
        invariant
            v@ == path@,
            start == seq!['\''],
            q@ == start + escape_quotes(v@.take(i as int)),
    {
        assert(v@.take(i + 1).drop_last() =~= v@.take(i as int));
        let c = v[i];
        if c == '\'' {
            push_char(&mut q, '\'');
            push_char(&mut q, '\\');
            push_char(&mut q, '\'');
            push_char(&mut q, '\'');
        } else {
            push_char(&mut q, c);
        }
        assert(q@ =~= start + escape_quotes(v@.take(i + 1)));
    }
    assert(v@.take(v@.len() as int) =~= v@);
    push_char(&mut q, '\'');
    assert(q@ =~= seq!['\''] + escape_quotes(path@) + seq!['\'']);
    q
}

/// The rest of the shell word that starts `s`, as `sh` reads it after quote
/// removal (`quoted` tells whether a single-quoted part is open): outside
/// quotes the word ends at whitespace, `'` opens a quoted part and `\`
/// takes the next character as it is; inside quotes every character is
/// taken as it is until the closing `'`.
pub open spec fn shell_word(s: Seq<char>, quoted: bool) -> Seq<char>
    decreases s.len(),
{
    if s.len() == 0 {
        seq![]
    } else if quoted {
        if s[0] == '\'' {
            shell_word(s.drop_first(), false)
        } else {
            seq![s[0]] + shell_word(s.drop_first(), true)
        }
    } else if is_ws(s[0]) {
        seq![]
    } else if s[0] == '\'' {
        shell_word(s.drop_first(), true)
    } else if s[0] == '\\' && s.len() >= 2 {
        seq![s[1]] + shell_word(s.subrange(2, s.len() as int), false)
    } else {
        seq![s[0]] + shell_word(s.drop_first(), false)
    }
}

/// The program of a shell command: its first word, quotes removed.
pub open spec fn command_program(c: Seq<char>) -> Seq<char> {
    shell_word(trim_start(c), false)
}

/// The program of a shell command: its first word, quotes removed.
pub fn program_of(command: &str) -> (p: String)
    ensures
        p@ == command_program(command@),
{
    let v = chars_of(command);
    let mut a: usize = 0;
    assert(v@.skip(0) =~= v@);
    while a < v.len() && is_whitespace(v[a])
        invariant
            a <= v@.len(),
            v@ == command@,
            trim_start(v@) == trim_start(v@.skip(a as int)),
        decreases v@.len() - a,
    {
        assert(v@.skip(a as int).drop_first() =~= v@.skip(a + 1));
        a = a + 1;
    }
    assert(trim_start(v@.skip(a as int)) == v@.skip(a as int));
    let ghost target = shell_word(v@.skip(a as int), false);
    let mut out: Vec<char> = Vec::new();
    let mut quoted = false;
    let mut i: usize = a;
    while i < v.len()
        invariant
            a <= i <= v@.len(),
            target == out@ + shell_word(v@.skip(i as int), quoted),
        decreases v@.len() - i,
    {
        let ghost rest = v@.skip(i as int);
        assert(rest[0] == v@[i as int]);
        assert(rest.drop_first() =~= v@.skip(i + 1));
        let c = v[i];
        if quoted {
            if c == '\'' {
                quoted = false;
            } else {
                out.push(c);
                assert(out@ + shell_word(v@.skip(i + 1), true) =~= out@.drop_last() + shell_word(rest, true));
            }
            i = i + 1;
        } else if is_whitespace(c) {
            assert(v@.skip(v@.len() as int) =~= Seq::<char>::empty());
            assert(out@ + Seq::<char>::empty() =~= out@);
            i = v.len();
        } else if c == '\'' {
            quoted = true;
            i = i + 1;
        } else if c == '\\' && i + 1 < v.len() {
            assert(rest[1] == v@[i + 1]);
            assert(rest.subrange(2, rest.len() as int) =~= v@.skip(i + 2));
            out.push(v[i + 1]);
            assert(out@ + shell_word(v@.skip(i + 2), false) =~= out@.drop_last() + shell_word(rest, false));
            i = i + 2;
        } else {
            out.push(c);
            assert(out@ + shell_word(v@.skip(i + 1), false) =~= out@.drop_last() + shell_word(rest, false));
            i = i + 1;
        }
    }
    assert(v@.skip(i as int) =~= Seq::<char>::empty());
    assert(out@ + Seq::<char>::empty() =~= out@);
    string_of(&out)
}

/// The start of the command that launches the packaged app through
/// `flatpak run`.
pub open spec fn flatpak_launch_prefix() -> Seq<char> {
    "flatpak run --command=cosmic-ext-cheatsheet "@
}

/// Whether an action spawns this binary, in any form: a `Spawn` whose
/// program (quotes removed) has the binary's file name, or that launches the
/// binary in its Flatpak with `flatpak run --command=cosmic-ext-cheatsheet`.
pub open spec fn own_action(a: ActionView) -> bool {
    a matches ActionView::Spawn(c) && (file_name(command_program(c)) == Some("cosmic-ext-cheatsheet"@)
        || (flatpak_launch_prefix().len() <= c.len() && c.take(flatpak_launch_prefix().len() as int)
        == flatpak_launch_prefix()))
}

/// Whether an action is one of ours (a spawn of this binary in any form).
pub fn is_own_action(action: &Action) -> (r: bool)
    ensures
        r == own_action(action@),
{
    match action {
        Action::Spawn(cmd) => {
            let program = program_of(cmd.as_str());
            let p = chars_of(program.as_str());
            let name = chars_of(BIN_NAME);
            proof {
                reveal_strlit("cosmic-ext-cheatsheet");
                reveal_strlit("flatpak run --command=cosmic-ext-cheatsheet ");
            }
            file_name_is(&p, &name) || starts_with_lit(&chars_of(cmd.as_str()), "flatpak run --command=cosmic-ext-cheatsheet ")
        },
        _ => false,
    }
}

/// The program the compositor should spawn to toggle the cheatsheet: the
/// bare binary name when the running binary is installed system-wide (or is
/// unknown), otherwise the quoted path of a sibling binary with the
/// installed name when one exists, or else of the running binary.
pub open spec fn spawn_program(exe: Option<Seq<char>>, sibling: Option<Seq<char>>) -> Seq<char> {
    match exe {
        Some(path) => if !starts_with_components(path, components("/usr/bin"@))
            && !starts_with_components(path, components("/usr/local/bin"@)) {
            match sibling {
                Some(s) => shell_quoted(s),
                None => shell_quoted(path),
            }
        } else {
            "cosmic-ext-cheatsheet"@
        },
        None => "cosmic-ext-cheatsheet"@,
    }
}

/// The view of an optional text.
pub open spec fn opt_str(s: Option<&str>) -> Option<Seq<char>> {
    match s {
        Some(t) => Some(t@),
        None => None,
    }
}

/// The command the compositor should spawn to toggle the cheatsheet: inside
/// a Flatpak sandbox the host must launch the app through `flatpak run`;
/// otherwise the program chosen by [`spawn_program`] with `toggle`.
pub open spec fn spawn_text(exe: Option<Seq<char>>, sibling: Option<Seq<char>>, sandboxed: bool) -> Seq<char> {
    if sandboxed {
        host_launch_text()
    } else {
        spawn_program(exe, sibling) + " toggle"@
    }
}

/// The command the compositor should spawn to toggle the cheatsheet, given
/// the path of the running binary (when known), the path of a sibling
/// binary with the installed name (when one exists), and whether the app
/// runs inside a Flatpak sandbox (what [`crate::sandbox::active`] answers).
pub fn spawn_command(exe: Option<&str>, sibling: Option<&str>, sandboxed: bool) -> (c: String)
    ensures
        c@ == spawn_text(opt_str(exe), opt_str(sibling), sandboxed),
        sandboxed ==> c@ == host_launch_text(),
{
    if sandboxed {
        return host_launch_command();
    }
    let mut program = match exe {
        Some(path) => {
            let p = chars_of(path);
            let usr_bin = path_components(&chars_of("/usr/bin"));
            let usr_local_bin = path_components(&chars_of("/usr/local/bin"));
            if !starts_with_pieces(&p, &usr_bin) && !starts_with_pieces(&p, &usr_local_bin) {
                match sibling {
                    Some(s) => shell_quote(s),
                    None => shell_quote(path),
                }
            } else {
                String::from_str(BIN_NAME)
            }
        },
        None => String::from_str(BIN_NAME),
    };
    program.append(" toggle");
    program
}

/// The program the panel applet launches: the binary next to the applet
/// when one exists there (`sibling`), otherwise the installed name.
pub fn overlay_program(sibling: Option<&str>) -> (p: String)
    ensures
        p@ == match sibling {
            Some(s) => s@,
            None => "cosmic-ext-cheatsheet"@,
        },
{
    proof {
        reveal_strlit("cosmic-ext-cheatsheet");
    }
    match sibling {
        Some(s) => String::from_str(s),
        None => String::from_str(BIN_NAME),
    }
}

/// What reading the user's custom shortcuts gave.
pub enum CustomRead {
    /// The table in the file.
    Table(Shortcuts),
    /// There is no file yet.
    Missing,
    /// The file holds an entry that cannot be decoded (for example one
    /// written by a newer compositor); the reason.
    Undecodable(String),
}

/// The custom shortcuts to change and write back: the table read, or the
/// empty table when there is no file yet. A file holding an entry that
/// cannot be decoded is not written at all, so that no entry of it is lost:
/// its reason comes back as the error.
pub fn writable_custom(read: CustomRead) -> (r: Result<Shortcuts, String>)
    requires
        read matches CustomRead::Table(t) ==> t.wf(),
    ensures
        match read {
            CustomRead::Table(t) => r matches Ok(u) && u.wf() && u@ == t@,
            CustomRead::Missing => r matches Ok(u) && u.wf() && u@ == Seq::<(BindingView, ActionView)>::empty(),
            CustomRead::Undecodable(why) => r matches Err(e) && e@ == why@,
        },
{
    match read {
        CustomRead::Table(t) => Ok(t),
        CustomRead::Missing => Ok(Shortcuts::new()),
        CustomRead::Undecodable(why) => Err(why),
    }
}

/// Whether a row spawns this binary.
pub open spec fn own_row(row: (BindingView, ActionView)) -> bool {
    own_action(row.1)
}

/// The rows that do not spawn this binary.
pub open spec fn not_own() -> spec_fn((BindingView, ActionView)) -> bool {
    |row: (BindingView, ActionView)| !own_action(row.1)
}

/// The action that would be shadowed or replaced by binding `b` in the merged
/// table: the action of its row, unless that is `Disable` or one of ours.
pub open spec fn conflict_of(merged: Seq<(BindingView, ActionView)>, b: BindingView) -> Option<ActionView> {
    match row_of(merged, binding_key(b)) {
        Some(row) => if row.1 is Disable || own_action(row.1) {
            None
        } else {
            Some(row.1)
        },
        None => None,
    }
}

/// The action that would be shadowed or replaced by binding `binding`, if
/// any, in the merged (defaults + custom) table, ignoring disabled entries
/// and our own registration.
pub fn conflict(merged: &Shortcuts, binding: &Binding) -> (r: Option<Action>)
    requires
        merged.wf(),
    ensures
        match r {
            Some(a) => conflict_of(merged@, binding@) == Some(a@),
            None => conflict_of(merged@, binding@).is_none(),
        },
{
    match merged.get(binding) {
        Some(a) => {
            if matches!(a, Action::Disable) || is_own_action(a) {
                None
            } else {
                Some(duplicate_action(a))
            }
        },
        None => None,
    }
}

/// Whether the custom table binds `b` to one of our actions.
pub open spec fn registered_in(custom: Seq<(BindingView, ActionView)>, b: BindingView) -> bool {
    row_of(custom, binding_key(b)) matches Some(row) && own_action(row.1)
}

/// Whether our binding is currently present in the custom shortcuts.
pub fn is_registered(custom: &Shortcuts, binding: &Binding) -> (r: bool)
    requires
        custom.wf(),
    ensures
        r == registered_in(custom@, binding@),
{
    match custom.get(binding) {
        Some(a) => is_own_action(a),
        None => false,
    }
}

/// The rows of the table that do not spawn this binary.
fn without_own(custom: &Shortcuts) -> (r: Shortcuts)
    requires
        custom.wf(),
    ensures
        r.wf(),
        r@ == custom@.filter(not_own()),
{
    let rows = custom.rows();
    let ghost rv = custom@;
    let mut r = Shortcuts::new();
    for i in 0..rows.len()
        invariant
            rv == custom@,
            keys_distinct(rv),
            rows@.map_values(|p: (Binding, Action)| crate::shortcuts::binding::row_view(p)) == rv,
            r.wf(),
            r@ == rv.take(i as int).filter(not_own()),
    {
        let ghost x = rv[i as int];
        assert(x == (rows@[i as int].0@, rows@[i as int].1@));
        proof {
            assert(rv.take(i + 1) =~= rv.take(i as int).push(x));
            rv.take(i as int).lemma_filter_push(x, not_own());
        }
        if !is_own_action(&rows[i].1) {
            proof {
                if has_key(r@, binding_key(x.0)) {
                    let q = choose|q: int| 0 <= q < r@.len() && binding_key(#[trigger] r@[q].0) == binding_key(x.0);
                    let y = r@[q];
                    assert(rv.take(i as int).filter(not_own()).contains(y));
                    rv.take(i as int).lemma_filter_contains_rev(not_own(), y);
                    let j = choose|j: int| 0 <= j < i && rv.take(i as int)[j] == y;
                    assert(rv[j] == y);
                    assert(false);
                }
            }
            let b = rows[i].0.duplicate();
            let a = duplicate_action(&rows[i].1);
            r.insert(b, a);
        }
    }
    assert(rv.take(rows@.len() as int) =~= rv);
    r
}

/// The binding stored for our entry: the chosen combination with no
/// keycode, and the default description when it has none.
pub open spec fn stored_binding(b: BindingView) -> BindingView {
    BindingView {
        keycode: None,
        description: if b.description.is_none() {
            Some("Keyboard shortcut cheatsheet"@)
        } else {
            b.description
        },
        ..b
    }
}

/// The custom table after registering `new` with `command`: every row that
/// spawns this binary is removed, then the row for the combination of `new`,
/// and `new` (without keycode, with a description) is bound to
/// `Spawn(command)`.
pub open spec fn registered_table(
    rows: Seq<(BindingView, ActionView)>,
    new: BindingView,
    command: Seq<char>,
) -> Seq<(BindingView, ActionView)> {
    inserted(
        rows.filter(not_own()).filter(other_than(binding_key(new))),
        stored_binding(new),
        ActionView::Spawn(command),
    )
}

/// Write `new -> Spawn(command)` into the custom shortcuts, removing any
/// previous registration of ours (`previous`, plus any stale entry pointing at
/// this binary). Other custom entries are preserved.
pub fn register(custom: &mut Shortcuts, previous: Option<&Binding>, new: &Binding, command: String)
    requires
        old(custom).wf(),
    ensures
        final(custom).wf(),
        final(custom)@ == registered_table(old(custom)@, new@, command@),
{
    let mut kept = without_own(custom);
    let _ = kept.remove(new);
    let mut binding = new.duplicate();
    binding.keycode = None;
    if binding.description.is_none() {
        binding.description = Some(String::from_str(SHORTCUT_DESCRIPTION));
    }
    proof {
        reveal_strlit("Keyboard shortcut cheatsheet");
    }
    assert(binding@ == stored_binding(new@));
    kept.insert(binding, Action::Spawn(command));
    *custom = kept;
}

/// Register `new` with `command` unless, without `force`, its combination
/// is bound in the merged table (defaults and custom) to another action,
/// which is then returned and nothing is written.
pub fn register_checked(
    custom: &mut Shortcuts,
    merged: &Shortcuts,
    previous: Option<&Binding>,
    new: &Binding,
    command: String,
    force: bool,
) -> (r: Result<(), Action>)
    requires
        old(custom).wf(),
        merged.wf(),
    ensures
        final(custom).wf(),
        match r {
            Ok(()) => (force || conflict_of(merged@, new@).is_none())
                && final(custom)@ == registered_table(old(custom)@, new@, command@),
            Err(a) => !force && conflict_of(merged@, new@) == Some(a@) && final(custom)@ == old(custom)@,
        },
{
    if !force {
        if let Some(a) = conflict(merged, new) {
            return Err(a);
        }
    }
    register(custom, previous, new, command);
    Ok(())
}

/// Remove every custom entry that spawns this binary; returns whether any
/// was removed (and so whether the table must be written back).
pub fn unregister(custom: &mut Shortcuts) -> (changed: bool)
    requires
        old(custom).wf(),
    ensures
        final(custom).wf(),
        final(custom)@ == old(custom)@.filter(not_own()),
        changed == (final(custom)@.len() != old(custom)@.len()),
{
    let before = custom.len();
    let kept = without_own(custom);
    *custom = kept;
    custom.len() != before
}

/// How "installed" a spawn command is; higher wins when deciding whether to
/// replace the registered command with the current binary's: 3 for the bare
/// binary name, 2 for an existing program under `$HOME/.local/bin`, 1 for
/// another program that exists, 0 for a program that is gone.
pub open spec fn install_rank_of(command: Seq<char>, home: Option<Seq<char>>, program_exists: bool) -> int {
    let program = command_program(command);
    if program == "cosmic-ext-cheatsheet"@ {
        3
    } else if program_exists && (home matches Some(h) && starts_with_components(
        program,
        components(h) + seq![".local"@, "bin"@],
    )) {
        2
    } else if program_exists {
        1
    } else {
        0
    }
}

/// How "installed" a spawn command is, given `$HOME` (when set) and whether
/// its program exists.
pub fn install_rank(command: &str, home: Option<&str>, program_exists: bool) -> (r: u8)
    ensures
        r == install_rank_of(command@, opt_str(home), program_exists),
{
    let program = program_of(command);
    let p = chars_of(program.as_str());
    let name = chars_of(BIN_NAME);
    proof {
        reveal_strlit("cosmic-ext-cheatsheet");
    }
    if crate::text::same_chars(&p, &name) {
        return 3;
    }
    if !program_exists {
        return 0;
    }
    if let Some(h) = home {
        let mut base = path_components(&chars_of(h));
        let ghost hb = pieces(base@);
        base.push(chars_of(".local"));
        base.push(chars_of("bin"));
        assert(pieces(base@) =~= hb + seq![".local"@, "bin"@]);
        if starts_with_pieces(&p, &base) {
            return 2;
        }
    }
    1
}

/// The command of our entry for the combination of `b`, if the custom table
/// binds it to one of our actions.
pub open spec fn own_command(custom: Seq<(BindingView, ActionView)>, b: BindingView) -> Option<Seq<char>> {
    match row_of(custom, binding_key(b)) {
        Some(row) => match row.1 {
            ActionView::Spawn(c) => if own_action(row.1) {
                Some(c)
            } else {
                None
            },
            _ => None,
        },
        None => None,
    }
}

/// The command of our entry for `binding`, if it is registered.
pub fn registered_command(custom: &Shortcuts, binding: &Binding) -> (r: Option<String>)
    requires
        custom.wf(),
    ensures
        opt_text(r) == own_command(custom@, binding@),
{
    match custom.get(binding) {
        Some(a) => {
            if is_own_action(a) {
                match a {
                    Action::Spawn(c) => Some(c.clone()),
                    _ => None,
                }
            } else {
                None
            }
        },
        None => None,
    }
}

/// What checking the registered entry at startup found.
#[derive(Debug, Clone, Copy, PartialEq, Eq)]
pub enum Sync {
    /// Our entry spawned another copy; it now spawns the current one.
    Updated,
    /// Our entry is as it should be.
    Unchanged,
    /// No entry holds the combination any more.
    Missing,
    /// The combination is bound to something else now.
    Foreign,
}

/// What checking the entry for `b` finds: whether a row holds its
/// combination, whether that row is ours, and if so whether it is
/// rewritten to spawn `current`.
pub open spec fn sync_outcome(
    custom: Seq<(BindingView, ActionView)>,
    b: BindingView,
    current: Seq<char>,
    current_rank: int,
    existing_rank: int,
) -> Sync {
    match row_of(custom, binding_key(b)) {
        None => Sync::Missing,
        Some(row) => if !own_action(row.1) {
            Sync::Foreign
        } else if sync_replaces(custom, b, current, current_rank, existing_rank) {
            Sync::Updated
        } else {
            Sync::Unchanged
        },
    }
}

/// Check the registered entry for `binding` at startup: when it is still
/// ours, make it spawn `current` as [`sync_command`] does; when the
/// combination is gone or bound to something else, leave the table alone
/// and say so.
pub fn sync_registration(
    custom: &mut Shortcuts,
    binding: &Binding,
    current: String,
    current_rank: u8,
    existing_rank: u8,
) -> (r: Sync)
    requires
        old(custom).wf(),
    ensures
        final(custom).wf(),
        r == sync_outcome(old(custom)@, binding@, current@, current_rank as int, existing_rank as int),
        final(custom)@ == if r == Sync::Updated {
            registered_table(old(custom)@, binding@, current@)
        } else {
            old(custom)@
        },
{
    match custom.get(binding) {
        None => Sync::Missing,
        Some(a) => {
            if !is_own_action(a) {
                Sync::Foreign
            } else if sync_command(custom, binding, current, current_rank, existing_rank) {
                Sync::Updated
            } else {
                Sync::Unchanged
            }
        },
    }
}

/// Whether the entry for `b` should be rewritten to spawn `current`: when
/// no row holds its combination, or ours spawns another command that is not
/// better installed than `current`. A row of another action is never
/// touched.
pub open spec fn sync_replaces(
    custom: Seq<(BindingView, ActionView)>,
    b: BindingView,
    current: Seq<char>,
    current_rank: int,
    existing_rank: int,
) -> bool {
    match row_of(custom, binding_key(b)) {
        None => true,
        Some(_) => match own_command(custom, b) {
            Some(cmd) => cmd != current && current_rank >= existing_rank,
            None => false,
        },
    }
}

/// Make sure the registered entry for `binding` spawns `current` (the
/// current binary's command, of install rank `current_rank`), unless the
/// existing entry (whose command has rank `existing_rank`) points at a
/// better-installed copy. A combination now bound to another action is left
/// alone. Returns whether it rewrote the table.
pub fn sync_command(custom: &mut Shortcuts, binding: &Binding, current: String, current_rank: u8, existing_rank: u8) -> (replaced: bool)
    requires
        old(custom).wf(),
    ensures
        final(custom).wf(),
        replaced == sync_replaces(old(custom)@, binding@, current@, current_rank as int, existing_rank as int),
        final(custom)@ == if replaced {
            registered_table(old(custom)@, binding@, current@)
        } else {
            old(custom)@
        },
        (row_of(old(custom)@, binding_key(binding@)) matches Some(row) && !own_action(row.1))
            ==> !replaced && final(custom)@ == old(custom)@,
{
    let replace = match custom.get(binding) {
        None => true,
        Some(a) => {
            if is_own_action(a) {
                match a {
                    Action::Spawn(cmd) => *cmd != current && current_rank >= existing_rank,
                    _ => false,
                }
            } else {
                false
            }
        },
    };
    if !replace {
        return false;
    }
    register(custom, Some(binding), binding, current);
    true
}

/// The rows that spawn this binary.
pub open spec fn own() -> spec_fn((BindingView, ActionView)) -> bool {
    |row: (BindingView, ActionView)| own_action(row.1)
}

/// The rows kept by a registration of the combination `k`: those not of
/// ours and not holding `k`. None of them is ours or holds `k`, and their
/// combinations stay distinct.
proof fn lemma_kept_rows(rows: Seq<(BindingView, ActionView)>, k: (Modifiers, Option<u32>, Option<u32>))
    requires
        keys_distinct(rows),
    ensures
        keys_distinct(rows.filter(not_own()).filter(other_than(k))),
        !has_key(rows.filter(not_own()).filter(other_than(k)), k),
        forall|j: int| 0 <= j < rows.filter(not_own()).filter(other_than(k)).len()
            ==> !own_action(#[trigger] rows.filter(not_own()).filter(other_than(k))[j].1),
{
    let x = rows.filter(not_own());
    let r = x.filter(other_than(k));
    lemma_keys_distinct_filter(rows, not_own());
    lemma_keys_distinct_filter(x, other_than(k));
    assert forall|j: int| 0 <= j < r.len() implies !own_action(#[trigger] r[j].1) && binding_key(r[j].0) != k by {
        lemma_filter_elem(x, other_than(k), j);
        let m = choose|m: int| 0 <= m < x.len() && x[m] == r[j];
        lemma_filter_elem(rows, not_own(), m);
    }
}

/// Keeping some rows of a table keeps its combinations distinct.
proof fn lemma_keys_distinct_filter(
    rows: Seq<(BindingView, ActionView)>,
    p: spec_fn((BindingView, ActionView)) -> bool,
)
    requires
        keys_distinct(rows),
    ensures
        keys_distinct(rows.filter(p)),
    decreases rows.len(),
{
    if rows.len() > 0 {
        let d = rows.drop_last();
        let x = rows.last();
        lemma_keys_distinct_prefix(rows);
        lemma_keys_distinct_filter(d, p);
        assert(rows =~= d.push(x));
        d.lemma_filter_push(x, p);
        if p(x) {
            let f = d.filter(p);
            assert forall|j: int| 0 <= j < f.len() implies binding_key(#[trigger] f[j].0) != binding_key(x.0) by {
                lemma_filter_elem(d, p, j);
                let m = choose|m: int| 0 <= m < d.len() && d[m] == f[j];
                assert(rows[m] == d[m]);
                assert(rows[rows.len() - 1] == x);
            }
            let g = f.push(x);
            assert forall|a: int, b: int| 0 <= a < g.len() && 0 <= b < g.len() && a != b implies binding_key(#[trigger] g[a].0) != binding_key(#[trigger] g[b].0) by {
                if a < f.len() && b < f.len() {
                    assert(g[a] == f[a] && g[b] == f[b]);
                } else if a < f.len() {
                    assert(g[a] == f[a] && g[b] == x);
                } else {
                    assert(g[b] == f[b] && g[a] == x);
                }
            }
        }
    } else {
        reveal(Seq::filter);
    }
}

/// The shape of a registration: a table with distinct combinations, exactly
/// one row of ours, binding a combination equal to that of the stored
/// binding to `Spawn(command)`, and the other rows are the rows not of ours
/// of the old table, but for those on the new combination (with or without
/// its keycode).
proof fn lemma_registered_table(rows: Seq<(BindingView, ActionView)>, new: BindingView, command: Seq<char>)
    requires
        keys_distinct(rows),
        own_action(ActionView::Spawn(command)),
    ensures
        keys_distinct(registered_table(rows, new, command)),
        registered_table(rows, new, command).filter(own()).len() == 1,
        binding_key(registered_table(rows, new, command).filter(own())[0].0) == binding_key(stored_binding(new)),
        registered_table(rows, new, command).filter(own())[0].1 == ActionView::Spawn(command),
        registered_table(rows, new, command).filter(not_own())
            == rows.filter(not_own()).filter(other_than(binding_key(new))).filter(other_than(binding_key(stored_binding(new)))),
{
    let k = binding_key(new);
    let s = stored_binding(new);
    let k0 = binding_key(s);
    let r = rows.filter(not_own()).filter(other_than(k));
    let a = ActionView::Spawn(command);
    let t = registered_table(rows, new, command);
    lemma_kept_rows(rows, k);
    if has_key(r, k0) {
        let i = choose|i: int| 0 <= i < r.len() && binding_key(#[trigger] r[i].0) == k0;
        assert(t == r.update(i, (r[i].0, a)));
        assert forall|j: int| 0 <= j < t.len() && j != i implies !own_action(#[trigger] t[j].1) by {
            assert(t[j] == r[j]);
        }
        assert forall|j: int| 0 <= j < t.len() && j != i implies (not_own())(#[trigger] t[j]) by {
            assert(t[j] == r[j]);
        }
        lemma_filter_only(t, own(), i);
        lemma_filter_all_but(t, not_own(), i);
        assert(t.remove(i) =~= r.remove(i));
        lemma_filter_other_than_remove(r, i);
        assert forall|x: int, y: int| 0 <= x < t.len() && 0 <= y < t.len() && x != y implies binding_key(#[trigger] t[x].0) != binding_key(#[trigger] t[y].0) by {
            assert(binding_key(t[x].0) == binding_key(r[x].0));
            assert(binding_key(t[y].0) == binding_key(r[y].0));
        }
    } else {
        assert(t == r.push((s, a)));
        r.lemma_filter_push((s, a), own());
        r.lemma_filter_push((s, a), not_own());
        lemma_filter_none(r, own());
        assert forall|j: int| 0 <= j < r.len() implies (not_own())(#[trigger] r[j]) by {}
        lemma_filter_all(r, not_own());
        lemma_filter_other_than_absent(r, k0);
        assert(Seq::<(BindingView, ActionView)>::empty().push((s, a)) =~= seq![(s, a)]);
        assert forall|x: int, y: int| 0 <= x < t.len() && 0 <= y < t.len() && x != y implies binding_key(#[trigger] t[x].0) != binding_key(#[trigger] t[y].0) by {
            if x < r.len() && y < r.len() {
                assert(t[x] == r[x] && t[y] == r[y]);
            } else if x < r.len() {
                assert(t[x] == r[x]);
            } else {
                assert(t[y] == r[y]);
            }
        }
    }
}

/// What a registration writes is what a lookup reads back: after
/// registering `new` with one of our commands, the stored combination is
/// registered and spawns exactly that command; so is `new` itself when it
/// carries no keycode.
pub proof fn law_register_then_registered(rows: Seq<(BindingView, ActionView)>, new: BindingView, command: Seq<char>)
    requires
        keys_distinct(rows),
        own_action(ActionView::Spawn(command)),
    ensures
        registered_in(registered_table(rows, new, command), stored_binding(new)),
        own_command(registered_table(rows, new, command), stored_binding(new)) == Some(command),
        new.keycode.is_none() ==> registered_in(registered_table(rows, new, command), new),
        new.keycode.is_none() ==> own_command(registered_table(rows, new, command), new) == Some(command),
{
    let t = registered_table(rows, new, command);
    lemma_registered_table(rows, new, command);
    let f = t.filter(own());
    lemma_filter_elem(t, own(), 0);
    let i = choose|i: int| 0 <= i < t.len() && t[i] == f[0];
    lemma_row_of_index(t, i);
}

/// Registering leaves every other custom shortcut untouched: the rows that
/// are not ours are those of before, less the ones on the registered
/// combination, and exactly one row is ours.
pub proof fn law_register_keeps_others(rows: Seq<(BindingView, ActionView)>, new: BindingView, command: Seq<char>)
    requires
        keys_distinct(rows),
        own_action(ActionView::Spawn(command)),
    ensures
        registered_table(rows, new, command).filter(not_own())
            == rows.filter(not_own()).filter(other_than(binding_key(new))).filter(other_than(binding_key(stored_binding(new)))),
        registered_table(rows, new, command).filter(own()).len() == 1,
{
    lemma_registered_table(rows, new, command);
}

/// Registering the same combination with the same command twice gives the
/// table of registering it once (for a combination without keycode, the
/// form every recorded or typed combination has).
pub proof fn law_register_idempotent(rows: Seq<(BindingView, ActionView)>, new: BindingView, command: Seq<char>)
    requires
        keys_distinct(rows),
        own_action(ActionView::Spawn(command)),
        new.keycode.is_none(),
    ensures
        registered_table(registered_table(rows, new, command), new, command) == registered_table(rows, new, command),
{
    let k = binding_key(new);
    let r = rows.filter(not_own()).filter(other_than(k));
    let t = registered_table(rows, new, command);
    let a = ActionView::Spawn(command);
    lemma_kept_rows(rows, k);
    assert(binding_key(stored_binding(new)) == k);
    assert(t == r.push((stored_binding(new), a)));
    lemma_registered_table(rows, new, command);
    lemma_filter_other_than_absent(r, k);
    lemma_kept_rows(t, k);
    let r2 = t.filter(not_own()).filter(other_than(k));
    lemma_filter_other_than_absent(r, k);
    assert(t.filter(not_own()) == r);
    assert(r2 == r);
}

/// After unregistering, no row of ours is left, and unregistering again
/// changes nothing.
pub proof fn law_unregister_removes_all(rows: Seq<(BindingView, ActionView)>)
    ensures
        rows.filter(not_own()).filter(own()) == Seq::<(BindingView, ActionView)>::empty(),
        rows.filter(not_own()).filter(not_own()) == rows.filter(not_own()),
        forall|b: BindingView| !registered_in(#[trigger] rows.filter(not_own()), b),
{
    let f = rows.filter(not_own());
    assert forall|j: int| 0 <= j < f.len() implies !(own())(#[trigger] f[j]) by {
        lemma_filter_elem(rows, not_own(), j);
    }
    assert forall|j: int| 0 <= j < f.len() implies (not_own())(#[trigger] f[j]) by {
        lemma_filter_elem(rows, not_own(), j);
    }
    lemma_filter_none(f, own());
    lemma_filter_all(f, not_own());
    assert forall|b: BindingView| !registered_in(#[trigger] rows.filter(not_own()), b) by {
        if has_key(f, binding_key(b)) {
            let i = choose|i: int| 0 <= i < f.len() && binding_key(#[trigger] f[i].0) == binding_key(b);
            lemma_filter_elem(rows, not_own(), i);
        }
    }
}

/// No safe character is whitespace, a quote or a backslash.
proof fn lemma_safe_plain(c: char)
    requires
        quote_safe(c),
    ensures
        !is_ws(c),
        c != '\'',
        c != '\\',
{
}

/// `sh` reads safe characters as they are, up to the end of the word.
proof fn lemma_safe_word(p: Seq<char>, rest: Seq<char>)
    requires
        forall|i: int| 0 <= i < p.len() ==> quote_safe(#[trigger] p[i]),
        rest.len() == 0 || is_ws(rest[0]),
    ensures
        shell_word(p + rest, false) == p,
    decreases p.len(),
{
    if p.len() == 0 {
        assert(p + rest =~= rest);
    } else {
        let t = p.drop_first();
        assert forall|i: int| 0 <= i < t.len() implies quote_safe(#[trigger] t[i]) by {
            assert(t[i] == p[i + 1]);
        }
        lemma_safe_plain(p[0]);
        lemma_safe_word(t, rest);
        assert((p + rest)[0] == p[0]);
        assert((p + rest).drop_first() =~= t + rest);
        assert(seq![p[0]] + t =~= p);
    }
}

/// Inside quotes, `sh` reads an escaped text back as the text, and stays
/// inside quotes.
proof fn lemma_escaped_word(q: Seq<char>, t: Seq<char>)
    ensures
        shell_word(escape_quotes(q) + t, true) == q + shell_word(t, true),
    decreases q.len(),
{
    if q.len() == 0 {
        assert(escape_quotes(q) + t =~= t);
        assert(q + shell_word(t, true) =~= shell_word(t, true));
    } else {
        let d = q.drop_last();
        let x = q.last();
        let piece = if x == '\'' { seq!['\'', '\\', '\'', '\''] } else { seq![x] };
        assert(escape_quotes(q) + t =~= escape_quotes(d) + (piece + t));
        lemma_escaped_word(d, piece + t);
        let u = piece + t;
        if x == '\'' {
            assert(u[0] == '\'');
            let u1 = u.drop_first();
            assert(u1[0] == '\\' && u1[1] == '\'' && u1.len() >= 2);
            let u2 = u1.subrange(2, u1.len() as int);
            assert(u2[0] == '\'');
            assert(u2.drop_first() =~= t);
            assert(shell_word(u2, false) == shell_word(t, true));
            assert(shell_word(u1, false) == seq!['\''] + shell_word(t, true));
            assert(shell_word(u, true) == seq!['\''] + shell_word(t, true));
        } else {
            assert(u[0] == x);
            assert(u.drop_first() =~= t);
            assert(shell_word(u, true) == seq![x] + shell_word(t, true));
        }
        assert(d + (seq![x] + shell_word(t, true)) =~= q + shell_word(t, true));
    }
}

/// Quoting a path for the shell is undone by `sh`: the quoted path, followed
/// by the end of the command or whitespace, reads back as exactly the path,
/// and the path is left as it is exactly when every character is safe.
pub proof fn law_shell_quote_round_trip(p: Seq<char>, rest: Seq<char>)
    requires
        rest.len() == 0 || is_ws(rest[0]),
    ensures
        shell_word(shell_quoted(p) + rest, false) == p,
        (shell_quoted(p) == p) == (forall|i: int| 0 <= i < p.len() ==> quote_safe(#[trigger] p[i])),
{
    if forall|i: int| 0 <= i < p.len() ==> quote_safe(#[trigger] p[i]) {
        lemma_safe_word(p, rest);
    } else {
        let w = seq!['\''] + escape_quotes(p) + seq!['\''] + rest;
        assert(w[0] == '\'');
        assert(w.drop_first() =~= escape_quotes(p) + (seq!['\''] + rest));
        lemma_escaped_word(p, seq!['\''] + rest);
        let v = seq!['\''] + rest;
        assert(v[0] == '\'');
        assert(v.drop_first() =~= rest);
        if rest.len() == 0 {
            assert(shell_word(rest, false) == Seq::<char>::empty());
        }
        assert(p + shell_word(rest, false) =~= p);
        lemma_escape_len(p);
        assert(shell_quoted(p).len() != p.len());
    }
}

/// Escaping never shortens a text.
proof fn lemma_escape_len(q: Seq<char>)
    ensures
        escape_quotes(q).len() >= q.len(),
    decreases q.len(),
{
    if q.len() > 0 {
        lemma_escape_len(q.drop_last());
    }
}

/// A path with a file name is not empty.
proof fn lemma_file_name_nonempty(p: Seq<char>)
    requires
        file_name(p).is_some(),
    ensures
        p.len() > 0,
{
    if p.len() == 0 {
        reveal(Seq::filter);
        assert(segments(p) == seq![Seq::<char>::empty()]);
        let named = segments(p).filter(|x: Seq<char>| is_named(x));
        assert(segments(p).drop_last() =~= Seq::<Seq<char>>::empty());
        assert(Seq::<Seq<char>>::empty().filter(|x: Seq<char>| is_named(x)) =~= Seq::<Seq<char>>::empty());
        assert(named =~= Seq::<Seq<char>>::empty());
        assert(components(p) =~= Seq::<Seq<char>>::empty());
    }
}

/// The program of a quoted path followed by `toggle` is the path.
proof fn lemma_quoted_program(p: Seq<char>)
    requires
        p.len() > 0,
    ensures
        command_program(shell_quoted(p) + " toggle"@) == p,
{
    reveal_strlit(" toggle");
    let rest = " toggle"@;
    assert(rest[0] == ' ');
    law_shell_quote_round_trip(p, rest);
    let c = shell_quoted(p) + rest;
    if forall|i: int| 0 <= i < p.len() ==> quote_safe(#[trigger] p[i]) {
        lemma_safe_plain(p[0]);
        assert(c[0] == p[0]);
    } else {
        assert(c[0] == '\'');
    }
    assert(trim_start(c) == c);
}

/// The installed name is made of safe characters only.
proof fn lemma_bin_name_safe()
    ensures
        forall|i: int| 0 <= i < "cosmic-ext-cheatsheet"@.len() ==> quote_safe(#[trigger] "cosmic-ext-cheatsheet"@[i]),
        file_name("cosmic-ext-cheatsheet"@) == Some("cosmic-ext-cheatsheet"@),
{
    reveal_strlit("cosmic-ext-cheatsheet");
    let n = "cosmic-ext-cheatsheet"@;
    assert forall|i: int| 0 <= i < n.len() implies quote_safe(#[trigger] n[i]) && n[i] != '/' by {
        assert(i == 0 || i == 1 || i == 2 || i == 3 || i == 4 || i == 5 || i == 6 || i == 7 || i == 8
            || i == 9 || i == 10 || i == 11 || i == 12 || i == 13 || i == 14 || i == 15 || i == 16
            || i == 17 || i == 18 || i == 19 || i == 20);
    }
    assert(n.len() == 21);
    lemma_plain_file_name(n);
}

/// Whether `p` is a single path piece: no `/`, not empty, not `.` or `..`.
pub open spec fn single_piece(p: Seq<char>) -> bool {
    &&& p.len() > 0
    &&& forall|i: int| 0 <= i < p.len() ==> p[i] != '/'
    &&& p != seq!['.']
    &&& p != seq!['.', '.']
}

/// A single piece is its own file name.
proof fn lemma_plain_file_name(p: Seq<char>)
    requires
        single_piece(p),
    ensures
        file_name(p) == Some(p),
{
    lemma_segments_plain(p);
    reveal(Seq::filter);
    let f = |x: Seq<char>| is_named(x);
    assert(seq![p].drop_last() =~= Seq::<Seq<char>>::empty());
    assert(Seq::<Seq<char>>::empty().filter(f) =~= Seq::<Seq<char>>::empty());
    assert(seq![p].filter(f) =~= seq![p]);
    assert(p[0] != '/');
    if p.len() > 1 {
        assert(p[1] != '/');
    }
    if p.len() == 1 && p[0] == '.' {
        assert(p =~= seq!['.']);
    }
    assert(segments(p).filter(|x: Seq<char>| is_named(x)) =~= seq![p]);
    assert(components(p) =~= seq![p]);
    assert(p != seq!['/']) by {
        assert(p[0] != '/');
    }
}

/// A text without `/` is a single segment.
proof fn lemma_segments_plain(p: Seq<char>)
    requires
        forall|i: int| 0 <= i < p.len() ==> p[i] != '/',
    ensures
        segments(p) == seq![p],
    decreases p.len(),
{
    if p.len() > 0 {
        let d = p.drop_last();
        assert forall|i: int| 0 <= i < d.len() implies d[i] != '/' by {
            assert(d[i] == p[i]);
        }
        lemma_segments_plain(d);
        assert(p.last() != '/');
        assert(d.push(p.last()) =~= p);
        let w = segments(d);
        assert(w.len() == 1 && w.last() == d);
        assert(segments(p) == w.update(w.len() - 1, w.last().push(p.last())));
        assert(w.update(0, p) =~= seq![p]);
    } else {
        assert(p =~= Seq::<char>::empty());
    }
}

/// Whether the program `spawn_command` picks outside a sandbox has the
/// installed name: always for the bare name, and for a path when that path
/// (the sibling's, or else the running binary's) ends in the installed name.
pub open spec fn picks_own_program(exe: Option<Seq<char>>, sibling: Option<Seq<char>>) -> bool {
    match exe {
        Some(path) => (!starts_with_components(path, components("/usr/bin"@))
            && !starts_with_components(path, components("/usr/local/bin"@))) ==> file_name(
            match sibling {
                Some(s) => s,
                None => path,
            },
        ) == Some("cosmic-ext-cheatsheet"@),
        None => true,
    }
}

/// The command `spawn_command` stores is recognised as ours: the Flatpak
/// launch inside a sandbox, and otherwise the (possibly quoted) path or name
/// of a binary with the installed name.
pub proof fn law_spawn_command_is_own(exe: Option<Seq<char>>, sibling: Option<Seq<char>>, sandboxed: bool)
    requires
        sandboxed || picks_own_program(exe, sibling),
    ensures
        own_action(ActionView::Spawn(spawn_text(exe, sibling, sandboxed))),
{
    if sandboxed {
        reveal_strlit("flatpak run --command=cosmic-ext-cheatsheet io.github.michelet76.CosmicExtCheatsheet toggle");
        reveal_strlit("flatpak run --command=cosmic-ext-cheatsheet ");
        let c = host_launch_text();
        assert(c.take(flatpak_launch_prefix().len() as int) =~= flatpak_launch_prefix());
    } else {
        let prog = spawn_program(exe, sibling);
        let named = match exe {
            Some(path) => if !starts_with_components(path, components("/usr/bin"@))
                && !starts_with_components(path, components("/usr/local/bin"@)) {
                match sibling {
                    Some(s) => s,
                    None => path,
                }
            } else {
                "cosmic-ext-cheatsheet"@
            },
            None => "cosmic-ext-cheatsheet"@,
        };
        lemma_bin_name_safe();
        assert(shell_quoted(named) == prog);
        assert(file_name(named) == Some("cosmic-ext-cheatsheet"@));
        lemma_file_name_nonempty(named);
        lemma_quoted_program(named);
    }
}

/// Registering the command `spawn_command` gives makes the combination
/// registered, spawning that command: what is written is read back as ours.
pub proof fn law_register_spawn_command(
    rows: Seq<(BindingView, ActionView)>,
    new: BindingView,
    exe: Option<Seq<char>>,
    sibling: Option<Seq<char>>,
    sandboxed: bool,
)
    requires
        keys_distinct(rows),
        sandboxed || picks_own_program(exe, sibling),
    ensures
        registered_in(registered_table(rows, new, spawn_text(exe, sibling, sandboxed)), stored_binding(new)),
        new.keycode.is_none() ==> registered_in(registered_table(rows, new, spawn_text(exe, sibling, sandboxed)), new),
{
    law_spawn_command_is_own(exe, sibling, sandboxed);
    law_register_then_registered(rows, new, spawn_text(exe, sibling, sandboxed));
}

/// A conflict is exactly the action bound to the combination in the merged
/// table, whatever it is (a custom `Spawn` of another program included),
/// unless it is `Disable` or one of ours: then there is none, and there is
/// none when the combination is free.
pub proof fn law_conflict_is_the_bound_action(merged: Seq<(BindingView, ActionView)>, b: BindingView, i: int)
    requires
        keys_distinct(merged),
        0 <= i < merged.len(),
        binding_key(merged[i].0) == binding_key(b),
    ensures
        !(merged[i].1 is Disable) && !own_action(merged[i].1) ==> conflict_of(merged, b) == Some(merged[i].1),
        (merged[i].1 is Disable) || own_action(merged[i].1) ==> conflict_of(merged, b).is_none(),
{
    lemma_row_of_index(merged, i);
}

/// A combination that no row of the merged table holds has no conflict.
pub proof fn law_free_combination_has_no_conflict(merged: Seq<(BindingView, ActionView)>, b: BindingView)
    requires
        forall|i: int| 0 <= i < merged.len() ==> binding_key(#[trigger] merged[i].0) != binding_key(b),
    ensures
        conflict_of(merged, b).is_none(),
{
}

/// Syncing at startup rewrites our entry exactly when it spawns another
/// command than the current one and that command is not better installed
/// (equal ranks included); it then spawns the current command.
pub proof fn law_sync_rewrites_own_entry(
    custom: Seq<(BindingView, ActionView)>,
    b: BindingView,
    current: Seq<char>,
    current_rank: int,
    existing_rank: int,
    i: int,
    cmd: Seq<char>,
)
    requires
        keys_distinct(custom),
        0 <= i < custom.len(),
        binding_key(custom[i].0) == binding_key(b),
        custom[i].1 == ActionView::Spawn(cmd),
        own_action(custom[i].1),
    ensures
        sync_replaces(custom, b, current, current_rank, existing_rank) == (cmd != current && current_rank >= existing_rank),
        cmd != current && current_rank >= existing_rank ==> sync_outcome(custom, b, current, current_rank, existing_rank) == Sync::Updated,
        !(cmd != current && current_rank >= existing_rank) ==> sync_outcome(custom, b, current, current_rank, existing_rank) == Sync::Unchanged,
{
    lemma_row_of_index(custom, i);
}

/// When no row holds the combination any more, syncing writes our entry
/// back, while checking at startup reports it missing and writes nothing.
pub proof fn law_sync_missing_entry(
    custom: Seq<(BindingView, ActionView)>,
    b: BindingView,
    current: Seq<char>,
    current_rank: int,
    existing_rank: int,
)
    requires
        forall|i: int| 0 <= i < custom.len() ==> binding_key(#[trigger] custom[i].0) != binding_key(b),
    ensures
        sync_replaces(custom, b, current, current_rank, existing_rank),
        sync_outcome(custom, b, current, current_rank, existing_rank) == Sync::Missing,
{
}

} // verus!
