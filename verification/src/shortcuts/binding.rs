//! Key bindings and the tables that map them to actions.

use vstd::prelude::*;
use super::action::{Action, ActionView, System, system_index, system_index_of};

verus! {

/// Modifier keys held as part of a binding.
#[derive(Debug, Clone, Copy, PartialEq, Eq, Hash, Structural)]
pub struct Modifiers {
    pub ctrl: bool,
    pub alt: bool,
    pub shift: bool,
    pub logo: bool,
}

impl Modifiers {
    /// No modifier held.
    pub fn new() -> (m: Modifiers)
        ensures
            !m.ctrl && !m.alt && !m.shift && !m.logo,
    {
        Modifiers { ctrl: false, alt: false, shift: false, logo: false }
    }

    /// The same modifiers plus Ctrl.
    pub fn ctrl(self) -> (m: Modifiers)
        ensures
            m == (Modifiers { ctrl: true, ..self }),
    {
        Modifiers { ctrl: true, ..self }
    }

    /// The same modifiers plus Alt.
    pub fn alt(self) -> (m: Modifiers)
        ensures
            m == (Modifiers { alt: true, ..self }),
    {
        Modifiers { alt: true, ..self }
    }

    /// The same modifiers plus Shift.
    pub fn shift(self) -> (m: Modifiers)
        ensures
            m == (Modifiers { shift: true, ..self }),
    {
        Modifiers { shift: true, ..self }
    }

    /// The same modifiers plus Super.
    pub fn logo(self) -> (m: Modifiers)
        ensures
            m == (Modifiers { logo: true, ..self }),
    {
        Modifiers { logo: true, ..self }
    }
}

/// A key combination: modifiers plus an optional key, given as an xkb keysym
/// value (or, for keycode-only bindings, a hardware keycode), with an optional
/// description that the compositor shows for custom shortcuts.
#[derive(Debug, Clone)]
pub struct Binding {
    pub modifiers: Modifiers,
    pub keycode: Option<u32>,
    pub key: Option<u32>,
    pub description: Option<String>,
}

/// The mathematical value of a [`Binding`].
pub struct BindingView {
    pub modifiers: Modifiers,
    pub keycode: Option<u32>,
    pub key: Option<u32>,
    pub description: Option<Seq<char>>,
}

/// The view of an optional string.
pub open spec fn opt_text(s: Option<String>) -> Option<Seq<char>> {
    match s {
        Some(t) => Some(t@),
        None => None,
    }
}

impl View for Binding {
    type V = BindingView;

    open spec fn view(&self) -> BindingView {
        BindingView {
            modifiers: self.modifiers,
            keycode: self.keycode,
            key: self.key,
            description: opt_text(self.description),
        }
    }
}

/// What identifies a binding in a table: everything but its description.
pub open spec fn binding_key(b: BindingView) -> (Modifiers, Option<u32>, Option<u32>) {
    (b.modifiers, b.keycode, b.key)
}

/// Whether a binding has any modifier or key at all.
pub open spec fn binding_is_set(b: BindingView) -> bool {
    b.modifiers.ctrl || b.modifiers.alt || b.modifiers.shift || b.modifiers.logo || b.key.is_some()
        || b.keycode.is_some()
}

/// Whether a binding is Super alone, with no other modifier and no key.
pub open spec fn binding_is_super(b: BindingView) -> bool {
    b.modifiers == (Modifiers { ctrl: false, alt: false, shift: false, logo: true })
        && b.key.is_none() && b.keycode.is_none()
}

/// A copy of an optional string.
pub fn duplicate_text(s: &Option<String>) -> (r: Option<String>)
    ensures
        opt_text(r) == opt_text(*s),
{
    match s {
        Some(t) => Some(t.clone()),
        None => None,
    }
}

impl Binding {
    /// A binding of the given modifiers and key, with no keycode and no
    /// description.
    pub fn new(modifiers: Modifiers, key: Option<u32>) -> (b: Binding)
        ensures
            b@ == (BindingView { modifiers, keycode: None, key, description: None }),
    {
        Binding { modifiers, keycode: None, key, description: None }
    }

    /// Whether the binding has any modifier or key at all.
    pub fn is_set(&self) -> (r: bool)
        ensures
            r == binding_is_set(self@),
    {
        self.modifiers.ctrl || self.modifiers.alt || self.modifiers.shift || self.modifiers.logo
            || self.key.is_some() || self.keycode.is_some()
    }

    /// Whether the binding is Super alone.
    pub fn is_super(&self) -> (r: bool)
        ensures
            r == binding_is_super(self@),
    {
        self.modifiers.logo && !self.modifiers.ctrl && !self.modifiers.alt && !self.modifiers.shift
            && self.key.is_none() && self.keycode.is_none()
    }

    /// Whether two bindings are the same combination (descriptions aside).
    pub fn same_key(&self, other: &Binding) -> (r: bool)
        ensures
            r == (binding_key(self@) == binding_key(other@)),
    {
        self.modifiers == other.modifiers && self.keycode == other.keycode && self.key == other.key
    }

    /// A copy of the binding.
    pub fn duplicate(&self) -> (r: Binding)
        ensures
            r@ == self@,
    {
        Binding {
            modifiers: self.modifiers,
            keycode: self.keycode,
            key: self.key,
            description: duplicate_text(&self.description),
        }
    }
}

/// A table of bindings and their actions, in the order it is walked; no two
/// bindings are the same combination.
pub struct Shortcuts {
    pairs: Vec<(Binding, Action)>,
}

/// The view of one row of a table.
pub open spec fn row_view(p: (Binding, Action)) -> (BindingView, ActionView) {
    (p.0@, p.1@)
}

impl View for Shortcuts {
    type V = Seq<(BindingView, ActionView)>;

    closed spec fn view(&self) -> Seq<(BindingView, ActionView)> {
        self.pairs@.map_values(|p: (Binding, Action)| row_view(p))
    }
}

/// Whether no two rows hold the same combination.
pub open spec fn keys_distinct(rows: Seq<(BindingView, ActionView)>) -> bool {
    forall|i: int, j: int|
        0 <= i < rows.len() && 0 <= j < rows.len() && i != j ==> binding_key(#[trigger] rows[i].0)
            != binding_key(#[trigger] rows[j].0)
}

/// Whether some row holds the combination `k`.
pub open spec fn has_key(rows: Seq<(BindingView, ActionView)>, k: (Modifiers, Option<u32>, Option<u32>)) -> bool {
    exists|i: int| 0 <= i < rows.len() && binding_key(#[trigger] rows[i].0) == k
}

/// The row that holds the combination `k`, if any.
pub open spec fn row_of(rows: Seq<(BindingView, ActionView)>, k: (Modifiers, Option<u32>, Option<u32>)) -> Option<(BindingView, ActionView)> {
    if has_key(rows, k) {
        Some(rows[choose|i: int| 0 <= i < rows.len() && binding_key(#[trigger] rows[i].0) == k])
    } else {
        None
    }
}

/// The table with `a` bound to the combination of `b`: the row holding that
/// combination keeps its place and its stored binding and gets the action;
/// without such a row, a row is added at the end.
pub open spec fn inserted(rows: Seq<(BindingView, ActionView)>, b: BindingView, a: ActionView) -> Seq<(BindingView, ActionView)> {
    if has_key(rows, binding_key(b)) {
        let i = choose|i: int| 0 <= i < rows.len() && binding_key(#[trigger] rows[i].0) == binding_key(b);
        rows.update(i, (rows[i].0, a))
    } else {
        rows.push((b, a))
    }
}

/// In a table whose combinations are distinct, the row at a position that
/// holds `k` is the row of `k`.
pub proof fn lemma_row_of_index(rows: Seq<(BindingView, ActionView)>, i: int)
    requires
        keys_distinct(rows),
        0 <= i < rows.len(),
    ensures
        row_of(rows, binding_key(rows[i].0)) == Some(rows[i]),
{
    let k = binding_key(rows[i].0);
    assert(has_key(rows, k));
    let j = choose|j: int| 0 <= j < rows.len() && binding_key(#[trigger] rows[j].0) == k;
    assert(i == j);
}

impl Shortcuts {
    /// Whether no two rows hold the same combination.
    pub open spec fn wf(&self) -> bool {
        keys_distinct(self@)
    }

    /// An empty table.
    pub fn new() -> (s: Shortcuts)
        ensures
            s@ == Seq::<(BindingView, ActionView)>::empty(),
            s.wf(),
    {
        let s = Shortcuts { pairs: Vec::new() };
        assert(s@ =~= Seq::<(BindingView, ActionView)>::empty());
        s
    }

    /// Number of rows.
    pub fn len(&self) -> (n: usize)
        ensures
            n == self@.len(),
    {
        self.pairs.len()
    }

    /// The rows, in order.
    pub fn rows(&self) -> (r: &Vec<(Binding, Action)>)
        ensures
            r@.map_values(|p: (Binding, Action)| row_view(p)) == self@,
    {
        &self.pairs
    }

    /// Position of the row holding the same combination as `b`.
    pub fn position(&self, b: &Binding) -> (r: Option<usize>)
        requires
            self.wf(),
        ensures
            match r {
                Some(i) => i < self@.len() && binding_key(self@[i as int].0) == binding_key(b@)
                    && row_of(self@, binding_key(b@)) == Some(self@[i as int]),
                None => !has_key(self@, binding_key(b@)) && row_of(self@, binding_key(b@)).is_none(),
            },
    {
        for i in 0..self.pairs.len()
            invariant
                self.wf(),
                forall|j: int| 0 <= j < i ==> binding_key(#[trigger] self@[j].0) != binding_key(b@),
        {
            if self.pairs[i].0.same_key(b) {
                proof {
                    assert(row_view(self.pairs@[i as int]) == self@[i as int]);
                    lemma_row_of_index(self@, i as int);
                }
                return Some(i);
            }
            assert(row_view(self.pairs@[i as int]) == self@[i as int]);
        }
        None
    }

    /// The action bound to the same combination as `b`, if any.
    pub fn get(&self, b: &Binding) -> (r: Option<&Action>)
        requires
            self.wf(),
        ensures
            match r {
                Some(a) => row_of(self@, binding_key(b@)) matches Some(row) && row.1 == a@,
                None => row_of(self@, binding_key(b@)).is_none(),
            },
    {
        match self.position(b) {
            Some(i) => {
                assert(row_view(self.pairs@[i as int]) == self@[i as int]);
                Some(&self.pairs[i].1)
            },
            None => None,
        }
    }

    /// The stored binding (with its description) and the action for the same
    /// combination as `b`, if any.
    pub fn get_key_value(&self, b: &Binding) -> (r: Option<(&Binding, &Action)>)
        requires
            self.wf(),
        ensures
            match r {
                Some(kv) => row_of(self@, binding_key(b@)) == Some((kv.0@, kv.1@)),
                None => row_of(self@, binding_key(b@)).is_none(),
            },
    {
        match self.position(b) {
            Some(i) => {
                assert(row_view(self.pairs@[i as int]) == self@[i as int]);
                Some((&self.pairs[i].0, &self.pairs[i].1))
            },
            None => None,
        }
    }

    /// Bind `action` to the combination of `binding`. When the combination is
    /// already in the table its row keeps its position and its stored binding
    /// and only the action changes; otherwise a row is added at the end.
    pub fn insert(&mut self, binding: Binding, action: Action)
        requires
            old(self).wf(),
        ensures
            final(self).wf(),
            final(self)@ == inserted(old(self)@, binding@, action@),
    {
        let ghost before = self@;
        match self.position(&binding) {
            Some(i) => {
                proof {
                    assert(has_key(before, binding_key(binding@)));
                    let j = choose|j: int| 0 <= j < before.len() && binding_key(#[trigger] before[j].0) == binding_key(binding@);
                    assert(binding_key(before[i as int].0) == binding_key(before[j].0));
                    assert(i == j);
                }
                let old_binding = self.pairs[i].0.duplicate();
                self.pairs.set(i, (old_binding, action));
                assert(self@ =~= before.update(i as int, (before[i as int].0, action@)));
            },
            None => {
                self.pairs.push((binding, action));
                assert(self@ =~= before.push((binding@, action@)));
            },
        }
    }

    /// Remove the row for the combination of `b`, if any, keeping the order of
    /// the other rows; returns its action.
    pub fn remove(&mut self, b: &Binding) -> (r: Option<Action>)
        requires
            old(self).wf(),
        ensures
            final(self).wf(),
            final(self)@ == old(self)@.filter(other_than(binding_key(b@))),
            match r {
                Some(a) => row_of(old(self)@, binding_key(b@)) matches Some(row) && row.1 == a@,
                None => row_of(old(self)@, binding_key(b@)).is_none(),
            },
    {
        let ghost before = self@;
        match self.position(b) {
            Some(i) => {
                let row = self.pairs.remove(i);
                proof {
                    assert(row_view(row) == before[i as int]);
                    assert(self@ =~= before.remove(i as int));
                    lemma_filter_other_than_remove(before, i as int);
                    lemma_keys_distinct_sub(before, i as int);
                }
                Some(row.1)
            },
            None => {
                proof {
                    lemma_filter_other_than_absent(before, binding_key(b@));
                }
                None
            },
        }
    }
}

/// The rows that do not hold the combination `k`.
pub open spec fn other_than(k: (Modifiers, Option<u32>, Option<u32>)) -> spec_fn((BindingView, ActionView)) -> bool {
    |row: (BindingView, ActionView)| binding_key(row.0) != k
}

/// Filtering out a combination that no row holds changes nothing.
pub proof fn lemma_filter_other_than_absent(rows: Seq<(BindingView, ActionView)>, k: (Modifiers, Option<u32>, Option<u32>))
    requires
        !has_key(rows, k),
    ensures
        rows.filter(other_than(k)) == rows,
    decreases rows.len(),
{
    reveal(Seq::filter);
    if rows.len() > 0 {
        let d = rows.drop_last();
        assert forall|i: int| 0 <= i < d.len() implies binding_key(#[trigger] d[i].0) != k by {
            assert(d[i] == rows[i]);
        }
        lemma_filter_other_than_absent(d, k);
        assert(binding_key(rows[rows.len() - 1].0) != k);
        assert(rows =~= d.push(rows.last()));
    }
}

/// In a table with distinct combinations, filtering out the combination of
/// row `i` is removing row `i`.
pub proof fn lemma_filter_other_than_remove(rows: Seq<(BindingView, ActionView)>, i: int)
    requires
        keys_distinct(rows),
        0 <= i < rows.len(),
    ensures
        rows.filter(other_than(binding_key(rows[i].0))) == rows.remove(i),
    decreases rows.len(),
{
    reveal(Seq::filter);
    let k = binding_key(rows[i].0);
    let d = rows.drop_last();
    if i == rows.len() - 1 {
        assert forall|j: int| 0 <= j < d.len() implies binding_key(#[trigger] d[j].0) != k by {
            assert(d[j] == rows[j]);
        }
        lemma_filter_other_than_absent(d, k);
        assert(rows.remove(i) =~= d);
    } else {
        assert(d[i] == rows[i]);
        lemma_keys_distinct_prefix(rows);
        lemma_filter_other_than_remove(d, i);
        assert(binding_key(rows[rows.len() - 1].0) != k);
        assert(rows.remove(i) =~= d.remove(i).push(rows.last()));
    }
}

/// Dropping the last row keeps the combinations distinct.
pub proof fn lemma_keys_distinct_prefix(rows: Seq<(BindingView, ActionView)>)
    requires
        keys_distinct(rows),
        rows.len() > 0,
    ensures
        keys_distinct(rows.drop_last()),
{
    let d = rows.drop_last();
    assert forall|a: int, b: int| 0 <= a < d.len() && 0 <= b < d.len() && a != b implies binding_key(#[trigger] d[a].0) != binding_key(#[trigger] d[b].0) by {
        assert(d[a] == rows[a] && d[b] == rows[b]);
    }
}

/// Removing a row keeps the combinations distinct.
pub proof fn lemma_keys_distinct_sub(rows: Seq<(BindingView, ActionView)>, i: int)
    requires
        keys_distinct(rows),
        0 <= i < rows.len(),
    ensures
        keys_distinct(rows.remove(i)),
{
    let r = rows.remove(i);
    assert forall|a: int, b: int| 0 <= a < r.len() && 0 <= b < r.len() && a != b implies binding_key(#[trigger] r[a].0) != binding_key(#[trigger] r[b].0) by {
        let a2 = if a < i { a } else { a + 1 };
        let b2 = if b < i { b } else { b + 1 };
        assert(r[a] == rows[a2] && r[b] == rows[b2]);
    }
}

/// The shell command configured for each system action.
pub struct SystemActions {
    commands: Vec<Option<String>>,
}

/// Number of system actions.
pub open spec fn system_count() -> nat {
    28
}

impl View for SystemActions {
    type V = Seq<Option<Seq<char>>>;

    /// The command of each system action, by its position in declaration order.
    closed spec fn view(&self) -> Seq<Option<Seq<char>>> {
        self.commands@.map_values(|c: Option<String>| opt_text(c))
    }
}

/// The command configured for a system action, if any.
pub open spec fn command_for(table: Seq<Option<Seq<char>>>, s: System) -> Option<Seq<char>> {
    table[system_index(s)]
}

impl SystemActions {
    /// Whether the table has one place per system action.
    pub closed spec fn wf(&self) -> bool {
        self.commands@.len() == system_count()
    }

    /// A table with no command configured.
    pub fn new() -> (t: SystemActions)
        ensures
            t.wf(),
            forall|s: System| #[trigger] command_for(t@, s).is_none(),
    {
        let mut commands: Vec<Option<String>> = Vec::new();
        for i in 0..28usize
            invariant
                commands@.len() == i,
                forall|j: int| 0 <= j < i ==> (#[trigger] commands@[j]).is_none(),
        {
            commands.push(None);
        }
        let t = SystemActions { commands };
        assert forall|s: System| #[trigger] command_for(t@, s).is_none() by {
            assert(0 <= system_index(s) < 28);
        }
        t
    }

    /// The command configured for `s`, if any.
    pub fn get(&self, s: System) -> (r: Option<&String>)
        requires
            self.wf(),
        ensures
            match r {
                Some(c) => command_for(self@, s) == Some(c@),
                None => command_for(self@, s).is_none(),
            },
    {
        let i = system_index_of(s) as usize;
        match &self.commands[i] {
            Some(c) => Some(c),
            None => None,
        }
    }

    /// Configure the command of `s`, replacing any earlier one.
    pub fn insert(&mut self, s: System, command: String)
        requires
            old(self).wf(),
        ensures
            final(self).wf(),
            final(self)@ == old(self)@.update(system_index(s), Some(command@)),
    {
        let i = system_index_of(s) as usize;
        self.commands.set(i, Some(command));
        assert(self@ =~= old(self)@.update(system_index(s), Some(command@)));
    }
}

/// The names of keysym values, as libxkbcommon gives them, for the keys a
/// table uses; no keysym is listed twice. The application builds it with
/// [`key_names_from`] from [`table_keysyms`] and the names libxkbcommon's
/// `keysym_get_name` returns for them.
pub struct KeyNames {
    rows: Vec<(u32, String)>,
}

impl View for KeyNames {
    type V = Seq<(u32, Seq<char>)>;

    closed spec fn view(&self) -> Seq<(u32, Seq<char>)> {
        self.rows@.map_values(|r: (u32, String)| (r.0, r.1@))
    }
}

/// The name listed for keysym `k`; the empty text when it is not listed (as
/// libxkbcommon answers for a value it cannot name).
pub open spec fn name_for(rows: Seq<(u32, Seq<char>)>, k: u32) -> Seq<char> {
    if exists|i: int| 0 <= i < rows.len() && (#[trigger] rows[i]).0 == k {
        rows[choose|i: int| 0 <= i < rows.len() && (#[trigger] rows[i]).0 == k].1
    } else {
        seq![]
    }
}

impl KeyNames {
    /// Whether no keysym is listed twice.
    pub closed spec fn wf(&self) -> bool {
        forall|i: int, j: int|
            0 <= i < self@.len() && 0 <= j < self@.len() && i != j ==> (#[trigger] self@[i]).0
                != (#[trigger] self@[j]).0
    }

    /// An empty list.
    pub fn new() -> (t: KeyNames)
        ensures
            t.wf(),
            t@ == Seq::<(u32, Seq<char>)>::empty(),
    {
        let t = KeyNames { rows: Vec::new() };
        assert(t@ =~= Seq::<(u32, Seq<char>)>::empty());
        t
    }

    /// List `name` for `keysym`, replacing any earlier name.
    pub fn insert(&mut self, keysym: u32, name: String)
        requires
            old(self).wf(),
        ensures
            final(self).wf(),
            forall|k: u32| #[trigger] name_for(final(self)@, k) == if k == keysym {
                name@
            } else {
                name_for(old(self)@, k)
            },
    {
        let ghost before = self@;
        let mut i: usize = 0;
        while i < self.rows.len()
            invariant
                self.wf(),
                self@ == before,
                before == old(self)@,
                i <= self@.len(),
                forall|j: int| 0 <= j < i ==> (#[trigger] self@[j]).0 != keysym,
            decreases self@.len() - i,
        {
            if self.rows[i].0 == keysym {
                assert(self@[i as int].0 == keysym);
                self.rows.set(i, (keysym, name));
                assert(self@ =~= before.update(i as int, (keysym, name@)));
                assert forall|a: int, b: int|
                    0 <= a < self@.len() && 0 <= b < self@.len() && a != b implies (#[trigger] self@[a]).0
                        != (#[trigger] self@[b]).0 by {
                    if a != i && b != i {
                        assert(self@[a] == before[a] && self@[b] == before[b]);
                    } else if a != i {
                        assert(self@[a] == before[a]);
                    } else {
                        assert(self@[b] == before[b]);
                    }
                }
                assert forall|k: u32| #[trigger] name_for(self@, k) == if k == keysym {
                    name@
                } else {
                    name_for(before, k)
                } by {
                    if k == keysym {
                        assert(self@[i as int].0 == k);
                        let c = choose|c: int| 0 <= c < self@.len() && (#[trigger] self@[c]).0 == k;
                        assert(c == i);
                    } else {
                        if exists|c: int| 0 <= c < before.len() && (#[trigger] before[c]).0 == k {
                            let c = choose|c: int| 0 <= c < before.len() && (#[trigger] before[c]).0 == k;
                            assert(c != i);
                            assert(self@[c] == before[c]);
                            assert(self@[c].0 == k);
                            let d = choose|d: int| 0 <= d < self@.len() && (#[trigger] self@[d]).0 == k;
                            assert(d != i);
                            assert(self@[d] == before[d]);
                            assert(c == d);
                            assert(name_for(self@, k) == self@[d].1);
                            assert(name_for(before, k) == before[c].1);
                        } else {
                            if exists|d: int| 0 <= d < self@.len() && (#[trigger] self@[d]).0 == k {
                                let d = choose|d: int| 0 <= d < self@.len() && (#[trigger] self@[d]).0 == k;
                                assert(before[d].0 == k);
                            }
                        }
                    }
                }
                return;
            }
            i = i + 1;
        }
        self.rows.push((keysym, name));
        assert(self@ =~= before.push((keysym, name@)));
        assert forall|k: u32| #[trigger] name_for(self@, k) == if k == keysym {
            name@
        } else {
            name_for(before, k)
        } by {
            let n = before.len() as int;
            if k == keysym {
                assert(self@[n].0 == k);
                let c = choose|c: int| 0 <= c < self@.len() && (#[trigger] self@[c]).0 == k;
                if c < n {
                    assert(before[c].0 == k);
                }
            } else {
                if exists|c: int| 0 <= c < before.len() && (#[trigger] before[c]).0 == k {
                    let c = choose|c: int| 0 <= c < before.len() && (#[trigger] before[c]).0 == k;
                    assert(self@[c].0 == k);
                    let d = choose|d: int| 0 <= d < self@.len() && (#[trigger] self@[d]).0 == k;
                    assert(before[d].0 == k);
                } else {
                    if exists|d: int| 0 <= d < self@.len() && (#[trigger] self@[d]).0 == k {
                        let d = choose|d: int| 0 <= d < self@.len() && (#[trigger] self@[d]).0 == k;
                        assert(before[d].0 == k);
                    }
                }
            }
        }
        assert forall|a: int, b: int|
            0 <= a < self@.len() && 0 <= b < self@.len() && a != b implies (#[trigger] self@[a]).0
                != (#[trigger] self@[b]).0 by {
            if a < before.len() && b < before.len() {
                assert(self@[a] == before[a] && self@[b] == before[b]);
            } else if a < before.len() {
                assert(self@[a] == before[a]);
            } else if b < before.len() {
                assert(self@[b] == before[b]);
            }
        }
    }

    /// The name listed for `keysym`, or the empty text.
    pub fn name(&self, keysym: u32) -> (r: String)
        requires
            self.wf(),
        ensures
            r@ == name_for(self@, keysym),
    {
        for i in 0..self.rows.len()
            invariant
                self.wf(),
                forall|j: int| 0 <= j < i ==> (#[trigger] self@[j]).0 != keysym,
        {
            if self.rows[i].0 == keysym {
                proof {
                    assert(self@[i as int].0 == keysym);
                    let c = choose|c: int| 0 <= c < self@.len() && (#[trigger] self@[c]).0 == keysym;
                    assert(c == i);
                }
                return self.rows[i].1.clone();
            }
        }
        String::new()
    }
}

/// Whether some binding of the table has keysym `k`.
pub open spec fn has_keysym(rows: Seq<(BindingView, ActionView)>, k: u32) -> bool {
    exists|i: int| 0 <= i < rows.len() && (#[trigger] rows[i]).0.key == Some(k)
}

/// The keysyms of a table's bindings that have one, in row order: these
/// are the keysyms whose names the cheatsheet shows.
pub fn table_keysyms(s: &Shortcuts) -> (ks: Vec<u32>)
    ensures
        forall|i: int| 0 <= i < s@.len() && s@[i].0.key.is_some() ==> ks@.contains(#[trigger] s@[i].0.key.unwrap()),
        forall|j: int| 0 <= j < ks@.len() ==> has_keysym(s@, #[trigger] ks@[j]),
{
    let rows = s.rows();
    let mut ks: Vec<u32> = Vec::new();
    for i in 0..rows.len()
        invariant
            rows@.map_values(|p: (Binding, Action)| row_view(p)) == s@,
            forall|q: int| 0 <= q < i && s@[q].0.key.is_some() ==> ks@.contains(#[trigger] s@[q].0.key.unwrap()),
            forall|j: int| 0 <= j < ks@.len() ==> has_keysym(s@, #[trigger] ks@[j]),
    {
        assert(s@[i as int] == row_view(rows@[i as int]));
        if let Some(k) = rows[i].0.key {
            let ghost before = ks@;
            ks.push(k);
            assert(ks@[ks@.len() - 1] == k);
            assert forall|q: int| 0 <= q < i + 1 && s@[q].0.key.is_some() implies ks@.contains(#[trigger] s@[q].0.key.unwrap()) by {
                if q < i {
                    let w = choose|w: int| 0 <= w < before.len() && before[w] == s@[q].0.key.unwrap();
                    assert(ks@[w] == before[w]);
                } else {
                    assert(ks@[ks@.len() - 1] == s@[q].0.key.unwrap());
                }
            }
            assert forall|j: int| 0 <= j < ks@.len() implies has_keysym(s@, #[trigger] ks@[j]) by {
                if j < before.len() {
                    assert(ks@[j] == before[j]);
                } else {
                    assert(s@[i as int].0.key == Some(ks@[j]));
                }
            }
        }
    }
    ks
}

/// The list of names that gives `names[i]` to `keys[i]`; when a keysym is
/// given twice, its last name counts.
pub fn key_names_from(keys: &Vec<u32>, names: &Vec<String>) -> (n: KeyNames)
    requires
        keys@.len() == names@.len(),
    ensures
        n.wf(),
        forall|i: int| 0 <= i < keys@.len() && (forall|j: int| i < j < keys@.len() ==> keys@[j] != keys@[i])
            ==> name_for(n@, #[trigger] keys@[i]) == names@[i]@,
        forall|k: u32| (forall|i: int| 0 <= i < keys@.len() ==> keys@[i] != k) ==> name_for(n@, k) == Seq::<char>::empty(),
{
    let mut n = KeyNames::new();
    proof {
        assert forall|k: u32| name_for(n@, k) == Seq::<char>::empty() by {}
    }
    for t in 0..keys.len()
        invariant
            n.wf(),
            keys@.len() == names@.len(),
            forall|i: int| 0 <= i < t && (forall|j: int| i < j < t ==> keys@[j] != keys@[i])
                ==> name_for(n@, #[trigger] keys@[i]) == names@[i]@,
            forall|k: u32| (forall|i: int| 0 <= i < t ==> keys@[i] != k) ==> name_for(n@, k) == Seq::<char>::empty(),
    {
        n.insert(keys[t], names[t].clone());
        assert forall|i: int| 0 <= i < t + 1 && (forall|j: int| i < j < t + 1 ==> keys@[j] != keys@[i])
            implies name_for(n@, #[trigger] keys@[i]) == names@[i]@ by {
            if i < t {
                assert(keys@[t as int] != keys@[i]);
            }
        }
        assert forall|k: u32| (forall|i: int| 0 <= i < t + 1 ==> keys@[i] != k) implies name_for(n@, k) == Seq::<char>::empty() by {
            assert(keys@[t as int] != k);
        }
    }
    n
}

} // verus!
