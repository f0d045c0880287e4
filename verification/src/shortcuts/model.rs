//! The categorised cheatsheet built from a shortcut table.

use vstd::prelude::*;
use super::action::{Action, ActionView};
use super::binding::{
    Binding, BindingView, KeyNames, Shortcuts, SystemActions, command_for, opt_text, row_view,
};
use super::categories::{CategoryKind, category_of, category_of_view, kind_rank};
use super::group::{
    bindings_at, group_by_action, members, ordered_actions, positions, rows_view, sort_members,
    sorted_by_key,
};
use super::keys::{chip_texts, chips, texts};
use super::localize::{action_label, action_label_text, category_title, category_title_text};
use crate::text::{blank, is_blank, lowercase_of, to_lowercase};

verus! {

/// One row of the cheatsheet: an action and all key combinations bound to it.
#[derive(Debug, Clone)]
pub struct Entry {
    pub action: Action,
    pub label: String,
    /// Each inner vec is one key combination rendered as chips, e.g.
    /// `["Super", "Shift", "←"]`.
    pub bindings: Vec<Vec<String>>,
    /// Shell command that performs this action, when one exists (system
    /// actions and custom `Spawn` bindings). Compositor-internal actions such
    /// as focus or workspace switching have none and cannot be triggered.
    pub command: Option<String>,
    /// Lower-cased text used by [`CheatsheetModel::search`]: label, category,
    /// key chips and command, space-separated.
    pub search_text: String,
}

/// The mathematical value of an [`Entry`].
pub struct EntryView {
    pub action: ActionView,
    pub label: Seq<char>,
    pub bindings: Seq<Seq<Seq<char>>>,
    pub command: Option<Seq<char>>,
    pub search_text: Seq<char>,
}

/// The chips of each key combination.
pub open spec fn chip_rows(v: Seq<Vec<String>>) -> Seq<Seq<Seq<char>>> {
    v.map_values(|c: Vec<String>| texts(c@))
}

impl View for Entry {
    type V = EntryView;

    open spec fn view(&self) -> EntryView {
        EntryView {
            action: self.action@,
            label: self.label@,
            bindings: chip_rows(self.bindings@),
            command: opt_text(self.command),
            search_text: self.search_text@,
        }
    }
}

/// A titled group of entries.
#[derive(Debug, Clone)]
pub struct Category {
    pub kind: CategoryKind,
    pub title: String,
    pub entries: Vec<Entry>,
}

/// The mathematical value of a [`Category`].
pub struct CategoryView {
    pub kind: CategoryKind,
    pub title: Seq<char>,
    pub entries: Seq<EntryView>,
}

/// The views of a vector of entries.
pub open spec fn entry_views(v: Seq<Entry>) -> Seq<EntryView> {
    v.map_values(|e: Entry| e@)
}

impl View for Category {
    type V = CategoryView;

    open spec fn view(&self) -> CategoryView {
        CategoryView { kind: self.kind, title: self.title@, entries: entry_views(self.entries@) }
    }
}

/// The whole cheatsheet.
#[derive(Debug, Clone)]
pub struct CheatsheetModel {
    pub categories: Vec<Category>,
}

/// The views of a vector of categories.
pub open spec fn category_views(v: Seq<Category>) -> Seq<CategoryView> {
    v.map_values(|c: Category| c@)
}

impl Default for CheatsheetModel {
    /// The cheatsheet with no section.
    fn default() -> (m: CheatsheetModel)
        ensures
            m@ == Seq::<CategoryView>::empty(),
    {
        let m = CheatsheetModel { categories: Vec::new() };
        assert(m@ =~= Seq::<CategoryView>::empty());
        m
    }
}

impl View for CheatsheetModel {
    type V = Seq<CategoryView>;

    open spec fn view(&self) -> Seq<CategoryView> {
        category_views(self.categories@)
    }
}

/// The command behind an action: the configured command of a system action,
/// the command of a `Spawn`; none for other actions, nor when it is blank.
pub open spec fn command_of_action(a: ActionView, sys: Seq<Option<Seq<char>>>) -> Option<Seq<char>> {
    let c = match a {
        ActionView::System(s) => command_for(sys, s),
        ActionView::Spawn(c) => Some(c),
        _ => None,
    };
    match c {
        Some(t) => if is_blank(t) {
            None
        } else {
            Some(t)
        },
        None => None,
    }
}

/// Each text lower-cased and preceded by a space.
pub open spec fn spaced_lower(list: Seq<Seq<char>>) -> Seq<char>
    decreases list.len(),
{
    if list.len() == 0 {
        seq![]
    } else {
        spaced_lower(list.drop_last()) + seq![' '] + lowercase_of(list.last())
    }
}

/// The chips of every key combination, each lower-cased and preceded by a
/// space.
pub open spec fn spaced_chips(rows: Seq<Seq<Seq<char>>>) -> Seq<char>
    decreases rows.len(),
{
    if rows.len() == 0 {
        seq![]
    } else {
        spaced_chips(rows.drop_last()) + spaced_lower(rows.last())
    }
}

/// The lower-cased text searched for an entry: label, category title, key
/// chips and command, space-separated.
pub open spec fn search_text_of(
    label: Seq<char>,
    title: Seq<char>,
    rows: Seq<Seq<Seq<char>>>,
    command: Option<Seq<char>>,
) -> Seq<char> {
    lowercase_of(label) + seq![' '] + lowercase_of(title) + spaced_chips(rows) + match command {
        Some(c) => seq![' '] + lowercase_of(c),
        None => seq![],
    }
}

/// The bindings of action `a` among the shown rows, in stable sort-key order.
pub open spec fn action_bindings(
    rows: Seq<(BindingView, ActionView)>,
    names: Seq<(u32, Seq<char>)>,
    a: ActionView,
) -> Seq<BindingView> {
    sorted_by_key(bindings_at(rows, members(rows, rows.len() as int, a)), names)
}

/// The chips of each binding.
pub open spec fn binding_chips(bs: Seq<BindingView>, names: Seq<(u32, Seq<char>)>) -> Seq<Seq<Seq<char>>> {
    bs.map_values(|b: BindingView| chip_texts(b, names))
}

/// The cheatsheet row of action `a` in a section titled `title`.
pub open spec fn entry_of(
    rows: Seq<(BindingView, ActionView)>,
    sys: Seq<Option<Seq<char>>>,
    names: Seq<(u32, Seq<char>)>,
    a: ActionView,
    title: Seq<char>,
) -> EntryView {
    let bs = action_bindings(rows, names, a);
    let label = action_label_text(a, if bs.len() > 0 { bs[0].description } else { None });
    let chips = binding_chips(bs, names);
    let command = command_of_action(a, sys);
    EntryView {
        action: a,
        label,
        bindings: chips,
        command,
        search_text: search_text_of(label, title, chips, command),
    }
}

/// Whether an action belongs to section `k`.
pub open spec fn of_kind(k: CategoryKind) -> spec_fn(ActionView) -> bool {
    |a: ActionView| category_of_view(a) == k
}

/// The cheatsheet row of an action in a section titled `title`.
pub open spec fn entry_maker(
    rows: Seq<(BindingView, ActionView)>,
    sys: Seq<Option<Seq<char>>>,
    names: Seq<(u32, Seq<char>)>,
    title: Seq<char>,
) -> spec_fn(ActionView) -> EntryView {
    |a: ActionView| entry_of(rows, sys, names, a, title)
}

/// The section of a kind.
pub open spec fn category_maker(
    rows: Seq<(BindingView, ActionView)>,
    sys: Seq<Option<Seq<char>>>,
    names: Seq<(u32, Seq<char>)>,
) -> spec_fn(CategoryKind) -> CategoryView {
    |k: CategoryKind| category_of_kind(rows, sys, names, k)
}

/// The section of kind `k`.
pub open spec fn category_of_kind(
    rows: Seq<(BindingView, ActionView)>,
    sys: Seq<Option<Seq<char>>>,
    names: Seq<(u32, Seq<char>)>,
    k: CategoryKind,
) -> CategoryView {
    let title = category_title_text(k);
    CategoryView {
        kind: k,
        title,
        entries: ordered_actions(rows, rows.len() as int).filter(of_kind(k)).map_values(
            entry_maker(rows, sys, names, title),
        ),
    }
}

/// The sections in display order.
pub open spec fn all_kinds() -> Seq<CategoryKind> {
    seq![
        CategoryKind::Navigation,
        CategoryKind::ManageWindows,
        CategoryKind::MoveWindows,
        CategoryKind::WindowTiling,
        CategoryKind::System,
        CategoryKind::Accessibility,
        CategoryKind::Custom,
        CategoryKind::Other,
    ]
}

/// Whether section `k` has at least one row.
pub open spec fn kind_used(rows: Seq<(BindingView, ActionView)>) -> spec_fn(CategoryKind) -> bool {
    |k: CategoryKind| ordered_actions(rows, rows.len() as int).filter(of_kind(k)).len() > 0
}

/// The cheatsheet of a shortcut table: every section that has rows, in
/// display order; in each, one row per shown action of that section, in
/// action order.
pub open spec fn cheatsheet_of(
    rows: Seq<(BindingView, ActionView)>,
    sys: Seq<Option<Seq<char>>>,
    names: Seq<(u32, Seq<char>)>,
) -> Seq<CategoryView> {
    all_kinds().filter(kind_used(rows)).map_values(category_maker(rows, sys, names))
}

/// The command behind an action, if it has a non-blank one.
fn command_exec(action: &Action, system_actions: &SystemActions) -> (r: Option<String>)
    requires
        system_actions.wf(),
    ensures
        opt_text(r) == command_of_action(action@, system_actions@),
{
    let c: Option<String> = match action {
        Action::System(s) => match system_actions.get(*s) {
            Some(c) => Some(c.clone()),
            None => None,
        },
        Action::Spawn(c) => Some(c.clone()),
        _ => None,
    };
    match c {
        Some(t) => {
            if blank(t.as_str()) {
                None
            } else {
                Some(t)
            }
        },
        None => None,
    }
}

/// Append each chip of `chips`, lower-cased and preceded by a space.
fn append_spaced_lower(text: &mut String, chips: &Vec<String>)
    ensures
        final(text)@ == old(text)@ + spaced_lower(texts(chips@)),
{
    let ghost l = texts(chips@);
    let ghost start = text@;
    for i in 0..chips.len()
        invariant
            l == texts(chips@),
            text@ == start + spaced_lower(l.take(i as int)),
    {
        assert(l.take(i + 1).drop_last() =~= l.take(i as int));
        text.append(" ");
        let lower = to_lowercase(chips[i].as_str());
        text.append(lower.as_str());
        proof {
            reveal_strlit(" ");
            assert(text@ =~= start + spaced_lower(l.take(i + 1)));
        }
    }
    assert(l.take(chips@.len() as int) =~= l);
}

/// The lower-cased text searched for an entry: label, category title, key
/// chips and command, space-separated.
pub fn search_text(label: &String, title: &String, bindings: &Vec<Vec<String>>, command: &Option<String>) -> (s: String)
    ensures
        s@ == search_text_of(label@, title@, chip_rows(bindings@), opt_text(*command)),
{
    let ghost rows = chip_rows(bindings@);
    let mut text = to_lowercase(label.as_str());
    text.append(" ");
    let t = to_lowercase(title.as_str());
    text.append(t.as_str());
    proof {
        reveal_strlit(" ");
    }
    let ghost start = text@;
    assert(start == lowercase_of(label@) + seq![' '] + lowercase_of(title@));
    for i in 0..bindings.len()
        invariant
            rows == chip_rows(bindings@),
            text@ == start + spaced_chips(rows.take(i as int)),
    {
        assert(rows.take(i + 1).drop_last() =~= rows.take(i as int));
        let ghost before = text@;
        append_spaced_lower(&mut text, &bindings[i]);
        assert(text@ =~= start + spaced_chips(rows.take(i + 1)));
    }
    assert(rows.take(bindings@.len() as int) =~= rows);
    let ghost mid = text@;
    match command {
        Some(c) => {
            text.append(" ");
            let lc = to_lowercase(c.as_str());
            text.append(lc.as_str());
            assert(text@ =~= mid + (seq![' '] + lowercase_of(c@)));
        },
        None => {
            assert(text@ =~= mid + Seq::<char>::empty());
        },
    }
    text
}

/// The chips of the bindings of the rows at the given positions.
fn chips_of_rows(rows: &Vec<(Binding, Action)>, names: &KeyNames, idx: &Vec<usize>) -> (r: Vec<Vec<String>>)
    requires
        names.wf(),
        forall|t: int| 0 <= t < idx@.len() ==> #[trigger] idx@[t] < rows@.len(),
    ensures
        chip_rows(r@) == binding_chips(bindings_at(rows_view(rows@), positions(idx@)), names@),
{
    let ghost bs = bindings_at(rows_view(rows@), positions(idx@));
    let mut r: Vec<Vec<String>> = Vec::new();
    for i in 0..idx.len()
        invariant
            names.wf(),
            bs == bindings_at(rows_view(rows@), positions(idx@)),
            forall|t: int| 0 <= t < idx@.len() ==> #[trigger] idx@[t] < rows@.len(),
            chip_rows(r@) == binding_chips(bs.take(i as int), names@),
            r@.len() == i,
            bs.len() == idx@.len(),
    {
        let j = idx[i];
        assert(row_view(rows@[j as int]) == rows_view(rows@)[j as int]);
        assert(positions(idx@)[i as int] == j as int);
        assert(bs[i as int] == rows@[j as int].0@);
        let c = chips(&rows[j].0, names);
        let ghost old_r = r@;
        r.push(c);
        assert forall|q: int| 0 <= q < r@.len() implies #[trigger] chip_rows(r@)[q] == binding_chips(bs.take(i + 1), names@)[q] by {
            if q < i {
                assert(r@[q] == old_r[q]);
                assert(chip_rows(old_r)[q] == binding_chips(bs.take(i as int), names@)[q]);
                assert(bs.take(i as int)[q] == bs.take(i + 1)[q]);
            } else {
                assert(r@[q] == c);
                assert(bs.take(i + 1)[q] == bs[i as int]);
            }
        }
        assert(chip_rows(r@) =~= binding_chips(bs.take(i + 1), names@));
    }
    assert(bs.take(idx@.len() as int) =~= bs);
    r
}

/// The cheatsheet row for `action`, whose rows are at positions `idx`.
fn build_entry(
    rows: &Vec<(Binding, Action)>,
    system_actions: &SystemActions,
    names: &KeyNames,
    action: &Action,
    idx: &Vec<usize>,
    title: &String,
) -> (e: Entry)
    requires
        names.wf(),
        system_actions.wf(),
        positions(idx@) == members(rows_view(rows@), rows@.len() as int, action@),
        forall|t: int| 0 <= t < idx@.len() ==> #[trigger] idx@[t] < rows@.len(),
    ensures
        e@ == entry_of(rows_view(rows@), system_actions@, names@, action@, title@),
{
    let ghost rv = rows_view(rows@);
    let sorted = sort_members(rows, names, idx);
    let ghost bs = action_bindings(rv, names@, action@);
    assert(bindings_at(rv, positions(sorted@)) == bs);
    let bindings = chips_of_rows(rows, names, &sorted);
    let label = if sorted.len() > 0 {
        let first = &rows[sorted[0]].0;
        assert(row_view(rows@[sorted@[0] as int]) == rv[sorted@[0] as int]);
        assert(bs[0] == first@);
        action_label(action, Some(first))
    } else {
        action_label(action, None)
    };
    let command = command_exec(action, system_actions);
    let text = search_text(&label, title, &bindings, &command);
    let e = Entry {
        action: super::action::duplicate_action(action),
        label,
        bindings,
        command,
        search_text: text,
    };
    e
}

/// All positions in `members(rows, k, a)` are below `k`.
proof fn lemma_members_below(rows: Seq<(BindingView, ActionView)>, k: int, a: ActionView)
    ensures
        forall|t: int| 0 <= t < members(rows, k, a).len() ==> 0 <= #[trigger] members(rows, k, a)[t] < k,
    decreases k,
{
    if k > 0 {
        lemma_members_below(rows, k - 1, a);
        let p = members(rows, k - 1, a);
        assert forall|t: int| 0 <= t < members(rows, k, a).len() implies 0 <= #[trigger] members(rows, k, a)[t] < k by {
            if t < p.len() {
                assert(members(rows, k, a)[t] == p[t]);
            }
        }
    }
}

/// The sections in display order.
fn kind_list() -> (v: Vec<CategoryKind>)
    ensures
        v@ == all_kinds(),
{
    let v = vec![
        CategoryKind::Navigation,
        CategoryKind::ManageWindows,
        CategoryKind::MoveWindows,
        CategoryKind::WindowTiling,
        CategoryKind::System,
        CategoryKind::Accessibility,
        CategoryKind::Custom,
        CategoryKind::Other,
    ];
    assert(v@ =~= all_kinds());
    v
}

/// The rows of section `k`, in action order.
fn entries_of_kind(
    rows: &Vec<(Binding, Action)>,
    system_actions: &SystemActions,
    names: &KeyNames,
    groups: &Vec<(Action, Vec<usize>)>,
    k: CategoryKind,
) -> (r: Vec<Entry>)
    requires
        names.wf(),
        system_actions.wf(),
        groups@.len() == ordered_actions(rows_view(rows@), rows@.len() as int).len(),
        forall|g: int|
            0 <= g < groups@.len() ==> (#[trigger] groups@[g]).0@ == ordered_actions(rows_view(rows@), rows@.len() as int)[g]
                && positions(groups@[g].1@) == members(rows_view(rows@), rows@.len() as int, groups@[g].0@),
    ensures
        entry_views(r@) == ordered_actions(rows_view(rows@), rows@.len() as int).filter(of_kind(k)).map_values(
            entry_maker(rows_view(rows@), system_actions@, names@, category_title_text(k)),
        ),
{
    let ghost rv = rows_view(rows@);
    let ghost acts = ordered_actions(rv, rows@.len() as int);
    let ghost make = entry_maker(rv, system_actions@, names@, category_title_text(k));
    let title = category_title(k);
    let mut r: Vec<Entry> = Vec::new();
    for g in 0..groups.len()
        invariant
            names.wf(),
            system_actions.wf(),
            rv == rows_view(rows@),
            acts == ordered_actions(rv, rows@.len() as int),
            make == entry_maker(rv, system_actions@, names@, category_title_text(k)),
            title@ == category_title_text(k),
            groups@.len() == acts.len(),
            forall|q: int|
                0 <= q < groups@.len() ==> (#[trigger] groups@[q]).0@ == acts[q]
                    && positions(groups@[q].1@) == members(rv, rows@.len() as int, groups@[q].0@),
            entry_views(r@) == acts.take(g as int).filter(of_kind(k)).map_values(make),
    {
        let a = &groups[g].0;
        let ghost x = acts[g as int];
        assert(a@ == x);
        proof {
            assert(acts.take(g + 1) =~= acts.take(g as int).push(x));
            acts.take(g as int).lemma_filter_push(x, of_kind(k));
        }
        if category_of(a) == k {
            proof {
                lemma_members_below(rv, rows@.len() as int, x);
                assert forall|t: int| 0 <= t < groups@[g as int].1@.len() implies #[trigger] groups@[g as int].1@[t] < rows@.len() by {
                    assert(positions(groups@[g as int].1@)[t] == groups@[g as int].1@[t] as int);
                }
            }
            let e = build_entry(rows, system_actions, names, a, &groups[g].1, &title);
            let ghost old_r = r@;
            r.push(e);
            assert(entry_views(r@) =~= entry_views(old_r).push(make(x)));
            assert(acts.take(g as int).filter(of_kind(k)).push(x).map_values(make) =~= acts.take(g as int).filter(of_kind(k)).map_values(make).push(make(x)));
        }
    }
    assert(acts.take(groups@.len() as int) =~= acts);
    r
}

impl CheatsheetModel {
    /// The cheatsheet of a shortcut table (in the order the table is walked)
    /// plus the commands behind system actions, with keys named by `names`.
    pub fn from_shortcuts(shortcuts: &Shortcuts, system_actions: &SystemActions, names: &KeyNames) -> (m: CheatsheetModel)
        requires
            system_actions.wf(),
            names.wf(),
        ensures
            m@ == cheatsheet_of(shortcuts@, system_actions@, names@),
    {
        let rows = shortcuts.rows();
        let ghost rv = rows_view(rows@);
        assert(rv == shortcuts@);
        let groups = group_by_action(rows);
        let kinds = kind_list();
        let ghost make = category_maker(rv, system_actions@, names@);
        let mut categories: Vec<Category> = Vec::new();
        for r in 0..kinds.len()
            invariant
                names.wf(),
                system_actions.wf(),
                rv == rows_view(rows@),
                kinds@ == all_kinds(),
                make == category_maker(rv, system_actions@, names@),
                groups@.len() == ordered_actions(rv, rows@.len() as int).len(),
                forall|g: int|
                    0 <= g < groups@.len() ==> (#[trigger] groups@[g]).0@ == ordered_actions(rv, rows@.len() as int)[g]
                        && positions(groups@[g].1@) == members(rv, rows@.len() as int, groups@[g].0@),
                category_views(categories@) == all_kinds().take(r as int).filter(kind_used(rv)).map_values(make),
        {
            let k = kinds[r];
            let entries = entries_of_kind(rows, system_actions, names, &groups, k);
            let ghost used = kind_used(rv)(k);
            assert(rv.len() == rows@.len());
            assert(entry_views(entries@).len() == entries@.len());
            assert(used == (ordered_actions(rv, rows@.len() as int).filter(of_kind(k)).len() > 0));
            proof {
                assert(all_kinds().take(r + 1) =~= all_kinds().take(r as int).push(k));
                all_kinds().take(r as int).lemma_filter_push(k, kind_used(rv));
            }
            if entries.len() > 0 {
                assert(used);
                let title = category_title(k);
                let c = Category { kind: k, title, entries };
                let ghost old_c = categories@;
                assert(c@ == make(k));
                categories.push(c);
                assert(category_views(categories@) =~= category_views(old_c).push(make(k)));
                assert(all_kinds().take(r as int).filter(kind_used(rv)).push(k).map_values(make) =~= all_kinds().take(r as int).filter(kind_used(rv)).map_values(make).push(make(k)));
            } else {
                assert(!used);
            }
        }
        assert(all_kinds().take(8) =~= all_kinds());
        CheatsheetModel { categories }
    }
}

} // verus!
