//! Grouping the rows of a shortcut table by action, in action order.

use vstd::prelude::*;
use super::action::{Action, ActionView, action_before, action_before_exec, duplicate_action, lemma_action_order, same_action};
use super::binding::{Binding, BindingView, KeyNames, binding_is_super, row_view};
use super::keys::{sort_key, sort_key_of};
use super::action::{chars_before, text_before};
use crate::text::chars_of;

verus! {

/// Whether a row is listed in the cheatsheet: disabled and debug entries are
/// not, and neither are keycode-only bindings (other than Super alone), which
/// cannot be shown meaningfully.
pub open spec fn shown(row: (BindingView, ActionView)) -> bool {
    &&& !(row.1 is Disable)
    &&& !(row.1 is Debug)
    &&& (row.0.key.is_some() || binding_is_super(row.0))
}

/// Whether every action of `list` comes before the ones after it.
pub open spec fn strictly_sorted(list: Seq<ActionView>) -> bool {
    forall|i: int, j: int| 0 <= i < j < list.len() ==> action_before(#[trigger] list[i], #[trigger] list[j])
}

/// `list` with `a` put in its place in action order (unchanged when `a` is
/// already its last element).
pub open spec fn insert_action(list: Seq<ActionView>, a: ActionView) -> Seq<ActionView>
    decreases list.len(),
{
    if list.len() == 0 {
        seq![a]
    } else if list.last() == a {
        list
    } else if action_before(list.last(), a) {
        list.push(a)
    } else {
        insert_action(list.drop_last(), a).push(list.last())
    }
}

/// The distinct actions of the first `k` rows that are shown, in action
/// order.
pub open spec fn ordered_actions(rows: Seq<(BindingView, ActionView)>, k: int) -> Seq<ActionView>
    decreases k,
{
    if k <= 0 {
        seq![]
    } else {
        let prev = ordered_actions(rows, k - 1);
        if shown(rows[k - 1]) {
            insert_action(prev, rows[k - 1].1)
        } else {
            prev
        }
    }
}

/// Positions, in order, of the first `k` rows that are shown and bound to
/// action `a`.
pub open spec fn members(rows: Seq<(BindingView, ActionView)>, k: int, a: ActionView) -> Seq<int>
    decreases k,
{
    if k <= 0 {
        seq![]
    } else {
        let prev = members(rows, k - 1, a);
        if shown(rows[k - 1]) && rows[k - 1].1 == a {
            prev.push(k - 1)
        } else {
            prev
        }
    }
}

/// Inserting into a strictly sorted list keeps it strictly sorted and adds
/// exactly the inserted action.
pub proof fn lemma_insert_action(list: Seq<ActionView>, a: ActionView)
    requires
        strictly_sorted(list),
    ensures
        strictly_sorted(insert_action(list, a)),
        forall|x: ActionView| #[trigger] insert_action(list, a).contains(x) <==> (list.contains(x) || x == a),
    decreases list.len(),
{
    if list.len() == 0 {
        assert(insert_action(list, a) =~= seq![a]);
        assert forall|x: ActionView| #[trigger] insert_action(list, a).contains(x) <==> (list.contains(x) || x == a) by {
            if insert_action(list, a).contains(x) {
                assert(insert_action(list, a)[0] == a);
            }
        }
    } else if list.last() == a {
    } else if action_before(list.last(), a) {
        let r = list.push(a);
        assert forall|i: int, j: int| 0 <= i < j < r.len() implies action_before(#[trigger] r[i], #[trigger] r[j]) by {
            if j == list.len() {
                if i < list.len() - 1 {
                    lemma_action_order(list[i], list.last(), a);
                }
            } else {
                assert(r[i] == list[i] && r[j] == list[j]);
            }
        }
        assert forall|x: ActionView| #[trigger] r.contains(x) <==> (list.contains(x) || x == a) by {
            if r.contains(x) {
                let i = choose|i: int| 0 <= i < r.len() && r[i] == x;
                if i < list.len() {
                    assert(list[i] == x);
                }
            }
            if list.contains(x) {
                let i = choose|i: int| 0 <= i < list.len() && list[i] == x;
                assert(r[i] == x);
            }
            if x == a {
                assert(r[list.len() as int] == x);
            }
        }
    } else {
        let d = list.drop_last();
        assert(strictly_sorted(d)) by {
            assert forall|i: int, j: int| 0 <= i < j < d.len() implies action_before(#[trigger] d[i], #[trigger] d[j]) by {
                assert(d[i] == list[i] && d[j] == list[j]);
            }
        }
        lemma_insert_action(d, a);
        let m = insert_action(d, a);
        let r = m.push(list.last());
        lemma_action_order(a, list.last(), a);
        assert(action_before(a, list.last()));
        assert forall|x: ActionView| #[trigger] r.contains(x) <==> (list.contains(x) || x == a) by {
            if r.contains(x) {
                let i = choose|i: int| 0 <= i < r.len() && r[i] == x;
                if i < m.len() {
                    assert(m[i] == x);
                    assert(m.contains(x));
                    if d.contains(x) {
                        let j = choose|j: int| 0 <= j < d.len() && d[j] == x;
                        assert(list[j] == x);
                    }
                } else {
                    assert(list[list.len() - 1] == x);
                }
            }
            if list.contains(x) {
                let i = choose|i: int| 0 <= i < list.len() && list[i] == x;
                if i < list.len() - 1 {
                    assert(d[i] == x);
                    assert(d.contains(x));
                    assert(m.contains(x));
                    let j = choose|j: int| 0 <= j < m.len() && m[j] == x;
                    assert(r[j] == x);
                } else {
                    assert(r[r.len() - 1] == x);
                }
            }
            if x == a {
                assert(m.contains(a));
                let j = choose|j: int| 0 <= j < m.len() && m[j] == a;
                assert(r[j] == x);
            }
        }
        assert forall|i: int, j: int| 0 <= i < j < r.len() implies action_before(#[trigger] r[i], #[trigger] r[j]) by {
            if j == m.len() {
                assert(m.contains(m[i]));
                if m[i] != a {
                    assert(d.contains(m[i]));
                    let t = choose|t: int| 0 <= t < d.len() && d[t] == m[i];
                    assert(list[t] == m[i]);
                    assert(action_before(list[t], list[list.len() - 1]));
                }
            } else {
                assert(r[i] == m[i] && r[j] == m[j]);
            }
        }
    }
}

/// The views of a vector of positions.
pub open spec fn positions(v: Seq<usize>) -> Seq<int> {
    v.map_values(|j: usize| j as int)
}

/// The rows of a table vector, as views.
pub open spec fn rows_view(v: Seq<(Binding, Action)>) -> Seq<(BindingView, ActionView)> {
    v.map_values(|p: (Binding, Action)| row_view(p))
}

/// Whether a row of the table is shown.
fn row_shown(row: &(Binding, Action)) -> (r: bool)
    ensures
        r == shown(row_view(*row)),
{
    let b = &row.0;
    match &row.1 {
        Action::Disable | Action::Debug => false,
        _ => b.key.is_some() || b.is_super(),
    }
}

/// The rows grouped by action: one group per distinct action of the shown
/// rows, in action order, each with the positions of its rows in table
/// order.
pub fn group_by_action(rows: &Vec<(Binding, Action)>) -> (groups: Vec<(Action, Vec<usize>)>)
    ensures
        groups@.len() == ordered_actions(rows_view(rows@), rows@.len() as int).len(),
        forall|g: int|
            0 <= g < groups@.len() ==> (#[trigger] groups@[g]).0@ == ordered_actions(rows_view(rows@), rows@.len() as int)[g]
                && positions(groups@[g].1@) == members(rows_view(rows@), rows@.len() as int, groups@[g].0@),
{
    let ghost rv = rows_view(rows@);
    let mut groups: Vec<(Action, Vec<usize>)> = Vec::new();
    let mut k: usize = 0;
    while k < rows.len()
        invariant
            rv == rows_view(rows@),
            k <= rows@.len(),
            strictly_sorted(ordered_actions(rv, k as int)),
            groups@.len() == ordered_actions(rv, k as int).len(),
            forall|g: int|
                0 <= g < groups@.len() ==> (#[trigger] groups@[g]).0@ == ordered_actions(rv, k as int)[g]
                    && positions(groups@[g].1@) == members(rv, k as int, groups@[g].0@),
            forall|x: ActionView| !ordered_actions(rv, k as int).contains(x) ==> #[trigger] members(rv, k as int, x).len() == 0,
        decreases rows@.len() - k,
    {
        let ghost list = ordered_actions(rv, k as int);
        let ghost row = rv[k as int];
        assert(row == row_view(rows@[k as int]));
        if row_shown(&rows[k]) {
            let a = &rows[k].1;
            assert(a@ == row.1);
            proof {
                lemma_insert_action(list, a@);
            }
            let mut i = groups.len();
            assert(list.take(list.len() as int) =~= list);
            assert(insert_action(list, a@) + list.skip(list.len() as int) =~= insert_action(list, a@));
            while i > 0 && !same_action(&groups[i - 1].0, a) && !action_before_exec(&groups[i - 1].0, a)
                invariant
                    i <= groups@.len(),
                    groups@.len() == list.len(),
                    forall|g: int| 0 <= g < groups@.len() ==> (#[trigger] groups@[g]).0@ == list[g],
                    insert_action(list, a@) == insert_action(list.take(i as int), a@) + list.skip(i as int),
                    forall|j: int| i <= j < list.len() ==> list[j] != a@ && !action_before(#[trigger] list[j], a@),
                decreases i,
            {
                let ghost t = list.take(i as int);
                assert(t.last() == list[i - 1]);
                assert(t.drop_last() =~= list.take(i - 1));
                assert(insert_action(t, a@) == insert_action(list.take(i - 1), a@).push(list[i - 1]));
                assert(insert_action(list.take(i - 1), a@).push(list[i - 1]) + list.skip(i as int) =~= insert_action(list.take(i - 1), a@) + list.skip(i - 1));
                i = i - 1;
            }
            let ghost new_list = ordered_actions(rv, k + 1);
            assert(new_list == insert_action(list, a@));
            if i > 0 && same_action(&groups[i - 1].0, a) {
                let ghost t = list.take(i as int);
                assert(t.last() == a@);
                assert(insert_action(t, a@) == t);
                assert(t + list.skip(i as int) =~= list);
                // the group of `a` gets row `k`
                let (act, mut idx) = groups.remove(i - 1);
                idx.push(k);
                groups.insert(i - 1, (act, idx));
                proof {
                    assert forall|g: int| 0 <= g < groups@.len() implies (#[trigger] groups@[g]).0@ == new_list[g]
                        && positions(groups@[g].1@) == members(rv, k + 1, groups@[g].0@) by {
                        if g == i - 1 {
                            assert(positions(groups@[g].1@) =~= positions(idx@));
                        } else {
                            assert(list[g] != list[i - 1]) by {
                                if g < i - 1 {
                                    assert(action_before(list[g], list[i - 1]));
                                } else {
                                    assert(action_before(list[i - 1], list[g]));
                                }
                                lemma_action_order(list[g], list[g], list[g]);
                            }
                        }
                    }
                    assert forall|x: ActionView| !new_list.contains(x) implies #[trigger] members(rv, k + 1, x).len() == 0 by {
                        assert(x != a@) by {
                            assert(new_list[i - 1] == a@);
                        }
                        assert(!list.contains(x));
                        assert(members(rv, (k + 1) as int, x) == members(rv, k as int, x));
                    }
                }
            } else {
                let ghost t = list.take(i as int);
                assert(insert_action(t, a@) == t.push(a@)) by {
                    if i > 0 {
                        assert(t.last() == list[i - 1]);
                    }
                }
                assert(!list.contains(a@)) by {
                    if list.contains(a@) {
                        let j = choose|j: int| 0 <= j < list.len() && list[j] == a@;
                        if j < i {
                            assert(action_before(list[i - 1], a@) || list[i - 1] == a@) by {
                                lemma_action_order(list[i - 1], a@, a@);
                            }
                            if j < i - 1 {
                                assert(action_before(list[j], list[i - 1]));
                                lemma_action_order(a@, list[i - 1], a@);
                            }
                        }
                    }
                }
                assert(members(rv, k as int, a@).len() == 0);
                let mut idx: Vec<usize> = Vec::new();
                idx.push(k);
                let act = duplicate_action(a);
                groups.insert(i, (act, idx));
                proof {
                    assert(new_list =~= list.take(i as int).push(a@) + list.skip(i as int));
                    assert forall|g: int| 0 <= g < groups@.len() implies (#[trigger] groups@[g]).0@ == new_list[g]
                        && positions(groups@[g].1@) == members(rv, k + 1, groups@[g].0@) by {
                        if g == i {
                            assert(members(rv, k + 1, a@) =~= seq![k as int]);
                            assert(positions(groups@[g].1@) =~= seq![k as int]);
                        }
                    }
                    assert forall|x: ActionView| !new_list.contains(x) implies #[trigger] members(rv, k + 1, x).len() == 0 by {
                        assert(x != a@) by {
                            assert(new_list[i as int] == a@);
                        }
                        assert(insert_action(list, a@).contains(x) == (list.contains(x) || x == a@));
                        assert(!list.contains(x));
                        assert(members(rv, (k + 1) as int, x) == members(rv, k as int, x));
                    }
                }
            }
        } else {
            proof {
                assert forall|g: int| 0 <= g < groups@.len() implies (#[trigger] groups@[g]).0@ == ordered_actions(rv, k + 1)[g]
                    && positions(groups@[g].1@) == members(rv, k + 1, groups@[g].0@) by {
                }
                assert forall|x: ActionView| !ordered_actions(rv, k + 1).contains(x) implies #[trigger] members(rv, k + 1, x).len() == 0 by {
                    assert(ordered_actions(rv, (k + 1) as int) == list);
                    assert(members(rv, (k + 1) as int, x) == members(rv, k as int, x));
                }
            }
        }
        k = k + 1;
    }
    groups
}

/// Strict order of binding sort keys: arrow keys first, then fewer
/// modifiers, then key name.
pub open spec fn key_before(k1: (int, int, Seq<char>), k2: (int, int, Seq<char>)) -> bool {
    ||| k1.0 < k2.0
    ||| k1.0 == k2.0 && k1.1 < k2.1
    ||| k1.0 == k2.0 && k1.1 == k2.1 && text_before(k1.2, k2.2)
}

/// `sorted` with `b` put after every binding whose key does not come after
/// its own (so that bindings with equal keys keep their order).
pub open spec fn insert_by_key(sorted: Seq<BindingView>, b: BindingView, names: Seq<(u32, Seq<char>)>) -> Seq<BindingView>
    decreases sorted.len(),
{
    if sorted.len() == 0 {
        seq![b]
    } else if !key_before(sort_key_of(b, names), sort_key_of(sorted.last(), names)) {
        sorted.push(b)
    } else {
        insert_by_key(sorted.drop_last(), b, names).push(sorted.last())
    }
}

/// The bindings in the stable order of their sort keys (the order
/// `slice::sort_by_key` gives them).
pub open spec fn sorted_by_key(bs: Seq<BindingView>, names: Seq<(u32, Seq<char>)>) -> Seq<BindingView>
    decreases bs.len(),
{
    if bs.len() == 0 {
        seq![]
    } else {
        insert_by_key(sorted_by_key(bs.drop_last(), names), bs.last(), names)
    }
}

/// The bindings of the rows at the given positions.
pub open spec fn bindings_at(rows: Seq<(BindingView, ActionView)>, idx: Seq<int>) -> Seq<BindingView> {
    idx.map_values(|j: int| rows[j].0)
}

/// The views of a stored sort key.
pub open spec fn key_view(k: (u8, usize, Vec<char>)) -> (int, int, Seq<char>) {
    (k.0 as int, k.1 as int, k.2@)
}

fn key_before_exec(k1: &(u8, usize, Vec<char>), k2: &(u8, usize, Vec<char>)) -> (r: bool)
    ensures
        r == key_before(key_view(*k1), key_view(*k2)),
{
    if k1.0 != k2.0 {
        return k1.0 < k2.0;
    }
    if k1.1 != k2.1 {
        return k1.1 < k2.1;
    }
    chars_before(&k1.2, &k2.2)
}

/// The positions `idx` ordered so that their bindings are in stable sort-key
/// order.
#[verifier::spinoff_prover]
#[verifier::rlimit(40)]
pub fn sort_members(rows: &Vec<(Binding, Action)>, names: &KeyNames, idx: &Vec<usize>) -> (out: Vec<usize>)
    requires
        names.wf(),
        forall|t: int| 0 <= t < idx@.len() ==> #[trigger] idx@[t] < rows@.len(),
    ensures
        forall|t: int| 0 <= t < out@.len() ==> #[trigger] out@[t] < rows@.len(),
        bindings_at(rows_view(rows@), positions(out@)) == sorted_by_key(bindings_at(rows_view(rows@), positions(idx@)), names@),
{
    let ghost rv = rows_view(rows@);
    let mut out: Vec<usize> = Vec::new();
    let mut keys: Vec<(u8, usize, Vec<char>)> = Vec::new();
    for t in 0..idx.len()
        invariant
            rv == rows_view(rows@),
            names.wf(),
            forall|q: int| 0 <= q < idx@.len() ==> #[trigger] idx@[q] < rows@.len(),
            forall|q: int| 0 <= q < out@.len() ==> #[trigger] out@[q] < rows@.len(),
            keys@.len() == out@.len(),
            forall|q: int| 0 <= q < keys@.len() ==> key_view(#[trigger] keys@[q]) == sort_key_of(rv[out@[q] as int].0, names@),
            bindings_at(rv, positions(out@)) == sorted_by_key(bindings_at(rv, positions(idx@.take(t as int))), names@),
    {
        let j = idx[t];
        let ghost b = rv[j as int].0;
        assert(row_view(rows@[j as int]) == rv[j as int]);
        let (a, c, name) = sort_key(&rows[j].0, names);
        let nv = chars_of(name.as_str());
        let key = (a, c, nv);
        assert(key_view(key) == sort_key_of(b, names@));
        let ghost sorted = bindings_at(rv, positions(out@));
        let mut i = out.len();
        assert(sorted.take(sorted.len() as int) =~= sorted);
        assert(insert_by_key(sorted, b, names@) + sorted.skip(sorted.len() as int) =~= insert_by_key(sorted, b, names@));
        while i > 0 && key_before_exec(&key, &keys[i - 1])
            invariant
                i <= out@.len(),
                keys@.len() == out@.len(),
                sorted.len() == out@.len(),
                forall|q: int| 0 <= q < keys@.len() ==> key_view(#[trigger] keys@[q]) == sort_key_of(sorted[q], names@),
                key_view(key) == sort_key_of(b, names@),
                insert_by_key(sorted, b, names@) == insert_by_key(sorted.take(i as int), b, names@) + sorted.skip(i as int),
            decreases i,
        {
            let ghost tk = sorted.take(i as int);
            assert(tk.last() == sorted[i - 1]);
            assert(tk.drop_last() =~= sorted.take(i - 1));
            assert(key_view(keys@[i - 1]) == sort_key_of(sorted[i - 1], names@));
            assert(insert_by_key(tk, b, names@) == insert_by_key(sorted.take(i - 1), b, names@).push(sorted[i - 1]));
            assert(insert_by_key(sorted.take(i - 1), b, names@).push(sorted[i - 1]) + sorted.skip(i as int) =~= insert_by_key(sorted.take(i - 1), b, names@) + sorted.skip(i - 1));
            i = i - 1;
        }
        proof {
            let tk = sorted.take(i as int);
            if i > 0 {
                assert(tk.last() == sorted[i - 1]);
                assert(key_view(keys@[i - 1]) == sort_key_of(sorted[i - 1], names@));
                assert(insert_by_key(tk, b, names@) == tk.push(b));
            } else {
                assert(insert_by_key(tk, b, names@) == seq![b]);
                assert(tk.push(b) =~= seq![b]);
            }
        }
        let ghost old_out = out@;
        let ghost old_keys = keys@;
        out.insert(i, j);
        keys.insert(i, key);
        proof {
            assert(idx@.take(t + 1).drop_last() =~= idx@.take(t as int));
            assert(positions(idx@.take(t + 1)) =~= positions(idx@.take(t as int)).push(j as int));
            assert(bindings_at(rv, positions(idx@.take(t + 1))) =~= bindings_at(rv, positions(idx@.take(t as int))).push(b));
            assert(bindings_at(rv, positions(out@)) =~= sorted.take(i as int).push(b) + sorted.skip(i as int));
            let xs = bindings_at(rv, positions(idx@.take(t as int)));
            assert(xs.push(b).drop_last() =~= xs);
            assert(sorted_by_key(xs.push(b), names@) == insert_by_key(sorted_by_key(xs, names@), b, names@));
            assert(insert_by_key(sorted, b, names@) == sorted.take(i as int).push(b) + sorted.skip(i as int));
            assert forall|q: int| 0 <= q < out@.len() implies #[trigger] out@[q] < rows@.len() by {
                if q < i {
                    assert(out@[q] == old_out[q]);
                } else if q > i {
                    assert(out@[q] == old_out[q - 1]);
                }
            }
            assert forall|q: int| 0 <= q < keys@.len() implies key_view(#[trigger] keys@[q]) == sort_key_of(rv[out@[q] as int].0, names@) by {
                if q < i {
                    assert(keys@[q] == old_keys[q] && out@[q] == old_out[q]);
                    assert(sorted[q] == rv[old_out[q] as int].0);
                } else if q > i {
                    assert(keys@[q] == old_keys[q - 1] && out@[q] == old_out[q - 1]);
                    assert(sorted[q - 1] == rv[old_out[q - 1] as int].0);
                }
            }
        }
    }
    assert(idx@.take(idx@.len() as int) =~= idx@);
    out
}

} // verus!
