//! What holds of every cheatsheet built from a shortcut table.

use vstd::prelude::*;
use super::action::{
    ActionView, action_before, lemma_action_order, lemma_text_before_asymmetric,
    lemma_text_before_irreflexive, lemma_text_before_total, lemma_text_before_transitive,
};
use super::binding::{BindingView, Modifiers};
use super::categories::{CategoryKind, category_of_view, kind_rank};
use super::group::{
    bindings_at, insert_action, insert_by_key, key_before, lemma_insert_action, members,
    ordered_actions, shown, sorted_by_key, strictly_sorted,
};
use super::keys::sort_key_of;
use super::localize::category_title_text;
use super::model::{
    CategoryView, all_kinds, category_maker, category_of_kind, cheatsheet_of, entry_maker, entry_of,
    kind_used, of_kind,
};

verus! {

/// A filtered sequence keeps the strict order of the sequence.
pub proof fn lemma_filter_keeps_order<A>(s: Seq<A>, p: spec_fn(A) -> bool, lt: spec_fn(A, A) -> bool)
    requires
        forall|i: int, j: int| 0 <= i < j < s.len() ==> lt(#[trigger] s[i], #[trigger] s[j]),
    ensures
        forall|i: int, j: int| 0 <= i < j < s.filter(p).len() ==> lt(#[trigger] s.filter(p)[i], #[trigger] s.filter(p)[j]),
    decreases s.len(),
{
    reveal(Seq::filter);
    if s.len() > 0 {
        let d = s.drop_last();
        assert forall|i: int, j: int| 0 <= i < j < d.len() implies lt(#[trigger] d[i], #[trigger] d[j]) by {
            assert(d[i] == s[i] && d[j] == s[j]);
        }
        lemma_filter_keeps_order(d, p, lt);
        let f = d.filter(p);
        if p(s.last()) {
            let g = f.push(s.last());
            assert(s.filter(p) == g);
            assert forall|i: int, j: int| 0 <= i < j < g.len() implies lt(#[trigger] g[i], #[trigger] g[j]) by {
                if j == f.len() {
                    assert(f.contains(f[i]));
                    d.lemma_filter_contains_rev(p, f[i]);
                    let t = choose|t: int| 0 <= t < d.len() && d[t] == f[i];
                    assert(s[t] == f[i]);
                    assert(lt(s[t], s[s.len() - 1]));
                } else {
                    assert(g[i] == f[i] && g[j] == f[j]);
                }
            }
        }
    }
}

/// The ordered actions of a table's first `k` rows are in strict action order
/// and are exactly the actions of the shown rows among them.
pub proof fn lemma_ordered_actions(rows: Seq<(BindingView, ActionView)>, k: int)
    requires
        0 <= k <= rows.len(),
    ensures
        strictly_sorted(ordered_actions(rows, k)),
        forall|x: ActionView| #[trigger] ordered_actions(rows, k).contains(x) <==> exists|j: int|
            0 <= j < k && shown(rows[j]) && rows[j].1 == x,
    decreases k,
{
    if k > 0 {
        lemma_ordered_actions(rows, k - 1);
        let prev = ordered_actions(rows, k - 1);
        if shown(rows[k - 1]) {
            lemma_insert_action(prev, rows[k - 1].1);
        }
        assert forall|x: ActionView| #[trigger] ordered_actions(rows, k).contains(x) <==> exists|j: int|
            0 <= j < k && shown(rows[j]) && rows[j].1 == x by {
            if ordered_actions(rows, k).contains(x) {
                if prev.contains(x) {
                    let j = choose|j: int| 0 <= j < k - 1 && shown(rows[j]) && rows[j].1 == x;
                    assert(0 <= j < k && shown(rows[j]) && rows[j].1 == x);
                } else {
                    assert(0 <= k - 1 < k && shown(rows[k - 1]) && rows[k - 1].1 == x);
                }
            }
            if exists|j: int| 0 <= j < k && shown(rows[j]) && rows[j].1 == x {
                let j = choose|j: int| 0 <= j < k && shown(rows[j]) && rows[j].1 == x;
                if j < k - 1 {
                    assert(prev.contains(x));
                } else {
                    assert(insert_action(prev, x).contains(x));
                }
            }
        }
    }
}

/// Whether some row of the cheatsheet lists action `x`.
pub open spec fn listed(m: Seq<CategoryView>, x: ActionView) -> bool {
    exists|i: int, p: int| 0 <= i < m.len() && 0 <= p < m[i].entries.len() && (#[trigger] m[i].entries[p]).action == x
}

/// Whether some shown row of the table is bound to action `x`.
pub open spec fn in_table(rows: Seq<(BindingView, ActionView)>, x: ActionView) -> bool {
    exists|j: int| 0 <= j < rows.len() && shown(#[trigger] rows[j]) && rows[j].1 == x
}

/// The cheatsheet of any shortcut table is well shaped: sections come in
/// display order, each has at least one row and its own title, every row of
/// a section belongs to it and rows come in action order, and the actions
/// listed are exactly the actions of the shown rows of the table (disabled,
/// debug and keycode-only rows are left out), each listed once.
pub proof fn law_cheatsheet_shape(
    rows: Seq<(BindingView, ActionView)>,
    sys: Seq<Option<Seq<char>>>,
    names: Seq<(u32, Seq<char>)>,
)
    ensures
        ({
            let m = cheatsheet_of(rows, sys, names);
            &&& forall|i: int, j: int| 0 <= i < j < m.len() ==> kind_rank(#[trigger] m[i].kind) < kind_rank(#[trigger] m[j].kind)
            &&& forall|i: int| 0 <= i < m.len() ==> (#[trigger] m[i]).entries.len() > 0 && m[i].title == category_title_text(m[i].kind)
            &&& forall|i: int, p: int| 0 <= i < m.len() && 0 <= p < m[i].entries.len() ==> category_of_view((#[trigger] m[i].entries[p]).action) == m[i].kind
            &&& forall|i: int, p: int, q: int| 0 <= i < m.len() && 0 <= p < q < m[i].entries.len() ==> action_before((#[trigger] m[i].entries[p]).action, (#[trigger] m[i].entries[q]).action)
            &&& forall|x: ActionView| #![trigger listed(m, x)] #![trigger in_table(rows, x)] listed(m, x) <==> in_table(rows, x)
            &&& forall|i1: int, p1: int, i2: int, p2: int|
                0 <= i1 < m.len() && 0 <= p1 < m[i1].entries.len() && 0 <= i2 < m.len() && 0 <= p2 < m[i2].entries.len()
                    && (#[trigger] m[i1].entries[p1]).action == (#[trigger] m[i2].entries[p2]).action ==> i1 == i2 && p1 == p2
        }),
{
    let m = cheatsheet_of(rows, sys, names);
    let acts = ordered_actions(rows, rows.len() as int);
    lemma_ordered_actions(rows, rows.len() as int);
    let kinds = all_kinds().filter(kind_used(rows));
    let rank_lt = |a: CategoryKind, b: CategoryKind| kind_rank(a) < kind_rank(b);
    assert forall|i: int, j: int| 0 <= i < j < all_kinds().len() implies rank_lt(#[trigger] all_kinds()[i], #[trigger] all_kinds()[j]) by {
    }
    lemma_filter_keeps_order(all_kinds(), kind_used(rows), rank_lt);
    assert(m.len() == kinds.len());
    assert forall|i: int| 0 <= i < m.len() implies #[trigger] m[i] == category_of_kind(rows, sys, names, kinds[i]) by {
    }
    assert forall|i: int, j: int| 0 <= i < j < m.len() implies kind_rank(#[trigger] m[i].kind) < kind_rank(#[trigger] m[j].kind) by {
        assert(rank_lt(kinds[i], kinds[j]));
    }
    broadcast use vstd::seq_lib::group_filter_ensures;
    assert forall|i: int| 0 <= i < m.len() implies (#[trigger] m[i]).entries.len() > 0 && m[i].title == category_title_text(m[i].kind) by {
        assert(kind_used(rows)(kinds[i]));
    }
    assert forall|i: int, p: int| 0 <= i < m.len() && 0 <= p < m[i].entries.len() implies category_of_view((#[trigger] m[i].entries[p]).action) == m[i].kind by {
        let f = acts.filter(of_kind(kinds[i]));
        assert(m[i].entries[p] == entry_of(rows, sys, names, f[p], category_title_text(kinds[i])));
        assert(of_kind(kinds[i])(f[p]));
    }
    let act_lt = |a: ActionView, b: ActionView| action_before(a, b);
    assert forall|i: int, j: int| 0 <= i < j < acts.len() implies act_lt(#[trigger] acts[i], #[trigger] acts[j]) by {
    }
    assert forall|i: int, p: int, q: int| 0 <= i < m.len() && 0 <= p < q < m[i].entries.len() implies action_before((#[trigger] m[i].entries[p]).action, (#[trigger] m[i].entries[q]).action) by {
        let f = acts.filter(of_kind(kinds[i]));
        lemma_filter_keeps_order(acts, of_kind(kinds[i]), act_lt);
        assert(act_lt(f[p], f[q]));
    }
    assert forall|x: ActionView| #![trigger listed(m, x)] #![trigger in_table(rows, x)] listed(m, x) <==> in_table(rows, x) by {
        if exists|i: int, p: int| 0 <= i < m.len() && 0 <= p < m[i].entries.len() && (#[trigger] m[i].entries[p]).action == x {
            let (i, p) = choose|i: int, p: int| 0 <= i < m.len() && 0 <= p < m[i].entries.len() && (#[trigger] m[i].entries[p]).action == x;
            let f = acts.filter(of_kind(kinds[i]));
            assert(f[p] == x);
            assert(f.contains(x));
            acts.lemma_filter_contains_rev(of_kind(kinds[i]), x);
            assert(acts.contains(x));
        }
        if exists|j: int| 0 <= j < rows.len() && shown(#[trigger] rows[j]) && rows[j].1 == x {
            assert(acts.contains(x));
            let t = choose|t: int| 0 <= t < acts.len() && acts[t] == x;
            let k = category_of_view(x);
            assert(of_kind(k)(acts[t]));
            assert(acts.filter(of_kind(k)).contains(x));
            let p = choose|p: int| 0 <= p < acts.filter(of_kind(k)).len() && acts.filter(of_kind(k))[p] == x;
            assert(kind_used(rows)(k));
            let r = choose|r: int| 0 <= r < all_kinds().len() && all_kinds()[r] == k;
            assert(all_kinds().contains(k));
            assert(kinds.contains(k));
            let i = choose|i: int| 0 <= i < kinds.len() && kinds[i] == k;
            assert(m[i].entries[p].action == x);
        }
    }
    assert forall|i1: int, p1: int, i2: int, p2: int|
        0 <= i1 < m.len() && 0 <= p1 < m[i1].entries.len() && 0 <= i2 < m.len() && 0 <= p2 < m[i2].entries.len()
            && (#[trigger] m[i1].entries[p1]).action == (#[trigger] m[i2].entries[p2]).action implies i1 == i2 && p1 == p2 by {
        let x = m[i1].entries[p1].action;
        assert(category_of_view(x) == m[i1].kind);
        assert(category_of_view(m[i2].entries[p2].action) == m[i2].kind);
        if i1 < i2 {
            assert(kind_rank(m[i1].kind) < kind_rank(m[i2].kind));
        } else if i2 < i1 {
            assert(kind_rank(m[i2].kind) < kind_rank(m[i1].kind));
        }
        assert(i1 == i2);
        if p1 != p2 {
            lemma_action_order(x, x, x);
        }
    }
}

/// Sort keys are strictly and totally ordered.
pub proof fn lemma_key_order(a: (int, int, Seq<char>), b: (int, int, Seq<char>), c: (int, int, Seq<char>))
    ensures
        !key_before(a, a),
        !(key_before(a, b) && key_before(b, a)),
        key_before(a, b) && key_before(b, c) ==> key_before(a, c),
        a != b ==> key_before(a, b) || key_before(b, a),
{
    lemma_text_before_irreflexive(a.2);
    lemma_text_before_asymmetric(a.2, b.2);
    if key_before(a, b) && key_before(b, c) && a.0 == c.0 && a.1 == c.1 {
        lemma_text_before_transitive(a.2, b.2, c.2);
    }
    if a != b && a.0 == b.0 && a.1 == b.1 {
        lemma_text_before_total(a.2, b.2);
    }
}

/// Whether no binding of `bs` has a key that comes before the key of a binding
/// ahead of it.
pub open spec fn key_sorted(bs: Seq<BindingView>, names: Seq<(u32, Seq<char>)>) -> bool {
    forall|i: int, j: int| 0 <= i < j < bs.len() ==> !key_before(sort_key_of(#[trigger] bs[j], names), sort_key_of(#[trigger] bs[i], names))
}

proof fn lemma_insert_by_key(s: Seq<BindingView>, b: BindingView, names: Seq<(u32, Seq<char>)>)
    requires
        key_sorted(s, names),
    ensures
        key_sorted(insert_by_key(s, b, names), names),
        insert_by_key(s, b, names).to_multiset() == s.to_multiset().insert(b),
    decreases s.len(),
{
    broadcast use vstd::seq_lib::group_to_multiset_ensures;
    let kb = sort_key_of(b, names);
    if s.len() == 0 {
        assert(insert_by_key(s, b, names) == seq![b]);
        assert(s.push(b) =~= seq![b]);
    } else if !key_before(kb, sort_key_of(s.last(), names)) {
        let r = s.push(b);
        assert forall|i: int, j: int| 0 <= i < j < r.len() implies !key_before(sort_key_of(#[trigger] r[j], names), sort_key_of(#[trigger] r[i], names)) by {
            if j == s.len() {
                let ki = sort_key_of(s[i], names);
                let kl = sort_key_of(s.last(), names);
                lemma_key_order(kb, ki, kl);
                lemma_key_order(ki, kl, kb);
                lemma_key_order(kb, kl, ki);
                lemma_key_order(kl, ki, kb);
                lemma_key_order(ki, kb, kl);
            } else {
                assert(r[i] == s[i] && r[j] == s[j]);
            }
        }
    } else {
        let d = s.drop_last();
        assert(key_sorted(d, names)) by {
            assert forall|i: int, j: int| 0 <= i < j < d.len() implies !key_before(sort_key_of(#[trigger] d[j], names), sort_key_of(#[trigger] d[i], names)) by {
                assert(d[i] == s[i] && d[j] == s[j]);
            }
        }
        lemma_insert_by_key(d, b, names);
        let m = insert_by_key(d, b, names);
        let r = m.push(s.last());
        assert(s =~= d.push(s.last()));
        assert(r.to_multiset() =~= s.to_multiset().insert(b));
        let kl = sort_key_of(s.last(), names);
        assert forall|i: int, j: int| 0 <= i < j < r.len() implies !key_before(sort_key_of(#[trigger] r[j], names), sort_key_of(#[trigger] r[i], names)) by {
            if j == m.len() {
                let x = m[i];
                assert(m.to_multiset().count(x) > 0);
                assert(d.to_multiset().insert(b).count(x) > 0);
                if x == b {
                    lemma_key_order(kb, kl, kb);
                } else {
                    assert(d.to_multiset().count(x) > 0);
                    assert(d.contains(x));
                    let t = choose|t: int| 0 <= t < d.len() && d[t] == x;
                    assert(s[t] == x);
                    assert(!key_before(kl, sort_key_of(s[t], names)));
                }
            } else {
                assert(r[i] == m[i] && r[j] == m[j]);
            }
        }
    }
}

/// The bindings of a cheatsheet row are those of the action's shown rows,
/// each once, ordered by sort key: arrow keys first, then fewer modifiers,
/// then key name (bindings with equal keys keep the table's order).
pub proof fn law_bindings_sorted(bs: Seq<BindingView>, names: Seq<(u32, Seq<char>)>)
    ensures
        key_sorted(sorted_by_key(bs, names), names),
        sorted_by_key(bs, names).to_multiset() == bs.to_multiset(),
    decreases bs.len(),
{
    broadcast use vstd::seq_lib::group_to_multiset_ensures;
    if bs.len() == 0 {
        assert(sorted_by_key(bs, names) =~= bs);
    } else {
        law_bindings_sorted(bs.drop_last(), names);
        lemma_insert_by_key(sorted_by_key(bs.drop_last(), names), bs.last(), names);
        assert(bs =~= bs.drop_last().push(bs.last()));
    }
}

/// Which rows the cheatsheet lists: every row whose binding has a key, or
/// is Super alone (logo only, no key, no keycode), is listed under its
/// action unless that action is `Disable` or `Debug`; and neither of those
/// two is ever listed.
pub proof fn law_rows_listed(
    rows: Seq<(BindingView, ActionView)>,
    sys: Seq<Option<Seq<char>>>,
    names: Seq<(u32, Seq<char>)>,
)
    ensures
        forall|j: int| 0 <= j < rows.len()
            && (rows[j].0.key.is_some() || (rows[j].0.modifiers == (Modifiers { ctrl: false, alt: false, shift: false, logo: true })
                && rows[j].0.key.is_none() && rows[j].0.keycode.is_none()))
            && !(rows[j].1 is Disable) && !(rows[j].1 is Debug)
            ==> listed(cheatsheet_of(rows, sys, names), #[trigger] rows[j].1),
        !listed(cheatsheet_of(rows, sys, names), ActionView::Disable),
        !listed(cheatsheet_of(rows, sys, names), ActionView::Debug),
        forall|x: ActionView| #[trigger] listed(cheatsheet_of(rows, sys, names), x) ==> exists|j: int| 0 <= j < rows.len()
            && #[trigger] rows[j].1 == x
            && (rows[j].0.key.is_some() || (rows[j].0.modifiers == (Modifiers { ctrl: false, alt: false, shift: false, logo: true })
                && rows[j].0.key.is_none() && rows[j].0.keycode.is_none())),
{
    law_cheatsheet_shape(rows, sys, names);
    let m = cheatsheet_of(rows, sys, names);
    assert forall|j: int| 0 <= j < rows.len()
        && (rows[j].0.key.is_some() || (rows[j].0.modifiers == (Modifiers { ctrl: false, alt: false, shift: false, logo: true })
            && rows[j].0.key.is_none() && rows[j].0.keycode.is_none()))
        && !(rows[j].1 is Disable) && !(rows[j].1 is Debug)
        implies listed(m, #[trigger] rows[j].1) by {
        assert(shown(rows[j]));
        assert(in_table(rows, rows[j].1));
    }
    if in_table(rows, ActionView::Disable) {
        let j = choose|j: int| 0 <= j < rows.len() && shown(#[trigger] rows[j]) && rows[j].1 == ActionView::Disable;
    }
    assert(!in_table(rows, ActionView::Disable));
    if in_table(rows, ActionView::Debug) {
        let j = choose|j: int| 0 <= j < rows.len() && shown(#[trigger] rows[j]) && rows[j].1 == ActionView::Debug;
    }
    assert(!in_table(rows, ActionView::Debug));
    assert forall|x: ActionView| #[trigger] listed(m, x) implies exists|j: int| 0 <= j < rows.len()
        && #[trigger] rows[j].1 == x
        && (rows[j].0.key.is_some() || (rows[j].0.modifiers == (Modifiers { ctrl: false, alt: false, shift: false, logo: true })
            && rows[j].0.key.is_none() && rows[j].0.keycode.is_none())) by {
        assert(in_table(rows, x));
        let j = choose|j: int| 0 <= j < rows.len() && shown(#[trigger] rows[j]) && rows[j].1 == x;
        assert(rows[j].1 == x);
    }
}

} // verus!
