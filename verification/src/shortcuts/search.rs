//! Searching the cheatsheet.

use vstd::prelude::*;
use super::model::{Category, CategoryView, CheatsheetModel, Entry, EntryView, category_views};
use crate::config::ascii_lower;
use crate::seqs::{lemma_filter_all, lemma_filter_elem};
use crate::text::{
    char_rows, chars_of, contains_chars, is_ascii_text, is_blank, is_ws, lemma_words_nonempty, lowercase_of, lowered, occurs_in,
    split_words, string_of, to_lowercase, words,
};

verus! {

/// One category of a search result, borrowing from the model.
#[derive(Debug, Clone)]
pub struct MatchedCategory<'a> {
    pub category: &'a Category,
    pub entries: Vec<&'a Entry>,
}

/// The mathematical value of a [`MatchedCategory`].
pub struct MatchedView {
    pub category: CategoryView,
    pub entries: Seq<EntryView>,
}

/// The views of borrowed entries.
pub open spec fn entry_ref_views(v: Seq<&Entry>) -> Seq<EntryView> {
    v.map_values(|e: &Entry| e@)
}

impl<'a> View for MatchedCategory<'a> {
    type V = MatchedView;

    open spec fn view(&self) -> MatchedView {
        MatchedView { category: self.category@, entries: entry_ref_views(self.entries@) }
    }
}

/// Result of [`CheatsheetModel::search`].
#[derive(Debug, Clone)]
pub struct Search<'a> {
    pub categories: Vec<MatchedCategory<'a>>,
    /// Whether the query contained any search terms.
    pub active: bool,
}

/// The mathematical value of a [`Search`].
pub struct SearchView {
    pub categories: Seq<MatchedView>,
    pub active: bool,
}

/// The views of matched categories.
pub open spec fn matched_views(v: Seq<MatchedCategory>) -> Seq<MatchedView> {
    v.map_values(|m: MatchedCategory| m@)
}

impl<'a> View for Search<'a> {
    type V = SearchView;

    open spec fn view(&self) -> SearchView {
        SearchView { categories: matched_views(self.categories@), active: self.active }
    }
}

/// The terms of a query: its whitespace-separated words, lower-cased.
pub open spec fn search_terms(query: Seq<char>) -> Seq<Seq<char>> {
    lowered(words(query))
}

/// Whether an entry's search text contains every term.
pub open spec fn matches_terms(terms: Seq<Seq<char>>) -> spec_fn(EntryView) -> bool {
    |e: EntryView| forall|t: int| 0 <= t < terms.len() ==> #[trigger] occurs_in(e.search_text, terms[t])
}

/// The entries of a category that match every term.
pub open spec fn matched_in(c: CategoryView, terms: Seq<Seq<char>>) -> MatchedView {
    MatchedView { category: c, entries: c.entries.filter(matches_terms(terms)) }
}

/// The matching part of a category.
pub open spec fn matcher(terms: Seq<Seq<char>>) -> spec_fn(CategoryView) -> MatchedView {
    |c: CategoryView| matched_in(c, terms)
}

/// Whether a category has an entry that matches every term.
pub open spec fn category_matches(terms: Seq<Seq<char>>) -> spec_fn(CategoryView) -> bool {
    |c: CategoryView| c.entries.filter(matches_terms(terms)).len() > 0
}

/// The result of searching a cheatsheet for `query`: the categories with at
/// least one entry whose search text contains every term of the query, each
/// with those entries, in the cheatsheet's order; active when the query has a
/// term.
pub open spec fn search_of(model: Seq<CategoryView>, query: Seq<char>) -> SearchView {
    search_with_terms(model, search_terms(query))
}

/// The result of searching a cheatsheet for the terms `terms`.
pub open spec fn search_with_terms(model: Seq<CategoryView>, terms: Seq<Seq<char>>) -> SearchView {
    SearchView {
        categories: model.filter(category_matches(terms)).map_values(matcher(terms)),
        active: terms.len() > 0,
    }
}

/// The terms of an ASCII query: its words with ASCII capitals made small.
pub open spec fn ascii_terms(query: Seq<char>) -> Seq<Seq<char>> {
    words(query).map_values(|w: Seq<char>| ascii_lower(w))
}

/// The terms of a query, lower-cased.
fn query_terms(query: &str) -> (terms: Vec<Vec<char>>)
    ensures
        char_rows(terms@) == search_terms(query@),
        is_ascii_text(query@) ==> search_terms(query@) == ascii_terms(query@),
{
    let ws = split_words(query);
    let ghost wv = char_rows(ws@);
    proof {
        if is_ascii_text(query@) {
            lemma_words_upper(query@);
        }
    }
    let mut terms: Vec<Vec<char>> = Vec::new();
    for i in 0..ws.len()
        invariant
            wv == char_rows(ws@),
            wv == words(query@),
            char_rows(terms@) == lowered(wv.take(i as int)),
            terms@.len() == i,
            wv.len() == ws@.len(),
            is_ascii_text(query@) ==> forall|k: int| 0 <= k < wv.len() ==> is_ascii_text(#[trigger] wv[k]),
            is_ascii_text(query@) ==> forall|k: int| 0 <= k < i ==> lowercase_of(#[trigger] wv[k]) == ascii_lower(wv[k]),
    {
        let s = string_of(&ws[i]);
        let lower = to_lowercase(s.as_str());
        let t = chars_of(lower.as_str());
        let ghost old_t = terms@;
        terms.push(t);
        assert(wv[i as int] == ws@[i as int]@);
        assert forall|q: int| 0 <= q < terms@.len() implies #[trigger] char_rows(terms@)[q] == lowered(wv.take(i + 1))[q] by {
            if q < i {
                assert(terms@[q] == old_t[q]);
                assert(char_rows(old_t)[q] == lowered(wv.take(i as int))[q]);
            }
        }
        assert(char_rows(terms@) =~= lowered(wv.take(i + 1)));
    }
    assert(wv.take(ws@.len() as int) =~= wv);
    proof {
        if is_ascii_text(query@) {
            assert(search_terms(query@) =~= ascii_terms(query@));
        }
    }
    terms
}

/// Whether `text` contains every term.
fn has_all_terms(text: &Vec<char>, terms: &Vec<Vec<char>>) -> (r: bool)
    ensures
        r == (forall|t: int| 0 <= t < terms@.len() ==> #[trigger] occurs_in(text@, terms@[t]@)),
{
    for t in 0..terms.len()
        invariant
            forall|q: int| 0 <= q < t ==> #[trigger] occurs_in(text@, terms@[q]@),
    {
        if !contains_chars(text, &terms[t]) {
            return false;
        }
    }
    true
}

/// The entries of `category` that contain every term.
fn matching_entries<'a>(category: &'a Category, terms: &Vec<Vec<char>>, Ghost(tv): Ghost<Seq<Seq<char>>>) -> (r: Vec<&'a Entry>)
    requires
        tv == char_rows(terms@),
    ensures
        entry_ref_views(r@) == category@.entries.filter(matches_terms(tv)),
{
    let ghost ev = category@.entries;
    let mut r: Vec<&'a Entry> = Vec::new();
    for i in 0..category.entries.len()
        invariant
            ev == category@.entries,
            tv == char_rows(terms@),
            entry_ref_views(r@) == ev.take(i as int).filter(matches_terms(tv)),
    {
        let e = &category.entries[i];
        let ghost x = ev[i as int];
        assert(e@ == x);
        let text = chars_of(e.search_text.as_str());
        let ok = has_all_terms(&text, terms);
        assert(ok == matches_terms(tv)(x)) by {
            if ok {
                assert forall|t: int| 0 <= t < tv.len() implies #[trigger] occurs_in(x.search_text, tv[t]) by {
                    assert(tv[t] == terms@[t]@);
                    assert(occurs_in(text@, terms@[t]@));
                }
            } else {
                let t = choose|t: int| 0 <= t < terms@.len() && !occurs_in(text@, #[trigger] terms@[t]@);
                assert(tv[t] == terms@[t]@);
                assert(!occurs_in(x.search_text, tv[t]));
            }
        }
        proof {
            assert(ev.take(i + 1) =~= ev.take(i as int).push(x));
            ev.take(i as int).lemma_filter_push(x, matches_terms(tv));
        }
        let ghost old_r = r@;
        if ok {
            r.push(e);
            assert(entry_ref_views(r@) =~= entry_ref_views(old_r).push(x));
        }
    }
    assert(ev.take(category@.entries.len() as int) =~= ev);
    r
}

impl CheatsheetModel {
    /// Entries whose search text contains every whitespace-separated term of
    /// `query` (case-insensitive). An empty query matches everything and the
    /// result is marked inactive.
    pub fn search(&self, query: &str) -> (r: Search<'_>)
        ensures
            r@ == search_of(self@, query@),
            is_ascii_text(query@) ==> r@ == search_with_terms(self@, ascii_terms(query@)),
    {
        let terms = query_terms(query);
        let ghost tv = char_rows(terms@);
        let ghost model = self@;
        let mut categories: Vec<MatchedCategory<'_>> = Vec::new();
        for i in 0..self.categories.len()
            invariant
                model == self@,
                tv == char_rows(terms@),
                tv == search_terms(query@),
                matched_views(categories@) == model.take(i as int).filter(category_matches(tv)).map_values(matcher(tv)),
        {
            let category = &self.categories[i];
            let ghost c = model[i as int];
            assert(category@ == c);
            let entries = matching_entries(category, &terms, Ghost(tv));
            proof {
                assert(model.take(i + 1) =~= model.take(i as int).push(c));
                model.take(i as int).lemma_filter_push(c, category_matches(tv));
            }
            assert(entry_ref_views(entries@).len() == entries@.len());
            if entries.len() > 0 {
                let m = MatchedCategory { category, entries };
                assert(m@ == matcher(tv)(c));
                let ghost old_c = categories@;
                categories.push(m);
                assert(matched_views(categories@) =~= matched_views(old_c).push(matcher(tv)(c)));
                assert(model.take(i as int).filter(category_matches(tv)).push(c).map_values(matcher(tv)) =~= model.take(i as int).filter(category_matches(tv)).map_values(matcher(tv)).push(matcher(tv)(c)));
            }
        }
        assert(model.take(model.len() as int) =~= model);
        assert(terms@.len() == tv.len());
        Search { categories, active: terms.len() > 0 }
    }
}

/// Total number of entries across all categories.
pub open spec fn total_entries(cats: Seq<CategoryView>) -> nat
    decreases cats.len(),
{
    if cats.len() == 0 {
        0
    } else {
        total_entries(cats.drop_last()) + cats.last().entries.len()
    }
}

/// The total is zero exactly when every category is empty.
pub proof fn lemma_total_entries_zero(cats: Seq<CategoryView>)
    ensures
        (total_entries(cats) == 0) == (forall|i: int| 0 <= i < cats.len() ==> (#[trigger] cats[i]).entries.len() == 0),
    decreases cats.len(),
{
    if cats.len() > 0 {
        lemma_total_entries_zero(cats.drop_last());
        if total_entries(cats) == 0 {
            assert forall|i: int| 0 <= i < cats.len() implies (#[trigger] cats[i]).entries.len() == 0 by {
                if i < cats.len() - 1 {
                    assert(cats.drop_last()[i] == cats[i]);
                }
            }
        }
        if forall|i: int| 0 <= i < cats.len() ==> (#[trigger] cats[i]).entries.len() == 0 {
            assert forall|i: int| 0 <= i < cats.drop_last().len() implies (#[trigger] cats.drop_last()[i]).entries.len() == 0 by {
                assert(cats.drop_last()[i] == cats[i]);
            }
            assert(cats[cats.len() - 1].entries.len() == 0);
        }
    }
}

impl CheatsheetModel {
    /// Total number of entries across all categories.
    pub fn len(&self) -> (n: usize)
        requires
            total_entries(self@) <= usize::MAX,
        ensures
            n == total_entries(self@),
    {
        let ghost cats = self@;
        let mut n: usize = 0;
        for i in 0..self.categories.len()
            invariant
                cats == self@,
                total_entries(cats) <= usize::MAX,
                n == total_entries(cats.take(i as int)),
        {
            let ghost t = cats.take(i + 1);
            assert(t.drop_last() =~= cats.take(i as int));
            assert(t.last() == cats[i as int]);
            assert(self.categories@[i as int]@ == cats[i as int]);
            proof {
                lemma_total_entries_prefix(cats, i + 1);
            }
            n = n + self.categories[i].entries.len();
        }
        assert(cats.take(cats.len() as int) =~= cats);
        n
    }

    /// Whether the cheatsheet has no entry at all.
    pub fn is_empty(&self) -> (r: bool)
        ensures
            r == (total_entries(self@) == 0),
    {
        proof {
            lemma_total_entries_zero(self@);
        }
        for i in 0..self.categories.len()
            invariant
                forall|q: int| 0 <= q < i ==> (#[trigger] self@[q]).entries.len() == 0,
        {
            assert(self.categories@[i as int]@ == self@[i as int]);
            if self.categories[i].entries.len() > 0 {
                proof {
                    lemma_total_entries_zero(self@);
                }
                return false;
            }
        }
        true
    }
}

/// The total of a prefix is at most the total.
proof fn lemma_total_entries_prefix(cats: Seq<CategoryView>, k: int)
    requires
        0 <= k <= cats.len(),
    ensures
        total_entries(cats.take(k)) <= total_entries(cats),
    decreases cats.len() - k,
{
    if k < cats.len() {
        lemma_total_entries_prefix(cats, k + 1);
        assert(cats.take(k + 1).drop_last() =~= cats.take(k));
    } else {
        assert(cats.take(k) =~= cats);
    }
}

/// The entry that Enter in the search box runs: with an active query, the
/// first entry of the first matched category, when it has a command.
pub open spec fn enter_target_of(s: SearchView) -> Option<EntryView> {
    if s.active && s.categories.len() > 0 && s.categories[0].entries.len() > 0
        && s.categories[0].entries[0].command.is_some() {
        Some(s.categories[0].entries[0])
    } else {
        None
    }
}

impl<'a> Search<'a> {
    /// Whether no category holds an entry.
    pub fn is_empty(&self) -> (r: bool)
        ensures
            r == (forall|i: int| 0 <= i < self@.categories.len() ==> (#[trigger] self@.categories[i]).entries.len() == 0),
    {
        for i in 0..self.categories.len()
            invariant
                forall|q: int| 0 <= q < i ==> (#[trigger] self@.categories[q]).entries.len() == 0,
        {
            assert(self.categories@[i as int]@ == self@.categories[i as int]);
            if self.categories[i].entries.len() > 0 {
                return false;
            }
        }
        true
    }

    /// The first visible entry, when it can be run by clicking. This is what
    /// Enter in the search box runs, and what the view highlights.
    pub fn enter_target(&self) -> (r: Option<&'a Entry>)
        ensures
            match r {
                Some(e) => enter_target_of(self@) == Some(e@),
                None => enter_target_of(self@).is_none(),
            },
    {
        if !self.active {
            return None;
        }
        if self.categories.len() == 0 {
            return None;
        }
        let first = &self.categories[0];
        assert(first@ == self@.categories[0]);
        if first.entries.len() == 0 {
            return None;
        }
        let e: &'a Entry = first.entries[0];
        assert(e@ == self@.categories[0].entries[0]);
        if e.command.is_some() {
            Some(e)
        } else {
            None
        }
    }
}

/// A text made of whitespace only has no word.
pub proof fn lemma_blank_no_words(s: Seq<char>)
    requires
        is_blank(s),
    ensures
        words(s).len() == 0,
    decreases s.len(),
{
    if s.len() > 0 {
        let d = s.drop_last();
        assert forall|i: int| 0 <= i < d.len() implies is_ws(#[trigger] d[i]) by {
            assert(d[i] == s[i]);
        }
        lemma_blank_no_words(d);
        assert(is_ws(s[s.len() - 1]));
    }
}

/// Whether a category has entries.
pub open spec fn has_entries() -> spec_fn(CategoryView) -> bool {
    |c: CategoryView| c.entries.len() > 0
}

/// A category with every one of its entries matched.
pub open spec fn whole() -> spec_fn(CategoryView) -> MatchedView {
    |c: CategoryView| MatchedView { category: c, entries: c.entries }
}

/// A blank query (one without any term) matches everything: the search
/// lists every category that has entries, with all of its entries, in
/// order, and is not active.
pub proof fn law_blank_query_lists_everything(model: Seq<CategoryView>, query: Seq<char>)
    requires
        is_blank(query),
    ensures
        !search_of(model, query).active,
        search_of(model, query).categories == model.filter(has_entries()).map_values(whole()),
{
    lemma_blank_no_words(query);
    let terms = search_terms(query);
    assert(terms.len() == 0);
    assert forall|c: CategoryView| #[trigger] c.entries.filter(matches_terms(terms)) == c.entries by {
        assert forall|j: int| 0 <= j < c.entries.len() implies (matches_terms(terms))(#[trigger] c.entries[j]) by {}
        lemma_filter_all(c.entries, matches_terms(terms));
    }
    assert(category_matches(terms) =~= has_entries());
    assert(matcher(terms) =~= whole());
}

/// Whether every term of `t1` is also a term of `t2`.
pub open spec fn terms_within(t1: Seq<Seq<char>>, t2: Seq<Seq<char>>) -> bool {
    forall|i: int| 0 <= i < t1.len() ==> t2.contains(#[trigger] t1[i])
}

/// More search terms never add results: when every term of `q1` is a term
/// of `q2`, every entry that `q2` matches in a category is matched by `q1`
/// too.
pub proof fn law_more_terms_narrow(q1: Seq<char>, q2: Seq<char>, c: CategoryView)
    requires
        terms_within(search_terms(q1), search_terms(q2)),
    ensures
        forall|k: int| 0 <= k < matched_in(c, search_terms(q2)).entries.len()
            ==> matched_in(c, search_terms(q1)).entries.contains(#[trigger] matched_in(c, search_terms(q2)).entries[k]),
{
    let t1 = search_terms(q1);
    let t2 = search_terms(q2);
    assert forall|k: int| 0 <= k < matched_in(c, t2).entries.len()
        implies matched_in(c, t1).entries.contains(#[trigger] matched_in(c, t2).entries[k]) by {
        let e = matched_in(c, t2).entries[k];
        lemma_filter_elem(c.entries, matches_terms(t2), k);
        lemma_narrower_terms(t1, t2, e);
        let j = choose|j: int| 0 <= j < c.entries.len() && c.entries[j] == e;
        c.entries.lemma_filter_contains(matches_terms(t1), j);
    }
}

/// An entry that matches every term of `t2` matches every term of `t1`
/// when each term of `t1` is one of `t2`'s.
proof fn lemma_narrower_terms(t1: Seq<Seq<char>>, t2: Seq<Seq<char>>, e: EntryView)
    requires
        terms_within(t1, t2),
        (matches_terms(t2))(e),
    ensures
        (matches_terms(t1))(e),
{
    assert forall|i: int| 0 <= i < t1.len() implies #[trigger] occurs_in(e.search_text, t1[i]) by {
        assert(t2.contains(t1[i]));
        let j = choose|j: int| 0 <= j < t2.len() && t2[j] == t1[i];
        assert(occurs_in(e.search_text, t2[j]));
    }
}

/// The order (and repetition) of search terms does not matter: two queries
/// with the same terms give the same search.
pub proof fn law_term_order(model: Seq<CategoryView>, q1: Seq<char>, q2: Seq<char>)
    requires
        terms_within(search_terms(q1), search_terms(q2)),
        terms_within(search_terms(q2), search_terms(q1)),
    ensures
        search_of(model, q1) == search_of(model, q2),
{
    let t1 = search_terms(q1);
    let t2 = search_terms(q2);
    assert forall|e: EntryView| #[trigger] (matches_terms(t1))(e) == (matches_terms(t2))(e) by {
        if (matches_terms(t1))(e) {
            lemma_narrower_terms(t2, t1, e);
        }
        if (matches_terms(t2))(e) {
            lemma_narrower_terms(t1, t2, e);
        }
    }
    assert(matches_terms(t1) =~= matches_terms(t2));
    assert(category_matches(t1) =~= category_matches(t2));
    assert(matcher(t1) =~= matcher(t2));
    if t1.len() > 0 {
        assert(t2.contains(t1[0]));
    }
    if t2.len() > 0 {
        assert(t1.contains(t2[0]));
    }
}

/// The text with ASCII small letters made capitals.
pub open spec fn ascii_upper(t: Seq<char>) -> Seq<char> {
    t.map_values(|c: char| if 'a' <= c && c <= 'z' { ((c as int) - 32) as char } else { c })
}

/// Upper-casing ASCII text keeps its whitespace where it is, so its words
/// are the upper-cased words; and the words of ASCII text are ASCII.
proof fn lemma_words_upper(s: Seq<char>)
    requires
        is_ascii_text(s),
    ensures
        words(ascii_upper(s)) == words(s).map_values(|w: Seq<char>| ascii_upper(w)),
        forall|k: int| 0 <= k < words(s).len() ==> is_ascii_text(#[trigger] words(s)[k]),
    decreases s.len(),
{
    let u = ascii_upper(s);
    if s.len() > 0 {
        let d = s.drop_last();
        assert(is_ascii_text(d)) by {
            assert forall|i: int| 0 <= i < d.len() implies (#[trigger] d[i] as u32) < 0x80 by {
                assert(d[i] == s[i]);
            }
        }
        lemma_words_upper(d);
        assert(u.drop_last() =~= ascii_upper(d));
        let c = s.last();
        assert(u.last() == (if 'a' <= c && c <= 'z' { ((c as int) - 32) as char } else { c }));
        assert(is_ws(u.last()) == is_ws(c));
        if s.len() >= 2 {
            let b = s[s.len() - 2];
            assert(u[u.len() - 2] == (if 'a' <= b && b <= 'z' { ((b as int) - 32) as char } else { b }));
            assert(is_ws(u[u.len() - 2]) == is_ws(b));
        }
        let w = words(d);
        let up = |x: Seq<char>| ascii_upper(x);
        assert((c as u32) < 0x80);
        if is_ws(c) {
        } else if s.len() >= 2 && !is_ws(s[s.len() - 2]) {
            lemma_words_nonempty(d);
            assert(words(s) == w.update(w.len() - 1, w.last().push(c)));
            assert(ascii_upper(w.last().push(c)) =~= ascii_upper(w.last()).push(u.last()));
            assert(words(u) =~= words(s).map_values(up));
            assert forall|k: int| 0 <= k < words(s).len() implies is_ascii_text(#[trigger] words(s)[k]) by {
                if k == w.len() - 1 {
                    assert(is_ascii_text(w[k]));
                    assert forall|i: int| 0 <= i < words(s)[k].len() implies (#[trigger] words(s)[k][i] as u32) < 0x80 by {
                        if i < w[k].len() {
                            assert(words(s)[k][i] == w[k][i]);
                        }
                    }
                }
            }
        } else {
            assert(words(s) == w.push(seq![c]));
            assert(ascii_upper(seq![c]) =~= seq![u.last()]);
            assert(words(u) =~= words(s).map_values(up));
            assert forall|k: int| 0 <= k < words(s).len() implies is_ascii_text(#[trigger] words(s)[k]) by {
                if k == w.len() {
                    assert(words(s)[k] == seq![c]);
                }
            }
        }
    } else {
        assert(words(u) =~= words(s).map_values(|w: Seq<char>| ascii_upper(w)));
    }
}

/// Search is case-insensitive: an ASCII query and the same query in
/// capitals search for the same terms, so [`CheatsheetModel::search`]
/// gives the same result for both.
pub proof fn law_search_ignores_case(model: Seq<CategoryView>, query: Seq<char>)
    requires
        is_ascii_text(query),
    ensures
        is_ascii_text(ascii_upper(query)),
        search_with_terms(model, ascii_terms(ascii_upper(query))) == search_with_terms(model, ascii_terms(query)),
{
    lemma_words_upper(query);
    let u = ascii_upper(query);
    assert forall|i: int| 0 <= i < u.len() implies (#[trigger] u[i] as u32) < 0x80 by {
        assert((query[i] as u32) < 0x80);
    }
    let ws = words(query);
    assert forall|k: int| 0 <= k < ws.len() implies #[trigger] ascii_lower(ascii_upper(ws[k])) == ascii_lower(ws[k]) by {
        assert(ascii_lower(ascii_upper(ws[k])) =~= ascii_lower(ws[k]));
    }
    assert(ascii_terms(u) =~= ascii_terms(query));
}

/// The entry Enter runs is the first visible entry: with an active query,
/// the first entry of the first matched category, and only when it has a
/// command; there is none otherwise.
pub proof fn law_enter_runs_first_entry(s: SearchView)
    ensures
        enter_target_of(s) matches Some(e) ==> s.active && s.categories.len() > 0
            && s.categories[0].entries.len() > 0 && e == s.categories[0].entries[0] && e.command.is_some(),
        s.active && s.categories.len() > 0 && s.categories[0].entries.len() > 0
            && s.categories[0].entries[0].command.is_some() ==> enter_target_of(s) == Some(s.categories[0].entries[0]),
        !s.active ==> enter_target_of(s).is_none(),
{
}

} // verus!
