//! The cheatsheet overlay content: what its body shows, and how the
//! matching categories are laid out in columns.

use vstd::prelude::*;
use crate::shortcuts::search::Search;

verus! {

/// The most columns the overlay lays categories out in.
pub const MAX_COLUMNS: usize = 4;

/// Messages emitted by the overlay.
#[derive(Debug, Clone, PartialEq, Eq)]
pub enum Message {
    Close,
    OpenSettings,
    /// Run the command behind a clicked row.
    Run(String),
    SearchChanged(String),
    SearchClear,
    /// Enter in the search box.
    SearchSubmit,
    /// A click on the card itself; swallowed so it does not reach the backdrop.
    Noop,
}

/// Widget id of the search box, so the app can focus it when the overlay opens.
pub fn search_id() -> (id: &'static str)
    ensures
        id@ == "cheatsheet-search"@,
{
    proof {
        reveal_strlit("cheatsheet-search");
    }
    "cheatsheet-search"
}

/// What the body of the overlay shows.
#[derive(Debug, Clone, Copy, PartialEq, Eq)]
pub enum Body {
    /// There are no shortcuts at all.
    Empty,
    /// A query is active and no shortcut matches it.
    NoMatch,
    /// The matching categories.
    Categories,
}

impl Body {
    /// The message shown in place of the categories, if any.
    pub fn message(self) -> (m: Option<&'static str>)
        ensures
            match self {
                Body::Empty => m matches Some(s) && s@ == "No shortcuts are configured"@,
                Body::NoMatch => m matches Some(s) && s@ == "No shortcut matches the search"@,
                Body::Categories => m.is_none(),
            },
    {
        proof {
            reveal_strlit("No shortcuts are configured");
            reveal_strlit("No shortcut matches the search");
        }
        match self {
            Body::Empty => Some("No shortcuts are configured"),
            Body::NoMatch => Some("No shortcut matches the search"),
            Body::Categories => None,
        }
    }
}

/// What the body shows for a search: the categories when some entry is
/// listed, otherwise a note that nothing matches the query (when one is
/// active) or that there is nothing at all.
pub fn body(search: &Search) -> (b: Body)
    ensures
        b == if forall|i: int| 0 <= i < search@.categories.len() ==> (#[trigger] search@.categories[i]).entries.len() == 0 {
            if search@.active {
                Body::NoMatch
            } else {
                Body::Empty
            }
        } else {
            Body::Categories
        },
{
    if search.is_empty() {
        if search.active {
            Body::NoMatch
        } else {
            Body::Empty
        }
    } else {
        Body::Categories
    }
}

/// The number of columns to use when `fit` columns fit the width: at
/// least one and at most [`MAX_COLUMNS`].
pub fn column_count(fit: usize) -> (n: usize)
    ensures
        n == if fit < 1 {
            1
        } else if fit > MAX_COLUMNS {
            MAX_COLUMNS as int
        } else {
            fit as int
        },
{
    if fit < 1 {
        1
    } else if fit > MAX_COLUMNS {
        MAX_COLUMNS
    } else {
        fit
    }
}

/// The height a category adds to its column: its rows plus two (title and
/// spacing).
pub open spec fn card_height(size: usize) -> int {
    size + 2
}

/// The height of column `c` once the categories of sizes `sizes` went to
/// the columns `cols` (one per category, in order).
pub open spec fn column_height(cols: Seq<usize>, sizes: Seq<usize>, c: int) -> int
    decreases cols.len(),
{
    if cols.len() == 0 {
        0
    } else {
        column_height(cols.drop_last(), sizes, c) + if cols.last() == c {
            card_height(sizes[cols.len() - 1])
        } else {
            0
        }
    }
}

/// Whether `c` is the first of the lowest columns among `columns`, once
/// the first categories went to `cols`.
pub open spec fn first_lowest(cols: Seq<usize>, sizes: Seq<usize>, columns: nat, c: int) -> bool {
    &&& 0 <= c < columns
    &&& forall|j: int| 0 <= j < columns ==> column_height(cols, sizes, c) <= #[trigger] column_height(cols, sizes, j)
    &&& forall|j: int| 0 <= j < c ==> column_height(cols, sizes, c) < #[trigger] column_height(cols, sizes, j)
}

/// The sum of the heights of the first `n` categories.
pub open spec fn total_height(sizes: Seq<usize>, n: int) -> int
    decreases n,
{
    if n <= 0 {
        0
    } else {
        total_height(sizes, n - 1) + card_height(sizes[n - 1])
    }
}

/// No column is higher than all the categories placed so far together.
proof fn lemma_column_height_bound(cols: Seq<usize>, sizes: Seq<usize>, c: int)
    ensures
        0 <= column_height(cols, sizes, c) <= total_height(sizes, cols.len() as int),
    decreases cols.len(),
{
    if cols.len() > 0 {
        lemma_column_height_bound(cols.drop_last(), sizes, c);
    }
}

/// Lay the categories, of `sizes[i]` rows each, out in `columns` columns:
/// each, in order, goes to the first of the columns that are lowest so far.
/// Returns the column of each category.
pub fn place_in_columns(sizes: &Vec<usize>, columns: usize) -> (cols: Vec<usize>)
    requires
        columns >= 1,
        total_height(sizes@, sizes@.len() as int) <= usize::MAX,
    ensures
        cols@.len() == sizes@.len(),
        forall|i: int| 0 <= i < cols@.len() ==> first_lowest(cols@.take(i), sizes@, columns as nat, #[trigger] cols@[i] as int),
{
    let mut heights: Vec<usize> = Vec::new();
    for c in 0..columns
        invariant
            heights@.len() == c,
            forall|j: int| 0 <= j < c ==> heights@[j] == 0,
    {
        heights.push(0);
    }
    let mut cols: Vec<usize> = Vec::new();
    for i in 0..sizes.len()
        invariant
            columns >= 1,
            total_height(sizes@, sizes@.len() as int) <= usize::MAX,
            heights@.len() == columns,
            cols@.len() == i,
            forall|j: int| 0 <= j < columns ==> #[trigger] heights@[j] == column_height(cols@, sizes@, j),
            forall|q: int| 0 <= q < i ==> first_lowest(cols@.take(q), sizes@, columns as nat, #[trigger] cols@[q] as int),
    {
        let mut best: usize = 0;
        for c in 1..columns
            invariant
                heights@.len() == columns,
                best < c,
                forall|j: int| 0 <= j < c ==> heights@[best as int] <= #[trigger] heights@[j],
                forall|j: int| 0 <= j < best ==> heights@[best as int] < #[trigger] heights@[j],
        {
            if heights[c] < heights[best] {
                best = c;
            }
        }
        proof {
            assert(cols@.take(i as int) =~= cols@);
            assert forall|j: int| 0 <= j < columns implies column_height(cols@, sizes@, best as int) <= #[trigger] column_height(cols@, sizes@, j) by {
                assert(heights@[j] == column_height(cols@, sizes@, j));
            }
            assert forall|j: int| 0 <= j < best implies column_height(cols@, sizes@, best as int) < #[trigger] column_height(cols@, sizes@, j) by {
                assert(heights@[j] == column_height(cols@, sizes@, j));
            }
            assert(first_lowest(cols@.take(i as int), sizes@, columns as nat, best as int));
            lemma_column_height_bound(cols@, sizes@, best as int);
            lemma_total_height_mono(sizes@, i as int + 1, sizes@.len() as int);
            assert(heights@[best as int] == column_height(cols@, sizes@, best as int));
        }
        let ghost before = cols@;
        let h = heights[best] + sizes[i] + 2;
        heights.set(best, h);
        cols.push(best);
        proof {
            assert(cols@.drop_last() =~= before);
            assert forall|j: int| 0 <= j < columns implies #[trigger] heights@[j] == column_height(cols@, sizes@, j) by {
                assert(column_height(cols@, sizes@, j) == column_height(before, sizes@, j) + if j == best as int {
                    card_height(sizes@[i as int])
                } else {
                    0
                });
            }
            assert forall|q: int| 0 <= q < i + 1 implies first_lowest(cols@.take(q), sizes@, columns as nat, #[trigger] cols@[q] as int) by {
                if q < i {
                    assert(cols@.take(q) =~= before.take(q));
                    assert(cols@[q] == before[q]);
                } else {
                    assert(cols@.take(q) =~= before);
                }
            }
        }
    }
    cols
}

/// The total height only grows with more categories.
proof fn lemma_total_height_mono(sizes: Seq<usize>, m: int, n: int)
    requires
        0 <= m <= n,
    ensures
        total_height(sizes, m) <= total_height(sizes, n),
    decreases n - m,
{
    if m < n {
        lemma_total_height_mono(sizes, m, n - 1);
    }
}

/// The tallest card among the first `n` categories.
pub open spec fn tallest(sizes: Seq<usize>, n: int) -> int
    decreases n,
{
    if n <= 0 {
        0
    } else if tallest(sizes, n - 1) >= card_height(sizes[n - 1]) {
        tallest(sizes, n - 1)
    } else {
        card_height(sizes[n - 1])
    }
}

/// Laying categories out in the lowest column keeps the columns balanced:
/// no column is higher than another by more than the tallest card placed.
pub proof fn law_columns_balanced(sizes: Seq<usize>, cols: Seq<usize>, columns: nat)
    requires
        cols.len() <= sizes.len(),
        forall|i: int| 0 <= i < cols.len() ==> first_lowest(cols.take(i), sizes, columns, #[trigger] cols[i] as int),
    ensures
        forall|c: int, d: int| 0 <= c < columns && 0 <= d < columns ==> column_height(cols, sizes, c)
            <= column_height(cols, sizes, d) + tallest(sizes, cols.len() as int),
    decreases cols.len(),
{
    if cols.len() > 0 {
        let n = cols.len() as int;
        let p = cols.drop_last();
        assert forall|i: int| 0 <= i < p.len() implies first_lowest(p.take(i), sizes, columns, #[trigger] p[i] as int) by {
            assert(p.take(i) =~= cols.take(i));
            assert(cols[i] == p[i]);
            assert(first_lowest(cols.take(i), sizes, columns, cols[i] as int));
        }
        law_columns_balanced(sizes, p, columns);
        let m = cols[n - 1] as int;
        assert(cols.take(n - 1) =~= p);
        assert(first_lowest(cols.take(n - 1), sizes, columns, cols[n - 1] as int));
        let h = card_height(sizes[n - 1]);
        assert forall|c: int, d: int| 0 <= c < columns && 0 <= d < columns implies column_height(cols, sizes, c)
            <= column_height(cols, sizes, d) + tallest(sizes, n) by {
            assert(column_height(cols, sizes, c) == column_height(p, sizes, c) + if cols.last() == c { h } else { 0 });
            assert(column_height(cols, sizes, d) == column_height(p, sizes, d) + if cols.last() == d { h } else { 0 });
            assert(column_height(p, sizes, m) <= column_height(p, sizes, d));
            assert(column_height(p, sizes, c) <= column_height(p, sizes, d) + tallest(sizes, n - 1));
        }
    }
}

} // verus!
