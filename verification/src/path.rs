//! Unix paths as `std::path::Path` reads them: the components of a path,
//! its file name, and component-wise prefixes.

use vstd::prelude::*;
use crate::text::same_chars;

verus! {

/// The pieces of a path between `/` separators, in order, empty pieces
/// included (there is always at least one).
pub open spec fn segments(p: Seq<char>) -> Seq<Seq<char>>
    decreases p.len(),
{
    if p.len() == 0 {
        seq![seq![]]
    } else {
        let w = segments(p.drop_last());
        if p.last() == '/' {
            w.push(seq![])
        } else {
            w.update(w.len() - 1, w.last().push(p.last()))
        }
    }
}

/// Whether a piece between separators names something (it is neither empty
/// nor `.`).
pub open spec fn is_named(piece: Seq<char>) -> bool {
    piece.len() > 0 && piece != seq!['.']
}

/// The component written for the root directory.
pub open spec fn root_dir() -> Seq<char> {
    seq!['/']
}

/// The component written for a leading current directory.
pub open spec fn cur_dir() -> Seq<char> {
    seq!['.']
}

/// The component written for a parent directory.
pub open spec fn parent_dir() -> Seq<char> {
    seq!['.', '.']
}

/// The components of a path: the root (`/`) when the path is absolute, a
/// leading `.` when it starts with `./` or is `.`, then every piece between
/// separators that is neither empty nor `.`.
pub open spec fn components(p: Seq<char>) -> Seq<Seq<char>> {
    let named = segments(p).filter(|x: Seq<char>| is_named(x));
    if p.len() > 0 && p[0] == '/' {
        seq![root_dir()] + named
    } else if p.len() > 0 && p[0] == '.' && (p.len() == 1 || p[1] == '/') {
        seq![cur_dir()] + named
    } else {
        named
    }
}

/// The final component of a path when it is a name (not the root, `.` or
/// `..`), as `Path::file_name` gives it.
pub open spec fn file_name(p: Seq<char>) -> Option<Seq<char>> {
    let c = components(p);
    if c.len() > 0 && c.last() != root_dir() && c.last() != cur_dir() && c.last() != parent_dir() {
        Some(c.last())
    } else {
        None
    }
}

/// Whether the components `base` begin the components of `p`, as
/// `Path::starts_with` compares them.
pub open spec fn starts_with_components(p: Seq<char>, base: Seq<Seq<char>>) -> bool {
    base.len() <= components(p).len() && components(p).take(base.len() as int) == base
}

proof fn lemma_segments_nonempty(p: Seq<char>)
    ensures
        segments(p).len() >= 1,
    decreases p.len(),
{
    if p.len() > 0 {
        lemma_segments_nonempty(p.drop_last());
    }
}

/// Views of the pieces held in a vector of character vectors.
pub open spec fn pieces(v: Seq<Vec<char>>) -> Seq<Seq<char>> {
    v.map_values(|w: Vec<char>| w@)
}

/// The components of the path `p`.
pub fn path_components(p: &Vec<char>) -> (out: Vec<Vec<char>>)
    ensures
        pieces(out@) == components(p@),
{
    broadcast use vstd::seq_lib::group_seq_properties;
    let mut done: Vec<Vec<char>> = Vec::new();
    let mut cur: Vec<char> = Vec::new();
    let mut i: usize = 0;
    proof {
        assert(p@.take(0) =~= Seq::<char>::empty());
        reveal_with_fuel(Seq::filter, 1);
    }
    while i < p.len()
        invariant
            i <= p@.len(),
            segments(p@.take(i as int)).len() >= 1,
            cur@ == segments(p@.take(i as int)).last(),
            pieces(done@) == segments(p@.take(i as int)).drop_last().filter(
                |x: Seq<char>| is_named(x),
            ),
        decreases p@.len() - i,
    {
        let c = p[i];
        let ghost before = p@.take(i as int);
        let ghost after = p@.take(i + 1);
        let ghost old_segs = segments(before);
        assert(after.drop_last() =~= before);
        assert(after.last() == c);
        proof {
            lemma_segments_nonempty(before);
            lemma_segments_nonempty(after);
        }
        if c == '/' {
            assert(segments(after) == old_segs.push(seq![]));
            assert(segments(after).drop_last() =~= old_segs);
            assert(old_segs =~= old_segs.drop_last().push(old_segs.last()));
            proof {
                old_segs.drop_last().lemma_filter_push(old_segs.last(), |x: Seq<char>| is_named(x));
            }
            let ghost old_done = pieces(done@);
            let named = cur.len() > 0 && !(cur.len() == 1 && cur[0] == '.');
            assert(named == is_named(cur@)) by {
                if cur@.len() == 1 && cur@[0] == '.' {
                    assert(cur@ =~= seq!['.']);
                }
            }
            if named {
                done.push(cur);
                assert(pieces(done@) =~= old_done.push(old_segs.last()));
            }
            cur = Vec::new();
            assert(cur@ =~= segments(after).last());
        } else {
            cur.push(c);
            assert(segments(after).drop_last() =~= old_segs.drop_last());
        }
        i = i + 1;
    }
    assert(p@.take(p@.len() as int) =~= p@);
    let ghost segs = segments(p@);
    assert(segs =~= segs.drop_last().push(segs.last()));
    proof {
        segs.drop_last().lemma_filter_push(segs.last(), |x: Seq<char>| is_named(x));
    }
    let named = cur.len() > 0 && !(cur.len() == 1 && cur[0] == '.');
    assert(named == is_named(cur@)) by {
        if cur@.len() == 1 && cur@[0] == '.' {
            assert(cur@ =~= seq!['.']);
        }
    }
    if named {
        done.push(cur);
    }
    let ghost named_all = pieces(done@);
    assert(named_all == segs.filter(|x: Seq<char>| is_named(x)));
    let mut out: Vec<Vec<char>> = Vec::new();
    if p.len() > 0 && p[0] == '/' {
        let mut r: Vec<char> = Vec::new();
        r.push('/');
        out.push(r);
    } else if p.len() > 0 && p[0] == '.' && (p.len() == 1 || p[1] == '/') {
        let mut r: Vec<char> = Vec::new();
        r.push('.');
        out.push(r);
    }
    let ghost head = pieces(out@);
    out.append(&mut done);
    assert(pieces(out@) =~= head + named_all);
    assert(pieces(out@) =~= components(p@));
    out
}

/// Whether `name` is the file name of the path `p`.
pub fn file_name_is(p: &Vec<char>, name: &Vec<char>) -> (b: bool)
    ensures
        b == (file_name(p@) == Some(name@)),
{
    let comps = path_components(p);
    if comps.len() == 0 {
        return false;
    }
    let last = &comps[comps.len() - 1];
    let ghost l = components(p@).last();
    assert(last@ == l);
    let is_root = last.len() == 1 && last[0] == '/';
    let is_cur = last.len() == 1 && last[0] == '.';
    let is_parent = last.len() == 2 && last[0] == '.' && last[1] == '.';
    assert(is_root == (l == root_dir())) by {
        if last@.len() == 1 && last@[0] == '/' { assert(l =~= root_dir()); }
    }
    assert(is_cur == (l == cur_dir())) by {
        if last@.len() == 1 && last@[0] == '.' { assert(l =~= cur_dir()); }
    }
    assert(is_parent == (l == parent_dir())) by {
        if last@.len() == 2 && last@[0] == '.' && last@[1] == '.' { assert(l =~= parent_dir()); }
    }
    if is_root || is_cur || is_parent {
        return false;
    }
    same_chars(last, name)
}

/// Whether the components of `p` begin with the components `base`.
pub fn starts_with_pieces(p: &Vec<char>, base: &Vec<Vec<char>>) -> (b: bool)
    ensures
        b == starts_with_components(p@, pieces(base@)),
{
    let comps = path_components(p);
    if base.len() > comps.len() {
        return false;
    }
    for i in 0..base.len()
        invariant
            base@.len() <= comps@.len(),
            pieces(comps@) == components(p@),
            forall|j: int| 0 <= j < i ==> pieces(comps@)[j] == pieces(base@)[j],
    {
        if !same_chars(&comps[i], &base[i]) {
            assert(components(p@).take(base@.len() as int)[i as int] != pieces(base@)[i as int]);
            return false;
        }
    }
    assert(components(p@).take(base@.len() as int) =~= pieces(base@));
    true
}

} // verus!
