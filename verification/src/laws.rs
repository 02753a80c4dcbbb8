//! The general laws of the pipeline, proved once and for all over the
//! model: metric laws of the distance, the reconstruction law of the
//! grouped edits, and the alternation of grouped edit kinds.
use crate::model::{
    cell_spec, dest_part, e_kind, edit_dest_part, edit_origin_part, edits_dest_text,
    edits_origin_text, group_spec, lemma_cell_shape, lev_dist, merge_edit, new_edit, origin_part,
    raw_dest_text, raw_origin_text, t_kind, traceback_spec, TransModel,
};
use vstd::prelude::*;

verus! {

/// Distance to or from the empty text is the token count of the other text.
pub proof fn lemma_distance_empty(s: Seq<Seq<char>>)
    ensures
        lev_dist(Seq::empty(), s) == s.len(),
        lev_dist(s, Seq::empty()) == s.len(),
{
}

/// A text is at distance zero from itself.
pub proof fn lemma_distance_self(a: Seq<Seq<char>>)
    ensures
        lev_dist(a, a) == 0,
    decreases a.len(),
{
    if a.len() > 0 {
        lemma_distance_self(a.drop_last());
    }
}

/// The distance is symmetric: deletions one way are insertions the other.
pub proof fn lemma_distance_symmetry(a: Seq<Seq<char>>, b: Seq<Seq<char>>)
    ensures
        lev_dist(a, b) == lev_dist(b, a),
    decreases a.len() + b.len(),
{
    if a.len() > 0 && b.len() > 0 {
        lemma_distance_symmetry(a.drop_last(), b);
        lemma_distance_symmetry(a, b.drop_last());
        lemma_distance_symmetry(a.drop_last(), b.drop_last());
    }
}

/// The distance never exceeds deleting every origin token and inserting
/// every dest token.
proof fn lemma_dist_upper(a: Seq<Seq<char>>, b: Seq<Seq<char>>)
    ensures
        lev_dist(a, b) <= a.len() + b.len(),
    decreases a.len() + b.len(),
{
    if a.len() > 0 && b.len() > 0 {
        lemma_dist_upper(a.drop_last(), b.drop_last());
    }
}

/// The distance is at least the difference of the two lengths.
proof fn lemma_dist_lower(a: Seq<Seq<char>>, b: Seq<Seq<char>>)
    ensures
        lev_dist(a, b) + b.len() >= a.len(),
        lev_dist(a, b) + a.len() >= b.len(),
    decreases a.len() + b.len(),
{
    if a.len() > 0 && b.len() > 0 {
        lemma_dist_lower(a.drop_last(), b);
        lemma_dist_lower(a, b.drop_last());
        lemma_dist_lower(a.drop_last(), b.drop_last());
    }
}

/// Dropping the last origin token moves the distance by at most one,
/// in either direction.
proof fn lemma_dist_drop(a: Seq<Seq<char>>, b: Seq<Seq<char>>)
    requires
        a.len() > 0,
    ensures
        lev_dist(a, b) <= lev_dist(a.drop_last(), b) + 1,
        lev_dist(a.drop_last(), b) <= lev_dist(a, b) + 1,
    decreases a.len() + b.len(),
{
    let a1 = a.drop_last();
    if b.len() == 0 {
        assert(a1.len() == a.len() - 1);
    } else {
        let b1 = b.drop_last();
        lemma_dist_drop(a, b1);
        if a1.len() > 0 {
            assert(lev_dist(a1, b) <= lev_dist(a1, b1) + 1);
        }
    }
}

/// The triangle inequality: editing through an intermediate text is never
/// cheaper than editing directly.
pub proof fn lemma_distance_triangle(a: Seq<Seq<char>>, b: Seq<Seq<char>>, c: Seq<Seq<char>>)
    ensures
        lev_dist(a, c) <= lev_dist(a, b) + lev_dist(b, c),
    decreases a.len() + b.len() + c.len(),
{
    if b.len() == 0 {
        lemma_dist_upper(a, c);
    } else if a.len() == 0 {
        lemma_dist_lower(b, c);
    } else if c.len() == 0 {
        lemma_dist_lower(a, b);
    } else {
        let a1 = a.drop_last();
        let b1 = b.drop_last();
        let c1 = c.drop_last();
        let dab = lev_dist(a, b);
        let dbc = lev_dist(b, c);
        let delta_ab: nat = if a.last() == b.last() {
            0
        } else {
            1
        };
        let delta_bc: nat = if b.last() == c.last() {
            0
        } else {
            1
        };
        let delta_ac: nat = if a.last() == c.last() {
            0
        } else {
            1
        };
        if dab == lev_dist(a1, b) + 1 {
            lemma_distance_triangle(a1, b, c);
            lemma_dist_drop(a, c);
        } else if dab == lev_dist(a, b1) + 1 {
            lemma_distance_triangle(a, b1, c);
            lemma_dist_drop(b, c);
        } else {
            assert(dab == lev_dist(a1, b1) + delta_ab);
            if dbc == lev_dist(b1, c) + 1 {
                lemma_distance_triangle(a, b1, c);
                lemma_dist_drop(a, b1);
            } else if dbc == lev_dist(b, c1) + 1 {
                lemma_distance_triangle(a, b, c1);
                lemma_distance_symmetry(a, c);
                lemma_distance_symmetry(a, c1);
                lemma_dist_drop(c, a);
            } else {
                assert(dbc == lev_dist(b1, c1) + delta_bc);
                lemma_distance_triangle(a1, b1, c1);
                assert(lev_dist(a, c) <= lev_dist(a1, c1) + delta_ac);
                assert(delta_ac <= delta_ab + delta_bc);
            }
        }
    }
}

/// The origin-side texts of a traceback path from (0, 0) to (x, y) are
/// exactly the first x origin tokens, and the dest-side texts the first y
/// dest tokens.
proof fn lemma_traceback_texts(a: Seq<Seq<char>>, b: Seq<Seq<char>>, x: int, y: int)
    requires
        0 <= x <= a.len(),
        0 <= y <= b.len(),
    ensures
        raw_origin_text(traceback_spec(a, b, x, y)) == a.take(x).flatten(),
        raw_dest_text(traceback_spec(a, b, x, y)) == b.take(y).flatten(),
    decreases x + y,
{
    let path = traceback_spec(a, b, x, y);
    if x == 0 && y == 0 {
        assert(a.take(0) =~= Seq::<Seq<char>>::empty());
        assert(b.take(0) =~= Seq::<Seq<char>>::empty());
    } else {
        lemma_cell_shape(a, b, x, y);
        let c = cell_spec(a, b, x, y);
        let (x1, y1): (int, int) = if c is Insertion {
            (x, y - 1)
        } else if c is Deletion {
            (x - 1, y)
        } else {
            (x - 1, y - 1)
        };
        lemma_traceback_texts(a, b, x1, y1);
        let prev = traceback_spec(a, b, x1, y1);
        assert(path == prev.push(c));
        assert(path.drop_last() =~= prev);
        assert(path.last() == c);
        if x1 < x {
            assert(a.take(x) =~= a.take(x1).push(a[x - 1]));
            a.take(x1).lemma_flatten_push(a[x - 1]);
            assert(origin_part(c) == a[x - 1]);
        } else {
            assert(origin_part(c) =~= Seq::<char>::empty());
            assert(a.take(x).flatten() + Seq::<char>::empty() =~= a.take(x).flatten());
        }
        if y1 < y {
            assert(b.take(y) =~= b.take(y1).push(b[y - 1]));
            b.take(y1).lemma_flatten_push(b[y - 1]);
            assert(dest_part(c) == b[y - 1]);
        } else {
            assert(dest_part(c) =~= Seq::<char>::empty());
            assert(b.take(y).flatten() + Seq::<char>::empty() =~= b.take(y).flatten());
        }
    }
}

/// Grouping keeps both side texts: the runs only re-bracket the
/// concatenation.
proof fn lemma_group_texts(s: Seq<TransModel>)
    ensures
        edits_origin_text(group_spec(s)) == raw_origin_text(s),
        edits_dest_text(group_spec(s)) == raw_dest_text(s),
    decreases s.len(),
{
    if s.len() > 0 {
        lemma_group_texts(s.drop_last());
        let g = group_spec(s.drop_last());
        let t = s.last();
        if g.len() > 0 && e_kind(g.last()) == t_kind(t) {
            let m = merge_edit(g.last(), t);
            let gnew = g.drop_last().push(m);
            assert(group_spec(s) == gnew);
            assert(gnew.drop_last() =~= g.drop_last());
            assert(gnew.last() == m);
            assert(edit_origin_part(m) =~= edit_origin_part(g.last()) + origin_part(t));
            assert(edit_dest_part(m) =~= edit_dest_part(g.last()) + dest_part(t));
            assert(edits_origin_text(g.drop_last()) + (edit_origin_part(g.last()) + origin_part(t))
                =~= (edits_origin_text(g.drop_last()) + edit_origin_part(g.last())) + origin_part(
                t,
            ));
            assert(edits_dest_text(g.drop_last()) + (edit_dest_part(g.last()) + dest_part(t)) =~= (
            edits_dest_text(g.drop_last()) + edit_dest_part(g.last())) + dest_part(t));
        } else {
            let gnew = g.push(new_edit(t));
            assert(group_spec(s) == gnew);
            assert(gnew.drop_last() =~= g);
            assert(gnew.last() == new_edit(t));
            assert(edit_origin_part(new_edit(t)) =~= origin_part(t));
            assert(edit_dest_part(new_edit(t)) =~= dest_part(t));
        }
    }
}

/// The reconstruction law: over the grouped edits of a token pair, the
/// equality and deletion texts (with a substitution's origin side) rebuild
/// the origin text, and the equality and insertion texts (with a
/// substitution's dest side) rebuild the dest text.
pub proof fn lemma_reconstruction(a: Seq<Seq<char>>, b: Seq<Seq<char>>)
    ensures
        edits_origin_text(group_spec(traceback_spec(a, b, a.len() as int, b.len() as int)))
            == a.flatten(),
        edits_dest_text(group_spec(traceback_spec(a, b, a.len() as int, b.len() as int)))
            == b.flatten(),
{
    lemma_traceback_texts(a, b, a.len() as int, b.len() as int);
    lemma_group_texts(traceback_spec(a, b, a.len() as int, b.len() as int));
    assert(a.take(a.len() as int) =~= a);
    assert(b.take(b.len() as int) =~= b);
}

/// Grouping is idempotent: no two adjacent grouped edits share a kind, and
/// the last group has the kind of the last raw edit.
pub proof fn lemma_groups_alternate(s: Seq<TransModel>)
    requires
        forall|i: int| 0 <= i < s.len() ==> t_kind(#[trigger] s[i]) != 0,
    ensures
        s.len() == 0 <==> group_spec(s).len() == 0,
        s.len() > 0 ==> e_kind(group_spec(s).last()) == t_kind(s.last()),
        forall|i: int|
            0 <= i < group_spec(s).len() - 1 ==> e_kind(#[trigger] group_spec(s)[i]) != e_kind(
                group_spec(s)[i + 1],
            ),
    decreases s.len(),
{
    if s.len() > 0 {
        let s1 = s.drop_last();
        assert(forall|i: int| 0 <= i < s1.len() ==> t_kind(#[trigger] s1[i]) != 0) by {
            assert(forall|i: int| 0 <= i < s1.len() ==> s1[i] == s[i]);
        }
        lemma_groups_alternate(s1);
        let g = group_spec(s1);
        let t = s.last();
        assert(t_kind(t) != 0);
        let gnew = group_spec(s);
        if g.len() > 0 && e_kind(g.last()) == t_kind(t) {
            assert(gnew == g.drop_last().push(merge_edit(g.last(), t)));
            assert(gnew.len() == g.len());
            assert(e_kind(merge_edit(g.last(), t)) == e_kind(g.last()));
            assert forall|i: int| 0 <= i < gnew.len() - 1 implies e_kind(#[trigger] gnew[i])
                != e_kind(gnew[i + 1]) by {
                assert(e_kind(gnew[i]) == e_kind(g[i]));
                assert(e_kind(gnew[i + 1]) == e_kind(g[i + 1]));
                assert(e_kind(g[i]) != e_kind(g[i + 1]));
            }
        } else {
            assert(gnew == g.push(new_edit(t)));
            assert(e_kind(new_edit(t)) == t_kind(t));
            assert forall|i: int| 0 <= i < gnew.len() - 1 implies e_kind(#[trigger] gnew[i])
                != e_kind(gnew[i + 1]) by {
                if i + 1 < g.len() {
                    assert(gnew[i] == g[i]);
                    assert(gnew[i + 1] == g[i + 1]);
                    assert(e_kind(g[i]) != e_kind(g[i + 1]));
                } else {
                    assert(gnew[i] == g.last());
                    assert(gnew[i + 1] == new_edit(t));
                    assert(s1.len() > 0);
                    assert(e_kind(g.last()) != t_kind(t));
                }
            }
        }
    }
}

} // verus!
