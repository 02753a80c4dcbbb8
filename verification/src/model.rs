//! The mathematical model of the edit-distance pipeline: token sequences,
//! cost-matrix cells, the traceback path, and run-length grouping.
//!
//! Contracts of the executable code are stated over these functions, so that
//! every stage of the pipeline is pinned down to a single mathematical value.
use vstd::prelude::*;

verus! {

/// Model of one matrix cell or raw edit: the cumulative cost and the token
/// text(s) involved, as character sequences.
pub enum TransModel {
    Init(nat),
    Equality(nat, Seq<char>),
    Deletion(nat, Seq<char>),
    Insertion(nat, Seq<char>),
    Substitution(nat, Seq<char>, Seq<char>),
}

/// Model of one grouped edit: the concatenated token text(s) of a maximal run
/// of same-kind raw edits.
pub enum EditModel {
    Equality(Seq<char>),
    Deletion(Seq<char>),
    Insertion(Seq<char>),
    Substitution(Seq<char>, Seq<char>),
}

/// Cumulative cost carried by a cell.
pub open spec fn t_cost(t: TransModel) -> nat {
    match t {
        TransModel::Init(c) => c,
        TransModel::Equality(c, _) => c,
        TransModel::Deletion(c, _) => c,
        TransModel::Insertion(c, _) => c,
        TransModel::Substitution(c, _, _) => c,
    }
}

/// Numeric tag of a cell's kind, used to compare kinds when grouping runs.
pub open spec fn t_kind(t: TransModel) -> int {
    match t {
        TransModel::Init(_) => 0,
        TransModel::Equality(_, _) => 1,
        TransModel::Deletion(_, _) => 2,
        TransModel::Insertion(_, _) => 3,
        TransModel::Substitution(_, _, _) => 4,
    }
}

/// Numeric tag of a grouped edit's kind, aligned with `t_kind`.
pub open spec fn e_kind(e: EditModel) -> int {
    match e {
        EditModel::Equality(_) => 1,
        EditModel::Deletion(_) => 2,
        EditModel::Insertion(_) => 3,
        EditModel::Substitution(_, _) => 4,
    }
}

/// The tie-break policy of the matrix builder: the insertion candidate wins
/// over the deletion candidate only at strictly lower cost, and that winner
/// beats the substitution-or-equality candidate only at strictly lower cost.
/// On ties the net priority is substitution/equality, then deletion, then
/// insertion.
pub open spec fn pick_min(ins: TransModel, del: TransModel, soe: TransModel) -> TransModel {
    let ins_v_del = if t_cost(ins) < t_cost(del) {
        ins
    } else {
        del
    };
    if t_cost(ins_v_del) < t_cost(soe) {
        ins_v_del
    } else {
        soe
    }
}

/// The diagonal candidate of a cell: an equality at unchanged cost when the
/// two tokens agree, else a substitution at one more.
pub open spec fn delta_spec(from_cost: nat, origin: Seq<char>, dest: Seq<char>) -> TransModel {
    if origin == dest {
        TransModel::Equality(from_cost, dest)
    } else {
        TransModel::Substitution(from_cost + 1, origin, dest)
    }
}

/// The Levenshtein distance between two token sequences, with unit costs.
pub open spec fn lev_dist(a: Seq<Seq<char>>, b: Seq<Seq<char>>) -> nat
    decreases a.len() + b.len(),
{
    if a.len() == 0 {
        b.len()
    } else if b.len() == 0 {
        a.len()
    } else {
        let del = lev_dist(a.drop_last(), b) + 1;
        let ins = lev_dist(a, b.drop_last()) + 1;
        let soe = lev_dist(a.drop_last(), b.drop_last()) + (if a.last() == b.last() {
            0nat
        } else {
            1nat
        });
        min3(del, ins, soe)
    }
}

/// The smaller of two naturals.
pub open spec fn min2(x: nat, y: nat) -> nat {
    if x <= y {
        x
    } else {
        y
    }
}

/// The smallest of three naturals.
pub open spec fn min3(x: nat, y: nat, z: nat) -> nat {
    min2(min2(x, y), z)
}

/// The cell of the cost matrix at coordinates (x, y): the minimum edit
/// distance between the first x origin tokens and the first y dest tokens,
/// together with the operation chosen by the tie-break policy.
pub open spec fn cell_spec(a: Seq<Seq<char>>, b: Seq<Seq<char>>, x: int, y: int) -> TransModel
    recommends
        0 <= x <= a.len(),
        0 <= y <= b.len(),
    decreases x + y,
        when x >= 0 && y >= 0
{
    if x <= 0 && y <= 0 {
        TransModel::Init(0)
    } else if y <= 0 {
        TransModel::Deletion(x as nat, a[x - 1])
    } else if x <= 0 {
        TransModel::Insertion(y as nat, b[y - 1])
    } else {
        let del = TransModel::Deletion(t_cost(cell_spec(a, b, x - 1, y)) + 1, a[x - 1]);
        let ins = TransModel::Insertion(t_cost(cell_spec(a, b, x, y - 1)) + 1, b[y - 1]);
        let soe = delta_spec(t_cost(cell_spec(a, b, x - 1, y - 1)), a[x - 1], b[y - 1]);
        pick_min(ins, del, soe)
    }
}

/// A cell's cost never exceeds the sum of its coordinates: at worst every
/// origin token is deleted and every dest token inserted.
pub proof fn lemma_cell_cost_bound(a: Seq<Seq<char>>, b: Seq<Seq<char>>, x: int, y: int)
    requires
        0 <= x <= a.len(),
        0 <= y <= b.len(),
    ensures
        t_cost(cell_spec(a, b, x, y)) <= x + y,
    decreases x + y,
{
    if x > 0 && y > 0 {
        lemma_cell_cost_bound(a, b, x - 1, y);
        lemma_cell_cost_bound(a, b, x, y - 1);
        lemma_cell_cost_bound(a, b, x - 1, y - 1);
    }
}

/// Away from the start corner a cell is never `Init`, and its kind and
/// token(s) agree with its coordinates, so the traceback cursor always has a
/// valid move.
pub proof fn lemma_cell_shape(a: Seq<Seq<char>>, b: Seq<Seq<char>>, x: int, y: int)
    requires
        0 <= x <= a.len(),
        0 <= y <= b.len(),
        !(x == 0 && y == 0),
    ensures
        !(cell_spec(a, b, x, y) is Init),
        cell_spec(a, b, x, y) matches TransModel::Insertion(_, tok) ==> y > 0 && tok == b[y - 1],
        cell_spec(a, b, x, y) matches TransModel::Deletion(_, tok) ==> x > 0 && tok == a[x - 1],
        cell_spec(a, b, x, y) matches TransModel::Equality(_, tok) ==> x > 0 && y > 0 && tok == b[y
            - 1] && a[x - 1] == b[y - 1],
        cell_spec(a, b, x, y) matches TransModel::Substitution(_, o, d) ==> x > 0 && y > 0 && o
            == a[x - 1] && d == b[y - 1] && a[x - 1] != b[y - 1],
{
}

/// The cost stored at (x, y) is the Levenshtein distance between the first
/// x origin tokens and the first y dest tokens.
pub proof fn lemma_cell_cost_is_dist(a: Seq<Seq<char>>, b: Seq<Seq<char>>, x: int, y: int)
    requires
        0 <= x <= a.len(),
        0 <= y <= b.len(),
    ensures
        t_cost(cell_spec(a, b, x, y)) == lev_dist(a.take(x), b.take(y)),
    decreases x + y,
{
    assert(a.take(x).len() == x);
    assert(b.take(y).len() == y);
    if x > 0 && y > 0 {
        lemma_cell_cost_is_dist(a, b, x - 1, y);
        lemma_cell_cost_is_dist(a, b, x, y - 1);
        lemma_cell_cost_is_dist(a, b, x - 1, y - 1);
        assert(a.take(x).drop_last() =~= a.take(x - 1));
        assert(b.take(y).drop_last() =~= b.take(y - 1));
        assert(a.take(x).last() == a[x - 1]);
        assert(b.take(y).last() == b[y - 1]);
    }
}

/// The ordered (origin-to-dest direction) raw edit path reconstructed by
/// walking the matrix backward from (x, y): the cell at the cursor is
/// emitted and the cursor moves according to the cell's kind.
pub open spec fn traceback_spec(a: Seq<Seq<char>>, b: Seq<Seq<char>>, x: int, y: int) -> Seq<
    TransModel,
>
    recommends
        0 <= x <= a.len(),
        0 <= y <= b.len(),
    decreases x + y,
        when x >= 0 && y >= 0
{
    if x <= 0 && y <= 0 {
        Seq::empty()
    } else {
        let c = cell_spec(a, b, x, y);
        if c is Insertion && y > 0 {
            traceback_spec(a, b, x, y - 1).push(c)
        } else if c is Deletion && x > 0 {
            traceback_spec(a, b, x - 1, y).push(c)
        } else if (c is Equality || c is Substitution) && x > 0 && y > 0 {
            traceback_spec(a, b, x - 1, y - 1).push(c)
        } else {
            Seq::empty()
        }
    }
}

/// The origin-side text a raw edit contributes: its token for an equality or
/// a deletion, its origin token for a substitution, nothing otherwise.
pub open spec fn origin_part(t: TransModel) -> Seq<char> {
    match t {
        TransModel::Init(_) => Seq::empty(),
        TransModel::Equality(_, tok) => tok,
        TransModel::Deletion(_, tok) => tok,
        TransModel::Insertion(_, _) => Seq::empty(),
        TransModel::Substitution(_, o, _) => o,
    }
}

/// The dest-side text a raw edit contributes: its token for an equality or
/// an insertion, its dest token for a substitution, nothing otherwise.
pub open spec fn dest_part(t: TransModel) -> Seq<char> {
    match t {
        TransModel::Init(_) => Seq::empty(),
        TransModel::Equality(_, tok) => tok,
        TransModel::Deletion(_, _) => Seq::empty(),
        TransModel::Insertion(_, tok) => tok,
        TransModel::Substitution(_, _, d) => d,
    }
}

/// Concatenation of the origin-side texts of a raw edit sequence.
pub open spec fn raw_origin_text(s: Seq<TransModel>) -> Seq<char>
    decreases s.len(),
{
    if s.len() == 0 {
        Seq::empty()
    } else {
        raw_origin_text(s.drop_last()) + origin_part(s.last())
    }
}

/// Concatenation of the dest-side texts of a raw edit sequence.
pub open spec fn raw_dest_text(s: Seq<TransModel>) -> Seq<char>
    decreases s.len(),
{
    if s.len() == 0 {
        Seq::empty()
    } else {
        raw_dest_text(s.drop_last()) + dest_part(s.last())
    }
}

/// A fresh grouped edit holding just the text(s) of one raw edit.
pub open spec fn new_edit(t: TransModel) -> EditModel {
    match t {
        TransModel::Init(_) => EditModel::Equality(Seq::empty()),
        TransModel::Equality(_, tok) => EditModel::Equality(tok),
        TransModel::Deletion(_, tok) => EditModel::Deletion(tok),
        TransModel::Insertion(_, tok) => EditModel::Insertion(tok),
        TransModel::Substitution(_, o, d) => EditModel::Substitution(o, d),
    }
}

/// A grouped edit extended on the right by the text(s) of one more raw edit
/// of the same kind.
pub open spec fn merge_edit(e: EditModel, t: TransModel) -> EditModel {
    match e {
        EditModel::Equality(txt) => EditModel::Equality(txt + origin_part(t)),
        EditModel::Deletion(txt) => EditModel::Deletion(txt + origin_part(t)),
        EditModel::Insertion(txt) => EditModel::Insertion(txt + dest_part(t)),
        EditModel::Substitution(o, d) => EditModel::Substitution(
            o + origin_part(t),
            d + dest_part(t),
        ),
    }
}

/// Run-length grouping of a raw edit sequence: each raw edit merges into the
/// last group when the kinds agree, and opens a new group otherwise.
pub open spec fn group_spec(s: Seq<TransModel>) -> Seq<EditModel>
    decreases s.len(),
{
    if s.len() == 0 {
        Seq::empty()
    } else {
        let g = group_spec(s.drop_last());
        let t = s.last();
        if g.len() > 0 && e_kind(g.last()) == t_kind(t) {
            g.drop_last().push(merge_edit(g.last(), t))
        } else {
            g.push(new_edit(t))
        }
    }
}

/// The text a raw edit feeds into the primary accumulator when grouping:
/// its token for an equality, deletion or insertion, and the origin-side
/// token for a substitution.
pub open spec fn prim_part(t: TransModel) -> Seq<char> {
    match t {
        TransModel::Init(_) => Seq::empty(),
        TransModel::Equality(_, tok) => tok,
        TransModel::Deletion(_, tok) => tok,
        TransModel::Insertion(_, tok) => tok,
        TransModel::Substitution(_, o, _) => o,
    }
}

/// The text a raw edit feeds into the secondary accumulator when grouping:
/// the dest-side token of a substitution, nothing otherwise.
pub open spec fn sec_part(t: TransModel) -> Seq<char> {
    match t {
        TransModel::Substitution(_, _, d) => d,
        _ => Seq::empty(),
    }
}

/// The grouped edit a kind tag and the two accumulated texts denote.
pub open spec fn make_edit(k: int, prim: Seq<char>, sec: Seq<char>) -> EditModel {
    if k == 1 {
        EditModel::Equality(prim)
    } else if k == 2 {
        EditModel::Deletion(prim)
    } else if k == 3 {
        EditModel::Insertion(prim)
    } else {
        EditModel::Substitution(prim, sec)
    }
}

/// Every edit of a traceback path is a genuine operation: the start
/// sentinel `Init` never appears on the path.
pub proof fn lemma_traceback_kinds(a: Seq<Seq<char>>, b: Seq<Seq<char>>, x: int, y: int)
    requires
        0 <= x <= a.len(),
        0 <= y <= b.len(),
    ensures
        forall|i: int|
            0 <= i < traceback_spec(a, b, x, y).len() ==> 1 <= t_kind(
                #[trigger] traceback_spec(a, b, x, y)[i],
            ) <= 4,
    decreases x + y,
{
    if !(x == 0 && y == 0) {
        lemma_cell_shape(a, b, x, y);
        let c = cell_spec(a, b, x, y);
        let prev = if c is Insertion {
            lemma_traceback_kinds(a, b, x, y - 1);
            traceback_spec(a, b, x, y - 1)
        } else if c is Deletion {
            lemma_traceback_kinds(a, b, x - 1, y);
            traceback_spec(a, b, x - 1, y)
        } else {
            lemma_traceback_kinds(a, b, x - 1, y - 1);
            traceback_spec(a, b, x - 1, y - 1)
        };
        assert(traceback_spec(a, b, x, y) == prev.push(c));
        assert forall|i: int| 0 <= i < traceback_spec(a, b, x, y).len() implies 1 <= t_kind(
            #[trigger] traceback_spec(a, b, x, y)[i],
        ) <= 4 by {
            if i < prev.len() {
                assert(traceback_spec(a, b, x, y)[i] == prev[i]);
                assert(1 <= t_kind(prev[i]) <= 4);
            } else {
                assert(traceback_spec(a, b, x, y)[i] == c);
            }
        }
    }
}

/// The origin-side text a grouped edit carries.
pub open spec fn edit_origin_part(e: EditModel) -> Seq<char> {
    match e {
        EditModel::Equality(txt) => txt,
        EditModel::Deletion(txt) => txt,
        EditModel::Insertion(_) => Seq::empty(),
        EditModel::Substitution(o, _) => o,
    }
}

/// The dest-side text a grouped edit carries.
pub open spec fn edit_dest_part(e: EditModel) -> Seq<char> {
    match e {
        EditModel::Equality(txt) => txt,
        EditModel::Deletion(_) => Seq::empty(),
        EditModel::Insertion(txt) => txt,
        EditModel::Substitution(_, d) => d,
    }
}

/// Concatenation of the origin-side texts of a grouped edit sequence.
pub open spec fn edits_origin_text(g: Seq<EditModel>) -> Seq<char>
    decreases g.len(),
{
    if g.len() == 0 {
        Seq::empty()
    } else {
        edits_origin_text(g.drop_last()) + edit_origin_part(g.last())
    }
}

/// Concatenation of the dest-side texts of a grouped edit sequence.
pub open spec fn edits_dest_text(g: Seq<EditModel>) -> Seq<char>
    decreases g.len(),
{
    if g.len() == 0 {
        Seq::empty()
    } else {
        edits_dest_text(g.drop_last()) + edit_dest_part(g.last())
    }
}

} // verus!
