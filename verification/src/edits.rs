//! The executable edit datatypes: matrix cells / raw edits
//! ([`Transformation`]) and grouped edits ([`Edit`]), with the two leaf
//! functions that pick a cell's operation.
use crate::model::{delta_spec, pick_min, t_cost, t_kind, EditModel, TransModel};
use vstd::prelude::*;

verus! {

/// One cell of the cost matrix, and equally one raw edit of the traceback
/// path: the cumulative cost and the token(s) involved.
#[derive(Debug, PartialEq)]
pub enum Transformation {
    Init(usize),
    Equality(usize, String),
    Deletion(usize, String),
    Insertion(usize, String),
    Substitution(usize, String, String),
}

/// A maximal run of consecutive same-kind raw edits, collapsed into one
/// record carrying the concatenated token text(s).
#[derive(Debug, PartialEq)]
pub enum Edit {
    Equality(String),
    Deletion(String),
    Insertion(String),
    Substitution(String, String),
}

impl View for Transformation {
    type V = TransModel;

    open spec fn view(&self) -> TransModel {
        match self {
            Transformation::Init(c) => TransModel::Init(*c as nat),
            Transformation::Equality(c, tok) => TransModel::Equality(*c as nat, tok@),
            Transformation::Deletion(c, tok) => TransModel::Deletion(*c as nat, tok@),
            Transformation::Insertion(c, tok) => TransModel::Insertion(*c as nat, tok@),
            Transformation::Substitution(c, o, d) => TransModel::Substitution(
                *c as nat,
                o@,
                d@,
            ),
        }
    }
}

impl View for Edit {
    type V = EditModel;

    open spec fn view(&self) -> EditModel {
        match self {
            Edit::Equality(txt) => EditModel::Equality(txt@),
            Edit::Deletion(txt) => EditModel::Deletion(txt@),
            Edit::Insertion(txt) => EditModel::Insertion(txt@),
            Edit::Substitution(o, d) => EditModel::Substitution(o@, d@),
        }
    }
}

impl Clone for Transformation {
    fn clone(&self) -> (r: Self)
        ensures
            r == *self,
    {
        match self {
            Transformation::Init(c) => Transformation::Init(*c),
            Transformation::Equality(c, tok) => Transformation::Equality(*c, tok.clone()),
            Transformation::Deletion(c, tok) => Transformation::Deletion(*c, tok.clone()),
            Transformation::Insertion(c, tok) => Transformation::Insertion(*c, tok.clone()),
            Transformation::Substitution(c, o, d) => Transformation::Substitution(
                *c,
                o.clone(),
                d.clone(),
            ),
        }
    }
}

impl Transformation {
    /// The cumulative cost this cell carries.
    pub fn cost(&self) -> (r: usize)
        ensures
            r == t_cost(self@),
    {
        match self {
            Self::Init(c) => *c,
            Self::Equality(c, _) => *c,
            Self::Deletion(c, _) => *c,
            Self::Insertion(c, _) => *c,
            Self::Substitution(c, _, _) => *c,
        }
    }

    /// The numeric tag of this cell's kind, used to compare kinds when
    /// grouping runs.
    pub fn t(&self) -> (r: usize)
        ensures
            r == t_kind(self@),
    {
        match self {
            Self::Init(_) => 0,
            Self::Equality(_, _) => 1,
            Self::Deletion(_, _) => 2,
            Self::Insertion(_, _) => 3,
            Self::Substitution(_, _, _) => 4,
        }
    }
}

/// The minimum-cost candidate among insertion, deletion and
/// substitution-or-equality, under the matrix builder's tie-break policy:
/// on equal costs substitution/equality beats deletion, which beats
/// insertion.
pub fn t_min_3<'a>(
    insertion: &'a Transformation,
    deletion: &'a Transformation,
    sub_or_eq: &'a Transformation,
) -> (r: &'a Transformation)
    ensures
        r@ == pick_min(insertion@, deletion@, sub_or_eq@),
{
    let insertion_v_deletion = if insertion.cost() < deletion.cost() {
        insertion
    } else {
        deletion
    };
    if insertion_v_deletion.cost() < sub_or_eq.cost() {
        insertion_v_deletion
    } else {
        sub_or_eq
    }
}

/// Relies on str's `PartialEq`: two string slices are equal exactly when
/// their character sequences are.
#[verifier::external_body]
fn str_eq(a: &str, b: &str) -> (r: bool)
    ensures
        r == (a@ == b@),
{
    a == b
}

/// The diagonal candidate for a cell: an equality at the diagonal
/// predecessor's cost when the two tokens agree, else a substitution at one
/// more.
pub fn t_delta(from_cost: usize, origin: &str, dest: &str) -> (r: Transformation)
    requires
        from_cost < usize::MAX,
    ensures
        r@ == delta_spec(from_cost as nat, origin@, dest@),
{
    if str_eq(origin, dest) {
        Transformation::Equality(from_cost, dest.to_owned())
    } else {
        Transformation::Substitution(from_cost + 1, origin.to_owned(), dest.to_owned())
    }
}

} // verus!
