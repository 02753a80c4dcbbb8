//! The Levenshtein calculator: token sequences, the full cost/operation
//! matrix, and the queries over it.
use crate::edits::{t_delta, t_min_3, Transformation};
use crate::model::{
    cell_spec, lemma_cell_cost_bound, lemma_cell_cost_is_dist, lemma_cell_shape, lev_dist,
    traceback_spec, TransModel,
};
use crate::tokenize::{graphemes_of, split_graphemes, split_words, word_bounds_of};
use vstd::prelude::*;

verus! {

/// The views of a vector of cells, in order.
pub open spec fn cell_views(s: Seq<Transformation>) -> Seq<TransModel> {
    s.map_values(|t: Transformation| t@)
}

/// A Levenshtein calculator for one pair of texts, holding their token
/// sequences and the (n+1) x (m+1) cost/operation matrix.
#[derive(Debug)]
pub struct Levenshtein {
    pub x_dim: usize,
    pub y_dim: usize,
    pub origin: Vec<String>,
    pub dest: Vec<String>,
    pub matrix: Vec<Vec<Transformation>>,
}

impl Levenshtein {
    /// The origin token sequence, as character sequences.
    pub open spec fn origin_toks(self) -> Seq<Seq<char>> {
        self.origin@.map_values(|t: String| t@)
    }

    /// The dest token sequence, as character sequences.
    pub open spec fn dest_toks(self) -> Seq<Seq<char>> {
        self.dest@.map_values(|t: String| t@)
    }

    /// Shape invariant: the matrix is one row per origin prefix and one
    /// column per dest prefix, and the token counts leave room for every
    /// cost and index computation.
    pub open spec fn wf(self) -> bool {
        &&& self.x_dim == self.origin@.len() + 1
        &&& self.y_dim == self.dest@.len() + 1
        &&& self.matrix@.len() == self.x_dim
        &&& (forall|i: int|
            0 <= i < self.matrix@.len() ==> (#[trigger] self.matrix@[i]@.len()) == self.y_dim)
        &&& self.origin@.len() <= usize::MAX / 2
        &&& self.dest@.len() <= usize::MAX / 2
    }

    /// All cells hold `Init(0)`, as a freshly built matrix does.
    pub open spec fn all_init(self) -> bool {
        forall|x: int, y: int|
            0 <= x < self.matrix@.len() && 0 <= y < self.matrix@[x]@.len() ==> (
            #[trigger] self.matrix@[x]@[y]@) == TransModel::Init(0)
    }

    /// The cell at (x, y) holds the value the matrix builder assigns there.
    pub open spec fn cell_computed(self, x: int, y: int) -> bool {
        self.matrix@[x]@[y]@ == cell_spec(self.origin_toks(), self.dest_toks(), x, y)
    }

    /// Every border cell (first row and first column) is computed.
    pub open spec fn borders_computed(self) -> bool {
        forall|x: int, y: int|
            0 <= x < self.matrix@.len() && 0 <= y < self.matrix@[x]@.len() && (x == 0 || y == 0)
                ==> #[trigger] self.cell_computed(x, y)
    }

    /// Every cell of the matrix is computed.
    pub open spec fn fully_computed(self) -> bool {
        forall|x: int, y: int|
            0 <= x < self.matrix@.len() && 0 <= y < self.matrix@[x]@.len()
                ==> #[trigger] self.cell_computed(x, y)
    }

    fn from_tokens(origin: Vec<String>, dest: Vec<String>) -> (r: Self)
        requires
            origin@.len() <= usize::MAX / 2,
            dest@.len() <= usize::MAX / 2,
        ensures
            r.wf(),
            r.all_init(),
            r.origin == origin,
            r.dest == dest,
    {
        let x_dim = origin.len() + 1;
        let y_dim = dest.len() + 1;
        let mut matrix: Vec<Vec<Transformation>> = Vec::new();
        let mut x: usize = 0;
        while x < x_dim
            invariant
                x <= x_dim,
                matrix@.len() == x,
                forall|i: int|
                    0 <= i < x ==> (#[trigger] matrix@[i]@.len()) == y_dim,
                forall|i: int, j: int|
                    0 <= i < x && 0 <= j < matrix@[i]@.len() ==> (#[trigger] matrix@[i]@[j]@)
                        == TransModel::Init(0),
            decreases x_dim - x,
        {
            let mut row: Vec<Transformation> = Vec::new();
            let mut y: usize = 0;
            while y < y_dim
                invariant
                    y <= y_dim,
                    row@.len() == y,
                    forall|j: int|
                        0 <= j < y ==> (#[trigger] row@[j]@) == TransModel::Init(0),
                decreases y_dim - y,
            {
                row.push(Transformation::Init(0));
                y += 1;
            }
            matrix.push(row);
            x += 1;
        }
        Self { x_dim, y_dim, origin, dest, matrix }
    }

    pub(crate) fn new(o: &str, d: &str) -> (r: Self)
        ensures
            r.wf(),
            r.all_init(),
            r.origin_toks() == graphemes_of(o@),
            r.dest_toks() == graphemes_of(d@),
    {
        let origin = split_graphemes(o);
        let dest = split_graphemes(d);
        Self::from_tokens(origin, dest)
    }

    pub(crate) fn new_words(o: &str, d: &str) -> (r: Self)
        ensures
            r.wf(),
            r.all_init(),
            r.origin_toks() == word_bounds_of(o@),
            r.dest_toks() == word_bounds_of(d@),
    {
        let origin = split_words(o);
        let dest = split_words(d);
        Self::from_tokens(origin, dest)
    }

    /// A copy of the cell at (x, y).
    pub fn value_at(&self, x: usize, y: usize) -> (r: Transformation)
        requires
            x < self.matrix@.len(),
            y < self.matrix@[x as int]@.len(),
        ensures
            r == self.matrix@[x as int]@[y as int],
    {
        self.matrix[x][y].clone()
    }

    /// Overwrites the cell at (x, y), leaving every other cell in place.
    pub fn set_value(&mut self, x: usize, y: usize, val: Transformation)
        requires
            x < old(self).matrix@.len(),
            y < old(self).matrix@[x as int]@.len(),
        ensures
            final(self).matrix@.len() == old(self).matrix@.len(),
            forall|i: int|
                0 <= i < final(self).matrix@.len() ==> (#[trigger] final(self).matrix@[i]@.len())
                    == old(self).matrix@[i]@.len(),
            forall|i: int, j: int|
                0 <= i < final(self).matrix@.len() && 0 <= j < final(self).matrix@[i]@.len() && !(i
                    == x && j == y) ==> (#[trigger] final(self).matrix@[i]@[j]) == old(
                    self,
                ).matrix@[i]@[j],
            final(self).matrix@[x as int]@[y as int] == val,
            final(self).origin == old(self).origin,
            final(self).dest == old(self).dest,
            final(self).x_dim == old(self).x_dim,
            final(self).y_dim == old(self).y_dim,
    {
        self.matrix[x][y] = val;
    }

    /// Fills the first row with deletions and the first column with
    /// insertions, the matrix borders of the recurrence; inner cells are
    /// left in place.
    pub fn initialize(&mut self)
        requires
            old(self).wf(),
        ensures
            final(self).wf(),
            final(self).origin == old(self).origin,
            final(self).dest == old(self).dest,
            final(self).borders_computed(),
            forall|i: int, j: int|
                0 < i < final(self).matrix@.len() && 0 < j < final(self).matrix@[i]@.len() ==> (
                #[trigger] final(self).matrix@[i]@[j]) == old(self).matrix@[i]@[j],
    {
        let ghost orig = *self;
        let ghost a = self.origin_toks();
        let ghost b = self.dest_toks();
        self.set_value(0, 0, Transformation::Init(0));
        let mut x: usize = 1;
        while x < self.x_dim
            invariant
                self.wf(),
                self.origin == orig.origin,
                self.dest == orig.dest,
                self.x_dim == orig.x_dim,
                self.y_dim == orig.y_dim,
                a == self.origin_toks(),
                b == self.dest_toks(),
                1 <= x <= self.x_dim,
                self.matrix@[0]@[0]@ == TransModel::Init(0),
                forall|i: int|
                    1 <= i < x ==> (#[trigger] self.matrix@[i]@[0]@) == TransModel::Deletion(
                        i as nat,
                        a[i - 1],
                    ),
                forall|i: int, j: int|
                    0 <= i < self.matrix@.len() && 0 < j < self.matrix@[i]@.len() ==> (
                    #[trigger] self.matrix@[i]@[j]) == orig.matrix@[i]@[j],
            decreases self.x_dim - x,
        {
            self.set_value(x, 0, Transformation::Deletion(x, self.origin[x - 1].clone()));
            x += 1;
        }
        let mut y: usize = 1;
        while y < self.y_dim
            invariant
                self.wf(),
                self.origin == orig.origin,
                self.dest == orig.dest,
                self.x_dim == orig.x_dim,
                self.y_dim == orig.y_dim,
                a == self.origin_toks(),
                b == self.dest_toks(),
                1 <= y <= self.y_dim,
                self.matrix@[0]@[0]@ == TransModel::Init(0),
                forall|i: int|
                    1 <= i < self.matrix@.len() ==> (#[trigger] self.matrix@[i]@[0]@)
                        == TransModel::Deletion(i as nat, a[i - 1]),
                forall|j: int|
                    1 <= j < y ==> (#[trigger] self.matrix@[0]@[j]@) == TransModel::Insertion(
                        j as nat,
                        b[j - 1],
                    ),
                forall|i: int, j: int|
                    0 < i < self.matrix@.len() && 0 < j < self.matrix@[i]@.len() ==> (
                    #[trigger] self.matrix@[i]@[j]) == orig.matrix@[i]@[j],
            decreases self.y_dim - y,
        {
            self.set_value(0, y, Transformation::Insertion(y, self.dest[y - 1].clone()));
            y += 1;
        }
        proof {
            assert forall|i: int, j: int|
                0 <= i < self.matrix@.len() && 0 <= j < self.matrix@[i]@.len() && (i == 0 || j
                    == 0) implies #[trigger] self.cell_computed(i, j) by {
                if i == 0 && j == 0 {
                    assert(cell_spec(a, b, 0, 0) == TransModel::Init(0));
                } else if j == 0 {
                    assert(cell_spec(a, b, i, 0) == TransModel::Deletion(i as nat, a[i - 1]));
                } else {
                    assert(cell_spec(a, b, 0, j) == TransModel::Insertion(j as nat, b[j - 1]));
                }
            }
        }
    }

    /// Computes every inner cell of the matrix, row by row, from the
    /// initialized borders: each cell is the tie-break minimum of its
    /// deletion, insertion and substitution-or-equality candidates.
    pub fn calculate_matrix(&mut self)
        requires
            old(self).wf(),
            old(self).borders_computed(),
        ensures
            final(self).wf(),
            final(self).origin == old(self).origin,
            final(self).dest == old(self).dest,
            final(self).fully_computed(),
    {
        let ghost orig = *self;
        let ghost a = self.origin_toks();
        let ghost b = self.dest_toks();
        let mut x: usize = 1;
        while x < self.x_dim
            invariant
                self.wf(),
                self.origin == orig.origin,
                self.dest == orig.dest,
                self.x_dim == orig.x_dim,
                self.y_dim == orig.y_dim,
                a == self.origin_toks(),
                b == self.dest_toks(),
                1 <= x <= self.x_dim,
                self.borders_computed(),
                forall|i: int, j: int|
                    0 < i < x && 0 < j < self.matrix@[i]@.len() ==> #[trigger] self.cell_computed(
                        i,
                        j,
                    ),
            decreases self.x_dim - x,
        {
            let mut y: usize = 1;
            while y < self.y_dim
                invariant
                    self.wf(),
                    self.origin == orig.origin,
                    self.dest == orig.dest,
                    self.x_dim == orig.x_dim,
                    self.y_dim == orig.y_dim,
                    a == self.origin_toks(),
                    b == self.dest_toks(),
                    1 <= x < self.x_dim,
                    1 <= y <= self.y_dim,
                    self.borders_computed(),
                    forall|i: int, j: int|
                        0 < i < x && 0 < j < self.matrix@[i]@.len()
                            ==> #[trigger] self.cell_computed(i, j),
                    forall|j: int| 0 < j < y ==> #[trigger] self.cell_computed(x as int, j),
                decreases self.y_dim - y,
            {
                proof {
                    lemma_cell_cost_bound(a, b, x - 1, y as int);
                    lemma_cell_cost_bound(a, b, x as int, y - 1);
                    lemma_cell_cost_bound(a, b, x - 1, y - 1);
                    assert(self.cell_computed(x - 1, y as int));
                    assert(self.cell_computed(x as int, y - 1));
                    assert(self.cell_computed(x - 1, y - 1));
                }
                let deletion_cost = self.value_at(x - 1, y).cost() + 1;
                let deletion = Transformation::Deletion(deletion_cost, self.origin[x - 1].clone());
                let insertion_cost = self.value_at(x, y - 1).cost() + 1;
                let insertion = Transformation::Insertion(insertion_cost, self.dest[y - 1].clone());
                let sub_or_eq = t_delta(
                    self.value_at(x - 1, y - 1).cost(),
                    self.origin[x - 1].as_str(),
                    self.dest[y - 1].as_str(),
                );
                let chosen = t_min_3(&insertion, &deletion, &sub_or_eq).clone();
                proof {
                    assert(a[x - 1] == self.origin@[x - 1]@);
                    assert(b[y - 1] == self.dest@[y - 1]@);
                    assert(chosen@ == cell_spec(a, b, x as int, y as int));
                }
                let ghost prev = *self;
                self.set_value(x, y, chosen);
                proof {
                    assert forall|i: int, j: int|
                        0 <= i < self.matrix@.len() && 0 <= j < self.matrix@[i]@.len() && (i == 0
                            || j == 0) implies #[trigger] self.cell_computed(i, j) by {
                        assert(prev.cell_computed(i, j));
                        assert(self.matrix@[i]@[j] == prev.matrix@[i]@[j]);
                    }
                    assert forall|i: int, j: int|
                        0 < i < x && 0 < j < self.matrix@[i]@.len()
                            implies #[trigger] self.cell_computed(i, j) by {
                        assert(prev.cell_computed(i, j));
                        assert(self.matrix@[i]@[j] == prev.matrix@[i]@[j]);
                    }
                    assert forall|j: int| 0 < j <= y implies #[trigger] self.cell_computed(
                        x as int,
                        j,
                    ) by {
                        if j < y {
                            assert(prev.cell_computed(x as int, j));
                            assert(self.matrix@[x as int]@[j] == prev.matrix@[x as int]@[j]);
                        }
                    }
                }
                y += 1;
            }
            x += 1;
        }
    }

    /// The edit distance between the two token sequences: builds the matrix
    /// and reads the cost of its far corner.
    pub fn distance(&mut self) -> (r: usize)
        requires
            old(self).wf(),
        ensures
            final(self).wf(),
            final(self).origin == old(self).origin,
            final(self).dest == old(self).dest,
            final(self).fully_computed(),
            r == lev_dist(old(self).origin_toks(), old(self).dest_toks()),
    {
        let ghost a = self.origin_toks();
        let ghost b = self.dest_toks();
        let x = self.origin.len();
        let y = self.dest.len();
        self.initialize();
        self.calculate_matrix();
        let r = self.value_at(x, y).cost();
        proof {
            assert(self.cell_computed(x as int, y as int));
            lemma_cell_cost_is_dist(a, b, x as int, y as int);
            assert(a.take(x as int) =~= a);
            assert(b.take(y as int) =~= b);
        }
        r
    }

    /// The raw edit script, one operation per token, in origin-to-dest
    /// order: builds the matrix and walks it backward from the far corner.
    pub fn raw_edits(&mut self) -> (r: Vec<Transformation>)
        requires
            old(self).wf(),
        ensures
            final(self).wf(),
            final(self).origin == old(self).origin,
            final(self).dest == old(self).dest,
            final(self).fully_computed(),
            cell_views(r@) == traceback_spec(
                old(self).origin_toks(),
                old(self).dest_toks(),
                old(self).origin@.len() as int,
                old(self).dest@.len() as int,
            ),
    {
        let ghost a = self.origin_toks();
        let ghost b = self.dest_toks();
        let mut x = self.origin.len();
        let mut y = self.dest.len();
        let ghost n = x as int;
        let ghost m = y as int;
        let ghost tb = traceback_spec(a, b, n, m);
        self.initialize();
        self.calculate_matrix();
        let mut transformations: Vec<Transformation> = Vec::new();
        proof {
            assert(tb == traceback_spec(a, b, x as int, y as int) + cell_views(
                transformations@,
            ).reverse()) by {
                assert(cell_views(transformations@).reverse() =~= Seq::<TransModel>::empty());
                assert(traceback_spec(a, b, n, m) + Seq::<TransModel>::empty() =~= traceback_spec(
                    a,
                    b,
                    n,
                    m,
                ));
            }
        }
        while x > 0 || y > 0
            invariant
                self.wf(),
                a == self.origin_toks(),
                b == self.dest_toks(),
                self.fully_computed(),
                x <= a.len(),
                y <= b.len(),
                tb == traceback_spec(a, b, x as int, y as int) + cell_views(
                    transformations@,
                ).reverse(),
            decreases x + y,
        {
            let next = self.value_at(x, y);
            proof {
                assert(self.cell_computed(x as int, y as int));
                lemma_cell_shape(a, b, x as int, y as int);
            }
            let ghost x0 = x as int;
            let ghost y0 = y as int;
            match next {
                Transformation::Insertion(_, _) => {
                    y = y - 1;
                },
                Transformation::Deletion(_, _) => {
                    x = x - 1;
                },
                Transformation::Equality(_, _) | Transformation::Substitution(_, _, _) => {
                    x = x - 1;
                    y = y - 1;
                },
                Transformation::Init(_) => {
                    proof {
                        assert(false);
                    }
                },
            }
            proof {
                assert(traceback_spec(a, b, x0, y0) == traceback_spec(a, b, x as int, y as int).push(
                    next@,
                ));
                assert(cell_views(transformations@.push(next)).reverse() =~= seq![next@]
                    + cell_views(transformations@).reverse());
                assert(traceback_spec(a, b, x as int, y as int).push(next@) + cell_views(
                    transformations@,
                ).reverse() =~= traceback_spec(a, b, x as int, y as int) + (seq![next@]
                    + cell_views(transformations@).reverse()));
            }
            transformations.push(next);
        }
        let mut result: Vec<Transformation> = Vec::new();
        proof {
            assert(traceback_spec(a, b, 0, 0) == Seq::<TransModel>::empty());
            assert(Seq::<TransModel>::empty() + cell_views(transformations@).reverse()
                =~= cell_views(transformations@).reverse());
            assert(cell_views(result@) + cell_views(transformations@).reverse() =~= cell_views(
                transformations@,
            ).reverse());
        }
        while transformations.len() > 0
            invariant
                cell_views(result@) + cell_views(transformations@).reverse() == tb,
            decreases transformations.len(),
        {
            let ghost before = transformations@;
            let t = transformations.pop().unwrap();
            proof {
                assert(cell_views(result@.push(t)) =~= cell_views(result@).push(t@));
                assert(cell_views(before).reverse() =~= seq![t@] + cell_views(
                    transformations@,
                ).reverse());
                assert(cell_views(result@).push(t@) + cell_views(transformations@).reverse()
                    =~= cell_views(result@) + (seq![t@] + cell_views(transformations@).reverse()));
            }
            result.push(t);
        }
        proof {
            assert(cell_views(transformations@).reverse() =~= Seq::<TransModel>::empty());
            assert(cell_views(result@) + Seq::<TransModel>::empty() =~= cell_views(result@));
        }
        result
    }
}

} // verus!
