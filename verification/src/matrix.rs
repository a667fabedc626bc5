//! Column-major matrices and the vector arithmetic of the engine.
//!
//! A weight matrix maps a biased input vector (length `rows`) to one
//! activation per column. Entry `(r, c)` lives at `data[c * rows + r]`, the
//! layout the persisted snapshot uses as well. All contracts pin the shapes;
//! entries that are moved (not computed) are pinned element by element.

use vstd::prelude::*;

use crate::scalar::{Scalar, WeightSource};

verus! {

/// Flat column-major indices stay inside `rows * cols`.
pub proof fn lemma_flat_index(r: int, c: int, rows: int, cols: int)
    by (nonlinear_arith)
    requires
        0 <= r < rows,
        0 <= c < cols,
    ensures
        0 <= c * rows + r < rows * cols,
{
}

/// Entries of columns before column `c` sit below `c * rows`.
pub proof fn lemma_col_bound(r: int, c: int, rows: int, cmax: int)
    by (nonlinear_arith)
    requires
        0 <= r < rows,
        0 <= c < cmax,
    ensures
        0 <= c * rows + r < cmax * rows,
{
}

/// A dense matrix with `rows * cols` entries in column-major order.
#[derive(Clone, Debug, PartialEq)]
pub struct Matrix<S> {
    pub rows: usize,
    pub cols: usize,
    pub data: Vec<S>,
}

impl<S> Matrix<S> {
    /// The backing vector holds exactly one entry per cell.
    pub open spec fn wf(self) -> bool {
        self.data@.len() == self.rows * self.cols
    }

    /// The entry in row `r` of column `c`.
    pub open spec fn entry(self, r: int, c: int) -> S {
        self.data@[c * self.rows + r]
    }

    pub open spec fn same_shape(self, other: Matrix<S>) -> bool {
        self.rows == other.rows && self.cols == other.cols
    }

    /// Column `c` as a sequence, top to bottom.
    pub open spec fn col(self, c: int) -> Seq<S> {
        Seq::new(self.rows as nat, |r: int| self.entry(r, c))
    }

    /// Row `r` as a sequence, left to right.
    pub open spec fn row(self, r: int) -> Seq<S> {
        Seq::new(self.cols as nat, |c: int| self.entry(r, c))
    }
}

/// The weighted sum of two equally long vectors, folded left to right from
/// zero — exactly the accumulation the products below perform.
pub open spec fn dot<S: Scalar>(a: Seq<S>, b: Seq<S>) -> S
    decreases a.len(),
{
    if a.len() == 0 {
        S::zero_spec()
    } else {
        dot(a.drop_last(), b.drop_last()).add_spec(a.last().mul_spec(b.last()))
    }
}

impl<S: Scalar> Matrix<S> {
    /// A `rows x cols` matrix whose entries are drawn, in column-major
    /// order, from `source`.
    pub fn from_source<W: WeightSource<S>>(rows: usize, cols: usize, source: &mut W) -> (m: Matrix<
        S,
    >)
        requires
            rows * cols <= usize::MAX,
        ensures
            m.wf(),
            m.rows == rows,
            m.cols == cols,
            m.data@ == crate::scalar::drawn_seq(*old(source), (rows * cols) as nat),
            *final(source) == crate::scalar::drawn_rest(*old(source), (rows * cols) as nat),
    {
        let n = rows * cols;
        let mut data: Vec<S> = Vec::new();
        let mut i: usize = 0;
        while i < n
            invariant
                i <= n,
                n == rows * cols,
                data@.len() == i,
                data@ == crate::scalar::drawn_seq(*old(source), i as nat),
                *source == crate::scalar::drawn_rest(*old(source), i as nat),
            decreases n - i,
        {
            proof {
                crate::scalar::lemma_drawn_snoc(*old(source), i as nat);
            }
            data.push(source.next_weight());
            i = i + 1;
        }
        Matrix { rows, cols, data }
    }

    /// Read the entry in row `r` of column `c`.
    pub fn at(&self, r: usize, c: usize) -> (x: S)
        requires
            self.wf(),
            r < self.rows,
            c < self.cols,
        ensures
            x == self.entry(r as int, c as int),
    {
        let n = self.data.len();
        proof {
            lemma_flat_index(r as int, c as int, self.rows as int, self.cols as int);
            assert(c * self.rows + r < n);
        }
        self.data[c * self.rows + r]
    }

    /// The matrix with rows and columns exchanged.
    pub fn transpose(&self) -> (t: Matrix<S>)
        requires
            self.wf(),
        ensures
            t.wf(),
            t.rows == self.cols,
            t.cols == self.rows,
            forall|i: int, j: int|
                0 <= i < t.rows && 0 <= j < t.cols ==> t.entry(i, j) == self.entry(j, i),
    {
        let rows = self.rows;
        let cols = self.cols;
        let mut data: Vec<S> = Vec::new();
        let mut c2: usize = 0;
        while c2 < rows
            invariant
                self.wf(),
                rows == self.rows,
                cols == self.cols,
                c2 <= rows,
                data@.len() == c2 * cols,
                forall|a: int, b: int|
                    0 <= a < c2 && 0 <= b < cols ==> #[trigger] data@[a * cols + b] == self.entry(
                        a,
                        b,
                    ),
            decreases rows - c2,
        {
            let mut r2: usize = 0;
            while r2 < cols
                invariant
                    self.wf(),
                    rows == self.rows,
                    cols == self.cols,
                    c2 < rows,
                    r2 <= cols,
                    data@.len() == c2 * cols + r2,
                    forall|a: int, b: int|
                        0 <= a < c2 && 0 <= b < cols ==> #[trigger] data@[a * cols + b]
                            == self.entry(a, b),
                    forall|b: int|
                        0 <= b < r2 ==> #[trigger] data@[c2 * cols + b] == self.entry(c2 as int, b),
                decreases cols - r2,
            {
                let x = self.at(c2, r2);
                data.push(x);
                r2 = r2 + 1;
                proof {
                    assert forall|a: int, b: int| 0 <= a < c2 && 0 <= b < cols implies #[trigger] data@[a
                        * cols + b] == self.entry(a, b) by {
                        lemma_col_bound(b, a, cols as int, c2 as int);
                    }
                }
            }
            proof {
                assert((c2 + 1) * cols == c2 * cols + cols) by (nonlinear_arith);
                assert forall|a: int, b: int|
                    0 <= a < c2 + 1 && 0 <= b < cols implies #[trigger] data@[a * cols + b]
                    == self.entry(a, b) by {
                    if a < c2 {
                        lemma_col_bound(b, a, cols as int, c2 as int);
                    } else {
                        assert(data@[(c2 as int) * cols + b] == self.entry(c2 as int, b));
                    }
                }
            }
            c2 = c2 + 1;
        }
        let t = Matrix { rows: cols, cols: rows, data };
        proof {
            assert(rows * cols == cols * rows) by (nonlinear_arith);
            assert forall|i: int, j: int| 0 <= i < t.rows && 0 <= j < t.cols implies t.entry(i, j)
                == self.entry(j, i) by {
                lemma_col_bound(i, j, cols as int, rows as int);
                lemma_flat_index(j, i, rows as int, cols as int);
                assert(t.entry(i, j) == t.data@[j * cols + i]);
            }
        }
        t
    }

    /// Every entry multiplied by `factor`.
    pub fn scale(&self, factor: &S) -> (m: Matrix<S>)
        requires
            self.wf(),
        ensures
            m.wf(),
            m.same_shape(*self),
            forall|r: int, c: int|
                0 <= r < m.rows && 0 <= c < m.cols ==> #[trigger] m.entry(r, c)
                    == factor.mul_spec(self.entry(r, c)),
    {
        let mut data: Vec<S> = Vec::new();
        let n = self.data.len();
        let mut i: usize = 0;
        while i < n
            invariant
                i <= n,
                n == self.data@.len(),
                data@.len() == i,
                forall|k: int|
                    0 <= k < i ==> #[trigger] data@[k] == factor.mul_spec(self.data@[k]),
            decreases n - i,
        {
            data.push(factor.times(&self.data[i]));
            i = i + 1;
        }
        let m = Matrix { rows: self.rows, cols: self.cols, data };
        proof {
            assert forall|r: int, c: int| 0 <= r < m.rows && 0 <= c < m.cols implies #[trigger] m.entry(
                r,
                c,
            ) == factor.mul_spec(self.entry(r, c)) by {
                lemma_flat_index(r, c, self.rows as int, self.cols as int);
            }
        }
        m
    }

    /// Add `other` entry by entry, in place.
    pub fn add_assign(&mut self, other: &Matrix<S>)
        requires
            old(self).wf(),
            other.wf(),
            old(self).same_shape(*other),
        ensures
            final(self).wf(),
            final(self).same_shape(*old(self)),
            forall|r: int, c: int|
                0 <= r < final(self).rows && 0 <= c < final(self).cols
                    ==> #[trigger] final(self).entry(r, c) == old(self).entry(r, c).add_spec(
                    other.entry(r, c),
                ),
    {
        let n = self.data.len();
        let mut i: usize = 0;
        while i < n
            invariant
                i <= n,
                n == self.data@.len(),
                other.data@.len() == n,
                self.rows == old(self).rows,
                self.cols == old(self).cols,
                self.data@.len() == old(self).data@.len(),
                forall|k: int|
                    0 <= k < i ==> #[trigger] self.data@[k] == old(self).data@[k].add_spec(
                        other.data@[k],
                    ),
                forall|k: int| i <= k < n ==> #[trigger] self.data@[k] == old(self).data@[k],
            decreases n - i,
        {
            let x = self.data[i].plus(&other.data[i]);
            self.data[i] = x;
            i = i + 1;
        }
        proof {
            assert forall|r: int, c: int|
                0 <= r < self.rows && 0 <= c < self.cols implies #[trigger] self.entry(r, c)
                == old(self).entry(r, c).add_spec(other.entry(r, c)) by {
                lemma_flat_index(r, c, self.rows as int, self.cols as int);
            }
        }
    }

    /// Subtract `other` entry by entry, in place: the gradient-descent step.
    pub fn sub_assign(&mut self, other: &Matrix<S>)
        requires
            old(self).wf(),
            other.wf(),
            old(self).same_shape(*other),
        ensures
            final(self).wf(),
            final(self).same_shape(*old(self)),
            forall|r: int, c: int|
                0 <= r < final(self).rows && 0 <= c < final(self).cols
                    ==> #[trigger] final(self).entry(r, c) == old(self).entry(r, c).sub_spec(
                    other.entry(r, c),
                ),
    {
        let n = self.data.len();
        let mut i: usize = 0;
        while i < n
            invariant
                i <= n,
                n == self.data@.len(),
                other.data@.len() == n,
                self.rows == old(self).rows,
                self.cols == old(self).cols,
                self.data@.len() == old(self).data@.len(),
                forall|k: int|
                    0 <= k < i ==> #[trigger] self.data@[k] == old(self).data@[k].sub_spec(
                        other.data@[k],
                    ),
                forall|k: int| i <= k < n ==> #[trigger] self.data@[k] == old(self).data@[k],
            decreases n - i,
        {
            let x = self.data[i].minus(&other.data[i]);
            self.data[i] = x;
            i = i + 1;
        }
        proof {
            assert forall|r: int, c: int|
                0 <= r < self.rows && 0 <= c < self.cols implies #[trigger] self.entry(r, c)
                == old(self).entry(r, c).sub_spec(other.entry(r, c)) by {
                lemma_flat_index(r, c, self.rows as int, self.cols as int);
            }
        }
    }

    /// Divide every entry by the size of a batch, in place.
    pub fn div_by_count(&mut self, count: usize)
        requires
            old(self).wf(),
        ensures
            final(self).wf(),
            final(self).same_shape(*old(self)),
            forall|r: int, c: int|
                0 <= r < final(self).rows && 0 <= c < final(self).cols
                    ==> #[trigger] final(self).entry(r, c) == old(self).entry(r, c).div_spec(
                    S::from_count_spec(count),
                ),
    {
        let divisor = S::from_count(count);
        let n = self.data.len();
        let mut i: usize = 0;
        while i < n
            invariant
                divisor == S::from_count_spec(count),
                i <= n,
                n == self.data@.len(),
                self.rows == old(self).rows,
                self.cols == old(self).cols,
                self.data@.len() == old(self).data@.len(),
                forall|k: int|
                    0 <= k < i ==> #[trigger] self.data@[k] == old(self).data@[k].div_spec(
                        S::from_count_spec(count),
                    ),
                forall|k: int| i <= k < n ==> #[trigger] self.data@[k] == old(self).data@[k],
            decreases n - i,
        {
            let x = self.data[i].div(&divisor);
            self.data[i] = x;
            i = i + 1;
        }
        proof {
            assert forall|r: int, c: int|
                0 <= r < self.rows && 0 <= c < self.cols implies #[trigger] self.entry(r, c)
                == old(self).entry(r, c).div_spec(S::from_count_spec(count)) by {
                lemma_flat_index(r, c, self.rows as int, self.cols as int);
            }
        }
    }
}

/// The row vector `v` times `m`: entry `c` is the weighted sum
/// `dot(v, column c of m)`.
pub fn vec_times_matrix<S: Scalar>(v: &Vec<S>, m: &Matrix<S>) -> (r: Vec<S>)
    requires
        m.wf(),
        v@.len() == m.rows,
    ensures
        r@.len() == m.cols,
        forall|c: int| 0 <= c < m.cols ==> #[trigger] r@[c] == dot(v@, m.col(c)),
{
    let mut r: Vec<S> = Vec::new();
    let mut c: usize = 0;
    while c < m.cols
        invariant
            m.wf(),
            v@.len() == m.rows,
            c <= m.cols,
            r@.len() == c,
            forall|k: int| 0 <= k < c ==> #[trigger] r@[k] == dot(v@, m.col(k)),
        decreases m.cols - c,
    {
        let mut acc = S::zero();
        let mut i: usize = 0;
        proof {
            assert(v@.take(0) =~= Seq::<S>::empty());
            assert(m.col(c as int).take(0) =~= Seq::<S>::empty());
        }
        while i < m.rows
            invariant
                m.wf(),
                v@.len() == m.rows,
                c < m.cols,
                i <= m.rows,
                acc == dot(v@.take(i as int), m.col(c as int).take(i as int)),
            decreases m.rows - i,
        {
            proof {
                assert(v@.take(i + 1).drop_last() =~= v@.take(i as int));
                assert(m.col(c as int).take(i + 1).drop_last() =~= m.col(c as int).take(i as int));
                assert(v@.take(i + 1).last() == v@[i as int]);
                assert(m.col(c as int).take(i + 1).last() == m.entry(i as int, c as int));
            }
            acc = acc.plus(&v[i].times(&m.at(i, c)));
            i = i + 1;
        }
        proof {
            assert(v@.take(m.rows as int) =~= v@);
            assert(m.col(c as int).take(m.rows as int) =~= m.col(c as int));
        }
        r.push(acc);
        c = c + 1;
    }
    r
}

/// The outer product: entry `(i, j)` is `a[i] * b[j]`.
pub fn outer<S: Scalar>(a: &Vec<S>, b: &Vec<S>) -> (m: Matrix<S>)
    ensures
        m.wf(),
        m.rows == a@.len(),
        m.cols == b@.len(),
        forall|i: int, j: int|
            0 <= i < m.rows && 0 <= j < m.cols ==> #[trigger] m.entry(i, j) == a@[i].mul_spec(
                b@[j],
            ),
{
    let rows = a.len();
    let cols = b.len();
    let mut data: Vec<S> = Vec::new();
    let mut c: usize = 0;
    while c < cols
        invariant
            rows == a@.len(),
            cols == b@.len(),
            c <= cols,
            data@.len() == c * rows,
            forall|cc: int, rr: int|
                0 <= cc < c && 0 <= rr < rows ==> #[trigger] data@[cc * rows + rr]
                    == a@[rr].mul_spec(b@[cc]),
        decreases cols - c,
    {
        let mut r: usize = 0;
        while r < rows
            invariant
                rows == a@.len(),
                cols == b@.len(),
                c < cols,
                r <= rows,
                data@.len() == c * rows + r,
                forall|cc: int, rr: int|
                    0 <= cc < c && 0 <= rr < rows ==> #[trigger] data@[cc * rows + rr]
                        == a@[rr].mul_spec(b@[cc]),
                forall|rr: int|
                    0 <= rr < r ==> #[trigger] data@[c * rows + rr] == a@[rr].mul_spec(
                        b@[c as int],
                    ),
            decreases rows - r,
        {
            data.push(a[r].times(&b[c]));
            r = r + 1;
            proof {
                assert forall|cc: int, rr: int|
                    0 <= cc < c && 0 <= rr < rows implies #[trigger] data@[cc * rows + rr]
                    == a@[rr].mul_spec(b@[cc]) by {
                    lemma_col_bound(rr, cc, rows as int, c as int);
                }
            }
        }
        proof {
            assert((c + 1) * rows == c * rows + rows) by (nonlinear_arith);
            assert forall|cc: int, rr: int|
                0 <= cc < c + 1 && 0 <= rr < rows implies #[trigger] data@[cc * rows + rr]
                == a@[rr].mul_spec(b@[cc]) by {
                if cc < c {
                    lemma_col_bound(rr, cc, rows as int, c as int);
                } else {
                    assert(data@[(c as int) * rows + rr] == a@[rr].mul_spec(b@[c as int]));
                }
            }
        }
        c = c + 1;
    }
    proof {
        assert(data@.len() == cols * rows);
        assert(cols * rows == rows * cols) by (nonlinear_arith);
    }
    let m = Matrix { rows, cols, data };
    proof {
        assert forall|i: int, j: int|
            0 <= i < m.rows && 0 <= j < m.cols implies #[trigger] m.entry(i, j) == a@[i].mul_spec(
            b@[j],
        ) by {
            lemma_col_bound(i, j, rows as int, cols as int);
            assert(m.entry(i, j) == m.data@[j * rows + i]);
        }
    }
    m
}

/// The input vector with the constant bias term appended: the input
/// followed by one `one`.
pub fn with_bias<S: Scalar>(input: &[S]) -> (r: Vec<S>)
    requires
        input@.len() < usize::MAX,
    ensures
        r@ == input@.push(S::one_spec()),
        r@.len() == input@.len() + 1,
        forall|i: int| 0 <= i < input@.len() ==> r@[i] == input@[i],
{
    let n = input.len();
    let mut r: Vec<S> = Vec::new();
    let mut i: usize = 0;
    while i < n
        invariant
            n == input@.len(),
            i <= n,
            r@.len() == i,
            forall|k: int| 0 <= k < i ==> r@[k] == input@[k],
        decreases n - i,
    {
        r.push(input[i]);
        i = i + 1;
    }
    proof {
        assert(r@ =~= input@);
    }
    r.push(S::one());
    proof {
        assert(r@ =~= input@.push(S::one_spec()));
    }
    r
}

/// The entrywise (Hadamard) product of two vectors.
pub fn hadamard<S: Scalar>(a: &Vec<S>, b: &Vec<S>) -> (r: Vec<S>)
    requires
        a@.len() == b@.len(),
    ensures
        r@.len() == a@.len(),
        forall|i: int| 0 <= i < r@.len() ==> #[trigger] r@[i] == a@[i].mul_spec(b@[i]),
{
    let n = a.len();
    let mut r: Vec<S> = Vec::new();
    let mut i: usize = 0;
    while i < n
        invariant
            n == a@.len(),
            a@.len() == b@.len(),
            i <= n,
            r@.len() == i,
            forall|k: int| 0 <= k < i ==> #[trigger] r@[k] == a@[k].mul_spec(b@[k]),
        decreases n - i,
    {
        r.push(a[i].times(&b[i]));
        i = i + 1;
    }
    r
}

/// The entrywise sum `a + b`.
pub fn vec_plus<S: Scalar>(a: &Vec<S>, b: &Vec<S>) -> (r: Vec<S>)
    requires
        a@.len() == b@.len(),
    ensures
        r@.len() == a@.len(),
        forall|i: int| 0 <= i < r@.len() ==> #[trigger] r@[i] == a@[i].add_spec(b@[i]),
{
    let n = a.len();
    let mut r: Vec<S> = Vec::new();
    let mut i: usize = 0;
    while i < n
        invariant
            n == a@.len(),
            a@.len() == b@.len(),
            i <= n,
            r@.len() == i,
            forall|k: int| 0 <= k < i ==> #[trigger] r@[k] == a@[k].add_spec(b@[k]),
        decreases n - i,
    {
        r.push(a[i].plus(&b[i]));
        i = i + 1;
    }
    r
}

/// The entrywise difference `a - b`.
pub fn vec_minus<S: Scalar>(a: &Vec<S>, b: &Vec<S>) -> (r: Vec<S>)
    requires
        a@.len() == b@.len(),
    ensures
        r@.len() == a@.len(),
        forall|i: int| 0 <= i < r@.len() ==> #[trigger] r@[i] == a@[i].sub_spec(b@[i]),
{
    let n = a.len();
    let mut r: Vec<S> = Vec::new();
    let mut i: usize = 0;
    while i < n
        invariant
            n == a@.len(),
            a@.len() == b@.len(),
            i <= n,
            r@.len() == i,
            forall|k: int| 0 <= k < i ==> #[trigger] r@[k] == a@[k].sub_spec(b@[k]),
        decreases n - i,
    {
        r.push(a[i].minus(&b[i]));
        i = i + 1;
    }
    r
}

/// The index of a strongest entry: the classifier's decoded neuron.
///
/// The scan keeps the latest entry that compares at least as strong as the
/// incumbent, so no entry after the winner reaches it under the comparison.
pub fn argmax<S: Scalar>(v: &Vec<S>) -> (r: usize)
    requires
        v@.len() >= 1,
    ensures
        r < v@.len(),
        forall|k: int| r < k < v@.len() ==> !((#[trigger] v@[k]).ge_spec(v@[r as int])),
{
    let mut best: usize = 0;
    let mut i: usize = 1;
    while i < v.len()
        invariant
            v@.len() >= 1,
            best < v@.len(),
            i <= v@.len(),
            forall|k: int| best < k < i ==> !((#[trigger] v@[k]).ge_spec(v@[best as int])),
        decreases v@.len() - i,
    {
        if v[i].ge(&v[best]) {
            best = i;
        }
        i = i + 1;
    }
    best
}

} // verus!
