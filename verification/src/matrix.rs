use vstd::prelude::*;
use crate::scalar::{approx_eq, has_identities, is_close, Num, Real};
use crate::tuple::{cross, cross_spec, Tuple};
use std::ops::{Index, Mul};

verus! {

/// A rectangular array of scalars, kept row after row.
///
/// Its view is the sequence of its rows.
#[derive(Debug, Eq, PartialEq)]
pub struct Matrix<T> {
    elems: Vec<T>,
    width: usize,
    height: usize,
}

/// `m` has `h` rows of `w` entries each.
pub open spec fn is_grid<T>(m: Seq<Seq<T>>, h: int, w: int) -> bool {
    &&& m.len() == h
    &&& forall|i: int| 0 <= i < h ==> (#[trigger] m[i]).len() == w
}

/// `m` has as many rows as each row has entries.
pub open spec fn is_square<T>(m: Seq<Seq<T>>) -> bool {
    is_grid(m, m.len() as int, m.len() as int)
}

/// Where the entry of row `i` and column `j` lies among the entries of a
/// matrix with `w` columns.
pub open spec fn flat(i: int, j: int, w: int) -> int {
    i * w + j
}

pub(crate) proof fn lemma_flat_bound(i: int, j: int, w: int, h: int)
    requires
        0 <= i < h,
        0 <= j < w,
    ensures
        0 <= i * w <= flat(i, j, w) < w * h,
        flat(i, j, w) < flat(i + 1, 0, w),
        flat(i + 1, 0, w) == flat(i, j, w) + (w - j),
{
    assert(i * w + w == (i + 1) * w) by (nonlinear_arith);
    assert((i + 1) * w <= h * w) by (nonlinear_arith)
        requires
            i + 1 <= h,
            0 <= w,
    ;
    assert(0 <= i * w) by (nonlinear_arith)
        requires
            0 <= i,
            0 <= w,
    ;
    assert(h * w == w * h) by (nonlinear_arith);
}

proof fn lemma_flat_unique(i1: int, j1: int, i2: int, j2: int, w: int)
    requires
        0 <= j1 < w,
        0 <= j2 < w,
        0 <= i1,
        0 <= i2,
        flat(i1, j1, w) == flat(i2, j2, w),
    ensures
        i1 == i2,
        j1 == j2,
{
    if i1 < i2 {
        assert((i1 + 1) * w <= i2 * w) by (nonlinear_arith)
            requires
                i1 + 1 <= i2,
                0 <= w,
        ;
        assert(i1 * w + w == (i1 + 1) * w) by (nonlinear_arith);
    } else if i2 < i1 {
        assert((i2 + 1) * w <= i1 * w) by (nonlinear_arith)
            requires
                i2 + 1 <= i1,
                0 <= w,
        ;
        assert(i2 * w + w == (i2 + 1) * w) by (nonlinear_arith);
    }
}

/// The grid of `height` rows and `width` columns that holds zero everywhere.
pub open spec fn zeros_spec<T: Num>(width: int, height: int) -> Seq<Seq<T>> {
    Seq::new(height as nat, |i: int| Seq::new(width as nat, |j: int| T::zero_spec()))
}

/// The identity of `size` rows: one on the diagonal, zero elsewhere.
pub open spec fn eye_spec<T: Num>(size: int) -> Seq<Seq<T>> {
    Seq::new(
        size as nat,
        |i: int|
            Seq::new(
                size as nat,
                |j: int|
                    if i == j {
                        T::one_spec()
                    } else {
                        T::zero_spec()
                    },
            ),
    )
}

/// The square grid `m` with rows and columns exchanged.
pub open spec fn transpose_spec<T>(m: Seq<Seq<T>>) -> Seq<Seq<T>> {
    Seq::new(m.len(), |i: int| Seq::new(m.len(), |j: int| m[j][i]))
}

/// The index in the full grid of what stands at `i` once `removed` is left out.
pub open spec fn skip(i: int, removed: int) -> int {
    if i < removed {
        i
    } else {
        i + 1
    }
}

/// The grid `m` without row `row` and column `col`.
pub open spec fn submatrix_spec<T>(m: Seq<Seq<T>>, row: int, col: int) -> Seq<Seq<T>> {
    Seq::new(
        (m.len() - 1) as nat,
        |i: int| Seq::new((m[0].len() - 1) as nat, |j: int| m[skip(i, row)][skip(j, col)]),
    )
}

/// One for an even `n`, zero less one for an odd `n`.
pub open spec fn sign_spec<T: Num>(n: int) -> T {
    if n % 2 == 0 {
        T::one_spec()
    } else {
        T::zero_spec().sub_spec(T::one_spec())
    }
}

/// The determinant of the square grid `m`: its only entry for one row, the
/// difference of the diagonal products for two rows, and the expansion
/// along the first row otherwise.
pub open spec fn det_spec<T: Num>(m: Seq<Seq<T>>) -> T
    decreases m.len(), m.len() + 3,
{
    if m.len() == 1 {
        m[0][0]
    } else if m.len() == 2 {
        m[0][0].mul_spec(m[1][1]).sub_spec(m[0][1].mul_spec(m[1][0]))
    } else {
        laplace_spec(m, m.len())
    }
}

/// The expansion along the first row over the first `k` columns, summed
/// from zero in the order of the columns.
pub open spec fn laplace_spec<T: Num>(m: Seq<Seq<T>>, k: nat) -> T
    decreases m.len(), k + 2,
{
    if k == 0 || k > m.len() {
        T::zero_spec()
    } else {
        laplace_spec(m, (k - 1) as nat).add_spec(cofactor_spec(m, 0, k - 1).mul_spec(m[0][k - 1]))
    }
}

/// The determinant of `m` without row `row` and column `col`.
pub open spec fn minor_spec<T: Num>(m: Seq<Seq<T>>, row: int, col: int) -> T
    decreases m.len(), 0nat,
{
    if m.len() == 0 {
        T::zero_spec()
    } else {
        det_spec(submatrix_spec(m, row, col))
    }
}

/// The minor of `row` and `col` times the sign of their sum.
pub open spec fn cofactor_spec<T: Num>(m: Seq<Seq<T>>, row: int, col: int) -> T
    decreases m.len(), 1nat,
{
    minor_spec(m, row, col).mul_spec(sign_spec(row + col))
}

/// The sum, from zero and in order, of the first `k` products of an entry of
/// row `i` of `a` with the entry of column `j` of `b` that matches it.
pub open spec fn product_entry<T: Num>(a: Seq<Seq<T>>, b: Seq<Seq<T>>, i: int, j: int, k: nat) -> T
    decreases k,
{
    if k == 0 {
        T::zero_spec()
    } else {
        product_entry(a, b, i, j, (k - 1) as nat).add_spec(a[i][k - 1].mul_spec(b[k - 1][j]))
    }
}

/// The product of two square grids of the same size.
pub open spec fn product_spec<T: Num>(a: Seq<Seq<T>>, b: Seq<Seq<T>>) -> Seq<Seq<T>> {
    Seq::new(a.len(), |i: int| Seq::new(a.len(), |j: int| product_entry(a, b, i, j, a.len())))
}

/// The sum, from zero and in order, of the first `k` products of an entry of
/// `row` with the coordinate of `t` that matches it.
pub open spec fn row_dot<T: Num>(row: Seq<T>, t: Tuple<T>, k: nat) -> T
    decreases k,
{
    if k == 0 {
        T::zero_spec()
    } else {
        row_dot(row, t, (k - 1) as nat).add_spec(row[k - 1].mul_spec(t.at(k - 1)))
    }
}

/// The grid `m` of four rows applied to `t` as a column.
pub open spec fn apply_spec<T: Num>(m: Seq<Seq<T>>, t: Tuple<T>) -> Tuple<T> {
    Tuple(
        row_dot(m[0], t, m[0].len()),
        row_dot(m[1], t, m[1].len()),
        row_dot(m[2], t, m[2].len()),
        row_dot(m[3], t, m[3].len()),
    )
}

/// The determinant of `m` is within the tolerance of zero.
pub open spec fn is_singular<T: Real>(m: Seq<Seq<T>>) -> bool {
    det_spec(m).abs_spec().le_spec(T::epsilon_spec())
}

/// The transposed grid of cofactors of the square grid `m`, each divided by
/// the determinant.
pub open spec fn inverse_spec<T: Real>(m: Seq<Seq<T>>) -> Seq<Seq<T>> {
    Seq::new(
        m.len(),
        |i: int| Seq::new(m.len(), |j: int| cofactor_spec(m, j, i).div_spec(det_spec(m))),
    )
}

/// Two grids of the same shape whose matching entries are within the
/// tolerance of each other.
pub open spec fn approx_grid<T: Real>(a: Seq<Seq<T>>, b: Seq<Seq<T>>) -> bool {
    forall|i: int, j: int|
        0 <= i < a.len() && 0 <= j < a[i].len() ==> approx_eq(#[trigger] a[i][j], b[i][j])
}

/// The identity of four rows with `x`, `y` and `z` in its last column: the
/// move of a point by these three.
pub open spec fn translation_spec<T: Num>(x: T, y: T, z: T) -> Seq<Seq<T>> {
    let o = T::zero_spec();
    let l = T::one_spec();
    seq![seq![l, o, o, x], seq![o, l, o, y], seq![o, o, l, z], seq![o, o, o, l]]
}

/// The grid of four rows with `x`, `y`, `z` and one on its diagonal: the
/// stretch of the three axes by these.
pub open spec fn scaling_spec<T: Num>(x: T, y: T, z: T) -> Seq<Seq<T>> {
    let o = T::zero_spec();
    let l = T::one_spec();
    seq![seq![x, o, o, o], seq![o, y, o, o], seq![o, o, z, o], seq![o, o, o, l]]
}

/// The rotation by `r` radians about the first axis.
pub open spec fn rotation_x_spec<T: Real>(r: T) -> Seq<Seq<T>> {
    let o = T::zero_spec();
    let l = T::one_spec();
    let c = r.cos_spec();
    let s = r.sin_spec();
    seq![seq![l, o, o, o], seq![o, c, s.neg_spec(), o], seq![o, s, c, o], seq![o, o, o, l]]
}

/// The rotation by `r` radians about the second axis.
pub open spec fn rotation_y_spec<T: Real>(r: T) -> Seq<Seq<T>> {
    let o = T::zero_spec();
    let l = T::one_spec();
    let c = r.cos_spec();
    let s = r.sin_spec();
    seq![seq![c, o, s, o], seq![o, l, o, o], seq![s.neg_spec(), o, c, o], seq![o, o, o, l]]
}

/// The rotation by `r` radians about the third axis.
pub open spec fn rotation_z_spec<T: Real>(r: T) -> Seq<Seq<T>> {
    let o = T::zero_spec();
    let l = T::one_spec();
    let c = r.cos_spec();
    let s = r.sin_spec();
    seq![seq![c, s.neg_spec(), o, o], seq![s, c, o, o], seq![o, o, l, o], seq![o, o, o, l]]
}

/// Matching entries of two runs of cells are within the tolerance of each
/// other, as far as the shorter run goes.
pub open spec fn approx_cells<T: Real>(a: Seq<T>, b: Seq<T>) -> bool {
    forall|k: int| 0 <= k < a.len() && 0 <= k < b.len() ==> approx_eq(#[trigger] a[k], b[k])
}

/// Two grids have the same number of rows, and matching rows the same
/// length.
pub open spec fn same_shape<T>(a: Seq<Seq<T>>, b: Seq<Seq<T>>) -> bool {
    &&& a.len() == b.len()
    &&& forall|i: int| 0 <= i < a.len() ==> (#[trigger] a[i]).len() == b[i].len()
}

/// The vector-only steps of the view transform all receive vectors.
pub open spec fn view_defined<T: Real>(from: Tuple<T>, to: Tuple<T>, up: Tuple<T>) -> bool {
    let forward = to.minus_spec(from).normalize_spec();
    &&& up.is_vector()
    &&& to.minus_spec(from).is_vector()
    &&& forward.is_vector()
    &&& up.normalize_spec().is_vector()
    &&& cross_spec(forward, up.normalize_spec()).is_vector()
}

/// The rotation whose rows are `left`, `true_up` and the opposite of
/// `forward`.
pub open spec fn orientation_spec<T: Real>(
    left: Tuple<T>,
    true_up: Tuple<T>,
    forward: Tuple<T>,
) -> Seq<Seq<T>> {
    let o = T::zero_spec();
    let l = T::one_spec();
    seq![
        seq![left.0, left.1, left.2, o],
        seq![true_up.0, true_up.1, true_up.2, o],
        seq![forward.0.neg_spec(), forward.1.neg_spec(), forward.2.neg_spec(), o],
        seq![o, o, o, l],
    ]
}

/// The transform of a camera at `from` that looks at `to`, with `up` as a
/// hint of where the top is: the orientation after the move by the
/// opposite of `from`.
pub open spec fn view_transform_spec<T: Real>(
    from: Tuple<T>,
    to: Tuple<T>,
    up: Tuple<T>,
) -> Seq<Seq<T>> {
    let forward = to.minus_spec(from).normalize_spec();
    let left = cross_spec(forward, up.normalize_spec());
    let true_up = cross_spec(left, forward);
    product_spec(
        orientation_spec(left, true_up, forward),
        translation_spec(from.0.neg_spec(), from.1.neg_spec(), from.2.neg_spec()),
    )
}

proof fn lemma_unflat(k: int, w: int, h: int) -> (ij: (int, int))
    requires
        0 <= k < w * h,
        0 <= h,
        0 <= w,
    ensures
        0 <= ij.0 < h,
        0 <= ij.1 < w,
        flat(ij.0, ij.1, w) == k,
{
    assert(w > 0) by (nonlinear_arith)
        requires
            0 <= k < w * h,
            0 <= w,
    ;
    let i = k / w;
    let j = k % w;
    vstd::arithmetic::div_mod::lemma_fundamental_div_mod(k, w);
    vstd::arithmetic::div_mod::lemma_mod_bound(k, w);
    vstd::arithmetic::div_mod::lemma_div_pos_is_pos(k, w);
    assert(w * i == i * w) by (nonlinear_arith);
    if i >= h {
        assert(i * w >= h * w) by (nonlinear_arith)
            requires
                i >= h,
                w > 0,
        ;
        assert(h * w == w * h) by (nonlinear_arith);
    }
    (i, j)
}

impl<T> View for Matrix<T> {
    type V = Seq<Seq<T>>;

    closed spec fn view(&self) -> Seq<Seq<T>> {
        Seq::new(
            self.height as nat,
            |i: int|
                Seq::new(self.width as nat, |j: int| self.elems@[flat(i, j, self.width as int)]),
        )
    }
}

impl<T: Clone> Clone for Matrix<T> {
    fn clone(&self) -> (r: Self)
        ensures
            r@.len() == self@.len(),
            forall|i: int, j: int|
                0 <= i < self@.len() && 0 <= j < self@[i].len() ==> r@[i].len() == self@[i].len()
                    && cloned(self@[i][j], #[trigger] r@[i][j]),
    {
        proof {
            use_type_invariant(self);
        }
        let elems = self.elems.clone();
        let r = Matrix { elems, width: self.width, height: self.height };
        proof {
            assert forall|i: int, j: int|
                0 <= i < self@.len() && 0 <= j < self@[i].len() implies r@[i].len()
                == self@[i].len() && cloned(self@[i][j], #[trigger] r@[i][j]) by {
                lemma_flat_bound(i, j, self.width as int, self.height as int);
            }
        }
        r
    }
}

impl<T> Matrix<T> {
    #[verifier::type_invariant]
    spec fn well_formed(&self) -> bool {
        &&& self.elems@.len() == self.width * self.height
        &&& self.width * self.height <= usize::MAX
    }

    /// The matrix of `height` rows and `width` columns whose entries the
    /// calls `f(row, column)` return, or nothing as soon as such a call
    /// returns nothing.
    pub fn new_fn_option<F>(f: F, width: usize, height: usize) -> (r: Option<Self>) where
        F: Fn(usize, usize) -> Option<T>,

        requires
            width * height <= usize::MAX,
            forall|i: usize, j: usize| i < height && j < width ==> call_requires(f, (i, j)),
        ensures
            match r {
                Some(m) => {
                    &&& is_grid(m@, height as int, width as int)
                    &&& forall|i: int, j: int|
                        0 <= i < height && 0 <= j < width ==> call_ensures(
                            f,
                            (i as usize, j as usize),
                            Some(#[trigger] m@[i][j]),
                        )
                },
                None => exists|i: usize, j: usize|
                    i < height && j < width && call_ensures(f, (i, j), None),
            },
    {
        let mut elems: Vec<T> = Vec::with_capacity(width * height);
        let mut j: usize = 0;
        while j < height
            invariant
                j <= height,
                width * height <= usize::MAX,
                forall|i: usize, j: usize| i < height && j < width ==> call_requires(f, (i, j)),
                elems@.len() == flat(j as int, 0, width as int),
                forall|r: usize, c: usize|
                    r < j && c < width ==> call_ensures(
                        f,
                        (r, c),
                        Some(#[trigger] elems@[flat(r as int, c as int, width as int)]),
                    ),
            decreases height - j,
        {
            let mut i: usize = 0;
            while i < width
                invariant
                    j < height,
                    i <= width,
                    width * height <= usize::MAX,
                    forall|i: usize, j: usize| i < height && j < width ==> call_requires(f, (i, j)),
                    elems@.len() == flat(j as int, i as int, width as int),
                    forall|r: usize, c: usize|
                        (r < j && c < width) || (r == j && c < i) ==> call_ensures(
                            f,
                            (r, c),
                            Some(#[trigger] elems@[flat(r as int, c as int, width as int)]),
                        ),
                decreases width - i,
            {
                let a = f(j, i);
                match a {
                    None => {
                        return None;
                    },
                    Some(a) => {
                        proof {
                            assert forall|r: usize, c: usize|
                                (r < j && c < width) || (r == j && c < i) implies flat(
                                r as int,
                                c as int,
                                width as int,
                            ) < elems@.len() by {
                                if r < j {
                                    lemma_flat_bound(r as int, c as int, width as int, j as int);
                                    assert(width * j <= j * width + i) by (nonlinear_arith)
                                        requires
                                            0 <= i,
                                    ;
                                }
                            }
                        }
                        elems.push(a);
                    },
                }
                i += 1;
            }
            proof {
                assert(flat(j as int, width as int, width as int) == flat(j + 1, 0, width as int))
                    by (nonlinear_arith);
            }
            j += 1;
        }
        proof {
            assert(flat(height as int, 0, width as int) == width * height) by (nonlinear_arith);
        }
        let m = Matrix { elems, width, height };
        proof {
            assert(is_grid(m@, height as int, width as int));
            assert forall|i: int, j: int| 0 <= i < height && 0 <= j < width implies call_ensures(
                f,
                (i as usize, j as usize),
                Some(#[trigger] m@[i][j]),
            ) by {
                assert(m@[i][j] == elems@[flat(
                    i as usize as int,
                    j as usize as int,
                    width as int,
                )]);
            }
        }
        Some(m)
    }

    /// The matrix of `height` rows and `width` columns whose entries the
    /// calls `f(row, column)` return.
    pub fn new_fn<F>(f: F, width: usize, height: usize) -> (r: Self) where
        F: Fn(usize, usize) -> T,

        requires
            width * height <= usize::MAX,
            forall|i: usize, j: usize| i < height && j < width ==> call_requires(f, (i, j)),
        ensures
            is_grid(r@, height as int, width as int),
            forall|i: int, j: int|
                0 <= i < height && 0 <= j < width ==> call_ensures(
                    f,
                    (i as usize, j as usize),
                    #[trigger] r@[i][j],
                ),
    {
        let mut elems: Vec<T> = Vec::with_capacity(width * height);
        let mut j: usize = 0;
        while j < height
            invariant
                j <= height,
                width * height <= usize::MAX,
                forall|i: usize, j: usize| i < height && j < width ==> call_requires(f, (i, j)),
                elems@.len() == flat(j as int, 0, width as int),
                forall|r: usize, c: usize|
                    r < j && c < width ==> call_ensures(
                        f,
                        (r, c),
                        #[trigger] elems@[flat(r as int, c as int, width as int)],
                    ),
            decreases height - j,
        {
            let mut i: usize = 0;
            while i < width
                invariant
                    j < height,
                    i <= width,
                    width * height <= usize::MAX,
                    forall|i: usize, j: usize| i < height && j < width ==> call_requires(f, (i, j)),
                    elems@.len() == flat(j as int, i as int, width as int),
                    forall|r: usize, c: usize|
                        (r < j && c < width) || (r == j && c < i) ==> call_ensures(
                            f,
                            (r, c),
                            #[trigger] elems@[flat(r as int, c as int, width as int)],
                        ),
                decreases width - i,
            {
                let a = f(j, i);
                proof {
                    assert forall|r: usize, c: usize|
                        (r < j && c < width) || (r == j && c < i) implies flat(
                        r as int,
                        c as int,
                        width as int,
                    ) < elems@.len() by {
                        if r < j {
                            lemma_flat_bound(r as int, c as int, width as int, j as int);
                            assert(width * j <= j * width + i) by (nonlinear_arith)
                                requires
                                    0 <= i,
                            ;
                        }
                    }
                }
                elems.push(a);
                i += 1;
            }
            proof {
                assert(flat(j as int, width as int, width as int) == flat(j + 1, 0, width as int))
                    by (nonlinear_arith);
            }
            j += 1;
        }
        proof {
            assert(flat(height as int, 0, width as int) == width * height) by (nonlinear_arith);
        }
        let m = Matrix { elems, width, height };
        proof {
            assert(is_grid(m@, height as int, width as int));
            assert forall|i: int, j: int| 0 <= i < height && 0 <= j < width implies call_ensures(
                f,
                (i as usize, j as usize),
                #[trigger] m@[i][j],
            ) by {
                assert(m@[i][j] == elems@[flat(
                    i as usize as int,
                    j as usize as int,
                    width as int,
                )]);
            }
        }
        m
    }

    /// Where the entry of row `i` and column `j` is kept.
    fn get_index(&self, i: usize, j: usize) -> (k: usize)
        requires
            i < self@.len(),
            j < self@[i as int].len(),
        ensures
            k == flat(i as int, j as int, self.width as int),
            k < self.elems@.len(),
            self.elems@[k as int] == self@[i as int][j as int],
    {
        proof {
            use_type_invariant(self);
            assert(self@.len() == self.height);
            assert(self@[i as int].len() == self.width);
            lemma_flat_bound(i as int, j as int, self.width as int, self.height as int);
        }
        i * self.width + j
    }

    /// The entry of row `i` and column `j`.
    pub fn get(&self, i: usize, j: usize) -> (r: &T)
        requires
            i < self@.len(),
            j < self@[i as int].len(),
        ensures
            *r == self@[i as int][j as int],
    {
        &self.elems[self.get_index(i, j)]
    }

    /// Replaces the entry of row `i` and column `j` by `value`.
    pub fn set(&mut self, i: usize, j: usize, value: T)
        requires
            i < old(self)@.len(),
            j < old(self)@[i as int].len(),
        ensures
            final(self)@ == old(self)@.update(
                i as int,
                old(self)@[i as int].update(j as int, value),
            ),
    {
        proof {
            use_type_invariant(&*self);
        }
        let k = self.get_index(i, j);
        self.elems[k] = value;
        proof {
            let w = self.width as int;
            let want = old(self)@.update(i as int, old(self)@[i as int].update(j as int, value));
            assert(self@.len() == want.len());
            assert forall|r: int| 0 <= r < self@.len() implies self@[r] == want[r] by {
                assert(self@[r].len() == want[r].len());
                assert forall|c: int| 0 <= c < self@[r].len() implies self@[r][c] == want[r][c] by {
                    lemma_flat_bound(r, c, w, self.height as int);
                    if flat(r, c, w) == flat(i as int, j as int, w) {
                        lemma_flat_unique(r, c, i as int, j as int, w);
                    }
                    assert(self@[r][c] == self.elems@[flat(r, c, w)]);
                    assert(old(self)@[r][c] == old(self).elems@[flat(r, c, w)]);
                    assert(k == flat(i as int, j as int, w));
                }
                assert(self@[r] =~= want[r]);
            }
            assert(self@ =~= want);
        }
    }
}

impl<T> Matrix<T> {
    /// The entries row after row, as they are kept.
    pub closed spec fn cells(&self) -> Seq<T> {
        self.elems@
    }

    /// The view is a grid, and its entries are the cells taken row by row.
    pub proof fn lemma_view_shape(&self)
        ensures
            self@.len() > 0 ==> is_grid(self@, self@.len() as int, self@[0].len() as int),
            forall|i: int, j: int|
                0 <= i < self@.len() && 0 <= j < self@[i].len() ==> #[trigger] self@[i][j]
                    == self.cells()[flat(i, j, self@[i].len() as int)],
    {
    }
}

impl<T: Num> Matrix<T> {
    /// Both matrices have the same numbers of rows and columns, and
    /// matching cells test equal.
    pub closed spec fn same_cells(&self, other: &Matrix<T>) -> bool {
        &&& self.width == other.width
        &&& self.height == other.height
        &&& forall|k: int|
            0 <= k < self.elems@.len() && k < other.elems@.len() ==> (
            #[trigger] self.elems@[k]).eq_spec(other.elems@[k])
    }

    /// Whether the two matrices have the same shape and cells that test
    /// equal.
    pub fn same(&self, other: &Matrix<T>) -> (r: bool)
        ensures
            r == self.same_cells(other),
    {
        if self.width != other.width || self.height != other.height {
            return false;
        }
        proof {
            use_type_invariant(self);
            use_type_invariant(other);
        }
        let mut all = true;
        let mut k: usize = 0;
        while k < self.elems.len()
            invariant
                k <= self.elems@.len(),
                self.elems@.len() == other.elems@.len(),
                all == (forall|q: int|
                    0 <= q < k ==> (#[trigger] self.elems@[q]).eq_spec(other.elems@[q])),
            decreases self.elems@.len() - k,
        {
            let equal = self.elems[k].eq(other.elems[k]);
            all = all && equal;
            k += 1;
        }
        all
    }
}

impl<T: Copy> Matrix<T> {
    /// The matrix whose rows are the vectors of `elems`.
    pub fn new(elems: Vec<Vec<T>>) -> (r: Self)
        requires
            elems.len() > 0,
            forall|i: int| 0 <= i < elems.len() ==> (#[trigger] elems[i]).len() == elems[0].len(),
            elems.len() * elems[0].len() <= usize::MAX,
        ensures
            r@.len() == elems.len(),
            forall|i: int| 0 <= i < elems.len() ==> #[trigger] r@[i] == elems[i]@,
    {
        let height = elems.len();
        let width = elems[0].len();
        let f = |i: usize, j: usize| -> (r: T)
            requires
                i < height,
                j < width,
            ensures
                r == elems[i as int][j as int],
            { elems[i][j] };
        proof {
            assert(width * height == elems.len() * elems[0].len()) by (nonlinear_arith)
                requires
                    width == elems[0].len(),
                    height == elems.len(),
            ;
        }
        let m = Matrix::new_fn(f, width, height);
        proof {
            assert forall|i: int| 0 <= i < elems.len() implies #[trigger] m@[i] == elems[i]@ by {
                assert(m@[i] =~= elems[i]@);
            }
        }
        m
    }

    /// The square matrix with rows and columns exchanged.
    pub fn transpose(&self) -> (r: Matrix<T>)
        requires
            is_square(self@),
        ensures
            r@ == transpose_spec(self@),
    {
        proof {
            use_type_invariant(self);
            if self.height > 0 {
                assert(self@[0].len() == self.width);
            }
        }
        let n = self.height;
        let f = |i: usize, j: usize| -> (r: T)
            requires
                i < n,
                j < n,
            ensures
                r == self@[j as int][i as int],
            { *self.get(j, i) };
        let m = Matrix::new_fn(f, self.width, self.height);
        proof {
            assert(m@ =~~= transpose_spec(self@));
        }
        m
    }
}

impl<T: Num> Matrix<T> {
    /// The matrix of `height` rows and `width` columns that holds zero
    /// everywhere.
    pub fn zeros(width: usize, height: usize) -> (r: Self)
        requires
            width * height <= usize::MAX,
        ensures
            r@ == zeros_spec::<T>(width as int, height as int),
    {
        let f = |i: usize, j: usize| -> (r: T)
            ensures
                r == T::zero_spec(),
            { T::zero() };
        let m = Matrix::new_fn(f, width, height);
        proof {
            assert(m@ =~~= zeros_spec::<T>(width as int, height as int));
        }
        m
    }

    /// The identity matrix of `size` rows.
    pub fn eye(size: usize) -> (r: Self)
        requires
            size * size <= usize::MAX,
        ensures
            r@ == eye_spec::<T>(size as int),
    {
        let f = |i: usize, j: usize| -> (r: T)
            ensures
                r == (if i == j {
                    T::one_spec()
                } else {
                    T::zero_spec()
                }),
            {
                if i == j {
                    T::one()
                } else {
                    T::zero()
                }
            };
        let m = Matrix::new_fn(f, size, size);
        proof {
            assert(m@ =~~= eye_spec::<T>(size as int));
        }
        m
    }
}

impl<T: Num> Matrix<T> {
    /// The matrix without row `row` and column `col`.
    pub fn submatrix(&self, row: usize, col: usize) -> (r: Matrix<T>)
        requires
            row < self@.len(),
            col < self@[0].len(),
        ensures
            r@ == submatrix_spec(self@, row as int, col as int),
    {
        proof {
            use_type_invariant(self);
            assert(self@.len() == self.height);
            assert(self@[0].len() == self.width);
            assert((self.width - 1) * (self.height - 1) <= self.width * self.height)
                by (nonlinear_arith)
                requires
                    self.width >= 1,
                    self.height >= 1,
            ;
        }
        let w = self.width - 1;
        let h = self.height - 1;
        let f = |i: usize, j: usize| -> (r: T)
            requires
                i < h,
                j < w,
            ensures
                r == self@[skip(i as int, row as int)][skip(j as int, col as int)],
            {
                let si = if i < row {
                    i
                } else {
                    i + 1
                };
                let sj = if j < col {
                    j
                } else {
                    j + 1
                };
                assert(self@[si as int].len() == self.width);
                *self.get(si, sj)
            };
        let m = Matrix::new_fn(f, w, h);
        proof {
            assert(m@ =~~= submatrix_spec(self@, row as int, col as int));
        }
        m
    }

    /// The determinant of the square matrix.
    pub fn det(&self) -> (r: T)
        requires
            is_square(self@),
        ensures
            r == det_spec(self@),
        decreases self@.len(), 1nat,
    {
        proof {
            assert(self@.len() == self.height);
            if self.height > 0 {
                assert(self@[0].len() == self.width);
            }
        }
        if self.width == 1 && self.height == 1 {
            *self.get(0, 0)
        } else if self.width == 2 && self.height == 2 {
            self.get(0, 0).mul(*self.get(1, 1)).sub(self.get(0, 1).mul(*self.get(1, 0)))
        } else {
            let n = self.height;
            let mut sum = T::zero();
            let mut col: usize = 0;
            while col < n
                invariant
                    col <= n,
                    n == self@.len(),
                    is_square(self@),
                    sum == laplace_spec(self@, col as nat),
                decreases n - col,
            {
                sum = sum.add(self.cofactor(0, col).mul(*self.get(0, col)));
                col += 1;
            }
            sum
        }
    }

    /// The determinant of the matrix without row `row` and column `col`.
    pub fn mirror(&self, row: usize, col: usize) -> (r: T)
        requires
            is_square(self@),
            row < self@.len(),
            col < self@.len(),
        ensures
            r == minor_spec(self@, row as int, col as int),
    {
        self.submatrix(row, col).det()
    }

    /// The minor of `row` and `col`, with its sign changed where their sum
    /// is odd.
    pub fn cofactor(&self, row: usize, col: usize) -> (r: T)
        requires
            is_square(self@),
            row < self@.len(),
            col < self@.len(),
        ensures
            r == cofactor_spec(self@, row as int, col as int),
        decreases self@.len(), 0nat,
    {
        let sign = if (row % 2 + col % 2) % 2 == 0 {
            T::one()
        } else {
            T::zero().sub(T::one())
        };
        assert(((row % 2 + col % 2) % 2 == 0) == ((row + col) % 2 == 0));
        self.submatrix(row, col).det().mul(sign)
    }
}

impl<T: Num> Matrix<T> {
    /// The transform that moves a point by `x`, `y` and `z`.
    pub fn translate(x: T, y: T, z: T) -> (r: Self)
        ensures
            r@ == translation_spec(x, y, z),
    {
        let mut eye = Self::eye(4);
        eye.set(0, 3, x);
        eye.set(1, 3, y);
        eye.set(2, 3, z);
        proof {
            lemma_same_grid(eye@, translation_spec(x, y, z), 4, 4);
        }
        eye
    }

    /// The transform that stretches the three axes by `x`, `y` and `z`.
    pub fn scale(x: T, y: T, z: T) -> (r: Self)
        ensures
            r@ == scaling_spec(x, y, z),
    {
        let mut eye = Self::eye(4);
        eye.set(0, 0, x);
        eye.set(1, 1, y);
        eye.set(2, 2, z);
        proof {
            lemma_same_grid(eye@, scaling_spec(x, y, z), 4, 4);
        }
        eye
    }

    fn entry_product(&self, other: &Matrix<T>, i: usize, j: usize) -> (r: T)
        requires
            is_square(self@),
            is_square(other@),
            self@.len() == other@.len(),
            i < self@.len(),
            j < self@.len(),
        ensures
            r == product_entry(self@, other@, i as int, j as int, self@.len()),
    {
        proof {
            assert(self@.len() == self.height);
        }
        let n = self.height;
        let mut sum = T::zero();
        let mut k: usize = 0;
        while k < n
            invariant
                k <= n,
                n == self@.len(),
                i < n,
                j < n,
                is_square(self@),
                is_square(other@),
                self@.len() == other@.len(),
                sum == product_entry(self@, other@, i as int, j as int, k as nat),
            decreases n - k,
        {
            sum = sum.add(self.get(i, k).mul(*other.get(k, j)));
            k += 1;
        }
        sum
    }

    /// The product of two square matrices of the same size.
    pub fn times(&self, other: &Matrix<T>) -> (r: Matrix<T>)
        requires
            is_square(self@),
            is_square(other@),
            self@.len() == other@.len(),
        ensures
            r@ == product_spec(self@, other@),
    {
        proof {
            use_type_invariant(self);
            assert(self@.len() == self.height);
            if self.height > 0 {
                assert(self@[0].len() == self.width);
            }
        }
        let n = self.height;
        let f = |i: usize, j: usize| -> (r: T)
            requires
                i < n,
                j < n,
            ensures
                r == product_entry(self@, other@, i as int, j as int, n as nat),
            { self.entry_product(other, i, j) };
        let m = Matrix::new_fn(f, self.width, self.height);
        proof {
            assert(m@ =~~= product_spec(self@, other@));
        }
        m
    }

    fn row_product(&self, t: Tuple<T>, i: usize) -> (r: T)
        requires
            i < self@.len(),
            self@[i as int].len() <= 4,
        ensures
            r == row_dot(self@[i as int], t, self@[i as int].len()),
    {
        proof {
            assert(self@[i as int].len() == self.width);
        }
        let mut sum = T::zero();
        let mut j: usize = 0;
        while j < self.width
            invariant
                j <= self.width,
                self.width <= 4,
                i < self@.len(),
                self@[i as int].len() == self.width,
                sum == row_dot(self@[i as int], t, j as nat),
            decreases self.width - j,
        {
            sum = sum.add(self.get(i, j).mul(*t.get(j)));
            j += 1;
        }
        sum
    }

    /// The matrix of four rows applied to `t` as a column.
    pub fn apply(&self, t: Tuple<T>) -> (r: Tuple<T>)
        requires
            self@.len() == 4,
            self@[0].len() <= 4,
        ensures
            r == apply_spec(self@, t),
    {
        proof {
            self.lemma_view_shape();
        }
        Tuple(
            self.row_product(t, 0),
            self.row_product(t, 1),
            self.row_product(t, 2),
            self.row_product(t, 3),
        )
    }
}

/// Two grids of the same shape with the same entries are the same grid.
proof fn lemma_same_grid<T>(a: Seq<Seq<T>>, b: Seq<Seq<T>>, h: int, w: int)
    requires
        is_grid(a, h, w),
        is_grid(b, h, w),
        forall|i: int, j: int| 0 <= i < h && 0 <= j < w ==> a[i][j] == b[i][j],
    ensures
        a == b,
{
    assert forall|i: int| 0 <= i < h implies a[i] == b[i] by {
        assert(a[i] =~= b[i]);
    }
    assert(a =~= b);
}

impl<T: Real> Matrix<T> {
    /// Whether matching cells of the two matrices differ by at most the
    /// tolerance, as far as the shorter of the two goes.
    pub fn eq_real(&self, other: Matrix<T>) -> (r: bool)
        ensures
            r == approx_cells(self.cells(), other.cells()),
            same_shape(self@, other@) ==> r == approx_grid(self@, other@),
    {
        let n = if self.elems.len() < other.elems.len() {
            self.elems.len()
        } else {
            other.elems.len()
        };
        let mut all = true;
        let mut k: usize = 0;
        while k < n
            invariant
                k <= n,
                n <= self.elems@.len(),
                n <= other.elems@.len(),
                all == (forall|q: int|
                    0 <= q < k ==> approx_eq(#[trigger] self.elems@[q], other.elems@[q])),
            decreases n - k,
        {
            let close = is_close(self.elems[k], other.elems[k]);
            all = all && close;
            k += 1;
        }
        proof {
            use_type_invariant(self);
            use_type_invariant(&other);
            if same_shape(self@, other@) {
                let h = self.height as int;
                assert(self@.len() == h && other@.len() == h);
                if h == 0 {
                    assert(self.elems@.len() == 0) by (nonlinear_arith)
                        requires
                            self.elems@.len() == self.width * self.height,
                            self.height == 0,
                    ;
                } else {
                    let w = self.width as int;
                    assert(self@[0].len() == w);
                    assert(other@[0].len() == other.width);
                    assert(other.width == w && other.height == h);
                    if all {
                        assert forall|i: int, j: int|
                            0 <= i < self@.len() && 0 <= j < self@[i].len() implies approx_eq(
                            #[trigger] self@[i][j],
                            other@[i][j],
                        ) by {
                            lemma_flat_bound(i, j, w, h);
                            assert(approx_eq(
                                self.elems@[flat(i, j, w)],
                                other.elems@[flat(i, j, w)],
                            ));
                        }
                    }
                    if approx_grid(self@, other@) {
                        assert forall|q: int| 0 <= q < n implies approx_eq(
                            #[trigger] self.elems@[q],
                            other.elems@[q],
                        ) by {
                            let ij = lemma_unflat(q, w, h);
                            assert(approx_eq(self@[ij.0][ij.1], other@[ij.0][ij.1]));
                        }
                    }
                }
            }
        }
        all
    }

    /// The rotation by `r` radians about the first axis.
    pub fn rotation_x(r: T) -> (m: Self)
        ensures
            m@ == rotation_x_spec(r),
    {
        let mut eye = Self::eye(4);
        eye.set(1, 1, r.cos());
        eye.set(1, 2, r.sin().neg());
        eye.set(2, 1, r.sin());
        eye.set(2, 2, r.cos());
        proof {
            lemma_same_grid(eye@, rotation_x_spec(r), 4, 4);
        }
        eye
    }

    /// The rotation by `r` radians about the second axis.
    pub fn rotation_y(r: T) -> (m: Self)
        ensures
            m@ == rotation_y_spec(r),
    {
        let mut eye = Self::eye(4);
        eye.set(0, 0, r.cos());
        eye.set(0, 2, r.sin());
        eye.set(2, 0, r.sin().neg());
        eye.set(2, 2, r.cos());
        proof {
            lemma_same_grid(eye@, rotation_y_spec(r), 4, 4);
        }
        eye
    }

    /// The rotation by `r` radians about the third axis.
    pub fn rotation_z(r: T) -> (m: Self)
        ensures
            m@ == rotation_z_spec(r),
    {
        let mut eye = Self::eye(4);
        eye.set(0, 0, r.cos());
        eye.set(0, 1, r.sin().neg());
        eye.set(1, 0, r.sin());
        eye.set(1, 1, r.cos());
        proof {
            lemma_same_grid(eye@, rotation_z_spec(r), 4, 4);
        }
        eye
    }

    /// The transform of a camera at `from` that looks at `to`, with `up` as
    /// a hint of where the top is; nothing where a vector-only step would
    /// receive what is no vector.
    pub fn try_view_transform(from: Tuple<T>, to: Tuple<T>, up: Tuple<T>) -> (r: Option<Self>)
        ensures
            match r {
                Some(m) => view_defined(from, to, up) && m@ == view_transform_spec(from, to, up),
                None => !view_defined(from, to, up),
            },
    {
        if !up.is_vector() || !to.minus(from).is_vector() {
            return None;
        }
        let up = up.normalize();
        let forward = to.minus(from).normalize();
        if !forward.is_vector() || !up.is_vector() {
            return None;
        }
        let left = cross(forward, up);
        if !left.is_vector() {
            return None;
        }
        let real_up = cross(left, forward);
        let mut orientation = Self::eye(4);
        orientation.set(0, 0, left.0);
        orientation.set(0, 1, left.1);
        orientation.set(0, 2, left.2);
        orientation.set(1, 0, real_up.0);
        orientation.set(1, 1, real_up.1);
        orientation.set(1, 2, real_up.2);
        orientation.set(2, 0, forward.0.neg());
        orientation.set(2, 1, forward.1.neg());
        orientation.set(2, 2, forward.2.neg());
        proof {
            lemma_same_grid(orientation@, orientation_spec(left, real_up, forward), 4, 4);
        }
        Some(orientation.times(&Self::translate(from.0.neg(), from.1.neg(), from.2.neg())))
    }

    /// The transform of a camera at `from` that looks at `to`, with `up` as
    /// a hint of where the top is.
    pub fn view_transform(from: Tuple<T>, to: Tuple<T>, up: Tuple<T>) -> (r: Self)
        requires
            view_defined(from, to, up),
        ensures
            r@ == view_transform_spec(from, to, up),
    {
        match Self::try_view_transform(from, to, up) {
            Some(m) => m,
            None => unreached(),
        }
    }

    /// The inverse of the square matrix, or nothing where the determinant is
    /// within the tolerance of zero.
    pub fn inverse(&self) -> (r: Option<Matrix<T>>)
        requires
            is_square(self@),
        ensures
            match r {
                Some(m) => !is_singular(self@) && m@ == inverse_spec(self@),
                None => is_singular(self@),
            },
    {
        proof {
            use_type_invariant(self);
            assert(self@.len() == self.height);
            if self.height > 0 {
                assert(self@[0].len() == self.width);
            }
        }
        let d = self.det();
        if d.abs().le(T::epsilon()) {
            return None;
        }
        let n = self.height;
        let f = |i: usize, j: usize| -> (r: T)
            requires
                i < n,
                j < n,
            ensures
                r == cofactor_spec(self@, j as int, i as int).div_spec(d),
            { self.cofactor(j, i).div(d) };
        let m = Matrix::new_fn(f, self.width, self.height);
        proof {
            assert(m@ =~~= inverse_spec(self@));
        }
        Some(m)
    }
}

impl<T> Index<(usize, usize)> for Matrix<T> {
    type Output = T;

    fn index(&self, idx: (usize, usize)) -> (r: &T)
        ensures
            *r == self@[idx.0 as int][idx.1 as int],
    {
        self.get(idx.0, idx.1)
    }
}

impl<T> vstd::std_specs::core::IndexSpecImpl<(usize, usize)> for Matrix<T> {
    open spec fn index_req(&self, idx: &(usize, usize)) -> bool {
        idx.0 < self@.len() && idx.1 < self@[idx.0 as int].len()
    }
}

impl<'a, T: Num> Mul<&'a Matrix<T>> for &'a Matrix<T> {
    type Output = Matrix<T>;

    fn mul(self, other: &'a Matrix<T>) -> (r: Matrix<T>)
        ensures
            r@ == product_spec(self@, other@),
    {
        self.times(other)
    }
}

impl<'a, T: Num> vstd::std_specs::ops::MulSpecImpl<&'a Matrix<T>> for &'a Matrix<T> {
    open spec fn obeys_mul_spec() -> bool {
        false
    }

    open spec fn mul_req(self, other: &'a Matrix<T>) -> bool {
        is_square(self@) && is_square(other@) && self@.len() == other@.len()
    }

    open spec fn mul_spec(self, other: &'a Matrix<T>) -> Matrix<T> {
        arbitrary()
    }
}

impl<'a, T: Num> Mul<Tuple<T>> for &'a Matrix<T> {
    type Output = Tuple<T>;

    fn mul(self, other: Tuple<T>) -> (r: Tuple<T>) {
        self.apply(other)
    }
}

impl<'a, T: Num> vstd::std_specs::ops::MulSpecImpl<Tuple<T>> for &'a Matrix<T> {
    open spec fn obeys_mul_spec() -> bool {
        true
    }

    open spec fn mul_req(self, other: Tuple<T>) -> bool {
        self@.len() == 4 && self@[0].len() <= 4
    }

    open spec fn mul_spec(self, other: Tuple<T>) -> Tuple<T> {
        apply_spec(self@, other)
    }
}

/// Accumulates transforms of space in the order in which they are to act.
///
/// Its view is the matrix gathered so far, which has four rows and columns.
pub struct TransformBuilder<T>(Matrix<T>);

impl<T> View for TransformBuilder<T> {
    type V = Seq<Seq<T>>;

    closed spec fn view(&self) -> Seq<Seq<T>> {
        self.0@
    }
}

impl<T> TransformBuilder<T> {
    #[verifier::type_invariant]
    spec fn four_by_four(&self) -> bool {
        is_grid(self.0@, 4, 4)
    }
}

impl<T: Real> TransformBuilder<T> {
    /// The builder that holds the identity.
    pub fn identity() -> (r: Self)
        ensures
            r@ == eye_spec::<T>(4),
    {
        TransformBuilder(Matrix::eye(4))
    }

    /// Adds a move by `x`, `y` and `z`, to act after what was gathered.
    pub fn translate(&self, x: T, y: T, z: T) -> (r: Self)
        ensures
            r@ == product_spec(translation_spec(x, y, z), self@),
    {
        proof {
            use_type_invariant(self);
        }
        TransformBuilder(Matrix::translate(x, y, z).times(&self.0))
    }

    /// Adds a stretch by `x`, `y` and `z`, to act after what was gathered.
    pub fn scale(&self, x: T, y: T, z: T) -> (r: Self)
        ensures
            r@ == product_spec(scaling_spec(x, y, z), self@),
    {
        proof {
            use_type_invariant(self);
        }
        TransformBuilder(Matrix::scale(x, y, z).times(&self.0))
    }

    /// Adds a rotation about the first axis, to act after what was gathered.
    pub fn rotation_x(&self, r: T) -> (b: Self)
        ensures
            b@ == product_spec(rotation_x_spec(r), self@),
    {
        proof {
            use_type_invariant(self);
        }
        TransformBuilder(Matrix::rotation_x(r).times(&self.0))
    }

    /// Adds a rotation about the second axis, to act after what was gathered.
    pub fn rotation_y(&self, r: T) -> (b: Self)
        ensures
            b@ == product_spec(rotation_y_spec(r), self@),
    {
        proof {
            use_type_invariant(self);
        }
        TransformBuilder(Matrix::rotation_y(r).times(&self.0))
    }

    /// Adds a rotation about the third axis, to act after what was gathered.
    pub fn rotation_z(&self, r: T) -> (b: Self)
        ensures
            b@ == product_spec(rotation_z_spec(r), self@),
    {
        proof {
            use_type_invariant(self);
        }
        TransformBuilder(Matrix::rotation_z(r).times(&self.0))
    }

    /// The matrix gathered, which has four rows and four columns.
    pub fn build(self) -> (r: Matrix<T>)
        ensures
            r@ == self@,
            is_grid(r@, 4, 4),
    {
        proof {
            use_type_invariant(&self);
        }
        self.0
    }
}

proof fn lemma_entry_right_identity<T: Num>(m: Seq<Seq<T>>, i: int, j: int, k: nat)
    requires
        has_identities::<T>(),
        is_square(m),
        0 <= i < m.len(),
        0 <= j < m.len(),
        k <= m.len(),
    ensures
        product_entry(m, eye_spec::<T>(m.len() as int), i, j, k) == (if j < k {
            m[i][j]
        } else {
            T::zero_spec()
        }),
    decreases k,
{
    if k > 0 {
        lemma_entry_right_identity(m, i, j, (k - 1) as nat);
    }
}

proof fn lemma_entry_left_identity<T: Num>(m: Seq<Seq<T>>, i: int, j: int, k: nat)
    requires
        has_identities::<T>(),
        is_square(m),
        0 <= i < m.len(),
        0 <= j < m.len(),
        k <= m.len(),
    ensures
        product_entry(eye_spec::<T>(m.len() as int), m, i, j, k) == (if i < k {
            m[i][j]
        } else {
            T::zero_spec()
        }),
    decreases k,
{
    if k > 0 {
        lemma_entry_left_identity(m, i, j, (k - 1) as nat);
    }
}

/// Where zero and one are neutral and zero absorbs, the product of a square
/// grid with the identity of its size, on either side, is the grid itself.
pub proof fn lemma_product_identity<T: Num>(m: Seq<Seq<T>>)
    requires
        has_identities::<T>(),
        is_square(m),
    ensures
        product_spec(m, eye_spec::<T>(m.len() as int)) == m,
        product_spec(eye_spec::<T>(m.len() as int), m) == m,
{
    let n = m.len() as int;
    let e = eye_spec::<T>(n);
    assert forall|i: int, j: int| 0 <= i < n && 0 <= j < n implies product_spec(m, e)[i][j]
        == m[i][j] && product_spec(e, m)[i][j] == m[i][j] by {
        lemma_entry_right_identity(m, i, j, m.len());
        lemma_entry_left_identity(m, i, j, m.len());
    }
    lemma_same_grid(product_spec(m, e), m, n, n);
    lemma_same_grid(product_spec(e, m), m, n, n);
}

/// Transforms act in the order in which the builder is given them: where
/// zero and one are neutral and zero absorbs, a builder that starts from the
/// identity and is given `first` and then `second` holds the product of
/// `second` with `first`, so that `first` acts on a point before `second`.
pub proof fn lemma_builder_order<T: Num>(first: Seq<Seq<T>>, second: Seq<Seq<T>>)
    requires
        has_identities::<T>(),
        is_grid(first, 4, 4),
        is_grid(second, 4, 4),
    ensures
        product_spec(second, product_spec(first, eye_spec::<T>(4))) == product_spec(second, first),
{
    lemma_product_identity(first);
}

} // verus!
