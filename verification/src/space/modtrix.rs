//! The 4x4 matrices that transform a space.
use crate::scalar::{
    clamp64, clamp_wide, lemma_trunc_div_multiple, product_wide, scaled_product, Scalar, ONE_RAW,
};
use vstd::prelude::*;
use vstd::std_specs::convert::FromSpecImpl;

verus! {

/// A 4x4 matrix, stored row by row. It transforms a point, taken as the
/// column `(x, y, z, 1)`, by multiplication from the left.
#[derive(Clone, Copy, Debug)]
pub struct Modtrix {
    pub store: [[Scalar; 4]; 4],
}

/// The sum of four products, each rounded toward zero, saturated.
pub open spec fn dot4(
    a0: Scalar,
    b0: Scalar,
    a1: Scalar,
    b1: Scalar,
    a2: Scalar,
    b2: Scalar,
    a3: Scalar,
    b3: Scalar,
) -> Scalar {
    Scalar {
        raw: clamp64(
            scaled_product(a0@, b0@) + scaled_product(a1@, b1@) + scaled_product(a2@, b2@)
                + scaled_product(a3@, b3@),
        ) as i64,
    }
}

/// Row `i` of `lhs` times column `j` of `rhs`.
pub open spec fn row_by_column(lhs: Modtrix, rhs: Modtrix, i: int, j: int) -> Scalar {
    dot4(
        lhs.store[i][0],
        rhs.store[0][j],
        lhs.store[i][1],
        rhs.store[1][j],
        lhs.store[i][2],
        rhs.store[2][j],
        lhs.store[i][3],
        rhs.store[3][j],
    )
}

/// The matrix product of `lhs` and `rhs`: applying it to a point is
/// applying `rhs` first and `lhs` second.
pub open spec fn product(lhs: Modtrix, rhs: Modtrix) -> Modtrix {
    Modtrix {
        store: [
            [
                row_by_column(lhs, rhs, 0, 0),
                row_by_column(lhs, rhs, 0, 1),
                row_by_column(lhs, rhs, 0, 2),
                row_by_column(lhs, rhs, 0, 3),
            ],
            [
                row_by_column(lhs, rhs, 1, 0),
                row_by_column(lhs, rhs, 1, 1),
                row_by_column(lhs, rhs, 1, 2),
                row_by_column(lhs, rhs, 1, 3),
            ],
            [
                row_by_column(lhs, rhs, 2, 0),
                row_by_column(lhs, rhs, 2, 1),
                row_by_column(lhs, rhs, 2, 2),
                row_by_column(lhs, rhs, 2, 3),
            ],
            [
                row_by_column(lhs, rhs, 3, 0),
                row_by_column(lhs, rhs, 3, 1),
                row_by_column(lhs, rhs, 3, 2),
                row_by_column(lhs, rhs, 3, 3),
            ],
        ],
    }
}

/// The scalar zero.
pub open spec fn zero() -> Scalar {
    Scalar { raw: 0 }
}

/// The scalar one.
pub open spec fn one() -> Scalar {
    Scalar { raw: ONE_RAW }
}

/// The negation of `s`, saturated.
pub open spec fn negated(s: Scalar) -> Scalar {
    Scalar { raw: clamp64(-s@) as i64 }
}

/// The identity.
pub open spec fn identity() -> Modtrix {
    Modtrix {
        store: [
            [one(), zero(), zero(), zero()],
            [zero(), one(), zero(), zero()],
            [zero(), zero(), one(), zero()],
            [zero(), zero(), zero(), one()],
        ],
    }
}

/// The translation by `(x, y, z)`.
pub open spec fn translation(x: Scalar, y: Scalar, z: Scalar) -> Modtrix {
    Modtrix {
        store: [
            [one(), zero(), zero(), x],
            [zero(), one(), zero(), y],
            [zero(), zero(), one(), z],
            [zero(), zero(), zero(), one()],
        ],
    }
}

/// The dilation by `x`, `y` and `z` along the three axes.
pub open spec fn dilation(x: Scalar, y: Scalar, z: Scalar) -> Modtrix {
    Modtrix {
        store: [
            [x, zero(), zero(), zero()],
            [zero(), y, zero(), zero()],
            [zero(), zero(), z, zero()],
            [zero(), zero(), zero(), one()],
        ],
    }
}

/// The counter-clockwise rotation about the x axis by the angle with the
/// given sine and cosine.
pub open spec fn rotation_x(sin: Scalar, cos: Scalar) -> Modtrix {
    Modtrix {
        store: [
            [one(), zero(), zero(), zero()],
            [zero(), cos, negated(sin), zero()],
            [zero(), sin, cos, zero()],
            [zero(), zero(), zero(), one()],
        ],
    }
}

/// The counter-clockwise rotation about the y axis by the angle with the
/// given sine and cosine.
pub open spec fn rotation_y(sin: Scalar, cos: Scalar) -> Modtrix {
    Modtrix {
        store: [
            [cos, zero(), sin, zero()],
            [zero(), one(), zero(), zero()],
            [negated(sin), zero(), cos, zero()],
            [zero(), zero(), zero(), one()],
        ],
    }
}

/// The counter-clockwise rotation about the z axis by the angle with the
/// given sine and cosine.
pub open spec fn rotation_z(sin: Scalar, cos: Scalar) -> Modtrix {
    Modtrix {
        store: [
            [cos, negated(sin), zero(), zero()],
            [sin, cos, zero(), zero()],
            [zero(), zero(), one(), zero()],
            [zero(), zero(), zero(), one()],
        ],
    }
}

/// Two matrices with the same entries are the same matrix.
pub proof fn lemma_modtrix_equal(a: Modtrix, b: Modtrix)
    requires
        forall|i: int, j: int|
            0 <= i < 4 && 0 <= j < 4 ==> #[trigger] a.store[i][j] == b.store[i][j],
    ensures
        a == b,
{
    assert forall|i: int| 0 <= i < 4 implies a.store[i] == b.store[i] by {
        assert(a.store[i][0] == b.store[i][0]);
        assert(a.store[i][1] == b.store[i][1]);
        assert(a.store[i][2] == b.store[i][2]);
        assert(a.store[i][3] == b.store[i][3]);
        assert(a.store[i] =~= b.store[i]);
    }
    assert(a.store =~= b.store);
}

/// Multiplying by one changes nothing, and multiplying by zero gives zero.
pub proof fn lemma_unit_products(a: int)
    ensures
        scaled_product(a, ONE_RAW as int) == a,
        scaled_product(ONE_RAW as int, a) == a,
        scaled_product(a, 0) == 0,
        scaled_product(0, a) == 0,
{
    lemma_trunc_div_multiple(a, ONE_RAW as int);
    assert(ONE_RAW * a == a * ONE_RAW) by (nonlinear_arith);
    assert(a * 0 == 0 && 0 * a == 0) by (nonlinear_arith);
}

/// The identity is neutral on both sides of a product.
pub proof fn lemma_ident_neutral(m: Modtrix)
    ensures
        product(m, identity()) == m,
        product(identity(), m) == m,
{
    let id = identity();
    assert forall|i: int, j: int| 0 <= i < 4 && 0 <= j < 4 implies #[trigger] m.store[i][j]
        == row_by_column(m, id, i, j) && m.store[i][j] == row_by_column(id, m, i, j) by {
        lemma_unit_products(m.store[i][0]@);
        lemma_unit_products(m.store[i][1]@);
        lemma_unit_products(m.store[i][2]@);
        lemma_unit_products(m.store[i][3]@);
        lemma_unit_products(m.store[0][j]@);
        lemma_unit_products(m.store[1][j]@);
        lemma_unit_products(m.store[2][j]@);
        lemma_unit_products(m.store[3][j]@);
    }
    lemma_modtrix_equal(product(m, id), m);
    lemma_modtrix_equal(product(id, m), m);
}

/// The sum of four products, saturated.
pub fn dot4_exec(
    a0: Scalar,
    b0: Scalar,
    a1: Scalar,
    b1: Scalar,
    a2: Scalar,
    b2: Scalar,
    a3: Scalar,
    b3: Scalar,
) -> (r: Scalar)
    ensures
        r == dot4(a0, b0, a1, b1, a2, b2, a3, b3),
{
    let sum: i128 = product_wide(a0.raw, b0.raw) + product_wide(a1.raw, b1.raw) + product_wide(
        a2.raw,
        b2.raw,
    ) + product_wide(a3.raw, b3.raw);
    Scalar { raw: clamp_wide(sum) }
}

impl Modtrix {
    /// The identity.
    pub fn ident() -> (m: Modtrix)
        ensures
            m == identity(),
    {
        let o: Scalar = Scalar::zero();
        let l: Scalar = Scalar::one();
        let m = Modtrix { store: [[l, o, o, o], [o, l, o, o], [o, o, l, o], [o, o, o, l]] };
        proof {
            lemma_modtrix_equal(m, identity());
        }
        m
    }

    /// Row `i` of `lhs` times column `j` of `rhs`.
    fn entry(lhs: &Modtrix, rhs: &Modtrix, i: usize, j: usize) -> (r: Scalar)
        requires
            i < 4,
            j < 4,
        ensures
            r == row_by_column(*lhs, *rhs, i as int, j as int),
    {
        dot4_exec(
            lhs.store[i][0],
            rhs.store[0][j],
            lhs.store[i][1],
            rhs.store[1][j],
            lhs.store[i][2],
            rhs.store[2][j],
            lhs.store[i][3],
            rhs.store[3][j],
        )
    }

    /// Row `i` of the product of `lhs` and `rhs`.
    fn row(lhs: &Modtrix, rhs: &Modtrix, i: usize) -> (r: [Scalar; 4])
        requires
            i < 4,
        ensures
            forall|j: int| 0 <= j < 4 ==> #[trigger] r[j] == row_by_column(*lhs, *rhs, i as int, j),
    {
        [
            Self::entry(lhs, rhs, i, 0),
            Self::entry(lhs, rhs, i, 1),
            Self::entry(lhs, rhs, i, 2),
            Self::entry(lhs, rhs, i, 3),
        ]
    }

    /// Replaces `lhs` by the product of `lhs` and `rhs`, so that `lhs` then
    /// applies `rhs` first and what it was before second.
    pub fn multr(lhs: &mut Modtrix, rhs: &Modtrix)
        ensures
            *final(lhs) == product(*old(lhs), *rhs),
    {
        let res: [[Scalar; 4]; 4] = [
            Self::row(lhs, rhs, 0),
            Self::row(lhs, rhs, 1),
            Self::row(lhs, rhs, 2),
            Self::row(lhs, rhs, 3),
        ];
        lhs.store = res;
        proof {
            lemma_modtrix_equal(*lhs, product(*old(lhs), *rhs));
        }
    }
}

impl From<[[Scalar; 4]; 4]> for Modtrix {
    fn from(store: [[Scalar; 4]; 4]) -> (m: Self) {
        Modtrix { store }
    }
}

impl FromSpecImpl<[[Scalar; 4]; 4]> for Modtrix {
    open spec fn obeys_from_spec() -> bool {
        true
    }

    open spec fn from_spec(store: [[Scalar; 4]; 4]) -> Self {
        Modtrix { store }
    }
}

/// The translation by `(x, y, z)`.
pub fn move_matrix(x: Scalar, y: Scalar, z: Scalar) -> (m: Modtrix)
    ensures
        m == translation(x, y, z),
{
    let o: Scalar = Scalar::zero();
    let l: Scalar = Scalar::one();
    let m = Modtrix { store: [[l, o, o, x], [o, l, o, y], [o, o, l, z], [o, o, o, l]] };
    proof {
        lemma_modtrix_equal(m, translation(x, y, z));
    }
    m
}

/// The dilation by `x`, `y` and `z` along the three axes.
pub fn scale_matrix(x: Scalar, y: Scalar, z: Scalar) -> (m: Modtrix)
    ensures
        m == dilation(x, y, z),
{
    let o: Scalar = Scalar::zero();
    let l: Scalar = Scalar::one();
    let m = Modtrix { store: [[x, o, o, o], [o, y, o, o], [o, o, z, o], [o, o, o, l]] };
    proof {
        lemma_modtrix_equal(m, dilation(x, y, z));
    }
    m
}

/// The counter-clockwise rotation about the z axis by the angle whose sine
/// and cosine are `sin` and `cos`.
pub fn rotz_matrix(sin: Scalar, cos: Scalar) -> (m: Modtrix)
    ensures
        m == rotation_z(sin, cos),
{
    let o: Scalar = Scalar::zero();
    let l: Scalar = Scalar::one();
    let m = Modtrix { store: [[cos, sin.neg(), o, o], [sin, cos, o, o], [o, o, l, o], [o, o, o, l]] };
    proof {
        lemma_modtrix_equal(m, rotation_z(sin, cos));
    }
    m
}

/// The counter-clockwise rotation about the x axis by the angle whose sine
/// and cosine are `sin` and `cos`.
pub fn rotx_matrix(sin: Scalar, cos: Scalar) -> (m: Modtrix)
    ensures
        m == rotation_x(sin, cos),
{
    let o: Scalar = Scalar::zero();
    let l: Scalar = Scalar::one();
    let m = Modtrix { store: [[l, o, o, o], [o, cos, sin.neg(), o], [o, sin, cos, o], [o, o, o, l]] };
    proof {
        lemma_modtrix_equal(m, rotation_x(sin, cos));
    }
    m
}

/// The counter-clockwise rotation about the y axis by the angle whose sine
/// and cosine are `sin` and `cos`.
pub fn roty_matrix(sin: Scalar, cos: Scalar) -> (m: Modtrix)
    ensures
        m == rotation_y(sin, cos),
{
    let o: Scalar = Scalar::zero();
    let l: Scalar = Scalar::one();
    let m = Modtrix { store: [[cos, o, sin, o], [o, l, o, o], [sin.neg(), o, cos, o], [o, o, o, l]] };
    proof {
        lemma_modtrix_equal(m, rotation_y(sin, cos));
    }
    m
}

} // verus!
