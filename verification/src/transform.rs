//! 4x4 homogeneous transforms over exact rationals.
//!
//! A [`Mat4`] holds sixteen rational elements in row-major order. Every
//! composition operator (`scale`, `rotate_x/y/z`, `translate`) left-
//! multiplies the current matrix by the new transform, `M := T * M`, so
//! transforms compose in the order called. The contracts state the result
//! as the exact specification-level matrix product; an operation fails with
//! [`CoreError::ArithmeticOverflow`] exactly when some element of that
//! product leaves the 64-bit component range, and then leaves the matrix
//! unchanged.

use vstd::prelude::*;
use crate::CoreError;
use crate::rational::Rat;
use crate::rational::pair_fits;
use crate::rational::qadd;
use crate::rational::qmul;
use crate::rational::qneg;
use crate::rational::qone;
use crate::rational::qsub;
use crate::rational::qzero;
use crate::rational::qdiv;
use crate::rational::qdiv_norm;
use crate::rational::qeq;
use crate::rational::rat_add;
use crate::rational::rat_div;
use crate::rational::rat_eq;
use crate::rational::rat_mul;
use crate::rational::rat_neg;
use crate::rational::rat_sub;

verus! {

/// A 4x4 homogeneous transform, sixteen rational elements in row-major
/// order: element `(i, j)` is at position `i * 4 + j`.
#[derive(Debug)]
pub struct Mat4 {
    pub e: Vec<Rat>,
}

/// The identity matrix at the specification level.
pub open spec fn midentity() -> Seq<(int, int)> {
    Seq::new(16, |i: int| if i / 4 == i % 4 { qone() } else { qzero() })
}

/// Element `(i, j)` of the matrix product `a * b`: the dot product of row
/// `i` of `a` with column `j` of `b`, summed left to right.
pub open spec fn smat_entry(a: Seq<(int, int)>, b: Seq<(int, int)>, i: int, j: int) -> (
    int,
    int,
) {
    qadd(
        qadd(qadd(qmul(a[4 * i], b[j]), qmul(a[4 * i + 1], b[4 + j])), qmul(a[4 * i + 2], b[8 + j])),
        qmul(a[4 * i + 3], b[12 + j]),
    )
}

/// The matrix product `a * b`, row-major.
pub open spec fn smat_mul(a: Seq<(int, int)>, b: Seq<(int, int)>) -> Seq<(int, int)> {
    Seq::new(16, |p: int| smat_entry(a, b, p / 4, p % 4))
}

/// Every intermediate of the element `(i, j)` dot product, in the order it
/// is computed, fits in 64-bit components.
pub open spec fn entry_fits(a: Seq<(int, int)>, b: Seq<(int, int)>, i: int, j: int) -> bool {
    let t0 = qmul(a[4 * i], b[j]);
    let t1 = qmul(a[4 * i + 1], b[4 + j]);
    let t2 = qmul(a[4 * i + 2], b[8 + j]);
    let t3 = qmul(a[4 * i + 3], b[12 + j]);
    let s01 = qadd(t0, t1);
    let s012 = qadd(s01, t2);
    &&& pair_fits(t0)
    &&& pair_fits(t1)
    &&& pair_fits(t2)
    &&& pair_fits(t3)
    &&& pair_fits(s01)
    &&& pair_fits(s012)
    &&& pair_fits(qadd(s012, t3))
}

/// The whole product `a * b` is computable in 64-bit components.
pub open spec fn mul_fits(a: Seq<(int, int)>, b: Seq<(int, int)>) -> bool {
    forall|i: int, j: int| 0 <= i < 4 && 0 <= j < 4 ==> entry_fits(a, b, i, j)
}

/// The scale transform `diag(sx, sy, sz, 1)`.
pub open spec fn sscale(sx: (int, int), sy: (int, int), sz: (int, int)) -> Seq<(int, int)> {
    seq![
        sx, qzero(), qzero(), qzero(),
        qzero(), sy, qzero(), qzero(),
        qzero(), qzero(), sz, qzero(),
        qzero(), qzero(), qzero(), qone(),
    ]
}

/// The right-handed rotation about the x axis with cosine `c` and sine `s`.
pub open spec fn srot_x(c: (int, int), s: (int, int)) -> Seq<(int, int)> {
    seq![
        qone(), qzero(), qzero(), qzero(),
        qzero(), c, qneg(s), qzero(),
        qzero(), s, c, qzero(),
        qzero(), qzero(), qzero(), qone(),
    ]
}

/// The right-handed rotation about the y axis with cosine `c` and sine `s`.
pub open spec fn srot_y(c: (int, int), s: (int, int)) -> Seq<(int, int)> {
    seq![
        c, qzero(), s, qzero(),
        qzero(), qone(), qzero(), qzero(),
        qneg(s), qzero(), c, qzero(),
        qzero(), qzero(), qzero(), qone(),
    ]
}

/// The right-handed rotation about the z axis with cosine `c` and sine `s`.
pub open spec fn srot_z(c: (int, int), s: (int, int)) -> Seq<(int, int)> {
    seq![
        c, qneg(s), qzero(), qzero(),
        s, c, qzero(), qzero(),
        qzero(), qzero(), qone(), qzero(),
        qzero(), qzero(), qzero(), qone(),
    ]
}

/// The translation by `(dx, dy, dz)`.
pub open spec fn stranslate(dx: (int, int), dy: (int, int), dz: (int, int)) -> Seq<(int, int)> {
    seq![
        qone(), qzero(), qzero(), dx,
        qzero(), qone(), qzero(), dy,
        qzero(), qzero(), qone(), dz,
        qzero(), qzero(), qzero(), qone(),
    ]
}

/// The matrix `m` applied to the homogeneous column vector `v`.
pub open spec fn sapply(m: Seq<(int, int)>, v: Seq<(int, int)>) -> Seq<(int, int)> {
    Seq::new(
        4,
        |i: int|
            qadd(
                qadd(qadd(qmul(m[4 * i], v[0]), qmul(m[4 * i + 1], v[1])), qmul(m[4 * i + 2], v[2])),
                qmul(m[4 * i + 3], v[3]),
            ),
    )
}

/// Every intermediate of component `i` of `m * v`, in computation order,
/// fits in 64-bit components.
pub open spec fn apply_entry_fits(m: Seq<(int, int)>, v: Seq<(int, int)>, i: int) -> bool {
    let t0 = qmul(m[4 * i], v[0]);
    let t1 = qmul(m[4 * i + 1], v[1]);
    let t2 = qmul(m[4 * i + 2], v[2]);
    let t3 = qmul(m[4 * i + 3], v[3]);
    let s01 = qadd(t0, t1);
    let s012 = qadd(s01, t2);
    &&& pair_fits(t0)
    &&& pair_fits(t1)
    &&& pair_fits(t2)
    &&& pair_fits(t3)
    &&& pair_fits(s01)
    &&& pair_fits(s012)
    &&& pair_fits(qadd(s012, t3))
}

/// The whole product `m * v` is computable in 64-bit components.
pub open spec fn apply_fits(m: Seq<(int, int)>, v: Seq<(int, int)>) -> bool {
    forall|i: int| 0 <= i < 4 ==> apply_entry_fits(m, v, i)
}

/// A 3-component vector of exact rational scalars.
#[derive(Clone, Copy, Debug)]
pub struct Vec3 {
    pub x: Rat,
    pub y: Rat,
    pub z: Rat,
}

impl Vec3 {
    /// All components have positive denominators.
    pub open spec fn wf(self) -> bool {
        self.x.wf() && self.y.wf() && self.z.wf()
    }

    /// The three components as exact rational pairs.
    pub open spec fn q3(self) -> Seq<(int, int)> {
        seq![self.x.q(), self.y.q(), self.z.q()]
    }

    /// Builds a vector from three scalars.
    pub fn new(x: Rat, y: Rat, z: Rat) -> (v: Vec3)
        ensures
            v == (Vec3 { x, y, z }),
    {
        Vec3 { x, y, z }
    }
}

/// Componentwise difference `a - b`.
pub open spec fn ssub3(a: Seq<(int, int)>, b: Seq<(int, int)>) -> Seq<(int, int)> {
    seq![qsub(a[0], b[0]), qsub(a[1], b[1]), qsub(a[2], b[2])]
}

/// The cross product `a x b`.
pub open spec fn scross(a: Seq<(int, int)>, b: Seq<(int, int)>) -> Seq<(int, int)> {
    seq![
        qsub(qmul(a[1], b[2]), qmul(a[2], b[1])),
        qsub(qmul(a[2], b[0]), qmul(a[0], b[2])),
        qsub(qmul(a[0], b[1]), qmul(a[1], b[0])),
    ]
}

/// The dot product `a . b`, summed left to right.
pub open spec fn sdot3(a: Seq<(int, int)>, b: Seq<(int, int)>) -> (int, int) {
    qadd(qadd(qmul(a[0], b[0]), qmul(a[1], b[1])), qmul(a[2], b[2]))
}

/// All three components denote zero (their exact numerators are zero).
pub open spec fn szero3(c: Seq<(int, int)>) -> bool {
    c[0].0 == 0 && c[1].0 == 0 && c[2].0 == 0
}

/// Every intermediate of the componentwise difference fits in 64-bit
/// components.
pub open spec fn sub3_fits(a: Seq<(int, int)>, b: Seq<(int, int)>) -> bool {
    pair_fits(qsub(a[0], b[0])) && pair_fits(qsub(a[1], b[1])) && pair_fits(qsub(a[2], b[2]))
}

/// Every intermediate of the cross product, in computation order, fits in
/// 64-bit components.
pub open spec fn cross_fits(a: Seq<(int, int)>, b: Seq<(int, int)>) -> bool {
    &&& pair_fits(qmul(a[1], b[2]))
    &&& pair_fits(qmul(a[2], b[1]))
    &&& pair_fits(qsub(qmul(a[1], b[2]), qmul(a[2], b[1])))
    &&& pair_fits(qmul(a[2], b[0]))
    &&& pair_fits(qmul(a[0], b[2]))
    &&& pair_fits(qsub(qmul(a[2], b[0]), qmul(a[0], b[2])))
    &&& pair_fits(qmul(a[0], b[1]))
    &&& pair_fits(qmul(a[1], b[0]))
    &&& pair_fits(qsub(qmul(a[0], b[1]), qmul(a[1], b[0])))
}

/// Every intermediate of the dot product, in computation order, fits in
/// 64-bit components.
pub open spec fn dot3_fits(a: Seq<(int, int)>, b: Seq<(int, int)>) -> bool {
    &&& pair_fits(qmul(a[0], b[0]))
    &&& pair_fits(qmul(a[1], b[1]))
    &&& pair_fits(qmul(a[2], b[2]))
    &&& pair_fits(qadd(qmul(a[0], b[0]), qmul(a[1], b[1])))
    &&& pair_fits(sdot3(a, b))
}

/// The vector `v` scaled by the scalar `s`, componentwise.
pub open spec fn sscale3(s: (int, int), v: Seq<(int, int)>) -> Seq<(int, int)> {
    seq![qmul(s, v[0]), qmul(s, v[1]), qmul(s, v[2])]
}

/// Every component of the scaled vector fits in 64-bit components.
pub open spec fn scale3_fits(s: (int, int), v: Seq<(int, int)>) -> bool {
    pair_fits(qmul(s, v[0])) && pair_fits(qmul(s, v[1])) && pair_fits(qmul(s, v[2]))
}

/// The look-at view matrix for camera position `e`, view target `t` and up
/// direction `u`. The raw camera basis is `forward = e - t`,
/// `right = u x forward`, `true up = forward x right`; each row is that
/// basis vector scaled by the caller-supplied reciprocal of its length
/// (`ir`, `iu`, `ifw`), which makes the rows the classic normalized basis,
/// and the translation column moves the camera position to the origin.
pub open spec fn slookat(
    e: Seq<(int, int)>,
    t: Seq<(int, int)>,
    u: Seq<(int, int)>,
    ir: (int, int),
    iu: (int, int),
    ifw: (int, int),
) -> Seq<(int, int)> {
    let f = ssub3(e, t);
    let r = scross(u, f);
    let w = scross(f, r);
    let rr = sscale3(ir, r);
    let ww = sscale3(iu, w);
    let ff = sscale3(ifw, f);
    seq![
        rr[0], rr[1], rr[2], qneg(sdot3(rr, e)),
        ww[0], ww[1], ww[2], qneg(sdot3(ww, e)),
        ff[0], ff[1], ff[2], qneg(sdot3(ff, e)),
        qzero(), qzero(), qzero(), qone(),
    ]
}

/// Every intermediate of the look-at construction fits in 64-bit
/// components.
pub open spec fn lookat_fits(
    e: Seq<(int, int)>,
    t: Seq<(int, int)>,
    u: Seq<(int, int)>,
    ir: (int, int),
    iu: (int, int),
    ifw: (int, int),
) -> bool {
    let f = ssub3(e, t);
    let r = scross(u, f);
    let w = scross(f, r);
    let rr = sscale3(ir, r);
    let ww = sscale3(iu, w);
    let ff = sscale3(ifw, f);
    &&& sub3_fits(e, t)
    &&& cross_fits(u, f)
    &&& cross_fits(f, r)
    &&& scale3_fits(ir, r)
    &&& scale3_fits(iu, w)
    &&& scale3_fits(ifw, f)
    &&& dot3_fits(rr, e)
    &&& pair_fits(qneg(sdot3(rr, e)))
    &&& dot3_fits(ww, e)
    &&& pair_fits(qneg(sdot3(ww, e)))
    &&& dot3_fits(ff, e)
    &&& pair_fits(qneg(sdot3(ff, e)))
}

/// The perspective frustum projection with the given view-space bounds:
/// the standard right-handed frustum matrix mapping the box
/// `[l, r] x [b, t]` at depth `n` through `f` to clip space.
pub open spec fn spersp(
    l: (int, int),
    r: (int, int),
    b: (int, int),
    t: (int, int),
    n: (int, int),
    f: (int, int),
) -> Seq<(int, int)> {
    let q2 = (2int, 1int);
    let drl = qsub(r, l);
    let dtb = qsub(t, b);
    let dfn = qsub(f, n);
    seq![
        qdiv_norm(qmul(q2, n), drl), qzero(), qdiv_norm(qadd(r, l), drl), qzero(),
        qzero(), qdiv_norm(qmul(q2, n), dtb), qdiv_norm(qadd(t, b), dtb), qzero(),
        qzero(), qzero(), qneg(qdiv_norm(qadd(f, n), dfn)), qneg(
            qdiv_norm(qmul(q2, qmul(f, n)), dfn),
        ),
        qzero(), qzero(), qneg(qone()), qzero(),
    ]
}

/// Every intermediate of the frustum construction fits in 64-bit
/// components.
pub open spec fn persp_fits(
    l: (int, int),
    r: (int, int),
    b: (int, int),
    t: (int, int),
    n: (int, int),
    f: (int, int),
) -> bool {
    let q2 = (2int, 1int);
    let drl = qsub(r, l);
    let dtb = qsub(t, b);
    let dfn = qsub(f, n);
    &&& pair_fits(drl)
    &&& pair_fits(dtb)
    &&& pair_fits(dfn)
    &&& pair_fits(qmul(q2, n))
    &&& pair_fits(qdiv_norm(qmul(q2, n), drl))
    &&& pair_fits(qadd(r, l))
    &&& pair_fits(qdiv_norm(qadd(r, l), drl))
    &&& pair_fits(qdiv_norm(qmul(q2, n), dtb))
    &&& pair_fits(qadd(t, b))
    &&& pair_fits(qdiv_norm(qadd(t, b), dtb))
    &&& pair_fits(qadd(f, n))
    &&& pair_fits(qdiv_norm(qadd(f, n), dfn))
    &&& pair_fits(qneg(qdiv_norm(qadd(f, n), dfn)))
    &&& pair_fits(qmul(f, n))
    &&& pair_fits(qmul(q2, qmul(f, n)))
    &&& pair_fits(qdiv_norm(qmul(q2, qmul(f, n)), dfn))
    &&& pair_fits(qneg(qdiv_norm(qmul(q2, qmul(f, n)), dfn)))
}

/// The near depth read back from a perspective frustum matrix:
/// `m23 / (m22 - 1)`.
pub open spec fn sfrustum_near(m: Seq<(int, int)>) -> (int, int) {
    qdiv(m[11], qsub(m[10], qone()))
}

/// The far depth read back from a perspective frustum matrix:
/// `m23 / (m22 + 1)`.
pub open spec fn sfrustum_far(m: Seq<(int, int)>) -> (int, int) {
    qdiv(m[11], qadd(m[10], qone()))
}

/// The left bound read back from a perspective frustum matrix and its
/// near depth: `n * (m02 - 1) / m00`.
pub open spec fn sfrustum_left(m: Seq<(int, int)>, n: (int, int)) -> (int, int) {
    qdiv(qmul(n, qsub(m[2], qone())), m[0])
}

/// The right bound read back from a perspective frustum matrix and its
/// near depth: `n * (m02 + 1) / m00`.
pub open spec fn sfrustum_right(m: Seq<(int, int)>, n: (int, int)) -> (int, int) {
    qdiv(qmul(n, qadd(m[2], qone())), m[0])
}

/// The bottom bound read back from a perspective frustum matrix and its
/// near depth: `n * (m12 - 1) / m11`.
pub open spec fn sfrustum_bottom(m: Seq<(int, int)>, n: (int, int)) -> (int, int) {
    qdiv(qmul(n, qsub(m[6], qone())), m[5])
}

/// The top bound read back from a perspective frustum matrix and its near
/// depth: `n * (m12 + 1) / m11`.
pub open spec fn sfrustum_top(m: Seq<(int, int)>, n: (int, int)) -> (int, int) {
    qdiv(qmul(n, qadd(m[6], qone())), m[5])
}

/// The orthographic projection with the given view-space box bounds.
pub open spec fn sortho(
    l: (int, int),
    r: (int, int),
    b: (int, int),
    t: (int, int),
    n: (int, int),
    f: (int, int),
) -> Seq<(int, int)> {
    let q2 = (2int, 1int);
    let drl = qsub(r, l);
    let dtb = qsub(t, b);
    let dfn = qsub(f, n);
    seq![
        qdiv_norm(q2, drl), qzero(), qzero(), qneg(qdiv_norm(qadd(r, l), drl)),
        qzero(), qdiv_norm(q2, dtb), qzero(), qneg(qdiv_norm(qadd(t, b), dtb)),
        qzero(), qzero(), qneg(qdiv_norm(q2, dfn)), qneg(qdiv_norm(qadd(f, n), dfn)),
        qzero(), qzero(), qzero(), qone(),
    ]
}

/// Every intermediate of the orthographic construction fits in 64-bit
/// components.
pub open spec fn ortho_fits(
    l: (int, int),
    r: (int, int),
    b: (int, int),
    t: (int, int),
    n: (int, int),
    f: (int, int),
) -> bool {
    let q2 = (2int, 1int);
    let drl = qsub(r, l);
    let dtb = qsub(t, b);
    let dfn = qsub(f, n);
    &&& pair_fits(drl)
    &&& pair_fits(dtb)
    &&& pair_fits(dfn)
    &&& pair_fits(qdiv_norm(q2, drl))
    &&& pair_fits(qadd(r, l))
    &&& pair_fits(qdiv_norm(qadd(r, l), drl))
    &&& pair_fits(qneg(qdiv_norm(qadd(r, l), drl)))
    &&& pair_fits(qdiv_norm(q2, dtb))
    &&& pair_fits(qadd(t, b))
    &&& pair_fits(qdiv_norm(qadd(t, b), dtb))
    &&& pair_fits(qneg(qdiv_norm(qadd(t, b), dtb)))
    &&& pair_fits(qdiv_norm(q2, dfn))
    &&& pair_fits(qneg(qdiv_norm(q2, dfn)))
    &&& pair_fits(qadd(f, n))
    &&& pair_fits(qdiv_norm(qadd(f, n), dfn))
    &&& pair_fits(qneg(qdiv_norm(qadd(f, n), dfn)))
}

/// The four components of a homogeneous vector of scalars.
pub open spec fn v4q(v: (Rat, Rat, Rat, Rat)) -> Seq<(int, int)> {
    seq![v.0.q(), v.1.q(), v.2.q(), v.3.q()]
}

/// All four components have positive denominators.
pub open spec fn v4wf(v: (Rat, Rat, Rat, Rat)) -> bool {
    v.0.wf() && v.1.wf() && v.2.wf() && v.3.wf()
}

impl Mat4 {
    /// Well-formed: sixteen elements, all with positive denominators.
    pub open spec fn wf(self) -> bool {
        &&& self.e@.len() == 16
        &&& forall|i: int| 0 <= i < 16 ==> self.e@[i].wf()
    }

    /// Specification-level model: the sixteen elements as exact rational
    /// pairs, row-major.
    pub open spec fn mq(self) -> Seq<(int, int)> {
        Seq::new(16, |i: int| self.e@[i].q())
    }

    /// The multiplicative identity.
    pub fn identity() -> (r: Mat4)
        ensures
            r.wf(),
            r.mq() == midentity(),
    {
        let mut e: Vec<Rat> = Vec::new();
        let mut i: usize = 0;
        while i < 16
            invariant
                i <= 16,
                e@.len() == i,
                forall|k: int| 0 <= k < i ==> e@[k].wf(),
                forall|k: int|
                    0 <= k < i ==> e@[k].q() == (if k / 4 == k % 4 {
                        qone()
                    } else {
                        qzero()
                    }),
            decreases 16 - i,
        {
            if i / 4 == i % 4 {
                e.push(Rat::one());
            } else {
                e.push(Rat::zero());
            }
            i = i + 1;
        }
        let r = Mat4 { e };
        proof {
            assert(r.mq() =~= midentity());
        }
        r
    }

    /// A copy of the sixteen elements, row-major, for upload by the
    /// rendering layer.
    pub fn raw_elements(&self) -> (r: Vec<Rat>)
        requires
            self.wf(),
        ensures
            r@ == self.e@,
    {
        let mut out: Vec<Rat> = Vec::new();
        let mut i: usize = 0;
        while i < self.e.len()
            invariant
                self.wf(),
                i <= 16,
                out@ == self.e@.take(i as int),
            decreases 16 - i,
        {
            out.push(self.e[i]);
            proof {
                assert(out@ =~= self.e@.take(i + 1 as int));
            }
            i = i + 1;
        }
        proof {
            assert(out@ =~= self.e@);
        }
        out
    }

    /// Replaces `self` with `t * self`: the core left-multiplication that
    /// every composition operator goes through. Fails, leaving `self`
    /// unchanged, exactly when some intermediate of the product leaves the
    /// 64-bit component range.
    pub fn mul_left(&mut self, t: &Mat4) -> (r: Result<(), CoreError>)
        requires
            old(self).wf(),
            t.wf(),
        ensures
            final(self).wf(),
            r is Ok <==> mul_fits(t.mq(), old(self).mq()),
            r is Ok ==> final(self).mq() == smat_mul(t.mq(), old(self).mq()),
            r is Err ==> *final(self) == *old(self) && r == Err::<(), CoreError>(
                CoreError::ArithmeticOverflow,
            ),
    {
        let mut out: Vec<Rat> = Vec::new();
        let mut p: usize = 0;
        while p < 16
            invariant
                old(self).wf(),
                self == old(self),
                t.wf(),
                p <= 16,
                out@.len() == p,
                forall|m: int| 0 <= m < p ==> out@[m].wf(),
                forall|m: int|
                    0 <= m < p ==> out@[m].q() == smat_mul(t.mq(), old(self).mq())[m],
                forall|i: int, j: int|
                    0 <= i < 4 && 0 <= j < 4 && 4 * i + j < p ==> entry_fits(
                        t.mq(),
                        old(self).mq(),
                        i,
                        j,
                    ),
            decreases 16 - p,
        {
            let i = p / 4;
            let j = p % 4;
            let t0 = match rat_mul(t.e[4 * i], self.e[j]) {
                Some(v) => v,
                None => {
                    proof {
                        assert(!entry_fits(t.mq(), old(self).mq(), i as int, j as int));
                    }
                    return Err(CoreError::ArithmeticOverflow);
                },
            };
            let t1 = match rat_mul(t.e[4 * i + 1], self.e[4 + j]) {
                Some(v) => v,
                None => {
                    proof {
                        assert(!entry_fits(t.mq(), old(self).mq(), i as int, j as int));
                    }
                    return Err(CoreError::ArithmeticOverflow);
                },
            };
            let t2 = match rat_mul(t.e[4 * i + 2], self.e[8 + j]) {
                Some(v) => v,
                None => {
                    proof {
                        assert(!entry_fits(t.mq(), old(self).mq(), i as int, j as int));
                    }
                    return Err(CoreError::ArithmeticOverflow);
                },
            };
            let t3 = match rat_mul(t.e[4 * i + 3], self.e[12 + j]) {
                Some(v) => v,
                None => {
                    proof {
                        assert(!entry_fits(t.mq(), old(self).mq(), i as int, j as int));
                    }
                    return Err(CoreError::ArithmeticOverflow);
                },
            };
            let s01 = match rat_add(t0, t1) {
                Some(v) => v,
                None => {
                    proof {
                        assert(!entry_fits(t.mq(), old(self).mq(), i as int, j as int));
                    }
                    return Err(CoreError::ArithmeticOverflow);
                },
            };
            let s012 = match rat_add(s01, t2) {
                Some(v) => v,
                None => {
                    proof {
                        assert(!entry_fits(t.mq(), old(self).mq(), i as int, j as int));
                    }
                    return Err(CoreError::ArithmeticOverflow);
                },
            };
            let s = match rat_add(s012, t3) {
                Some(v) => v,
                None => {
                    proof {
                        assert(!entry_fits(t.mq(), old(self).mq(), i as int, j as int));
                    }
                    return Err(CoreError::ArithmeticOverflow);
                },
            };
            out.push(s);
            p = p + 1;
        }
        self.e = out;
        proof {
            assert(self.mq() =~= smat_mul(t.mq(), old(self).mq()));
        }
        Ok(())
    }

    /// Left-multiplies by the diagonal scale transform built from the three
    /// factors.
    pub fn scale(&mut self, sx: Rat, sy: Rat, sz: Rat) -> (r: Result<(), CoreError>)
        requires
            old(self).wf(),
            sx.wf(),
            sy.wf(),
            sz.wf(),
        ensures
            final(self).wf(),
            r is Ok <==> mul_fits(sscale(sx.q(), sy.q(), sz.q()), old(self).mq()),
            r is Ok ==> final(self).mq() == smat_mul(
                sscale(sx.q(), sy.q(), sz.q()),
                old(self).mq(),
            ),
            r is Err ==> *final(self) == *old(self) && r == Err::<(), CoreError>(
                CoreError::ArithmeticOverflow,
            ),
    {
        let z = Rat::zero();
        let o = Rat::one();
        let t = mat_from(sx, z, z, z, z, sy, z, z, z, z, sz, z, z, z, z, o);
        proof {
            assert(t.mq() =~= sscale(sx.q(), sy.q(), sz.q()));
        }
        self.mul_left(&t)
    }

    /// Left-multiplies by the right-handed rotation about the x axis whose
    /// cosine and sine are `c` and `s`.
    pub fn rotate_x(&mut self, c: Rat, s: Rat) -> (r: Result<(), CoreError>)
        requires
            old(self).wf(),
            c.wf(),
            s.wf(),
            s.num > i64::MIN,
        ensures
            final(self).wf(),
            r is Ok <==> mul_fits(srot_x(c.q(), s.q()), old(self).mq()),
            r is Ok ==> final(self).mq() == smat_mul(srot_x(c.q(), s.q()), old(self).mq()),
            r is Err ==> *final(self) == *old(self) && r == Err::<(), CoreError>(
                CoreError::ArithmeticOverflow,
            ),
    {
        let z = Rat::zero();
        let o = Rat::one();
        let ns = Rat { num: -s.num, den: s.den };
        let t = mat_from(o, z, z, z, z, c, ns, z, z, s, c, z, z, z, z, o);
        proof {
            assert(t.mq() =~= srot_x(c.q(), s.q()));
        }
        self.mul_left(&t)
    }

    /// Left-multiplies by the right-handed rotation about the y axis whose
    /// cosine and sine are `c` and `s`.
    pub fn rotate_y(&mut self, c: Rat, s: Rat) -> (r: Result<(), CoreError>)
        requires
            old(self).wf(),
            c.wf(),
            s.wf(),
            s.num > i64::MIN,
        ensures
            final(self).wf(),
            r is Ok <==> mul_fits(srot_y(c.q(), s.q()), old(self).mq()),
            r is Ok ==> final(self).mq() == smat_mul(srot_y(c.q(), s.q()), old(self).mq()),
            r is Err ==> *final(self) == *old(self) && r == Err::<(), CoreError>(
                CoreError::ArithmeticOverflow,
            ),
    {
        let z = Rat::zero();
        let o = Rat::one();
        let ns = Rat { num: -s.num, den: s.den };
        let t = mat_from(c, z, s, z, z, o, z, z, ns, z, c, z, z, z, z, o);
        proof {
            assert(t.mq() =~= srot_y(c.q(), s.q()));
        }
        self.mul_left(&t)
    }

    /// Left-multiplies by the right-handed rotation about the z axis whose
    /// cosine and sine are `c` and `s`.
    pub fn rotate_z(&mut self, c: Rat, s: Rat) -> (r: Result<(), CoreError>)
        requires
            old(self).wf(),
            c.wf(),
            s.wf(),
            s.num > i64::MIN,
        ensures
            final(self).wf(),
            r is Ok <==> mul_fits(srot_z(c.q(), s.q()), old(self).mq()),
            r is Ok ==> final(self).mq() == smat_mul(srot_z(c.q(), s.q()), old(self).mq()),
            r is Err ==> *final(self) == *old(self) && r == Err::<(), CoreError>(
                CoreError::ArithmeticOverflow,
            ),
    {
        let z = Rat::zero();
        let o = Rat::one();
        let ns = Rat { num: -s.num, den: s.den };
        let t = mat_from(c, ns, z, z, s, c, z, z, z, z, o, z, z, z, z, o);
        proof {
            assert(t.mq() =~= srot_z(c.q(), s.q()));
        }
        self.mul_left(&t)
    }

    /// Left-multiplies by the translation by `(dx, dy, dz)`.
    pub fn translate(&mut self, dx: Rat, dy: Rat, dz: Rat) -> (r: Result<(), CoreError>)
        requires
            old(self).wf(),
            dx.wf(),
            dy.wf(),
            dz.wf(),
        ensures
            final(self).wf(),
            r is Ok <==> mul_fits(stranslate(dx.q(), dy.q(), dz.q()), old(self).mq()),
            r is Ok ==> final(self).mq() == smat_mul(
                stranslate(dx.q(), dy.q(), dz.q()),
                old(self).mq(),
            ),
            r is Err ==> *final(self) == *old(self) && r == Err::<(), CoreError>(
                CoreError::ArithmeticOverflow,
            ),
    {
        let z = Rat::zero();
        let o = Rat::one();
        let t = mat_from(o, z, z, dx, z, o, z, dy, z, z, o, dz, z, z, z, o);
        proof {
            assert(t.mq() =~= stranslate(dx.q(), dy.q(), dz.q()));
        }
        self.mul_left(&t)
    }

    /// Applies the matrix to a homogeneous column vector. Fails exactly
    /// when an intermediate of one of the four dot products leaves the
    /// 64-bit component range.
    pub fn apply(&self, v: (Rat, Rat, Rat, Rat)) -> (r: Result<(Rat, Rat, Rat, Rat), CoreError>)
        requires
            self.wf(),
            v4wf(v),
        ensures
            r is Ok <==> apply_fits(self.mq(), v4q(v)),
            r matches Ok(w) ==> v4wf(w) && w.0.q() == sapply(self.mq(), v4q(v))[0] && w.1.q()
                == sapply(self.mq(), v4q(v))[1] && w.2.q() == sapply(self.mq(), v4q(v))[2]
                && w.3.q() == sapply(self.mq(), v4q(v))[3],
            r is Err ==> r == Err::<(Rat, Rat, Rat, Rat), CoreError>(
                CoreError::ArithmeticOverflow,
            ),
    {
        let mut comps: Vec<Rat> = Vec::new();
        let mut i: usize = 0;
        while i < 4
            invariant
                self.wf(),
                v4wf(v),
                i <= 4,
                comps@.len() == i,
                forall|k: int| 0 <= k < i ==> comps@[k].wf(),
                forall|k: int| 0 <= k < i ==> comps@[k].q() == sapply(self.mq(), v4q(v))[k],
                forall|k: int| 0 <= k < i ==> apply_entry_fits(self.mq(), v4q(v), k),
            decreases 4 - i,
        {
            let t0 = match rat_mul(self.e[4 * i], v.0) {
                Some(u) => u,
                None => {
                    proof {
                        assert(!apply_entry_fits(self.mq(), v4q(v), i as int));
                    }
                    return Err(CoreError::ArithmeticOverflow);
                },
            };
            let t1 = match rat_mul(self.e[4 * i + 1], v.1) {
                Some(u) => u,
                None => {
                    proof {
                        assert(!apply_entry_fits(self.mq(), v4q(v), i as int));
                    }
                    return Err(CoreError::ArithmeticOverflow);
                },
            };
            let t2 = match rat_mul(self.e[4 * i + 2], v.2) {
                Some(u) => u,
                None => {
                    proof {
                        assert(!apply_entry_fits(self.mq(), v4q(v), i as int));
                    }
                    return Err(CoreError::ArithmeticOverflow);
                },
            };
            let t3 = match rat_mul(self.e[4 * i + 3], v.3) {
                Some(u) => u,
                None => {
                    proof {
                        assert(!apply_entry_fits(self.mq(), v4q(v), i as int));
                    }
                    return Err(CoreError::ArithmeticOverflow);
                },
            };
            let s01 = match rat_add(t0, t1) {
                Some(u) => u,
                None => {
                    proof {
                        assert(!apply_entry_fits(self.mq(), v4q(v), i as int));
                    }
                    return Err(CoreError::ArithmeticOverflow);
                },
            };
            let s012 = match rat_add(s01, t2) {
                Some(u) => u,
                None => {
                    proof {
                        assert(!apply_entry_fits(self.mq(), v4q(v), i as int));
                    }
                    return Err(CoreError::ArithmeticOverflow);
                },
            };
            let s = match rat_add(s012, t3) {
                Some(u) => u,
                None => {
                    proof {
                        assert(!apply_entry_fits(self.mq(), v4q(v), i as int));
                    }
                    return Err(CoreError::ArithmeticOverflow);
                },
            };
            comps.push(s);
            i = i + 1;
        }
        let c0 = comps[0];
        let c1 = comps[1];
        let c2 = comps[2];
        let c3 = comps[3];
        Ok((c0, c1, c2, c3))
    }
}

/// Componentwise difference of two vectors. Fails exactly when a
/// component's exact pair leaves the 64-bit range.
fn vec3_sub(a: Vec3, b: Vec3) -> (r: Option<Vec3>)
    requires
        a.wf(),
        b.wf(),
    ensures
        r matches Some(c) ==> c.wf() && c.q3() == ssub3(a.q3(), b.q3()),
        r is Some <==> sub3_fits(a.q3(), b.q3()),
{
    let x = match rat_sub(a.x, b.x) {
        Some(v) => v,
        None => {
            return None;
        },
    };
    let y = match rat_sub(a.y, b.y) {
        Some(v) => v,
        None => {
            return None;
        },
    };
    let z = match rat_sub(a.z, b.z) {
        Some(v) => v,
        None => {
            return None;
        },
    };
    let c = Vec3 { x, y, z };
    proof {
        assert(c.q3() =~= ssub3(a.q3(), b.q3()));
    }
    Some(c)
}

/// Exact cross product of two vectors. Fails exactly when an intermediate
/// leaves the 64-bit range.
fn vec3_cross(a: Vec3, b: Vec3) -> (r: Option<Vec3>)
    requires
        a.wf(),
        b.wf(),
    ensures
        r matches Some(c) ==> c.wf() && c.q3() == scross(a.q3(), b.q3()),
        r is Some <==> cross_fits(a.q3(), b.q3()),
{
    let m0 = match rat_mul(a.y, b.z) {
        Some(v) => v,
        None => {
            return None;
        },
    };
    let m1 = match rat_mul(a.z, b.y) {
        Some(v) => v,
        None => {
            return None;
        },
    };
    let x = match rat_sub(m0, m1) {
        Some(v) => v,
        None => {
            return None;
        },
    };
    let m2 = match rat_mul(a.z, b.x) {
        Some(v) => v,
        None => {
            return None;
        },
    };
    let m3 = match rat_mul(a.x, b.z) {
        Some(v) => v,
        None => {
            return None;
        },
    };
    let y = match rat_sub(m2, m3) {
        Some(v) => v,
        None => {
            return None;
        },
    };
    let m4 = match rat_mul(a.x, b.y) {
        Some(v) => v,
        None => {
            return None;
        },
    };
    let m5 = match rat_mul(a.y, b.x) {
        Some(v) => v,
        None => {
            return None;
        },
    };
    let z = match rat_sub(m4, m5) {
        Some(v) => v,
        None => {
            return None;
        },
    };
    let c = Vec3 { x, y, z };
    proof {
        assert(c.q3() =~= scross(a.q3(), b.q3()));
    }
    Some(c)
}

/// Exact dot product of two vectors. Fails exactly when an intermediate
/// leaves the 64-bit range.
fn vec3_dot(a: Vec3, b: Vec3) -> (r: Option<Rat>)
    requires
        a.wf(),
        b.wf(),
    ensures
        r matches Some(c) ==> c.wf() && c.q() == sdot3(a.q3(), b.q3()),
        r is Some <==> dot3_fits(a.q3(), b.q3()),
{
    let m0 = match rat_mul(a.x, b.x) {
        Some(v) => v,
        None => {
            return None;
        },
    };
    let m1 = match rat_mul(a.y, b.y) {
        Some(v) => v,
        None => {
            return None;
        },
    };
    let m2 = match rat_mul(a.z, b.z) {
        Some(v) => v,
        None => {
            return None;
        },
    };
    let s01 = match rat_add(m0, m1) {
        Some(v) => v,
        None => {
            return None;
        },
    };
    rat_add(s01, m2)
}

/// A vector scaled by a scalar, componentwise. Fails exactly when a
/// component's exact pair leaves the 64-bit range.
fn vec3_scale(s: Rat, v: Vec3) -> (r: Option<Vec3>)
    requires
        s.wf(),
        v.wf(),
    ensures
        r matches Some(c) ==> c.wf() && c.q3() == sscale3(s.q(), v.q3()),
        r is Some <==> scale3_fits(s.q(), v.q3()),
{
    let x = match rat_mul(s, v.x) {
        Some(u) => u,
        None => {
            return None;
        },
    };
    let y = match rat_mul(s, v.y) {
        Some(u) => u,
        None => {
            return None;
        },
    };
    let z = match rat_mul(s, v.z) {
        Some(u) => u,
        None => {
            return None;
        },
    };
    let c = Vec3 { x, y, z };
    proof {
        assert(c.q3() =~= sscale3(s.q(), v.q3()));
    }
    Some(c)
}

impl Mat4 {
    /// The classic right-handed look-at view matrix. The camera basis is
    /// `forward = eye - target`, `right = up x forward`,
    /// `true up = forward x right`; the caller supplies the reciprocal of
    /// each basis row's Euclidean length (the one irrational step, so it
    /// is approximated at the edge where floats live), each row is its
    /// basis vector scaled by that reciprocal — the normalized basis of
    /// the classic construction — and the translation column is chosen so
    /// the camera position itself maps to the origin. Fails with
    /// [`CoreError::DegenerateCameraBasis`] exactly when `up` is parallel
    /// to the view direction `eye - target` (their cross product is zero).
    pub fn lookat(
        eye: Vec3,
        target: Vec3,
        up: Vec3,
        inv_right_len: Rat,
        inv_up_len: Rat,
        inv_forward_len: Rat,
    ) -> (res: Result<Mat4, CoreError>)
        requires
            eye.wf(),
            target.wf(),
            up.wf(),
            inv_right_len.wf(),
            inv_up_len.wf(),
            inv_forward_len.wf(),
            inv_right_len.num > 0,
            inv_up_len.num > 0,
            inv_forward_len.num > 0,
        ensures
            res matches Ok(m) ==> m.wf() && m.mq() == slookat(
                eye.q3(),
                target.q3(),
                up.q3(),
                inv_right_len.q(),
                inv_up_len.q(),
                inv_forward_len.q(),
            ),
            res is Ok <==> lookat_fits(
                eye.q3(),
                target.q3(),
                up.q3(),
                inv_right_len.q(),
                inv_up_len.q(),
                inv_forward_len.q(),
            ) && !szero3(scross(up.q3(), ssub3(eye.q3(), target.q3()))),
            res == Err::<Mat4, CoreError>(CoreError::DegenerateCameraBasis) <==> sub3_fits(
                eye.q3(),
                target.q3(),
            ) && cross_fits(up.q3(), ssub3(eye.q3(), target.q3())) && szero3(
                scross(up.q3(), ssub3(eye.q3(), target.q3())),
            ),
            res is Err ==> res == Err::<Mat4, CoreError>(CoreError::DegenerateCameraBasis) || res
                == Err::<Mat4, CoreError>(CoreError::ArithmeticOverflow),
    {
        let f = match vec3_sub(eye, target) {
            Some(v) => v,
            None => {
                return Err(CoreError::ArithmeticOverflow);
            },
        };
        let r = match vec3_cross(up, f) {
            Some(v) => v,
            None => {
                return Err(CoreError::ArithmeticOverflow);
            },
        };
        if r.x.num == 0 && r.y.num == 0 && r.z.num == 0 {
            return Err(CoreError::DegenerateCameraBasis);
        }
        let w = match vec3_cross(f, r) {
            Some(v) => v,
            None => {
                return Err(CoreError::ArithmeticOverflow);
            },
        };
        let rr = match vec3_scale(inv_right_len, r) {
            Some(v) => v,
            None => {
                return Err(CoreError::ArithmeticOverflow);
            },
        };
        let ww = match vec3_scale(inv_up_len, w) {
            Some(v) => v,
            None => {
                return Err(CoreError::ArithmeticOverflow);
            },
        };
        let ff = match vec3_scale(inv_forward_len, f) {
            Some(v) => v,
            None => {
                return Err(CoreError::ArithmeticOverflow);
            },
        };
        let dr = match vec3_dot(rr, eye) {
            Some(v) => v,
            None => {
                return Err(CoreError::ArithmeticOverflow);
            },
        };
        let tr = match rat_neg(dr) {
            Some(v) => v,
            None => {
                return Err(CoreError::ArithmeticOverflow);
            },
        };
        let dw = match vec3_dot(ww, eye) {
            Some(v) => v,
            None => {
                return Err(CoreError::ArithmeticOverflow);
            },
        };
        let tw = match rat_neg(dw) {
            Some(v) => v,
            None => {
                return Err(CoreError::ArithmeticOverflow);
            },
        };
        let df = match vec3_dot(ff, eye) {
            Some(v) => v,
            None => {
                return Err(CoreError::ArithmeticOverflow);
            },
        };
        let tf = match rat_neg(df) {
            Some(v) => v,
            None => {
                return Err(CoreError::ArithmeticOverflow);
            },
        };
        let z = Rat::zero();
        let o = Rat::one();
        let m = mat_from(
            rr.x,
            rr.y,
            rr.z,
            tr,
            ww.x,
            ww.y,
            ww.z,
            tw,
            ff.x,
            ff.y,
            ff.z,
            tf,
            z,
            z,
            z,
            o,
        );
        proof {
            assert(m.mq() =~= slookat(
                eye.q3(),
                target.q3(),
                up.q3(),
                inv_right_len.q(),
                inv_up_len.q(),
                inv_forward_len.q(),
            ));
        }
        Ok(m)
    }

    /// The perspective frustum projection for the view-space bounds
    /// `[l, r] x [b, t]` at depths `near` through `far`. Bounds that would
    /// divide by zero (`l == r`, `b == t` or `near == far`) fail with
    /// [`CoreError::DegenerateFrustum`].
    pub fn project_perspective(
        l: Rat,
        r: Rat,
        b: Rat,
        t: Rat,
        near: Rat,
        far: Rat,
    ) -> (res: Result<Mat4, CoreError>)
        requires
            l.wf(),
            r.wf(),
            b.wf(),
            t.wf(),
            near.wf(),
            far.wf(),
        ensures
            res == Err::<Mat4, CoreError>(CoreError::DegenerateFrustum) <==> qeq(l.q(), r.q())
                || qeq(b.q(), t.q()) || qeq(near.q(), far.q()),
            res matches Ok(m) ==> m.wf() && m.mq() == spersp(
                l.q(),
                r.q(),
                b.q(),
                t.q(),
                near.q(),
                far.q(),
            ),
            res is Ok <==> !qeq(l.q(), r.q()) && !qeq(b.q(), t.q()) && !qeq(near.q(), far.q())
                && persp_fits(l.q(), r.q(), b.q(), t.q(), near.q(), far.q()),
            res is Err ==> res == Err::<Mat4, CoreError>(CoreError::DegenerateFrustum) || res
                == Err::<Mat4, CoreError>(CoreError::ArithmeticOverflow),
    {
        if rat_eq(l, r) || rat_eq(b, t) || rat_eq(near, far) {
            return Err(CoreError::DegenerateFrustum);
        }
        let drl = match rat_sub(r, l) {
            Some(v) => v,
            None => {
                return Err(CoreError::ArithmeticOverflow);
            },
        };
        let dtb = match rat_sub(t, b) {
            Some(v) => v,
            None => {
                return Err(CoreError::ArithmeticOverflow);
            },
        };
        let dfn = match rat_sub(far, near) {
            Some(v) => v,
            None => {
                return Err(CoreError::ArithmeticOverflow);
            },
        };
        proof {
            lemma_sub_num_nonzero(l, r, drl);
            lemma_sub_num_nonzero(b, t, dtb);
            lemma_sub_num_nonzero(near, far, dfn);
        }
        let two = Rat::whole(2);
        let twon = match rat_mul(two, near) {
            Some(v) => v,
            None => {
                return Err(CoreError::ArithmeticOverflow);
            },
        };
        let e00 = match rat_div(twon, drl) {
            Some(v) => v,
            None => {
                return Err(CoreError::ArithmeticOverflow);
            },
        };
        let rpl = match rat_add(r, l) {
            Some(v) => v,
            None => {
                return Err(CoreError::ArithmeticOverflow);
            },
        };
        let e02 = match rat_div(rpl, drl) {
            Some(v) => v,
            None => {
                return Err(CoreError::ArithmeticOverflow);
            },
        };
        let e11 = match rat_div(twon, dtb) {
            Some(v) => v,
            None => {
                return Err(CoreError::ArithmeticOverflow);
            },
        };
        let tpb = match rat_add(t, b) {
            Some(v) => v,
            None => {
                return Err(CoreError::ArithmeticOverflow);
            },
        };
        let e12 = match rat_div(tpb, dtb) {
            Some(v) => v,
            None => {
                return Err(CoreError::ArithmeticOverflow);
            },
        };
        let fpn = match rat_add(far, near) {
            Some(v) => v,
            None => {
                return Err(CoreError::ArithmeticOverflow);
            },
        };
        let qfpn = match rat_div(fpn, dfn) {
            Some(v) => v,
            None => {
                return Err(CoreError::ArithmeticOverflow);
            },
        };
        let e22 = match rat_neg(qfpn) {
            Some(v) => v,
            None => {
                return Err(CoreError::ArithmeticOverflow);
            },
        };
        let fxn = match rat_mul(far, near) {
            Some(v) => v,
            None => {
                return Err(CoreError::ArithmeticOverflow);
            },
        };
        let tfxn = match rat_mul(two, fxn) {
            Some(v) => v,
            None => {
                return Err(CoreError::ArithmeticOverflow);
            },
        };
        let qfxn = match rat_div(tfxn, dfn) {
            Some(v) => v,
            None => {
                return Err(CoreError::ArithmeticOverflow);
            },
        };
        let e23 = match rat_neg(qfxn) {
            Some(v) => v,
            None => {
                return Err(CoreError::ArithmeticOverflow);
            },
        };
        let z = Rat::zero();
        let no = Rat::new(-1, 1);
        let m = mat_from(
            e00,
            z,
            e02,
            z,
            z,
            e11,
            e12,
            z,
            z,
            z,
            e22,
            e23,
            z,
            z,
            no,
            z,
        );
        proof {
            assert(m.mq() =~= spersp(l.q(), r.q(), b.q(), t.q(), near.q(), far.q()));
        }
        Ok(m)
    }

    /// The orthographic projection for the view-space box
    /// `[l, r] x [b, t] x [near, far]`. Bounds that would divide by zero
    /// fail with [`CoreError::DegenerateFrustum`].
    pub fn project_orthographic(
        l: Rat,
        r: Rat,
        b: Rat,
        t: Rat,
        near: Rat,
        far: Rat,
    ) -> (res: Result<Mat4, CoreError>)
        requires
            l.wf(),
            r.wf(),
            b.wf(),
            t.wf(),
            near.wf(),
            far.wf(),
        ensures
            res == Err::<Mat4, CoreError>(CoreError::DegenerateFrustum) <==> qeq(l.q(), r.q())
                || qeq(b.q(), t.q()) || qeq(near.q(), far.q()),
            res matches Ok(m) ==> m.wf() && m.mq() == sortho(
                l.q(),
                r.q(),
                b.q(),
                t.q(),
                near.q(),
                far.q(),
            ),
            res is Ok <==> !qeq(l.q(), r.q()) && !qeq(b.q(), t.q()) && !qeq(near.q(), far.q())
                && ortho_fits(l.q(), r.q(), b.q(), t.q(), near.q(), far.q()),
            res is Err ==> res == Err::<Mat4, CoreError>(CoreError::DegenerateFrustum) || res
                == Err::<Mat4, CoreError>(CoreError::ArithmeticOverflow),
    {
        if rat_eq(l, r) || rat_eq(b, t) || rat_eq(near, far) {
            return Err(CoreError::DegenerateFrustum);
        }
        let drl = match rat_sub(r, l) {
            Some(v) => v,
            None => {
                return Err(CoreError::ArithmeticOverflow);
            },
        };
        let dtb = match rat_sub(t, b) {
            Some(v) => v,
            None => {
                return Err(CoreError::ArithmeticOverflow);
            },
        };
        let dfn = match rat_sub(far, near) {
            Some(v) => v,
            None => {
                return Err(CoreError::ArithmeticOverflow);
            },
        };
        proof {
            lemma_sub_num_nonzero(l, r, drl);
            lemma_sub_num_nonzero(b, t, dtb);
            lemma_sub_num_nonzero(near, far, dfn);
        }
        let two = Rat::whole(2);
        let e00 = match rat_div(two, drl) {
            Some(v) => v,
            None => {
                return Err(CoreError::ArithmeticOverflow);
            },
        };
        let rpl = match rat_add(r, l) {
            Some(v) => v,
            None => {
                return Err(CoreError::ArithmeticOverflow);
            },
        };
        let q03 = match rat_div(rpl, drl) {
            Some(v) => v,
            None => {
                return Err(CoreError::ArithmeticOverflow);
            },
        };
        let e03 = match rat_neg(q03) {
            Some(v) => v,
            None => {
                return Err(CoreError::ArithmeticOverflow);
            },
        };
        let e11 = match rat_div(two, dtb) {
            Some(v) => v,
            None => {
                return Err(CoreError::ArithmeticOverflow);
            },
        };
        let tpb = match rat_add(t, b) {
            Some(v) => v,
            None => {
                return Err(CoreError::ArithmeticOverflow);
            },
        };
        let q13 = match rat_div(tpb, dtb) {
            Some(v) => v,
            None => {
                return Err(CoreError::ArithmeticOverflow);
            },
        };
        let e13 = match rat_neg(q13) {
            Some(v) => v,
            None => {
                return Err(CoreError::ArithmeticOverflow);
            },
        };
        let q22 = match rat_div(two, dfn) {
            Some(v) => v,
            None => {
                return Err(CoreError::ArithmeticOverflow);
            },
        };
        let e22 = match rat_neg(q22) {
            Some(v) => v,
            None => {
                return Err(CoreError::ArithmeticOverflow);
            },
        };
        let fpn = match rat_add(far, near) {
            Some(v) => v,
            None => {
                return Err(CoreError::ArithmeticOverflow);
            },
        };
        let q23 = match rat_div(fpn, dfn) {
            Some(v) => v,
            None => {
                return Err(CoreError::ArithmeticOverflow);
            },
        };
        let e23 = match rat_neg(q23) {
            Some(v) => v,
            None => {
                return Err(CoreError::ArithmeticOverflow);
            },
        };
        let z = Rat::zero();
        let o = Rat::one();
        let m = mat_from(
            e00,
            z,
            z,
            e03,
            z,
            e11,
            z,
            e13,
            z,
            z,
            e22,
            e23,
            z,
            z,
            z,
            o,
        );
        proof {
            assert(m.mq() =~= sortho(l.q(), r.q(), b.q(), t.q(), near.q(), far.q()));
        }
        Ok(m)
    }
}

/// The exact difference of two unequal scalars has a nonzero numerator.
proof fn lemma_sub_num_nonzero(a: Rat, b: Rat, d: Rat)
    requires
        a.wf(),
        b.wf(),
        !qeq(a.q(), b.q()),
        d.q() == qsub(b.q(), a.q()),
    ensures
        d.num != 0,
{
    assert((-(a.num as int)) * (b.den as int) == -((a.num as int) * (b.den as int)))
        by (nonlinear_arith);
}

/// Builds a matrix from sixteen scalars, row-major.
fn mat_from(
    e00: Rat,
    e01: Rat,
    e02: Rat,
    e03: Rat,
    e10: Rat,
    e11: Rat,
    e12: Rat,
    e13: Rat,
    e20: Rat,
    e21: Rat,
    e22: Rat,
    e23: Rat,
    e30: Rat,
    e31: Rat,
    e32: Rat,
    e33: Rat,
) -> (m: Mat4)
    requires
        e00.wf(),
        e01.wf(),
        e02.wf(),
        e03.wf(),
        e10.wf(),
        e11.wf(),
        e12.wf(),
        e13.wf(),
        e20.wf(),
        e21.wf(),
        e22.wf(),
        e23.wf(),
        e30.wf(),
        e31.wf(),
        e32.wf(),
        e33.wf(),
    ensures
        m.wf(),
        m.mq() == seq![
            e00.q(), e01.q(), e02.q(), e03.q(),
            e10.q(), e11.q(), e12.q(), e13.q(),
            e20.q(), e21.q(), e22.q(), e23.q(),
            e30.q(), e31.q(), e32.q(), e33.q(),
        ],
{
    let mut e: Vec<Rat> = Vec::new();
    e.push(e00);
    e.push(e01);
    e.push(e02);
    e.push(e03);
    e.push(e10);
    e.push(e11);
    e.push(e12);
    e.push(e13);
    e.push(e20);
    e.push(e21);
    e.push(e22);
    e.push(e23);
    e.push(e30);
    e.push(e31);
    e.push(e32);
    e.push(e33);
    let m = Mat4 { e };
    proof {
        assert(m.mq() =~= seq![
            e00.q(), e01.q(), e02.q(), e03.q(),
            e10.q(), e11.q(), e12.q(), e13.q(),
            e20.q(), e21.q(), e22.q(), e23.q(),
            e30.q(), e31.q(), e32.q(), e33.q(),
        ]);
    }
    m
}

} // verus!
