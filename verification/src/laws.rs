//! Algebraic laws of the transform subsystem, stated over the exact
//! rational model that the executable contracts use.

use vstd::prelude::*;
use crate::rational::lemma_nonzero_mul;
use crate::rational::lemma_qadd_zero_left;
use crate::rational::lemma_qadd_zero_right;
use crate::rational::lemma_qadd_two_zeros;
use crate::rational::lemma_qadd_one;
use crate::rational::lemma_qeq_trans;
use crate::rational::lemma_qsub_one;
use crate::rational::qdiv;
use crate::rational::qdiv_norm;
use crate::rational::qsub;
use crate::rational::lemma_qmul_one;
use crate::rational::lemma_qmul_one_right;
use crate::rational::lemma_qmul_zero;
use crate::rational::qadd;
use crate::rational::qeq;
use crate::rational::qmul;
use crate::rational::qneg;
use crate::rational::qone;
use crate::rational::qwf;
use crate::rational::qzero;
use crate::transform::midentity;
use crate::transform::sfrustum_bottom;
use crate::transform::sfrustum_far;
use crate::transform::sfrustum_left;
use crate::transform::sfrustum_right;
use crate::transform::sfrustum_top;
use crate::transform::sfrustum_near;
use crate::transform::spersp;
use crate::transform::sapply;
use crate::transform::scross;
use crate::transform::sdot3;
use crate::transform::slookat;
use crate::transform::sscale3;
use crate::transform::ssub3;

verus! {

/// Law: the identity transform, applied to any homogeneous vector, denotes
/// that vector unchanged, component by component.
pub proof fn lemma_identity_applies_unchanged(v: Seq<(int, int)>)
    requires
        v.len() == 4,
        forall|i: int| 0 <= i < 4 ==> qwf(#[trigger] v[i]),
    ensures
        forall|i: int| 0 <= i < 4 ==> qeq(#[trigger] sapply(midentity(), v)[i], v[i]),
{
    let m = midentity();
    let d0 = v[0].1;
    let d1 = v[1].1;
    let d2 = v[2].1;
    let d3 = v[3].1;
    assert(qwf(v[0]) && qwf(v[1]) && qwf(v[2]) && qwf(v[3]));
    lemma_nonzero_mul(d0, d1);
    lemma_nonzero_mul(d0 * d1, d2);

    // The diagonal entries are one, the rest zero; bridge each product to
    // its literal form.
    lemma_qmul_one(v[0]);
    lemma_qmul_one(v[1]);
    lemma_qmul_one(v[2]);
    lemma_qmul_one(v[3]);
    lemma_qmul_zero(v[0]);
    lemma_qmul_zero(v[1]);
    lemma_qmul_zero(v[2]);
    lemma_qmul_zero(v[3]);
    assert(qmul(m[0], v[0]) == qmul(qone(), v[0]) && qmul(m[5], v[1]) == qmul(qone(), v[1])
        && qmul(m[10], v[2]) == qmul(qone(), v[2]) && qmul(m[15], v[3]) == qmul(qone(), v[3]));
    assert(qmul(m[1], v[1]) == qmul(qzero(), v[1]) && qmul(m[2], v[2]) == qmul(qzero(), v[2])
        && qmul(m[3], v[3]) == qmul(qzero(), v[3]));
    assert(qmul(m[4], v[0]) == qmul(qzero(), v[0]) && qmul(m[6], v[2]) == qmul(qzero(), v[2])
        && qmul(m[7], v[3]) == qmul(qzero(), v[3]));
    assert(qmul(m[8], v[0]) == qmul(qzero(), v[0]) && qmul(m[9], v[1]) == qmul(qzero(), v[1])
        && qmul(m[11], v[3]) == qmul(qzero(), v[3]));
    assert(qmul(m[12], v[0]) == qmul(qzero(), v[0]) && qmul(m[13], v[1]) == qmul(qzero(), v[1])
        && qmul(m[14], v[2]) == qmul(qzero(), v[2]));

    // Component 0: v0, then three zero terms.
    let a01 = qadd(v[0], (0int, d1));
    let a02 = qadd(a01, (0int, d2));
    let a03 = qadd(a02, (0int, d3));
    assert(sapply(m, v)[0] == a03);
    lemma_qadd_zero_right(v[0], d1);
    lemma_qadd_zero_right(a01, d2);
    lemma_qadd_zero_right(a02, d3);
    lemma_qeq_trans(a02, a01, v[0]);
    lemma_qeq_trans(a03, a02, v[0]);
    assert(qeq(sapply(m, v)[0], v[0]));

    // Component 1: one zero term, v1, two zero terms.
    let b01 = qadd((0int, d0), v[1]);
    let b02 = qadd(b01, (0int, d2));
    let b03 = qadd(b02, (0int, d3));
    assert(sapply(m, v)[1] == b03);
    lemma_qadd_zero_left(v[1], d0);
    lemma_qadd_zero_right(b01, d2);
    lemma_qadd_zero_right(b02, d3);
    lemma_qeq_trans(b02, b01, v[1]);
    lemma_qeq_trans(b03, b02, v[1]);
    assert(qeq(sapply(m, v)[1], v[1]));

    // Component 2: two zero terms collapse, then v2, then a zero term.
    lemma_qadd_two_zeros(d0, d1);
    let c01 = qadd((0int, d0 * d1), v[2]);
    let c02 = qadd(c01, (0int, d3));
    assert(qadd(qadd((0int, d0), (0int, d1)), v[2]) == c01);
    assert(sapply(m, v)[2] == c02);
    lemma_qadd_zero_left(v[2], d0 * d1);
    lemma_qadd_zero_right(c01, d3);
    lemma_qeq_trans(c02, c01, v[2]);
    assert(qeq(sapply(m, v)[2], v[2]));

    // Component 3: three zero terms collapse, then v3.
    lemma_qadd_two_zeros(d0 * d1, d2);
    assert(qadd(qadd((0int, d0), (0int, d1)), (0int, d2)) == (0int, (d0 * d1) * d2));
    let e01 = qadd((0int, (d0 * d1) * d2), v[3]);
    assert(sapply(m, v)[3] == e01);
    lemma_qadd_zero_left(v[3], (d0 * d1) * d2);
    assert(qeq(sapply(m, v)[3], v[3]));
}

/// Law: the look-at view matrix maps the camera position itself to the
/// origin of view space — the three spatial components of the transformed
/// eye are zero and its homogeneous component is one.
pub proof fn lemma_lookat_centers_eye(
    eye: Seq<(int, int)>,
    target: Seq<(int, int)>,
    up: Seq<(int, int)>,
    ir: (int, int),
    iu: (int, int),
    ifw: (int, int),
)
    requires
        eye.len() == 3,
        target.len() == 3,
        up.len() == 3,
        forall|i: int| 0 <= i < 3 ==> qwf(#[trigger] eye[i]),
    ensures
        ({
            let h = sapply(
                slookat(eye, target, up, ir, iu, ifw),
                seq![eye[0], eye[1], eye[2], qone()],
            );
            &&& qeq(h[0], qzero())
            &&& qeq(h[1], qzero())
            &&& qeq(h[2], qzero())
            &&& qeq(h[3], qone())
        }),
{
    let m = slookat(eye, target, up, ir, iu, ifw);
    let v = seq![eye[0], eye[1], eye[2], qone()];
    let f = ssub3(eye, target);
    let r = sscale3(ir, scross(up, f));
    let w = sscale3(iu, scross(f, scross(up, f)));
    let h = sapply(m, v);
    let ff = sscale3(ifw, f);
    let s0 = sdot3(r, eye);
    let s1 = sdot3(w, eye);
    let s2 = sdot3(ff, eye);

    // Row 0: the first three terms are exactly r . eye, the fourth is the
    // negated dot product times one.
    lemma_qmul_one_right(qneg(s0));
    assert(qmul(qneg(s0), qone()) == (-s0.0, s0.1));
    assert(qmul(m[3], v[3]) == qmul(qneg(s0), qone()));
    assert(qmul(m[0], v[0]) == qmul(r[0], eye[0]) && qmul(m[1], v[1]) == qmul(r[1], eye[1])
        && qmul(m[2], v[2]) == qmul(r[2], eye[2]));
    assert(h[0] == qadd(s0, (-s0.0, s0.1)));
    assert((-s0.0) * s0.1 == -(s0.0 * s0.1)) by (nonlinear_arith);
    assert(h[0].0 == 0);
    assert(h[0].0 * 1int == 0int && 0int * h[0].1 == 0int) by (nonlinear_arith)
        requires
            h[0].0 == 0,
    ;
    assert(qeq(h[0], qzero()));

    // Row 1: the same shape with the true-up row.
    lemma_qmul_one_right(qneg(s1));
    assert(qmul(qneg(s1), qone()) == (-s1.0, s1.1));
    assert(qmul(m[7], v[3]) == qmul(qneg(s1), qone()));
    assert(qmul(m[4], v[0]) == qmul(w[0], eye[0]) && qmul(m[5], v[1]) == qmul(w[1], eye[1])
        && qmul(m[6], v[2]) == qmul(w[2], eye[2]));
    assert(h[1] == qadd(s1, (-s1.0, s1.1)));
    assert((-s1.0) * s1.1 == -(s1.0 * s1.1)) by (nonlinear_arith);
    assert(h[1].0 == 0);
    assert(h[1].0 * 1int == 0int && 0int * h[1].1 == 0int) by (nonlinear_arith)
        requires
            h[1].0 == 0,
    ;
    assert(qeq(h[1], qzero()));

    // Row 2: the same shape with the forward row.
    lemma_qmul_one_right(qneg(s2));
    assert(qmul(qneg(s2), qone()) == (-s2.0, s2.1));
    assert(qmul(m[11], v[3]) == qmul(qneg(s2), qone()));
    assert(qmul(m[8], v[0]) == qmul(ff[0], eye[0]) && qmul(m[9], v[1]) == qmul(ff[1], eye[1])
        && qmul(m[10], v[2]) == qmul(ff[2], eye[2]));
    assert(h[2] == qadd(s2, (-s2.0, s2.1)));
    assert((-s2.0) * s2.1 == -(s2.0 * s2.1)) by (nonlinear_arith);
    assert(h[2].0 == 0);
    assert(h[2].0 * 1int == 0int && 0int * h[2].1 == 0int) by (nonlinear_arith)
        requires
            h[2].0 == 0,
    ;
    assert(qeq(h[2], qzero()));

    // Row 3: three zero terms collapse, then 1 * 1.
    let d0 = eye[0].1;
    let d1 = eye[1].1;
    let d2 = eye[2].1;
    lemma_qmul_zero(eye[0]);
    lemma_qmul_zero(eye[1]);
    lemma_qmul_zero(eye[2]);
    assert(qmul(m[12], v[0]) == qmul(qzero(), eye[0]) && qmul(m[13], v[1]) == qmul(
        qzero(),
        eye[1],
    ) && qmul(m[14], v[2]) == qmul(qzero(), eye[2]));
    lemma_qmul_one(qone());
    assert(qmul(m[15], v[3]) == qmul(qone(), qone()));
    lemma_qadd_two_zeros(d0, d1);
    lemma_qadd_two_zeros(d0 * d1, d2);
    assert(qadd(qadd((0int, d0), (0int, d1)), (0int, d2)) == (0int, (d0 * d1) * d2));
    let hd = (d0 * d1) * d2;
    lemma_qmul_one(qone());
    assert(h[3] == qadd((0int, hd), qone()));
    assert(0int * 1int + 1int * hd == hd && hd * 1int == hd) by (nonlinear_arith);
    assert(qadd((0int, hd), qone()) == (0int * 1int + 1int * hd, hd * 1int));
    assert(h[3].0 == hd && h[3].1 == hd);
    assert(h[3].0 * 1int == 1int * h[3].1) by (nonlinear_arith)
        requires
            h[3].0 == h[3].1,
    ;
    assert(qeq(h[3], qone()));
}

/// Law: the frustum math of a perspective projection can be inverted — on
/// bounds that make the matrix invertible (unequal depth planes, neither
/// depth at zero), reading the near and far depths back from the matrix
/// denotes the original values.
pub proof fn lemma_perspective_roundtrip_depth(
    l: (int, int),
    r: (int, int),
    b: (int, int),
    t: (int, int),
    n: (int, int),
    f: (int, int),
)
    requires
        qwf(l),
        qwf(r),
        qwf(b),
        qwf(t),
        qwf(n),
        qwf(f),
        !qeq(n, f),
        !qeq(n, qzero()),
        !qeq(f, qzero()),
    ensures
        qeq(sfrustum_near(spersp(l, r, b, t, n, f)), n),
        qeq(sfrustum_far(spersp(l, r, b, t, n, f)), f),
        qeq(sfrustum_left(spersp(l, r, b, t, n, f), n), l),
        qeq(sfrustum_right(spersp(l, r, b, t, n, f), n), r),
        qeq(sfrustum_bottom(spersp(l, r, b, t, n, f), n), b),
        qeq(sfrustum_top(spersp(l, r, b, t, n, f), n), t),
{
    let m = spersp(l, r, b, t, n, f);
    let q2 = (2int, 1int);
    let av = qadd(f, n);
    let wv = qmul(q2, qmul(f, n));
    let dv = qsub(f, n);
    let pp = f.0 * n.1;
    let qq = n.0 * f.1;
    let dd = f.1 * n.1;
    let ww = f.0 * n.0;
    assert((-n.0) * f.1 == -(n.0 * f.1)) by (nonlinear_arith);
    assert(av.0 == pp + qq && av.1 == dd);
    assert(dv.0 == pp - qq && dv.1 == dd);
    assert(wv.0 == 2 * ww && wv.1 == 1 * dd);
    assert(ww * n.1 == n.0 * pp) by (nonlinear_arith)
        requires
            ww == f.0 * n.0,
            pp == f.0 * n.1,
    ;
    assert(ww * f.1 == f.0 * qq) by (nonlinear_arith)
        requires
            ww == f.0 * n.0,
            qq == n.0 * f.1,
    ;
    assert(m[10] == qneg(qdiv_norm(av, dv)) && m[11] == qneg(qdiv_norm(wv, dv)));
    lemma_qsub_one(m[10]);
    lemma_qadd_one(m[10]);
    assert(sfrustum_near(m).0 == m[11].0 * m[10].1 && sfrustum_near(m).1 == m[11].1 * (m[10].0
        - m[10].1));
    assert(sfrustum_far(m).0 == m[11].0 * m[10].1 && sfrustum_far(m).1 == m[11].1 * (m[10].0
        + m[10].1));
    if dv.0 < 0 {
        assert(qdiv_norm(av, dv) == (-(av.0 * dv.1), -(av.1 * dv.0)));
        assert(qdiv_norm(wv, dv) == (-(wv.0 * dv.1), -(wv.1 * dv.0)));
        assert(m[10].0 == (pp + qq) * dd && m[10].1 == -(dd * (pp - qq)));
        assert(m[11].0 == (2 * ww) * dd && m[11].1 == -((1 * dd) * (pp - qq)));
        assert(m[10].0 - m[10].1 == 2 * (pp * dd)) by (nonlinear_arith)
            requires
                m[10].0 == (pp + qq) * dd,
                m[10].1 == -(dd * (pp - qq)),
        ;
        assert(m[10].0 + m[10].1 == 2 * (qq * dd)) by (nonlinear_arith)
            requires
                m[10].0 == (pp + qq) * dd,
                m[10].1 == -(dd * (pp - qq)),
        ;
        assert(m[11].0 * m[10].1 == -(((2 * ww) * dd) * (dd * (pp - qq)))) by (nonlinear_arith)
            requires
                m[10].1 == -(dd * (pp - qq)),
                m[11].0 == (2 * ww) * dd,
        ;
        assert(m[11].1 * (m[10].0 - m[10].1) == -(((1 * dd) * (pp - qq)) * (2 * (pp
            * dd)))) by (nonlinear_arith)
            requires
                m[11].1 == -((1 * dd) * (pp - qq)),
                m[10].0 - m[10].1 == 2 * (pp * dd),
        ;
        assert(m[11].1 * (m[10].0 + m[10].1) == -(((1 * dd) * (pp - qq)) * (2 * (qq
            * dd)))) by (nonlinear_arith)
            requires
                m[11].1 == -((1 * dd) * (pp - qq)),
                m[10].0 + m[10].1 == 2 * (qq * dd),
        ;
    } else {
        assert(qdiv_norm(av, dv) == (av.0 * dv.1, av.1 * dv.0));
        assert(qdiv_norm(wv, dv) == (wv.0 * dv.1, wv.1 * dv.0));
        assert(m[10].0 == -((pp + qq) * dd) && m[10].1 == dd * (pp - qq));
        assert(m[11].0 == -((2 * ww) * dd) && m[11].1 == (1 * dd) * (pp - qq));
        assert(m[10].0 - m[10].1 == -(2 * (pp * dd))) by (nonlinear_arith)
            requires
                m[10].0 == -((pp + qq) * dd),
                m[10].1 == dd * (pp - qq),
        ;
        assert(m[10].0 + m[10].1 == -(2 * (qq * dd))) by (nonlinear_arith)
            requires
                m[10].0 == -((pp + qq) * dd),
                m[10].1 == dd * (pp - qq),
        ;
        assert(m[11].0 * m[10].1 == -(((2 * ww) * dd) * (dd * (pp - qq)))) by (nonlinear_arith)
            requires
                m[10].1 == dd * (pp - qq),
                m[11].0 == -((2 * ww) * dd),
        ;
        assert(m[11].1 * (m[10].0 - m[10].1) == -(((1 * dd) * (pp - qq)) * (2 * (pp
            * dd)))) by (nonlinear_arith)
            requires
                m[11].1 == (1 * dd) * (pp - qq),
                m[10].0 - m[10].1 == -(2 * (pp * dd)),
        ;
        assert(m[11].1 * (m[10].0 + m[10].1) == -(((1 * dd) * (pp - qq)) * (2 * (qq
            * dd)))) by (nonlinear_arith)
            requires
                m[11].1 == (1 * dd) * (pp - qq),
                m[10].0 + m[10].1 == -(2 * (qq * dd)),
        ;
    }
    // Both branches leave the same canonical products; regroup, swap the
    // one cross relation in, and read the two equalities off.
    assert(sfrustum_near(m).0 * n.1 == -(2 * ((ww * n.1) * (dd * (dd * (pp
        - qq)))))) by (nonlinear_arith)
        requires
            sfrustum_near(m).0 == -(((2 * ww) * dd) * (dd * (pp - qq))),
    ;
    assert(n.0 * sfrustum_near(m).1 == -(2 * ((n.0 * pp) * (dd * (dd * (pp
        - qq)))))) by (nonlinear_arith)
        requires
            sfrustum_near(m).1 == -(((1 * dd) * (pp - qq)) * (2 * (pp * dd))),
    ;
    assert(qeq(sfrustum_near(m), n));
    assert(sfrustum_far(m).0 * f.1 == -(2 * ((ww * f.1) * (dd * (dd * (pp
        - qq)))))) by (nonlinear_arith)
        requires
            sfrustum_far(m).0 == -(((2 * ww) * dd) * (dd * (pp - qq))),
    ;
    assert(f.0 * sfrustum_far(m).1 == -(2 * ((f.0 * qq) * (dd * (dd * (pp
        - qq)))))) by (nonlinear_arith)
        requires
            sfrustum_far(m).1 == -(((1 * dd) * (pp - qq)) * (2 * (qq * dd))),
    ;
    assert(qeq(sfrustum_far(m), f));

    // The two lateral axes follow the same inversion, driven by their own
    // pair of matrix entries.
    assert(m[0] == qdiv_norm(qmul((2int, 1int), n), qsub(r, l)) && m[2] == qdiv_norm(
        qadd(r, l),
        qsub(r, l),
    ));
    assert(m[5] == qdiv_norm(qmul((2int, 1int), n), qsub(t, b)) && m[6] == qdiv_norm(
        qadd(t, b),
        qsub(t, b),
    ));
    lemma_axis_roundtrip(l, r, n, m[0], m[2]);
    lemma_axis_roundtrip(b, t, n, m[5], m[6]);
    assert(qeq(sfrustum_left(m, n), l));
    assert(qeq(sfrustum_right(m, n), r));
    assert(qeq(sfrustum_bottom(m, n), b));
    assert(qeq(sfrustum_top(m, n), t));
}

/// One axis of the frustum inversion: from the two matrix entries built
/// from an axis pair `(lo, hi)` and the near depth, the original bounds
/// come back.
proof fn lemma_axis_roundtrip(lo: (int, int), hi: (int, int), n: (int, int), a: (int, int), e: (int, int))
    requires
        qwf(lo),
        qwf(hi),
        qwf(n),
        a == qdiv_norm(qmul((2int, 1int), n), qsub(hi, lo)),
        e == qdiv_norm(qadd(hi, lo), qsub(hi, lo)),
    ensures
        qeq(qdiv(qmul(n, qsub(e, qone())), a), lo),
        qeq(qdiv(qmul(n, qadd(e, qone())), a), hi),
{
    let dv = qsub(hi, lo);
    let pp = hi.0 * lo.1;
    let qq = lo.0 * hi.1;
    let dd = hi.1 * lo.1;
    assert((-lo.0) * hi.1 == -(lo.0 * hi.1)) by (nonlinear_arith);
    assert(qadd(hi, lo).0 == pp + qq && qadd(hi, lo).1 == dd);
    assert(dv.0 == pp - qq && dv.1 == dd);
    assert(qmul((2int, 1int), n).0 == 2 * n.0 && qmul((2int, 1int), n).1 == 1 * n.1);
    assert(qq * lo.1 == lo.0 * dd) by (nonlinear_arith)
        requires
            qq == lo.0 * hi.1,
            dd == hi.1 * lo.1,
    ;
    assert(pp * hi.1 == hi.0 * dd) by (nonlinear_arith)
        requires
            pp == hi.0 * lo.1,
            dd == hi.1 * lo.1,
    ;
    lemma_qsub_one(e);
    lemma_qadd_one(e);
    let rl = qdiv(qmul(n, qsub(e, qone())), a);
    let rh = qdiv(qmul(n, qadd(e, qone())), a);
    assert(rl.0 == (n.0 * (e.0 - e.1)) * a.1 && rl.1 == (n.1 * e.1) * a.0);
    assert(rh.0 == (n.0 * (e.0 + e.1)) * a.1 && rh.1 == (n.1 * e.1) * a.0);
    if dv.0 < 0 {
        assert(e.0 == -((pp + qq) * dd) && e.1 == -(dd * (pp - qq)));
        assert(a.0 == -((2 * n.0) * dd) && a.1 == -((1 * n.1) * (pp - qq)));
        assert(e.0 - e.1 == -(2 * (qq * dd)) && e.0 + e.1 == -(2 * (pp * dd))) by (nonlinear_arith)
            requires
                e.0 == -((pp + qq) * dd),
                e.1 == -(dd * (pp - qq)),
        ;
        assert(rl.0 == 2 * ((n.0 * (qq * dd)) * ((1 * n.1) * (pp - qq)))) by (nonlinear_arith)
            requires
                rl.0 == (n.0 * (e.0 - e.1)) * a.1,
                e.0 - e.1 == -(2 * (qq * dd)),
                a.1 == -((1 * n.1) * (pp - qq)),
        ;
        assert(rh.0 == 2 * ((n.0 * (pp * dd)) * ((1 * n.1) * (pp - qq)))) by (nonlinear_arith)
            requires
                rh.0 == (n.0 * (e.0 + e.1)) * a.1,
                e.0 + e.1 == -(2 * (pp * dd)),
                a.1 == -((1 * n.1) * (pp - qq)),
        ;
        assert(rl.1 == (n.1 * (dd * (pp - qq))) * ((2 * n.0) * dd)) by (nonlinear_arith)
            requires
                rl.1 == (n.1 * e.1) * a.0,
                e.1 == -(dd * (pp - qq)),
                a.0 == -((2 * n.0) * dd),
        ;
    } else {
        assert(e.0 == (pp + qq) * dd && e.1 == dd * (pp - qq));
        assert(a.0 == (2 * n.0) * dd && a.1 == (1 * n.1) * (pp - qq));
        assert(e.0 - e.1 == 2 * (qq * dd) && e.0 + e.1 == 2 * (pp * dd)) by (nonlinear_arith)
            requires
                e.0 == (pp + qq) * dd,
                e.1 == dd * (pp - qq),
        ;
        assert(rl.0 == 2 * ((n.0 * (qq * dd)) * ((1 * n.1) * (pp - qq)))) by (nonlinear_arith)
            requires
                rl.0 == (n.0 * (e.0 - e.1)) * a.1,
                e.0 - e.1 == 2 * (qq * dd),
                a.1 == (1 * n.1) * (pp - qq),
        ;
        assert(rh.0 == 2 * ((n.0 * (pp * dd)) * ((1 * n.1) * (pp - qq)))) by (nonlinear_arith)
            requires
                rh.0 == (n.0 * (e.0 + e.1)) * a.1,
                e.0 + e.1 == 2 * (pp * dd),
                a.1 == (1 * n.1) * (pp - qq),
        ;
        assert(rl.1 == (n.1 * (dd * (pp - qq))) * ((2 * n.0) * dd)) by (nonlinear_arith)
            requires
                rl.1 == (n.1 * e.1) * a.0,
                e.1 == dd * (pp - qq),
                a.0 == (2 * n.0) * dd,
        ;
    }
    assert(rl.0 * lo.1 == 2 * ((qq * lo.1) * ((n.0 * n.1) * (dd * (pp - qq))))) by (nonlinear_arith)
        requires
            rl.0 == 2 * ((n.0 * (qq * dd)) * ((1 * n.1) * (pp - qq))),
    ;
    assert(lo.0 * rl.1 == 2 * ((lo.0 * dd) * ((n.0 * n.1) * (dd * (pp - qq))))) by (nonlinear_arith)
        requires
            rl.1 == (n.1 * (dd * (pp - qq))) * ((2 * n.0) * dd),
    ;
    assert(rh.0 * hi.1 == 2 * ((pp * hi.1) * ((n.0 * n.1) * (dd * (pp - qq))))) by (nonlinear_arith)
        requires
            rh.0 == 2 * ((n.0 * (pp * dd)) * ((1 * n.1) * (pp - qq))),
    ;
    assert(hi.0 * rh.1 == 2 * ((hi.0 * dd) * ((n.0 * n.1) * (dd * (pp - qq))))) by (nonlinear_arith)
        requires
            rh.1 == (n.1 * (dd * (pp - qq))) * ((2 * n.0) * dd),
    ;
    assert(qeq(rl, lo));
    assert(qeq(rh, hi));
}

} // verus!
