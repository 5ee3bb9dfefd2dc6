use vstd::prelude::*;

use crate::vec3::Vec3;
use crate::vec3::lemma_cross_orthogonal;
use crate::vec3::lemma_norm_sq_sign;
use vstd::arithmetic::mul::lemma_mul_is_associative;
use vstd::arithmetic::mul::lemma_mul_is_distributive_add;
use vstd::arithmetic::mul::lemma_mul_is_distributive_add_other_way;

verus! {

/// A camera orientation: a forward direction together with the right and up
/// vectors spanning its projection plane.
///
/// The orientation is exact: the three vectors are pairwise orthogonal
/// integer vectors (`wf`).  A basis standing for three *unit* vectors is one
/// whose vectors in addition share one squared magnitude; the normalisation
/// that produces such a basis from an arbitrary forward direction involves a
/// square root and is left to the caller's floating-point layer, while every
/// statement here is made of the exact vectors alone.
#[derive(Clone, Copy, PartialEq, Eq, Structural, Debug)]
pub struct Camera {
    pub forward: Vec3,
    pub right: Vec3,
    pub up: Vec3,
}

impl Camera {
    /// The three orientation vectors are pairwise orthogonal.
    pub open spec fn wf(self) -> bool {
        &&& self.right.dot_spec(self.forward) == 0
        &&& self.up.dot_spec(self.forward) == 0
        &&& self.up.dot_spec(self.right) == 0
    }

    /// All three vectors lie in the range that keeps the ray computation
    /// free of overflow.
    pub open spec fn in_range(self) -> bool {
        &&& self.forward.small()
        &&& self.right.small()
        &&& self.up.small()
    }

    /// `p` is exactly the point on the projection plane for the screen
    /// sample `(sx / sample_den, sy / sample_den)` under the field-of-view
    /// scaling `scale / scale_den`: the plane sits one unit along `forward`,
    /// and the whole point is scaled by the positive factor
    /// `sample_den * scale_den`, which leaves its direction unchanged.
    pub open spec fn is_ray_dir(
        self,
        p: Vec3,
        sx: int,
        sy: int,
        sample_den: int,
        scale: int,
        scale_den: int,
    ) -> bool {
        &&& p.x == sample_den * scale_den * self.forward.x + sx * scale * self.right.x
            + sy * scale * self.up.x
        &&& p.y == sample_den * scale_den * self.forward.y + sx * scale * self.right.y
            + sy * scale * self.up.y
        &&& p.z == sample_den * scale_den * self.forward.z + sx * scale * self.right.z
            + sy * scale * self.up.z
    }

    /// Derive an orientation from a forward direction and the world-up
    /// reference axis: `right` is the cross product of `forward` with
    /// world-up, `up` the cross product of `right` with `forward`.
    ///
    /// The vectors come out orthogonal but not of equal magnitude; the
    /// original unit basis is obtained by normalising each one, a step that
    /// scales each vector by a positive factor and so changes no direction.
    /// A forward direction parallel to world-up is degenerate: `right` (and
    /// with it `up`) collapses to zero.
    pub fn new_with_forward_dir(forward: Vec3) -> (cam: Camera)
        requires
            forward.fits(),
        ensures
            cam.forward == forward,
            cam.right.is_cross_of(forward, Vec3 { x: 0i64, y: 1i64, z: 0i64 }),
            cam.up.is_cross_of(cam.right, forward),
            cam.right.x == -(forward.z as int) && cam.right.y == 0 && cam.right.z
                == forward.x,
            cam.wf(),
            forward.x != 0 || forward.z != 0 ==> !cam.right.is_zero_spec()
                && !cam.up.is_zero_spec(),
            forward.x == 0 && forward.z == 0 ==> cam.right.is_zero_spec()
                && cam.up.is_zero_spec(),
    {
        let world_up = Vec3::y_axis();
        let right = forward.cross(&world_up);
        let up = right.cross(&forward);
        proof {
            lemma_cross_orthogonal(right, forward, world_up);
            lemma_cross_orthogonal(up, right, forward);
            assert(right.x == -forward.z && right.y == 0 && right.z == forward.x);
            assert(up.y == forward.x * forward.x + forward.z * forward.z)
                by (nonlinear_arith)
                requires
                    up.y == right.z * forward.x - right.x * forward.z,
                    right.x == -(forward.z as int),
                    right.z == forward.x as int;
            assert(forward.x != 0 || forward.z != 0
                ==> forward.x * forward.x + forward.z * forward.z > 0) by (nonlinear_arith);
            assert(forward.x == 0 && forward.z == 0 ==> up.is_zero_spec());
        }
        Camera { forward, right, up }
    }

    /// Compute the world-space ray direction for one screen sample.
    ///
    /// The sample `(sx / sample_den, sy / sample_den)` is mapped to the
    /// point `forward + sx/sample_den * scale/scale_den * right
    /// + sy/sample_den * scale/scale_den * up` on the projection plane;
    /// the result is that point times the positive factor
    /// `sample_den * scale_den`, which keeps the arithmetic exact and the
    /// direction identical.  Scaling the result to unit length is the
    /// caller's floating-point step.
    ///
    /// For the centre sample `(0, 0)` the result is exactly `forward` times
    /// `sample_den * scale_den`, whatever the field-of-view scaling; and for
    /// a non-zero forward direction the result is never the zero vector, so
    /// its direction is always defined.
    pub fn calc_ray_dir(&self, sx: i64, sy: i64, sample_den: i64, scale: i64, scale_den: i64)
        -> (p: Vec3)
        requires
            self.wf(),
            self.in_range(),
            -1_000_000 <= sx <= 1_000_000,
            -1_000_000 <= sy <= 1_000_000,
            0 < sample_den <= 1_000_000,
            -1_000_000 <= scale <= 1_000_000,
            0 < scale_den <= 1_000_000,
        ensures
            self.is_ray_dir(p, sx as int, sy as int, sample_den as int, scale as int,
                scale_den as int),
            sx == 0 && sy == 0 ==> p.x == sample_den * scale_den * self.forward.x
                && p.y == sample_den * scale_den * self.forward.y
                && p.z == sample_den * scale_den * self.forward.z,
            p.dot_spec(self.forward) == (sample_den * scale_den)
                * self.forward.norm_sq_spec(),
            !self.forward.is_zero_spec() ==> !p.is_zero_spec(),
    {
        proof {
            lemma_term_bound(sample_den as int, scale_den as int, self.forward.x as int);
            lemma_term_bound(sample_den as int, scale_den as int, self.forward.y as int);
            lemma_term_bound(sample_den as int, scale_den as int, self.forward.z as int);
            lemma_term_bound(sx as int, scale as int, self.right.x as int);
            lemma_term_bound(sx as int, scale as int, self.right.y as int);
            lemma_term_bound(sx as int, scale as int, self.right.z as int);
            lemma_term_bound(sy as int, scale as int, self.up.x as int);
            lemma_term_bound(sy as int, scale as int, self.up.y as int);
            lemma_term_bound(sy as int, scale as int, self.up.z as int);
        }
        let p = Vec3 {
            x: sample_den * scale_den * self.forward.x + sx * scale * self.right.x
                + sy * scale * self.up.x,
            y: sample_den * scale_den * self.forward.y + sx * scale * self.right.y
                + sy * scale * self.up.y,
            z: sample_den * scale_den * self.forward.z + sx * scale * self.right.z
                + sy * scale * self.up.z,
        };
        proof {
            lemma_ray_dir_products(*self, p, sx as int, sy as int, sample_den as int,
                scale as int, scale_den as int);
            if !self.forward.is_zero_spec() {
                lemma_norm_sq_sign(self.forward);
                assert((sample_den as int) * (scale_den as int) > 0) by (nonlinear_arith)
                    requires
                        sample_den as int > 0,
                        scale_den as int > 0;
                assert((sample_den * scale_den) * self.forward.norm_sq_spec() > 0)
                    by (nonlinear_arith)
                    requires
                        (sample_den as int) * (scale_den as int) > 0,
                        self.forward.norm_sq_spec() > 0;
                if p.is_zero_spec() {
                    assert(p.x * self.forward.x + p.y * self.forward.y + p.z
                        * self.forward.z == 0) by (nonlinear_arith)
                        requires
                            p.x == 0,
                            p.y == 0,
                            p.z == 0;
                }
            }
        }
        p
    }
}

/// Map a buffer position to the normalised screen sample the renderer
/// feeds the camera, aspect-ratio stretch folded in.  The renderer takes a
/// column to `(2*x/cols - 1) * (cols/rows)` — the horizontal axis is
/// widened by the aspect ratio rather than the vertical one cropped — and
/// a row to `2*y/rows - 1`; over the common denominator `rows` these are
/// exactly `(2x - cols) / rows` and `(2y - rows) / rows`, so the returned
/// numerators carry the sample without rounding.  A sample suits
/// `calc_ray_dir` with `rows` as its sample denominator.
pub fn screen_sample(x: usize, y: usize, rows: usize, cols: usize) -> (s: (i64, i64))
    requires
        0 < rows <= 1_000_000,
        0 < cols <= 1_000_000,
        x <= cols,
        y <= rows,
    ensures
        s.0 == 2 * x - cols,
        s.1 == 2 * y - rows,
        -(cols as int) <= s.0 <= cols,
        -(rows as int) <= s.1 <= rows,
{
    let sx: i64 = 2 * (x as i64) - (cols as i64);
    let sy: i64 = 2 * (y as i64) - (rows as i64);
    (sx, sy)
}

/// A product of a plane-point coordinate's three factors stays in `i64`.
proof fn lemma_term_bound(a: int, b: int, c: int)
    requires
        -1_000_000 <= a <= 1_000_000,
        -1_000_000 <= b <= 1_000_000,
        -1_000_000 <= c <= 1_000_000,
    ensures
        -1_000_000_000_000 <= a * b <= 1_000_000_000_000,
        -1_000_000_000_000_000_000 <= a * b * c <= 1_000_000_000_000_000_000,
{
    assert(-1_000_000_000_000 <= a * b <= 1_000_000_000_000 && -1_000_000_000_000_000_000
        <= (a * b) * c <= 1_000_000_000_000_000_000) by (nonlinear_arith)
        requires
            -1_000_000 <= a <= 1_000_000,
            -1_000_000 <= b <= 1_000_000,
            -1_000_000 <= c <= 1_000_000;
}

proof fn lemma_dot_comm(a: Vec3, b: Vec3)
    ensures
        a.dot_spec(b) == b.dot_spec(a),
{
    assert(a.x * b.x + a.y * b.y + a.z * b.z == b.x * a.x + b.y * a.y + b.z * a.z)
        by (nonlinear_arith);
}

/// A dot product against a linear combination splits into the combination of
/// the dot products.
proof fn lemma_combination_dot(p: Vec3, f: Vec3, r: Vec3, u: Vec3, q: Vec3, a: int, b: int,
    c: int)
    requires
        p.x == a * f.x + b * r.x + c * u.x,
        p.y == a * f.y + b * r.y + c * u.y,
        p.z == a * f.z + b * r.z + c * u.z,
    ensures
        p.dot_spec(q) == a * f.dot_spec(q) + b * r.dot_spec(q) + c * u.dot_spec(q),
{
    lemma_coordinate_split(f.x as int, r.x as int, u.x as int, q.x as int, a, b, c);
    lemma_coordinate_split(f.y as int, r.y as int, u.y as int, q.y as int, a, b, c);
    lemma_coordinate_split(f.z as int, r.z as int, u.z as int, q.z as int, a, b, c);
    lemma_mul_is_distributive_add(a, f.x * q.x + f.y * q.y, f.z * q.z);
    lemma_mul_is_distributive_add(a, f.x * q.x, f.y * q.y);
    lemma_mul_is_distributive_add(b, r.x * q.x + r.y * q.y, r.z * q.z);
    lemma_mul_is_distributive_add(b, r.x * q.x, r.y * q.y);
    lemma_mul_is_distributive_add(c, u.x * q.x + u.y * q.y, u.z * q.z);
    lemma_mul_is_distributive_add(c, u.x * q.x, u.y * q.y);
}

/// One coordinate of the combination split: `(a*fc + b*rc + c*uc) * qc`
/// regrouped into one term per basis vector.
proof fn lemma_coordinate_split(fc: int, rc: int, uc: int, qc: int, a: int, b: int, c: int)
    ensures
        (a * fc + b * rc + c * uc) * qc == a * (fc * qc) + b * (rc * qc) + c * (uc * qc),
{
    lemma_mul_is_distributive_add_other_way(qc, a * fc + b * rc, c * uc);
    lemma_mul_is_distributive_add_other_way(qc, a * fc, b * rc);
    lemma_mul_is_associative(a, fc, qc);
    lemma_mul_is_associative(b, rc, qc);
    lemma_mul_is_associative(c, uc, qc);
}

/// Over an orthogonal basis, the ray direction's projection onto `forward`
/// and its squared magnitude take closed forms: the projection does not
/// depend on the sample at all, and the squared magnitude splits into one
/// term per basis vector.
pub proof fn lemma_ray_dir_products(
    cam: Camera,
    p: Vec3,
    sx: int,
    sy: int,
    sample_den: int,
    scale: int,
    scale_den: int,
)
    requires
        cam.wf(),
        cam.is_ray_dir(p, sx, sy, sample_den, scale, scale_den),
    ensures
        p.dot_spec(cam.forward) == (sample_den * scale_den) * cam.forward.norm_sq_spec(),
        p.norm_sq_spec() == (sample_den * scale_den) * (sample_den * scale_den)
            * cam.forward.norm_sq_spec() + (sx * scale) * (sx * scale)
            * cam.right.norm_sq_spec() + (sy * scale) * (sy * scale)
            * cam.up.norm_sq_spec(),
{
    let a = sample_den * scale_den;
    let b = sx * scale;
    let c = sy * scale;
    let f = cam.forward;
    let r = cam.right;
    let u = cam.up;
    lemma_combination_dot(p, f, r, u, f, a, b, c);
    lemma_dot_comm(r, f);
    lemma_dot_comm(u, f);
    assert(p.dot_spec(f) == a * f.norm_sq_spec());
    lemma_combination_dot(p, f, r, u, r, a, b, c);
    lemma_dot_comm(u, r);
    assert(f.dot_spec(r) == 0) by {
        lemma_dot_comm(f, r);
    }
    assert(p.dot_spec(r) == b * r.norm_sq_spec());
    lemma_combination_dot(p, f, r, u, u, a, b, c);
    assert(f.dot_spec(u) == 0) by {
        lemma_dot_comm(f, u);
    }
    assert(r.dot_spec(u) == 0) by {
        lemma_dot_comm(r, u);
    }
    assert(p.dot_spec(u) == c * u.norm_sq_spec());
    lemma_combination_dot(p, f, r, u, p, a, b, c);
    lemma_dot_comm(p, f);
    lemma_dot_comm(p, r);
    lemma_dot_comm(p, u);
    assert(p.norm_sq_spec() == a * (a * f.norm_sq_spec()) + b * (b * r.norm_sq_spec()) + c
        * (c * u.norm_sq_spec()));
    assert(a * (a * f.norm_sq_spec()) == (a * a) * f.norm_sq_spec()) by (nonlinear_arith);
    assert(b * (b * r.norm_sq_spec()) == (b * b) * r.norm_sq_spec()) by (nonlinear_arith);
    assert(c * (c * u.norm_sq_spec()) == (c * c) * u.norm_sq_spec()) by (nonlinear_arith);
}

/// The centre screen sample's ray direction is the forward direction itself
/// (times the positive factor `sample_den * scale_den`), independent of the
/// field-of-view scaling.
pub proof fn lemma_centre_sample_is_forward(
    cam: Camera,
    p: Vec3,
    sample_den: int,
    scale: int,
    scale_den: int,
)
    requires
        cam.is_ray_dir(p, 0, 0, sample_den, scale, scale_den),
    ensures
        p.x == sample_den * scale_den * cam.forward.x,
        p.y == sample_den * scale_den * cam.forward.y,
        p.z == sample_den * scale_den * cam.forward.z,
{
    assert(0 * scale * cam.right.x == 0) by (nonlinear_arith);
    assert(0 * scale * cam.right.y == 0) by (nonlinear_arith);
    assert(0 * scale * cam.right.z == 0) by (nonlinear_arith);
    assert(0 * scale * cam.up.x == 0) by (nonlinear_arith);
    assert(0 * scale * cam.up.y == 0) by (nonlinear_arith);
    assert(0 * scale * cam.up.z == 0) by (nonlinear_arith);
}

/// Widening a screen sample widens the ray: for a fixed orientation and
/// field-of-view scaling, a sample no closer to the centre on either axis
/// gives a ray direction that deviates from `forward` by no smaller an
/// angle.  The projection onto `forward` is the same for both rays, while
/// the squared magnitude grows with the sample, so the squared cosine of
/// the deviation angle can only fall: stated below cross-multiplied, free
/// of division.  With a strictly wider sample on one axis, a non-degenerate
/// basis vector on that axis and a non-zero scaling, the growth is strict.
pub proof fn lemma_deviation_monotone(
    cam: Camera,
    p1: Vec3,
    p2: Vec3,
    sx1: int,
    sy1: int,
    sx2: int,
    sy2: int,
    sample_den: int,
    scale: int,
    scale_den: int,
)
    requires
        cam.wf(),
        cam.is_ray_dir(p1, sx1, sy1, sample_den, scale, scale_den),
        cam.is_ray_dir(p2, sx2, sy2, sample_den, scale, scale_den),
        sx1 * sx1 <= sx2 * sx2,
        sy1 * sy1 <= sy2 * sy2,
    ensures
        p1.dot_spec(cam.forward) == p2.dot_spec(cam.forward),
        p1.norm_sq_spec() <= p2.norm_sq_spec(),
        p1.dot_spec(cam.forward) * p1.dot_spec(cam.forward) * p2.norm_sq_spec()
            >= p2.dot_spec(cam.forward) * p2.dot_spec(cam.forward) * p1.norm_sq_spec(),
        scale != 0 && !cam.right.is_zero_spec() && sx1 * sx1 < sx2 * sx2
            && sy1 * sy1 <= sy2 * sy2 ==> p1.norm_sq_spec() < p2.norm_sq_spec(),
        scale != 0 && !cam.up.is_zero_spec() && sy1 * sy1 < sy2 * sy2
            && sx1 * sx1 <= sx2 * sx2 ==> p1.norm_sq_spec() < p2.norm_sq_spec(),
{
    lemma_ray_dir_products(cam, p1, sx1, sy1, sample_den, scale, scale_den);
    lemma_ray_dir_products(cam, p2, sx2, sy2, sample_den, scale, scale_den);
    lemma_norm_sq_sign(cam.right);
    lemma_norm_sq_sign(cam.up);
    let nr = cam.right.norm_sq_spec();
    let nu = cam.up.norm_sq_spec();
    assert((sx1 * scale) * (sx1 * scale) * nr <= (sx2 * scale) * (sx2 * scale) * nr)
        by (nonlinear_arith)
        requires
            sx1 * sx1 <= sx2 * sx2,
            nr >= 0;
    assert((sy1 * scale) * (sy1 * scale) * nu <= (sy2 * scale) * (sy2 * scale) * nu)
        by (nonlinear_arith)
        requires
            sy1 * sy1 <= sy2 * sy2,
            nu >= 0;
    let k = p1.dot_spec(cam.forward);
    assert(p1.norm_sq_spec() >= 0) by {
        lemma_norm_sq_sign(p1);
    }
    assert(p2.norm_sq_spec() >= 0) by {
        lemma_norm_sq_sign(p2);
    }
    assert(k * k * p2.norm_sq_spec() >= k * k * p1.norm_sq_spec()) by (nonlinear_arith)
        requires
            p1.norm_sq_spec() <= p2.norm_sq_spec(),
            p1.norm_sq_spec() >= 0;
    if scale != 0 && !cam.right.is_zero_spec() && sx1 * sx1 < sx2 * sx2 {
        assert((sx1 * scale) * (sx1 * scale) * nr < (sx2 * scale) * (sx2 * scale) * nr)
            by (nonlinear_arith)
            requires
                sx1 * sx1 < sx2 * sx2,
                scale != 0,
                nr > 0;
    }
    if scale != 0 && !cam.up.is_zero_spec() && sy1 * sy1 < sy2 * sy2 {
        assert((sy1 * scale) * (sy1 * scale) * nu < (sy2 * scale) * (sy2 * scale) * nu)
            by (nonlinear_arith)
            requires
                sy1 * sy1 < sy2 * sy2,
                scale != 0,
                nu > 0;
    }
}

} // verus!
