use vstd::prelude::*;

verus! {

/// A three-component vector with `i64` coordinates.
///
/// Real-valued vectors are carried in fixed point: a coordinate stands for
/// the rational `coordinate / denominator` for a caller-chosen positive
/// denominator.  All the algebra below is therefore exact integer
/// arithmetic, and every contract states the result without rounding.
#[derive(Clone, Copy, PartialEq, Eq, Structural, Debug)]
pub struct Vec3 {
    pub x: i64,
    pub y: i64,
    pub z: i64,
}

impl Vec3 {
    /// Every coordinate is small enough that a product of coordinates of two
    /// such vectors, and a three-term sum of such products, stays in `i64`.
    pub open spec fn fits(self) -> bool {
        &&& -1_000_000_000 <= self.x <= 1_000_000_000
        &&& -1_000_000_000 <= self.y <= 1_000_000_000
        &&& -1_000_000_000 <= self.z <= 1_000_000_000
    }

    /// The tighter range used for fixed-point unit vectors and screen
    /// samples: small enough that a product of three such values, summed
    /// three times, stays in `i64`.
    pub open spec fn small(self) -> bool {
        &&& -1_000_000 <= self.x <= 1_000_000
        &&& -1_000_000 <= self.y <= 1_000_000
        &&& -1_000_000 <= self.z <= 1_000_000
    }

    pub open spec fn is_zero_spec(self) -> bool {
        self.x == 0 && self.y == 0 && self.z == 0
    }

    /// The mathematical dot product, computed without overflow.
    pub open spec fn dot_spec(self, other: Vec3) -> int {
        self.x * other.x + self.y * other.y + self.z * other.z
    }

    /// The squared Euclidean magnitude.
    pub open spec fn norm_sq_spec(self) -> int {
        self.dot_spec(self)
    }

    /// `self` is exactly the cross product `a` x `b`.
    pub open spec fn is_cross_of(self, a: Vec3, b: Vec3) -> bool {
        &&& self.x == a.y * b.z - a.z * b.y
        &&& self.y == a.z * b.x - a.x * b.z
        &&& self.z == a.x * b.y - a.y * b.x
    }

    pub fn new(x: i64, y: i64, z: i64) -> (v: Vec3)
        ensures
            v == (Vec3 { x, y, z }),
    {
        Vec3 { x, y, z }
    }

    pub fn zero() -> (v: Vec3)
        ensures
            v.is_zero_spec(),
    {
        Vec3 { x: 0, y: 0, z: 0 }
    }

    /// The world-up reference axis.
    pub fn y_axis() -> (v: Vec3)
        ensures
            v == (Vec3 { x: 0i64, y: 1i64, z: 0i64 }),
    {
        Vec3 { x: 0, y: 1, z: 0 }
    }

    pub fn is_zero(&self) -> (b: bool)
        ensures
            b == self.is_zero_spec(),
    {
        self.x == 0 && self.y == 0 && self.z == 0
    }

    pub fn dot(&self, other: &Vec3) -> (d: i64)
        requires
            self.fits(),
            other.fits(),
        ensures
            d == self.dot_spec(*other),
    {
        proof {
            lemma_product_bound(self.x as int, other.x as int);
            lemma_product_bound(self.y as int, other.y as int);
            lemma_product_bound(self.z as int, other.z as int);
        }
        self.x * other.x + self.y * other.y + self.z * other.z
    }

    pub fn cross(&self, other: &Vec3) -> (c: Vec3)
        requires
            self.fits(),
            other.fits(),
        ensures
            c.is_cross_of(*self, *other),
    {
        proof {
            lemma_product_bound(self.y as int, other.z as int);
            lemma_product_bound(self.z as int, other.y as int);
            lemma_product_bound(self.z as int, other.x as int);
            lemma_product_bound(self.x as int, other.z as int);
            lemma_product_bound(self.x as int, other.y as int);
            lemma_product_bound(self.y as int, other.x as int);
        }
        Vec3 {
            x: self.y * other.z - self.z * other.y,
            y: self.z * other.x - self.x * other.z,
            z: self.x * other.y - self.y * other.x,
        }
    }

    pub fn norm_sq(&self) -> (n: i64)
        requires
            self.fits(),
        ensures
            n == self.norm_sq_spec(),
            n >= 0,
    {
        proof {
            lemma_product_bound(self.x as int, self.x as int);
            lemma_product_bound(self.y as int, self.y as int);
            lemma_product_bound(self.z as int, self.z as int);
            lemma_norm_sq_sign(*self);
        }
        self.x * self.x + self.y * self.y + self.z * self.z
    }
}

/// A product of two coordinates within the `fits` range stays well inside `i64`.
proof fn lemma_product_bound(a: int, b: int)
    requires
        -1_000_000_000 <= a <= 1_000_000_000,
        -1_000_000_000 <= b <= 1_000_000_000,
    ensures
        -1_000_000_000_000_000_000 <= a * b <= 1_000_000_000_000_000_000,
{
    assert(-1_000_000_000_000_000_000 <= a * b <= 1_000_000_000_000_000_000)
        by (nonlinear_arith)
        requires
            -1_000_000_000 <= a <= 1_000_000_000,
            -1_000_000_000 <= b <= 1_000_000_000;
}

/// The squared magnitude is non-negative, and zero only for the zero vector.
pub proof fn lemma_norm_sq_sign(v: Vec3)
    ensures
        v.norm_sq_spec() >= 0,
        !v.is_zero_spec() ==> v.norm_sq_spec() > 0,
{
    assert(v.x * v.x + v.y * v.y + v.z * v.z >= 0) by (nonlinear_arith);
    if !v.is_zero_spec() {
        assert(v.x != 0 || v.y != 0 || v.z != 0);
        assert((v.x != 0 || v.y != 0 || v.z != 0) ==> v.x * v.x + v.y * v.y + v.z * v.z > 0)
            by (nonlinear_arith);
    }
}

/// A cross product is orthogonal to both of its factors.
pub proof fn lemma_cross_orthogonal(c: Vec3, a: Vec3, b: Vec3)
    requires
        c.is_cross_of(a, b),
    ensures
        c.dot_spec(a) == 0,
        c.dot_spec(b) == 0,
{
    assert((a.y * b.z - a.z * b.y) * a.x + (a.z * b.x - a.x * b.z) * a.y
        + (a.x * b.y - a.y * b.x) * a.z == 0) by (nonlinear_arith);
    assert((a.y * b.z - a.z * b.y) * b.x + (a.z * b.x - a.x * b.z) * b.y
        + (a.x * b.y - a.y * b.x) * b.z == 0) by (nonlinear_arith);
}

} // verus!
