//! Three-component vectors of fixed-point scalars, used as points,
//! directions and colors.
use vstd::prelude::*;
use vstd::arithmetic::div_mod::{
    lemma_div_is_ordered, lemma_div_pos_is_pos, lemma_fundamental_div_mod, lemma_mod_pos_bound,
};
use rand::rngs::StdRng;
use crate::fixed::{
    abs, add_fx, diff, div_fx, in_range, int_sqrt, is_isqrt, lemma_int_sqrt, mul_fx, norm, norm_fx,
    prod, quot, root, sat, sqrt_fx, sub_fx, sum, tdiv, LIMIT, ONE, SCALE,
};
use crate::random::{random_scalar, random_scalar_in_range};

verus! {

/// Attempts a rejection sampler makes before it settles for a fixed answer;
/// each attempt is accepted with probability above one half.
pub const SAMPLE_ATTEMPTS: u32 = 64;

#[derive(Debug, Clone, Copy, PartialEq, Eq, Structural)]
pub struct Vec3 {
    pub x: i64,
    pub y: i64,
    pub z: i64,
}

/// A color is a vector of linear channel intensities.
pub type Color = Vec3;

/// A point is a vector from the origin.
pub type Point3 = Vec3;

pub open spec fn vec3(x: int, y: int, z: int) -> Vec3 {
    Vec3 { x: x as i64, y: y as i64, z: z as i64 }
}

pub open spec fn dot_spec(a: Vec3, b: Vec3) -> int {
    sum(sum(prod(a.x as int, b.x as int), prod(a.y as int, b.y as int)), prod(a.z as int, b.z as int))
}

pub open spec fn cross_spec(a: Vec3, b: Vec3) -> Vec3 {
    vec3(
        diff(prod(a.y as int, b.z as int), prod(a.z as int, b.y as int)),
        diff(prod(a.z as int, b.x as int), prod(a.x as int, b.z as int)),
        diff(prod(a.x as int, b.y as int), prod(a.y as int, b.x as int)),
    )
}

impl Vec3 {
    /// Every component lies in the representable range.
    pub open spec fn wf(self) -> bool {
        in_range(self.x as int) && in_range(self.y as int) && in_range(self.z as int)
    }

    pub open spec fn plus(self, o: Vec3) -> Vec3 {
        vec3(sum(self.x as int, o.x as int), sum(self.y as int, o.y as int), sum(self.z as int, o.z as int))
    }

    pub open spec fn minus(self, o: Vec3) -> Vec3 {
        vec3(diff(self.x as int, o.x as int), diff(self.y as int, o.y as int), diff(self.z as int, o.z as int))
    }

    pub open spec fn times(self, o: Vec3) -> Vec3 {
        vec3(prod(self.x as int, o.x as int), prod(self.y as int, o.y as int), prod(self.z as int, o.z as int))
    }

    pub open spec fn scaled(self, k: int) -> Vec3 {
        vec3(prod(self.x as int, k), prod(self.y as int, k), prod(self.z as int, k))
    }

    pub open spec fn divided(self, k: int) -> Vec3 {
        vec3(quot(self.x as int, k), quot(self.y as int, k), quot(self.z as int, k))
    }

    pub open spec fn negated(self) -> Vec3 {
        vec3(diff(0, self.x as int), diff(0, self.y as int), diff(0, self.z as int))
    }

    pub open spec fn len2(self) -> int {
        dot_spec(self, self)
    }

    /// The length, from the exact sum of squares.
    pub open spec fn len(self) -> int {
        norm(self.x as int, self.y as int, self.z as int)
    }

    pub open spec fn is_near_zero(self) -> bool {
        self.x == 0 && self.y == 0 && self.z == 0
    }

    /// The direction of a vector; a vector of length zero has none and is
    /// kept as it is.
    pub open spec fn unit(self) -> Vec3 {
        if self.len() == 0 {
            self
        } else {
            self.divided(self.len())
        }
    }

    pub fn new(x: i64, y: i64, z: i64) -> (r: Vec3)
        ensures
            r == (Vec3 { x, y, z }),
    {
        Vec3 { x, y, z }
    }

    pub fn x(&self) -> (r: i64)
        ensures
            r == self.x,
    {
        self.x
    }

    pub fn y(&self) -> (r: i64)
        ensures
            r == self.y,
    {
        self.y
    }

    pub fn z(&self) -> (r: i64)
        ensures
            r == self.z,
    {
        self.z
    }

    pub fn add(self, o: Vec3) -> (r: Vec3)
        ensures
            r == self.plus(o),
            r.wf(),
    {
        Vec3 { x: add_fx(self.x, o.x), y: add_fx(self.y, o.y), z: add_fx(self.z, o.z) }
    }

    pub fn add_assign(&mut self, o: Vec3)
        ensures
            *final(self) == old(self).plus(o),
    {
        *self = self.add(o);
    }

    pub fn sub(self, o: Vec3) -> (r: Vec3)
        ensures
            r == self.minus(o),
            r.wf(),
    {
        Vec3 { x: sub_fx(self.x, o.x), y: sub_fx(self.y, o.y), z: sub_fx(self.z, o.z) }
    }

    /// Componentwise product.
    pub fn mul(self, o: Vec3) -> (r: Vec3)
        ensures
            r == self.times(o),
            r.wf(),
    {
        Vec3 { x: mul_fx(self.x, o.x), y: mul_fx(self.y, o.y), z: mul_fx(self.z, o.z) }
    }

    /// Product with a scalar.
    pub fn scale(self, k: i64) -> (r: Vec3)
        ensures
            r == self.scaled(k as int),
            r.wf(),
    {
        Vec3 { x: mul_fx(self.x, k), y: mul_fx(self.y, k), z: mul_fx(self.z, k) }
    }

    /// Quotient by a scalar.
    pub fn div(self, k: i64) -> (r: Vec3)
        ensures
            r == self.divided(k as int),
            r.wf(),
    {
        Vec3 { x: div_fx(self.x, k), y: div_fx(self.y, k), z: div_fx(self.z, k) }
    }

    pub fn neg(self) -> (r: Vec3)
        ensures
            r == self.negated(),
            r.wf(),
    {
        Vec3 { x: sub_fx(0, self.x), y: sub_fx(0, self.y), z: sub_fx(0, self.z) }
    }

    pub fn length_squared(&self) -> (r: i64)
        ensures
            r == self.len2(),
            in_range(r as int),
    {
        dot(*self, *self)
    }

    pub fn length(&self) -> (r: i64)
        ensures
            r == self.len(),
            0 <= r <= LIMIT,
    {
        norm_fx(self.x, self.y, self.z)
    }

    /// All components are below one step of the grid, that is zero.
    pub fn near_zero(&self) -> (r: bool)
        ensures
            r == self.is_near_zero(),
    {
        self.x == 0 && self.y == 0 && self.z == 0
    }
}

pub fn dot(a: Vec3, b: Vec3) -> (r: i64)
    ensures
        r == dot_spec(a, b),
        in_range(r as int),
{
    add_fx(add_fx(mul_fx(a.x, b.x), mul_fx(a.y, b.y)), mul_fx(a.z, b.z))
}

pub fn cross(a: Vec3, b: Vec3) -> (r: Vec3)
    ensures
        r == cross_spec(a, b),
        r.wf(),
{
    Vec3 {
        x: sub_fx(mul_fx(a.y, b.z), mul_fx(a.z, b.y)),
        y: sub_fx(mul_fx(a.z, b.x), mul_fx(a.x, b.z)),
        z: sub_fx(mul_fx(a.x, b.y), mul_fx(a.y, b.x)),
    }
}

/// The vector divided by its length; the zero-length vector is returned
/// unchanged.
pub fn unit_vector(v: Vec3) -> (r: Vec3)
    ensures
        r == v.unit(),
{
    let l = v.length();
    if l == 0 {
        v
    } else {
        v.div(l)
    }
}

/// Mirror image of `v` about the plane with normal `n`: `v - 2 (v.n) n`.
pub open spec fn reflect_spec(v: Vec3, n: Vec3) -> Vec3 {
    v.minus(n.scaled(sum(dot_spec(v, n), dot_spec(v, n))))
}

/// Refraction of the unit direction `uv` through a surface of unit normal
/// `n`: the part across the normal scaled by `ri`, plus the part along the
/// normal that completes a unit vector.
pub open spec fn refract_spec(uv: Vec3, n: Vec3, ri: int) -> Vec3 {
    refract_perp(uv, n, ri).plus(n.scaled(diff(0, root(diff(ONE as int, refract_perp(uv, n, ri).len2())))))
}

/// Mirror image of `v` about the plane with normal `n`.
pub fn reflect(v: &Vec3, n: &Vec3) -> (r: Vec3)
    ensures
        r == reflect_spec(*v, *n),
        r.wf(),
{
    let d = dot(*v, *n);
    v.sub(n.scale(add_fx(d, d)))
}

pub open spec fn refract_perp(uv: Vec3, n: Vec3, ri: int) -> Vec3 {
    uv.plus(n.scaled(min_one(dot_spec(uv.negated(), n)))).scaled(ri)
}

pub open spec fn min_one(c: int) -> int {
    if c < ONE {
        c
    } else {
        ONE as int
    }
}

/// Snell's law for the unit direction `uv` meeting a surface of unit normal
/// `n`, with `ri` the ratio of refractive indices.
pub fn refract(uv: &Vec3, n: &Vec3, ri: i64) -> (r: Vec3)
    ensures
        r == refract_spec(*uv, *n, ri as int),
        r.wf(),
{
    let d = dot(uv.neg(), *n);
    let cos_theta = if d < ONE {
        d
    } else {
        ONE
    };
    let perp = uv.add(n.scale(cos_theta)).scale(ri);
    let along = sqrt_fx(sub_fx(ONE, perp.length_squared()));
    perp.add(n.scale(sub_fx(0, along)))
}

/// The dot product is symmetric, the cross product antisymmetric, and the
/// squared length of a vector is its dot product with itself.
pub proof fn lemma_products_symmetry(a: Vec3, b: Vec3)
    ensures
        dot_spec(a, b) == dot_spec(b, a),
        cross_spec(a, b) == cross_spec(b, a).negated(),
        a.len2() == dot_spec(a, a),
{
    assert forall|p: int, q: int| #[trigger] prod(p, q) == prod(q, p) by {
        assert(p * q == q * p) by (nonlinear_arith);
    }
    assert forall|p: int, q: int| in_range(p) && in_range(q) implies #[trigger] diff(p, q) == diff(0, diff(q, p)) by {}
    let c = cross_spec(b, a);
    let d = cross_spec(a, b);
    assert(in_range(c.x as int) && in_range(c.y as int) && in_range(c.z as int));
    assert(d == c.negated());
}

/// The direction of an in-range vector has components in `[-1, 1]`.
pub proof fn lemma_unit_components(v: Vec3)
    requires
        v.wf(),
    ensures
        -ONE <= v.unit().x <= ONE,
        -ONE <= v.unit().y <= ONE,
        -ONE <= v.unit().z <= ONE,
{
    let (x, y, z) = (v.x as int, v.y as int, v.z as int);
    let n = x * x + y * y + z * z;
    assert(n >= 0 && x * x <= n && y * y <= n && z * z <= n) by (nonlinear_arith)
        requires
            n == x * x + y * y + z * z,
    ;
    lemma_int_sqrt(n);
    let l = v.len();
    if l != 0 {
        lemma_component_le_norm(x, n, l);
        lemma_component_le_norm(y, n, l);
        lemma_component_le_norm(z, n, l);
    } else {
        assert(int_sqrt(n) == 0);
        assert(is_isqrt(n, 0));
        assert(0 * 0 <= n < (0 + 1) * (0 + 1));
        assert(n < 1);
        assert(x == 0 && y == 0 && z == 0) by (nonlinear_arith)
            requires
                x * x + y * y + z * z == 0,
        ;
    }
}

proof fn lemma_component_le_norm(a: int, n: int, l: int)
    requires
        in_range(a),
        a * a <= n,
        is_isqrt(n, int_sqrt(n)),
        l == sat(int_sqrt(n)),
        l != 0,
    ensures
        -ONE <= quot(a, l) <= ONE,
        abs(a) <= l,
{
    let r = int_sqrt(n);
    assert(abs(a) <= l) by {
        if r <= LIMIT {
            assert(abs(a) < r + 1) by (nonlinear_arith)
                requires
                    a * a <= n,
                    n < (r + 1) * (r + 1),
                    r >= 0,
                    abs(a) == (if a < 0 { -a } else { a }),
            ;
        }
    }
    assert(l > 0);
    assert(abs(a) * SCALE <= l * SCALE) by (nonlinear_arith)
        requires
            abs(a) <= l,
            SCALE > 0,
    ;
    lemma_div_is_ordered(abs(a) * SCALE, l * SCALE, l);
    assert((l * SCALE) / l == SCALE) by (nonlinear_arith)
        requires
            l > 0,
    ;
    assert(abs(a * SCALE) == abs(a) * SCALE) by (nonlinear_arith)
        requires
            abs(a) == (if a < 0 { -a } else { a }),
            abs(a * SCALE) == (if a * SCALE < 0 { -(a * SCALE) } else { a * SCALE }),
            SCALE > 0,
    ;
}

/// The square of a moderate scalar, on the grid.
proof fn lemma_prod_self(a: int)
    requires
        abs(a) <= 1_000_000_000,
    ensures
        prod(a, a) == (a * a) / (SCALE as int),
        0 <= prod(a, a),
        prod(a, a) * SCALE <= a * a < prod(a, a) * SCALE + SCALE,
        prod(a, a) <= 1_000_000_000_000,
{
    assert(0 <= a * a <= 1_000_000_000_000_000_000) by (nonlinear_arith)
        requires
            abs(a) <= 1_000_000_000,
            abs(a) == (if a < 0 { -a } else { a }),
    ;
    let q = (a * a) / (SCALE as int);
    lemma_fundamental_div_mod(a * a, SCALE as int);
    lemma_mod_pos_bound(a * a, SCALE as int);
    lemma_div_pos_is_pos(a * a, SCALE as int);
    lemma_div_is_ordered(a * a, 1_000_000_000_000_000_000, SCALE as int);
    assert(q * SCALE <= a * a < q * SCALE + SCALE) by (nonlinear_arith)
        requires
            a * a == SCALE * q + (a * a) % (SCALE as int),
            0 <= (a * a) % (SCALE as int) < SCALE,
    ;
}

/// Normalizing a non-zero vector whose length is representable gives a
/// squared length within ten grid steps below one and `3 / length` above
/// it: `ONE - 10 <= |u|^2` and `|u|^2 * length <= ONE * length + 3 ONE`,
/// the length counted in grid steps.
pub proof fn lemma_unit_vector_length(v: Vec3)
    requires
        v.wf(),
        0 < v.len() < LIMIT,
    ensures
        ONE - 10 <= v.unit().len2(),
        v.unit().len2() * v.len() <= ONE * v.len() + 3 * ONE,
{
    let s = SCALE as int;
    let (x, y, z) = (v.x as int, v.y as int, v.z as int);
    let n = x * x + y * y + z * z;
    assert(n >= 0 && x * x <= n && y * y <= n && z * z <= n) by (nonlinear_arith)
        requires
            n == x * x + y * y + z * z,
    ;
    lemma_int_sqrt(n);
    let l = v.len();
    assert(l == int_sqrt(n));
    assert(l * l <= n < (l + 1) * (l + 1));
    lemma_unit_components(v);
    lemma_component_le_norm(x, n, l);
    lemma_component_le_norm(y, n, l);
    lemma_component_le_norm(z, n, l);
    lemma_quot_floor(x, l);
    lemma_quot_floor(y, l);
    lemma_quot_floor(z, l);
    let u = v.unit();
    let (ux, uy, uz) = (u.x as int, u.y as int, u.z as int);
    assert(ux == quot(x, l) && uy == quot(y, l) && uz == quot(z, l));
    lemma_prod_self(ux);
    lemma_prod_self(uy);
    lemma_prod_self(uz);
    let m2 = u.len2();
    assert(m2 == prod(ux, ux) + prod(uy, uy) + prod(uz, uz));
    let (ax, ay, az) = (abs(ux), abs(uy), abs(uz));
    assert(ux * ux == ax * ax && uy * uy == ay * ay && uz * uz == az * az) by (nonlinear_arith)
        requires
            ax == (if ux < 0 { -ux } else { ux }),
            ay == (if uy < 0 { -uy } else { uy }),
            az == (if uz < 0 { -uz } else { uz }),
    ;
    assert(x * x == abs(x) * abs(x) && y * y == abs(y) * abs(y) && z * z == abs(z) * abs(z))
        by (nonlinear_arith)
        requires
            abs(x) == (if x < 0 { -x } else { x }),
            abs(y) == (if y < 0 { -y } else { y }),
            abs(z) == (if z < 0 { -z } else { z }),
    ;
    lemma_component_bounds(ax, abs(x), l, s);
    lemma_component_bounds(ay, abs(y), l, s);
    lemma_component_bounds(az, abs(z), l, s);
    let big_u = ax * ax + ay * ay + az * az;
    // upper bound
    assert(big_u * (l * l) <= s * s * n) by (nonlinear_arith)
        requires
            ax * ax * (l * l) <= abs(x) * abs(x) * (s * s),
            ay * ay * (l * l) <= abs(y) * abs(y) * (s * s),
            az * az * (l * l) <= abs(z) * abs(z) * (s * s),
            big_u == ax * ax + ay * ay + az * az,
            n == abs(x) * abs(x) + abs(y) * abs(y) + abs(z) * abs(z),
    ;
    assert((l + 1) * (l + 1) == l * l + 2 * l + 1) by (nonlinear_arith);
    assert(s * s * n < s * s * (l * l) + 3 * s * s * l) by (nonlinear_arith)
        requires
            n < l * l + 2 * l + 1,
            l >= 1,
            s > 0,
    ;
    assert(big_u * l < s * s * l + 3 * s * s) by (nonlinear_arith)
        requires
            big_u * (l * l) < s * s * (l * l) + 3 * s * s * l,
            l >= 1,
    ;
    assert(s * m2 <= big_u && big_u < s * m2 + 3 * s) by (nonlinear_arith)
        requires
            m2 == prod(ux, ux) + prod(uy, uy) + prod(uz, uz),
            prod(ux, ux) * s <= ux * ux < prod(ux, ux) * s + s,
            prod(uy, uy) * s <= uy * uy < prod(uy, uy) * s + s,
            prod(uz, uz) * s <= uz * uz < prod(uz, uz) * s + s,
            big_u == ux * ux + uy * uy + uz * uz,
    ;
    assert(m2 * l <= s * l + 3 * s) by (nonlinear_arith)
        requires
            s * m2 <= big_u,
            big_u * l < s * s * l + 3 * s * s,
            l >= 1,
            s > 0,
    ;
    // lower bound
    assert((ax + 1) * (ax + 1) * (l * l) + (ay + 1) * (ay + 1) * (l * l) + (az + 1) * (az + 1) * (
    l * l) > s * s * (l * l)) by (nonlinear_arith)
        requires
            abs(x) * abs(x) * (s * s) < (ax + 1) * (ax + 1) * (l * l),
            abs(y) * abs(y) * (s * s) < (ay + 1) * (ay + 1) * (l * l),
            abs(z) * abs(z) * (s * s) < (az + 1) * (az + 1) * (l * l),
            n == abs(x) * abs(x) + abs(y) * abs(y) + abs(z) * abs(z),
            n >= l * l,
            s > 0,
    ;
    assert(big_u + 2 * (ax + ay + az) + 3 > s * s) by (nonlinear_arith)
        requires
            (ax + 1) * (ax + 1) * (l * l) + (ay + 1) * (ay + 1) * (l * l) + (az + 1) * (az + 1) * (
            l * l) > s * s * (l * l),
            big_u == ax * ax + ay * ay + az * az,
            l > 0,
    ;
}

/// `quot(a, l)` for `|a| <= l`: the truncated quotient, at most one.
proof fn lemma_quot_floor(a: int, l: int)
    requires
        abs(a) <= l,
        l >= 1,
    ensures
        abs(quot(a, l)) == (abs(a) * SCALE) / l,
        abs(quot(a, l)) * l <= abs(a) * SCALE < (abs(quot(a, l)) + 1) * l,
        abs(quot(a, l)) <= SCALE,
{
    let w = abs(a) * SCALE;
    assert(abs(a) >= 0);
    assert(0 <= w <= l * SCALE) by (nonlinear_arith)
        requires
            w == abs(a) * SCALE,
            0 <= abs(a) <= l,
            SCALE > 0,
    ;
    let q = w / l;
    lemma_fundamental_div_mod(w, l);
    lemma_mod_pos_bound(w, l);
    lemma_div_pos_is_pos(w, l);
    assert(q * l <= w < (q + 1) * l) by (nonlinear_arith)
        requires
            w == l * q + w % l,
            0 <= w % l < l,
    ;
    assert(q <= SCALE) by (nonlinear_arith)
        requires
            q * l <= w,
            w <= l * SCALE,
            l >= 1,
    ;
    assert(abs(a * SCALE) == w) by (nonlinear_arith)
        requires
            w == abs(a) * SCALE,
            abs(a) == (if a < 0 { -a } else { a }),
            abs(a * SCALE) == (if a * SCALE < 0 { -(a * SCALE) } else { a * SCALE }),
            SCALE > 0,
    ;
}

/// `a' = floor(a s / l)` satisfies `a'^2 l^2 <= a^2 s^2 < (a' + 1)^2 l^2`.
proof fn lemma_component_bounds(q: int, a: int, l: int, s: int)
    requires
        q * l <= a * s < (q + 1) * l,
        q >= 0,
        a >= 0,
        l > 0,
        s > 0,
    ensures
        q * q * (l * l) <= a * a * (s * s),
        a * a * (s * s) < (q + 1) * (q + 1) * (l * l),
{
    assert(q * q * (l * l) <= a * a * (s * s)) by (nonlinear_arith)
        requires
            0 <= q * l <= a * s,
    ;
    assert(a * a * (s * s) < (q + 1) * (q + 1) * (l * l)) by (nonlinear_arith)
        requires
            0 <= a * s < (q + 1) * l,
    ;
}


/// Each component drawn uniformly from `[0, 1)`.
pub fn random(rng: &mut StdRng) -> (r: Vec3)
    ensures
        0 <= r.x < ONE,
        0 <= r.y < ONE,
        0 <= r.z < ONE,
{
    Vec3 { x: random_scalar(rng), y: random_scalar(rng), z: random_scalar(rng) }
}

/// Each component drawn uniformly from `[min, max)`.
pub fn random_in_range(rng: &mut StdRng, min: i64, max: i64) -> (r: Vec3)
    requires
        min < max,
    ensures
        min <= r.x < max,
        min <= r.y < max,
        min <= r.z < max,
{
    Vec3 {
        x: random_scalar_in_range(rng, min, max),
        y: random_scalar_in_range(rng, min, max),
        z: random_scalar_in_range(rng, min, max),
    }
}

/// A point strictly inside the unit ball, not at its center.
pub open spec fn in_unit_ball(p: Vec3) -> bool {
    -ONE <= p.x < ONE && -ONE <= p.y < ONE && -ONE <= p.z < ONE && 0 < p.len2() < ONE
}

/// The rejection test of the ball sampler: a drawn point is kept when it
/// lies strictly inside the unit ball and off its center.
pub fn ball_candidate(p: Vec3) -> (r: Option<Vec3>)
    ensures
        r == (if 0 < p.len2() < ONE {
            Some(p)
        } else {
            None
        }),
{
    let l = p.length_squared();
    if 0 < l && l < ONE {
        Some(p)
    } else {
        None
    }
}

/// A point of the unit ball, by rejection from the cube `[-1, 1)^3`; after
/// the last attempt the answer is the point `(0, 0, 1/2)`.
pub fn random_in_unit_sphere(rng: &mut StdRng) -> (r: Vec3)
    ensures
        in_unit_ball(r),
{
    let mut i: u32 = 0;
    while i < SAMPLE_ATTEMPTS
        decreases SAMPLE_ATTEMPTS - i,
    {
        let p = random_in_range(rng, -ONE, ONE);
        if let Some(q) = ball_candidate(p) {
            return q;
        }
        i = i + 1;
    }
    let fallback = Vec3 { x: 0, y: 0, z: ONE / 2 };
    assert(500_000int * 500_000int == 250_000_000_000int) by (nonlinear_arith);
    assert(250_000_000_000int / 1_000_000int == 250_000) by (nonlinear_arith);
    assert(tdiv(250_000_000_000, 1_000_000) == 250_000);
    assert(prod(500_000, 500_000) == 250_000);
    assert(fallback.len2() == 250_000);
    fallback
}

/// The direction of a point drawn from the unit ball, which is uniform over
/// the directions.
pub fn random_unit_vector(rng: &mut StdRng) -> (r: Vec3)
    ensures
        exists|p: Vec3| in_unit_ball(p) && r == #[trigger] p.unit(),
{
    let p = random_in_unit_sphere(rng);
    let r = unit_vector(p);
    assert(in_unit_ball(p) && r == p.unit());
    r
}

/// A unit direction on the side of the surface that `normal` points to.
pub fn random_on_hemisphere(rng: &mut StdRng, normal: Vec3) -> (r: Vec3)
    ensures
        exists|p: Vec3|
            in_unit_ball(p) && if dot_spec(#[trigger] p.unit(), normal) > 0 {
                r == p.unit()
            } else {
                r == p.unit().negated()
            },
{
    let on_unit_sphere = random_unit_vector(rng);
    if dot(on_unit_sphere, normal) > 0 {
        on_unit_sphere
    } else {
        on_unit_sphere.neg()
    }
}

} // verus!
