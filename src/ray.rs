//! Rays: an origin and a direction, with points along them at a parameter.
use vstd::prelude::*;
use vstd::arithmetic::div_mod::lemma_div_is_ordered;
use crate::fixed::{add_fx, diff, lemma_prod_le, mul_fx, prod, sub_fx, sum, ONE, SCALE};
use crate::vector::{lemma_unit_components, unit_vector, Color, Point3, Vec3};

verus! {

/// Raw value of one half.
pub const HALF: i64 = 500_000;

/// The sky color straight up: light blue.
pub open spec fn sky_top() -> Color {
    Vec3 { x: HALF, y: 700_000, z: ONE }
}

/// The sky color at the horizon: white.
pub open spec fn sky_bottom() -> Color {
    Vec3 { x: ONE, y: ONE, z: ONE }
}

/// The blend factor of the sky for a direction: `0.5 (unit(d).y + 1)`.
pub open spec fn sky_blend(dir: Vec3) -> int {
    prod(HALF as int, sum(dir.unit().y as int, ONE as int))
}

/// The sky seen along a direction: white at the horizon, light blue at the
/// zenith, blended linearly by the height of the unit direction.
pub open spec fn sky(dir: Vec3) -> Color {
    sky_bottom().scaled(diff(ONE as int, sky_blend(dir))).plus(sky_top().scaled(sky_blend(dir)))
}

#[derive(Debug, Clone, Copy, PartialEq, Eq, Structural)]
pub struct Ray {
    pub orig: Point3,
    pub dir: Vec3,
}

impl Ray {
    pub open spec fn point_at(self, t: int) -> Point3 {
        self.orig.plus(self.dir.scaled(t))
    }

    pub fn new(orig: Point3, dir: Vec3) -> (r: Ray)
        ensures
            r.orig == orig,
            r.dir == dir,
    {
        Ray { orig, dir }
    }

    pub fn origin(&self) -> (r: Point3)
        ensures
            r == self.orig,
    {
        self.orig
    }

    pub fn direction(&self) -> (r: Vec3)
        ensures
            r == self.dir,
    {
        self.dir
    }

    /// The point `origin + t direction`.
    pub fn at(&self, t: i64) -> (r: Point3)
        ensures
            r == self.point_at(t as int),
            r.wf(),
    {
        self.orig.add(self.dir.scale(t))
    }

    /// The sky seen along this ray.
    pub fn color(&self) -> (r: Color)
        ensures
            r == sky(self.dir),
    {
        let unit_direction = unit_vector(self.dir);
        let a = mul_fx(HALF, add_fx(unit_direction.y, ONE));
        let bottom = Vec3::new(ONE, ONE, ONE);
        let top = Vec3::new(HALF, 700_000, ONE);
        bottom.scale(sub_fx(ONE, a)).add(top.scale(a))
    }
}

/// The sky is a color in range.
pub proof fn lemma_sky_wf(dir: Vec3)
    ensures
        sky(dir).wf(),
{
    crate::fixed::lemma_sat_in_range(
        sum(prod(ONE as int, diff(ONE as int, sky_blend(dir))), prod(HALF as int, sky_blend(dir))),
    );
}

/// The sky's channels lie in `[0, 1]` for any in-range direction.
pub proof fn lemma_sky_bounded(dir: Vec3)
    requires
        dir.wf(),
    ensures
        0 <= sky(dir).x <= ONE,
        0 <= sky(dir).y <= ONE,
        0 <= sky(dir).z <= ONE,
{
    lemma_unit_components(dir);
    let k = sum(dir.unit().y as int, ONE as int);
    assert(0 <= k <= 2 * ONE);
    let a = sky_blend(dir);
    lemma_prod_le(k, HALF as int);
    assert(HALF * k == k * HALF);
    assert(a <= ONE) by {
        lemma_div_is_ordered(HALF * k, HALF * (2 * ONE), SCALE as int);
    }
    assert(0 <= a);
    let m = diff(ONE as int, a);
    assert(ONE * m == m * ONE);
    assert((m * ONE) / (SCALE as int) == m);
    lemma_prod_le(a, HALF as int);
    lemma_prod_le(a, 700_000);
    assert(HALF * a == a * HALF);
    assert(700_000 * a == a * 700_000);
    assert(ONE * a == a * ONE);
    assert((a * ONE) / (SCALE as int) == a);
}

} // verus!
