//! The camera: its viewing frame, the rays it casts through each pixel,
//! the recursive color integrator, and the render loop.
use vstd::prelude::*;
use rand::rngs::StdRng;
use vstd::arithmetic::div_mod::lemma_fundamental_div_mod_converse;
use crate::color::{channel_byte, encoded};
use crate::fixed::{
    add_fx, div_fx, lemma_quot_nonneg, mul_fx, prod, quot, sum, LIMIT, ONE, SCALE,
};
use crate::hit_record::HitRecord;
use crate::hittable_list::{all_miss, nearest_among, HittableList};
use crate::interval::Interval;
use crate::sphere::Sphere;
use crate::material::{attenuation_of, is_albedo};
use crate::ray::lemma_sky_bounded;
use crate::fixed::lemma_prod_le;
use crate::random::random_scalar_in_range;
use crate::ray::{sky, Ray, HALF};
use crate::vector::{cross, cross_spec, unit_vector, Color, Point3, Vec3, SAMPLE_ATTEMPTS};

verus! {

/// Lower end of the accepted ray parameters: 0.001, which keeps a bounce
/// from hitting the surface it leaves.
pub const HIT_EPSILON: i64 = 1_000;

/// The ray parameters a bounce accepts: `(0.001, +inf)`.
pub open spec fn hit_window() -> Interval {
    Interval { min: HIT_EPSILON, max: LIMIT }
}

pub open spec fn black() -> Color {
    Vec3 { x: 0, y: 0, z: 0 }
}

/// `c` is a color that tracing `ray` through the spheres `objs` with
/// `depth` bounces left can give: black once the bounces are spent; the sky
/// when nothing is hit beyond `0.001`; otherwise, for the nearest hit `rec`
/// and an outcome of its material's scattering, the attenuation times a
/// color that tracing the scattered ray with one bounce less can give, or
/// black when the ray is absorbed.
pub open spec fn admissible_color(objs: Seq<Sphere>, ray: Ray, depth: nat, c: Color) -> bool
    decreases depth,
{
    if depth == 0 {
        c == black()
    } else if all_miss(objs, objs.len() as int, ray, hit_window()) {
        c == sky(ray.dir)
    } else {
        exists|rec: HitRecord, att: Color, s: Ray, ok: bool, below: Color|
            #![trigger nearest_among(objs, objs.len() as int, ray, hit_window(), rec), rec.material.scatters(ray, rec, att, s, ok), below.times(att)]
            nearest_among(objs, objs.len() as int, ray, hit_window(), rec) && rec.material.scatters(
                ray,
                rec,
                att,
                s,
                ok,
            ) && (ok ==> admissible_color(objs, s, (depth - 1) as nat, below)) && c == if ok {
                below.times(att)
            } else {
                black()
            }
    }
}

/// Every surface attenuates each channel by a factor in `[0, 1]`.
pub open spec fn attenuations_bounded(objs: Seq<Sphere>) -> bool {
    forall|i: int| 0 <= i < objs.len() ==> is_albedo(attenuation_of(*(#[trigger] objs[i]).material))
}

proof fn lemma_nearest_bounded(objs: Seq<Sphere>, ray: Ray, rec: HitRecord)
    requires
        attenuations_bounded(objs),
        nearest_among(objs, objs.len() as int, ray, hit_window(), rec),
    ensures
        rec.wf(),
        is_albedo(attenuation_of(*rec.material)),
{
    let i = choose|i: int|
        0 <= i < objs.len() && #[trigger] objs[i].root_in(ray, hit_window()) == Some(rec.t as int)
            && objs[i].is_record(ray, rec.t as int, rec) && (forall|j: int|
            0 <= j < objs.len() && (#[trigger] objs[j].root_in(ray, hit_window())) is Some ==> rec.t
                <= objs[j].root_in(ray, hit_window())->0) && (forall|j: int|
            0 <= j < i && (#[trigger] objs[j].root_in(ray, hit_window())) is Some ==> rec.t
                < objs[j].root_in(ray, hit_window())->0);
    assert(is_albedo(attenuation_of(*objs[i].material)));
}

proof fn lemma_scatter_attenuation(ray: Ray, rec: HitRecord, att: Color, s: Ray, ok: bool)
    requires
        rec.material.scatters(ray, rec, att, s, ok),
    ensures
        att == attenuation_of(*rec.material),
        rec.wf() ==> s.dir.wf(),
{
}

/// The sum of colors, added left to right.
pub open spec fn sum_colors(cs: Seq<Color>) -> Color
    decreases cs.len(),
{
    if cs.len() == 0 {
        black()
    } else {
        sum_colors(cs.drop_last()).plus(cs.last())
    }
}

/// The average of `n` colors: their sum divided by `n`.
pub open spec fn average(cs: Seq<Color>, n: int) -> Color {
    sum_colors(cs).divided(n * SCALE)
}

/// Black colors sum to black.
pub proof fn lemma_sum_black(cs: Seq<Color>)
    requires
        forall|k: int| 0 <= k < cs.len() ==> #[trigger] cs[k] == black(),
    ensures
        sum_colors(cs) == black(),
    decreases cs.len(),
{
    if cs.len() > 0 {
        lemma_sum_black(cs.drop_last());
    }
}

/// The bytes of a pixel from its samples: their average, encoded.
pub fn pixel_bytes(samples: &Vec<Color>, samples_per_pixel: i32) -> (r: (u8, u8, u8))
    requires
        samples_per_pixel >= 1,
    ensures
        r == encoded(average(samples@, samples_per_pixel as int)),
{
    let mut total = Vec3::new(0, 0, 0);
    let mut k: usize = 0;
    while k < samples.len()
        invariant
            k <= samples@.len(),
            total == sum_colors(samples@.subrange(0, k as int)),
        decreases samples@.len() - k,
    {
        proof {
            assert(samples@.subrange(0, k + 1).drop_last() =~= samples@.subrange(0, k as int));
        }
        total.add_assign(samples[k]);
        k = k + 1;
    }
    proof {
        assert(samples@.subrange(0, samples@.len() as int) =~= samples@);
    }
    total.div(samples_per_pixel as i64 * SCALE).to_bytes()
}

/// A point of the unit disk in the plane `z = 0`.
pub open spec fn in_unit_disk(p: Vec3) -> bool {
    -ONE <= p.x < ONE && -ONE <= p.y < ONE && p.z == 0 && p.len2() < ONE
}

/// Rows of the image: `width / aspect_ratio`, rounded, and at least one.
pub open spec fn image_height_of(image_width: int, aspect_ratio: int) -> int {
    let rows = (quot(image_width * SCALE, aspect_ratio) + SCALE / 2) / (SCALE as int);
    if rows < 1 {
        1
    } else {
        rows
    }
}

/// The camera that a viewing specification determines.
///
/// `vertical_fov` and `defocus_angle` are given by the tangent of half the
/// angle, which is all the geometry needs of them.
pub open spec fn camera_spec(
    image_width: i32,
    aspect_ratio: i64,
    vertical_fov: i64,
    look_from: Point3,
    look_at: Point3,
    vup: Vec3,
    samples_per_pixel: i32,
    max_depth: u32,
    defocus_angle: i64,
    focus_dist: i64,
) -> Camera {
    let image_height = image_height_of(image_width as int, aspect_ratio as int);
    let viewport_height = prod(2 * ONE, prod(vertical_fov as int, focus_dist as int));
    let viewport_width = prod(
        viewport_height,
        quot(image_width * SCALE, image_height * SCALE),
    );
    let w = look_from.minus(look_at).unit();
    let u = cross_spec(vup, w).unit();
    let v = cross_spec(w, u);
    let viewport_u = u.scaled(viewport_width);
    let viewport_v = v.negated().scaled(viewport_height);
    let pixel_delta_u = viewport_u.divided(image_width * SCALE);
    let pixel_delta_v = viewport_v.divided(image_height * SCALE);
    let upper_left = look_from.minus(w.scaled(focus_dist as int)).minus(
        viewport_u.divided(2 * ONE),
    ).minus(viewport_v.divided(2 * ONE));
    Camera {
        image_width,
        image_height: image_height as i32,
        samples_per_pixel,
        max_depth,
        u,
        v,
        center: look_from,
        pixel00_loc: upper_left.plus(pixel_delta_u.plus(pixel_delta_v).scaled(HALF as int)),
        pixel_delta_u,
        pixel_delta_v,
        lens_radius: prod(defocus_angle as int, focus_dist as int) as i64,
    }
}

/// A derived, immutable ray-generation frame.
pub struct Camera {
    pub image_width: i32,
    pub image_height: i32,
    pub samples_per_pixel: i32,
    pub max_depth: u32,
    /// Unit vector to the right of the view.
    pub u: Vec3,
    /// Unit vector up the view.
    pub v: Vec3,
    pub center: Point3,
    /// Center of the upper-left pixel.
    pub pixel00_loc: Point3,
    pub pixel_delta_u: Vec3,
    pub pixel_delta_v: Vec3,
    pub lens_radius: i64,
}

impl Camera {
    /// `r` is a ray that `get_ray(i, j)` can cast.
    pub open spec fn admits_ray(self, i: int, j: int, r: Ray) -> bool {
        exists|ox: int, oy: int, d: Vec3|
            0 <= ox < ONE && 0 <= oy < ONE && in_unit_disk(d) && r == #[trigger] self.ray_through(
                i,
                j,
                ox,
                oy,
                d,
            )
    }

    /// `c` is a color that one sample of pixel `(i, j)` can give.
    pub open spec fn sample_ok(self, objs: Seq<Sphere>, i: int, j: int, c: Color) -> bool {
        exists|r: Ray|
            #[trigger] self.admits_ray(i, j, r) && admissible_color(objs, r, self.max_depth as nat, c)
    }

    /// `p` is what pixel `(i, j)` can be: the encoded average of
    /// `samples_per_pixel` sample colors.
    pub open spec fn is_pixel(self, objs: Seq<Sphere>, i: int, j: int, p: (u8, u8, u8)) -> bool {
        exists|cs: Seq<Color>|
            cs.len() == self.samples_per_pixel && (forall|k: int|
                0 <= k < cs.len() ==> self.sample_ok(objs, i, j, #[trigger] cs[k])) && p == encoded(
                #[trigger] average(cs, self.samples_per_pixel as int),
            )
    }

    /// The ray through pixel `(i, j)` jittered by `(ox, oy)` within the
    /// pixel, leaving the lens at the unit-disk point `d`.
    pub open spec fn ray_through(self, i: int, j: int, ox: int, oy: int, d: Vec3) -> Ray {
        let sample = self.pixel00_loc.plus(self.pixel_delta_u.scaled(sum(i * SCALE, ox))).plus(
            self.pixel_delta_v.scaled(sum(j * SCALE, oy)),
        );
        let rd = d.scaled(self.lens_radius as int);
        let origin = self.center.plus(self.u.scaled(rd.x as int).plus(self.v.scaled(rd.y as int)));
        Ray { orig: origin, dir: sample.minus(origin) }
    }

    /// Sets up the viewing frame: the basis `u, v, w` from the view, the
    /// viewport at the focus distance, the pixel grid on it, and the lens.
    pub fn new(
        image_width: i32,
        aspect_ratio: i64,
        vertical_fov: i64,
        look_from: Point3,
        look_at: Point3,
        vup: Vec3,
        samples_per_pixel: i32,
        max_depth: u32,
        defocus_angle: i64,
        focus_dist: i64,
    ) -> (c: Camera)
        requires
            image_width > 0,
            aspect_ratio > 0,
        ensures
            c == camera_spec(
                image_width,
                aspect_ratio,
                vertical_fov,
                look_from,
                look_at,
                vup,
                samples_per_pixel,
                max_depth,
                defocus_angle,
                focus_dist,
            ),
    {
        let width_fx: i64 = image_width as i64 * SCALE;
        let rows = div_fx(width_fx, aspect_ratio);
        proof {
            lemma_quot_nonneg(width_fx as int, aspect_ratio as int);
        }
        let rounded: i64 = (rows + SCALE / 2) / SCALE;
        let image_height: i64 = if rounded < 1 {
            1
        } else {
            rounded
        };
        assert(image_height <= 10_000_001);
        let height_fx: i64 = image_height * SCALE;
        let viewport_height = mul_fx(2 * ONE, mul_fx(vertical_fov, focus_dist));
        let viewport_width = mul_fx(viewport_height, div_fx(width_fx, height_fx));
        let center = look_from;
        let w = unit_vector(look_from.sub(look_at));
        let u = unit_vector(cross(vup, w));
        let v = cross(w, u);
        let viewport_u = u.scale(viewport_width);
        let viewport_v = v.neg().scale(viewport_height);
        let pixel_delta_u = viewport_u.div(width_fx);
        let pixel_delta_v = viewport_v.div(height_fx);
        let viewport_upper_left = center.sub(w.scale(focus_dist)).sub(viewport_u.div(2 * ONE)).sub(
            viewport_v.div(2 * ONE),
        );
        let pixel00_loc = viewport_upper_left.add(pixel_delta_u.add(pixel_delta_v).scale(HALF));
        let lens_radius = mul_fx(defocus_angle, focus_dist);
        Camera {
            image_width,
            image_height: image_height as i32,
            samples_per_pixel,
            max_depth,
            u,
            v,
            center,
            pixel00_loc,
            pixel_delta_u,
            pixel_delta_v,
            lens_radius,
        }
    }

    /// The color seen along a ray with `remaining_depth` bounces left:
    /// black once the bounces are spent; the sky when nothing in the world
    /// is hit beyond `0.001`; otherwise the attenuation of the nearest
    /// surface times the color seen along the scattered ray (`below`), or
    /// black when the surface absorbs the ray.
    pub fn ray_color(
        ray: &Ray,
        world: &HittableList,
        remaining_depth: u32,
        rng: &mut StdRng,
    ) -> (r: Color)
        ensures
            remaining_depth == 0 ==> r == black(),
            remaining_depth > 0 && all_miss(
                world.objects@,
                world.objects@.len() as int,
                *ray,
                hit_window(),
            ) ==> r == sky(ray.dir),
            admissible_color(world.objects@, *ray, remaining_depth as nat, r),
            r.wf(),
            attenuations_bounded(world.objects@) && ray.dir.wf() ==> 0 <= r.x <= ONE && 0 <= r.y
                <= ONE && 0 <= r.z <= ONE,
        decreases remaining_depth,
    {
        if remaining_depth == 0 {
            return Vec3::new(0, 0, 0);
        }
        let hit_record = world.hit(ray, &Interval::new(HIT_EPSILON, LIMIT));
        match hit_record {
            Some(record) => {
                let mut scattered_ray = Ray::new(Vec3::new(0, 0, 0), Vec3::new(0, 0, 0));
                let mut attenuation = Vec3::new(0, 0, 0);
                let ok = record.material.scatter(ray, &record, rng, &mut attenuation, &mut scattered_ray);
                let ghost objs = world.objects@;
                assert(!all_miss(objs, objs.len() as int, *ray, hit_window()));
                proof {
                    if attenuations_bounded(objs) {
                        lemma_nearest_bounded(objs, *ray, record);
                        lemma_scatter_attenuation(*ray, record, attenuation, scattered_ray, ok);
                    }
                }
                if ok {
                    let below = Camera::ray_color(&scattered_ray, world, remaining_depth - 1, rng);
                    let c = below.mul(attenuation);
                    proof {
                        if attenuations_bounded(objs) {
                            lemma_prod_le(below.x as int, attenuation.x as int);
                            lemma_prod_le(below.y as int, attenuation.y as int);
                            lemma_prod_le(below.z as int, attenuation.z as int);
                        }
                    }
                    assert(admissible_color(objs, scattered_ray, (remaining_depth - 1) as nat, below));
                    c
                } else {
                    let c = Vec3::new(0, 0, 0);
                    let ghost below = black();
                    let ghost absorbed = below.times(attenuation);
                    c
                }
            },
            None => {
                let c = ray.color();
                proof {
                    crate::ray::lemma_sky_wf(ray.dir);
                    if ray.dir.wf() {
                        lemma_sky_bounded(ray.dir);
                    }
                }
                c
            },
        }
    }

    /// A ray through pixel `(i, j)`: a uniform point of the pixel's square,
    /// seen from a uniform point of the lens disk.
    pub fn get_ray(&self, i: i32, j: i32, rng: &mut StdRng) -> (r: Ray)
        ensures
            self.admits_ray(i as int, j as int, r),
    {
        let offset = Self::sample_square(rng);
        let pixel_sample = self.pixel00_loc.add(
            self.pixel_delta_u.scale(add_fx(i as i64 * SCALE, offset.x)),
        ).add(self.pixel_delta_v.scale(add_fx(j as i64 * SCALE, offset.y)));
        let d = Self::random_in_unit_disk(rng);
        let rd = d.scale(self.lens_radius);
        let lens_offset = self.u.scale(rd.x).add(self.v.scale(rd.y));
        let ray_origin = self.center.add(lens_offset);
        let ray_direction = pixel_sample.sub(ray_origin);
        let r = Ray::new(ray_origin, ray_direction);
        assert(r == self.ray_through(i as int, j as int, offset.x as int, offset.y as int, d));
        r
    }

    /// The rejection test of the lens sampler: the drawn point `(x, y, 0)`
    /// is kept when it lies strictly inside the unit circle.
    pub fn disk_candidate(x: i64, y: i64) -> (r: Option<Vec3>)
        ensures
            r == (if (Vec3 { x, y, z: 0 }).len2() < ONE {
                Some(Vec3 { x, y, z: 0 })
            } else {
                None
            }),
    {
        let p = Vec3::new(x, y, 0);
        if p.length_squared() < ONE {
            Some(p)
        } else {
            None
        }
    }

    /// A point of the unit disk, by rejection from the square `[-1, 1)^2`;
    /// after the last attempt the answer is the disk's center.
    pub fn random_in_unit_disk(rng: &mut StdRng) -> (r: Vec3)
        ensures
            in_unit_disk(r),
    {
        let mut k: u32 = 0;
        while k < SAMPLE_ATTEMPTS
            decreases SAMPLE_ATTEMPTS - k,
        {
            let x = random_scalar_in_range(rng, -ONE, ONE);
            let y = random_scalar_in_range(rng, -ONE, ONE);
            if let Some(p) = Self::disk_candidate(x, y) {
                return p;
            }
            k = k + 1;
        }
        Vec3::new(0, 0, 0)
    }

    /// Row `j` of the image, left to right: each pixel the encoded average
    /// of `samples_per_pixel` colors traced along rays through it.
    pub fn render_row(&self, world: &HittableList, j: i32, rng: &mut StdRng) -> (row: Vec<
        (u8, u8, u8),
    >)
        requires
            self.image_width >= 0,
            self.samples_per_pixel >= 1,
        ensures
            row@.len() == self.image_width,
            forall|i: int|
                0 <= i < row@.len() ==> self.is_pixel(world.objects@, i, j as int, #[trigger] row@[i]),
            self.max_depth == 0 ==> forall|k: int|
                0 <= k < row@.len() ==> #[trigger] row@[k] == (0u8, 0u8, 0u8),
    {
        let ghost objs = world.objects@;
        let mut row: Vec<(u8, u8, u8)> = Vec::new();
        let mut i: i32 = 0;
        while i < self.image_width
            invariant
                objs == world.objects@,
                0 <= i <= self.image_width,
                row@.len() == i,
                self.samples_per_pixel >= 1,
                forall|k: int| 0 <= k < row@.len() ==> self.is_pixel(objs, k, j as int, #[trigger] row@[k]),
                self.max_depth == 0 ==> forall|k: int|
                    0 <= k < row@.len() ==> #[trigger] row@[k] == (0u8, 0u8, 0u8),
            decreases self.image_width - i,
        {
            let mut samples: Vec<Color> = Vec::new();
            let mut s: i32 = 0;
            while s < self.samples_per_pixel
                invariant
                    objs == world.objects@,
                    0 <= s <= self.samples_per_pixel,
                    samples@.len() == s,
                    forall|k: int|
                        0 <= k < samples@.len() ==> self.sample_ok(objs, i as int, j as int, #[trigger] samples@[k]),
                    self.max_depth == 0 ==> forall|k: int|
                        0 <= k < samples@.len() ==> #[trigger] samples@[k] == black(),
                decreases self.samples_per_pixel - s,
            {
                let r = self.get_ray(i, j, rng);
                let c = Camera::ray_color(&r, world, self.max_depth, rng);
                assert(self.sample_ok(objs, i as int, j as int, c));
                samples.push(c);
                s = s + 1;
            }
            let bytes = pixel_bytes(&samples, self.samples_per_pixel);
            proof {
                assert(self.is_pixel(objs, i as int, j as int, bytes));
                if self.max_depth == 0 {
                    lemma_sum_black(samples@);
                    assert(channel_byte(0) == 0);
                }
            }
            row.push(bytes);
            i = i + 1;
        }
        row
    }

    /// The whole image, rows top to bottom, each left to right: pixel
    /// `(i, j)` at index `j * width + i`.
    pub fn render(&self, world: &HittableList, rng: &mut StdRng) -> (image: Vec<(u8, u8, u8)>)
        requires
            self.image_width >= 0,
            self.image_height >= 0,
            self.samples_per_pixel >= 1,
        ensures
            image@.len() == self.image_width * self.image_height,
            forall|k: int|
                0 <= k < image@.len() ==> self.is_pixel(
                    world.objects@,
                    k % self.image_width as int,
                    k / self.image_width as int,
                    #[trigger] image@[k],
                ),
            self.max_depth == 0 ==> forall|k: int|
                0 <= k < image@.len() ==> #[trigger] image@[k] == (0u8, 0u8, 0u8),
    {
        let ghost objs = world.objects@;
        let ghost w = self.image_width as int;
        let mut image: Vec<(u8, u8, u8)> = Vec::new();
        let mut j: i32 = 0;
        while j < self.image_height
            invariant
                objs == world.objects@,
                w == self.image_width,
                0 <= j <= self.image_height,
                self.image_width >= 0,
                self.samples_per_pixel >= 1,
                image@.len() == w * j,
                forall|k: int| 0 <= k < image@.len() ==> self.is_pixel(objs, k % w, k / w, #[trigger] image@[k]),
                self.max_depth == 0 ==> forall|k: int|
                    0 <= k < image@.len() ==> #[trigger] image@[k] == (0u8, 0u8, 0u8),
            decreases self.image_height - j,
        {
            let mut row = self.render_row(world, j, rng);
            let ghost before = image@;
            let ghost row_seq = row@;
            image.append(&mut row);
            proof {
                assert(image@ == before + row_seq);
                assert(w * j + w == w * (j + 1)) by (nonlinear_arith);
                assert forall|k: int| 0 <= k < image@.len() implies self.is_pixel(objs, k % w, k / w, #[trigger] image@[k]) by {
                    if k >= before.len() {
                        assert((j as int) * w == w * j) by (nonlinear_arith);
                        lemma_fundamental_div_mod_converse(k, w, j as int, k - w * j);
                        assert(image@[k] == row_seq[k - w * j]);
                    } else {
                        assert(image@[k] == before[k]);
                    }
                }
                assert forall|k: int| 0 <= k < image@.len() && self.max_depth == 0 implies #[trigger] image@[k] == (0u8, 0u8, 0u8) by {
                    if k >= before.len() {
                        assert(image@[k] == row_seq[k - w * j]);
                    } else {
                        assert(image@[k] == before[k]);
                    }
                }
            }
            j = j + 1;
        }
        image
    }

    /// A uniform offset in the unit square `[0, 1)^2`.
    pub fn sample_square(rng: &mut StdRng) -> (r: Vec3)
        ensures
            0 <= r.x < ONE,
            0 <= r.y < ONE,
            r.z == 0,
    {
        Vec3::new(random_scalar_in_range(rng, 0, ONE), random_scalar_in_range(rng, 0, ONE), 0)
    }
}

/// A viewing specification, filled in by parts, that builds a camera.
///
/// `vertical_fov` and `defocus_angle` hold the tangent of half the angle.
pub struct CameraBuilder {
    pub aspect_ratio: i64,
    pub image_width: i32,
    pub vertical_fov: i64,
    pub look_from: Point3,
    pub look_at: Point3,
    pub vup: Vec3,
    pub samples_per_pixel: i32,
    pub max_depth: u32,
    pub defocus_angle: i64,
    pub focus_dist: i64,
}

impl Default for CameraBuilder {
    /// 400 pixels wide at 16:9, a 20 degree field of view from the origin
    /// down `-z` with `+y` up, 10 samples, 10 bounces, no defocus, focus at
    /// 10.
    fn default() -> (r: Self)
        ensures
            r.aspect_ratio == 1_777_777,
            r.image_width == 400,
            r.vertical_fov == 176_327,
            r.look_from == (Vec3 { x: 0, y: 0, z: 0 }),
            r.look_at == (Vec3 { x: 0, y: 0, z: -1_000_000i64 }),
            r.vup == (Vec3 { x: 0, y: ONE, z: 0 }),
            r.samples_per_pixel == 10,
            r.max_depth == 10,
            r.defocus_angle == 0,
            r.focus_dist == 10_000_000,
    {
        CameraBuilder {
            aspect_ratio: 1_777_777,
            image_width: 400,
            vertical_fov: 176_327,
            look_from: Vec3::new(0, 0, 0),
            look_at: Vec3::new(0, 0, -ONE),
            vup: Vec3::new(0, ONE, 0),
            samples_per_pixel: 10,
            max_depth: 10,
            defocus_angle: 0,
            focus_dist: 10 * ONE,
        }
    }
}

impl CameraBuilder {
    pub fn aspect_ratio(self, aspect_ratio: i64) -> (r: Self)
        ensures
            r == (CameraBuilder { aspect_ratio, ..self }),
    {
        CameraBuilder { aspect_ratio, ..self }
    }

    pub fn image_width(self, image_width: i32) -> (r: Self)
        ensures
            r == (CameraBuilder { image_width, ..self }),
    {
        CameraBuilder { image_width, ..self }
    }

    /// The tangent of half the vertical field of view.
    pub fn vertical_fov(self, vertical_fov: i64) -> (r: Self)
        ensures
            r == (CameraBuilder { vertical_fov, ..self }),
    {
        CameraBuilder { vertical_fov, ..self }
    }

    pub fn look_from(self, look_from: Point3) -> (r: Self)
        ensures
            r == (CameraBuilder { look_from, ..self }),
    {
        CameraBuilder { look_from, ..self }
    }

    pub fn look_at(self, look_at: Point3) -> (r: Self)
        ensures
            r == (CameraBuilder { look_at, ..self }),
    {
        CameraBuilder { look_at, ..self }
    }

    pub fn vup(self, vup: Vec3) -> (r: Self)
        ensures
            r == (CameraBuilder { vup, ..self }),
    {
        CameraBuilder { vup, ..self }
    }

    pub fn samples_per_pixel(self, spp: i32) -> (r: Self)
        ensures
            r == (CameraBuilder { samples_per_pixel: spp, ..self }),
    {
        CameraBuilder { samples_per_pixel: spp, ..self }
    }

    pub fn max_depth(self, max_depth: u32) -> (r: Self)
        ensures
            r == (CameraBuilder { max_depth, ..self }),
    {
        CameraBuilder { max_depth, ..self }
    }

    /// The tangent of half the defocus angle; zero turns depth of field off.
    pub fn defocus_angle(self, angle: i64) -> (r: Self)
        ensures
            r == (CameraBuilder { defocus_angle: angle, ..self }),
    {
        CameraBuilder { defocus_angle: angle, ..self }
    }

    pub fn focus_dist(self, dist: i64) -> (r: Self)
        ensures
            r == (CameraBuilder { focus_dist: dist, ..self }),
    {
        CameraBuilder { focus_dist: dist, ..self }
    }

    pub fn build(self) -> (c: Camera)
        requires
            self.image_width > 0,
            self.aspect_ratio > 0,
        ensures
            c == camera_spec(
                self.image_width,
                self.aspect_ratio,
                self.vertical_fov,
                self.look_from,
                self.look_at,
                self.vup,
                self.samples_per_pixel,
                self.max_depth,
                self.defocus_angle,
                self.focus_dist,
            ),
    {
        Camera::new(
            self.image_width,
            self.aspect_ratio,
            self.vertical_fov,
            self.look_from,
            self.look_at,
            self.vup,
            self.samples_per_pixel,
            self.max_depth,
            self.defocus_angle,
            self.focus_dist,
        )
    }
}

} // verus!
