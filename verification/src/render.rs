//! The color integrator and the tiled renderer.
//!
//! `ray_color` is the recursive radiance estimate; `render_rows` renders a
//! contiguous row range (the unit of work one worker takes); `row_ranges`
//! partitions the image rows; `render` assembles the whole image in the
//! same order a worker pool does, so a threaded driver that renders the
//! ranges concurrently and joins them in range order reproduces its
//! output byte for byte.

use vstd::prelude::*;
use crate::fixed::{SCALE, fadd_s, fsub_s, fmul_s, fdiv_s, fadd, fsub, fmul, fdiv};
use crate::vec3::{V3, Vec3, vadd_s, vmul_s, vscale_s, unit_vector_s, unit_vector};
use crate::ray::{Ray, RayS};
use crate::hittable::Hittable;
use crate::hittable_list::{HittableList, list_hit_s};
use crate::material::{Material, material_scatter_s};
use crate::camera::{Camera, CameraS, get_ray_s};
use crate::color::color_bytes_s;
use crate::rng::{Rng, next_state_s, unit_from_s};

verus! {

/// The self-intersection guard 0.001: freshly scattered rays ignore hits
/// closer than this.
pub const T_MIN: i64 = 1_000_000;

/// 0.5 in fixed-point units.
pub const HALF: i64 = 500_000_000;

/// The dimension bound the fixed-point coordinate arithmetic admits.
pub const MAX_DIM: usize = 1_000_000;

/// The background gradient: white at the bottom blending to sky blue at
/// the top, by the height of the unit direction.
pub open spec fn background_s(r: RayS) -> V3 {
    let unit_direction = unit_vector_s(r.direction);
    let t = fmul_s(fadd_s(unit_direction.y, SCALE as int), HALF as int);
    vadd_s(
        vscale_s(V3 { x: SCALE as int, y: SCALE as int, z: SCALE as int }, fsub_s(SCALE as int, t)),
        vscale_s(V3 { x: HALF as int, y: 700_000_000, z: SCALE as int }, t),
    )
}

/// The recursive radiance estimate: black once the bounce budget is
/// exhausted; on a hit, the material's attenuation times the scattered
/// ray's estimate (black when absorbed); on a miss, the background.
pub open spec fn ray_color_s(
    r: RayS,
    objects: Seq<Hittable>,
    materials: Seq<Material>,
    depth: int,
    s: u64,
) -> (V3, u64)
    decreases depth,
{
    if depth <= 0 {
        (V3 { x: 0, y: 0, z: 0 }, s)
    } else {
        match list_hit_s(objects, r, T_MIN as int, i64::MAX as int) {
            Some(rec) => {
                if 0 <= rec.mat < materials.len() {
                    let (sc, s1) = material_scatter_s(materials[rec.mat], r, rec, s);
                    match sc {
                        Some((scattered, attenuation)) => {
                            let (col, s2) = ray_color_s(scattered, objects, materials, depth - 1, s1);
                            (vmul_s(attenuation, col), s2)
                        },
                        None => (V3 { x: 0, y: 0, z: 0 }, s1),
                    }
                } else {
                    (V3 { x: 0, y: 0, z: 0 }, s)
                }
            },
            None => (background_s(r), s),
        }
    }
}

/// The radiance reaching the camera along a ray.
pub fn ray_color(r: &Ray, world: &HittableList, depth: i32, rng: &mut Rng) -> (c: Vec3)
    requires
        world.wf(),
    ensures
        (c@, final(rng).state) == ray_color_s(
            r@,
            world.objects@,
            world.materials@,
            depth as int,
            old(rng).state,
        ),
    decreases depth,
{
    // Bounce budget exhausted: no more light is gathered.
    if depth <= 0 {
        return Vec3::zero();
    }

    if let Some(rec) = world.hit(r, T_MIN, i64::MAX) {
        let m = world.materials[rec.mat];
        if let Some((scattered, attenuation)) = m.scatter(r, &rec, rng) {
            let col = ray_color(&scattered, world, depth - 1, rng);
            return attenuation.mul(&col);
        }
        return Vec3::zero();
    }

    let unit_direction = unit_vector(&r.direction);
    let t = fmul(fadd(unit_direction.y, SCALE), HALF);
    Vec3::from(SCALE, SCALE, SCALE).scale(fsub(SCALE, t)).add(
        &Vec3::from(HALF, 700_000_000, SCALE).scale(t),
    )
}

/// The multi-sample accumulation for one pixel, folded over the
/// remaining sample count: each sample jitters the pixel's normalized
/// coordinates, casts a camera ray, and adds its radiance estimate.
pub open spec fn sample_pixel_s(
    cam: CameraS,
    objects: Seq<Hittable>,
    materials: Seq<Material>,
    j: int,
    i: int,
    width: int,
    height: int,
    max_depth: int,
    acc: V3,
    remaining: nat,
    s: u64,
) -> (V3, u64)
    decreases remaining,
{
    if remaining == 0 {
        (acc, s)
    } else {
        let s1 = next_state_s(s);
        let u = fdiv_s(fadd_s(j * SCALE as int, unit_from_s(s1)), (width - 1) * SCALE as int);
        let s2 = next_state_s(s1);
        let v = fdiv_s(fadd_s(i * SCALE as int, unit_from_s(s2)), (height - 1) * SCALE as int);
        let (ray, s3) = get_ray_s(cam, u, v, s2);
        let (col, s4) = ray_color_s(ray, objects, materials, max_depth, s3);
        sample_pixel_s(
            cam,
            objects,
            materials,
            j,
            i,
            width,
            height,
            max_depth,
            vadd_s(acc, col),
            (remaining - 1) as nat,
            s4,
        )
    }
}

/// The sample count as a number of draws (a non-positive count draws
/// nothing).
pub open spec fn samples_nat_s(samples: int) -> nat {
    if samples > 0 {
        samples as nat
    } else {
        0
    }
}

/// Accumulate the radiance estimates for pixel `(j, i)`.
fn sample_pixel(
    world: &HittableList,
    camera: &Camera,
    j: usize,
    i: usize,
    width: usize,
    height: usize,
    samples: i32,
    max_depth: i32,
    rng: &mut Rng,
) -> (c: Vec3)
    requires
        world.wf(),
        width <= MAX_DIM,
        height <= MAX_DIM,
        j <= MAX_DIM,
        i <= MAX_DIM,
    ensures
        (c@, final(rng).state) == sample_pixel_s(
            camera@,
            world.objects@,
            world.materials@,
            j as int,
            i as int,
            width as int,
            height as int,
            max_depth as int,
            V3 { x: 0, y: 0, z: 0 },
            samples_nat_s(samples as int),
            old(rng).state,
        ),
{
    let mut acc = Vec3::zero();
    let mut k: i32 = 0;
    let ghost target = sample_pixel_s(
        camera@,
        world.objects@,
        world.materials@,
        j as int,
        i as int,
        width as int,
        height as int,
        max_depth as int,
        V3 { x: 0, y: 0, z: 0 },
        samples_nat_s(samples as int),
        old(rng).state,
    );
    while k < samples
        invariant
            world.wf(),
            width <= MAX_DIM,
            height <= MAX_DIM,
            j <= MAX_DIM,
            i <= MAX_DIM,
            0 <= k,
            k <= samples || k == 0,
            sample_pixel_s(
                camera@,
                world.objects@,
                world.materials@,
                j as int,
                i as int,
                width as int,
                height as int,
                max_depth as int,
                acc@,
                samples_nat_s(samples as int - k as int),
                rng.state,
            ) == target,
        decreases samples - k,
    {
        let ju = rng.next_unit();
        let u = fdiv(fadd((j as i64) * SCALE, ju), ((width as i64) - 1) * SCALE);
        let jv = rng.next_unit();
        let v = fdiv(fadd((i as i64) * SCALE, jv), ((height as i64) - 1) * SCALE);
        let r = camera.get_ray(u, v, rng);
        let col = ray_color(&r, world, max_depth, rng);
        acc = acc.add(&col);
        k = k + 1;
    }
    acc
}

/// One row of pixel bytes, folded left to right over the columns: each
/// pixel's accumulated color is encoded and its three bytes appended.
pub open spec fn render_cols_s(
    cam: CameraS,
    objects: Seq<Hittable>,
    materials: Seq<Material>,
    i: int,
    j: int,
    width: int,
    height: int,
    samples: int,
    max_depth: int,
    buf: Seq<u8>,
    s: u64,
) -> (Seq<u8>, u64)
    decreases width - j,
{
    if j < 0 || j >= width {
        (buf, s)
    } else {
        let (acc, s1) = sample_pixel_s(
            cam,
            objects,
            materials,
            j,
            i,
            width,
            height,
            max_depth,
            V3 { x: 0, y: 0, z: 0 },
            samples_nat_s(samples),
            s,
        );
        render_cols_s(
            cam,
            objects,
            materials,
            i,
            j + 1,
            width,
            height,
            samples,
            max_depth,
            buf + color_bytes_s(acc, samples),
            s1,
        )
    }
}

/// The bytes of a row range, folded top row first (the row order the
/// original's workers emit): row `row_end - 1` down to `row_start`.
pub open spec fn render_rows_s(
    cam: CameraS,
    objects: Seq<Hittable>,
    materials: Seq<Material>,
    width: int,
    height: int,
    samples: int,
    max_depth: int,
    row_start: int,
    row_end: int,
    buf: Seq<u8>,
    s: u64,
) -> (Seq<u8>, u64)
    decreases row_end - row_start,
{
    if row_end <= row_start {
        (buf, s)
    } else {
        let (buf1, s1) = render_cols_s(
            cam,
            objects,
            materials,
            row_end - 1,
            0,
            width,
            height,
            samples,
            max_depth,
            buf,
            s,
        );
        render_rows_s(
            cam,
            objects,
            materials,
            width,
            height,
            samples,
            max_depth,
            row_start,
            row_end - 1,
            buf1,
            s1,
        )
    }
}

/// Render the rows `[row_start, row_end)`, top row first, from the given
/// seed: the unit of work one worker takes.
pub fn render_rows(
    world: &HittableList,
    camera: &Camera,
    width: usize,
    height: usize,
    samples: i32,
    max_depth: i32,
    row_start: usize,
    row_end: usize,
    seed: u64,
) -> (r: Vec<u8>)
    requires
        world.wf(),
        width <= MAX_DIM,
        height <= MAX_DIM,
        row_end <= MAX_DIM,
    ensures
        r@ == render_rows_s(
            camera@,
            world.objects@,
            world.materials@,
            width as int,
            height as int,
            samples as int,
            max_depth as int,
            row_start as int,
            row_end as int,
            Seq::<u8>::empty(),
            seed,
        ).0,
{
    let mut buf: Vec<u8> = Vec::new();
    let mut rng = Rng::from_seed(seed);
    let mut i: usize = row_end;
    let ghost target = render_rows_s(
        camera@,
        world.objects@,
        world.materials@,
        width as int,
        height as int,
        samples as int,
        max_depth as int,
        row_start as int,
        row_end as int,
        Seq::<u8>::empty(),
        seed,
    );
    while i > row_start
        invariant
            world.wf(),
            width <= MAX_DIM,
            height <= MAX_DIM,
            i <= MAX_DIM,
            render_rows_s(
                camera@,
                world.objects@,
                world.materials@,
                width as int,
                height as int,
                samples as int,
                max_depth as int,
                row_start as int,
                i as int,
                buf@,
                rng.state,
            ) == target,
        decreases i,
    {
        i = i - 1;
        let ghost row_target = render_cols_s(
            camera@,
            world.objects@,
            world.materials@,
            i as int,
            0,
            width as int,
            height as int,
            samples as int,
            max_depth as int,
            buf@,
            rng.state,
        );
        let mut j: usize = 0;
        while j < width
            invariant
                world.wf(),
                width <= MAX_DIM,
                height <= MAX_DIM,
                i <= MAX_DIM,
                j <= width,
                render_cols_s(
                    camera@,
                    world.objects@,
                    world.materials@,
                    i as int,
                    j as int,
                    width as int,
                    height as int,
                    samples as int,
                    max_depth as int,
                    buf@,
                    rng.state,
                ) == row_target,
            decreases width - j,
        {
            let ghost buf_prev = buf@;
            let acc = sample_pixel(world, camera, j, i, width, height, samples, max_depth, &mut rng);
            let bytes = acc.color_to_u8(samples);
            buf.push(bytes[0]);
            buf.push(bytes[1]);
            buf.push(bytes[2]);
            proof {
                assert(buf@ =~= buf_prev + color_bytes_s(acc@, samples as int));
            }
            j = j + 1;
        }
    }
    buf
}

/// The lesser of two integers.
pub open spec fn min_int_s(a: int, b: int) -> int {
    if a < b { a } else { b }
}

/// Rows per worker: the ceiling of `height / workers`.
pub open spec fn chunk_rows_s(height: int, workers: int) -> int
    recommends
        workers >= 1,
{
    (height + workers - 1) / workers
}

/// Worker `t`'s row range `[start, end)`: contiguous blocks of
/// `chunk_rows_s` rows, the last block cut off at the image height.
pub open spec fn row_range_s(height: int, workers: int, t: int) -> (int, int) {
    let steps = chunk_rows_s(height, workers);
    (min_int_s(steps * t, height), min_int_s(steps * (t + 1), height))
}

/// Whether worker `t`'s range contains `row`.
pub open spec fn range_contains_s(height: int, workers: int, t: int, row: int) -> bool {
    row_range_s(height, workers, t).0 <= row < row_range_s(height, workers, t).1
}

/// Partition completeness: every image row lies in the range of exactly
/// one worker.
pub proof fn lemma_partition_complete(height: int, workers: int, row: int)
    requires
        workers >= 1,
        0 <= row < height,
    ensures
        exists|t: int| 0 <= t < workers && range_contains_s(height, workers, t, row),
        forall|t1: int, t2: int|
            0 <= t1 < workers && range_contains_s(height, workers, t1, row) && 0 <= t2 < workers
                && range_contains_s(height, workers, t2, row) ==> t1 == t2,
{
    let steps = chunk_rows_s(height, workers);
    vstd::arithmetic::div_mod::lemma_div_pos_is_pos(height + workers - 1, workers);
    vstd::arithmetic::div_mod::lemma_fundamental_div_mod(height + workers - 1, workers);
    vstd::arithmetic::div_mod::lemma_mod_bound(height + workers - 1, workers);
    // steps >= 1 and steps * workers >= height
    assert(steps >= 1) by (nonlinear_arith)
        requires
            steps >= 0,
            workers >= 1,
            height >= 1,
            workers * steps == height + workers - 1 - ((height + workers - 1) % workers),
            0 <= (height + workers - 1) % workers < workers;
    assert(steps * workers >= height) by (nonlinear_arith)
        requires
            workers * steps == height + workers - 1 - ((height + workers - 1) % workers),
            0 <= (height + workers - 1) % workers < workers;

    let t0 = row / steps;
    vstd::arithmetic::div_mod::lemma_div_pos_is_pos(row, steps);
    vstd::arithmetic::div_mod::lemma_fundamental_div_mod(row, steps);
    vstd::arithmetic::div_mod::lemma_mod_bound(row, steps);
    assert(steps * t0 <= row < steps * (t0 + 1)) by (nonlinear_arith)
        requires
            steps * t0 == row - (row % steps),
            0 <= row % steps < steps;
    assert(t0 < workers) by (nonlinear_arith)
        requires
            steps * t0 <= row,
            row < height,
            height <= steps * workers,
            steps >= 1;
    assert(range_contains_s(height, workers, t0, row));

    assert forall|t1: int, t2: int|
        0 <= t1 < workers && range_contains_s(height, workers, t1, row) && 0 <= t2 < workers
            && range_contains_s(height, workers, t2, row) implies t1 == t2 by {
        lemma_range_member_unique(height, workers, t1, row, steps, t0);
        lemma_range_member_unique(height, workers, t2, row, steps, t0);
    }
}

proof fn lemma_range_member_unique(height: int, workers: int, t: int, row: int, steps: int, t0: int)
    requires
        workers >= 1,
        0 <= row < height,
        steps == chunk_rows_s(height, workers),
        steps >= 1,
        steps * t0 <= row < steps * (t0 + 1),
        0 <= t < workers,
        range_contains_s(height, workers, t, row),
    ensures
        t == t0,
{
    assert(min_int_s(steps * t, height) <= row < min_int_s(steps * (t + 1), height));
    assert(steps * t <= row);
    assert(row < steps * (t + 1));
    if t < t0 {
        assert(steps * (t + 1) <= steps * t0) by (nonlinear_arith)
            requires
                t + 1 <= t0,
                steps >= 1;
        assert(false);
    }
    if t > t0 {
        assert(steps * (t0 + 1) <= steps * t) by (nonlinear_arith)
            requires
                t0 + 1 <= t,
                steps >= 1;
        assert(false);
    }
}

/// The row partition: one `(start, end)` range per worker, in worker
/// order.
pub fn row_ranges(height: usize, workers: usize) -> (r: Vec<(usize, usize)>)
    requires
        1 <= workers <= MAX_DIM,
        height <= MAX_DIM,
    ensures
        r@.len() == workers,
        forall|t: int|
            0 <= t < workers ==> (#[trigger] r@[t]).0 as int == row_range_s(
                height as int,
                workers as int,
                t,
            ).0 && r@[t].1 as int == row_range_s(height as int, workers as int, t).1,
        forall|t: int| 0 <= t < workers ==> (#[trigger] r@[t]).1 <= height,
{
    let steps = (height + workers - 1) / workers;
    proof {
        vstd::arithmetic::div_mod::lemma_div_nonincreasing((height + workers - 1) as int, workers as int);
    }
    let mut out: Vec<(usize, usize)> = Vec::new();
    let mut t: usize = 0;
    while t < workers
        invariant
            workers <= MAX_DIM,
            height <= MAX_DIM,
            t <= workers,
            steps as int == chunk_rows_s(height as int, workers as int),
            steps <= 2 * MAX_DIM,
            out@.len() == t,
            forall|x: int|
                0 <= x < t ==> (#[trigger] out@[x]).0 as int == row_range_s(
                    height as int,
                    workers as int,
                    x,
                ).0 && out@[x].1 as int == row_range_s(height as int, workers as int, x).1,
            forall|x: int| 0 <= x < t ==> (#[trigger] out@[x]).1 <= height,
        decreases workers - t,
    {
        proof {
            assert(0 <= (steps as int) * (t as int) <= 4_000_000_000_000 && 0 <= (steps as int) * (
            (t as int) + 1) <= 4_000_000_000_000) by (nonlinear_arith)
                requires
                    0 <= (steps as int) <= 2_000_000,
                    0 <= (t as int) < 1_000_000;
        }
        let su: u64 = (steps as u64) * (t as u64);
        let eu: u64 = (steps as u64) * ((t as u64) + 1);
        let start = if su > height as u64 {
            height
        } else {
            su as usize
        };
        let end = if eu > height as u64 {
            height
        } else {
            eu as usize
        };
        out.push((start, end));
        t = t + 1;
    }
    out
}

proof fn lemma_render_cols_len(
    cam: CameraS,
    objects: Seq<Hittable>,
    materials: Seq<Material>,
    i: int,
    j: int,
    width: int,
    height: int,
    samples: int,
    max_depth: int,
    buf: Seq<u8>,
    s: u64,
)
    requires
        0 <= j <= width,
    ensures
        render_cols_s(cam, objects, materials, i, j, width, height, samples, max_depth, buf, s)
            .0
            .len() == buf.len() + 3 * (width - j),
    decreases width - j,
{
    if j < width {
        let (acc, s1) = sample_pixel_s(
            cam,
            objects,
            materials,
            j,
            i,
            width,
            height,
            max_depth,
            V3 { x: 0, y: 0, z: 0 },
            samples_nat_s(samples),
            s,
        );
        lemma_render_cols_len(
            cam,
            objects,
            materials,
            i,
            j + 1,
            width,
            height,
            samples,
            max_depth,
            buf + color_bytes_s(acc, samples),
            s1,
        );
    }
}

/// A row range's byte count: three bytes per pixel, `width` pixels per
/// row, one row per range element.
pub proof fn lemma_render_rows_len(
    cam: CameraS,
    objects: Seq<Hittable>,
    materials: Seq<Material>,
    width: int,
    height: int,
    samples: int,
    max_depth: int,
    row_start: int,
    row_end: int,
    buf: Seq<u8>,
    s: u64,
)
    requires
        0 <= width,
        row_start <= row_end,
    ensures
        render_rows_s(
            cam,
            objects,
            materials,
            width,
            height,
            samples,
            max_depth,
            row_start,
            row_end,
            buf,
            s,
        ).0.len() == buf.len() + 3 * width * (row_end - row_start),
    decreases row_end - row_start,
{
    if row_start == row_end {
        assert(3 * width * (row_end - row_start) == 0) by (nonlinear_arith)
            requires
                row_end == row_start;
    } else {
        let (buf1, s1) = render_cols_s(
            cam,
            objects,
            materials,
            row_end - 1,
            0,
            width,
            height,
            samples,
            max_depth,
            buf,
            s,
        );
        lemma_render_cols_len(
            cam,
            objects,
            materials,
            row_end - 1,
            0,
            width,
            height,
            samples,
            max_depth,
            buf,
            s,
        );
        lemma_render_rows_len(
            cam,
            objects,
            materials,
            width,
            height,
            samples,
            max_depth,
            row_start,
            row_end - 1,
            buf1,
            s1,
        );
        assert(3 * width + 3 * width * (row_end - 1 - row_start) == 3 * width * (row_end
            - row_start)) by (nonlinear_arith);
    }
}

proof fn lemma_chunk_rows_cover(height: int, workers: int)
    requires
        workers >= 1,
        height >= 0,
    ensures
        chunk_rows_s(height, workers) >= 0,
        chunk_rows_s(height, workers) * workers >= height,
{
    let steps = chunk_rows_s(height, workers);
    vstd::arithmetic::div_mod::lemma_div_pos_is_pos(height + workers - 1, workers);
    vstd::arithmetic::div_mod::lemma_fundamental_div_mod(height + workers - 1, workers);
    vstd::arithmetic::div_mod::lemma_mod_bound(height + workers - 1, workers);
    assert(steps * workers >= height) by (nonlinear_arith)
        requires
            workers * steps == height + workers - 1 - ((height + workers - 1) % workers),
            0 <= (height + workers - 1) % workers < workers;
}

proof fn lemma_render_chunks_len(
    cam: CameraS,
    objects: Seq<Hittable>,
    materials: Seq<Material>,
    width: int,
    height: int,
    samples: int,
    max_depth: int,
    workers: int,
    w: int,
    buf: Seq<u8>,
    seed: u64,
)
    requires
        workers >= 1,
        height >= 0,
        width >= 0,
        -1 <= w,
    ensures
        render_chunks_s(
            cam,
            objects,
            materials,
            width,
            height,
            samples,
            max_depth,
            workers,
            w,
            buf,
            seed,
        ).len() == buf.len() + min_int_s(chunk_rows_s(height, workers) * (w + 1), height) * 3
            * width,
    decreases w + 1,
{
    let steps = chunk_rows_s(height, workers);
    lemma_chunk_rows_cover(height, workers);
    if w < 0 {
        assert(steps * (w + 1) == 0) by (nonlinear_arith)
            requires
                w == -1;
        assert(min_int_s(steps * (w + 1), height) * 3 * width == 0) by (nonlinear_arith)
            requires
                min_int_s(steps * (w + 1), height) == 0;
    } else {
        let rr = row_range_s(height, workers, w);
        assert(0 <= steps * w <= steps * (w + 1)) by (nonlinear_arith)
            requires
                steps >= 0,
                w >= 0;
        lemma_render_rows_len(
            cam,
            objects,
            materials,
            width,
            height,
            samples,
            max_depth,
            rr.0,
            rr.1,
            Seq::<u8>::empty(),
            worker_seed_s(seed, w as u64),
        );
        let chunk = render_rows_s(
            cam,
            objects,
            materials,
            width,
            height,
            samples,
            max_depth,
            rr.0,
            rr.1,
            Seq::<u8>::empty(),
            worker_seed_s(seed, w as u64),
        ).0;
        lemma_render_chunks_len(
            cam,
            objects,
            materials,
            width,
            height,
            samples,
            max_depth,
            workers,
            w - 1,
            buf + chunk,
            seed,
        );
        assert(3 * width * (rr.1 - rr.0) == (min_int_s(steps * (w + 1), height) - min_int_s(
            steps * w,
            height,
        )) * 3 * width) by (nonlinear_arith)
            requires
                rr.0 == min_int_s(steps * w, height),
                rr.1 == min_int_s(steps * (w + 1), height);
        assert((min_int_s(steps * (w + 1), height) - min_int_s(steps * w, height)) * 3 * width
            + min_int_s(steps * w, height) * 3 * width == min_int_s(steps * (w + 1), height) * 3
            * width) by (nonlinear_arith);
    }
}

/// The assembled image holds exactly `3 * width * height` bytes: the
/// worker ranges cover every row once, so their chunks concatenate to the
/// full pixel buffer.
pub proof fn lemma_render_image_len(
    cam: CameraS,
    objects: Seq<Hittable>,
    materials: Seq<Material>,
    width: int,
    height: int,
    samples: int,
    max_depth: int,
    workers: int,
    seed: u64,
)
    requires
        workers >= 1,
        height >= 0,
        width >= 0,
    ensures
        render_image_s(
            cam,
            objects,
            materials,
            width,
            height,
            samples,
            max_depth,
            workers,
            seed,
        ).len() == 3 * width * height,
{
    let steps = chunk_rows_s(height, workers);
    lemma_chunk_rows_cover(height, workers);
    lemma_render_chunks_len(
        cam,
        objects,
        materials,
        width,
        height,
        samples,
        max_depth,
        workers,
        workers - 1,
        Seq::<u8>::empty(),
        seed,
    );
    assert(min_int_s(steps * workers, height) == height);
    assert(height * 3 * width == 3 * width * height) by (nonlinear_arith);
}

/// Same seed stream, same image: the rendered bytes are a function of
/// the scene, the camera, the render parameters, the worker count and
/// the seed alone.
pub proof fn lemma_render_deterministic(
    b1: Seq<u8>,
    b2: Seq<u8>,
    cam: CameraS,
    objects: Seq<Hittable>,
    materials: Seq<Material>,
    width: int,
    height: int,
    samples: int,
    max_depth: int,
    workers: int,
    seed: u64,
)
    requires
        b1 == render_image_s(
            cam,
            objects,
            materials,
            width,
            height,
            samples,
            max_depth,
            workers,
            seed,
        ),
        b2 == render_image_s(
            cam,
            objects,
            materials,
            width,
            height,
            samples,
            max_depth,
            workers,
            seed,
        ),
    ensures
        b1 == b2,
{
}

/// The seed a worker's generator starts from: derived from the render
/// seed and the worker index, so workers draw independent streams while
/// the whole render stays a function of one seed.
pub open spec fn worker_seed_s(seed: u64, t: u64) -> u64 {
    next_state_s(seed ^ t)
}

/// Derive worker `t`'s seed from the render seed.
pub fn worker_seed(seed: u64, t: u64) -> (r: u64)
    ensures
        r == worker_seed_s(seed, t),
{
    let mut s = seed ^ t;
    s = s ^ (s << 13);
    s = s ^ (s >> 7);
    s = s ^ (s << 17);
    s
}

/// The image bytes, assembled from the worker chunks in the order the
/// original's driver joins them: worker `w` down to worker 0, each chunk
/// top row first.
pub open spec fn render_chunks_s(
    cam: CameraS,
    objects: Seq<Hittable>,
    materials: Seq<Material>,
    width: int,
    height: int,
    samples: int,
    max_depth: int,
    workers: int,
    w: int,
    buf: Seq<u8>,
    seed: u64,
) -> Seq<u8>
    decreases w + 1,
{
    if w < 0 {
        buf
    } else {
        let rr = row_range_s(height, workers, w);
        let chunk = render_rows_s(
            cam,
            objects,
            materials,
            width,
            height,
            samples,
            max_depth,
            rr.0,
            rr.1,
            Seq::<u8>::empty(),
            worker_seed_s(seed, w as u64),
        ).0;
        render_chunks_s(
            cam,
            objects,
            materials,
            width,
            height,
            samples,
            max_depth,
            workers,
            w - 1,
            buf + chunk,
            seed,
        )
    }
}

/// The whole image for the given scene, camera, render parameters,
/// worker count and seed.
pub open spec fn render_image_s(
    cam: CameraS,
    objects: Seq<Hittable>,
    materials: Seq<Material>,
    width: int,
    height: int,
    samples: int,
    max_depth: int,
    workers: int,
    seed: u64,
) -> Seq<u8> {
    render_chunks_s(
        cam,
        objects,
        materials,
        width,
        height,
        samples,
        max_depth,
        workers,
        workers - 1,
        Seq::<u8>::empty(),
        seed,
    )
}

/// Render the whole image: partition the rows, render every range from
/// its worker seed, and concatenate the chunks in worker order.  A
/// threaded driver that renders the same ranges concurrently and joins
/// them in the same order produces the same bytes.
pub fn render(
    world: &HittableList,
    camera: &Camera,
    width: usize,
    height: usize,
    samples: i32,
    max_depth: i32,
    workers: usize,
    seed: u64,
) -> (r: Vec<u8>)
    requires
        world.wf(),
        width <= MAX_DIM,
        height <= MAX_DIM,
        1 <= workers <= MAX_DIM,
    ensures
        r@ == render_image_s(
            camera@,
            world.objects@,
            world.materials@,
            width as int,
            height as int,
            samples as int,
            max_depth as int,
            workers as int,
            seed,
        ),
        r@.len() == 3 * width * height,
{
    proof {
        lemma_render_image_len(
            camera@,
            world.objects@,
            world.materials@,
            width as int,
            height as int,
            samples as int,
            max_depth as int,
            workers as int,
            seed,
        );
    }
    let ranges = row_ranges(height, workers);
    let mut buf: Vec<u8> = Vec::new();
    let mut k: usize = 0;
    let ghost target = render_image_s(
        camera@,
        world.objects@,
        world.materials@,
        width as int,
        height as int,
        samples as int,
        max_depth as int,
        workers as int,
        seed,
    );
    while k < workers
        invariant
            world.wf(),
            width <= MAX_DIM,
            height <= MAX_DIM,
            1 <= workers <= MAX_DIM,
            k <= workers,
            ranges@.len() == workers,
            forall|t: int|
                0 <= t < workers ==> (#[trigger] ranges@[t]).0 as int == row_range_s(
                    height as int,
                    workers as int,
                    t,
                ).0 && ranges@[t].1 as int == row_range_s(height as int, workers as int, t).1,
            forall|t: int| 0 <= t < workers ==> (#[trigger] ranges@[t]).1 <= height,
            render_chunks_s(
                camera@,
                world.objects@,
                world.materials@,
                width as int,
                height as int,
                samples as int,
                max_depth as int,
                workers as int,
                workers as int - 1 - k as int,
                buf@,
                seed,
            ) == target,
        decreases workers - k,
    {
        let w = workers - 1 - k;
        let range = ranges[w];
        let mut chunk = render_rows(
            world,
            camera,
            width,
            height,
            samples,
            max_depth,
            range.0,
            range.1,
            worker_seed(seed, w as u64),
        );
        buf.append(&mut chunk);
        k = k + 1;
    }
    buf
}

} // verus!
