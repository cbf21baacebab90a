//! The render of an image, shared out by rows among a fixed number of
//! workers: each worker renders a contiguous block of rows on its own, and
//! the blocks are joined in worker order, top row first.

use crate::camera::Camera;
use crate::hittable::Hittable;
use crate::image::Pixel;
use crate::integrator::may_color;
use crate::random::{is_unit, random_double};
use crate::ray::Ray;
use crate::scalar::{Scalar, ONE_RAW};
use crate::vec3::Vec3;
use vstd::prelude::*;

verus! {

/// The number of rows in a worker's block: the rows divided evenly,
/// rounded up.
pub open spec fn block_rows(workers: u32, height: u32) -> int {
    (height + workers - 1) / (workers as int)
}

/// The first row of a worker's block, counted from the top; the block ends
/// before the first row of the next worker.
pub open spec fn first_row(worker: u32, workers: u32, height: u32) -> int {
    let start = worker * block_rows(workers, height);
    if start > height {
        height as int
    } else {
        start
    }
}

/// The rows of a worker's block: from the first of the pair up to, but not
/// including, the second.
pub fn row_range(worker: u32, workers: u32, height: u32) -> (r: (u32, u32))
    requires
        worker < workers,
    ensures
        r.0 == first_row(worker, workers, height),
        r.1 == first_row((worker + 1) as u32, workers, height),
        r.0 <= r.1 <= height,
{
    let rows: u64 = (height as u64 + workers as u64 - 1) / (workers as u64);
    assert(rows <= height) by (nonlinear_arith)
        requires
            rows == (height + workers - 1) / (workers as int),
            workers > 0,
    ;
    assert(worker * rows <= 0xffff_ffff * 0xffff_ffff) by (nonlinear_arith)
        requires
            worker <= 0xffff_ffff,
            0 <= rows <= 0xffff_ffff,
    ;
    let start: u64 = (worker as u64) * rows;
    let end: u64 = start + rows;
    assert((worker + 1) * rows == worker * rows + rows) by (nonlinear_arith);
    let h: u64 = height as u64;
    (
        if start > h { height } else { start as u32 },
        if end > h { height } else { end as u32 },
    )
}

/// The blocks tile the image: the first begins at the top row, each ends
/// where the next begins, and the last ends at the bottom row. Joined in
/// worker order they hold every row exactly once, top to bottom.
pub proof fn law_blocks_tile_rows(worker: u32, workers: u32, height: u32)
    requires
        0 < workers,
        worker < workers,
    ensures
        first_row(0, workers, height) == 0,
        first_row(workers, workers, height) == height,
        0 <= first_row(worker, workers, height) <= first_row(
            (worker + 1) as u32,
            workers,
            height,
        ) <= height,
{
    let rows = block_rows(workers, height);
    assert(rows >= 0 && workers * rows >= height) by (nonlinear_arith)
        requires
            rows == (height + workers - 1) / (workers as int),
            workers > 0,
            height >= 0,
    ;
    assert(0 * rows == 0);
    assert(worker * rows >= 0 && (worker + 1) * rows == worker * rows + rows) by (nonlinear_arith)
        requires
            rows >= 0,
            worker >= 0,
    ;
}

/// The brightest sample value that a colour component is held to before
/// it is scaled to a byte: 0.999.
pub open spec fn spec_ceiling() -> Scalar {
    Scalar::from_ratio(999, 1000)
}

#[verifier::when_used_as_spec(spec_ceiling)]
pub fn ceiling() -> (r: Scalar)
    ensures
        r == spec_ceiling(),
{
    Scalar::from_ratio(999, 1000)
}

/// The byte of a colour component summed over `samples` samples: the mean,
/// gamma-corrected by a square root, held to `[0, 0.999]` and scaled by
/// 256.
pub open spec fn byte_spec(sum: Scalar, samples: u32) -> u8 {
    sum.times(Scalar::from_ratio(1, samples as i64)).sqrt().clamp(Scalar::zero(), ceiling()).times(
        Scalar::from_int(256),
    ).whole() as u8
}

pub fn byte_of(sum: Scalar, samples: u32) -> (b: u8)
    ensures
        b == byte_spec(sum, samples),
{
    let level: Scalar = sum.times(Scalar::from_ratio(1, samples as i64)).sqrt().clamp(
        Scalar::zero(),
        ceiling(),
    );
    let scaled: i64 = level.times(Scalar::from_int(256)).whole();
    proof {
        let c = level@;
        assert(ceiling()@ == 16760438) by {
            assert(999 * (ONE_RAW as int) / 1000 == 16760438) by (nonlinear_arith);
        }
        assert(0 <= c <= 16760438);
        assert(Scalar::from_int(256)@ == 256 * ONE_RAW);
        let p = c * (256 * ONE_RAW);
        assert(p == (c * 256) * (ONE_RAW as int)) by (nonlinear_arith)
            requires
                p == c * (256 * ONE_RAW),
        ;
        assert(p / (ONE_RAW as int) == c * 256) by (nonlinear_arith)
            requires
                p == (c * 256) * (ONE_RAW as int),
        ;
        assert(p >= 0);
        assert(level.times(Scalar::from_int(256))@ == c * 256);
        assert(0 <= (c * 256) / (ONE_RAW as int) < 256);
    }
    scaled as u8
}

/// The pixel of a summed colour.
pub open spec fn pixel_spec(sum: Vec3, samples: u32) -> Pixel {
    Pixel::new(byte_spec(sum.x, samples), byte_spec(sum.y, samples), byte_spec(sum.z, samples))
}

pub fn pixel_of(sum: Vec3, samples: u32) -> (p: Pixel)
    ensures
        p == pixel_spec(sum, samples),
{
    Pixel::new(byte_of(sum.x, samples), byte_of(sum.y, samples), byte_of(sum.z, samples))
}

/// Where in the image, from 0 to 1, a ray passes that is offset by `draw`
/// within the pixel numbered `index` out of `count`.
pub open spec fn spec_pixel_coordinate(index: u32, draw: Scalar, count: u32) -> Scalar {
    Scalar::from_int(index as i64).plus(draw).over(Scalar::from_int((count - 1) as i64))
}

#[verifier::when_used_as_spec(spec_pixel_coordinate)]
pub fn pixel_coordinate(index: u32, draw: Scalar, count: u32) -> (r: Scalar)
    requires
        count > 0,
    ensures
        r == spec_pixel_coordinate(index, draw, count),
{
    Scalar::from_int(index as i64).plus(draw).over(Scalar::from_int((count - 1) as i64))
}

/// `total` is a sum of colours that `k` samples of the pixel in column `x`
/// at height `y` can add up to: each the colour of a ray that the camera
/// can cast through a point of the pixel.
pub open spec fn may_sum(
    x: u32,
    y: u32,
    width: u32,
    height: u32,
    camera: &Camera,
    world: &Hittable,
    background: Vec3,
    max_depth: i32,
    k: int,
    total: Vec3,
) -> bool
    decreases k,
{
    if k <= 0 {
        total == Vec3::zero()
    } else {
        exists|before: Vec3, du: Scalar, dv: Scalar, lens: Vec3, moment: Scalar, colour: Vec3|
            #![trigger before.plus(colour), camera.ray_spec(pixel_coordinate(x, du, width), pixel_coordinate(y, dv, height), lens, moment)]
            {
                &&& may_sum(x, y, width, height, camera, world, background, max_depth, k - 1, before)
                &&& is_unit(du)
                &&& is_unit(dv)
                &&& Vec3::in_unit_disk(lens)
                &&& is_unit(moment)
                &&& may_color(
                    camera.ray_spec(
                        pixel_coordinate(x, du, width),
                        pixel_coordinate(y, dv, height),
                        lens,
                        moment,
                    ),
                    background,
                    world,
                    max_depth as int,
                    colour,
                )
                &&& total == before.plus(colour)
            }
    }
}

/// `p` is a pixel that sampling can give for column `x` of row `row`,
/// counted from the top. The camera's `t` coordinate runs upward, so the
/// row is looked through at height `height - row - 1`.
pub open spec fn may_pixel(
    x: u32,
    row: u32,
    width: u32,
    height: u32,
    camera: &Camera,
    world: &Hittable,
    background: Vec3,
    samples: u32,
    max_depth: i32,
    p: Pixel,
) -> bool {
    exists|total: Vec3|
        may_sum(
            x,
            (height - row - 1) as u32,
            width,
            height,
            camera,
            world,
            background,
            max_depth,
            samples as int,
            total,
        ) && p == #[trigger] pixel_spec(total, samples)
}

/// The pixel in column `x` of row `row`, counted from the top: the colours
/// of `samples` rays through random points of the pixel are added up and
/// turned into bytes.
pub fn sample_pixel(
    x: u32,
    row: u32,
    width: u32,
    height: u32,
    camera: &Camera,
    world: &Hittable,
    background: Vec3,
    samples: u32,
    max_depth: i32,
) -> (p: Pixel)
    requires
        x < width,
        row < height,
    ensures
        may_pixel(x, row, width, height, camera, world, background, samples, max_depth, p),
{
    let y: u32 = height - row - 1;
    let mut pixel_color: Vec3 = Vec3::zero();
    let mut done: u32 = 0;
    while done < samples
        invariant
            done <= samples,
            x < width,
            y < height,
            may_sum(
                x,
                y,
                width,
                height,
                camera,
                world,
                background,
                max_depth,
                done as int,
                pixel_color,
            ),
        decreases samples - done,
    {
        let du: Scalar = random_double();
        let dv: Scalar = random_double();
        let u: Scalar = pixel_coordinate(x, du, width);
        let v: Scalar = pixel_coordinate(y, dv, height);
        let ray: Ray = camera.get_ray(u, v);
        let colour: Vec3 = ray.color(background, world, max_depth);
        let ghost before = pixel_color;
        pixel_color = pixel_color.plus(colour);
        done = done + 1;
        proof {
            let (lens, moment) = choose|lens: Vec3, moment: Scalar|
                Vec3::in_unit_disk(lens) && is_unit(moment) && ray == #[trigger] camera.ray_spec(
                    u,
                    v,
                    lens,
                    moment,
                );
            assert(may_sum(
                x,
                y,
                width,
                height,
                camera,
                world,
                background,
                max_depth,
                done as int - 1,
                before,
            ) && is_unit(du) && is_unit(dv) && Vec3::in_unit_disk(lens) && is_unit(moment)
                && may_color(
                camera.ray_spec(
                    pixel_coordinate(x, du, width),
                    pixel_coordinate(y, dv, height),
                    lens,
                    moment,
                ),
                background,
                world,
                max_depth as int,
                colour,
            ) && pixel_color == before.plus(colour));
        }
    }
    let p = pixel_of(pixel_color, samples);
    assert(p == pixel_spec(pixel_color, samples));
    p
}

/// Position `index` of a block holds column `index % width` of the row
/// `index / width` past the first row of the block.
proof fn lemma_position(row: int, x: int, width: int)
    requires
        0 <= row,
        0 <= x < width,
    ensures
        (row * width + x) / width == row,
        (row * width + x) % width == x,
{
    vstd::arithmetic::div_mod::lemma_fundamental_div_mod_converse(row * width + x, width, row, x);
}

/// The pixels of one worker's block of rows, row by row from the top,
/// each row from left to right: position `i` holds a pixel sampled for
/// column `i % width` of row `i / width` of the block.
pub fn render_rows(
    worker: u32,
    workers: u32,
    width: u32,
    height: u32,
    camera: &Camera,
    world: &Hittable,
    background: Vec3,
    samples: u32,
    max_depth: i32,
) -> (out: Vec<Pixel>)
    requires
        worker < workers,
    ensures
        out@.len() == (first_row((worker + 1) as u32, workers, height) - first_row(
            worker,
            workers,
            height,
        )) * width,
        forall|i: int|
            0 <= i < out@.len() ==> may_pixel(
                (i % (width as int)) as u32,
                (first_row(worker, workers, height) + i / (width as int)) as u32,
                width,
                height,
                camera,
                world,
                background,
                samples,
                max_depth,
                #[trigger] out@[i],
            ),
{
    let (start, end) = row_range(worker, workers, height);
    let mut out: Vec<Pixel> = Vec::new();
    let mut row: u32 = start;
    assert((start - start) * width == 0) by (nonlinear_arith);
    while row < end
        invariant
            start <= row <= end <= height,
            start == first_row(worker, workers, height),
            out@.len() == (row - start) * width,
            forall|i: int|
                0 <= i < out@.len() ==> may_pixel(
                    (i % (width as int)) as u32,
                    (start + i / (width as int)) as u32,
                    width,
                    height,
                    camera,
                    world,
                    background,
                    samples,
                    max_depth,
                    #[trigger] out@[i],
                ),
        decreases end - row,
    {
        let mut x: u32 = 0;
        while x < width
            invariant
                x <= width,
                start <= row < end <= height,
                start == first_row(worker, workers, height),
                out@.len() == (row - start) * width + x,
                forall|i: int|
                    0 <= i < out@.len() ==> may_pixel(
                        (i % (width as int)) as u32,
                        (start + i / (width as int)) as u32,
                        width,
                        height,
                        camera,
                        world,
                        background,
                        samples,
                        max_depth,
                        #[trigger] out@[i],
                    ),
            decreases width - x,
        {
            let p: Pixel = sample_pixel(
                x,
                row,
                width,
                height,
                camera,
                world,
                background,
                samples,
                max_depth,
            );
            proof {
                lemma_position(row - start, x as int, width as int);
            }
            let ghost before = out@;
            out.push(p);
            assert forall|i: int| 0 <= i < out@.len() implies may_pixel(
                (i % (width as int)) as u32,
                (start + i / (width as int)) as u32,
                width,
                height,
                camera,
                world,
                background,
                samples,
                max_depth,
                #[trigger] out@[i],
            ) by {
                if i < before.len() {
                    assert(out@[i] == before[i]);
                }
            }
            x = x + 1;
        }
        assert((row + 1 - start) * width == (row - start) * width + width) by (nonlinear_arith);
        row = row + 1;
    }
    out
}

/// The pixels of the first `n` blocks, one block after the other.
pub open spec fn joined(parts: Seq<Vec<Pixel>>, n: int) -> Seq<Pixel>
    decreases n,
{
    if n <= 0 || n > parts.len() {
        Seq::empty()
    } else {
        joined(parts, n - 1) + parts[n - 1]@
    }
}

/// Joins the blocks of all workers, in worker order, into the pixels of
/// the image.
pub fn merge(parts: &Vec<Vec<Pixel>>) -> (out: Vec<Pixel>)
    ensures
        out@ == joined(parts@, parts@.len() as int),
{
    let mut out: Vec<Pixel> = Vec::new();
    let mut i: usize = 0;
    while i < parts.len()
        invariant
            i <= parts@.len(),
            out@ == joined(parts@, i as int),
        decreases parts@.len() - i,
    {
        let part: &Vec<Pixel> = &parts[i];
        let mut j: usize = 0;
        while j < part.len()
            invariant
                i < parts@.len(),
                part == parts@[i as int],
                j <= part@.len(),
                out@ == joined(parts@, i as int) + part@.subrange(0, j as int),
            decreases part@.len() - j,
        {
            out.push(part[j]);
            assert(out@ =~= joined(parts@, i as int) + part@.subrange(0, j + 1));
            j = j + 1;
        }
        assert(part@.subrange(0, part@.len() as int) =~= part@);
        i = i + 1;
    }
    out
}

} // verus!
