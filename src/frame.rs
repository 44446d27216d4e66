//! One frame: a ray per screen column, then every pixel of the buffer from
//! the column's hit.
use crate::grid::{GridMap, UNIT};
use crate::player::Pose;
use crate::raycast::{cast_ray, lemma_march_bounded, march, MAX_RAY_STEPS, RAY_STEP};
use crate::shading::{
    projected_height, projected_height_spec, shade, shade_spec, span_end, span_start, wall_color,
    wall_color_spec, wall_span,
};
use vstd::prelude::*;

verus! {

/// Distance to a wall hit at step `k` of a ray of `RAY_STEP`-long steps.
pub open spec fn hit_distance(k: int) -> int {
    k * RAY_STEP
}

/// Every hit lies at least one step away.
pub open spec fn hits_valid(hits: Seq<Option<u32>>) -> bool {
    forall|i: int| 0 <= i < hits.len() ==> (#[trigger] hits[i] matches Some(k) ==> k >= 1)
}

/// Colour of row `y` of a column on a screen `screen_h` rows high: the
/// shaded wall colour inside the wall strip of a hit, black elsewhere and
/// for a miss.
pub open spec fn pixel_spec(hit: Option<u32>, y: int, screen_h: int) -> u32 {
    match hit {
        Some(k) => {
            let d = hit_distance(k as int);
            let wall_h = projected_height_spec(d, screen_h);
            if span_start(wall_h, screen_h) <= y <= span_end(wall_h, screen_h) {
                wall_color_spec(shade_spec(d)) as u32
            } else {
                0
            }
        },
        None => 0,
    }
}

/// Pixel `i` of a row-major frame `width` columns wide.
pub open spec fn frame_pixel(hits: Seq<Option<u32>>, width: int, screen_h: int, i: int) -> u32 {
    pixel_spec(hits[i % width], i / width, screen_h)
}

/// The step vectors of a frame's rays: each component at most one cell.
pub open spec fn rays_valid(rays: Seq<(i64, i64)>) -> bool {
    forall|i: int|
        0 <= i < rays.len() ==> -UNIT <= (#[trigger] rays[i]).0 <= UNIT && -UNIT <= rays[i].1 <= UNIT
}

/// Colour of row `y` of a column with the given hit.
pub fn column_pixel(hit: Option<u32>, y: u64, screen_h: u32) -> (r: u32)
    requires
        hit matches Some(k) ==> k >= 1,
        screen_h > 0,
    ensures
        r == pixel_spec(hit, y as int, screen_h as int),
{
    match hit {
        Some(k) => {
            let d: u64 = (k as u64) * (RAY_STEP as u64);
            let wall_h = projected_height(d, screen_h);
            let (start, end) = wall_span(wall_h, screen_h as u64);
            if start <= y && y <= end {
                let s = shade(d);
                wall_color(s)
            } else {
                0
            }
        },
        None => 0,
    }
}

/// Casts the ray of every column from the pose; `rays[x]` is the step
/// vector of column `x`. Entry `x` of the result is the step of the first
/// wall hit, or `None` for a miss.
pub fn cast_columns(map: &GridMap, pose: &Pose, rays: &Vec<(i64, i64)>) -> (r: Vec<Option<u32>>)
    requires
        map.wf(),
        pose.valid_on(map@),
        rays_valid(rays@),
    ensures
        r@.len() == rays@.len(),
        hits_valid(r@),
        forall|x: int|
            0 <= x < rays@.len() ==> {
                let m = march(map@, pose.x as int, pose.y as int, rays@[x].0 as int, rays@[x].1 as int, MAX_RAY_STEPS as nat);
                &&& (#[trigger] r@[x]) is None <==> m is None
                &&& r@[x] matches Some(k) ==> m == Some(k as nat)
            },
{
    let mut hits: Vec<Option<u32>> = Vec::new();
    let mut x: usize = 0;
    while x < rays.len()
        invariant
            map.wf(),
            pose.valid_on(map@),
            rays_valid(rays@),
            x <= rays@.len(),
            hits@.len() == x,
            hits_valid(hits@),
            forall|c: int|
                0 <= c < x ==> {
                    let m = march(map@, pose.x as int, pose.y as int, rays@[c].0 as int, rays@[c].1 as int, MAX_RAY_STEPS as nat);
                    &&& (#[trigger] hits@[c]) is None <==> m is None
                    &&& hits@[c] matches Some(k) ==> m == Some(k as nat)
                },
        decreases rays@.len() - x,
    {
        let (sx, sy) = rays[x];
        assert(-UNIT <= rays@[x as int].0 <= UNIT && -UNIT <= rays@[x as int].1 <= UNIT);
        let hit = cast_ray(map, pose.x, pose.y, sx, sy, MAX_RAY_STEPS);
        proof {
            lemma_march_bounded(map@, pose.x as int, pose.y as int, sx as int, sy as int, MAX_RAY_STEPS as nat);
        }
        hits.push(hit);
        x += 1;
    }
    hits
}

/// Rewrites every pixel of a row-major `width` x `height` buffer from the
/// columns' hits: wall strips where a column hit a wall, black elsewhere.
pub fn render_walls(buffer: &mut Vec<u32>, width: usize, height: usize, hits: &Vec<Option<u32>>)
    requires
        old(buffer)@.len() == width * height,
        hits@.len() == width,
        hits_valid(hits@),
        0 < height <= 0xffff_ffff,
    ensures
        final(buffer)@.len() == width * height,
        forall|i: int|
            0 <= i < width * height ==> #[trigger] final(buffer)@[i] == frame_pixel(
                hits@,
                width as int,
                height as int,
                i,
            ),
{
    let n = buffer.len();
    let mut i: usize = 0;
    while i < n
        invariant
            n == buffer@.len(),
            n == width * height,
            hits@.len() == width,
            hits_valid(hits@),
            0 < height <= 0xffff_ffff,
            i <= n,
            forall|j: int|
                0 <= j < i ==> #[trigger] buffer@[j] == frame_pixel(hits@, width as int, height as int, j),
        decreases n - i,
    {
        assert(width > 0) by (nonlinear_arith)
            requires i < n, n == width * height;
        let x = i % width;
        let y = i / width;
        let hit = hits[x];
        let v = column_pixel(hit, y as u64, height as u32);
        buffer.set(i, v);
        i += 1;
    }
}

} // verus!
