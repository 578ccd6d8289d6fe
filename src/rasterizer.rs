use crate::blending::{blend_result, BlendAttachment};
use crate::depth::{depth_is_negative, depth_le, depth_less_equal, depth_negative};
use crate::framebuffer::{Framebuffer, MutableScanline};
use crate::scissor::{max, min, Scissor};
use crate::shader::{Coverage, PointBounds, Shader, VertexContext, WindingOrder};
use crate::error::RasterizerError;
use rayon::iter::{IndexedParallelIterator, IntoParallelIterator, ParallelIterator};
use std::sync::{Arc, Mutex, MutexGuard};
use vstd::arithmetic::div_mod::lemma_fundamental_div_mod_converse;
use vstd::prelude::*;

verus! {

/// Whether fragments are tested against, and written to, the depth attachment.
#[derive(Debug, Clone, Copy, PartialEq, Eq, Structural)]
pub enum DepthMode {
    DontCare,
    Test,
    Write,
}

impl DepthMode {
    pub open spec fn tests(self) -> bool {
        !(self is DontCare)
    }

    pub open spec fn writes(self) -> bool {
        self is Write
    }

    /// Fragments are compared with the stored depth (Test and Write).
    pub fn should_test(&self) -> (r: bool)
        ensures
            r == self.tests(),
    {
        match self {
            DepthMode::DontCare => false,
            _ => true,
        }
    }

    /// Surviving fragments store their depth (Write only).
    pub fn should_write(&self) -> (r: bool)
        ensures
            r == self.writes(),
    {
        match self {
            DepthMode::Write => true,
            _ => false,
        }
    }
}

/// Fixed state for a run of draw calls.
pub struct Pipeline<S> {
    pub depth: DepthMode,
    pub cull_back: bool,
    pub winding_order: WindingOrder,
    /// One blend per colour attachment; `None` writes the source colour.
    pub blending: Option<Vec<BlendAttachment>>,
    pub shader: S,
}

/// A draw of an indexed triangle list.
pub struct IndexedRenderCall<'a, S: Shader> {
    pub pipeline: &'a Pipeline<S>,
    /// Kept with the call; index lookups do not add it.
    pub vertex_offset: usize,
    pub first_instance: usize,
    pub instance_count: usize,
    pub scissor: Option<Scissor>,
    /// Three consecutive indices make a face; one or two left over are ignored.
    pub indices: &'a [u16],
    pub data: &'a S::Uniform,
}

/// Counters of one frame.
#[derive(Debug, Clone, Copy, PartialEq, Eq, Structural)]
pub struct RenderStats {
    pub faces_processed: usize,
    pub faces_rendered: usize,
    pub instances: usize,
    pub calls: usize,
}

impl RenderStats {
    pub open spec fn is_zero(self) -> bool {
        self == (RenderStats { faces_processed: 0, faces_rendered: 0, instances: 0, calls: 0 })
    }

    /// No counter went down from `old` to `self`, and no more faces were
    /// rendered than processed.
    pub open spec fn grew_from(self, old: RenderStats) -> bool {
        &&& old.calls <= self.calls
        &&& old.instances <= self.instances
        &&& old.faces_processed <= self.faces_processed
        &&& old.faces_rendered <= self.faces_rendered
        &&& self.faces_rendered <= self.faces_processed
    }
}

impl Default for RenderStats {
    fn default() -> (r: RenderStats)
        ensures
            r.is_zero(),
    {
        RenderStats { faces_processed: 0, faces_rendered: 0, instances: 0, calls: 0 }
    }
}

/// The pixel box that encloses a face's vertices.
pub open spec fn bounds_hold(points: Seq<PointBounds>, max_width: nat, max_height: nat) -> bool {
    &&& points.len() > 0
    &&& forall|i: int|
        0 <= i < points.len() ==> {
            &&& #[trigger] points[i].x_floor <= points[i].x_ceil <= max_width
            &&& points[i].y_floor <= points[i].y_ceil <= max_height
        }
}

pub open spec fn min_x_floor(points: Seq<PointBounds>, init: int) -> int
    decreases points.len(),
{
    if points.len() == 0 {
        init
    } else {
        min(min_x_floor(points.drop_last(), init), points.last().x_floor as int)
    }
}

pub open spec fn min_y_floor(points: Seq<PointBounds>, init: int) -> int
    decreases points.len(),
{
    if points.len() == 0 {
        init
    } else {
        min(min_y_floor(points.drop_last(), init), points.last().y_floor as int)
    }
}

pub open spec fn max_x_ceil(points: Seq<PointBounds>) -> int
    decreases points.len(),
{
    if points.len() == 0 {
        0
    } else {
        max(max_x_ceil(points.drop_last()), points.last().x_ceil as int)
    }
}

pub open spec fn max_y_ceil(points: Seq<PointBounds>) -> int
    decreases points.len(),
{
    if points.len() == 0 {
        0
    } else {
        max(max_y_ceil(points.drop_last()), points.last().y_ceil as int)
    }
}

/// The smallest pixel box holding every vertex: lowest floors to highest
/// ceilings.
pub open spec fn bounding_scissor(points: Seq<PointBounds>, max_width: nat, max_height: nat) -> Scissor {
    let x0 = min_x_floor(points, max_width as int);
    let y0 = min_y_floor(points, max_height as int);
    Scissor {
        x: x0 as usize,
        y: y0 as usize,
        width: (max_x_ceil(points) - x0) as usize,
        height: (max_y_ceil(points) - y0) as usize,
    }
}

proof fn lemma_bounds_ordered(points: Seq<PointBounds>, max_width: nat, max_height: nat)
    requires
        bounds_hold(points, max_width, max_height),
    ensures
        0 <= min_x_floor(points, max_width as int) <= max_x_ceil(points) <= max_width,
        0 <= min_y_floor(points, max_height as int) <= max_y_ceil(points) <= max_height,
    decreases points.len(),
{
    let last = points[points.len() - 1];
    assert(last == points.last());
    assert(last.x_floor <= last.x_ceil <= max_width);
    let rest = points.drop_last();
    if points.len() > 1 {
        assert forall|i: int| 0 <= i < rest.len() implies {
            &&& #[trigger] rest[i].x_floor <= rest[i].x_ceil <= max_width
            &&& rest[i].y_floor <= rest[i].y_ceil <= max_height
        } by {
            assert(rest[i] == points[i]);
        }
        lemma_bounds_ordered(rest, max_width, max_height);
    } else {
        assert(min_x_floor(rest, max_width as int) == max_width);
        assert(min_y_floor(rest, max_height as int) == max_height);
        assert(max_x_ceil(rest) == 0);
        assert(max_y_ceil(rest) == 0);
    }
}

/// The pixel box enclosing the given vertex positions on a
/// `max_width` × `max_height` target.
pub fn gen_scissor(points: &[PointBounds], max_width: usize, max_height: usize) -> (r: Scissor)
    requires
        bounds_hold(points@, max_width as nat, max_height as nat),
    ensures
        r == bounding_scissor(points@, max_width as nat, max_height as nat),
        r.x + r.width <= max_width,
        r.y + r.height <= max_height,
{
    let mut x0 = max_width;
    let mut y0 = max_height;
    let mut x1: usize = 0;
    let mut y1: usize = 0;
    let mut i: usize = 0;
    while i < points.len()
        invariant
            i <= points@.len(),
            bounds_hold(points@, max_width as nat, max_height as nat),
            x0 == min_x_floor(points@.take(i as int), max_width as int),
            y0 == min_y_floor(points@.take(i as int), max_height as int),
            x1 == max_x_ceil(points@.take(i as int)),
            y1 == max_y_ceil(points@.take(i as int)),
            x1 <= max_width,
            y1 <= max_height,
        decreases points@.len() - i,
    {
        let p = points[i];
        proof {
            assert(points@.take(i + 1).drop_last() == points@.take(i as int));
            assert(points@.take(i + 1).last() == p);
        }
        if p.x_floor < x0 {
            x0 = p.x_floor;
        }
        if p.y_floor < y0 {
            y0 = p.y_floor;
        }
        if p.x_ceil > x1 {
            x1 = p.x_ceil;
        }
        if p.y_ceil > y1 {
            y1 = p.y_ceil;
        }
        i = i + 1;
    }
    proof {
        assert(points@.take(points@.len() as int) == points@);
        lemma_bounds_ordered(points@, max_width as nat, max_height as nat);
    }
    Scissor { x: x0, y: y0, width: x1 - x0, height: y1 - y0 }
}

/// Whether every vertex position lies on a `max_width` × `max_height` target
/// with its floors below its ceilings.
fn bounds_fit(points: &Vec<PointBounds>, max_width: usize, max_height: usize) -> (r: bool)
    ensures
        r == bounds_hold(points@, max_width as nat, max_height as nat),
{
    if points.len() == 0 {
        return false;
    }
    let mut i: usize = 0;
    while i < points.len()
        invariant
            i <= points@.len(),
            forall|j: int|
                0 <= j < i ==> {
                    &&& #[trigger] points@[j].x_floor <= points@[j].x_ceil <= max_width
                    &&& points@[j].y_floor <= points@[j].y_ceil <= max_height
                },
        decreases points@.len() - i,
    {
        let p = points[i];
        if !(p.x_floor <= p.x_ceil && p.x_ceil <= max_width && p.y_floor <= p.y_ceil && p.y_ceil
            <= max_height) {
            return false;
        }
        i = i + 1;
    }
    true
}

/// A pixel is kept when its centre is inside the face on the front side, or,
/// without back-face culling, on either side.
pub open spec fn covers(c: Coverage, cull_back: bool) -> bool {
    c.front || (!cull_back && c.back)
}

/// A fragment is dropped when its depth is negative, or when the depth mode
/// tests and the stored depth is smaller than the fragment's.
pub open spec fn discards(depth: u32, mode: DepthMode, stored: Option<u32>) -> bool {
    depth_negative(depth) || (mode.tests() && (stored matches Some(s) && !depth_le(depth, s)))
}

/// What colour attachment `i` holds after a fragment of colour `src` lands
/// on a pixel that held `dst`.
pub open spec fn merged_color(blending: Option<Vec<BlendAttachment>>, i: int, src: u32, dst: u32) -> u32 {
    match blending {
        Some(b) => if 0 <= i < b@.len() {
            blend_result(b@[i], src, dst)
        } else {
            src
        },
        None => src,
    }
}

/// Whether the pixel with these edge signs is kept.
pub fn fragment_covered(coverage: Coverage, cull_back: bool) -> (r: bool)
    ensures
        r == covers(coverage, cull_back),
{
    if cull_back {
        coverage.front
    } else {
        coverage.front || coverage.back
    }
}

/// Whether the stored depth lets a fragment at `current_depth` through.
fn depth_test(current_depth: u32, stored: Option<u32>) -> (r: bool)
    ensures
        r == (stored matches Some(s) ==> depth_le(current_depth, s)),
{
    match stored {
        Some(closest_depth) => depth_less_equal(current_depth, closest_depth),
        None => true,
    }
}

/// Whether a fragment at `current_depth` is dropped, given the depth mode
/// and the depth stored at its pixel.
pub fn should_discard_fragment(current_depth: u32, depth_mode: DepthMode, stored: Option<u32>) -> (r:
    bool)
    ensures
        r == discards(current_depth, depth_mode, stored),
{
    if depth_is_negative(current_depth) {
        true
    } else {
        depth_mode.should_test() && !depth_test(current_depth, stored)
    }
}

/// Column `x` exists in every row of the line.
pub open spec fn has_column(line: MutableScanline, x: int) -> bool {
    &&& forall|i: int| 0 <= i < line.color@.len() ==> x < (#[trigger] line.color@[i])@.len()
    &&& line.depth matches Some(row) ==> x < row@.len()
}

/// The same row index, number of rows and row lengths as `other`.
pub open spec fn same_line_shape(line: MutableScanline, other: MutableScanline) -> bool {
    &&& line.y == other.y
    &&& line.color@.len() == other.color@.len()
    &&& forall|i: int|
        0 <= i < line.color@.len() ==> (#[trigger] line.color@[i])@.len() == other.color@[i]@.len()
    &&& line.depth is Some == other.depth is Some
    &&& line.depth matches Some(row) ==> row@.len() == other.depth.unwrap()@.len()
}

/// `a` holds what `b` holds in every column outside `lo..hi`.
pub open spec fn agrees_outside_columns(a: MutableScanline, b: MutableScanline, lo: int, hi: int) -> bool {
    &&& forall|i: int, c: int|
        0 <= i < b.color@.len() && 0 <= c < b.color@[i]@.len() && !(lo <= c < hi)
            ==> #[trigger] a.color@[i]@[c] == b.color@[i]@[c]
    &&& b.depth matches Some(r) ==> forall|c: int|
        0 <= c < r@.len() && !(lo <= c < hi) ==> #[trigger] a.depth.unwrap()@[c] == r@[c]
}

/// `new` holds what `old` holds at every pixel outside `s`.
pub open spec fn unchanged_outside(new: Framebuffer, old: Framebuffer, s: Scissor) -> bool {
    &&& forall|i: int, px: int, py: int|
        0 <= i < old.colors().len() && 0 <= px < old.spec_width() && 0 <= py < old.spec_height()
            && !s.holds(px, py) ==> #[trigger] new.colors()[i].pixel(px, py)
            == old.colors()[i].pixel(px, py)
    &&& old.depth_image() matches Some(d) ==> forall|px: int, py: int|
        0 <= px < old.spec_width() && 0 <= py < old.spec_height() && !s.holds(px, py)
            ==> #[trigger] new.depth_image().unwrap().pixel(px, py) == d.pixel(px, py)
}

proof fn lemma_unchanged_outside_trans(a: Framebuffer, b: Framebuffer, c: Framebuffer, s: Scissor)
    requires
        b.same_shape(&c),
        unchanged_outside(a, b, s),
        unchanged_outside(b, c, s),
    ensures
        unchanged_outside(a, c, s),
{
    assert forall|i: int, px: int, py: int|
        0 <= i < c.colors().len() && 0 <= px < c.spec_width() && 0 <= py < c.spec_height()
            && !s.holds(px, py) implies #[trigger] a.colors()[i].pixel(px, py) == c.colors()[i].pixel(
        px,
        py,
    ) by {
        assert(a.colors()[i].pixel(px, py) == b.colors()[i].pixel(px, py));
    }
    if c.depth_image() is Some {
        assert forall|px: int, py: int|
            0 <= px < c.spec_width() && 0 <= py < c.spec_height() && !s.holds(
                px,
                py,
            ) implies #[trigger] a.depth_image().unwrap().pixel(px, py)
            == c.depth_image().unwrap().pixel(px, py) by {
            assert(a.depth_image().unwrap().pixel(px, py) == b.depth_image().unwrap().pixel(px, py));
        }
    }
}

/// Merges a fragment of colour `color` and depth `depth` into column `x` of
/// a scanline: each colour row gets the colour, blended over what it held
/// where the pipeline blends, and a depth-writing pipeline stores the depth.
pub fn render_fragment<S>(
    x: usize,
    color: u32,
    depth: u32,
    pipeline: &Pipeline<S>,
    scanline: &mut MutableScanline,
)
    requires
        has_column(*old(scanline), x as int),
    ensures
        same_line_shape(*final(scanline), *old(scanline)),
        forall|i: int|
            0 <= i < old(scanline).color@.len() ==> (#[trigger] final(scanline).color@[i])@
                == old(scanline).color@[i]@.update(
                x as int,
                merged_color(pipeline.blending, i, color, old(scanline).color@[i]@[x as int]),
            ),
        pipeline.depth.writes() && old(scanline).depth is Some
            ==> final(scanline).depth.unwrap()@ == old(scanline).depth.unwrap()@.update(x as int, depth),
        !(pipeline.depth.writes() && old(scanline).depth is Some)
            ==> final(scanline).depth == old(scanline).depth,
{
    let n = scanline.color.len();
    let mut i: usize = 0;
    while i < n
        invariant
            i <= n,
            n == old(scanline).color@.len(),
            has_column(*old(scanline), x as int),
            same_line_shape(*scanline, *old(scanline)),
            scanline.depth == old(scanline).depth,
            forall|j: int|
                0 <= j < i ==> (#[trigger] scanline.color@[j])@ == old(scanline).color@[j]@.update(
                    x as int,
                    merged_color(pipeline.blending, j, color, old(scanline).color@[j]@[x as int]),
                ),
            forall|j: int| i <= j < n ==> #[trigger] scanline.color@[j] == old(scanline).color@[j],
        decreases n - i,
    {
        let dst = scanline.color[i][x];
        let value = match &pipeline.blending {
            Some(blending) => if i < blending.len() {
                blending[i].blend_colors(color, dst)
            } else {
                color
            },
            None => color,
        };
        scanline.color[i][x] = value;
        i = i + 1;
    }
    if pipeline.depth.should_write() {
        match &mut scanline.depth {
            Some(depth_row) => {
                depth_row[x] = depth;
            },
            None => {},
        }
    }
}

/// The depth that column `x` of the line holds, if it has a depth row.
pub open spec fn stored_depth(line: MutableScanline, x: int) -> Option<u32> {
    match line.depth {
        Some(row) => Some(row@[x]),
        None => None,
    }
}

/// The fragment of `face` at pixel (x, y) survives: its centre is covered
/// and its depth is not discarded against `stored`.
pub open spec fn fragment_kept<S: Shader>(
    pipeline: Pipeline<S>,
    face: S::Face,
    x: usize,
    y: usize,
    stored: Option<u32>,
) -> bool {
    &&& covers(pipeline.shader.spec_coverage(face, x, y), pipeline.cull_back)
    &&& !discards(pipeline.shader.spec_depth(face, x, y), pipeline.depth, stored)
}

/// Column `x` of `new` is column `x` of `old` after the fragment of `face`
/// at (x, old.y): where it survives, every colour row takes the shaded
/// colour (blended where the pipeline blends) and a depth-writing pipeline
/// stores its depth; where it does not, the column is as it was.
pub open spec fn column_follows_rule<S: Shader>(
    new: MutableScanline,
    old: MutableScanline,
    x: int,
    call: &IndexedRenderCall<S>,
    instance_id: usize,
    face: S::Face,
) -> bool {
    let p = *call.pipeline;
    let y = old.y;
    let d = p.shader.spec_depth(face, x as usize, y);
    let kept = fragment_kept(p, face, x as usize, y, stored_depth(old, x));
    let c = p.shader.spec_shade(face, *call.data, instance_id, x as usize, y, d);
    &&& forall|i: int|
        0 <= i < old.color@.len() ==> #[trigger] new.color@[i]@[x] == if kept {
            merged_color(p.blending, i, c, old.color@[i]@[x])
        } else {
            old.color@[i]@[x]
        }
    &&& old.depth matches Some(row) ==> new.depth.unwrap()@[x] == if kept && p.depth.writes() {
        d
    } else {
        row@[x]
    }
}

/// The depth that `fb` holds at (px, py), if it has a depth attachment.
pub open spec fn stored_pixel_depth(fb: Framebuffer, px: int, py: int) -> Option<u32> {
    match fb.depth_image() {
        Some(d) => Some(d.pixel(px, py)),
        None => None,
    }
}

/// Pixel (px, py) of `new` is that of `old` after the fragment of `face`
/// there: the rule of `column_follows_rule`, on a whole framebuffer.
pub open spec fn pixel_follows_rule<S: Shader>(
    new: Framebuffer,
    old: Framebuffer,
    px: int,
    py: int,
    call: &IndexedRenderCall<S>,
    instance_id: usize,
    face: S::Face,
) -> bool {
    let p = *call.pipeline;
    let d = p.shader.spec_depth(face, px as usize, py as usize);
    let kept = fragment_kept(p, face, px as usize, py as usize, stored_pixel_depth(old, px, py));
    let c = p.shader.spec_shade(face, *call.data, instance_id, px as usize, py as usize, d);
    &&& forall|i: int|
        0 <= i < old.colors().len() ==> #[trigger] new.colors()[i].pixel(px, py) == if kept {
            merged_color(p.blending, i, c, old.colors()[i].pixel(px, py))
        } else {
            old.colors()[i].pixel(px, py)
        }
    &&& old.depth_image() matches Some(dimg) ==> new.depth_image().unwrap().pixel(px, py) == if kept
        && p.depth.writes() {
        d
    } else {
        dimg.pixel(px, py)
    }
}

/// The face that the vertex stage makes of face `face_index` of the call,
/// for instance `instance_id` on a `width` × `height` target.
pub open spec fn face_of<S: Shader>(
    call: &IndexedRenderCall<S>,
    instance_id: usize,
    face_index: int,
    width: usize,
    height: usize,
) -> S::Face {
    call.pipeline.shader.spec_face(
        *call.data,
        instance_id,
        call.indices@[3 * face_index] as usize,
        call.indices@[3 * face_index + 1] as usize,
        call.indices@[3 * face_index + 2] as usize,
        width,
        height,
        call.pipeline.winding_order,
    )
}

/// The pixels a face is drawn over: the box around its vertices, narrowed
/// by the call's scissor. None when the vertex bounds do not lie on the
/// target, when the box and the scissor do not overlap, or when the box
/// starts below the last row.
pub open spec fn drawn_box<S: Shader>(
    call: &IndexedRenderCall<S>,
    face: S::Face,
    width: usize,
    height: usize,
) -> Option<Scissor> {
    let b = call.pipeline.shader.spec_vertex_bounds(face)@;
    if !bounds_hold(b, width as nat, height as nat) {
        None
    } else {
        let g = bounding_scissor(b, width as nat, height as nat);
        let f = match call.scissor {
            Some(u) => Scissor::overlap(g, u),
            None => Some(g),
        };
        match f {
            Some(s) => if s.y < height {
                Some(s)
            } else {
                None
            },
            None => None,
        }
    }
}

/// 1 when face `face_index` of instance `instance_id` has a box to draw
/// over on a `width` × `height` target, else 0.
pub open spec fn face_drawn<S: Shader>(
    call: &IndexedRenderCall<S>,
    instance_id: usize,
    face_index: int,
    width: usize,
    height: usize,
) -> nat {
    if drawn_box(call, face_of(call, instance_id, face_index, width, height), width, height) is Some {
        1
    } else {
        0
    }
}

/// `new` is `old` with face `face_index` of instance `instance_id` drawn:
/// nothing changes when the face has no box; otherwise every pixel of the
/// box follows the pixel rule and every other pixel is as it was.
pub open spec fn face_applied<S: Shader>(
    new: Framebuffer,
    old: Framebuffer,
    call: &IndexedRenderCall<S>,
    instance_id: usize,
    face_index: int,
) -> bool {
    let w = old.spec_width() as usize;
    let h = old.spec_height() as usize;
    let face = face_of(call, instance_id, face_index, w, h);
    match drawn_box(call, face, w, h) {
        None => new == old,
        Some(s) => {
            &&& unchanged_outside(new, old, s)
            &&& forall|px: int, py: int|
                s.holds(px, py) ==> pixel_follows_rule(new, old, px, py, call, instance_id, face)
        },
    }
}

/// The colours (one per attachment) and the depth, if any, at (px, py).
pub open spec fn pixel_state(fb: Framebuffer, px: int, py: int) -> (Seq<u32>, Option<u32>) {
    (Seq::new(fb.colors().len(), |i: int| fb.colors()[i].pixel(px, py)), stored_pixel_depth(fb, px, py))
}

/// What pixel (px, py) holds after face `face_index` of instance
/// `instance_id` is drawn over `state`.
pub open spec fn pixel_step<S: Shader>(
    call: &IndexedRenderCall<S>,
    instance_id: usize,
    face_index: int,
    width: usize,
    height: usize,
    px: int,
    py: int,
    state: (Seq<u32>, Option<u32>),
) -> (Seq<u32>, Option<u32>) {
    let face = face_of(call, instance_id, face_index, width, height);
    match drawn_box(call, face, width, height) {
        Some(s) => if s.holds(px, py) {
            let p = *call.pipeline;
            let d = p.shader.spec_depth(face, px as usize, py as usize);
            let kept = fragment_kept(p, face, px as usize, py as usize, state.1);
            let c = p.shader.spec_shade(face, *call.data, instance_id, px as usize, py as usize, d);
            (
                if kept {
                    Seq::new(state.0.len(), |i: int| merged_color(p.blending, i, c, state.0[i]))
                } else {
                    state.0
                },
                if kept && p.depth.writes() && state.1 is Some {
                    Some(d)
                } else {
                    state.1
                },
            )
        } else {
            state
        },
        None => state,
    }
}

/// The number of whole faces in the call's index list.
pub open spec fn face_count<S: Shader>(call: &IndexedRenderCall<S>) -> nat {
    call.indices@.len() / 3
}

/// What pixel (px, py) holds after the first `n` faces of the call, taken
/// instance by instance and face by face within an instance.
pub open spec fn pixel_after<S: Shader>(
    call: &IndexedRenderCall<S>,
    width: usize,
    height: usize,
    n: nat,
    px: int,
    py: int,
    start: (Seq<u32>, Option<u32>),
) -> (Seq<u32>, Option<u32>)
    decreases n,
{
    if n == 0 || face_count(call) == 0 {
        start
    } else {
        let k = (n - 1) as nat;
        pixel_step(
            call,
            (call.first_instance + k / face_count(call)) as usize,
            (k % face_count(call)) as int,
            width,
            height,
            px,
            py,
            pixel_after(call, width, height, k, px, py, start),
        )
    }
}

/// How many of the first `n` faces of the call have a box to draw over.
pub open spec fn drawn_faces<S: Shader>(
    call: &IndexedRenderCall<S>,
    width: usize,
    height: usize,
    n: nat,
) -> nat
    decreases n,
{
    if n == 0 || face_count(call) == 0 {
        0
    } else {
        let k = (n - 1) as nat;
        drawn_faces(call, width, height, k) + face_drawn(
            call,
            (call.first_instance + k / face_count(call)) as usize,
            (k % face_count(call)) as int,
            width,
            height,
        )
    }
}

proof fn lemma_face_step<S: Shader>(
    new: Framebuffer,
    old: Framebuffer,
    call: &IndexedRenderCall<S>,
    instance_id: usize,
    face_index: int,
    px: int,
    py: int,
)
    requires
        new.same_shape(&old),
        face_applied(new, old, call, instance_id, face_index),
        0 <= px < old.spec_width(),
        0 <= py < old.spec_height(),
    ensures
        pixel_state(new, px, py) == pixel_step(
            call,
            instance_id,
            face_index,
            old.spec_width() as usize,
            old.spec_height() as usize,
            px,
            py,
            pixel_state(old, px, py),
        ),
{
    let w = old.spec_width() as usize;
    let h = old.spec_height() as usize;
    let face = face_of(call, instance_id, face_index, w, h);
    let st = pixel_state(old, px, py);
    let nst = pixel_state(new, px, py);
    match drawn_box(call, face, w, h) {
        None => {},
        Some(s) => {
            if s.holds(px, py) {
                assert(pixel_follows_rule(new, old, px, py, call, instance_id, face));
                let p = *call.pipeline;
                let d = p.shader.spec_depth(face, px as usize, py as usize);
                let kept = fragment_kept(p, face, px as usize, py as usize, st.1);
                let c = p.shader.spec_shade(face, *call.data, instance_id, px as usize, py as usize, d);
                if kept {
                    assert(nst.0 =~= Seq::new(st.0.len(), |i: int| merged_color(p.blending, i, c, st.0[i])));
                } else {
                    assert(nst.0 =~= st.0);
                }
            } else {
                assert(nst.0 =~= st.0);
            }
        },
    }
}

/// Decides column `x` of a scanline for a face and, if the fragment
/// survives, writes it.
fn process_pixel<S: Shader>(
    x: usize,
    instance_id: usize,
    face: &S::Face,
    call: &IndexedRenderCall<S>,
    scanline: &mut MutableScanline,
)
    requires
        has_column(*old(scanline), x as int),
    ensures
        same_line_shape(*final(scanline), *old(scanline)),
        agrees_outside_columns(*final(scanline), *old(scanline), x as int, x + 1),
        column_follows_rule(*final(scanline), *old(scanline), x as int, call, instance_id, *face),
{
    let pipeline = call.pipeline;
    let y = scanline.y;
    let coverage = pipeline.shader.coverage(face, x, y);
    if !fragment_covered(coverage, pipeline.cull_back) {
        return ;
    }
    let depth = pipeline.shader.depth(face, x, y);
    let stored = match &scanline.depth {
        Some(row) => Some(row[x]),
        None => None,
    };
    if should_discard_fragment(depth, pipeline.depth, stored) {
        return ;
    }
    let color = pipeline.shader.shade(face, call.data, instance_id, x, y, depth);
    render_fragment(x, color, depth, pipeline, scanline);
}

/// Every row of the line is at least `n` long.
pub open spec fn spans_columns(line: MutableScanline, n: int) -> bool {
    &&& forall|i: int| 0 <= i < line.color@.len() ==> n <= (#[trigger] line.color@[i])@.len()
    &&& line.depth matches Some(row) ==> n <= row@.len()
}

/// Decides columns `x0 .. x0 + width` of a scanline for a face and writes
/// the fragments that survive; the other columns keep their values.
pub fn render_scanline<S: Shader>(
    line: MutableScanline,
    x0: usize,
    width: usize,
    instance_id: usize,
    face: &S::Face,
    call: &IndexedRenderCall<S>,
) -> (r: MutableScanline)
    requires
        x0 + width <= usize::MAX,
        spans_columns(line, x0 + width),
    ensures
        same_line_shape(r, line),
        agrees_outside_columns(r, line, x0 as int, x0 + width),
        forall|x: int|
            x0 <= x < x0 + width ==> column_follows_rule(r, line, x, call, instance_id, *face),
{
    let mut line = line;
    let ghost line0 = line;
    let mut dx: usize = 0;
    while dx < width
        invariant
            x0 + width <= usize::MAX,
            spans_columns(line0, x0 + width),
            dx <= width,
            same_line_shape(line, line0),
            agrees_outside_columns(line, line0, x0 as int, x0 + dx),
            forall|x: int|
                x0 <= x < x0 + dx ==> column_follows_rule(line, line0, x, call, instance_id, *face),
        decreases width - dx,
    {
        let ghost before = line;
        let c = x0 + dx;
        process_pixel(c, instance_id, face, call, &mut line);
        proof {
            assert forall|x: int|
                x0 <= x < x0 + dx + 1 implies column_follows_rule(
                line,
                line0,
                x,
                call,
                instance_id,
                *face,
            ) by {
                if x == c {
                    assert(stored_depth(before, x) == stored_depth(line0, x));
                    assert forall|i: int| 0 <= i < line0.color@.len() implies before.color@[i]@[x]
                        == line0.color@[i]@[x] by {}
                } else {
                    assert(column_follows_rule(before, line0, x, call, instance_id, *face));
                    assert forall|i: int| 0 <= i < line0.color@.len() implies line.color@[i]@[x]
                        == before.color@[i]@[x] by {}
                }
            }
        }
        dx = dx + 1;
    }
    line
}

/// With back-face culling, a pixel whose edge signs are not all
/// non-negative is never kept.
pub proof fn lemma_culling_rejects_back_side(c: Coverage)
    requires
        !c.front,
    ensures
        !covers(c, true),
{
}

/// Under a depth test, a fragment farther than the stored depth is dropped
/// and one at the same depth is kept (the test is less-or-equal).
pub proof fn lemma_depth_test_less_equal(depth: u32, stored: u32, mode: DepthMode)
    requires
        mode.tests(),
        !depth_negative(depth),
        !crate::depth::is_nan(depth),
        !crate::depth::is_nan(stored),
    ensures
        discards(depth, mode, Some(stored)) <==> crate::depth::order_key(stored)
            < crate::depth::order_key(depth),
        !discards(depth, mode, Some(depth)),
{
}

/// Over the calls of a frame no counter goes down, and no more faces are
/// rendered than processed.
pub proof fn lemma_stats_monotone(
    before: RenderStats,
    after: RenderStats,
    instance_count: nat,
    index_count: nat,
)
    requires
        before.faces_rendered <= before.faces_processed,
        counted_call(before, after, instance_count, index_count),
    ensures
        after.grew_from(before),
{
}

/// With back-face culling, a face whose edge signs at a pixel are not all
/// non-negative leaves that pixel as it was.
pub proof fn lemma_culled_pixel_unchanged<S: Shader>(
    call: &IndexedRenderCall<S>,
    instance_id: usize,
    face_index: int,
    width: usize,
    height: usize,
    px: int,
    py: int,
    state: (Seq<u32>, Option<u32>),
)
    requires
        call.pipeline.cull_back,
        !call.pipeline.shader.spec_coverage(
            face_of(call, instance_id, face_index, width, height),
            px as usize,
            py as usize,
        ).front,
    ensures
        pixel_step(call, instance_id, face_index, width, height, px, py, state) == state,
{
}

/// A pixel of a face's box whose fragment survives takes, without blending,
/// the colour that the fragment stage gives it in every attachment; with a
/// depth-writing pipeline it stores the fragment's depth.
pub proof fn lemma_kept_pixel_shaded<S: Shader>(
    call: &IndexedRenderCall<S>,
    instance_id: usize,
    face_index: int,
    width: usize,
    height: usize,
    px: int,
    py: int,
    state: (Seq<u32>, Option<u32>),
)
    requires
        call.pipeline.blending is None,
        ({
            let face = face_of(call, instance_id, face_index, width, height);
            &&& drawn_box(call, face, width, height) matches Some(s) && s.holds(px, py)
            &&& fragment_kept(*call.pipeline, face, px as usize, py as usize, state.1)
        }),
    ensures
        ({
            let face = face_of(call, instance_id, face_index, width, height);
            let d = call.pipeline.shader.spec_depth(face, px as usize, py as usize);
            let c = call.pipeline.shader.spec_shade(
                face,
                *call.data,
                instance_id,
                px as usize,
                py as usize,
                d,
            );
            let r = pixel_step(call, instance_id, face_index, width, height, px, py, state);
            &&& r.0 == Seq::new(state.0.len(), |i: int| c)
            &&& call.pipeline.depth.writes() && state.1 is Some ==> r.1 == Some(d)
        }),
{
    let face = face_of(call, instance_id, face_index, width, height);
    let d = call.pipeline.shader.spec_depth(face, px as usize, py as usize);
    let c = call.pipeline.shader.spec_shade(face, *call.data, instance_id, px as usize, py as usize, d);
    let r = pixel_step(call, instance_id, face_index, width, height, px, py, state);
    assert(r.0 =~= Seq::new(state.0.len(), |i: int| c));
}

/// Under a depth test, a face whose depth at a pixel is farther than the
/// stored depth leaves colour and depth there as they were.
pub proof fn lemma_farther_fragment_unchanged<S: Shader>(
    call: &IndexedRenderCall<S>,
    instance_id: usize,
    face_index: int,
    width: usize,
    height: usize,
    px: int,
    py: int,
    state: (Seq<u32>, Option<u32>),
)
    requires
        call.pipeline.depth.tests(),
        state.1 matches Some(stored) && !depth_le(
            call.pipeline.shader.spec_depth(
                face_of(call, instance_id, face_index, width, height),
                px as usize,
                py as usize,
            ),
            stored,
        ),
    ensures
        pixel_step(call, instance_id, face_index, width, height, px, py, state) == state,
{
}

/// Without blending, every attachment receives the source colour as it is.
pub proof fn lemma_no_blending_writes_source(i: int, src: u32, dst: u32)
    ensures
        merged_color(None, i, src, dst) == src,
{
}

/// The number of vertices in a face.
pub const VERTICES_PER_FACE: usize = 3;

/// The counters can take one more call of `instance_count` instances of
/// `index_count / 3` faces.
pub open spec fn fits_counters(stats: RenderStats, instance_count: nat, index_count: nat) -> bool {
    &&& stats.calls < usize::MAX
    &&& stats.instances + instance_count <= usize::MAX
    &&& stats.faces_processed + instance_count * (index_count / 3) <= usize::MAX
}

/// The counters after one call of `instance_count` instances of
/// `index_count / 3` faces: one more call, every instance and face counted
/// as processed, and between none and all of those faces as rendered.
pub open spec fn counted_call(
    old: RenderStats,
    new: RenderStats,
    instance_count: nat,
    index_count: nat,
) -> bool {
    &&& new.calls == old.calls + 1
    &&& new.instances == old.instances + instance_count
    &&& new.faces_processed == old.faces_processed + instance_count * (index_count / 3)
    &&& old.faces_rendered <= new.faces_rendered
    &&& new.faces_rendered - old.faces_rendered <= instance_count * (index_count / 3)
}

proof fn lemma_face_count_bound(s0: RenderStats, n: nat, index_count: nat, i: nat, j: nat)
    requires
        fits_counters(s0, n, index_count),
        i < n,
        j <= index_count / 3,
    ensures
        s0.faces_processed + i * (index_count / 3) + j <= usize::MAX,
        j < index_count / 3 ==> s0.faces_processed + i * (index_count / 3) + j < usize::MAX,
        j < index_count / 3 ==> j * 3 + 3 <= index_count,
{
    let f = index_count / 3;
    assert(i * f + j <= n * f) by (nonlinear_arith)
        requires
            i < n,
            j <= f,
    ;
    assert(j < f ==> i * f + j < n * f) by (nonlinear_arith)
        requires
            i < n,
            j <= f,
    ;
}

/// A handle to a framebuffer that the application and the rasterizer share.
pub type RenderTarget = Arc<Mutex<Framebuffer>>;

/// std's `Mutex`, held opaque inside render-target handles.
#[verifier::external_type_specification]
#[verifier::external_body]
#[verifier::reject_recursive_types(T)]
pub struct ExMutex<T: ?Sized>(Mutex<T>);

/// std's `MutexGuard`: exclusive access to a locked render target.
#[verifier::external_type_specification]
#[verifier::external_body]
#[verifier::reject_recursive_types(T)]
pub struct ExMutexGuard<'a, T: ?Sized + 'a>(MutexGuard<'a, T>);

/// Relies on `Arc::clone`: a second handle to the same framebuffer.
#[verifier::external_body]
fn share(target: &RenderTarget) -> (r: RenderTarget)
    ensures
        r == *target,
{
    Arc::clone(target)
}

/// Relies on `Mutex::lock`: waits until no one else holds the framebuffer.
/// A lock left poisoned by a panicking holder still hands the framebuffer out.
/// The lock is not reentrant: a thread that holds the target's lock while it
/// calls `render_indexed` waits forever.
#[verifier::external_body]
fn lock_target(target: &RenderTarget) -> MutexGuard<'_, Framebuffer> {
    match target.lock() {
        Ok(guard) => guard,
        Err(poisoned) => poisoned.into_inner(),
    }
}

/// Relies on `MutexGuard`'s `DerefMut`: the framebuffer that the guard holds.
#[verifier::external_body]
fn guarded<'a, 'b>(guard: &'a mut MutexGuard<'b, Framebuffer>) -> &'a mut Framebuffer {
    &mut *guard
}

/// Relies on rayon's `into_par_iter().map(f).collect_into_vec(..)`: `f`
/// runs on every line, spread over rayon's thread pool, and each result is
/// placed at the index of the line it came from.
#[verifier::external_body]
fn render_lines_parallel<F>(lines: Vec<MutableScanline>, f: F) -> (r: Vec<MutableScanline>)
    where
        F: Fn(MutableScanline) -> MutableScanline + Sync + Send,
    requires
        forall|k: int| 0 <= k < lines@.len() ==> f.requires((#[trigger] lines@[k],)),
    ensures
        r@.len() == lines@.len(),
        forall|k: int| 0 <= k < lines@.len() ==> f.ensures((#[trigger] lines@[k],), r@[k]),
{
    let mut r = Vec::new();
    lines.into_par_iter().map(f).collect_into_vec(&mut r);
    r
}

/// Runs draw calls into the framebuffer on top of a stack of render targets
/// and counts what it did during the frame.
pub struct Rasterizer {
    stats: RenderStats,
    render_targets: Vec<RenderTarget>,
}

impl Rasterizer {
    /// The counters of the current frame.
    pub closed spec fn spec_stats(&self) -> RenderStats {
        self.stats
    }

    /// The render-target stack, bottom first.
    pub closed spec fn targets(&self) -> Seq<RenderTarget> {
        self.render_targets@
    }

    /// No more faces rendered than processed.
    pub open spec fn wf(&self) -> bool {
        self.spec_stats().faces_rendered <= self.spec_stats().faces_processed
    }

    /// A rasterizer with no render targets and all counters at zero.
    pub fn new() -> (r: Rasterizer)
        ensures
            r.wf(),
            r.spec_stats().is_zero(),
            r.targets().len() == 0,
    {
        Rasterizer { stats: RenderStats::default(), render_targets: Vec::new() }
    }

    /// Starts a frame: refused while render targets are still pushed;
    /// otherwise the counters go back to zero.
    pub fn new_frame(&mut self) -> (r: Result<(), RasterizerError>)
        ensures
            final(self).targets() == old(self).targets(),
            old(self).targets().len() > 0 <==> r == Err::<(), RasterizerError>(
                RasterizerError::RenderTargetUnfinished,
            ),
            old(self).targets().len() > 0 ==> final(self).spec_stats() == old(self).spec_stats(),
            old(self).targets().len() == 0 <==> r is Ok,
            r is Ok ==> final(self).spec_stats().is_zero(),
            old(self).wf() ==> final(self).wf(),
    {
        if self.render_targets.len() > 0 {
            Err(RasterizerError::RenderTargetUnfinished)
        } else {
            self.stats = RenderStats::default();
            Ok(())
        }
    }

    /// The counters of the current frame.
    pub fn stats(&self) -> (r: &RenderStats)
        ensures
            *r == self.spec_stats(),
    {
        &self.stats
    }

    /// Makes `target` the framebuffer that draw calls go to.
    pub fn push_render_target(&mut self, target: RenderTarget)
        ensures
            final(self).targets() == old(self).targets().push(target),
            final(self).spec_stats() == old(self).spec_stats(),
    {
        self.render_targets.push(target);
    }

    /// Drops the top render target; refused when there is none.
    pub fn pop_render_target(&mut self) -> (r: Result<(), RasterizerError>)
        ensures
            final(self).spec_stats() == old(self).spec_stats(),
            old(self).targets().len() == 0 <==> r == Err::<(), RasterizerError>(
                RasterizerError::NoRenderTarget,
            ),
            old(self).targets().len() == 0 ==> final(self).targets() == old(self).targets(),
            old(self).targets().len() > 0 <==> r is Ok,
            r is Ok ==> final(self).targets() == old(self).targets().drop_last(),
    {
        match self.render_targets.pop() {
            Some(_) => Ok(()),
            None => Err(RasterizerError::NoRenderTarget),
        }
    }

    /// A handle to the top render target; refused when there is none.
    pub fn current_render_target(&mut self) -> (r: Result<RenderTarget, RasterizerError>)
        ensures
            final(self).spec_stats() == old(self).spec_stats(),
            final(self).targets() == old(self).targets(),
            old(self).targets().len() == 0 <==> r == Err::<RenderTarget, RasterizerError>(
                RasterizerError::NoRenderTarget,
            ),
            old(self).targets().len() > 0 ==> r == Ok::<RenderTarget, RasterizerError>(
                old(self).targets().last(),
            ),
    {
        let n = self.render_targets.len();
        if n == 0 {
            Err(RasterizerError::NoRenderTarget)
        } else {
            Ok(share(&self.render_targets[n - 1]))
        }
    }

    /// Runs the vertex stage on face `face_index`, bounds it on the
    /// framebuffer, narrows that box by the call's scissor and decides every
    /// pixel in what is left. A face whose box is empty is skipped; one that
    /// is drawn counts as rendered.
    fn render_face<S: Shader + Sync>(
        &mut self,
        instance_id: usize,
        face_index: usize,
        call: &IndexedRenderCall<S>,
        framebuffer: &mut Framebuffer,
    )
        requires
            face_index * VERTICES_PER_FACE + VERTICES_PER_FACE <= call.indices@.len(),
            call.indices@.len() <= usize::MAX,
            old(self).spec_stats().faces_rendered < usize::MAX,
            call.scissor matches Some(s) ==> s.wf(),
        ensures
            final(framebuffer).same_shape(old(framebuffer)),
            final(self).targets() == old(self).targets(),
            final(self).spec_stats() == old(self).spec_stats() || final(self).spec_stats() == (
            RenderStats {
                faces_rendered: (old(self).spec_stats().faces_rendered + 1) as usize,
                ..old(self).spec_stats()
            }),
            call.scissor matches Some(u) ==> unchanged_outside(*final(framebuffer), *old(framebuffer), u),
            face_applied(*final(framebuffer), *old(framebuffer), call, instance_id, face_index as int),
            final(self).spec_stats() == (RenderStats {
                faces_rendered: (old(self).spec_stats().faces_rendered + face_drawn(
                    call,
                    instance_id,
                    face_index as int,
                    old(framebuffer).spec_width() as usize,
                    old(framebuffer).spec_height() as usize,
                )) as usize,
                ..old(self).spec_stats()
            }),
    {
        let index_offset = face_index * VERTICES_PER_FACE;
        let (fb_width, fb_height) = framebuffer.size();
        let vertices = vec![
            VertexContext {
                vertex_id: call.indices[index_offset] as usize,
                instance_id,
                data: call.data,
            },
            VertexContext {
                vertex_id: call.indices[index_offset + 1] as usize,
                instance_id,
                data: call.data,
            },
            VertexContext {
                vertex_id: call.indices[index_offset + 2] as usize,
                instance_id,
                data: call.data,
            },
        ];
        let face = call.pipeline.shader.face(
            vertices.as_slice(),
            fb_width,
            fb_height,
            call.pipeline.winding_order,
        );
        let bounds = call.pipeline.shader.vertex_bounds(&face);
        if !bounds_fit(&bounds, fb_width, fb_height) {
            return ;
        }
        let generated_scissor = gen_scissor(bounds.as_slice(), fb_width, fb_height);
        let final_scissor = match &call.scissor {
            Some(user_scissor) => generated_scissor.intersect_with(user_scissor),
            None => Some(generated_scissor),
        };
        if let Some(scissor) = final_scissor {
            let mut lines = match framebuffer.scanlines(scissor.y, scissor.height) {
                Ok(lines) => lines,
                Err(_) => {
                    return ;
                },
            };
            let ghost fb0 = *framebuffer;
            let ghost n = lines@.len();
            let ghost lines0 = lines@;
            let x0 = scissor.x;
            let x1 = scissor.x + scissor.width;
            let face_ref = &face;
            let render_line = |line: MutableScanline| -> (r: MutableScanline)
                requires
                    spans_columns(line, x1 as int),
                ensures
                    same_line_shape(r, line),
                    agrees_outside_columns(r, line, x0 as int, x1 as int),
                    forall|x: int|
                        x0 <= x < x1 ==> column_follows_rule(r, line, x, call, instance_id, *face_ref),
                { render_scanline(line, x0, scissor.width, instance_id, face_ref, call) };
            proof {
                assert forall|j: int| 0 <= j < n implies spans_columns(#[trigger] lines0[j], x1 as int) by {
                    assert(lines0[j].fits(&fb0));
                }
            }
            let lines = render_lines_parallel(lines, render_line);
            let mut k: usize = 0;
            while k < lines.len()
                invariant
                    lines@.len() == n,
                    n == scissor.height,
                    x1 == scissor.x + scissor.width,
                    x0 == scissor.x,
                    scissor.x + scissor.width <= fb_width,
                    fb_width == fb0.spec_width(),
                    framebuffer.same_shape(&fb0),
                    k <= n,
                    forall|j: int|
                        0 <= j < n ==> (#[trigger] lines0[j]).y == scissor.y + j && lines0[j].holds_row_of(
                            &fb0,
                        ),
                    forall|j: int|
                        0 <= j < n ==> same_line_shape(#[trigger] lines@[j], lines0[j])
                            && agrees_outside_columns(lines@[j], lines0[j], x0 as int, x1 as int),
                    forall|j: int, x: int|
                        0 <= j < n && x0 <= x < x1 ==> #[trigger] column_follows_rule(
                            lines@[j],
                            lines0[j],
                            x,
                            call,
                            instance_id,
                            face,
                        ),
                    unchanged_outside(*framebuffer, fb0, Scissor { height: k, ..scissor }),
                    forall|px: int, py: int|
                        scissor.y <= py < scissor.y + k && x0 <= px < x1 ==> pixel_follows_rule(
                            *framebuffer,
                            fb0,
                            px,
                            py,
                            call,
                            instance_id,
                            face,
                        ),
                decreases n - k,
            {
                let ghost before = *framebuffer;
                framebuffer.store_scanline(&lines[k]);
                proof {
                    let line = lines@[k as int];
                    let line0 = lines0[k as int];
                    assert forall|px: int, py: int|
                        scissor.y <= py < scissor.y + k + 1 && x0 <= px < x1 implies pixel_follows_rule(
                        *framebuffer,
                        fb0,
                        px,
                        py,
                        call,
                        instance_id,
                        face,
                    ) by {
                        if py == line.y {
                            assert(column_follows_rule(line, line0, px, call, instance_id, face));
                            assert(stored_depth(line0, px) == stored_pixel_depth(fb0, px, py));
                            assert forall|i: int| 0 <= i < fb0.colors().len() implies line0.color@[i]@[px]
                                == fb0.colors()[i].pixel(px, py) && #[trigger] framebuffer.colors()[i].pixel(
                                px,
                                py,
                            ) == line.color@[i]@[px] by {}
                        } else {
                            assert(pixel_follows_rule(before, fb0, px, py, call, instance_id, face));
                            assert forall|i: int| 0 <= i < fb0.colors().len() implies #[trigger] framebuffer.colors()[i].pixel(
                                px,
                                py,
                            ) == before.colors()[i].pixel(px, py) by {}
                        }
                    }
                    let done = Scissor { height: (k + 1) as usize, ..scissor };
                    let prev = Scissor { height: k, ..scissor };
                    assert forall|i: int, px: int, py: int|
                        0 <= i < fb0.colors().len() && 0 <= px < fb0.spec_width() && 0 <= py
                            < fb0.spec_height() && !done.holds(px, py) implies #[trigger] framebuffer.colors()[i].pixel(
                        px,
                        py,
                    ) == fb0.colors()[i].pixel(px, py) by {
                        if py == line.y {
                            assert(line.color@[i]@[px] == line0.color@[i]@[px]);
                        } else {
                            assert(!prev.holds(px, py));
                        }
                    }
                    if fb0.depth_image() is Some {
                        assert forall|px: int, py: int|
                            0 <= px < fb0.spec_width() && 0 <= py < fb0.spec_height() && !done.holds(
                                px,
                                py,
                            ) implies #[trigger] framebuffer.depth_image().unwrap().pixel(px, py)
                            == fb0.depth_image().unwrap().pixel(px, py) by {
                            if py == line.y {
                                assert(line.depth.unwrap()@[px] == line0.depth.unwrap()@[px]);
                            } else {
                                assert(!prev.holds(px, py));
                            }
                        }
                    }
                }
                k = k + 1;
            }
            proof {
                assert(Scissor { height: k, ..scissor } == scissor);
                if call.scissor is Some {
                    let u = call.scissor.unwrap();
                    assert forall|px: int, py: int| !u.holds(px, py) implies !scissor.holds(px, py) by {}
                }
            }
            self.stats.faces_rendered = self.stats.faces_rendered + 1;
        }
    }

    /// Draws `call` into the top render target, holding it locked for the
    /// whole call: every face of every instance, in order. Refused when no
    /// render target is pushed. The framebuffer behind the lock is opaque
    /// here; what the call does to it is stated by `render_call`, which this
    /// hands it to.
    pub fn render_indexed<S: Shader + Sync>(&mut self, call: &IndexedRenderCall<S>) -> (r: Result<
        (),
        RasterizerError,
    >)
        requires
            old(self).wf(),
            fits_counters(old(self).spec_stats(), call.instance_count as nat, call.indices@.len()),
            call.first_instance + call.instance_count <= usize::MAX,
            call.scissor matches Some(s) ==> s.wf(),
        ensures
            final(self).wf(),
            final(self).targets() == old(self).targets(),
            old(self).targets().len() == 0 <==> r == Err::<(), RasterizerError>(
                RasterizerError::NoRenderTarget,
            ),
            old(self).targets().len() == 0 ==> final(self).spec_stats() == old(self).spec_stats(),
            old(self).targets().len() > 0 <==> r is Ok,
            r is Ok ==> counted_call(
                old(self).spec_stats(),
                final(self).spec_stats(),
                call.instance_count as nat,
                call.indices@.len(),
            ),
    {
        let top = self.current_render_target()?;
        let mut guard = lock_target(&top);
        let framebuffer = guarded(&mut guard);
        self.render_call(call, framebuffer);
        Ok(())
    }

    /// Draws every face of every instance of `call` into `framebuffer`, in
    /// order: each pixel ends as the faces, one after another, leave it
    /// (`pixel_after`), and every face with a box to draw over counts as
    /// rendered.
    pub fn render_call<S: Shader + Sync>(&mut self, call: &IndexedRenderCall<S>, framebuffer: &mut Framebuffer)
        requires
            old(self).wf(),
            fits_counters(old(self).spec_stats(), call.instance_count as nat, call.indices@.len()),
            call.first_instance + call.instance_count <= usize::MAX,
            call.scissor matches Some(s) ==> s.wf(),
        ensures
            final(self).wf(),
            final(self).targets() == old(self).targets(),
            final(framebuffer).same_shape(old(framebuffer)),
            call.scissor matches Some(u) ==> unchanged_outside(*final(framebuffer), *old(framebuffer), u),
            counted_call(
                old(self).spec_stats(),
                final(self).spec_stats(),
                call.instance_count as nat,
                call.indices@.len(),
            ),
            final(self).spec_stats().faces_rendered == old(self).spec_stats().faces_rendered
                + drawn_faces(
                call,
                old(framebuffer).spec_width() as usize,
                old(framebuffer).spec_height() as usize,
                (call.instance_count * face_count(call)) as nat,
            ),
            forall|px: int, py: int|
                0 <= px < old(framebuffer).spec_width() && 0 <= py < old(framebuffer).spec_height()
                    ==> #[trigger] pixel_state(*final(framebuffer), px, py) == pixel_after(
                    call,
                    old(framebuffer).spec_width() as usize,
                    old(framebuffer).spec_height() as usize,
                    (call.instance_count * face_count(call)) as nat,
                    px,
                    py,
                    pixel_state(*old(framebuffer), px, py),
                ),
    {
        let ghost fb_start = *framebuffer;
        let (fb_width, fb_height) = framebuffer.size();
        let ghost w = fb_width;
        let ghost h = fb_height;
        let index_count = call.indices.len();
        let faces = index_count / VERTICES_PER_FACE;
        let ghost s0 = self.spec_stats();
        let mut i: usize = 0;
        while i < call.instance_count
            invariant
                i <= call.instance_count,
                faces == call.indices@.len() / 3,
                fits_counters(s0, call.instance_count as nat, call.indices@.len()),
                call.first_instance + call.instance_count <= usize::MAX,
                call.scissor matches Some(s) ==> s.wf(),
                self.wf(),
                self.targets() == old(self).targets(),
                framebuffer.same_shape(old(framebuffer)),
                call.scissor matches Some(u) ==> unchanged_outside(*framebuffer, *old(framebuffer), u),
                self.spec_stats().calls == s0.calls,
                self.spec_stats().instances == s0.instances + i,
                self.spec_stats().faces_processed == s0.faces_processed + i * faces,
                s0.faces_rendered <= self.spec_stats().faces_rendered,
                self.spec_stats().faces_rendered - s0.faces_rendered <= self.spec_stats().faces_processed
                    - s0.faces_processed,
                call.indices@.len() <= usize::MAX,
                w == fb_start.spec_width(),
                h == fb_start.spec_height(),
                fb_start == *old(framebuffer),
                self.spec_stats().faces_rendered == s0.faces_rendered + drawn_faces(
                    call,
                    w,
                    h,
                    (i * face_count(call)) as nat,
                ),
                forall|px: int, py: int|
                    0 <= px < w && 0 <= py < h ==> #[trigger] pixel_state(*framebuffer, px, py)
                        == pixel_after(
                        call,
                        w,
                        h,
                        (i * face_count(call)) as nat,
                        px,
                        py,
                        pixel_state(fb_start, px, py),
                    ),
            decreases call.instance_count - i,
        {
            let mut j: usize = 0;
            while j < faces
                invariant
                    i < call.instance_count,
                    j <= faces,
                    faces == call.indices@.len() / 3,
                    fits_counters(s0, call.instance_count as nat, call.indices@.len()),
                    call.first_instance + call.instance_count <= usize::MAX,
                    call.scissor matches Some(s) ==> s.wf(),
                    self.wf(),
                    self.targets() == old(self).targets(),
                    framebuffer.same_shape(old(framebuffer)),
                    call.scissor matches Some(u) ==> unchanged_outside(*framebuffer, *old(framebuffer), u),
                    self.spec_stats().calls == s0.calls,
                    self.spec_stats().instances == s0.instances + i,
                    self.spec_stats().faces_processed == s0.faces_processed + i * faces + j,
                    s0.faces_rendered <= self.spec_stats().faces_rendered,
                    self.spec_stats().faces_rendered - s0.faces_rendered
                        <= self.spec_stats().faces_processed - s0.faces_processed,
                    call.indices@.len() <= usize::MAX,
                    w == fb_start.spec_width(),
                    h == fb_start.spec_height(),
                    fb_start == *old(framebuffer),
                    self.spec_stats().faces_rendered == s0.faces_rendered + drawn_faces(
                        call,
                        w,
                        h,
                        (i * face_count(call) + j) as nat,
                    ),
                    forall|px: int, py: int|
                        0 <= px < w && 0 <= py < h ==> #[trigger] pixel_state(*framebuffer, px, py)
                            == pixel_after(
                            call,
                            w,
                            h,
                            (i * face_count(call) + j) as nat,
                            px,
                            py,
                            pixel_state(fb_start, px, py),
                        ),
                decreases faces - j,
            {
                proof {
                    lemma_face_count_bound(s0, call.instance_count as nat, call.indices@.len(), i as nat, j as nat);
                }
                let ghost before = *framebuffer;
                self.render_face(call.first_instance + i, j, call, framebuffer);
                proof {
                    let f = face_count(call);
                    let n = i as int * f as int + j as int;
                    assert(0 <= i as int * f as int) by (nonlinear_arith)
                        requires
                            i as int >= 0,
                            f as int >= 0,
                    ;
                    assert(n + 1 > 0 && f > 0);
                    lemma_fundamental_div_mod_converse(n, f as int, i as int, j as int);
                    assert forall|px: int, py: int|
                        0 <= px < w && 0 <= py < h implies #[trigger] pixel_state(*framebuffer, px, py)
                            == pixel_after(call, w, h, (n + 1) as nat, px, py, pixel_state(fb_start, px, py)) by {
                        lemma_face_step(*framebuffer, before, call, (call.first_instance + i) as usize, j as int, px, py);
                        assert(pixel_state(before, px, py) == pixel_after(call, w, h, n as nat, px, py, pixel_state(fb_start, px, py)));
                    }
                    if call.scissor is Some {
                        lemma_unchanged_outside_trans(
                            *framebuffer,
                            before,
                            *old(framebuffer),
                            call.scissor.unwrap(),
                        );
                    }
                }
                self.stats.faces_processed = self.stats.faces_processed + 1;
                j = j + 1;
            }
            proof {
                lemma_face_count_bound(s0, call.instance_count as nat, call.indices@.len(), i as nat, faces as nat);
                assert((i + 1) * faces == i * faces + faces) by (nonlinear_arith);
            }
            self.stats.instances = self.stats.instances + 1;
            i = i + 1;
        }
        self.stats.calls = self.stats.calls + 1;
    }
}

} // verus!
