use vstd::prelude::*;

verus! {

/// What the vertex stage is told about one vertex.
pub struct VertexContext<'a, U> {
    /// The index that the index buffer gives for this vertex.
    pub vertex_id: usize,
    pub instance_id: usize,
    pub data: &'a U,
}

/// The order in which a front face's vertices run on screen.
#[derive(Debug, Clone, Copy, PartialEq, Eq, Structural)]
pub enum WindingOrder {
    Clockwise,
    CounterClockwise,
}

/// The pixel-space position of one vertex, each coordinate rounded down and
/// up.
#[derive(Debug, Clone, Copy, PartialEq, Eq, Structural)]
pub struct PointBounds {
    pub x_floor: usize,
    pub x_ceil: usize,
    pub y_floor: usize,
    pub y_ceil: usize,
}

/// The signs of a face's three edge functions at a pixel centre.
#[derive(Debug, Clone, Copy, PartialEq, Eq, Structural)]
pub struct Coverage {
    /// Every signed area is at least zero: the centre is inside, front side.
    pub front: bool,
    /// Every signed area is at most zero: the centre is inside, back side.
    pub back: bool,
}

/// A user's shader. Its vertex stage turns the three vertices of a face
/// into a `Face`; the rasterizer then asks about the pixels of that face.
///
/// Positions, edge functions, interpolation weights and the fragment stage
/// all live on this side, in floating point; the rasterizer decides from the
/// answers which pixels are written and how. Every stage is a function of its
/// arguments: the same shader, face and pixel always give the same answer,
/// which the `spec_*` functions name. The rows of a face are worked on
/// in parallel, so a shader, its uniform and its faces are shared between
/// threads.
pub trait Shader {
    type Uniform: Sync;
    type Face: Sync;

    /// The face that the vertex stage makes of vertices `v0`, `v1`, `v2` of
    /// instance `instance_id`.
    spec fn spec_face(
        &self,
        uniform: Self::Uniform,
        instance_id: usize,
        v0: usize,
        v1: usize,
        v2: usize,
        width: usize,
        height: usize,
        winding: WindingOrder,
    ) -> Self::Face;

    /// Where each vertex of `face` falls on the target.
    spec fn spec_vertex_bounds(&self, face: Self::Face) -> Vec<PointBounds>;

    /// The edge-function signs of `face` at the centre of pixel (x, y).
    spec fn spec_coverage(&self, face: Self::Face, x: usize, y: usize) -> Coverage;

    /// The depth of `face` at the centre of pixel (x, y).
    spec fn spec_depth(&self, face: Self::Face, x: usize, y: usize) -> u32;

    /// The colour that the fragment stage gives pixel (x, y) of `face`.
    spec fn spec_shade(
        &self,
        face: Self::Face,
        uniform: Self::Uniform,
        instance_id: usize,
        x: usize,
        y: usize,
        depth: u32,
    ) -> u32;

    /// Runs the vertex stage on a face's vertices, for a `width` × `height`
    /// target and the pipeline's winding order.
    fn face(
        &self,
        vertices: &[VertexContext<Self::Uniform>],
        width: usize,
        height: usize,
        winding: WindingOrder,
    ) -> (r: Self::Face)
        requires
            vertices@.len() == 3,
            vertices@[1].instance_id == vertices@[0].instance_id,
            vertices@[2].instance_id == vertices@[0].instance_id,
            vertices@[1].data == vertices@[0].data,
            vertices@[2].data == vertices@[0].data,
        ensures
            r == self.spec_face(
                *vertices@[0].data,
                vertices@[0].instance_id,
                vertices@[0].vertex_id,
                vertices@[1].vertex_id,
                vertices@[2].vertex_id,
                width,
                height,
                winding,
            ),
    ;

    /// Where each vertex of `face` falls on the target; empty for a face that
    /// is to be skipped, such as one with no area.
    fn vertex_bounds(&self, face: &Self::Face) -> (r: Vec<PointBounds>)
        ensures
            r@ == self.spec_vertex_bounds(*face)@,
    ;

    /// The edge-function signs at the centre of pixel (x, y).
    fn coverage(&self, face: &Self::Face, x: usize, y: usize) -> (r: Coverage)
        ensures
            r == self.spec_coverage(*face, x, y),
    ;

    /// The perspective-correct depth at the centre of pixel (x, y), as the
    /// bits of an IEEE-754 single-precision value.
    fn depth(&self, face: &Self::Face, x: usize, y: usize) -> (r: u32)
        ensures
            r == self.spec_depth(*face, x, y),
    ;

    /// The packed RGBA8 colour that the fragment stage gives pixel (x, y) at
    /// `depth`.
    fn shade(
        &self,
        face: &Self::Face,
        uniform: &Self::Uniform,
        instance_id: usize,
        x: usize,
        y: usize,
        depth: u32,
    ) -> (r: u32)
        ensures
            r == self.spec_shade(*face, *uniform, instance_id, x, y, depth),
    ;
}

} // verus!
