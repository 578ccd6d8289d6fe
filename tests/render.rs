use std::sync::{Arc, Mutex};

use softraster::{
    BlendAttachment, BlendFactor, BlendOp, ClearValue, ComponentBlendOp, Coverage, DepthMode,
    Framebuffer, IndexedRenderCall, Pipeline, PointBounds, RasterizerError, Scissor,
    Shader, VertexContext, WindingOrder,
};
use softraster::rasterizer::render_scanline;
use softraster::Rasterizer;

const BACKGROUND: u32 = 0x787878FF;

/// A triangle after its vertex stage.
struct TestFace {
    pos: [[f32; 3]; 3],
    width: usize,
    height: usize,
    winding: WindingOrder,
}

fn signed_area(a: [f32; 2], b: [f32; 2], c: [f32; 2], winding: WindingOrder) -> f32 {
    let ab = [b[0] - a[0], b[1] - a[1]];
    let ac = [c[0] - a[0], c[1] - a[1]];
    let normal = match winding {
        WindingOrder::CounterClockwise => [ab[1], -ab[0]],
        WindingOrder::Clockwise => [-ab[1], ab[0]],
    };
    (ac[0] * normal[0] + ac[1] * normal[1]) / 2.0
}

impl TestFace {
    fn center(&self, x: usize, y: usize) -> [f32; 2] {
        [
            (((x as f32 + 0.5) / self.width as f32) * 2.0) - 1.0,
            (((y as f32 + 0.5) / self.height as f32) * 2.0) - 1.0,
        ]
    }

    fn areas(&self, x: usize, y: usize) -> [f32; 3] {
        let p = self.center(x, y);
        let s = |i: usize| [self.pos[i][0], self.pos[i][1]];
        [
            signed_area(s(1), s(2), p, self.winding),
            signed_area(s(2), s(0), p, self.winding),
            signed_area(s(0), s(1), p, self.winding),
        ]
    }
}

impl TestFace {
    fn vertex_bounds(&self) -> Vec<PointBounds> {
        let s = |i: usize| [self.pos[i][0], self.pos[i][1]];
        if signed_area(s(0), s(1), s(2), self.winding).abs() < 1e-12 {
            return Vec::new();
        }
        self.pos
            .iter()
            .map(|p| {
                let x = ((p[0] + 1.0) / 2.0).clamp(0.0, 1.0) * self.width as f32;
                let y = ((p[1] + 1.0) / 2.0).clamp(0.0, 1.0) * self.height as f32;
                PointBounds {
                    x_floor: x.floor() as usize,
                    x_ceil: x.ceil() as usize,
                    y_floor: y.floor() as usize,
                    y_ceil: y.ceil() as usize,
                }
            })
            .collect()
    }

    fn coverage(&self, x: usize, y: usize) -> Coverage {
        let a = self.areas(x, y);
        Coverage {
            front: a.iter().all(|v| *v >= 0.0),
            back: a.iter().all(|v| *v <= 0.0),
        }
    }

    fn depth(&self, x: usize, y: usize) -> u32 {
        let a = self.areas(x, y);
        let sum: f32 = a.iter().sum();
        let mut inverse_depth = 0.0f32;
        for i in 0..3 {
            inverse_depth += (a[i] / sum) * (1.0 / self.pos[i][2]);
        }
        (1.0 / inverse_depth).to_bits()
    }
}

/// Positions in normalised device coordinates; a flat colour per instance.
struct TestShader {
    vertices: Vec<[f32; 3]>,
    colors: Vec<u32>,
}

impl Shader for TestShader {
    type Uniform = ();
    type Face = TestFace;

    fn face(
        &self,
        vertices: &[VertexContext<()>],
        width: usize,
        height: usize,
        winding: WindingOrder,
    ) -> TestFace {
        TestFace {
            pos: [
                self.vertices[vertices[0].vertex_id],
                self.vertices[vertices[1].vertex_id],
                self.vertices[vertices[2].vertex_id],
            ],
            width,
            height,
            winding,
        }
    }

    fn spec_face(
        &self,
        uniform: (),
        instance_id: usize,
        v0: usize,
        v1: usize,
        v2: usize,
        width: usize,
        height: usize,
        winding: WindingOrder,
    ) -> TestFace {
        let vertices =
            [v0, v1, v2].map(|vertex_id| VertexContext { vertex_id, instance_id, data: &uniform });
        self.face(&vertices, width, height, winding)
    }

    fn spec_vertex_bounds(&self, face: TestFace) -> Vec<PointBounds> {
        face.vertex_bounds()
    }

    fn spec_coverage(&self, face: TestFace, x: usize, y: usize) -> Coverage {
        face.coverage(x, y)
    }

    fn spec_depth(&self, face: TestFace, x: usize, y: usize) -> u32 {
        face.depth(x, y)
    }

    fn spec_shade(&self, face: TestFace, u: (), id: usize, x: usize, y: usize, d: u32) -> u32 {
        self.shade(&face, &u, id, x, y, d)
    }

    fn vertex_bounds(&self, face: &TestFace) -> Vec<PointBounds> {
        face.vertex_bounds()
    }

    fn coverage(&self, face: &TestFace, x: usize, y: usize) -> Coverage {
        face.coverage(x, y)
    }

    fn depth(&self, face: &TestFace, x: usize, y: usize) -> u32 {
        face.depth(x, y)
    }

    fn shade(&self, _: &TestFace, _: &(), instance_id: usize, _: usize, _: usize, _: u32) -> u32 {
        self.colors[instance_id]
    }
}

fn target(width: usize, height: usize, clear: u32, depth: f32) -> Arc<Mutex<Framebuffer>> {
    let mut fb = Framebuffer::new(width, height, 1, true);
    fb.clear(&ClearValue { color: clear, depth: depth.to_bits() });
    Arc::new(Mutex::new(fb))
}

fn pixel(fb: &Arc<Mutex<Framebuffer>>, x: usize, y: usize) -> u32 {
    *fb.lock().unwrap().color_attachments()[0].at(x, y).unwrap()
}

fn small_triangle() -> Vec<[f32; 3]> {
    vec![[0.0, -0.5, 0.0], [0.5, 0.5, 0.0], [-0.5, 0.5, 0.0]]
}

fn draw(
    rast: &mut Rasterizer,
    pipeline: &Pipeline<TestShader>,
    indices: &[u16],
) -> Result<(), RasterizerError> {
    rast.render_indexed(&IndexedRenderCall {
        pipeline,
        vertex_offset: 0,
        first_instance: 0,
        instance_count: 1,
        scissor: None,
        indices,
        data: &(),
    })
}

fn write_pipeline(shader: TestShader) -> Pipeline<TestShader> {
    Pipeline {
        depth: DepthMode::Write,
        cull_back: true,
        winding_order: WindingOrder::CounterClockwise,
        blending: None,
        shader,
    }
}

#[test]
fn single_ccw_triangle() {
    let fb = target(3, 3, BACKGROUND, 1.0);
    let mut rast = Rasterizer::new();
    rast.push_render_target(fb.clone());
    let pipeline = write_pipeline(TestShader { vertices: small_triangle(), colors: vec![0xFF0000FF] });
    draw(&mut rast, &pipeline, &[0, 2, 1]).unwrap();
    assert_ne!(pixel(&fb, 1, 1), BACKGROUND);
    assert_eq!(pixel(&fb, 1, 1), 0xFF0000FF);
    assert_eq!(pixel(&fb, 0, 0), BACKGROUND);
    assert_eq!(pixel(&fb, 2, 0), BACKGROUND);
    assert_eq!(rast.stats().faces_processed, 1);
    assert_eq!(rast.stats().faces_rendered, 1);
}

#[test]
fn back_face_cull() {
    let fb = target(3, 3, BACKGROUND, 1.0);
    let mut rast = Rasterizer::new();
    rast.push_render_target(fb.clone());
    let pipeline = write_pipeline(TestShader { vertices: small_triangle(), colors: vec![0xFF0000FF] });
    draw(&mut rast, &pipeline, &[0, 1, 2]).unwrap();
    for y in 0..3 {
        for x in 0..3 {
            assert_eq!(pixel(&fb, x, y), BACKGROUND);
        }
    }
    assert_eq!(rast.stats().faces_processed, 1);
}

#[test]
fn back_face_drawn_without_culling() {
    let fb = target(3, 3, BACKGROUND, 1.0);
    let mut rast = Rasterizer::new();
    rast.push_render_target(fb.clone());
    let mut pipeline =
        write_pipeline(TestShader { vertices: small_triangle(), colors: vec![0xFF0000FF] });
    pipeline.cull_back = false;
    draw(&mut rast, &pipeline, &[0, 1, 2]).unwrap();
    assert_eq!(pixel(&fb, 1, 1), 0xFF0000FF);
}

fn big_triangle(z: f32) -> Vec<[f32; 3]> {
    vec![[-1.0, -3.0, z], [-1.0, 1.0, z], [3.0, 1.0, z]]
}

#[test]
fn depth_occlusion() {
    let fb = target(2, 2, BACKGROUND, 1.0);
    let mut rast = Rasterizer::new();
    rast.push_render_target(fb.clone());
    let near = write_pipeline(TestShader { vertices: big_triangle(0.5), colors: vec![0x00FF00FF] });
    draw(&mut rast, &near, &[0, 1, 2]).unwrap();
    let mut far = write_pipeline(TestShader { vertices: big_triangle(0.8), colors: vec![0x0000FFFF] });
    far.depth = DepthMode::Test;
    draw(&mut rast, &far, &[0, 1, 2]).unwrap();
    let guard = fb.lock().unwrap();
    for y in 0..2 {
        for x in 0..2 {
            assert_eq!(guard.color_attachments()[0].at(x, y), Some(&0x00FF00FF));
            let d = f32::from_bits(*guard.depth_attachment().as_ref().unwrap().at(x, y).unwrap());
            assert!((d - 0.5).abs() < 1e-6);
        }
    }
}

#[test]
fn equal_depth_passes_test() {
    let fb = target(2, 2, BACKGROUND, 1.0);
    let mut rast = Rasterizer::new();
    rast.push_render_target(fb.clone());
    let first = write_pipeline(TestShader { vertices: big_triangle(0.5), colors: vec![0x00FF00FF] });
    draw(&mut rast, &first, &[0, 1, 2]).unwrap();
    let mut second =
        write_pipeline(TestShader { vertices: big_triangle(0.5), colors: vec![0x0000FFFF] });
    second.depth = DepthMode::Test;
    draw(&mut rast, &second, &[0, 1, 2]).unwrap();
    assert_eq!(pixel(&fb, 0, 0), 0x0000FFFF);
    assert_eq!(pixel(&fb, 1, 1), 0x0000FFFF);
}

#[test]
fn stack_discipline() {
    let mut rast = Rasterizer::new();
    assert_eq!(rast.new_frame(), Ok(()));
    let fb = target(2, 2, BACKGROUND, 1.0);
    rast.push_render_target(fb.clone());
    let pipeline = write_pipeline(TestShader { vertices: big_triangle(0.5), colors: vec![0x00FF00FF] });
    assert_eq!(draw(&mut rast, &pipeline, &[0, 1, 2]), Ok(()));
    assert_eq!(rast.stats().calls, 1);
    assert_eq!(rast.new_frame(), Err(RasterizerError::RenderTargetUnfinished));
    assert_eq!(rast.stats().calls, 1);
    assert_eq!(rast.pop_render_target(), Ok(()));
    assert_eq!(rast.pop_render_target(), Err(RasterizerError::NoRenderTarget));
    assert_eq!(rast.new_frame(), Ok(()));
    let s = rast.stats();
    assert_eq!((s.calls, s.instances, s.faces_processed, s.faces_rendered), (0, 0, 0, 0));
}

#[test]
fn render_without_target_fails() {
    let mut rast = Rasterizer::new();
    let pipeline = write_pipeline(TestShader { vertices: big_triangle(0.5), colors: vec![1] });
    assert_eq!(draw(&mut rast, &pipeline, &[0, 1, 2]), Err(RasterizerError::NoRenderTarget));
    assert_eq!(rast.stats().calls, 0);
    assert!(rast.current_render_target().is_err());
}

#[test]
fn current_target_is_top() {
    let mut rast = Rasterizer::new();
    let a = target(1, 1, 1, 1.0);
    let b = target(1, 1, 2, 1.0);
    rast.push_render_target(a.clone());
    rast.push_render_target(b.clone());
    assert!(Arc::ptr_eq(&rast.current_render_target().unwrap(), &b));
    rast.pop_render_target().unwrap();
    assert!(Arc::ptr_eq(&rast.current_render_target().unwrap(), &a));
}

#[test]
fn blend_additive_frame() {
    let fb = target(1, 1, 0x00000000, 1.0);
    let mut rast = Rasterizer::new();
    rast.push_render_target(fb.clone());
    let add = Some(ComponentBlendOp {
        op: BlendOp::Add,
        src_factor: BlendFactor::One,
        dst_factor: BlendFactor::One,
    });
    let pipeline = Pipeline {
        depth: DepthMode::DontCare,
        cull_back: true,
        winding_order: WindingOrder::CounterClockwise,
        blending: Some(vec![BlendAttachment { color: add, alpha: add }]),
        shader: TestShader { vertices: big_triangle(0.5), colors: vec![0x40404040] },
    };
    draw(&mut rast, &pipeline, &[0, 1, 2]).unwrap();
    draw(&mut rast, &pipeline, &[0, 1, 2]).unwrap();
    assert_eq!(pixel(&fb, 0, 0), 0x80808080);
}

#[test]
fn stats_count_instances_and_faces() {
    let fb = target(4, 4, BACKGROUND, 1.0);
    let mut rast = Rasterizer::new();
    rast.push_render_target(fb.clone());
    let pipeline = write_pipeline(TestShader {
        vertices: big_triangle(0.5),
        colors: vec![1, 2, 3, 4],
    });
    let call = IndexedRenderCall {
        pipeline: &pipeline,
        vertex_offset: 0,
        first_instance: 1,
        instance_count: 3,
        scissor: None,
        indices: &[0, 1, 2, 0, 1, 2, 0],
        data: &(),
    };
    rast.render_indexed(&call).unwrap();
    let s = *rast.stats();
    assert_eq!((s.calls, s.instances, s.faces_processed), (1, 3, 6));
    assert!(s.faces_rendered <= s.faces_processed);
    assert_eq!(pixel(&fb, 0, 0), 4);
    rast.render_indexed(&call).unwrap();
    let t = *rast.stats();
    assert!(t.calls >= s.calls && t.instances >= s.instances);
    assert!(t.faces_processed >= s.faces_processed && t.faces_rendered >= s.faces_rendered);
    assert_eq!((t.calls, t.instances, t.faces_processed), (2, 6, 12));
}

#[test]
fn user_scissor_limits_pixels() {
    let fb = target(4, 4, BACKGROUND, 1.0);
    let mut rast = Rasterizer::new();
    rast.push_render_target(fb.clone());
    let pipeline = write_pipeline(TestShader { vertices: big_triangle(0.5), colors: vec![7] });
    let call = IndexedRenderCall {
        pipeline: &pipeline,
        vertex_offset: 0,
        first_instance: 0,
        instance_count: 1,
        scissor: Some(Scissor { x: 1, y: 1, width: 2, height: 1 }),
        indices: &[0, 1, 2],
        data: &(),
    };
    rast.render_indexed(&call).unwrap();
    for y in 0..4 {
        for x in 0..4 {
            let expected = if y == 1 && (x == 1 || x == 2) { 7 } else { BACKGROUND };
            assert_eq!(pixel(&fb, x, y), expected);
        }
    }
}

#[test]
fn render_scanline_touches_only_its_columns() {
    let mut fb = Framebuffer::new(4, 1, 1, true);
    fb.clear(&ClearValue { color: BACKGROUND, depth: 1.0f32.to_bits() });
    let pipeline = write_pipeline(TestShader { vertices: big_triangle(0.5), colors: vec![9] });
    let call = IndexedRenderCall {
        pipeline: &pipeline,
        vertex_offset: 0,
        first_instance: 0,
        instance_count: 1,
        scissor: None,
        indices: &[0, 1, 2],
        data: &(),
    };
    let vertices: Vec<VertexContext<()>> = (0..3)
        .map(|i| VertexContext { vertex_id: i, instance_id: 0, data: &() })
        .collect();
    let face = pipeline.shader.face(&vertices, 4, 1, WindingOrder::CounterClockwise);
    let out = render_scanline(fb.scanline(0), 1, 2, 0, &face, &call);
    assert_eq!(out.y, 0);
    assert_eq!(out.color[0], vec![BACKGROUND, 9, 9, BACKGROUND]);
    let depth: Vec<f32> = out.depth.as_ref().unwrap().iter().map(|b| f32::from_bits(*b)).collect();
    assert_eq!(depth[0], 1.0);
    assert_eq!(depth[3], 1.0);
    assert!((depth[1] - 0.5).abs() < 1e-6 && (depth[2] - 0.5).abs() < 1e-6);
    fb.store_scanline(&out);
    assert_eq!(fb.color_attachments()[0].at(2, 0), Some(&9));
}

#[test]
fn degenerate_face_is_skipped() {
    let fb = target(3, 3, BACKGROUND, 1.0);
    let mut rast = Rasterizer::new();
    rast.push_render_target(fb.clone());
    let line = vec![[-1.0, -1.0, 0.5], [0.0, 0.0, 0.5], [1.0, 1.0, 0.5]];
    let mut pipeline = write_pipeline(TestShader { vertices: line, colors: vec![3] });
    pipeline.cull_back = false;
    draw(&mut rast, &pipeline, &[0, 1, 2]).unwrap();
    for y in 0..3 {
        for x in 0..3 {
            assert_eq!(pixel(&fb, x, y), BACKGROUND);
        }
    }
    assert_eq!((rast.stats().faces_processed, rast.stats().faces_rendered), (1, 0));
}

#[test]
fn render_call_into_framebuffer() {
    let mut fb = Framebuffer::new(2, 2, 1, true);
    fb.clear(&ClearValue { color: BACKGROUND, depth: 1.0f32.to_bits() });
    let mut rast = Rasterizer::new();
    let pipeline = write_pipeline(TestShader { vertices: big_triangle(0.5), colors: vec![5, 6] });
    let call = IndexedRenderCall {
        pipeline: &pipeline,
        vertex_offset: 0,
        first_instance: 0,
        instance_count: 2,
        scissor: None,
        indices: &[0, 1, 2],
        data: &(),
    };
    rast.render_call(&call, &mut fb);
    let s = *rast.stats();
    assert_eq!((s.calls, s.instances, s.faces_processed, s.faces_rendered), (1, 2, 2, 2));
    for y in 0..2 {
        for x in 0..2 {
            assert_eq!(fb.color_attachments()[0].at(x, y), Some(&6));
        }
    }
}
