use softraster::depth::{depth_is_negative, depth_less_equal};
use softraster::rasterizer::{fragment_covered, render_fragment, should_discard_fragment};
use softraster::{
    gen_scissor, BlendAttachment, BlendFactor, BlendOp, ClearValue, ComponentBlendOp, Coverage,
    DepthMode, Framebuffer, Pipeline, PointBounds, RasterizerError, Scissor, WindingOrder,
};

fn op(op: BlendOp, src_factor: BlendFactor, dst_factor: BlendFactor) -> Option<ComponentBlendOp> {
    Some(ComponentBlendOp { op, src_factor, dst_factor })
}

fn pipeline(depth: DepthMode, blending: Option<Vec<BlendAttachment>>) -> Pipeline<()> {
    Pipeline {
        depth,
        cull_back: true,
        winding_order: WindingOrder::CounterClockwise,
        blending,
        shader: (),
    }
}

#[test]
fn framebuffer_shape_after_new() {
    let fb = Framebuffer::new(5, 3, 2, true);
    assert_eq!(fb.size(), (5, 3));
    assert_eq!(fb.color_attachments().len(), 2);
    for img in fb.color_attachments() {
        assert_eq!(img.size(), (5, 3));
        for y in 0..3 {
            for x in 0..5 {
                assert_eq!(img.at(x, y), Some(&0));
            }
        }
    }
    let depth = fb.depth_attachment().as_ref().unwrap();
    assert_eq!(depth.size(), (5, 3));
    assert_eq!(depth.at(4, 2), Some(&0));
}

#[test]
fn framebuffer_without_depth() {
    let fb = Framebuffer::new(2, 2, 3, false);
    assert!(fb.depth_attachment().is_none());
    assert_eq!(fb.color_attachments().len(), 3);
}

#[test]
fn clear_only_frame() {
    let mut fb = Framebuffer::new(4, 4, 1, true);
    fb.clear(&ClearValue { color: 0x787878FF, depth: 1.0f32.to_bits() });
    let color = &fb.color_attachments()[0];
    let depth = fb.depth_attachment().as_ref().unwrap();
    for y in 0..4 {
        for x in 0..4 {
            assert_eq!(color.at(x, y), Some(&0x787878FF));
            assert_eq!(f32::from_bits(*depth.at(x, y).unwrap()), 1.0);
        }
    }
}

#[test]
fn clear_every_attachment() {
    let mut fb = Framebuffer::new(3, 2, 3, false);
    fb.clear(&ClearValue { color: 0x01020304, depth: 0 });
    for img in fb.color_attachments() {
        for y in 0..2 {
            for x in 0..3 {
                assert_eq!(img.at(x, y), Some(&0x01020304));
            }
        }
    }
}

#[test]
fn blend_additive_one_one() {
    let add = BlendAttachment {
        color: op(BlendOp::Add, BlendFactor::One, BlendFactor::One),
        alpha: op(BlendOp::Add, BlendFactor::One, BlendFactor::One),
    };
    let once = add.blend_colors(0x40404040, 0x00000000);
    assert_eq!(once, 0x40404040);
    assert_eq!(add.blend_colors(0x40404040, once), 0x80808080);
}

#[test]
fn blend_additive_saturates() {
    let add = BlendAttachment {
        color: op(BlendOp::Add, BlendFactor::One, BlendFactor::One),
        alpha: None,
    };
    assert_eq!(add.blend_colors(0xC0C0C011, 0x80808080), 0xFFFFFF11);
}

#[test]
fn blend_identity_is_passthrough() {
    let identity = BlendAttachment {
        color: op(BlendOp::Add, BlendFactor::One, BlendFactor::Zero),
        alpha: op(BlendOp::Add, BlendFactor::One, BlendFactor::Zero),
    };
    for &(src, dst) in [(0x12345678u32, 0x9abcdef0u32), (0xFFFFFFFF, 0), (0, 0xFFFFFFFF)].iter() {
        assert_eq!(identity.blend_colors(src, dst), src);
    }
    let none = BlendAttachment { color: None, alpha: None };
    assert_eq!(none.blend_colors(0x12345678, 0x9abcdef0), 0x12345678);
}

#[test]
fn blend_source_over() {
    // alpha 0x80 = one half: each colour channel is the mean of source and destination
    let over = BlendAttachment {
        color: op(BlendOp::Add, BlendFactor::SrcAlpha, BlendFactor::OneMinusSrcAlpha),
        alpha: None,
    };
    assert_eq!(over.blend_colors(0xFF000080, 0x00FF00FF), 0x7F7F0080);
}

#[test]
fn blend_subtractions_clamp_at_zero() {
    let src_sub = BlendAttachment {
        color: op(BlendOp::SrcSubDst, BlendFactor::One, BlendFactor::One),
        alpha: op(BlendOp::DstSubSrc, BlendFactor::One, BlendFactor::One),
    };
    assert_eq!(src_sub.blend_colors(0x80402010, 0x40808020), 0x40000010);
}

#[test]
fn blend_destination_alpha_factors() {
    let b = BlendAttachment {
        color: op(BlendOp::Add, BlendFactor::DstAlpha, BlendFactor::OneMinusDstAlpha),
        alpha: op(BlendOp::Add, BlendFactor::Zero, BlendFactor::One),
    };
    // dst alpha 0x40 = one quarter: 0.25 * 0x80 + 0.75 * 0x40 = 0x50
    assert_eq!(b.blend_colors(0x80808000, 0x40404040), 0x50505040);
}

#[test]
fn depth_ordering_on_bits() {
    let b = |v: f32| v.to_bits();
    assert!(depth_less_equal(b(0.5), b(0.8)));
    assert!(!depth_less_equal(b(0.8), b(0.5)));
    assert!(depth_less_equal(b(0.5), b(0.5)));
    assert!(depth_less_equal(b(-0.0), b(0.0)));
    assert!(depth_less_equal(b(0.0), b(-0.0)));
    assert!(depth_less_equal(b(-2.0), b(-1.0)));
    assert!(!depth_less_equal(b(-1.0), b(-2.0)));
    assert!(depth_less_equal(b(-1.0), b(f32::INFINITY)));
    assert!(!depth_less_equal(b(f32::NAN), b(1.0)));
    assert!(!depth_less_equal(b(1.0), b(f32::NAN)));
    assert!(depth_is_negative(b(-0.25)));
    assert!(!depth_is_negative(b(-0.0)));
    assert!(!depth_is_negative(b(0.25)));
    assert!(!depth_is_negative(b(f32::NAN)));
    assert!(depth_is_negative(b(f32::NEG_INFINITY)));
}

#[test]
fn coverage_rules() {
    let front = Coverage { front: true, back: false };
    let back = Coverage { front: false, back: true };
    let outside = Coverage { front: false, back: false };
    assert!(fragment_covered(front, true));
    assert!(!fragment_covered(back, true));
    assert!(fragment_covered(back, false));
    assert!(!fragment_covered(outside, false));
}

#[test]
fn discard_rules() {
    let b = |v: f32| v.to_bits();
    assert!(should_discard_fragment(b(-0.5), DepthMode::DontCare, None));
    assert!(!should_discard_fragment(b(0.9), DepthMode::DontCare, Some(b(0.1))));
    assert!(should_discard_fragment(b(0.9), DepthMode::Test, Some(b(0.1))));
    assert!(!should_discard_fragment(b(0.5), DepthMode::Test, Some(b(0.5))));
    assert!(!should_discard_fragment(b(0.4), DepthMode::Write, Some(b(0.5))));
    assert!(!should_discard_fragment(b(0.9), DepthMode::Write, None));
}

#[test]
fn fragment_writes_color_and_depth() {
    let mut fb = Framebuffer::new(2, 2, 2, true);
    fb.clear(&ClearValue { color: 0x10101010, depth: 1.0f32.to_bits() });
    let mut line = fb.scanline(0);
    render_fragment(1, 0xAABBCCDD, 0.25f32.to_bits(), &pipeline(DepthMode::Write, None), &mut line);
    assert_eq!(line.color[0], vec![0x10101010, 0xAABBCCDD]);
    assert_eq!(line.color[1], vec![0x10101010, 0xAABBCCDD]);
    assert_eq!(line.depth, Some(vec![1.0f32.to_bits(), 0.25f32.to_bits()]));
    fb.store_scanline(&line);
    for img in fb.color_attachments() {
        assert_eq!(img.at(1, 0), Some(&0xAABBCCDD));
        assert_eq!(img.at(0, 0), Some(&0x10101010));
        assert_eq!(img.at(1, 1), Some(&0x10101010));
    }
    let depth = fb.depth_attachment().as_ref().unwrap();
    assert_eq!(depth.at(1, 0), Some(&0.25f32.to_bits()));
    assert_eq!(depth.at(0, 1), Some(&1.0f32.to_bits()));
}

#[test]
fn fragment_test_mode_keeps_depth() {
    let mut fb = Framebuffer::new(1, 1, 1, true);
    fb.clear(&ClearValue { color: 0, depth: 1.0f32.to_bits() });
    let mut line = fb.scanline(0);
    render_fragment(0, 0x11223344, 0.25f32.to_bits(), &pipeline(DepthMode::Test, None), &mut line);
    assert_eq!(line.color[0], vec![0x11223344]);
    assert_eq!(line.depth, Some(vec![1.0f32.to_bits()]));
}

#[test]
fn fragment_blends_per_attachment() {
    let mut fb = Framebuffer::new(1, 1, 2, false);
    fb.clear(&ClearValue { color: 0x20202020, depth: 0 });
    let blending = vec![
        BlendAttachment {
            color: op(BlendOp::Add, BlendFactor::One, BlendFactor::One),
            alpha: op(BlendOp::Add, BlendFactor::One, BlendFactor::One),
        },
        BlendAttachment { color: None, alpha: None },
    ];
    let mut line = fb.scanline(0);
    render_fragment(0, 0x10101010, 0, &pipeline(DepthMode::DontCare, Some(blending)), &mut line);
    assert_eq!(line.color[0], vec![0x30303030]);
    assert_eq!(line.color[1], vec![0x10101010]);
    assert_eq!(line.depth, None);
}

#[test]
fn scanlines_copy_rows() {
    let mut fb = Framebuffer::new(3, 4, 1, true);
    fb.clear(&ClearValue { color: 5, depth: 0.5f32.to_bits() });
    let mut line = fb.scanline(2);
    line.color[0][1] = 9;
    fb.store_scanline(&line);
    let lines = fb.scanlines(1, 3).unwrap();
    assert_eq!(lines.len(), 3);
    assert_eq!(lines.iter().map(|l| l.y).collect::<Vec<_>>(), vec![1, 2, 3]);
    assert_eq!(lines[0].color[0], vec![5, 5, 5]);
    assert_eq!(lines[1].color[0], vec![5, 9, 5]);
    assert_eq!(lines[2].depth, Some(vec![0.5f32.to_bits(); 3]));
    assert_eq!(fb.scanlines(0, 4).unwrap().len(), 4);
}

#[test]
fn scanlines_out_of_range() {
    let fb = Framebuffer::new(3, 4, 1, false);
    assert_eq!(fb.scanlines(4, 0).err(), Some(RasterizerError::InvalidScanlineRange));
    assert_eq!(fb.scanlines(2, 3).err(), Some(RasterizerError::InvalidScanlineRange));
    assert_eq!(fb.scanlines(1, usize::MAX).err(), Some(RasterizerError::InvalidScanlineRange));
    assert!(fb.scanlines(3, 1).is_ok());
}

#[test]
fn error_messages_are_distinct() {
    let all = [
        RasterizerError::NoRenderTarget,
        RasterizerError::RenderTargetUnfinished,
        RasterizerError::InvalidScanlineRange,
    ];
    assert_eq!(all[0].message(), "No render target pushed to the stack!");
    assert_eq!(all[1].message(), "Render target still present on the stack!");
    assert_eq!(all[2].message(), "Invalid scanline range!");
}

#[test]
fn gen_scissor_encloses_vertices() {
    let points = [
        PointBounds { x_floor: 3, x_ceil: 4, y_floor: 1, y_ceil: 2 },
        PointBounds { x_floor: 7, x_ceil: 8, y_floor: 5, y_ceil: 5 },
        PointBounds { x_floor: 0, x_ceil: 0, y_floor: 2, y_ceil: 3 },
    ];
    assert_eq!(gen_scissor(&points, 10, 10), Scissor { x: 0, y: 1, width: 8, height: 4 });
}

#[test]
fn gen_scissor_single_point() {
    let points = [PointBounds { x_floor: 2, x_ceil: 2, y_floor: 3, y_ceil: 4 }];
    assert_eq!(gen_scissor(&points, 4, 4), Scissor { x: 2, y: 3, width: 0, height: 1 });
}
