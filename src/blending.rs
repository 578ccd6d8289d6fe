use vstd::prelude::*;

verus! {

// Colours are packed RGBA8 with red in the most significant byte. Blending
// works on channels normalised to [0, 1) by dividing a byte by 256. Every
// quantity that arises (a byte over 256, a factor such as 1 - alpha, their
// product, a sum or difference of two products) is a whole multiple of
// 1/65536 below 2, so the arithmetic below keeps it exactly as that multiple.

/// Scale of a normalised channel: one byte step.
pub const CHANNEL_SCALE: u32 = 256;

/// The weight of channel `i` (0 = red, 3 = alpha) in a packed colour.
pub open spec fn place(i: int) -> int {
    if i == 0 {
        0x100_0000
    } else if i == 1 {
        0x1_0000
    } else if i == 2 {
        0x100
    } else {
        1
    }
}

/// Byte `i` of a packed colour: 0 is red, 1 green, 2 blue, 3 alpha.
pub open spec fn channel(color: u32, i: int) -> int {
    (color as int / place(i)) % 256
}

/// The colour whose bytes are r, g, b, a.
pub open spec fn pack(r: int, g: int, b: int, a: int) -> int {
    r * 0x100_0000 + g * 0x1_0000 + b * 0x100 + a
}

/// A blend factor.
#[derive(Debug, Clone, Copy, PartialEq, Eq, Structural)]
pub enum BlendFactor {
    Zero,
    One,
    SrcAlpha,
    OneMinusSrcAlpha,
    DstAlpha,
    OneMinusDstAlpha,
}

/// How the two weighted terms are combined.
#[derive(Debug, Clone, Copy, PartialEq, Eq, Structural)]
pub enum BlendOp {
    Add,
    SrcSubDst,
    DstSubSrc,
}

/// `op(src_factor · src, dst_factor · dst)` for one group of channels.
#[derive(Debug, Clone, Copy, PartialEq, Eq, Structural)]
pub struct ComponentBlendOp {
    pub op: BlendOp,
    pub src_factor: BlendFactor,
    pub dst_factor: BlendFactor,
}

/// The blend of one colour attachment: `color` for red, green and blue,
/// `alpha` for alpha; `None` lets the source channel through.
#[derive(Debug, Clone, Copy, PartialEq, Eq, Structural)]
pub struct BlendAttachment {
    pub color: Option<ComponentBlendOp>,
    pub alpha: Option<ComponentBlendOp>,
}

/// The alpha channels of source and destination, as bytes.
struct BlendContext {
    src_alpha: u32,
    dst_alpha: u32,
}

/// A factor in units of 1/256, given the source and destination alpha bytes.
pub open spec fn factor_value(factor: BlendFactor, src_alpha: int, dst_alpha: int) -> int {
    match factor {
        BlendFactor::Zero => 0,
        BlendFactor::One => 256,
        BlendFactor::SrcAlpha => src_alpha,
        BlendFactor::OneMinusSrcAlpha => 256 - src_alpha,
        BlendFactor::DstAlpha => dst_alpha,
        BlendFactor::OneMinusDstAlpha => 256 - dst_alpha,
    }
}

/// A blended channel in units of 1/65536, from channel bytes and alpha bytes.
pub open spec fn op_value(
    op: ComponentBlendOp,
    src: int,
    dst: int,
    src_alpha: int,
    dst_alpha: int,
) -> int {
    let s = factor_value(op.src_factor, src_alpha, dst_alpha) * src;
    let d = factor_value(op.dst_factor, src_alpha, dst_alpha) * dst;
    match op.op {
        BlendOp::Add => s + d,
        BlendOp::SrcSubDst => s - d,
        BlendOp::DstSubSrc => d - s,
    }
}

/// A channel in units of 1/65536 brought back to a byte: times 256,
/// truncated, clamped to 0..=255.
pub open spec fn quantize(v: int) -> int {
    if v < 0 {
        0
    } else if v / 256 > 255 {
        255
    } else {
        v / 256
    }
}

/// Channel `i` of `blend_colors(src, dst)`.
pub open spec fn blended_channel(att: BlendAttachment, src: u32, dst: u32, i: int) -> int {
    let op = if i == 3 {
        att.alpha
    } else {
        att.color
    };
    match op {
        None => channel(src, i),
        Some(o) => quantize(
            op_value(o, channel(src, i), channel(dst, i), channel(src, 3), channel(dst, 3)),
        ),
    }
}

/// The colour that attachment blend `att` gives for source `src` over
/// destination `dst`.
pub open spec fn blend_result(att: BlendAttachment, src: u32, dst: u32) -> u32 {
    pack(
        blended_channel(att, src, dst, 0),
        blended_channel(att, src, dst, 1),
        blended_channel(att, src, dst, 2),
        blended_channel(att, src, dst, 3),
    ) as u32
}

/// Byte `i` of a packed colour, red first.
fn color_to_channel(color: u32, i: usize) -> (r: u32)
    requires
        i < 4,
    ensures
        r == channel(color, i as int),
        r < 256,
{
    let p: u32 = if i == 0 {
        0x100_0000
    } else if i == 1 {
        0x1_0000
    } else if i == 2 {
        0x100
    } else {
        1
    };
    color / p % 256
}

/// The colour with the given bytes, red first.
fn channels_to_color(r: u32, g: u32, b: u32, a: u32) -> (c: u32)
    requires
        r < 256,
        g < 256,
        b < 256,
        a < 256,
    ensures
        c == pack(r as int, g as int, b as int, a as int),
{
    r * 0x100_0000 + g * 0x1_0000 + b * 0x100 + a
}

impl ComponentBlendOp {
    /// `factor · value` in units of 1/65536.
    fn channel_term(value: u32, factor: &BlendFactor, context: &BlendContext) -> (r: i64)
        requires
            value < 256,
            context.src_alpha < 256,
            context.dst_alpha < 256,
        ensures
            r == factor_value(*factor, context.src_alpha as int, context.dst_alpha as int)
                * value,
            0 <= r <= 256 * 255,
    {
        let coeff: u32 = match factor {
            BlendFactor::Zero => 0,
            BlendFactor::One => CHANNEL_SCALE,
            BlendFactor::SrcAlpha => context.src_alpha,
            BlendFactor::OneMinusSrcAlpha => CHANNEL_SCALE - context.src_alpha,
            BlendFactor::DstAlpha => context.dst_alpha,
            BlendFactor::OneMinusDstAlpha => CHANNEL_SCALE - context.dst_alpha,
        };
        assert(coeff * value <= 256 * 255) by (nonlinear_arith)
            requires
                coeff <= 256,
                value < 256,
        ;
        (coeff * value) as i64
    }

    /// This operation on one channel, in units of 1/65536.
    fn blend(&self, src: u32, dst: u32, context: &BlendContext) -> (r: i64)
        requires
            src < 256,
            dst < 256,
            context.src_alpha < 256,
            context.dst_alpha < 256,
        ensures
            r == op_value(
                *self,
                src as int,
                dst as int,
                context.src_alpha as int,
                context.dst_alpha as int,
            ),
    {
        let src_term = Self::channel_term(src, &self.src_factor, context);
        let dst_term = Self::channel_term(dst, &self.dst_factor, context);
        match self.op {
            BlendOp::Add => src_term + dst_term,
            BlendOp::SrcSubDst => src_term - dst_term,
            BlendOp::DstSubSrc => dst_term - src_term,
        }
    }
}

/// A channel in units of 1/65536 as a byte, clamped.
fn quantize_channel(v: i64) -> (r: u32)
    ensures
        r == quantize(v as int),
        r < 256,
{
    if v < 0 {
        0
    } else if v / 256 > 255 {
        255
    } else {
        (v / 256) as u32
    }
}

impl BlendAttachment {
    /// Channel `i` of the blend of `src` over `dst`.
    fn blend_channel(&self, src: u32, dst: u32, i: usize, context: &BlendContext) -> (r: u32)
        requires
            i < 4,
            context.src_alpha == channel(src, 3),
            context.dst_alpha == channel(dst, 3),
        ensures
            r == blended_channel(*self, src, dst, i as int),
            r < 256,
    {
        let component_op = if i == 3 {
            &self.alpha
        } else {
            &self.color
        };
        let s = color_to_channel(src, i);
        match component_op {
            Some(op) => quantize_channel(op.blend(s, color_to_channel(dst, i), context)),
            None => s,
        }
    }

    /// Blends source colour `src` over destination colour `dst`.
    pub fn blend_colors(&self, src: u32, dst: u32) -> (r: u32)
        ensures
            r == blend_result(*self, src, dst),
    {
        let context = BlendContext {
            src_alpha: color_to_channel(src, 3),
            dst_alpha: color_to_channel(dst, 3),
        };
        channels_to_color(
            self.blend_channel(src, dst, 0, &context),
            self.blend_channel(src, dst, 1, &context),
            self.blend_channel(src, dst, 2, &context),
            self.blend_channel(src, dst, 3, &context),
        )
    }
}

/// Unpacking a colour into its bytes and packing them again gives it back.
pub proof fn lemma_pack_channels(c: u32)
    ensures
        pack(channel(c, 0), channel(c, 1), channel(c, 2), channel(c, 3)) == c,
{
}

/// An operation that adds the source at full weight to nothing of the
/// destination leaves each channel as the source had it.
pub proof fn lemma_identity_op_passes_source(src: u32, dst: u32, i: int)
    requires
        0 <= i < 4,
    ensures
        ({
            let o = ComponentBlendOp {
                op: BlendOp::Add,
                src_factor: BlendFactor::One,
                dst_factor: BlendFactor::Zero,
            };
            quantize(op_value(o, channel(src, i), channel(dst, i), channel(src, 3), channel(dst, 3)))
                == channel(src, i)
        }),
{
}

/// An attachment whose colour and alpha operations are each either absent
/// or the identity operation hands the source colour through unchanged.
pub proof fn lemma_identity_blend_is_passthrough(att: BlendAttachment, src: u32, dst: u32)
    requires
        att.color is None || att.color == Some(
            ComponentBlendOp {
                op: BlendOp::Add,
                src_factor: BlendFactor::One,
                dst_factor: BlendFactor::Zero,
            },
        ),
        att.alpha is None || att.alpha == Some(
            ComponentBlendOp {
                op: BlendOp::Add,
                src_factor: BlendFactor::One,
                dst_factor: BlendFactor::Zero,
            },
        ),
    ensures
        blend_result(att, src, dst) == src,
{
    lemma_identity_op_passes_source(src, dst, 0);
    lemma_identity_op_passes_source(src, dst, 1);
    lemma_identity_op_passes_source(src, dst, 2);
    lemma_identity_op_passes_source(src, dst, 3);
    lemma_pack_channels(src);
}

} // verus!
