use crate::error::RasterizerError;
use crate::image::{
    grid_coordinate, grid_coordinates, lemma_index_in_range, lemma_row_in_range, lemma_row_pixel,
    lemma_with_row_pixel,
    linear_index, Image,
};
use vstd::arithmetic::div_mod::{lemma_fundamental_div_mod, lemma_mod_pos_bound};
use vstd::prelude::*;

verus! {

/// Sets every pixel of `attachment` to `value`, visiting them row by row.
fn fill_image<T: Copy>(attachment: &mut Image<T>, value: T)
    requires
        old(attachment).wf(),
    ensures
        final(attachment).wf(),
        final(attachment).spec_width() == old(attachment).spec_width(),
        final(attachment).spec_height() == old(attachment).spec_height(),
        forall|j: int|
            0 <= j < final(attachment).pixels().len() ==> final(attachment).pixels()[j] == value,
{
    let ghost w = attachment.spec_width();
    let ghost h = attachment.spec_height();
    let mut coordinates = attachment.coordinates();
    let ghost mut k: int = 0;
    loop
        invariant
            attachment.wf(),
            attachment.spec_width() == w,
            attachment.spec_height() == h,
            coordinates.wf(),
            0 <= k <= w * h,
            coordinates.remaining() == grid_coordinates(w, h).skip(k),
            forall|j: int| 0 <= j < k ==> attachment.pixels()[j] == value,
        ensures
            attachment.wf(),
            attachment.spec_width() == w,
            attachment.spec_height() == h,
            forall|j: int| 0 <= j < w * h ==> attachment.pixels()[j] == value,
        decreases w * h - k,
    {
        match coordinates.next() {
            Some((x, y)) => {
                proof {
                    assert((x, y) == grid_coordinate(w, k));
                    lemma_mod_pos_bound(k, w as int);
                    lemma_fundamental_div_mod(k, w as int);
                    assert(k / (w as int) < h) by (nonlinear_arith)
                        requires
                            k == w * (k / (w as int)) + k % (w as int),
                            0 <= k % (w as int),
                            k < w * h,
                            w > 0,
                    ;
                    assert(0 <= k / (w as int)) by (nonlinear_arith)
                        requires
                            k == w * (k / (w as int)) + k % (w as int),
                            k % (w as int) < w,
                            0 <= k,
                            w > 0,
                    ;
                    assert(linear_index(w, x as int, y as int) == k) by (nonlinear_arith)
                        requires
                            x == k % (w as int),
                            y == k / (w as int),
                            k == w * (k / (w as int)) + k % (w as int),
                    ;
                }
                attachment.exchange(x, y, value);
                proof {
                    k = k + 1;
                }
            },
            None => {
                break ;
            },
        }
    }
}

/// Colour and depth written over a whole framebuffer by `clear`.
#[derive(Debug, Clone, Copy)]
pub struct ClearValue {
    /// Packed RGBA8, red in the most significant byte.
    pub color: u32,
    /// Bit pattern of an IEEE-754 single-precision depth.
    pub depth: u32,
}

/// A copy of one row of a framebuffer: a row per colour attachment and,
/// if the framebuffer has one, a depth row. Rows of different lines share
/// nothing, so lines can be worked on independently.
pub struct MutableScanline {
    pub y: usize,
    pub color: Vec<Vec<u32>>,
    pub depth: Option<Vec<u32>>,
}

impl MutableScanline {
    /// The line holds exactly row `self.y` of `fb`.
    pub open spec fn holds_row_of(&self, fb: &Framebuffer) -> bool {
        &&& self.fits(fb)
        &&& forall|i: int, x: int|
            0 <= i < self.color@.len() && 0 <= x < fb.spec_width() ==> #[trigger] self.color@[i]@[x]
                == fb.colors()[i].pixel(x, self.y as int)
        &&& self.depth matches Some(row) ==> forall|x: int|
            0 <= x < fb.spec_width() ==> #[trigger] row@[x] == fb.depth_image().unwrap().pixel(
                x,
                self.y as int,
            )
    }

    /// The line has the shape of a row of `fb` and can be stored back.
    pub open spec fn fits(&self, fb: &Framebuffer) -> bool {
        &&& self.y < fb.spec_height()
        &&& self.color@.len() == fb.colors().len()
        &&& forall|i: int|
            0 <= i < self.color@.len() ==> (#[trigger] self.color@[i])@.len() == fb.spec_width()
        &&& self.depth is Some == fb.depth_image() is Some
        &&& self.depth matches Some(row) ==> row@.len() == fb.spec_width()
    }
}

/// A set of colour attachments and an optional depth attachment, all of
/// one size.
pub struct Framebuffer {
    width: usize,
    height: usize,
    color: Vec<Image<u32>>,
    depth: Option<Image<u32>>,
}

/// `img` is a well-formed `width` × `height` image.
pub open spec fn image_of_size<T>(img: Image<T>, width: nat, height: nat) -> bool {
    &&& img.wf()
    &&& img.spec_width() == width
    &&& img.spec_height() == height
}

/// Every pixel of `img` is `value`.
pub open spec fn all_pixels<T>(img: Image<T>, value: T) -> bool {
    forall|j: int| 0 <= j < img.pixels().len() ==> img.pixels()[j] == value
}

impl Framebuffer {
    pub closed spec fn spec_width(&self) -> nat {
        self.width as nat
    }

    pub closed spec fn spec_height(&self) -> nat {
        self.height as nat
    }

    /// The colour attachments, in order.
    pub closed spec fn colors(&self) -> Seq<Image<u32>> {
        self.color@
    }

    /// The depth attachment, if there is one.
    pub closed spec fn depth_image(&self) -> Option<Image<u32>> {
        self.depth
    }

    /// All attachments share the framebuffer's size.
    pub open spec fn consistent(&self) -> bool {
        &&& self.spec_width() * self.spec_height() <= usize::MAX
        &&& forall|i: int|
            0 <= i < self.colors().len() ==> image_of_size(
                #[trigger] self.colors()[i],
                self.spec_width(),
                self.spec_height(),
            )
        &&& self.depth_image() matches Some(d) ==> image_of_size(
            d,
            self.spec_width(),
            self.spec_height(),
        )
    }

    #[verifier::type_invariant]
    spec fn inv(&self) -> bool {
        self.consistent()
    }

    /// A framebuffer of `num_color` colour attachments and, when `has_depth`,
    /// a depth attachment, every pixel zero.
    pub fn new(width: usize, height: usize, num_color: usize, has_depth: bool) -> (r: Framebuffer)
        requires
            width * height <= usize::MAX,
        ensures
            r.consistent(),
            r.spec_width() == width,
            r.spec_height() == height,
            r.colors().len() == num_color,
            forall|i: int| 0 <= i < num_color ==> all_pixels(#[trigger] r.colors()[i], 0u32),
            r.depth_image() is Some == has_depth,
            r.depth_image() matches Some(d) ==> all_pixels(d, 0u32),
    {
        let mut color: Vec<Image<u32>> = Vec::new();
        let mut i: usize = 0;
        while i < num_color
            invariant
                i <= num_color,
                width * height <= usize::MAX,
                color@.len() == i,
                forall|j: int|
                    0 <= j < i ==> image_of_size(#[trigger] color@[j], width as nat, height as nat)
                        && all_pixels(color@[j], 0u32),
            decreases num_color - i,
        {
            color.push(Image::filled(width, height, 0u32));
            i = i + 1;
        }
        let depth = if has_depth {
            Some(Image::filled(width, height, 0u32))
        } else {
            None
        };
        Framebuffer { width, height, color, depth }
    }

    /// (width, height).
    pub fn size(&self) -> (r: (usize, usize))
        ensures
            r.0 == self.spec_width(),
            r.1 == self.spec_height(),
    {
        (self.width, self.height)
    }

    /// The colour attachments.
    pub fn color_attachments(&self) -> (r: &Vec<Image<u32>>)
        ensures
            r@ == self.colors(),
    {
        &self.color
    }

    /// The depth attachment, if any.
    pub fn depth_attachment(&self) -> (r: &Option<Image<u32>>)
        ensures
            *r == self.depth_image(),
    {
        &self.depth
    }

    /// Writes `value.color` over every colour pixel and `value.depth` over
    /// every depth pixel.
    pub fn clear(&mut self, value: &ClearValue)
        ensures
            final(self).consistent(),
            final(self).spec_width() == old(self).spec_width(),
            final(self).spec_height() == old(self).spec_height(),
            final(self).colors().len() == old(self).colors().len(),
            forall|i: int|
                0 <= i < final(self).colors().len() ==> all_pixels(
                    #[trigger] final(self).colors()[i],
                    value.color,
                ),
            final(self).depth_image() is Some == old(self).depth_image() is Some,
            final(self).depth_image() matches Some(d) ==> all_pixels(d, value.depth),
    {
        proof {
            use_type_invariant(&*self);
        }
        let ghost w = self.spec_width();
        let ghost h = self.spec_height();
        let ghost n = self.color@.len();
        assert(forall|j: int| 0 <= j < n ==> image_of_size(#[trigger] self.colors()[j], w, h));
        let ghost cs = self.colors();
        let mut color: Vec<Image<u32>> = Vec::new();
        std::mem::swap(&mut color, &mut self.color);
        assert(color@ == cs);
        assert(forall|j: int| 0 <= j < n ==> image_of_size(#[trigger] color@[j], w, h));
        let mut i: usize = 0;
        while i < color.len()
            invariant
                color@.len() == n,
                i <= n,
                forall|j: int|
                    0 <= j < color@.len() ==> image_of_size(#[trigger] color@[j], w, h),
                forall|j: int| 0 <= j < i ==> all_pixels(#[trigger] color@[j], value.color),
            decreases color@.len() - i,
        {
            fill_image(&mut color[i], value.color);
            i = i + 1;
        }
        std::mem::swap(&mut color, &mut self.color);
        let mut depth: Option<Image<u32>> = None;
        std::mem::swap(&mut depth, &mut self.depth);
        match &mut depth {
            Some(d) => fill_image(d, value.depth),
            None => {},
        }
        std::mem::swap(&mut depth, &mut self.depth);
    }

    /// The same size, attachment count and depth presence as `other`.
    pub open spec fn same_shape(&self, other: &Framebuffer) -> bool {
        &&& self.spec_width() == other.spec_width()
        &&& self.spec_height() == other.spec_height()
        &&& self.colors().len() == other.colors().len()
        &&& self.depth_image() is Some == other.depth_image() is Some
    }

    /// A copy of row `y` of every attachment.
    pub fn scanline(&self, y: usize) -> (r: MutableScanline)
        requires
            y < self.spec_height(),
        ensures
            r.y == y,
            r.holds_row_of(self),
    {
        proof {
            use_type_invariant(self);
        }
        let mut color: Vec<Vec<u32>> = Vec::new();
        let mut i: usize = 0;
        while i < self.color.len()
            invariant
                self.consistent(),
                y < self.spec_height(),
                i <= self.colors().len(),
                color@.len() == i,
                forall|j: int| 0 <= j < i ==> (#[trigger] color@[j])@.len() == self.spec_width(),
                forall|j: int, x: int|
                    0 <= j < i && 0 <= x < self.spec_width() ==> #[trigger] color@[j]@[x]
                        == self.colors()[j].pixel(x, y as int),
            decreases self.colors().len() - i,
        {
            assert(image_of_size(self.colors()[i as int], self.spec_width(), self.spec_height()));
            let row = self.color[i].row_copy(y);
            proof {
                assert forall|x: int| 0 <= x < self.spec_width() implies row@[x] == self.colors()[i as int].pixel(
                    x,
                    y as int,
                ) by {
                    lemma_row_pixel(self.colors()[i as int], y as int, x);
                }
                lemma_row_in_range(self.spec_width(), self.spec_height(), y as int);
            }
            color.push(row);
            i = i + 1;
        }
        let depth = match &self.depth {
            Some(d) => {
                let row = d.row_copy(y);
                proof {
                    assert forall|x: int| 0 <= x < self.spec_width() implies row@[x] == d.pixel(
                        x,
                        y as int,
                    ) by {
                        lemma_row_pixel(*d, y as int, x);
                    }
                    lemma_row_in_range(self.spec_width(), self.spec_height(), y as int);
                }
                Some(row)
            },
            None => None,
        };
        MutableScanline { y, color, depth }
    }

    /// Copies of `count` rows from row `offset` down; refused unless they
    /// all lie inside the framebuffer.
    pub fn scanlines(&self, offset: usize, count: usize) -> (r: Result<Vec<MutableScanline>, RasterizerError>)
        ensures
            (offset >= self.spec_height() || offset + count > self.spec_height()) <==> r == Err::<
                Vec<MutableScanline>,
                RasterizerError,
            >(RasterizerError::InvalidScanlineRange),
            !(offset >= self.spec_height() || offset + count > self.spec_height()) ==> r is Ok,
            r matches Ok(lines) ==> {
                &&& lines@.len() == count
                &&& forall|k: int|
                    0 <= k < count ==> (#[trigger] lines@[k]).y == offset + k && lines@[k].holds_row_of(
                        self,
                    )
            },
    {
        proof {
            use_type_invariant(self);
        }
        if offset >= self.height || count > self.height - offset {
            return Err(RasterizerError::InvalidScanlineRange);
        }
        let mut lines: Vec<MutableScanline> = Vec::new();
        let mut delta_y: usize = 0;
        while delta_y < count
            invariant
                offset + count <= self.spec_height(),
                delta_y <= count,
                lines@.len() == delta_y,
                self.consistent(),
                forall|k: int|
                    0 <= k < delta_y ==> (#[trigger] lines@[k]).y == offset + k && lines@[k].holds_row_of(
                        self,
                    ),
            decreases count - delta_y,
        {
            lines.push(self.scanline(offset + delta_y));
            delta_y = delta_y + 1;
        }
        Ok(lines)
    }

    /// Writes the rows of `line` back over row `line.y`.
    pub fn store_scanline(&mut self, line: &MutableScanline)
        requires
            line.fits(old(self)),
        ensures
            final(self).same_shape(old(self)),
            forall|i: int|
                0 <= i < old(self).colors().len() ==> (#[trigger] final(self).colors()[i]).pixels()
                    == old(self).colors()[i].with_row(line.y as int, line.color@[i]@),
            old(self).depth_image() matches Some(d) ==> final(self).depth_image() matches Some(e)
                && e.pixels() == d.with_row(line.y as int, line.depth.unwrap()@),
            forall|i: int, px: int, py: int|
                0 <= i < old(self).colors().len() && 0 <= px < old(self).spec_width() && 0 <= py
                    < old(self).spec_height() ==> #[trigger] final(self).colors()[i].pixel(px, py)
                    == if py == line.y {
                    line.color@[i]@[px]
                } else {
                    old(self).colors()[i].pixel(px, py)
                },
            old(self).depth_image() matches Some(d) ==> forall|px: int, py: int|
                0 <= px < old(self).spec_width() && 0 <= py < old(self).spec_height()
                    ==> #[trigger] final(self).depth_image().unwrap().pixel(px, py) == if py
                    == line.y {
                    line.depth.unwrap()@[px]
                } else {
                    d.pixel(px, py)
                },
    {
        proof {
            use_type_invariant(&*self);
        }
        let ghost w = self.spec_width();
        let ghost h = self.spec_height();
        let ghost n = self.color@.len();
        let ghost cs = self.colors();
        assert(forall|j: int| 0 <= j < n ==> image_of_size(#[trigger] self.colors()[j], w, h));
        let mut color: Vec<Image<u32>> = Vec::new();
        std::mem::swap(&mut color, &mut self.color);
        assert(color@ == cs);
        let mut i: usize = 0;
        while i < color.len()
            invariant
                color@.len() == n,
                n == line.color@.len(),
                line.y < h,
                forall|j: int| 0 <= j < n ==> (#[trigger] line.color@[j])@.len() == w,
                i <= n,
                forall|j: int| 0 <= j < n ==> image_of_size(#[trigger] color@[j], w, h),
                forall|j: int|
                    0 <= j < i ==> (#[trigger] color@[j]).pixels() == cs[j].with_row(
                        line.y as int,
                        line.color@[j]@,
                    ),
                forall|j: int| i <= j < n ==> #[trigger] color@[j] == cs[j],
            decreases n - i,
        {
            color[i].store_row(line.y, &line.color[i]);
            i = i + 1;
        }
        std::mem::swap(&mut color, &mut self.color);
        let mut depth: Option<Image<u32>> = None;
        std::mem::swap(&mut depth, &mut self.depth);
        match &mut depth {
            Some(d) => match &line.depth {
                Some(row) => d.store_row(line.y, row),
                None => {},
            },
            None => {},
        }
        assert(depth matches Some(d) ==> image_of_size(d, w, h));
        std::mem::swap(&mut depth, &mut self.depth);
        proof {
            assert forall|i: int, px: int, py: int|
                0 <= i < n && 0 <= px < w && 0 <= py < h implies #[trigger] self.colors()[i].pixel(
                px,
                py,
            ) == if py == line.y {
                line.color@[i]@[px]
            } else {
                cs[i].pixel(px, py)
            } by {
                lemma_with_row_pixel(cs[i], line.y as int, line.color@[i]@, px, py);
            }
            if old(self).depth_image() is Some {
                let d = old(self).depth_image().unwrap();
                assert forall|px: int, py: int|
                    0 <= px < w && 0 <= py < h implies #[trigger] self.depth_image().unwrap().pixel(
                    px,
                    py,
                ) == if py == line.y {
                    line.depth.unwrap()@[px]
                } else {
                    d.pixel(px, py)
                } by {
                    lemma_with_row_pixel(d, line.y as int, line.depth.unwrap()@, px, py);
                }
            }
        }
    }
}

} // verus!
