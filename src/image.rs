use vstd::arithmetic::div_mod::{
    lemma_fundamental_div_mod, lemma_fundamental_div_mod_converse, lemma_mod_pos_bound,
};
use vstd::prelude::*;

verus! {

/// The row-major position of pixel (x, y) in an image `width` pixels wide.
pub open spec fn linear_index(width: nat, x: int, y: int) -> int {
    y * width + x
}

/// The coordinates that a row-major walk over a `width` × `height` grid visits,
/// in order: x varies fastest.
pub open spec fn grid_coordinates(width: nat, height: nat) -> Seq<(usize, usize)> {
    Seq::new(width * height, |i: int| grid_coordinate(width, i))
}

/// The coordinate visited at step `i` of a row-major walk over rows `width` wide.
pub open spec fn grid_coordinate(width: nat, i: int) -> (usize, usize) {
    ((i % (width as int)) as usize, (i / (width as int)) as usize)
}

pub proof fn lemma_index_in_range(width: nat, height: nat, x: int, y: int)
    requires
        0 <= x < width,
        0 <= y < height,
    ensures
        0 <= linear_index(width, x, y) < width * height,
{
    assert(0 <= y * width + x < width * height) by (nonlinear_arith)
        requires
            0 <= x < width,
            0 <= y < height,
    ;
}

/// Row `y` of a `width` × `height` grid lies inside it.
pub proof fn lemma_row_in_range(width: nat, height: nat, y: int)
    requires
        0 <= y < height,
    ensures
        0 <= y * width,
        y * width + width <= width * height,
{
    assert(0 <= y * width && y * width + width <= width * height) by (nonlinear_arith)
        requires
            0 <= y < height,
    ;
}

/// Replacing row `y` of an image keeps every pixel of the other rows and
/// puts the new row's values in row `y`.
pub proof fn lemma_with_row_pixel<T>(img: Image<T>, y: int, row: Seq<T>, px: int, py: int)
    requires
        img.wf(),
        0 <= y < img.spec_height(),
        row.len() == img.spec_width(),
        0 <= px < img.spec_width(),
        0 <= py < img.spec_height(),
    ensures
        img.with_row(y, row).len() == img.pixels().len(),
        img.with_row(y, row)[linear_index(img.spec_width(), px, py)] == if py == y {
            row[px]
        } else {
            img.pixel(px, py)
        },
{
    let w = img.spec_width() as int;
    let h = img.spec_height() as int;
    lemma_row_in_range(img.spec_width(), img.spec_height(), y);
    lemma_index_in_range(img.spec_width(), img.spec_height(), px, py);
    let l = py * w + px;
    if py < y {
        assert((py + 1) * w <= y * w) by (nonlinear_arith)
            requires
                py + 1 <= y,
                w >= 0,
        ;
        assert(l < y * w) by (nonlinear_arith)
            requires
                l == py * w + px,
                px < w,
                (py + 1) * w <= y * w,
        ;
    } else if py > y {
        assert((y + 1) * w <= py * w) by (nonlinear_arith)
            requires
                y + 1 <= py,
                w >= 0,
        ;
        assert(l >= y * w + w) by (nonlinear_arith)
            requires
                l == py * w + px,
                px >= 0,
                (y + 1) * w <= py * w,
        ;
    }
}

/// Row `y` of an image, read at column `x`, is pixel (x, y).
pub proof fn lemma_row_pixel<T>(img: Image<T>, y: int, x: int)
    requires
        img.wf(),
        0 <= y < img.spec_height(),
        0 <= x < img.spec_width(),
    ensures
        img.row(y).len() == img.spec_width(),
        img.row(y)[x] == img.pixel(x, y),
{
    lemma_row_in_range(img.spec_width(), img.spec_height(), y);
}

/// A row-major walk over a `width` × `height` grid visits (dx, dy) exactly
/// when dx < width and dy < height.
pub proof fn lemma_grid_coordinates_contains(width: nat, height: nat, dx: usize, dy: usize)
    requires
        width * height <= usize::MAX,
    ensures
        grid_coordinates(width, height).contains((dx, dy)) <==> (dx < width && dy < height),
{
    let g = grid_coordinates(width, height);
    if dx < width && dy < height {
        let i = dy * width + dx;
        lemma_index_in_range(width, height, dx as int, dy as int);
        lemma_fundamental_div_mod_converse(i, width as int, dy as int, dx as int);
        assert(g[i] == (dx, dy));
    }
    if g.contains((dx, dy)) {
        let i = choose|i: int| 0 <= i < g.len() && g[i] == (dx, dy);
        let w = width as int;
        assert(w > 0) by (nonlinear_arith)
            requires
                0 <= i < w * height,
                w >= 0,
        ;
        lemma_mod_pos_bound(i, w);
        lemma_fundamental_div_mod(i, w);
        let q = i / w;
        assert(q < height) by (nonlinear_arith)
            requires
                i == w * q + i % w,
                0 <= i % w,
                i < w * height,
                0 < w,
        ;
        assert(0 <= q) by (nonlinear_arith)
            requires
                i == w * q + i % w,
                i % w < w,
                0 <= i,
                0 < w,
        ;
    }
}

/// A two-dimensional buffer of pixels stored row by row.
pub struct Image<T> {
    data: Vec<T>,
    width: usize,
    height: usize,
}

impl<T> Image<T> {
    pub closed spec fn spec_width(&self) -> nat {
        self.width as nat
    }

    pub closed spec fn spec_height(&self) -> nat {
        self.height as nat
    }

    /// The pixels, row after row.
    pub closed spec fn pixels(&self) -> Seq<T> {
        self.data@
    }

    /// Exactly one stored pixel for each coordinate.
    pub open spec fn wf(&self) -> bool {
        &&& self.pixels().len() == self.spec_width() * self.spec_height()
        &&& self.spec_width() * self.spec_height() <= usize::MAX
    }

    pub open spec fn in_bounds(&self, x: int, y: int) -> bool {
        0 <= x < self.spec_width() && 0 <= y < self.spec_height()
    }

    /// The pixel at (x, y).
    pub open spec fn pixel(&self, x: int, y: int) -> T {
        self.pixels()[linear_index(self.spec_width(), x, y)]
    }

    /// The image with pixel (x, y) replaced by `value`.
    pub open spec fn with_pixel(&self, x: int, y: int, value: T) -> Seq<T> {
        self.pixels().update(linear_index(self.spec_width(), x, y), value)
    }

    /// An image of `width` × `height` pixels, each set to `value`.
    pub fn filled(width: usize, height: usize, value: T) -> (r: Image<T>)
        where
            T: Copy,
        requires
            width * height <= usize::MAX,
        ensures
            r.wf(),
            r.spec_width() == width,
            r.spec_height() == height,
            forall|i: int| 0 <= i < r.pixels().len() ==> r.pixels()[i] == value,
    {
        let total: usize = width * height;
        let mut data: Vec<T> = Vec::with_capacity(total);
        let mut i: usize = 0;
        while i < total
            invariant
                i <= total,
                data@.len() == i,
                forall|j: int| 0 <= j < i ==> data@[j] == value,
            decreases total - i,
        {
            data.push(value);
            i = i + 1;
        }
        Image { data, width, height }
    }

    fn index_of(&self, x: usize, y: usize) -> (r: Option<usize>)
        requires
            self.wf(),
        ensures
            r == (if self.in_bounds(x as int, y as int) {
                Some(linear_index(self.spec_width(), x as int, y as int) as usize)
            } else {
                None::<usize>
            }),
            self.in_bounds(x as int, y as int) ==> 0 <= linear_index(
                self.spec_width(),
                x as int,
                y as int,
            ) < self.pixels().len(),
    {
        if x >= self.width || y >= self.height {
            None
        } else {
            proof {
                lemma_index_in_range(self.width as nat, self.height as nat, x as int, y as int);
            }
            Some(y * self.width + x)
        }
    }

    /// The pixel at (x, y), or `None` outside the image.
    pub fn at(&self, x: usize, y: usize) -> (r: Option<&T>)
        requires
            self.wf(),
        ensures
            r == (if self.in_bounds(x as int, y as int) {
                Some(&self.pixel(x as int, y as int))
            } else {
                None::<&T>
            }),
    {
        match self.index_of(x, y) {
            Some(index) => Some(&self.data[index]),
            None => None,
        }
    }

    /// Stores `value` at (x, y) and hands back what was there; outside the
    /// image nothing changes and `None` comes back.
    pub fn exchange(&mut self, x: usize, y: usize, value: T) -> (r: Option<T>)
        requires
            old(self).wf(),
        ensures
            final(self).wf(),
            final(self).spec_width() == old(self).spec_width(),
            final(self).spec_height() == old(self).spec_height(),
            old(self).in_bounds(x as int, y as int) ==> {
                &&& r == Some(old(self).pixel(x as int, y as int))
                &&& final(self).pixels() == old(self).with_pixel(x as int, y as int, value)
            },
            !old(self).in_bounds(x as int, y as int) ==> {
                &&& r is None
                &&& final(self).pixels() == old(self).pixels()
            },
    {
        match self.index_of(x, y) {
            Some(index) => {
                let mut other = value;
                std::mem::swap(&mut other, &mut self.data[index]);
                Some(other)
            },
            None => None,
        }
    }

    /// Row `y`, left to right.
    pub open spec fn row(&self, y: int) -> Seq<T> {
        self.pixels().subrange(y * self.spec_width(), y * self.spec_width() + self.spec_width())
    }

    /// The pixels with row `y` replaced by `row`.
    pub open spec fn with_row(&self, y: int, row: Seq<T>) -> Seq<T> {
        self.pixels().subrange(0, y * self.spec_width()) + row + self.pixels().subrange(
            y * self.spec_width() + self.spec_width(),
            self.pixels().len() as int,
        )
    }

    /// A copy of row `y`.
    pub fn row_copy(&self, y: usize) -> (r: Vec<T>)
        where
            T: Copy,
        requires
            self.wf(),
            y < self.spec_height(),
        ensures
            r@ == self.row(y as int),
    {
        proof {
            lemma_row_in_range(self.spec_width(), self.spec_height(), y as int);
        }
        let start = y * self.width;
        let mut r: Vec<T> = Vec::with_capacity(self.width);
        let mut k: usize = 0;
        while k < self.width
            invariant
                self.wf(),
                start == y * self.spec_width(),
                start + self.spec_width() <= self.pixels().len(),
                k <= self.width,
                r@ == self.pixels().subrange(start as int, start + k),
            decreases self.width - k,
        {
            r.push(self.data[start + k]);
            k = k + 1;
            assert(r@ =~= self.pixels().subrange(start as int, start + k));
        }
        r
    }

    /// Writes `row` over row `y`.
    pub fn store_row(&mut self, y: usize, row: &Vec<T>)
        where
            T: Copy,
        requires
            old(self).wf(),
            y < old(self).spec_height(),
            row@.len() == old(self).spec_width(),
        ensures
            final(self).wf(),
            final(self).spec_width() == old(self).spec_width(),
            final(self).spec_height() == old(self).spec_height(),
            final(self).pixels() == old(self).with_row(y as int, row@),
    {
        proof {
            lemma_row_in_range(self.spec_width(), self.spec_height(), y as int);
        }
        let start = y * self.width;
        let mut k: usize = 0;
        while k < self.width
            invariant
                self.wf(),
                self.spec_width() == old(self).spec_width(),
                self.spec_height() == old(self).spec_height(),
                start == y * self.spec_width(),
                start + self.spec_width() <= self.pixels().len(),
                row@.len() == self.spec_width(),
                k <= self.width,
                self.pixels().len() == old(self).pixels().len(),
                forall|j: int|
                    0 <= j < self.pixels().len() ==> #[trigger] self.pixels()[j] == if start <= j
                        < start + k {
                        row@[j - start]
                    } else {
                        old(self).pixels()[j]
                    },
            decreases self.width - k,
        {
            self.data[start + k] = row[k];
            k = k + 1;
        }
        assert(self.pixels() =~= old(self).with_row(y as int, row@));
    }

    /// (width, height).
    pub fn size(&self) -> (r: (usize, usize))
        ensures
            r.0 == self.spec_width(),
            r.1 == self.spec_height(),
    {
        (self.width, self.height)
    }

    /// Every coordinate of the image, row by row.
    pub fn coordinates(&self) -> (r: CoordinateIterator)
        requires
            self.wf(),
        ensures
            r.wf(),
            r.remaining() == grid_coordinates(self.spec_width(), self.spec_height()),
    {
        CoordinateIterator::new(self.width, self.height)
    }
}

impl<T: Default> Image<T> {
    /// An image of `width` × `height` pixels, each `T::default()`.
    pub fn new(width: usize, height: usize) -> (r: Image<T>)
        requires
            width * height <= usize::MAX,
        ensures
            r.wf(),
            r.spec_width() == width,
            r.spec_height() == height,
            forall|j: int|
                0 <= j < r.pixels().len() ==> call_ensures(T::default, (), #[trigger] r.pixels()[j]),
    {
        let total: usize = width * height;
        let mut data: Vec<T> = Vec::with_capacity(total);
        let mut i: usize = 0;
        while i < total
            invariant
                i <= total,
                data@.len() == i,
                forall|j: int| 0 <= j < i ==> call_ensures(T::default, (), #[trigger] data@[j]),
            decreases total - i,
        {
            data.push(T::default());
            i = i + 1;
        }
        Image { data, width, height }
    }
}

/// A walk over the coordinates of a grid in row-major order.
pub struct CoordinateIterator {
    pixel_index: usize,
    width: usize,
    height: usize,
}

impl CoordinateIterator {
    /// The coordinates still to come.
    pub closed spec fn remaining(&self) -> Seq<(usize, usize)> {
        let total = self.width as int * self.height as int;
        if self.pixel_index < total {
            Seq::new(
                (total - self.pixel_index) as nat,
                |i: int| grid_coordinate(self.width as nat, self.pixel_index + i),
            )
        } else {
            Seq::empty()
        }
    }

    pub closed spec fn wf(&self) -> bool {
        self.width * self.height <= usize::MAX
    }

    pub(crate) fn new(width: usize, height: usize) -> (r: CoordinateIterator)
        requires
            width * height <= usize::MAX,
        ensures
            r.wf(),
            r.remaining() == grid_coordinates(width as nat, height as nat),
    {
        let r = CoordinateIterator { pixel_index: 0, width, height };
        assert(r.remaining() =~= grid_coordinates(width as nat, height as nat));
        r
    }

    /// The next coordinate, or `None` once all have been visited.
    pub fn next(&mut self) -> (r: Option<(usize, usize)>)
        requires
            old(self).wf(),
        ensures
            final(self).wf(),
            old(self).remaining().len() == 0 ==> r is None && final(self).remaining().len() == 0,
            old(self).remaining().len() > 0 ==> {
                &&& r == Some(old(self).remaining()[0])
                &&& final(self).remaining() == old(self).remaining().skip(1)
            },
    {
        let total: usize = self.width * self.height;
        if self.pixel_index >= total {
            return None;
        }
        let x = self.pixel_index % self.width;
        let y = self.pixel_index / self.width;
        self.pixel_index = self.pixel_index + 1;
        assert(final(self).remaining() =~= old(self).remaining().skip(1));
        Some((x, y))
    }
}

} // verus!
