use vstd::prelude::*;

verus! {

/// A pixel as written to an image file: three 8-bit channels.
#[derive(Clone, Copy, Debug, PartialEq, Eq, Structural)]
pub struct Rgb {
    pub r: u8,
    pub g: u8,
    pub b: u8,
}

impl Rgb {
    pub open spec fn spec_black() -> Rgb {
        Rgb { r: 0, g: 0, b: 0 }
    }

    pub fn new(r: u8, g: u8, b: u8) -> (c: Rgb)
        ensures
            c == (Rgb { r, g, b }),
    {
        Rgb { r, g, b }
    }

    pub fn black() -> (c: Rgb)
        ensures
            c == Rgb::spec_black(),
    {
        Rgb { r: 0, g: 0, b: 0 }
    }
}

/// A rectangular grid of pixels, stored row by row from the top row down.
pub struct Image {
    pub width: i32,
    pub height: i32,
    pub pixels: Vec<Rgb>,
}

/// Where pixel `(x, y)` stands in the row-by-row order of an image `width`
/// pixels wide.
pub open spec fn pixel_index(width: int, x: int, y: int) -> int {
    y * width + x
}

proof fn lemma_index_in_bounds(width: int, height: int, x: int, y: int)
    requires
        0 <= x < width,
        0 <= y < height,
    ensures
        0 <= pixel_index(width, x, y) < width * height,
{
    assert(y * width + x < width * height) by (nonlinear_arith)
        requires 0 <= x < width, 0 <= y < height;
    assert(0 <= y * width) by (nonlinear_arith)
        requires 0 <= y, 0 <= width;
}

proof fn lemma_index_distinct(width: int, x1: int, y1: int, x2: int, y2: int)
    requires
        0 <= x1 < width,
        0 <= x2 < width,
        0 <= y1,
        0 <= y2,
        x1 != x2 || y1 != y2,
    ensures
        pixel_index(width, x1, y1) != pixel_index(width, x2, y2),
{
    if y1 == y2 {
    } else if y1 < y2 {
        assert(y1 * width + width <= y2 * width) by (nonlinear_arith)
            requires y1 < y2, width > 0;
    } else {
        assert(y2 * width + width <= y1 * width) by (nonlinear_arith)
            requires y2 < y1, width > 0;
    }
}

impl Image {
    /// The dimensions are positive and every pixel is stored.
    pub open spec fn wf(&self) -> bool {
        &&& self.width > 0
        &&& self.height > 0
        &&& self.pixels@.len() == self.width * self.height
        &&& self.width * self.height <= usize::MAX
    }

    pub open spec fn pixel(&self, x: int, y: int) -> Rgb {
        self.pixels@[pixel_index(self.width as int, x, y)]
    }

    /// An all-black image of the given size.
    pub fn new(width: i32, height: i32) -> (img: Image)
        requires
            width > 0,
            height > 0,
            width * height <= usize::MAX,
        ensures
            img.wf(),
            img.width == width,
            img.height == height,
            forall|i: int| 0 <= i < img.pixels@.len() ==> img.pixels@[i] == Rgb::spec_black(),
    {
        let n: usize = (width as usize) * (height as usize);
        let mut pixels: Vec<Rgb> = Vec::new();
        let mut i: usize = 0;
        while i < n
            invariant
                i <= n,
                pixels@.len() == i,
                forall|k: int| 0 <= k < i ==> pixels@[k] == Rgb::spec_black(),
            decreases n - i,
        {
            pixels.push(Rgb::black());
            i = i + 1;
        }
        Image { width, height, pixels }
    }

    /// Replaces the color of pixel `(x, y)`, leaving every other pixel as it was.
    pub fn set_color(&mut self, x: i32, y: i32, color: Rgb)
        requires
            old(self).wf(),
            0 <= x < old(self).width,
            0 <= y < old(self).height,
        ensures
            final(self).wf(),
            final(self).width == old(self).width,
            final(self).height == old(self).height,
            final(self).pixels@ == old(self).pixels@.update(
                pixel_index(old(self).width as int, x as int, y as int),
                color,
            ),
    {
        proof {
            lemma_index_in_bounds(self.width as int, self.height as int, x as int, y as int);
        }
        let i = (y as usize) * (self.width as usize) + (x as usize);
        self.pixels.set(i, color);
    }

    /// Replaces row `y` with `row`, leaving every other row as it was.
    pub fn set_row(&mut self, y: i32, row: &Vec<Rgb>)
        requires
            old(self).wf(),
            0 <= y < old(self).height,
            row@.len() == old(self).width,
        ensures
            final(self).wf(),
            final(self).width == old(self).width,
            final(self).height == old(self).height,
            forall|x: int, v: int|
                0 <= x < final(self).width && 0 <= v < final(self).height ==> #[trigger] final(self).pixel(x, v) == if v == y {
                    row@[x]
                } else {
                    old(self).pixel(x, v)
                },
    {
        let ghost before = *self;
        let mut x: i32 = 0;
        while x < self.width
            invariant
                self.wf(),
                self.width == before.width,
                self.height == before.height,
                row@.len() == self.width,
                0 <= y < self.height,
                0 <= x <= self.width,
                forall|i: int, v: int|
                    0 <= i < self.width && 0 <= v < self.height ==> #[trigger] self.pixel(i, v)
                        == if v == y && i < x {
                        row@[i]
                    } else {
                        before.pixel(i, v)
                    },
            decreases self.width - x,
        {
            let ghost prev = *self;
            self.set_color(x, y, row[x as usize]);
            proof {
                assert forall|i: int, v: int|
                    0 <= i < self.width && 0 <= v < self.height implies #[trigger] self.pixel(i, v)
                        == if v == y && i < x + 1 {
                        row@[i]
                    } else {
                        before.pixel(i, v)
                    } by {
                    lemma_index_in_bounds(self.width as int, self.height as int, i, v);
                    if i != x || v != y {
                        lemma_index_distinct(self.width as int, i, v, x as int, y as int);
                        lemma_index_in_bounds(
                            self.width as int,
                            self.height as int,
                            x as int,
                            y as int,
                        );
                        assert(self.pixel(i, v) == prev.pixel(i, v));
                    }
                }
            }
            x = x + 1;
        }
    }

    /// The color of pixel `(x, y)`.
    pub fn get_color(&self, x: i32, y: i32) -> (c: Rgb)
        requires
            self.wf(),
            0 <= x < self.width,
            0 <= y < self.height,
        ensures
            c == self.pixel(x as int, y as int),
    {
        proof {
            lemma_index_in_bounds(self.width as int, self.height as int, x as int, y as int);
        }
        self.pixels[(y as usize) * (self.width as usize) + (x as usize)]
    }
}

} // verus!
