//! The overlay's canvas: where pixels are, and what lies outside.
//!
//! Wayland's `Argb8888` is **premultiplied** and stored as B, G, R, A.

use vstd::prelude::*;

verus! {

/// Straight (non-premultiplied) colour.
#[derive(Debug, Clone, Copy, PartialEq, Eq, Structural)]
pub struct Rgba {
    pub r: u8,
    pub g: u8,
    pub b: u8,
    pub a: u8,
}

impl Rgba {
    pub fn new(r: u8, g: u8, b: u8, a: u8) -> (c: Self)
        ensures
            c == (Rgba { r, g, b, a }),
    {
        Rgba { r, g, b, a }
    }
}

/// One stored pixel, premultiplied.
#[derive(Debug, Clone, Copy, PartialEq, Eq, Structural)]
pub struct Pixel {
    pub b: u8,
    pub g: u8,
    pub r: u8,
    pub a: u8,
}

/// Whether a point lies on a canvas of this size.
pub open spec fn inside(width: int, height: int, x: int, y: int) -> bool {
    0 <= x < width && 0 <= y < height
}

/// Where the pixel at a point starts.
pub open spec fn offset(width: int, x: int, y: int) -> int {
    (y * width + x) * 4
}

/// The pixel that starts at an offset.
pub open spec fn pixel_at(buf: Seq<u8>, i: int) -> Pixel {
    Pixel { b: buf[i], g: buf[i + 1], r: buf[i + 2], a: buf[i + 3] }
}

/// A buffer with another pixel at an offset.
pub open spec fn with_pixel(buf: Seq<u8>, i: int, p: Pixel) -> Seq<u8> {
    buf.update(i, p.b).update(i + 1, p.g).update(i + 2, p.r).update(i + 3, p.a)
}

/// An ARGB8888 canvas.
pub struct Canvas {
    pub buf: Vec<u8>,
    pub width: i32,
    pub height: i32,
}

impl Canvas {
    /// The buffer has room for every pixel, and offsets into it can be
    /// computed.
    pub open spec fn inv(self) -> bool {
        &&& self.width >= 0
        &&& self.height >= 0
        &&& self.width * self.height * 4 <= self.buf@.len()
        &&& self.width * self.height * 4 <= i32::MAX
    }

    /// A canvas on a buffer.
    pub fn new(buf: Vec<u8>, width: i32, height: i32) -> (r: Self)
        ensures
            r.buf == buf,
            r.width == width,
            r.height == height,
    {
        Canvas { buf, width, height }
    }

    /// Makes every pixel transparent.
    pub fn clear(&mut self)
        ensures
            final(self).width == old(self).width,
            final(self).height == old(self).height,
            final(self).buf@ == Seq::new(old(self).buf@.len(), |i: int| 0u8),
    {
        let n: usize = self.buf.len();
        let mut i: usize = 0;
        while i < n
            invariant
                i <= n,
                self.buf@.len() == n,
                self.width == old(self).width,
                self.height == old(self).height,
                forall|j: int| 0 <= j < i ==> self.buf@[j] == 0,
            decreases n - i,
        {
            self.buf.set(i, 0);
            i += 1;
        }
        assert(self.buf@ =~= Seq::new(n as nat, |i: int| 0u8));
    }

    /// Where the pixel at a point starts, if the point is on the canvas.
    pub fn offset_of(&self, x: i32, y: i32) -> (r: Option<usize>)
        requires
            self.inv(),
        ensures
            if inside(self.width as int, self.height as int, x as int, y as int) {
                r matches Some(i) && i == offset(self.width as int, x as int, y as int) && i + 4
                    <= self.buf@.len()
            } else {
                r is None
            },
    {
        if x < 0 || y < 0 || x >= self.width || y >= self.height {
            return None;
        }
        proof {
            lemma_offset_bound(self.width as int, self.height as int, x as int, y as int);
        }
        let i: i32 = (y * self.width + x) * 4;
        Some(i as usize)
    }

    /// The pixel at a point, if the point is on the canvas.
    pub fn pixel(&self, x: i32, y: i32) -> (r: Option<Pixel>)
        requires
            self.inv(),
        ensures
            r == if inside(self.width as int, self.height as int, x as int, y as int) {
                Some(pixel_at(self.buf@, offset(self.width as int, x as int, y as int)))
            } else {
                None
            },
    {
        match self.offset_of(x, y) {
            Some(i) => Some(
                Pixel {
                    b: self.buf[i],
                    g: self.buf[i + 1],
                    r: self.buf[i + 2],
                    a: self.buf[i + 3],
                },
            ),
            None => None,
        }
    }

    /// Stores a pixel at a point. One outside the canvas is dropped.
    pub fn put(&mut self, x: i32, y: i32, p: Pixel)
        requires
            old(self).inv(),
        ensures
            final(self).inv(),
            final(self).width == old(self).width,
            final(self).height == old(self).height,
            final(self).buf@ == if inside(
                old(self).width as int,
                old(self).height as int,
                x as int,
                y as int,
            ) {
                with_pixel(
                    old(self).buf@,
                    offset(old(self).width as int, x as int, y as int),
                    p,
                )
            } else {
                old(self).buf@
            },
    {
        if let Some(i) = self.offset_of(x, y) {
            self.buf.set(i, p.b);
            self.buf.set(i + 1, p.g);
            self.buf.set(i + 2, p.r);
            self.buf.set(i + 3, p.a);
        }
    }
}

proof fn lemma_offset_bound(width: int, height: int, x: int, y: int)
    requires
        inside(width, height, x, y),
    ensures
        0 <= y * width,
        y * width + x + 1 <= width * height,
        0 <= offset(width, x, y),
        offset(width, x, y) + 4 <= width * height * 4,
{
    assert(0 <= y * width) by (nonlinear_arith)
        requires
            0 <= y,
            0 <= width,
    ;
    assert((y + 1) * width <= height * width) by (nonlinear_arith)
        requires
            y + 1 <= height,
            0 <= width,
    ;
    assert((y + 1) * width == y * width + width) by (nonlinear_arith);
    assert(height * width == width * height) by (nonlinear_arith);
}

/// What is stored at a point is read back there, and no other point changes.
pub proof fn law_pixels_do_not_overlap(
    buf: Seq<u8>,
    width: int,
    height: int,
    x: int,
    y: int,
    other_x: int,
    other_y: int,
    p: Pixel,
)
    requires
        inside(width, height, x, y),
        inside(width, height, other_x, other_y),
        width * height * 4 <= buf.len(),
    ensures
        pixel_at(with_pixel(buf, offset(width, x, y), p), offset(width, x, y)) == p,
        (x, y) != (other_x, other_y) ==> pixel_at(
            with_pixel(buf, offset(width, x, y), p),
            offset(width, other_x, other_y),
        ) == pixel_at(buf, offset(width, other_x, other_y)),
{
    lemma_offset_bound(width, height, x, y);
    lemma_offset_bound(width, height, other_x, other_y);
    if y < other_y {
        assert((y + 1) * width <= other_y * width) by (nonlinear_arith)
            requires
                y + 1 <= other_y,
                0 <= width,
        ;
        assert((y + 1) * width == y * width + width) by (nonlinear_arith);
    } else if other_y < y {
        assert((other_y + 1) * width <= y * width) by (nonlinear_arith)
            requires
                other_y + 1 <= y,
                0 <= width,
        ;
        assert((other_y + 1) * width == other_y * width + width) by (nonlinear_arith);
    }
}

/// Pixels follow one another along a row, and rows down the surface, four bytes
/// each.
pub proof fn law_pixels_follow_in_rows(width: int, x: int, y: int)
    ensures
        offset(width, 0, 0) == 0,
        offset(width, x + 1, y) == offset(width, x, y) + 4,
        offset(width, 0, y + 1) == offset(width, width, y),
{
    assert((y + 1) * width == y * width + width) by (nonlinear_arith);
    assert(0 * width == 0);
}

/// A pixel that is painted is there, blue first and opacity last, and no other
/// byte has changed.
pub proof fn law_a_painted_pixel_is_there(buf: Seq<u8>, i: int, p: Pixel, j: int)
    requires
        0 <= i,
        i + 4 <= buf.len(),
        0 <= j < buf.len(),
    ensures
        pixel_at(with_pixel(buf, i, p), i) == p,
        with_pixel(buf, i, p).len() == buf.len(),
        with_pixel(buf, i, p)[i] == p.b,
        with_pixel(buf, i, p)[i + 1] == p.g,
        with_pixel(buf, i, p)[i + 2] == p.r,
        with_pixel(buf, i, p)[i + 3] == p.a,
        j < i || j >= i + 4 ==> with_pixel(buf, i, p)[j] == buf[j],
{
}

/// A place is on the surface exactly if it is in one of its columns and rows.
pub proof fn law_what_is_inside(width: int, height: int, x: int, y: int)
    ensures
        inside(width, height, x, y) <==> x >= 0 && x < width && y >= 0 && y < height,
{
}

} // verus!
