use vstd::prelude::*;

use crate::objects::{Color, Pixel};

verus! {

/// Why a byte buffer cannot back a surface.
#[derive(Clone, Copy, Debug, PartialEq, Eq, Structural)]
pub enum SurfaceError {
    /// A dimension does not fit the signed coordinate plane.
    TooLarge,
    /// The buffer holds fewer than `width * height * 4` bytes.
    Undersized,
}

/// The byte offset of pixel `(x, y)` in a row-major buffer, four bytes a pixel.
pub open spec fn offset(width: nat, x: int, y: int) -> int {
    (x + y * width) * 4
}

/// Whether `(x, y)` names a pixel of a `width` by `height` canvas.
pub open spec fn in_canvas(width: nat, height: nat, x: int, y: int) -> bool {
    0 <= x < width && 0 <= y < height
}

/// The bytes after one pixel write: an in-range pixel takes the color's channels and
/// an opaque alpha; any other pixel leaves the bytes as they are.
pub open spec fn put_pixel(bytes: Seq<u8>, width: nat, height: nat, p: Pixel) -> Seq<u8> {
    if in_canvas(width, height, p.x as int, p.y as int) {
        let i = offset(width, p.x as int, p.y as int);
        bytes.update(i, p.color.red).update(i + 1, p.color.green).update(i + 2, p.color.blue).update(
            i + 3,
            255u8,
        )
    } else {
        bytes
    }
}

/// The bytes after writing the pixels in order.
pub open spec fn paint(bytes: Seq<u8>, width: nat, height: nat, pixels: Seq<Pixel>) -> Seq<u8>
    decreases pixels.len(),
{
    if pixels.len() == 0 {
        bytes
    } else {
        put_pixel(paint(bytes, width, height, pixels.drop_last()), width, height, pixels.last())
    }
}

/// The four channels stored for pixel `(x, y)`.
pub open spec fn channels(bytes: Seq<u8>, width: nat, x: int, y: int) -> (u8, u8, u8, u8) {
    let i = offset(width, x, y);
    (bytes[i], bytes[i + 1], bytes[i + 2], bytes[i + 3])
}

proof fn lemma_distinct_offsets(width: nat, height: nat, x: int, y: int, u: int, v: int)
    requires
        in_canvas(width, height, x, y),
        in_canvas(width, height, u, v),
        x != u || y != v,
    ensures
        offset(width, x, y) + 4 <= offset(width, u, v) || offset(width, u, v) + 4 <= offset(
            width,
            x,
            y,
        ),
{
    if y < v {
        assert(x + y * width < u + v * width) by (nonlinear_arith)
            requires
                0 <= x < width,
                0 <= u,
                y < v,
        ;
    } else if v < y {
        assert(u + v * width < x + y * width) by (nonlinear_arith)
            requires
                0 <= u < width,
                0 <= x,
                v < y,
        ;
    }
}

/// Painting never changes the buffer's length.
pub proof fn lemma_paint_len(bytes: Seq<u8>, width: nat, height: nat, pixels: Seq<Pixel>)
    requires
        width * height * 4 <= bytes.len(),
    ensures
        paint(bytes, width, height, pixels).len() == bytes.len(),
    decreases pixels.len(),
{
    if pixels.len() > 0 {
        lemma_paint_len(bytes, width, height, pixels.drop_last());
        let p = pixels.last();
        if in_canvas(width, height, p.x as int, p.y as int) {
            lemma_offset_bounds(width, height, p.x as int, p.y as int);
        }
    }
}

/// When every painted pixel has one color, each canvas pixel afterwards either keeps
/// its bytes or holds exactly that color with an opaque alpha.
pub proof fn lemma_paint_in_color(
    bytes: Seq<u8>,
    width: nat,
    height: nat,
    pixels: Seq<Pixel>,
    color: Color,
    x: int,
    y: int,
)
    requires
        width * height * 4 <= bytes.len(),
        in_canvas(width, height, x, y),
        forall|i: int| 0 <= i < pixels.len() ==> (#[trigger] pixels[i]).color == color,
    ensures
        channels(paint(bytes, width, height, pixels), width, x, y) == channels(bytes, width, x, y)
            || channels(paint(bytes, width, height, pixels), width, x, y) == (
            color.red,
            color.green,
            color.blue,
            255u8,
        ),
    decreases pixels.len(),
{
    if pixels.len() > 0 {
        let rest = pixels.drop_last();
        assert forall|i: int| 0 <= i < rest.len() implies (#[trigger] rest[i]).color == color by {
            assert(rest[i] == pixels[i]);
        }
        lemma_paint_in_color(bytes, width, height, rest, color, x, y);
        lemma_paint_len(bytes, width, height, rest);
        let p = pixels.last();
        assert(p == pixels[pixels.len() - 1]);
        lemma_offset_bounds(width, height, x, y);
        if in_canvas(width, height, p.x as int, p.y as int) {
            lemma_offset_bounds(width, height, p.x as int, p.y as int);
            if p.x != x || p.y != y {
                lemma_distinct_offsets(width, height, x, y, p.x as int, p.y as int);
            }
        }
    }
}

/// Dimensions a canvas can have: none when it has no pixel, else both within the
/// signed plane, where its bounds are computed.
pub open spec fn fits_plane(width: nat, height: nat) -> bool {
    width * height == 0 || (width <= i32::MAX && height <= i32::MAX)
}

/// Row-major RGBA pixels over a byte buffer, at four bytes a pixel.
pub struct Surface {
    buffer: Vec<u8>,
    width: u32,
    height: u32,
}

pub(crate) proof fn lemma_offset_bounds(width: nat, height: nat, x: int, y: int)
    requires
        in_canvas(width, height, x, y),
    ensures
        0 <= y * width,
        x + y * width < width * height,
        0 <= offset(width, x, y),
        offset(width, x, y) + 4 <= width * height * 4,
{
    assert(0 <= y * width) by (nonlinear_arith)
        requires
            0 <= y,
    ;
    assert(x + y * width + 1 <= width * height) by (nonlinear_arith)
        requires
            0 <= x < width,
            0 <= y < height,
    ;
}

impl Surface {
    /// The buffer's bytes.
    pub closed spec fn bytes(&self) -> Seq<u8> {
        self.buffer@
    }

    /// The canvas width in pixels.
    pub closed spec fn columns(&self) -> nat {
        self.width as nat
    }

    /// The canvas height in pixels.
    pub closed spec fn rows(&self) -> nat {
        self.height as nat
    }

    /// Both dimensions fit the signed plane and the buffer holds every pixel.
    pub open spec fn wf(&self) -> bool {
        &&& fits_plane(self.columns(), self.rows())
        &&& self.columns() * self.rows() * 4 <= self.bytes().len()
    }

    /// The number of bytes the canvas's pixels take.
    pub open spec fn canvas_len(&self) -> nat {
        self.columns() * self.rows() * 4
    }

    /// A surface over `buffer` for a `width` by `height` canvas. The buffer must hold
    /// at least `width * height * 4` bytes; a longer one is kept whole.
    pub fn new(buffer: Vec<u8>, width: u32, height: u32) -> (r: Result<Surface, SurfaceError>)
        ensures
            !fits_plane(width as nat, height as nat) ==> r == Err::<Surface, SurfaceError>(
                SurfaceError::TooLarge,
            ),
            fits_plane(width as nat, height as nat) && buffer@.len() < width * height * 4 ==> r
                == Err::<Surface, SurfaceError>(SurfaceError::Undersized),
            r is Ok <==> (fits_plane(width as nat, height as nat) && width * height * 4
                <= buffer@.len()),
            r matches Ok(s) ==> s.wf() && s.bytes() == buffer@ && s.columns() == width
                && s.rows() == height,
    {
        if width == 0 || height == 0 {
            assert(width * height == 0) by (nonlinear_arith)
                requires
                    width == 0 || height == 0,
            ;
            return Ok(Surface { buffer, width, height });
        }
        assert(width * height != 0) by (nonlinear_arith)
            requires
                width != 0,
                height != 0,
        ;
        if width > i32::MAX as u32 || height > i32::MAX as u32 {
            return Err(SurfaceError::TooLarge);
        }
        assert(width * height <= 0x3fff_ffff_0000_0001) by (nonlinear_arith)
            requires
                width <= 0x7fff_ffff,
                height <= 0x7fff_ffff,
        ;
        let needed: u64 = width as u64 * height as u64 * 4;
        if (buffer.len() as u64) < needed {
            return Err(SurfaceError::Undersized);
        }
        Ok(Surface { buffer, width, height })
    }

    pub fn width(&self) -> (r: u32)
        ensures
            r == self.columns(),
    {
        self.width
    }

    pub fn height(&self) -> (r: u32)
        ensures
            r == self.rows(),
    {
        self.height
    }

    /// The whole buffer, for a host that shows it.
    pub fn as_bytes(&self) -> (r: &[u8])
        ensures
            r@ == self.bytes(),
    {
        self.buffer.as_slice()
    }

    /// Writes `color` with an opaque alpha at `(x, y)`; a pixel off the canvas is
    /// silently dropped and no byte changes.
    pub fn write_pixel(&mut self, x: i32, y: i32, color: Color)
        requires
            old(self).wf(),
        ensures
            final(self).wf(),
            final(self).columns() == old(self).columns(),
            final(self).rows() == old(self).rows(),
            final(self).bytes() == put_pixel(
                old(self).bytes(),
                old(self).columns(),
                old(self).rows(),
                Pixel { x, y, color },
            ),
    {
        if x < 0 || y < 0 || x as u32 >= self.width || y as u32 >= self.height {
            return;
        }
        let len = self.buffer.len();
        proof {
            lemma_offset_bounds(self.width as nat, self.height as nat, x as int, y as int);
        }
        let i: usize = (x as usize + y as usize * self.width as usize) * 4;
        assert(i + 3 < len);
        self.buffer.set(i, color.red);
        self.buffer.set(i + 1, color.green);
        self.buffer.set(i + 2, color.blue);
        self.buffer.set(i + 3, 255);
    }

    /// Writes each pixel in turn, dropping those off the canvas.
    pub fn plot(&mut self, pixels: &Vec<Pixel>)
        requires
            old(self).wf(),
        ensures
            final(self).wf(),
            final(self).columns() == old(self).columns(),
            final(self).rows() == old(self).rows(),
            final(self).bytes() == paint(
                old(self).bytes(),
                old(self).columns(),
                old(self).rows(),
                pixels@,
            ),
    {
        let ghost start = self.bytes();
        let mut i: usize = 0;
        while i < pixels.len()
            invariant
                self.wf(),
                i <= pixels@.len(),
                self.columns() == old(self).columns(),
                self.rows() == old(self).rows(),
                start == old(self).bytes(),
                self.bytes() == paint(start, self.columns(), self.rows(), pixels@.subrange(0, i as int)),
            decreases pixels@.len() - i,
        {
            let p = pixels[i];
            self.write_pixel(p.x, p.y, p.color);
            proof {
                let next = pixels@.subrange(0, i + 1);
                assert(next.drop_last() =~= pixels@.subrange(0, i as int));
                assert(next.last() == p);
            }
            i = i + 1;
        }
        proof {
            assert(pixels@.subrange(0, pixels@.len() as int) =~= pixels@);
        }
    }

    /// Zeroes the canvas's bytes in one bulk operation; bytes past the canvas are kept.
    pub fn clear(&mut self)
        requires
            old(self).wf(),
        ensures
            final(self).wf(),
            final(self).columns() == old(self).columns(),
            final(self).rows() == old(self).rows(),
            final(self).bytes() == Seq::new(old(self).canvas_len(), |i: int| 0u8) + old(
                self,
            ).bytes().subrange(old(self).canvas_len() as int, old(self).bytes().len() as int),
    {
        let n = self.canvas_bytes();
        let mut tail = self.buffer.split_off(n);
        let mut zeroed = vec![0u8; n];
        zeroed.append(&mut tail);
        self.buffer = zeroed;
        assert(self.buffer@.subrange(0, n as int) =~= Seq::new(n as nat, |i: int| 0u8));
        assert(self.buffer@ =~= Seq::new(n as nat, |i: int| 0u8) + old(self).bytes().subrange(
            n as int,
            old(self).bytes().len() as int,
        ));
    }

    /// The number of bytes the canvas's pixels take.
    fn canvas_bytes(&self) -> (r: usize)
        requires
            self.wf(),
        ensures
            r == self.canvas_len(),
    {
        let len = self.buffer.len();
        if self.width == 0 || self.height == 0 {
            assert(self.width * self.height == 0) by (nonlinear_arith)
                requires
                    self.width == 0 || self.height == 0,
            ;
            return 0;
        }
        assert(self.width * self.height != 0) by (nonlinear_arith)
            requires
                self.width != 0,
                self.height != 0,
        ;
        assert(self.width * self.height <= 0x3fff_ffff_0000_0001) by (nonlinear_arith)
            requires
                self.width <= 0x7fff_ffff,
                self.height <= 0x7fff_ffff,
        ;
        let n: u64 = self.width as u64 * self.height as u64 * 4;
        assert(n <= len);
        n as usize
    }

    /// The four channels of pixel `(x, y)`, or `None` off the canvas.
    pub fn pixel(&self, x: i32, y: i32) -> (r: Option<(u8, u8, u8, u8)>)
        requires
            self.wf(),
        ensures
            in_canvas(self.columns(), self.rows(), x as int, y as int) ==> r == Some(
                channels(self.bytes(), self.columns(), x as int, y as int),
            ),
            !in_canvas(self.columns(), self.rows(), x as int, y as int) ==> r is None,
    {
        if x < 0 || y < 0 || x as u32 >= self.width || y as u32 >= self.height {
            return None;
        }
        let len = self.buffer.len();
        proof {
            lemma_offset_bounds(self.width as nat, self.height as nat, x as int, y as int);
        }
        let i: usize = (x as usize + y as usize * self.width as usize) * 4;
        assert(i + 3 < len);
        Some((self.buffer[i], self.buffer[i + 1], self.buffer[i + 2], self.buffer[i + 3]))
    }
}

} // verus!
