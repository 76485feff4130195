//! Image assembly: the RGB picture that a complete grid is painted into.
//!
//! The pixels live in an image buffer of the `image` crate. The verifier
//! cannot look into that buffer, so what is said of it here it takes on
//! trust: the three functions that touch it are kept as small as they can
//! be, and everything built on them is proved.

use vstd::prelude::*;
use image::{ImageBuffer, Rgb, RgbImage};
use crate::palette::{color, palette};

verus! {

/// One pixel: red, green, blue.
pub type Pixel = (u8, u8, u8);

/// An `image::RgbImage`, held where the verifier does not look.
#[verifier::external_body]
pub struct Canvas {
    image: RgbImage,
}

/// The pixels of a canvas, row by row from the top, each row from the left.
pub uninterp spec fn canvas_rows(canvas: Canvas) -> Seq<Seq<Pixel>>;

/// `ImageBuffer::new`: a buffer of `height` rows of `width` pixels, every
/// channel zero. The call panics when three bytes per pixel do not fit in a
/// vector, which the precondition rules out.
#[verifier::external_body]
fn blank_canvas(width: u32, height: u32) -> (canvas: Canvas)
    requires
        3 * width * height <= isize::MAX,
    ensures
        canvas_rows(canvas) == Seq::new(
            height as nat,
            |y: int| Seq::new(width as nat, |x: int| (0u8, 0u8, 0u8)),
        ),
{
    Canvas { image: ImageBuffer::new(width, height) }
}

/// `ImageBuffer::put_pixel`: replaces the pixel at `(x, y)` and no other.
/// The call panics outside the image, which the precondition rules out.
#[verifier::external_body]
fn put_pixel(canvas: &mut Canvas, x: u32, y: u32, pixel: Pixel)
    requires
        y < canvas_rows(*old(canvas)).len(),
        x < canvas_rows(*old(canvas))[y as int].len(),
    ensures
        canvas_rows(*final(canvas)) == canvas_rows(*old(canvas)).update(
            y as int,
            canvas_rows(*old(canvas))[y as int].update(x as int, pixel),
        ),
{
    canvas.image.put_pixel(x, y, Rgb([pixel.0, pixel.1, pixel.2]))
}

/// `ImageBuffer::into_raw`: the buffer's bytes, three per pixel, row after
/// row, so that with `w` pixels per row the pixel at `(x, y)` starts at
/// byte `3 * (y * w + x)`.
#[verifier::external_body]
fn into_raw(canvas: Canvas) -> (bytes: Vec<u8>)
    ensures
        bytes.len() == 3 * canvas_rows(canvas).len() * row_width(canvas_rows(canvas)),
        forall|y: int, x: int|
            0 <= y < canvas_rows(canvas).len() && 0 <= x < canvas_rows(canvas)[y].len()
                ==> bytes[3 * (y * row_width(canvas_rows(canvas)) + x)] == (
            #[trigger] canvas_rows(canvas)[y][x]).0,
        forall|y: int, x: int|
            0 <= y < canvas_rows(canvas).len() && 0 <= x < canvas_rows(canvas)[y].len()
                ==> bytes[3 * (y * row_width(canvas_rows(canvas)) + x) + 1] == (
            #[trigger] canvas_rows(canvas)[y][x]).1,
        forall|y: int, x: int|
            0 <= y < canvas_rows(canvas).len() && 0 <= x < canvas_rows(canvas)[y].len()
                ==> bytes[3 * (y * row_width(canvas_rows(canvas)) + x) + 2] == (
            #[trigger] canvas_rows(canvas)[y][x]).2,
{
    canvas.image.into_raw()
}

/// Pixels per row of a grid of pixels; zero when it has no rows.
pub open spec fn row_width(rows: Seq<Seq<Pixel>>) -> nat {
    if rows.len() > 0 {
        rows[0].len()
    } else {
        0
    }
}

/// The colours of a row of shades.
pub open spec fn colored_row(shades: Seq<u8>) -> Seq<Pixel> {
    Seq::new(shades.len(), |x: int| palette(shades[x] as int))
}

/// The colours of a grid of shades.
pub open spec fn colored(rows: Seq<Seq<u8>>) -> Seq<Seq<Pixel>> {
    Seq::new(rows.len(), |y: int| colored_row(rows[y]))
}

/// A finished picture of known size.
pub struct Picture {
    width: u32,
    height: u32,
    canvas: Canvas,
}

/// The picture as the contracts see it.
pub struct PictureView {
    pub width: nat,
    pub height: nat,
    pub rows: Seq<Seq<Pixel>>,
}

impl PictureView {
    /// The picture is a rectangle of `height` rows of `width` pixels.
    pub open spec fn wf(self) -> bool {
        &&& self.rows.len() == self.height
        &&& forall|y: int| 0 <= y < self.height ==> (#[trigger] self.rows[y]).len() == self.width
    }
}

impl View for Picture {
    type V = PictureView;

    closed spec fn view(&self) -> PictureView {
        PictureView {
            width: self.width as nat,
            height: self.height as nat,
            rows: canvas_rows(self.canvas),
        }
    }
}

impl Picture {
    /// The picture is a rectangle of its stated size.
    pub open spec fn wf(&self) -> bool {
        self@.wf()
    }

    /// A black picture of `width` by `height` pixels, or `None` when its
    /// three bytes per pixel would not fit in memory.
    pub fn new(width: u32, height: u32) -> (res: Option<Picture>)
        ensures
            res is Some <==> 3 * width * height <= isize::MAX,
            res matches Some(p) ==> p.wf() && p@ == (PictureView {
                width: width as nat,
                height: height as nat,
                rows: Seq::new(
                    height as nat,
                    |y: int| Seq::new(width as nat, |x: int| (0u8, 0u8, 0u8)),
                ),
            }),
    {
        assert(width * height <= 0xffff_ffff * 0xffff_ffff) by (nonlinear_arith)
            requires
                width <= 0xffff_ffff,
                height <= 0xffff_ffff,
        ;
        assert(3 * width * height == 3 * (width * height)) by (nonlinear_arith);
        let area: u64 = (width as u64) * (height as u64);
        if area > (isize::MAX as u64) / 3 {
            return None;
        }
        Some(Picture { width, height, canvas: blank_canvas(width, height) })
    }

    /// Pixels per row.
    pub fn width(&self) -> (w: u32)
        ensures
            w == self@.width,
    {
        self.width
    }

    /// Number of rows.
    pub fn height(&self) -> (h: u32)
        ensures
            h == self@.height,
    {
        self.height
    }

    /// Paints row `y` with the colours of `shades`, leaving every other row
    /// as it is.
    pub fn paint_row(&mut self, y: u32, shades: &Vec<u8>)
        requires
            old(self).wf(),
            y < old(self)@.height,
            shades.len() == old(self)@.width,
        ensures
            final(self).wf(),
            final(self)@ == (PictureView {
                rows: old(self)@.rows.update(y as int, colored_row(shades@)),
                ..old(self)@
            }),
    {
        let mut x: u32 = 0;
        while x < self.width
            invariant
                self.wf(),
                x <= self.width,
                self.width == old(self).width,
                self.height == old(self).height,
                y < self.height,
                shades.len() == self.width,
                forall|r: int|
                    0 <= r < self.height && r != y ==> (#[trigger] self@.rows[r])
                        == old(self)@.rows[r],
                forall|k: int|
                    0 <= k < x ==> (#[trigger] self@.rows[y as int][k]) == palette(
                        shades[k] as int,
                    ),
            decreases self.width - x,
        {
            let c = color(shades[x as usize]);
            put_pixel(&mut self.canvas, x, y, c);
            x = x + 1;
        }
        proof {
            assert(self@.rows[y as int] =~= colored_row(shades@));
            assert(self@.rows =~= old(self)@.rows.update(y as int, colored_row(shades@)));
        }
    }

    /// The picture as bytes: three per pixel, red, green, blue, row after
    /// row from the top, each row from the left.
    pub fn into_bytes(self) -> (bytes: Vec<u8>)
        requires
            self.wf(),
        ensures
            bytes.len() == 3 * self@.height * self@.width,
            forall|y: int, x: int|
                0 <= y < self@.height && 0 <= x < self@.width ==> {
                    let at = 3 * (y * self@.width + x);
                    &&& bytes[at] == (#[trigger] self@.rows[y][x]).0
                    &&& bytes[at + 1] == self@.rows[y][x].1
                    &&& bytes[at + 2] == self@.rows[y][x].2
                },
    {
        let ghost rows = self@.rows;
        let ghost w = self@.width as int;
        let ghost h = self@.height as int;
        let Picture { width: _, height: _, canvas } = self;
        proof {
            if h > 0 {
                assert(rows[0].len() == w);
            } else {
                assert(3 * h * w == 0) by (nonlinear_arith)
                    requires
                        h == 0,
                ;
                assert(3 * rows.len() * row_width(rows) == 0) by (nonlinear_arith)
                    requires
                        rows.len() == 0,
                ;
            }
        }
        into_raw(canvas)
    }
}

} // verus!
