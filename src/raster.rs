use vstd::prelude::*;

use crate::quantize::{quantize, ramp_char};

verus! {

/// A decoded image reduced to one luma byte per pixel, stored row by row.
pub struct LumaImage {
    pub width: u32,
    pub height: u32,
    pub pixels: Vec<u8>,
}

/// Why a frame could not be rendered.
#[derive(Debug, Clone, Copy, PartialEq, Eq, Structural)]
pub enum RasterError {
    /// The image is narrower or shorter than the frame asked for.
    OutOfBounds,
}

impl LumaImage {
    /// The pixel buffer holds exactly one byte per pixel.
    pub open spec fn wf(&self) -> bool {
        self.pixels@.len() == self.width as nat * self.height as nat
    }

    /// Builds an image from its rows of luma bytes laid end to end; `None`
    /// where the buffer does not hold one byte for each pixel.
    pub fn new(width: u32, height: u32, pixels: Vec<u8>) -> (r: Option<LumaImage>)
        ensures
            r is Some <==> pixels@.len() == width as nat * height as nat,
            r matches Some(img) ==> img.wf() && img.width == width && img.height == height
                && img.pixels@ == pixels@,
    {
        assert(width as nat * height as nat <= 0xffff_ffff * 0xffff_ffff) by (nonlinear_arith)
            requires
                width <= 0xffff_ffff,
                height <= 0xffff_ffff,
        ;
        let n: u64 = width as u64 * height as u64;
        if pixels.len() as u64 == n {
            Some(LumaImage { width, height, pixels })
        } else {
            None
        }
    }

    /// The luma byte at column `x` of row `y`.
    pub fn luma_at(&self, x: u32, y: u32) -> (l: u8)
        requires
            self.wf(),
            x < self.width,
            y < self.height,
        ensures
            l == self.pixels@[y * self.width + x],
    {
        let count = self.pixels.len();
        proof {
            lemma_index_in_grid(x as int, y as int, self.width as int, self.height as int);
            assert(y * self.width + x < count);
        }
        self.pixels[y as usize * self.width as usize + x as usize]
    }
}

proof fn lemma_index_in_grid(x: int, y: int, w: int, h: int)
    requires
        0 <= x < w,
        0 <= y < h,
    ensures
        0 <= y * w + x < w * h,
{
    assert(y * w + x < w * h) by (nonlinear_arith)
        requires
            0 <= x < w,
            0 <= y < h,
    ;
    assert(0 <= y * w) by (nonlinear_arith)
        requires
            0 <= y,
            0 <= w,
    ;
}

/// One text row: the ramp character of each of the first `width` pixels of
/// row `y`, then a line break. `stride` is the width of the image itself.
pub open spec fn row_text(pixels: Seq<u8>, stride: nat, width: nat, y: nat) -> Seq<char> {
    Seq::new(width, |x: int| ramp_char(pixels[y * stride + x] as int)).push('\n')
}

/// The text of a frame: its first `height` rows, top to bottom.
pub open spec fn frame_text(pixels: Seq<u8>, stride: nat, width: nat, height: nat) -> Seq<
    char,
>
    decreases height,
{
    if height == 0 {
        Seq::empty()
    } else {
        frame_text(pixels, stride, width, (height - 1) as nat) + row_text(
            pixels,
            stride,
            width,
            (height - 1) as nat,
        )
    }
}

/// Relies on String::push: appends one character at the end.
#[verifier::external_body]
fn push_char(s: &mut String, c: char)
    ensures
        final(s)@ == old(s)@.push(c),
{
    s.push(c)
}

/// Renders the top-left `width` by `height` pixels of an image as text, one
/// line per row; fails where the image is smaller than that.
pub fn rasterize(image: &LumaImage, width: u32, height: u32) -> (r: Result<String, RasterError>)
    requires
        image.wf(),
    ensures
        r is Err <==> (image.width < width || image.height < height),
        r matches Err(e) ==> e == RasterError::OutOfBounds,
        r matches Ok(s) ==> s@ == frame_text(
            image.pixels@,
            image.width as nat,
            width as nat,
            height as nat,
        ),
{
    if image.width < width || image.height < height {
        return Err(RasterError::OutOfBounds);
    }
    let mut text = String::new();
    let mut y: u32 = 0;
    while y < height
        invariant
            image.wf(),
            width <= image.width,
            height <= image.height,
            y <= height,
            text@ == frame_text(image.pixels@, image.width as nat, width as nat, y as nat),
        decreases height - y,
    {
        let ghost before = text@;
        let mut x: u32 = 0;
        while x < width
            invariant
                image.wf(),
                width <= image.width,
                y < height <= image.height,
                x <= width,
                text@ == before + Seq::new(
                    x as nat,
                    |i: int| ramp_char(image.pixels@[y * image.width + i] as int),
                ),
            decreases width - x,
        {
            let c = quantize(image.luma_at(x, y));
            push_char(&mut text, c);
            assert(text@ =~= before + Seq::new(
                (x + 1) as nat,
                |i: int| ramp_char(image.pixels@[y * image.width + i] as int),
            ));
            x = x + 1;
        }
        push_char(&mut text, '\n');
        assert(text@ =~= frame_text(
            image.pixels@,
            image.width as nat,
            width as nat,
            (y + 1) as nat,
        ));
        y = y + 1;
    }
    Ok(text)
}

/// The text of a frame whose pixels all share one luma value: `height`
/// rows, each of `width` copies of that value's character and a line break.
pub open spec fn solid_text(c: char, width: nat, height: nat) -> Seq<char>
    decreases height,
{
    if height == 0 {
        Seq::empty()
    } else {
        solid_text(c, width, (height - 1) as nat) + Seq::new(width, |x: int| c).push('\n')
    }
}

/// An image of one luma value throughout renders as rows that all repeat
/// that value's character, once per column, for as many rows as asked.
pub proof fn lemma_solid_frame(image: &LumaImage, luma: u8, width: u32, height: u32)
    requires
        image.wf(),
        width <= image.width,
        height <= image.height,
        forall|i: int| 0 <= i < image.pixels@.len() ==> image.pixels@[i] == luma,
    ensures
        frame_text(image.pixels@, image.width as nat, width as nat, height as nat) == solid_text(
            ramp_char(luma as int),
            width as nat,
            height as nat,
        ),
    decreases height,
{
    if height > 0 {
        let y = (height - 1) as u32;
        lemma_solid_frame(image, luma, width, y);
        assert forall|x: int| 0 <= x < width implies #[trigger] image.pixels@[y * image.width + x] == luma by {
            lemma_index_in_grid(x, y as int, image.width as int, image.height as int);
        }
        assert(row_text(image.pixels@, image.width as nat, width as nat, y as nat) =~= Seq::new(
            width as nat,
            |x: int| ramp_char(luma as int),
        ).push('\n'));
    }
}

} // verus!
