use vstd::prelude::*;

use crate::raster::{frame_text, rasterize, LumaImage};

verus! {

#[verifier::external_type_specification]
#[verifier::external_body]
pub struct ExImageError(image::ImageError);

/// Why a sequence of frames could not be loaded.
#[derive(Debug, Clone, Copy, PartialEq, Eq, Structural)]
pub enum LoadError {
    /// The directory could not be listed or a file could not be read.
    Io,
    /// A file is no image, or is smaller than the playback resolution.
    Decode,
}

/// What decoding an encoded image gives, reduced to luma: its width, its
/// height and its luma bytes row by row; `None` where the bytes are no image
/// of a known format.
pub uninterp spec fn decoded_luma(bytes: Seq<u8>) -> Option<(u32, u32, Seq<u8>)>;

/// Relies on image::load_from_memory, which detects the format from the bytes
/// and decodes them, and on DynamicImage::to_luma8 with ImageBuffer::into_raw,
/// which hand out one luma byte per pixel, row by row, width * height in all.
#[verifier::external_body]
fn decode_luma(bytes: &Vec<u8>) -> (r: Result<LumaImage, image::ImageError>)
    ensures
        r is Ok <==> decoded_luma(bytes@) is Some,
        r matches Ok(img) ==> img.wf() && decoded_luma(bytes@) == Some(
            (img.width, img.height, img.pixels@),
        ),
{
    let gray = image::load_from_memory(bytes)?.to_luma8();
    Ok(LumaImage { width: gray.width(), height: gray.height(), pixels: gray.into_raw() })
}

/// A decoded image covers a frame of `width` by `height`.
pub open spec fn covers(d: Option<(u32, u32, Seq<u8>)>, width: u32, height: u32) -> bool {
    match d {
        Some((w, h, _)) => w >= width && h >= height,
        None => false,
    }
}

/// The text that a decoded image renders to at `width` by `height`.
pub open spec fn decoded_frame(d: Option<(u32, u32, Seq<u8>)>, width: u32, height: u32) -> Seq<
    char,
> {
    match d {
        Some((w, _, pixels)) => frame_text(pixels, w as nat, width as nat, height as nat),
        None => Seq::empty(),
    }
}

/// Every file decodes to an image that covers the frame.
pub open spec fn all_cover(files: Seq<Vec<u8>>, width: u32, height: u32) -> bool {
    forall|i: int| 0 <= i < files.len() ==> covers(#[trigger] decoded_luma(files[i]@), width, height)
}

/// Decodes and renders each encoded image in turn, keeping their order. One
/// file that does not decode, or is smaller than the frame, fails the whole
/// sequence.
pub fn load_frames(files: &Vec<Vec<u8>>, width: u32, height: u32) -> (r: Result<
    Vec<String>,
    LoadError,
>)
    ensures
        r is Ok <==> all_cover(files@, width, height),
        r matches Err(e) ==> e == LoadError::Decode,
        r matches Ok(frames) ==> frames@.len() == files@.len() && forall|i: int|
            0 <= i < files@.len() ==> #[trigger] frames@[i]@ == decoded_frame(
                decoded_luma(files@[i]@),
                width,
                height,
            ),
{
    let mut frames: Vec<String> = Vec::new();
    let mut i: usize = 0;
    while i < files.len()
        invariant
            i <= files@.len(),
            frames@.len() == i,
            forall|j: int| 0 <= j < i ==> covers(#[trigger] decoded_luma(files@[j]@), width, height),
            forall|j: int|
                0 <= j < i ==> #[trigger] frames@[j]@ == decoded_frame(
                    decoded_luma(files@[j]@),
                    width,
                    height,
                ),
        decreases files@.len() - i,
    {
        let image = match decode_luma(&files[i]) {
            Ok(image) => image,
            Err(_) => {
                assert(!covers(decoded_luma(files@[i as int]@), width, height));
                return Err(LoadError::Decode);
            },
        };
        let text = match rasterize(&image, width, height) {
            Ok(text) => text,
            Err(_) => {
                assert(!covers(decoded_luma(files@[i as int]@), width, height));
                return Err(LoadError::Decode);
            },
        };
        frames.push(text);
        i = i + 1;
    }
    Ok(frames)
}

} // verus!
