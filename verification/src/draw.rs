//! Rasters for viewing: a palette or a remapping table drawn sixteen
//! colours to the row.

use vstd::prelude::*;
use crate::quantize::color_at;
use image::{ImageBuffer, Rgb};

verus! {

/// A raster of three-byte pixels, held as an image buffer. What it holds is
/// opaque to the verifier and is spoken of through `raster_pixels`,
/// `raster_width` and `raster_height`.
#[verifier::external_body]
pub struct Raster {
    image: ImageBuffer<Rgb<u8>, Vec<u8>>,
}

/// The pixels of a raster, row after row from the top, each row from the
/// left.
pub uninterp spec fn raster_pixels(img: Raster) -> Seq<(u8, u8, u8)>;

/// The number of pixels in a row of a raster.
pub uninterp spec fn raster_width(img: Raster) -> nat;

/// The number of rows of a raster.
pub uninterp spec fn raster_height(img: Raster) -> nat;

/// `ImageBuffer::new`: an image of `width` by `height` pixels, every channel
/// zero. The call panics where the byte count overflows or cannot be
/// allocated, which the precondition leaves out.
#[verifier::external_body]
fn new_image(width: u32, height: u32) -> (img: Raster)
    requires
        3 * width * height <= isize::MAX,
    ensures
        raster_width(img) == width,
        raster_height(img) == height,
        raster_pixels(img).len() == width * height,
        forall|p: int| 0 <= p < width * height ==> raster_pixels(img)[p] == (0u8, 0u8, 0u8),
{
    Raster { image: ImageBuffer::new(width, height) }
}

/// `ImageBuffer::put_pixel`: the pixel in column `x` of row `y` becomes
/// `(r, g, b)`; every other pixel and the dimensions stay. The call panics
/// outside the image, which the precondition leaves out.
#[verifier::external_body]
fn put_pixel(img: &mut Raster, x: u32, y: u32, r: u8, g: u8, b: u8)
    requires
        x < raster_width(*old(img)),
        y < raster_height(*old(img)),
    ensures
        raster_width(*final(img)) == raster_width(*old(img)),
        raster_height(*final(img)) == raster_height(*old(img)),
        raster_pixels(*final(img)) == raster_pixels(*old(img)).update(
            y * raster_width(*old(img)) + x,
            (r, g, b),
        ),
{
    img.image.put_pixel(x, y, Rgb([r, g, b]))
}

/// `ImageBuffer::width`.
#[verifier::external_body]
fn image_width(img: &Raster) -> (width: u32)
    ensures
        width == raster_width(*img),
{
    img.image.width()
}

/// `ImageBuffer::height`.
#[verifier::external_body]
fn image_height(img: &Raster) -> (height: u32)
    ensures
        height == raster_height(*img),
{
    img.image.height()
}

/// `ImageBuffer::into_raw`: the bytes of the pixels in their order, three
/// to the pixel.
#[verifier::external_body]
fn image_into_raw(img: Raster) -> (bytes: Vec<u8>)
    ensures
        bytes@.len() == 3 * raster_pixels(img).len(),
        forall|p: int|
            0 <= p < raster_pixels(img).len() ==> color_at(bytes@, p) == #[trigger] raster_pixels(
                img,
            )[p],
{
    img.image.into_raw()
}

impl Raster {
    /// The number of pixels in a row.
    pub fn width(&self) -> (width: u32)
        ensures
            width == raster_width(*self),
    {
        image_width(self)
    }

    /// The number of rows.
    pub fn height(&self) -> (height: u32)
        ensures
            height == raster_height(*self),
    {
        image_height(self)
    }

    /// The bytes of the pixels, row after row, red, green and blue of each.
    pub fn into_raw(self) -> (bytes: Vec<u8>)
        ensures
            bytes@.len() == 3 * raster_pixels(self).len(),
            forall|p: int|
                0 <= p < raster_pixels(self).len() ==> color_at(bytes@, p)
                    == #[trigger] raster_pixels(self)[p],
    {
        image_into_raw(self)
    }
}

/// Draws a palette: pixel `p` of the image, counted row by row, is colour
/// `p` of `palette_bytes`; a rest of fewer than sixteen colours is left out.
pub fn draw_playpal(palette_bytes: &[u8]) -> (img: Raster)
    requires
        palette_bytes@.len() <= isize::MAX,
        palette_bytes@.len() / 48 <= u32::MAX,
    ensures
        raster_width(img) == 16,
        raster_height(img) == palette_bytes@.len() / 48,
        raster_pixels(img).len() == 16 * (palette_bytes@.len() / 48),
        forall|p: int|
            0 <= p < 16 * (palette_bytes@.len() / 48) ==> #[trigger] raster_pixels(img)[p]
                == color_at(palette_bytes@, p),
{
    let imgy: u32 = (palette_bytes.len() / 48) as u32;
    let mut imgbuf: Raster = new_image(16, imgy);
    let mut y: u32 = 0;
    while y < imgy
        invariant
            y <= imgy,
            imgy == palette_bytes@.len() / 48,
            palette_bytes@.len() <= isize::MAX,
            raster_width(imgbuf) == 16,
            raster_height(imgbuf) == imgy,
            raster_pixels(imgbuf).len() == 16 * imgy,
            forall|p: int|
                0 <= p < 16 * y ==> #[trigger] raster_pixels(imgbuf)[p] == color_at(
                    palette_bytes@,
                    p,
                ),
        decreases imgy - y,
    {
        let mut x: u32 = 0;
        while x < 16
            invariant
                y < imgy,
                x <= 16,
                imgy == palette_bytes@.len() / 48,
            palette_bytes@.len() <= isize::MAX,
                raster_width(imgbuf) == 16,
                raster_height(imgbuf) == imgy,
            raster_height(imgbuf) == imgy,
                raster_pixels(imgbuf).len() == 16 * imgy,
                forall|p: int|
                    0 <= p < 16 * y + x ==> #[trigger] raster_pixels(imgbuf)[p] == color_at(
                        palette_bytes@,
                        p,
                    ),
            decreases 16 - x,
        {
            let offset: usize = x as usize * 3 + y as usize * 48;
            put_pixel(
                &mut imgbuf,
                x,
                y,
                palette_bytes[offset],
                palette_bytes[offset + 1],
                palette_bytes[offset + 2],
            );
            x += 1;
        }
        y += 1;
    }
    imgbuf
}

/// Draws a remapping table: pixel `p` of the image, counted row by row, is
/// the colour that entry `p` of `colormap_bytes` names on page
/// `palette_select` of `palette_bytes`; a rest of fewer than sixteen entries
/// is left out.
pub fn draw_colormap(palette_bytes: &[u8], colormap_bytes: &[u8], palette_select: u32) -> (img:
    Raster)
    requires
        48 * (colormap_bytes@.len() / 16) <= isize::MAX,
        colormap_bytes@.len() / 16 <= u32::MAX,
        forall|p: int|
            0 <= p < 16 * (colormap_bytes@.len() / 16) ==> palette_select * 768
                + #[trigger] colormap_bytes@[p] * 3 + 3 <= palette_bytes@.len(),
    ensures
        raster_width(img) == 16,
        raster_height(img) == colormap_bytes@.len() / 16,
        raster_pixels(img).len() == 16 * (colormap_bytes@.len() / 16),
        forall|p: int|
            0 <= p < 16 * (colormap_bytes@.len() / 16) ==> #[trigger] raster_pixels(img)[p]
                == color_at(palette_bytes@, palette_select * 256 + colormap_bytes@[p]),
{
    assert(palette_bytes@.len() == palette_bytes.len());
    assert(colormap_bytes@.len() == colormap_bytes.len());
    let imgy: u32 = (colormap_bytes.len() / 16) as u32;
    let mut imgbuf: Raster = new_image(16, imgy);
    let mut y: u32 = 0;
    while y < imgy
        invariant
            y <= imgy,
            imgy == colormap_bytes@.len() / 16,
            palette_bytes@.len() <= usize::MAX,
            colormap_bytes@.len() <= usize::MAX,
            forall|p: int|
                0 <= p < 16 * (colormap_bytes@.len() / 16) ==> palette_select * 768
                    + #[trigger] colormap_bytes@[p] * 3 + 3 <= palette_bytes@.len(),
            raster_width(imgbuf) == 16,
            raster_height(imgbuf) == imgy,
            raster_pixels(imgbuf).len() == 16 * imgy,
            forall|p: int|
                0 <= p < 16 * y ==> #[trigger] raster_pixels(imgbuf)[p] == color_at(
                    palette_bytes@,
                    palette_select * 256 + colormap_bytes@[p],
                ),
        decreases imgy - y,
    {
        let mut x: u32 = 0;
        while x < 16
            invariant
                y < imgy,
                x <= 16,
                imgy == colormap_bytes@.len() / 16,
                palette_bytes@.len() <= usize::MAX,
                colormap_bytes@.len() <= usize::MAX,
                forall|p: int|
                    0 <= p < 16 * (colormap_bytes@.len() / 16) ==> palette_select * 768
                        + #[trigger] colormap_bytes@[p] * 3 + 3 <= palette_bytes@.len(),
                raster_width(imgbuf) == 16,
                raster_height(imgbuf) == imgy,
            raster_height(imgbuf) == imgy,
                raster_pixels(imgbuf).len() == 16 * imgy,
                forall|p: int|
                    0 <= p < 16 * y + x ==> #[trigger] raster_pixels(imgbuf)[p] == color_at(
                        palette_bytes@,
                        palette_select * 256 + colormap_bytes@[p],
                    ),
            decreases 16 - x,
        {
            let entry: usize = y as usize * 16 + x as usize;
            let colormap_index: u8 = colormap_bytes[entry];
            let offset: usize = palette_select as usize * 768 + colormap_index as usize * 3;
            put_pixel(
                &mut imgbuf,
                x,
                y,
                palette_bytes[offset],
                palette_bytes[offset + 1],
                palette_bytes[offset + 2],
            );
            x += 1;
        }
        y += 1;
    }
    imgbuf
}

} // verus!
