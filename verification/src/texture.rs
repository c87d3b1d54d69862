//! The pixel grid of a palette texture, kept in the `image` crate's buffer.

use vstd::prelude::*;

verus! {

/// An RGBA image with 8-bit channels: an `image::RgbaImage`. Verus does not
/// look inside; what it holds is named by `texture_width`, `texture_height`
/// and `texture_data`.
#[verifier::external_body]
pub struct Texture {
    image: image::RgbaImage,
}

/// The number of pixels in a row of the buffer.
pub uninterp spec fn texture_width(texture: Texture) -> nat;

/// The number of rows of the buffer.
pub uninterp spec fn texture_height(texture: Texture) -> nat;

/// The channel bytes of the buffer: row after row, pixel after pixel, four
/// bytes a pixel.
pub uninterp spec fn texture_data(texture: Texture) -> Seq<u8>;

/// `data` with the four bytes from `at` on replaced by `cell`.
pub open spec fn with_cell(data: Seq<u8>, at: int, cell: Seq<u8>) -> Seq<u8> {
    Seq::new(
        data.len(),
        |k: int|
            if at <= k < at + 4 {
                cell[k - at]
            } else {
                data[k]
            },
    )
}

/// Whether `len` channel bytes are enough for `width * height` pixels, with
/// the byte count of one row within a `usize`.
pub open spec fn holds_pixels(len: nat, width: u32, height: u32) -> bool {
    4 * width <= usize::MAX && 4 * (width * height) <= len
}

/// Calls `image::ImageBuffer::new(side, side)`. Not proved: the buffer is
/// `side` pixels wide and high and every channel byte in it is zero. The
/// call panics where the byte count does not fit a vector, which `requires`
/// leaves out.
#[verifier::external_body]
pub(crate) fn blank(side: u32) -> (texture: Texture)
    requires
        4 * (side * side) <= isize::MAX,
    ensures
        texture_width(texture) == side,
        texture_height(texture) == side,
        texture_data(texture) == Seq::new((4 * (side * side)) as nat, |k: int| 0u8),
{
    Texture { image: image::ImageBuffer::new(side, side) }
}

/// Calls `image::ImageBuffer::from_raw`. Not proved: it takes the bytes as
/// they are when they hold at least `width * height` pixels, and gives `None`
/// when they do not. It counts the bytes of one row first, and gives `None`
/// as well where that count does not fit a `usize`.
#[verifier::external_body]
pub(crate) fn from_raw(width: u32, height: u32, data: Vec<u8>) -> (texture: Option<Texture>)
    ensures
        texture is Some <==> holds_pixels(data@.len(), width, height),
        texture matches Some(t) ==> texture_width(t) == width && texture_height(t) == height
            && texture_data(t) == data@,
{
    match image::ImageBuffer::from_raw(width, height, data) {
        Some(image) => Some(Texture { image }),
        None => None,
    }
}

/// Calls `image::ImageBuffer::put_pixel`. Not proved: the four bytes of the
/// pixel in column `x` of row `y` become `rgba` and nothing else changes.
/// The call panics outside the image, which `requires` leaves out.
#[verifier::external_body]
pub(crate) fn put_pixel(texture: &mut Texture, x: u32, y: u32, rgba: [u8; 4])
    requires
        x < texture_width(*old(texture)),
        y < texture_height(*old(texture)),
    ensures
        texture_width(*final(texture)) == texture_width(*old(texture)),
        texture_height(*final(texture)) == texture_height(*old(texture)),
        texture_data(*final(texture)) == with_cell(
            texture_data(*old(texture)),
            4 * (y * texture_width(*old(texture)) + x),
            rgba@,
        ),
{
    texture.image.put_pixel(x, y, image::Rgba(rgba))
}

/// Calls `image::ImageBuffer::pixels` and hands each pixel out as its four
/// channel bytes. Not proved: the pixels come row after row, `width * height`
/// of them, pixel `i` made of the four bytes from `4 * i` on.
#[verifier::external_body]
pub(crate) fn pixels(texture: &Texture) -> (cells: Vec<[u8; 4]>)
    ensures
        cells.len() == texture_width(*texture) * texture_height(*texture),
        forall|i: int, c: int|
            0 <= i < cells.len() && 0 <= c < 4 ==> #[trigger] cells[i]@[c] == texture_data(
                *texture,
            )[4 * i + c],
{
    texture.image.pixels().map(|pixel| pixel.0).collect()
}

/// Calls `image::ImageBuffer::into_raw`. Not proved: the vector handed out
/// holds the buffer's channel bytes.
#[verifier::external_body]
pub(crate) fn into_raw(texture: Texture) -> (data: Vec<u8>)
    ensures
        data@ == texture_data(texture),
{
    texture.image.into_raw()
}

} // verus!
