//! Pixel arithmetic of the page worker: packing rendered bytes into 32-bit
//! pixels, and the height that keeps a page's aspect ratio at a given width.

use vstd::prelude::*;

verus! {

/// One pixel as a single 32-bit value: alpha in the top byte, then red, green
/// and blue.
pub open spec fn pack_argb(alpha: u8, red: u8, green: u8, blue: u8) -> u32 {
    ((alpha as u32) << 24) | ((red as u32) << 16) | ((green as u32) << 8) | (blue as u32)
}

/// The pixels of a buffer that holds four bytes for each pixel, in the order
/// red, green, blue, alpha. A trailing group of fewer than four bytes holds no
/// pixel and is left out.
pub open spec fn packed(bytes: Seq<u8>) -> Seq<u32> {
    Seq::new(
        (bytes.len() / 4) as nat,
        |k: int| pack_argb(bytes[4 * k + 3], bytes[4 * k], bytes[4 * k + 1], bytes[4 * k + 2]),
    )
}

/// Packs one pixel.
pub fn pack_pixel(alpha: u8, red: u8, green: u8, blue: u8) -> (pixel: u32)
    ensures
        pixel == pack_argb(alpha, red, green, blue),
{
    let a: u32 = (alpha as u32) << 24;
    let r: u32 = (red as u32) << 16;
    let g: u32 = (green as u32) << 8;
    let b: u32 = blue as u32;
    a | r | g | b
}

/// Packs a rendered buffer, four bytes to the pixel.
pub fn pack_pixels(bytes: &[u8]) -> (pixels: Vec<u32>)
    ensures
        pixels@ == packed(bytes@),
{
    let count: usize = bytes.len() / 4;
    let mut pixels: Vec<u32> = Vec::new();
    let mut k: usize = 0;
    while k < count
        invariant
            k <= count,
            count == bytes.len() / 4,
            pixels.len() == k,
            forall|j: int| 0 <= j < k ==> #[trigger] pixels@[j] == packed(bytes@)[j],
        decreases count - k,
    {
        let at: usize = 4 * k;
        pixels.push(pack_pixel(bytes[at + 3], bytes[at], bytes[at + 1], bytes[at + 2]));
        k += 1;
    }
    assert(pixels@ =~= packed(bytes@));
    pixels
}

/// The height, in whole pixels, of a page of the given native size when it is
/// drawn `width` pixels wide: `width * native_height / native_width`, rounded
/// down.
pub open spec fn height_at_width(width: u16, native_width: i32, native_height: i32) -> int {
    (width * native_height) / (native_width as int)
}

/// Whether a page of the given native size can be drawn `width` pixels wide:
/// its native size is positive, and the height that keeps its aspect ratio is
/// at least one pixel and fits in sixteen bits.
pub open spec fn can_scale(width: u16, native_width: i32, native_height: i32) -> bool {
    &&& native_width > 0
    &&& native_height > 0
    &&& 1 <= height_at_width(width, native_width, native_height) <= u16::MAX
}

/// The height that keeps a page's aspect ratio at the given width, where there
/// is one.
pub fn scaled_height(width: u16, native_width: i32, native_height: i32) -> (height: Option<u16>)
    ensures
        can_scale(width, native_width, native_height) ==> height == Some(
            height_at_width(width, native_width, native_height) as u16,
        ),
        !can_scale(width, native_width, native_height) ==> height is None,
{
    if native_width <= 0 || native_height <= 0 {
        return None;
    }
    assert(0 <= width * native_height <= 0xffff * 0x7fff_ffff) by (nonlinear_arith)
        requires
            0 <= width <= 0xffff,
            0 < native_height <= 0x7fff_ffff,
    ;
    let scaled: i64 = (width as i64) * (native_height as i64);
    let height: i64 = scaled / (native_width as i64);
    if height < 1 || height > 0xffff {
        None
    } else {
        Some(height as u16)
    }
}

} // verus!
