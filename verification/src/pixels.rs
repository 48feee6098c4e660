//! Pixel buffers.

use vstd::prelude::*;

verus! {

/// The bytes of a pixel buffer: four for each pixel.
pub fn buffer_len(width: u32, height: u32) -> (len: usize)
    requires
        width * height * 4 <= u32::MAX,
    ensures
        len == width * height * 4,
{
    assert(width * height <= width * height * 4) by (nonlinear_arith)
        requires
            width >= 0,
            height >= 0,
    ;
    (width * height * 4) as usize
}

/// A byte of RGBA data with red and blue exchanged.
pub open spec fn exchanged(data: Seq<u8>, i: int) -> u8 {
    if i % 4 == 0 {
        data[i + 2]
    } else if i % 4 == 2 {
        data[i - 2]
    } else {
        data[i]
    }
}

/// Whether a byte belongs to a pixel that both buffers hold.
pub open spec fn in_both(i: int, pixels: int, data: int) -> bool {
    i < data && (i - i % 4) + 3 < pixels
}

/// Copies RGBA data into a BGRA buffer, pixel by pixel, as far as both reach.
pub fn copy_rgba_to_bgra(pixels: &mut [u8], data: &[u8])
    requires
        data@.len() % 4 == 0,
    ensures
        final(pixels)@.len() == old(pixels)@.len(),
        forall|i: int|
            0 <= i < old(pixels)@.len() ==> #[trigger] final(pixels)@[i] == if in_both(
                i,
                old(pixels)@.len() as int,
                data@.len() as int,
            ) {
                exchanged(data@, i)
            } else {
                old(pixels)@[i]
            },
{
    let n: usize = data.len();
    let len: usize = pixels.len();
    let mut i: usize = 0;
    while i < n
        invariant
            n == data@.len(),
            n % 4 == 0,
            i % 4 == 0,
            i <= n,
            len == old(pixels)@.len(),
            pixels@.len() == len,
            forall|k: int|
                0 <= k < len ==> #[trigger] pixels@[k] == if k < i && in_both(
                    k,
                    len as int,
                    n as int,
                ) {
                    exchanged(data@, k)
                } else {
                    old(pixels)@[k]
                },
        decreases n - i,
    {
        if i < len && len - i > 3 {
            pixels[i] = data[i + 2];
            pixels[i + 1] = data[i + 1];
            pixels[i + 2] = data[i];
            pixels[i + 3] = data[i + 3];
        }
        i = i + 4;
    }
}

/// Exchanging red and blue twice gives the data back.
pub proof fn law_exchange_is_its_own_inverse(data: Seq<u8>, i: int)
    requires
        data.len() % 4 == 0,
        0 <= i < data.len(),
    ensures
        exchanged(Seq::new(data.len(), |k: int| exchanged(data, k)), i) == data[i],
{
}

/// A pixel keeps its green and its opacity, and its red and blue change places.
pub proof fn law_pixels_are_exchanged(data: Seq<u8>, pixel: int)
    requires
        0 <= pixel,
        4 * pixel + 3 < data.len(),
    ensures
        exchanged(data, 4 * pixel) == data[4 * pixel + 2],
        exchanged(data, 4 * pixel + 1) == data[4 * pixel + 1],
        exchanged(data, 4 * pixel + 2) == data[4 * pixel],
        exchanged(data, 4 * pixel + 3) == data[4 * pixel + 3],
{
}

/// A pixel is copied as a whole where both buffers hold it, and not at all where one of
/// them does not.
pub proof fn law_pixels_are_copied_whole(pixel: int, byte: int, pixels: int, data: int)
    requires
        0 <= pixel,
        0 <= byte < 4,
        0 <= data,
        data % 4 == 0,
    ensures
        in_both(4 * pixel + byte, pixels, data) <==> 4 * pixel + 4 <= pixels && 4 * pixel + 4
            <= data,
{
}

} // verus!
