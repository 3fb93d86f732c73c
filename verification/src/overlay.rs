//! The debug overlay: stamps the sample count, the triangle count and the
//! elapsed time as fixed-size bitmap glyphs into the lower-left corner of a
//! finished picture. Purely cosmetic: the contract fixes the footprint
//! decision and that the picture keeps its size; the glyph shapes themselves
//! are data.
//!
//! Each glyph row is a bitmask, least significant bit leftmost; glyphs are
//! six columns wide and seven rows tall, the three labels are wider.

use vstd::prelude::*;
use vstd::string::StrSliceExecFns;
use vstd::string::StringExecFns;
use crate::gpu::{
    pixel_index, lemma_pixel_index_bounds, lemma_pixel_index_distinct_rows, Image, Rgb,
};
use crate::textutil::{dec_spec, dec_str, fmt_time_spec, fmt_time};

verus! {

/// The seven bitmask rows of one glyph: digits, the colon, and blank for
/// anything else.
fn glyph_rows(c: char) -> (r: [u64; 7]) {
    if c == '0' {
        [0xe, 0x11, 0x19, 0x15, 0x13, 0x11, 0xe]
    } else if c == '1' {
        [0x4, 0x6, 0x4, 0x4, 0x4, 0x4, 0xe]
    } else if c == '2' {
        [0xe, 0x11, 0x10, 0x10, 0x8, 0x6, 0x1f]
    } else if c == '3' {
        [0xe, 0x11, 0x10, 0xc, 0x10, 0x11, 0xe]
    } else if c == '4' {
        [0x8, 0xc, 0xa, 0x9, 0x1f, 0x8, 0x1c]
    } else if c == '5' {
        [0x1f, 0x1, 0x7, 0x8, 0x10, 0x11, 0xe]
    } else if c == '6' {
        [0xe, 0x11, 0x1, 0xf, 0x11, 0x11, 0xe]
    } else if c == '7' {
        [0xe, 0x11, 0x10, 0x8, 0x8, 0x4, 0x4]
    } else if c == '8' {
        [0xe, 0x11, 0x11, 0xe, 0x11, 0x11, 0xe]
    } else if c == '9' {
        [0xe, 0x11, 0x11, 0x1e, 0x10, 0x11, 0xe]
    } else if c == ':' {
        [0x0, 0x4, 0x0, 0x0, 0x0, 0x4, 0x0]
    } else {
        [0x0, 0x0, 0x0, 0x0, 0x0, 0x0, 0x0]
    }
}

/// The word SAMPLES, 41 columns.
fn samples_label() -> (r: [u64; 7]) {
    [
        0xe7c13d138e,
        0x1104145b451,
        0x104145b441,
        0xe1c13d57ce,
        0x10041051450,
        0x11041051451,
        0xe7df05144e,
    ]
}

/// The word TRIANGLES, 53 columns.
fn triangles_label() -> (r: [u64; 7]) {
    [
        0xe7c139138e3df,
        0x11041453444444,
        0x1041053444444,
        0xe3c16557c43c4,
        0x10041459444244,
        0x11041459444444,
        0xe7df39144e444,
    ]
}

/// The word TIME, 23 columns.
fn time_label() -> (r: [u64; 7]) {
    [0x7d139f, 0x5b104, 0x5b104, 0x3d5104, 0x51104, 0x51104, 0x7d1384]
}

/// That the picture changed at most on the seven rows from `y0` down.
pub open spec fn same_outside_band(before: Image, after: Image, y0: int) -> bool {
    &&& after.wf()
    &&& after.width == before.width
    &&& after.height == before.height
    &&& forall|xx: int, yy: int|
        0 <= xx < before.width && 0 <= yy < before.height && !(y0 <= yy < y0 + 7)
            ==> #[trigger] after.pixels@[pixel_index(before.width as int, xx, yy)]
            == before.pixels@[pixel_index(before.width as int, xx, yy)]
}

/// Stamps a block of seven bitmask rows, `w` columns wide: a set bit turns
/// its pixel white, a clear bit black. Nothing outside those seven rows is
/// touched.
fn stamp_rows(image: &mut Image, x0: usize, y0: usize, w: usize, rows: [u64; 7])
    requires
        old(image).wf(),
        x0 + w <= old(image).width,
        y0 + 7 <= old(image).height,
        w <= 64,
    ensures
        same_outside_band(*old(image), *final (image), y0 as int),
{
    let ghost w0 = image.width as int;
    let ghost h0 = image.height as int;
    let mut row: usize = 0;
    while row < 7
        invariant
            0 <= row <= 7,
            x0 + w <= image.width,
            y0 + 7 <= image.height,
            w <= 64,
            w0 == image.width,
            h0 == image.height,
            same_outside_band(*old(image), *image, y0 as int),
        decreases 7 - row,
    {
        let bits = rows[row];
        let mut col: usize = 0;
        while col < w
            invariant
                0 <= col <= w,
                0 <= row < 7,
                x0 + w <= image.width,
                y0 + 7 <= image.height,
                w <= 64,
                w0 == image.width,
                h0 == image.height,
                same_outside_band(*old(image), *image, y0 as int),
            decreases w - col,
        {
            let px = if (bits >> (col as u64)) & 1 == 1 {
                Rgb { r: 255, g: 255, b: 255 }
            } else {
                Rgb { r: 0, g: 0, b: 0 }
            };
            let ghost before = *image;
            image.put_pixel(x0 + col, y0 + row, px);
            proof {
                assert forall|xx: int, yy: int|
                    0 <= xx < w0 && 0 <= yy < h0 && !(y0 <= yy < y0 + 7) implies #[trigger] image
                    .pixels@[pixel_index(w0, xx, yy)] == before.pixels@[pixel_index(
                    w0,
                    xx,
                    yy,
                )] by {
                    lemma_pixel_index_bounds(w0, h0, xx, yy);
                    lemma_pixel_index_distinct_rows(
                        w0,
                        xx,
                        yy,
                        (x0 + col) as int,
                        (y0 + row) as int,
                    );
                    assert(before.pixels@.len() == w0 * h0);
                    lemma_pixel_index_bounds(w0, h0, (x0 + col) as int, (y0 + row) as int);
                    let ix = pixel_index(w0, (x0 + col) as int, (y0 + row) as int);
                    assert(image.pixels@ == before.pixels@.update(ix, px));
                    assert(before.pixels@.update(ix, px)[pixel_index(w0, xx, yy)]
                        == before.pixels@[pixel_index(w0, xx, yy)]);
                }
            }
            col = col + 1;
        }
        row = row + 1;
    }
}

/// Stamps the glyphs of `val` in a row starting at `x0`, six columns per
/// character. Nothing outside the seven glyph rows is touched.
fn stamp_glyphs(image: &mut Image, val: &str, x0: usize, y0: usize)
    requires
        old(image).wf(),
        x0 + 6 * val@.len() <= old(image).width,
        y0 + 7 <= old(image).height,
    ensures
        same_outside_band(*old(image), *final (image), y0 as int),
{
    let n = val.unicode_len();
    let mut i: usize = 0;
    while i < n
        invariant
            0 <= i <= n,
            n == val@.len(),
            x0 + 6 * n <= image.width,
            y0 + 7 <= image.height,
            same_outside_band(*old(image), *image, y0 as int),
        decreases n - i,
    {
        let rows = glyph_rows(val.get_char(i));
        stamp_rows(image, x0 + 6 * i, y0, 6, rows);
        i = i + 1;
    }
}

/// Whether the picture is large enough for the three overlay lines: 25 rows,
/// and in each line one column of margin, six columns per stamped character
/// and the label after them.
pub open spec fn overlay_fits(
    width: int,
    height: int,
    triangles: int,
    samples: u32,
    secs: u64,
) -> bool {
    height >= 25 && width >= 1 + 6 * (dec_spec(samples as int).len() + 1) + 41 && width >= 1 + 6 * (
    dec_spec(triangles).len() + 1) + 53 && width >= 1 + 6 * (fmt_time_spec(secs as int).len() + 1)
        + 23
}

/// Stamps the sample count, the triangle count and the elapsed time into
/// the lower-left corner of the picture, and says whether it did: a picture
/// below the needed footprint is handed back unchanged, and even a stamped
/// one changes only on its 24 bottom rows but the very last.
pub fn add_debug_info(image: &mut Image, triangles: usize, samples: u32, secs: u64) -> (r: bool)
    requires
        old(image).wf(),
    ensures
        final (image).wf(),
        final (image).width == old(image).width,
        final (image).height == old(image).height,
        r == overlay_fits(
            old(image).width as int,
            old(image).height as int,
            triangles as int,
            samples,
            secs,
        ),
        !r ==> *final (image) == *old(image),
        forall|xx: int, yy: int|
            0 <= xx < old(image).width && 0 <= yy < old(image).height && !(old(image).height - 24
                <= yy < old(image).height - 1) ==> #[trigger] final (image).pixels@[pixel_index(
                old(image).width as int,
                xx,
                yy,
            )] == old(image).pixels@[pixel_index(old(image).width as int, xx, yy)],
{
    proof {
        reveal_strlit(" ");
    }
    let mut sam = dec_str(samples as u64);
    sam.append(" ");
    let mut tri = dec_str(triangles as u64);
    tri.append(" ");
    let mut tim = fmt_time(secs);
    tim.append(" ");
    let sam_len = sam.as_str().unicode_len();
    let tri_len = tri.as_str().unicode_len();
    let tim_len = tim.as_str().unicode_len();
    let w = image.width;
    let h = image.height;
    let fits = h >= 25 && (w as u128) >= 1 + 6 * (sam_len as u128) + 41 && (w as u128) >= 1 + 6 * (
    tri_len as u128) + 53 && (w as u128) >= 1 + 6 * (tim_len as u128) + 23;
    if !fits {
        return false;
    }
    let y0 = h - 24;
    stamp_glyphs(image, sam.as_str(), 1, y0);
    stamp_rows(image, 1 + 6 * sam_len, y0, 41, samples_label());
    stamp_glyphs(image, tri.as_str(), 1, y0 + 8);
    stamp_rows(image, 1 + 6 * tri_len, y0 + 8, 53, triangles_label());
    stamp_glyphs(image, tim.as_str(), 1, y0 + 16);
    stamp_rows(image, 1 + 6 * tim_len, y0 + 16, 23, time_label());
    true
}

} // verus!
