//! The data handed to the compute backend and the resolve step that turns
//! an accumulation buffer into a displayable image.
//!
//! The accumulation buffer holds one colour sum per pixel, row-major with
//! row 0 at the *bottom* of the logical picture. Each channel is the bit
//! pattern of an IEEE single-precision value, decoded here by plain integer
//! arithmetic; the resolve divides by the sample count, scales to the
//! 0..255 range rounding toward zero, clamps, and flips vertically so that
//! row 0 of the image lies at the top.

use vstd::prelude::*;
use vstd::arithmetic::power2::pow2;
use vstd::arithmetic::power2::lemma_pow2_strictly_increases;
use vstd::arithmetic::power2::lemma_pow2_adds;
use vstd::arithmetic::power2::lemma2_to64;
use vstd::arithmetic::power2::lemma2_to64_rest;
use vstd::arithmetic::power2::lemma_pow2_pos;
use crate::scene::Scene;

verus! {

/// The fixed render parameters handed to the compute backend before the
/// loop starts. `samples` names how many passes one dispatch adds, always
/// one here.
#[derive(Debug, Clone, Copy, PartialEq, Eq, Structural)]
pub struct Info {
    pub triangles: u32,
    pub materials: u32,
    pub width: u32,
    pub height: u32,
    pub samples: u32,
    pub depth: u32,
}

impl Info {
    /// The parameter block for rendering `scene` at `width` by `height`
    /// with the given bounce depth.
    pub fn new(scene: &Scene, width: u32, height: u32, depth: u32) -> (r: Info)
        requires
            scene.triangles@.len() <= u32::MAX,
            scene.materials@.len() <= u32::MAX,
        ensures
            r.triangles == scene.triangles@.len(),
            r.materials == scene.materials@.len(),
            r.width == width,
            r.height == height,
            r.samples == 1,
            r.depth == depth,
    {
        Info {
            triangles: scene.triangles.len() as u32,
            materials: scene.materials.len() as u32,
            width,
            height,
            samples: 1,
            depth,
        }
    }
}

/// One accumulated colour sum: three IEEE single-precision bit patterns.
#[derive(Debug, Clone, Copy, PartialEq, Eq, Structural)]
pub struct Colour {
    pub r: u32,
    pub g: u32,
    pub b: u32,
}

/// One displayable pixel.
#[derive(Debug, Clone, Copy, PartialEq, Eq, Structural)]
pub struct Rgb {
    pub r: u8,
    pub g: u8,
    pub b: u8,
}

/// A finished picture: row-major pixels with row 0 at the top.
#[derive(Debug, Clone)]
pub struct Image {
    pub width: usize,
    pub height: usize,
    pub pixels: Vec<Rgb>,
}

impl Image {
    pub open spec fn wf(&self) -> bool {
        self.pixels@.len() == self.width * self.height
    }

    /// Writes the pixel at column `x`, row `y` (row 0 at the top).
    pub fn put_pixel(&mut self, x: usize, y: usize, p: Rgb)
        requires
            old(self).wf(),
            x < old(self).width,
            y < old(self).height,
        ensures
            final (self).wf(),
            final (self).width == old(self).width,
            final (self).height == old(self).height,
            final (self).pixels@ == old(self).pixels@.update(
                pixel_index(old(self).width as int, x as int, y as int),
                p,
            ),
    {
        proof {
            assert(y * self.width + x < self.width * self.height) by (nonlinear_arith)
                requires
                    y < self.height,
                    x < self.width,
                    0 <= x,
                    0 <= y,
                    0 <= self.width,
            ;
            assert(y * self.width >= 0) by (nonlinear_arith)
                requires
                    y >= 0,
                    self.width >= 0,
            ;
        }
        let total = self.pixels.len();
        let ix = y * self.width + x;
        self.pixels[ix] = p;
    }
}

/// The sign bit of an IEEE single-precision pattern.
pub open spec fn sign_of(bits: u32) -> int {
    bits as int / 0x8000_0000
}

/// The exponent field.
pub open spec fn expf_of(bits: u32) -> int {
    (bits as int / 0x80_0000) % 0x100
}

/// The fraction field.
pub open spec fn frac_of(bits: u32) -> int {
    bits as int % 0x80_0000
}

pub open spec fn is_nan_bits(bits: u32) -> bool {
    expf_of(bits) == 255 && frac_of(bits) != 0
}

pub open spec fn is_inf_bits(bits: u32) -> bool {
    expf_of(bits) == 255 && frac_of(bits) == 0
}

/// The significand of a finite pattern, as an integer.
pub open spec fn mantissa_of(bits: u32) -> int {
    if expf_of(bits) == 0 {
        frac_of(bits)
    } else {
        frac_of(bits) + 0x80_0000
    }
}

/// The power of two the significand is scaled by: a finite pattern's value
/// is `mantissa_of(bits) * 2^(scale_of(bits))`.
pub open spec fn scale_of(bits: u32) -> int {
    if expf_of(bits) == 0 {
        -149
    } else {
        expf_of(bits) - 150
    }
}

/// The resolved value of one channel: the accumulated sum divided by the
/// sample count, scaled by 255, rounded toward zero and clamped to 0..255.
/// A sample count of zero resolves to black; not-a-number and negative sums
/// resolve to 0, and a positive infinite sum to 255, as a saturating cast
/// of the machine quotient would.
pub open spec fn channel_value(bits: u32, samples: u32) -> int {
    if samples == 0 {
        0
    } else if is_nan_bits(bits) {
        0
    } else if sign_of(bits) == 1 {
        0
    } else if is_inf_bits(bits) {
        255
    } else {
        let m = mantissa_of(bits);
        let p = scale_of(bits);
        let q = if p >= 0 {
            (255 * m * pow2(p as nat)) / (samples as int)
        } else {
            (255 * m) / (samples as int * pow2((-p) as nat))
        };
        if q > 255 {
            255
        } else {
            q
        }
    }
}

/// The resolved pixel for one accumulated colour sum.
pub open spec fn resolved_pixel(c: Colour, samples: u32) -> Rgb {
    Rgb {
        r: channel_value(c.r, samples) as u8,
        g: channel_value(c.g, samples) as u8,
        b: channel_value(c.b, samples) as u8,
    }
}

/// Two raised to `n`, for exponents that fit a machine word.
fn pow2_exec(n: u32) -> (r: u64)
    requires
        n <= 63,
    ensures
        r == pow2(n as nat),
{
    proof {
        lemma2_to64();
    }
    let mut r: u64 = 1;
    let mut i: u32 = 0;
    while i < n
        invariant
            0 <= i <= n <= 63,
            r == pow2(i as nat),
        decreases n - i,
    {
        proof {
            lemma_pow2_strictly_increases(i as nat, 63);
            lemma2_to64();
            lemma2_to64_rest();
            assert(pow2((i + 1) as nat) == 2 * pow2(i as nat)) by {
                lemma_pow2_adds(i as nat, 1);
                lemma2_to64();
            }
        }
        r = r * 2;
        i = i + 1;
    }
    r
}

/// Channel bounds: a resolved channel always lies in 0..255.
pub proof fn lemma_channel_range(bits: u32, samples: u32)
    ensures
        0 <= channel_value(bits, samples) <= 255,
{
    if samples > 0 && !is_nan_bits(bits) && sign_of(bits) != 1 && !is_inf_bits(bits) {
        let m = mantissa_of(bits);
        let p = scale_of(bits);
        if p >= 0 {
            lemma_pow2_pos(p as nat);
            vstd::arithmetic::div_mod::lemma_div_pos_is_pos(255 * m * pow2(p as nat), samples as int);
        } else {
            lemma_pow2_pos((-p) as nat);
            assert(samples as int * pow2((-p) as nat) > 0) by (nonlinear_arith)
                requires
                    samples as int >= 1,
                    pow2((-p) as nat) >= 1,
            ;
            vstd::arithmetic::div_mod::lemma_div_pos_is_pos(
                255 * m,
                samples as int * pow2((-p) as nat),
            );
        }
    }
}

/// One resolved channel, by exact integer arithmetic.
fn channel(bits: u32, samples: u32) -> (r: u8)
    ensures
        r == channel_value(bits, samples),
{
    proof {
        lemma_channel_range(bits, samples);
    }
    if samples == 0 {
        return 0;
    }
    let expf = (bits / 0x80_0000) % 0x100;
    let frac = bits % 0x80_0000;
    let sign = bits / 0x8000_0000;
    if expf == 255 && frac != 0 {
        return 0;
    }
    if sign == 1 {
        return 0;
    }
    if expf == 255 {
        return 255;
    }
    let m: u64 = if expf == 0 {
        frac as u64
    } else {
        (frac + 0x80_0000) as u64
    };
    if expf >= 150 {
        let p = expf - 150;
        if p >= 40 {
            // The sum is at least 2^63, far beyond any sample count: the
            // channel saturates.
            proof {
                lemma_pow2_strictly_increases(39, p as nat);
                lemma2_to64();
                lemma2_to64_rest();
                assert(m * pow2(p as nat) >= 0x80_0000 * 0x80_0000_0000) by (nonlinear_arith)
                    requires
                        m >= 0x80_0000,
                        pow2(p as nat) >= 0x80_0000_0000,
                ;
                assert(255 * m * pow2(p as nat) >= 255 * (samples as int)) by (nonlinear_arith)
                    requires
                        m * pow2(p as nat) >= 0x80_0000 * 0x80_0000_0000,
                        samples <= 0xffff_ffff,
                        m >= 0,
                ;
                vstd::arithmetic::div_mod::lemma_div_is_ordered(
                    255 * (samples as int),
                    255 * m * pow2(p as nat),
                    samples as int,
                );
                vstd::arithmetic::div_mod::lemma_div_multiples_vanish(255, samples as int);
            }
            return 255;
        }
        let pw = pow2_exec(p);
        proof {
            lemma_pow2_pos(p as nat);
            lemma_pow2_strictly_increases(p as nat, 40);
            lemma2_to64();
            lemma2_to64_rest();
            assert(255 * (m as int) * pow2(p as nat) < 0x1_0000_0000_0000_0000_0000_0000_0000_0000)
                by (nonlinear_arith)
                requires
                    m < 0x100_0000,
                    0 < pow2(p as nat) < 0x100_0000_0000,
            ;
        }
        let q: u128 = 255u128 * (m as u128) * (pw as u128) / (samples as u128);
        if q > 255 {
            255
        } else {
            q as u8
        }
    } else {
        let n_neg: u32 = if expf == 0 {
            149
        } else {
            150 - expf
        };
        if n_neg >= 64 {
            // The sum is below 2^-39: it cannot reach even one count.
            proof {
                lemma_pow2_strictly_increases(33, 64);
                if n_neg > 64 {
                    lemma_pow2_strictly_increases(64, n_neg as nat);
                }
                lemma2_to64();
                lemma2_to64_rest();
                assert((samples as int) * pow2(n_neg as nat) > 255 * m) by (nonlinear_arith)
                    requires
                        samples as int >= 1,
                        pow2(n_neg as nat) >= 0x1_0000_0000_0000_0000,
                        m < 0x100_0000,
                ;
                lemma_pow2_pos(n_neg as nat);
                assert((samples as int) * pow2(n_neg as nat) > 0) by (nonlinear_arith)
                    requires
                        samples as int >= 1,
                        pow2(n_neg as nat) >= 1,
                ;
                vstd::arithmetic::div_mod::lemma_basic_div(
                    255 * m,
                    (samples as int) * pow2(n_neg as nat),
                );
            }
            return 0;
        }
        let pw = pow2_exec(n_neg);
        proof {
            lemma_pow2_strictly_increases(n_neg as nat, 64);
            lemma2_to64();
            lemma2_to64_rest();
            assert((samples as u128) * (pw as u128) < 0x1_0000_0000_0000_0000_0000_0000) by (
            nonlinear_arith)
                requires
                    samples <= 0xffff_ffff,
                    pw < 0x1_0000_0000_0000_0000,
            ;
            lemma_pow2_pos(n_neg as nat);
            assert((samples as int) * (pw as int) >= 1) by (nonlinear_arith)
                requires
                    samples as int >= 1,
                    pw as int >= 1,
            ;
        }
        let q: u128 = 255u128 * (m as u128) / ((samples as u128) * (pw as u128));
        if q > 255 {
            255
        } else {
            q as u8
        }
    }
}

/// The flat position of column `x`, row `y` in a row-major grid.
pub open spec fn pixel_index(width: int, x: int, y: int) -> int {
    y * width + x
}

/// A position inside the grid has its flat index inside the buffer.
pub proof fn lemma_pixel_index_bounds(width: int, height: int, x: int, y: int)
    requires
        0 <= x < width,
        0 <= y < height,
    ensures
        0 <= pixel_index(width, x, y) < width * height,
{
    assert(0 <= y * width + x < width * height) by (nonlinear_arith)
        requires
            0 <= x < width,
            0 <= y < height,
    ;
}

/// Positions on different rows have different flat indexes.
pub proof fn lemma_pixel_index_distinct_rows(width: int, x1: int, y1: int, x2: int, y2: int)
    requires
        0 <= x1 < width,
        0 <= x2 < width,
        0 <= y1,
        0 <= y2,
        y1 != y2,
    ensures
        pixel_index(width, x1, y1) != pixel_index(width, x2, y2),
{
    assert(y1 * width + x1 != y2 * width + x2) by (nonlinear_arith)
        requires
            0 <= x1 < width,
            0 <= x2 < width,
            0 <= y1,
            0 <= y2,
            y1 != y2,
    ;
}

/// Resolves a full accumulation buffer into a picture.
///
/// The buffer is row-major with row 0 at the bottom; the picture is
/// row-major with row 0 at the top, so buffer row `y` appears as picture
/// row `height - 1 - y` — the vertical flip. With a sample count of zero
/// the picture is entirely black.
pub fn resolve(acc: &Vec<Colour>, width: usize, height: usize, samples: u32) -> (img: Image)
    requires
        acc@.len() == width * height,
    ensures
        img.width == width,
        img.height == height,
        img.wf(),
        forall|x: int, y: int|
            0 <= x < width && 0 <= y < height ==> #[trigger] img.pixels@[pixel_index(
                width as int,
                x,
                y,
            )] == resolved_pixel(acc@[pixel_index(width as int, x, height - 1 - y)], samples),
{
    let total = acc.len();
    let mut pixels: Vec<Rgb> = Vec::new();
    let mut y: usize = 0;
    while y < height
        invariant
            0 <= y <= height,
            acc@.len() == width * height,
            acc@.len() <= usize::MAX,
            pixels@.len() == y * width,
            forall|xx: int, yy: int|
                0 <= xx < width && 0 <= yy < y ==> #[trigger] pixels@[pixel_index(
                    width as int,
                    xx,
                    yy,
                )] == resolved_pixel(
                    acc@[pixel_index(width as int, xx, height - 1 - yy)],
                    samples,
                ),
        decreases height - y,
    {
        let src_row = height - 1 - y;
        let mut x: usize = 0;
        proof {
            assert(y * width + width <= height * width) by (nonlinear_arith)
                requires
                    y < height,
                    width >= 0,
            ;
        }
        while x < width
            invariant
                0 <= x <= width,
                0 <= y < height,
                src_row == height - 1 - y,
                acc@.len() == width * height,
                acc@.len() <= usize::MAX,
                pixels@.len() == y * width + x,
                y * width + width <= height * width,
                forall|xx: int, yy: int|
                    0 <= xx < width && 0 <= yy < y ==> #[trigger] pixels@[pixel_index(
                        width as int,
                        xx,
                        yy,
                    )] == resolved_pixel(
                        acc@[pixel_index(width as int, xx, height - 1 - yy)],
                        samples,
                    ),
                forall|xx: int|
                    0 <= xx < x ==> #[trigger] pixels@[pixel_index(width as int, xx, y as int)]
                        == resolved_pixel(
                        acc@[pixel_index(width as int, xx, height - 1 - y)],
                        samples,
                    ),
            decreases width - x,
        {
            proof {
                assert(src_row * width + x < width * height) by (nonlinear_arith)
                    requires
                        src_row < height,
                        x < width,
                        src_row >= 0,
                        x >= 0,
                        width >= 0,
                        height >= 0,
                ;
                assert(src_row * width >= 0) by (nonlinear_arith)
                    requires
                        src_row >= 0,
                        width >= 0,
                ;
            }
            let c = acc[src_row * width + x];
            let px = Rgb {
                r: channel(c.r, samples),
                g: channel(c.g, samples),
                b: channel(c.b, samples),
            };
            proof {
                lemma_channel_range(c.r, samples);
                lemma_channel_range(c.g, samples);
                lemma_channel_range(c.b, samples);
                assert forall|xx: int, yy: int|
                    0 <= xx < width && 0 <= yy < y implies 0 <= #[trigger] pixel_index(
                    width as int,
                    xx,
                    yy,
                ) < pixels@.len() by {
                    assert(yy * width + xx < y * width + x) by (nonlinear_arith)
                        requires
                            0 <= xx < width,
                            0 <= yy < y,
                            0 <= x,
                            0 <= width,
                    ;
                    assert(yy * width + xx >= 0) by (nonlinear_arith)
                        requires
                            yy >= 0,
                            xx >= 0,
                            width >= 0,
                    ;
                }
            }
            pixels.push(px);
            x = x + 1;
        }
        proof {
            assert((y + 1) * width == y * width + width) by (nonlinear_arith);
        }
        y = y + 1;
    }
    proof {
        assert(height * width == width * height) by (nonlinear_arith);
    }
    Image { width, height, pixels }
}

/// Zero samples resolve to black, whatever the sums hold.
pub proof fn lemma_resolve_zero_samples(c: Colour)
    ensures
        resolved_pixel(c, 0) == (Rgb { r: 0, g: 0, b: 0 }),
{
}

/// A finite positive sum at least as large as the sample count saturates
/// its channel at 255; in particular a per-pixel sum of `samples * 255` in
/// the display scale resolves to full brightness.
pub proof fn lemma_channel_saturates(bits: u32, samples: u32)
    requires
        samples > 0,
        !is_nan_bits(bits),
        !is_inf_bits(bits),
        sign_of(bits) != 1,
        scale_of(bits) >= 0 ==> mantissa_of(bits) * pow2(scale_of(bits) as nat) >= samples,
        scale_of(bits) < 0 ==> mantissa_of(bits) >= samples as int * pow2((-scale_of(bits)) as nat),
    ensures
        channel_value(bits, samples) == 255,
{
    let m = mantissa_of(bits);
    let p = scale_of(bits);
    if p >= 0 {
        lemma_pow2_pos(p as nat);
        assert(255 * m * pow2(p as nat) >= 255 * (samples as int)) by (nonlinear_arith)
            requires
                m * pow2(p as nat) >= samples as int,
                m >= 0,
                pow2(p as nat) >= 1,
        ;
        vstd::arithmetic::div_mod::lemma_div_is_ordered(
            255 * (samples as int),
            255 * m * pow2(p as nat),
            samples as int,
        );
        vstd::arithmetic::div_mod::lemma_div_multiples_vanish(255, samples as int);
        lemma_channel_range(bits, samples);
    } else {
        let d = samples as int * pow2((-p) as nat);
        lemma_pow2_pos((-p) as nat);
        assert(samples as int * pow2((-p) as nat) > 0) by (nonlinear_arith)
            requires
                samples as int >= 1,
                pow2((-p) as nat) >= 1,
        ;
        assert(255 * m >= 255 * (samples as int * pow2((-p) as nat))) by (nonlinear_arith)
            requires
                m >= samples as int * pow2((-p) as nat),
        ;
        vstd::arithmetic::div_mod::lemma_div_is_ordered(255 * d, 255 * m, d);
        vstd::arithmetic::div_mod::lemma_div_multiples_vanish(255, d);
        lemma_channel_range(bits, samples);
    }
}

} // verus!
