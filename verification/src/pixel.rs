//! Packed-pixel encoding and per-channel blending arithmetic.

use vstd::prelude::*;

verus! {

/// Byte order of the server's packed 32-bit pixel format.
#[derive(Debug, PartialEq, Eq, Structural, Clone, Copy)]
pub enum ByteOrder {
    LsbFirst,
    MsbFirst,
}

/// One color triplet of a source image.
#[derive(Debug, PartialEq, Eq, Structural, Clone, Copy)]
pub struct Rgb {
    pub r: u8,
    pub g: u8,
    pub b: u8,
}

/// A plain row-major color image, the library's form of a source picture.
/// Callers that decode pictures with an outside library convert them to this
/// type pixel by pixel before handing them in.
pub struct RgbData {
    pub width: u32,
    pub height: u32,
    pub pixels: Vec<Rgb>,
}

impl RgbData {
    /// The pixel vector holds exactly one triplet per coordinate.
    pub open spec fn wf(&self) -> bool {
        self.pixels@.len() == self.width * self.height
    }

    /// The triplet at a coordinate.
    pub open spec fn spec_pix(&self, x: int, y: int) -> Rgb
        recommends
            self.wf(),
            0 <= x < self.width,
            0 <= y < self.height,
    {
        self.pixels@[y * self.width + x]
    }

    /// A black image of the given dimensions.
    pub fn new(width: u32, height: u32) -> (img: RgbData)
        requires
            width * height <= usize::MAX,
        ensures
            img.wf(),
            img.width == width,
            img.height == height,
            forall|x: int, y: int|
                0 <= x < width && 0 <= y < height ==> img.spec_pix(x, y) == (Rgb {
                    r: 0,
                    g: 0,
                    b: 0,
                }),
    {
        let n = (width as usize) * (height as usize);
        let mut pixels: Vec<Rgb> = Vec::new();
        let mut k: usize = 0;
        while k < n
            invariant
                k <= n,
                pixels@.len() == k,
                forall|j: int| 0 <= j < k ==> pixels@[j] == (Rgb { r: 0, g: 0, b: 0 }),
            decreases n - k,
        {
            pixels.push(Rgb { r: 0, g: 0, b: 0 });
            k = k + 1;
        }
        let img = RgbData { width, height, pixels };
        proof {
            assert forall|x: int, y: int|
                0 <= x < width && 0 <= y < height
                    implies img.spec_pix(x, y) == (Rgb { r: 0, g: 0, b: 0 }) by {
                lemma_row_major_index(x, y, width as int, height as int);
            }
        }
        img
    }

    /// Reads the triplet at a coordinate of the image.
    pub fn get_pixel(&self, x: u32, y: u32) -> (p: Rgb)
        requires
            self.wf(),
            x < self.width,
            y < self.height,
        ensures
            p == self.spec_pix(x as int, y as int),
    {
        let _len = self.pixels.len();
        proof {
            lemma_row_major_index(x as int, y as int, self.width as int, self.height as int);
        }
        let idx = (y as usize) * (self.width as usize) + (x as usize);
        self.pixels[idx]
    }

    /// Writes the triplet at a coordinate of the image.
    pub fn set_pixel(&mut self, x: u32, y: u32, p: Rgb)
        requires
            old(self).wf(),
            x < old(self).width,
            y < old(self).height,
        ensures
            final(self).wf(),
            final(self).width == old(self).width,
            final(self).height == old(self).height,
            final(self).spec_pix(x as int, y as int) == p,
            forall|px: int, py: int|
                0 <= px < old(self).width && 0 <= py < old(self).height && !(px == x && py == y)
                    ==> final(self).spec_pix(px, py) == old(self).spec_pix(px, py),
    {
        let _len = self.pixels.len();
        proof {
            lemma_row_major_index(x as int, y as int, self.width as int, self.height as int);
        }
        let idx = (y as usize) * (self.width as usize) + (x as usize);
        self.pixels.set(idx, p);
        proof {
            assert forall|px: int, py: int|
                0 <= px < self.width && 0 <= py < self.height && !(px == x && py == y)
                    implies self.spec_pix(px, py) == old(self).spec_pix(px, py) by {
                lemma_row_major_index(px, py, self.width as int, self.height as int);
                lemma_row_major_injective(
                    px, py, x as int, y as int, self.width as int, self.height as int);
            }
        }
    }
}

/// A row-major coordinate pair indexes inside the pixel grid.
pub proof fn lemma_row_major_index(x: int, y: int, w: int, h: int)
    requires
        0 <= x < w,
        0 <= y < h,
    ensures
        0 <= y * w + x < w * h,
        0 <= y * w,
{
    assert(0 <= y * w && y * w + x < w * h) by (nonlinear_arith)
        requires
            0 <= x < w && 0 <= y < h,
    ;
}

/// Distinct coordinates of a row-major grid have distinct indices.
proof fn lemma_row_major_injective(x0: int, y0: int, x1: int, y1: int, w: int, h: int)
    requires
        0 <= x0 < w,
        0 <= y0 < h,
        0 <= x1 < w,
        0 <= y1 < h,
        !(x0 == x1 && y0 == y1),
    ensures
        y0 * w + x0 != y1 * w + x1,
{
    if y0 != y1 {
        assert(y0 * w + x0 != y1 * w + x1) by (nonlinear_arith)
            requires
                0 <= x0 < w && 0 <= x1 < w && y0 != y1,
        ;
    }
}

/// The packed ("zpixmap") form of a triplet in the least-significant-byte-first
/// layout: blue in the low byte, then green, then red; the top byte is zero.
pub open spec fn zpix_of(r: u8, g: u8, b: u8) -> u32 {
    (b + g * 0x100 + r * 0x10000) as u32
}

/// Red channel of a packed pixel (least-significant-byte-first layout).
pub open spec fn red_of(z: u32) -> u8 {
    ((z / 0x10000) % 0x100) as u8
}

/// Green channel of a packed pixel.
pub open spec fn green_of(z: u32) -> u8 {
    ((z / 0x100) % 0x100) as u8
}

/// Blue channel of a packed pixel.
pub open spec fn blue_of(z: u32) -> u8 {
    (z % 0x100) as u8
}

/// Packs a triplet into the native 32-bit pixel layout.  Only the
/// least-significant-byte-first order is implemented; any other order is an
/// explicit non-goal, so callers must not pass it.
pub fn rgb_to_zpix(r: u8, g: u8, b: u8, order: ByteOrder) -> (z: u32)
    requires
        order == ByteOrder::LsbFirst,
    ensures
        z == zpix_of(r, g, b),
{
    let z = (b as u32) | ((g as u32) << 8u32) | ((r as u32) << 16u32);
    proof {
        let rr = r as u32;
        let gg = g as u32;
        let bb = b as u32;
        assert(bb | (gg << 8u32) | (rr << 16u32) == bb + gg * 0x100 + rr * 0x10000)
            by (bit_vector)
            requires
                rr < 0x100,
                gg < 0x100,
                bb < 0x100,
        ;
    }
    z
}

/// Unpacks a pixel into its channels.  Only the least-significant-byte-first
/// order is implemented.
pub fn zpix_to_rgb(z: u32, order: ByteOrder) -> (rgb: (u8, u8, u8))
    requires
        order == ByteOrder::LsbFirst,
    ensures
        rgb.0 == red_of(z),
        rgb.1 == green_of(z),
        rgb.2 == blue_of(z),
{
    let red = (z >> 16u32) as u8;
    let green = (z >> 8u32) as u8;
    let blue = z as u8;
    proof {
        assert((z >> 16u32) as u8 == ((z / 0x10000) % 0x100) as u8) by (bit_vector);
        assert((z >> 8u32) as u8 == ((z / 0x100) % 0x100) as u8) by (bit_vector);
        assert(z as u8 == (z % 0x100) as u8) by (bit_vector);
    }
    (red, green, blue)
}

/// Packing then unpacking returns the original triplet, and the unused top
/// byte of a packed triplet is zero.
pub proof fn lemma_zpix_roundtrip(r: u8, g: u8, b: u8)
    ensures
        red_of(zpix_of(r, g, b)) == r,
        green_of(zpix_of(r, g, b)) == g,
        blue_of(zpix_of(r, g, b)) == b,
        zpix_of(r, g, b) < 0x1000000,
{
}

/// Division rounding half away from zero, matching the rounding of the
/// original per-channel interpolation.
pub open spec fn round_div(a: int, b: int) -> int
    recommends
        b >= 1,
{
    if a >= 0 {
        (2 * a + b) / (2 * b)
    } else {
        -((2 * (-a) + b) / (2 * b))
    }
}

/// Executable rounding division on small operands.
pub fn round_div_i32(a: i32, b: i32) -> (q: i32)
    requires
        1 <= b <= 0x10000,
        -0x1000000 <= a <= 0x1000000,
    ensures
        q == round_div(a as int, b as int),
{
    if a >= 0 {
        (2 * a + b) / (2 * b)
    } else {
        -((2 * (-a) + b) / (2 * b))
    }
}

/// Value of one channel of a fade frame: the target channel `t` plus the
/// per-iteration delta `d / n` scaled by the loop counter `i`, rounded.
/// `d` is the difference between the captured on-screen channel and `t`,
/// so at `i == n` the frame shows the captured channel and at `i == 0`
/// it would show `t` itself.
pub open spec fn blend_chan(t: u8, d: int, i: int, n: int) -> int
    recommends
        n >= 1,
{
    t + round_div(i * d, n)
}

proof fn lemma_round_div_bounds(d: int, i: int, n: int)
    requires
        1 <= n,
        0 <= i <= n,
    ensures
        d >= 0 ==> 0 <= round_div(i * d, n) <= d,
        d < 0 ==> d <= round_div(i * d, n) <= 0,
{
    if d >= 0 {
        vstd::arithmetic::mul::lemma_mul_inequality(i, n, d);
        assert(0 <= i * d) by (nonlinear_arith)
            requires
                0 <= i && 0 <= d,
        ;
        assert(2 * (n * d) + n == d * (2 * n) + n) by (nonlinear_arith);
        vstd::arithmetic::div_mod::lemma_div_is_ordered(n, 2 * (i * d) + n, 2 * n);
        vstd::arithmetic::div_mod::lemma_div_is_ordered(2 * (i * d) + n, 2 * (n * d) + n, 2 * n);
        vstd::arithmetic::div_mod::lemma_fundamental_div_mod_converse(2 * (n * d) + n, 2 * n, d, n);
        vstd::arithmetic::div_mod::lemma_fundamental_div_mod_converse(n, 2 * n, 0, n);
    } else {
        let e = -d;
        assert(i * d == -(i * e)) by (nonlinear_arith)
            requires
                e == -d,
        ;
        vstd::arithmetic::mul::lemma_mul_inequality(i, n, e);
        assert(0 <= i * e) by (nonlinear_arith)
            requires
                0 <= i && 0 <= e,
        ;
        assert(2 * (n * e) + n == e * (2 * n) + n) by (nonlinear_arith);
        vstd::arithmetic::div_mod::lemma_div_is_ordered(n, 2 * (i * e) + n, 2 * n);
        vstd::arithmetic::div_mod::lemma_div_is_ordered(2 * (i * e) + n, 2 * (n * e) + n, 2 * n);
        vstd::arithmetic::div_mod::lemma_fundamental_div_mod_converse(2 * (n * e) + n, 2 * n, e, n);
        vstd::arithmetic::div_mod::lemma_fundamental_div_mod_converse(n, 2 * n, 0, n);
    }
}

/// A blended channel stays within the 8-bit range whenever the delta was
/// computed as `captured - t` for some 8-bit captured value, so the
/// compositor never needs to clamp or wrap.
pub proof fn lemma_blend_in_range(t: u8, d: int, i: int, n: int)
    requires
        1 <= n,
        0 <= i <= n,
        0 <= t + d <= 255,
    ensures
        0 <= blend_chan(t, d, i, n) <= 255,
{
    lemma_round_div_bounds(d, i, n);
}

/// Executable channel blend; the result is exactly the specified rounded
/// interpolation, with no truncation ever taking effect.
pub fn blend_channel(t: u8, d: i16, i: u32, n: u32) -> (c: u8)
    requires
        1 <= n <= 0x10000,
        i <= n,
        0 <= t + d <= 255,
    ensures
        c == blend_chan(t, d as int, i as int, n as int),
{
    proof {
        lemma_blend_in_range(t, d as int, i as int, n as int);
        assert(-0x1000000 <= (i as int) * (d as int) <= 0x1000000) by (nonlinear_arith)
            requires
                0 <= i as int <= 0x10000 && -255 <= d as int <= 255,
        ;
    }
    let q = round_div_i32((i as i32) * (d as i32), n as i32);
    ((t as i32) + q) as u8
}

/// At the full loop counter (`i == n`) a blended channel equals the
/// captured channel `s` the delta was computed from, so the fade's first
/// frame reproduces the pixels that were on screen when it began.
pub proof fn lemma_fade_start(t: u8, s: u8, n: int)
    requires
        1 <= n,
    ensures
        blend_chan(t, s - t, n, n) == s,
{
    let d = s - t;
    if d >= 0 {
        assert(n * d >= 0) by (nonlinear_arith)
            requires
                n >= 1 && d >= 0,
        ;
        assert(2 * (n * d) + n == d * (2 * n) + n) by (nonlinear_arith);
        vstd::arithmetic::div_mod::lemma_fundamental_div_mod_converse(2 * (n * d) + n, 2 * n, d, n);
    } else {
        let e = -d;
        assert(n * d < 0 && n * d == -(n * e)) by (nonlinear_arith)
            requires
                n >= 1 && d < 0 && e == -d,
        ;
        assert(2 * (n * e) + n == e * (2 * n) + n) by (nonlinear_arith);
        vstd::arithmetic::div_mod::lemma_fundamental_div_mod_converse(2 * (n * e) + n, 2 * n, e, n);
    }
}

/// Fade convergence: at the final iteration (`i == 1`) every channel of the
/// rendered frame is within one unit of the target channel.  This holds for
/// every pair of captured and target channels once the fade has at least 171
/// iterations; with fewer iterations a large channel difference divided by
/// the iteration count can still exceed one at the last frame.
pub proof fn lemma_fade_convergence(t: u8, s: u8, n: int)
    requires
        171 <= n,
    ensures
        t - 1 <= blend_chan(t, s - t, 1, n) <= t + 1,
{
    let d = s - t;
    if d >= 0 {
        assert(2 * d + n < 2 * (2 * n));
        vstd::arithmetic::div_mod::lemma_div_is_ordered(0, 2 * d + n, 2 * n);
        vstd::arithmetic::div_mod::lemma_fundamental_div_mod_converse(0, 2 * n, 0, 0);
        if 2 * d + n >= 2 * n {
            vstd::arithmetic::div_mod::lemma_div_is_ordered(2 * n, 2 * d + n, 2 * n);
            vstd::arithmetic::div_mod::lemma_fundamental_div_mod_converse(2 * n, 2 * n, 1, 0);
            vstd::arithmetic::div_mod::lemma_div_is_ordered(2 * d + n, 2 * (2 * n) - 1, 2 * n);
            vstd::arithmetic::div_mod::lemma_fundamental_div_mod_converse(
                2 * (2 * n) - 1, 2 * n, 1, 2 * n - 1);
        } else {
            vstd::arithmetic::div_mod::lemma_div_is_ordered(2 * d + n, 2 * n - 1, 2 * n);
            vstd::arithmetic::div_mod::lemma_fundamental_div_mod_converse(
                2 * n - 1, 2 * n, 0, 2 * n - 1);
        }
    } else {
        let e = -d;
        assert(1 * d == d && 1 * e == e) by (nonlinear_arith);
        assert(2 * e + n < 2 * (2 * n));
        vstd::arithmetic::div_mod::lemma_div_is_ordered(0, 2 * e + n, 2 * n);
        vstd::arithmetic::div_mod::lemma_fundamental_div_mod_converse(0, 2 * n, 0, 0);
        if 2 * e + n >= 2 * n {
            vstd::arithmetic::div_mod::lemma_div_is_ordered(2 * n, 2 * e + n, 2 * n);
            vstd::arithmetic::div_mod::lemma_fundamental_div_mod_converse(2 * n, 2 * n, 1, 0);
            vstd::arithmetic::div_mod::lemma_div_is_ordered(2 * e + n, 2 * (2 * n) - 1, 2 * n);
            vstd::arithmetic::div_mod::lemma_fundamental_div_mod_converse(
                2 * (2 * n) - 1, 2 * n, 1, 2 * n - 1);
        } else {
            vstd::arithmetic::div_mod::lemma_div_is_ordered(2 * e + n, 2 * n - 1, 2 * n);
            vstd::arithmetic::div_mod::lemma_fundamental_div_mod_converse(
                2 * n - 1, 2 * n, 0, 2 * n - 1);
        }
    }
}

} // verus!
