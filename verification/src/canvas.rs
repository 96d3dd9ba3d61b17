//! The shared canvas: a resizable off-screen pixel buffer with byte-exact
//! channel packing, and the compositor that writes a source image into it.
//!
//! The buffer itself is plain owned memory here; the caller mirrors it into
//! a shared-memory segment and moves it to and from the display server.

use vstd::prelude::*;

use crate::BgError;
use crate::pixel::{ByteOrder, RgbData, blend_chan, blend_channel, zpix_of};

verus! {

/// One entry of the server's pixel-format table: bits per pixel and
/// scanline padding for a given depth.
#[derive(Debug, PartialEq, Eq, Structural, Clone, Copy)]
pub struct PixFormat {
    pub depth: u8,
    pub bits_per_pixel: u8,
    pub scanline_pad: u8,
}

/// The machine can address a full-capacity pixel buffer for these
/// dimensions: four bytes per pixel must fit in `usize`.
pub open spec fn canvas_fits(w: int, h: int) -> bool {
    4 * w * h <= usize::MAX
}

/// Bytes per row for a packed 32-bit row of `w` pixels, padded to the
/// format's scanline unit.
pub open spec fn spec_stride(w: int, pad: int) -> int {
    ((w * 32 + pad - 1) / pad) * (pad / 8)
}

/// For every scanline pad the server can report for a 32-bit format, the
/// padded stride is exactly four bytes per pixel.
pub proof fn lemma_stride_exact(w: int, pad: int)
    requires
        0 <= w,
        pad == 8 || pad == 16 || pad == 32,
    ensures
        spec_stride(w, pad) == 4 * w,
{
    if pad == 8 {
        vstd::arithmetic::div_mod::lemma_fundamental_div_mod_converse(w * 32 + 7, 8, 4 * w, 7);
        assert(w * 32 + 7 == (4 * w) * 8 + 7) by (nonlinear_arith);
        assert((w * 32 + pad - 1) / pad == 4 * w);
        assert(pad / 8 == 1);
        assert((4 * w) * 1 == 4 * w) by (nonlinear_arith);
    } else if pad == 16 {
        assert(w * 32 + 15 == (2 * w) * 16 + 15) by (nonlinear_arith);
        vstd::arithmetic::div_mod::lemma_fundamental_div_mod_converse(w * 32 + 15, 16, 2 * w, 15);
        assert((w * 32 + pad - 1) / pad == 2 * w);
        assert(pad / 8 == 2);
        assert((2 * w) * 2 == 4 * w) by (nonlinear_arith);
    } else {
        assert(w * 32 + 31 == w * 32 + 31) by (nonlinear_arith);
        vstd::arithmetic::div_mod::lemma_fundamental_div_mod_converse(w * 32 + 31, 32, w, 31);
        assert((w * 32 + pad - 1) / pad == w);
        assert(pad / 8 == 4);
        assert(w * 4 == 4 * w) by (nonlinear_arith);
    }
}

/// The first entry of the server's pixel-format table with the given
/// depth, as the creation path selects it.
pub open spec fn find_format(s: Seq<PixFormat>, depth: u8) -> Option<PixFormat>
    decreases s.len(),
{
    if s.len() == 0 {
        None
    } else if s[0].depth == depth {
        Some(s[0])
    } else {
        find_format(s.drop_first(), depth)
    }
}

/// The byte of a canvas row buffer holding channel `ch` of the pixel at
/// `(x, y)`: channel 0 is blue, 1 green, 2 red, 3 the unused top byte.
pub open spec fn chan_at(s: Seq<u8>, stride: int, x: int, y: int, ch: int) -> u8 {
    s[y * stride + 4 * x + ch]
}

/// The off-screen canvas.  The logical view (`width`, `height`) never
/// exceeds the allocated capacity; growing allocates a new canvas instead.
pub struct Canvas {
    pub data: Vec<u8>,
    pub cap_width: u16,
    pub cap_height: u16,
    pub width: u16,
    pub height: u16,
    pub stride: usize,
    pub depth: u8,
    pub scanline_pad: u8,
    pub byte_order: ByteOrder,
}

impl Canvas {
    /// Structural invariant of a canvas.
    pub open spec fn wf(&self) -> bool {
        &&& self.width <= self.cap_width
        &&& self.height <= self.cap_height
        &&& (self.scanline_pad == 8 || self.scanline_pad == 16 || self.scanline_pad == 32)
        &&& self.stride == 4 * self.width
        &&& self.data@.len() == 4 * (self.cap_width as int) * (self.cap_height as int)
    }

    /// Byte offset of the first (blue) byte of the pixel at `(x, y)`.
    pub open spec fn pix_off(&self, x: int, y: int) -> int {
        y * (self.stride as int) + 4 * x
    }

    /// The packed 32-bit pixel at `(x, y)` in the least-significant-byte-first
    /// layout.
    pub open spec fn spec_pixel_at(&self, x: int, y: int) -> u32 {
        (chan_at(self.data@, self.stride as int, x, y, 0) + chan_at(
            self.data@,
            self.stride as int,
            x,
            y,
            1,
        ) * 0x100 + chan_at(self.data@, self.stride as int, x, y, 2) * 0x10000 + chan_at(
            self.data@,
            self.stride as int,
            x,
            y,
            3,
        ) * 0x1000000) as u32
    }

    /// The canvas after a logical resize: only the view dimensions and the
    /// stride change; capacity, format and buffer contents stay.
    pub open spec fn spec_resized(self, w: u16, h: u16) -> Canvas {
        Canvas { width: w, height: h, stride: (4 * w) as usize, ..self }
    }
}

/// Every in-view pixel's four bytes lie inside the allocated buffer.
pub proof fn lemma_pix_in_data(c: &Canvas, x: int, y: int)
    requires
        c.wf(),
        0 <= x < c.width,
        0 <= y < c.height,
    ensures
        0 <= c.pix_off(x, y),
        c.pix_off(x, y) + 3 < (c.stride as int) * (c.height as int),
        (c.stride as int) * (c.height as int) <= c.data@.len(),
{
    assert(0 <= y * (4 * (c.width as int)) + 4 * x && y * (4 * (c.width as int)) + 4 * x + 3 < (4
        * (c.width as int)) * (c.height as int) && (4 * (c.width as int)) * (c.height as int) <= 4
        * (c.cap_width as int) * (c.cap_height as int)) by (nonlinear_arith)
        requires
            0 <= x < c.width as int && 0 <= y < c.height as int && c.width <= c.cap_width
                && c.height <= c.cap_height,
    ;
}

/// Distinct (pixel, channel) cells of the canvas grid occupy distinct bytes.
pub proof fn lemma_cell_distinct(w: int, x0: int, y0: int, c0: int, x1: int, y1: int, c1: int)
    requires
        0 <= x0 < w,
        0 <= c0 < 4,
        0 <= x1 < w,
        0 <= c1 < 4,
        !(x0 == x1 && y0 == y1 && c0 == c1),
        0 <= y0,
        0 <= y1,
    ensures
        y0 * (4 * w) + 4 * x0 + c0 != y1 * (4 * w) + 4 * x1 + c1,
{
    assert(y0 * (4 * w) + 4 * x0 + c0 != y1 * (4 * w) + 4 * x1 + c1) by (nonlinear_arith)
        requires
            0 <= x0 < w && 0 <= c0 < 4 && 0 <= x1 < w && 0 <= c1 < 4 && 0 <= y0 && 0 <= y1 && !(x0
                == x1 && y0 == y1 && c0 == c1),
    ;
}

/// Computes the padded stride for a 32-bit row, as the server's scanline
/// rules prescribe.
fn stride_for(width: u16, pad: u8) -> (s: usize)
    requires
        pad == 8 || pad == 16 || pad == 32,
    ensures
        s == 4 * (width as int),
{
    proof {
        lemma_stride_exact(width as int, pad as int);
    }
    let p = pad as usize;
    ((width as usize) * 32 + p - 1) / p * (p / 8)
}

impl Canvas {
    /// Allocates a zeroed canvas of the given dimensions and format data.
    pub fn with_dims(depth: u8, scanline_pad: u8, byte_order: ByteOrder, width: u16, height: u16)
        -> (c: Canvas)
        requires
            scanline_pad == 8 || scanline_pad == 16 || scanline_pad == 32,
            canvas_fits(width as int, height as int),
        ensures
            c.wf(),
            c.width == width && c.height == height,
            c.cap_width == width && c.cap_height == height,
            c.depth == depth && c.scanline_pad == scanline_pad && c.byte_order == byte_order,
            c.data@.len() == 4 * (width as int) * (height as int),
            forall|i: int| 0 <= i < c.data@.len() ==> c.data@[i] == 0u8,
    {
        let stride = stride_for(width, scanline_pad);
        proof {
            assert(4 * (width as int) * (height as int) == (4 * (width as int)) * (height as int))
                by (nonlinear_arith);
        }
        let n: usize = stride * (height as usize);
        let mut data: Vec<u8> = Vec::new();
        let mut k: usize = 0;
        while k < n
            invariant
                k <= n,
                data@.len() == k,
                forall|i: int| 0 <= i < k ==> data@[i] == 0u8,
            decreases n - k,
        {
            data.push(0u8);
            k = k + 1;
        }
        Canvas {
            data,
            cap_width: width,
            cap_height: height,
            width,
            height,
            stride,
            depth,
            scanline_pad,
            byte_order,
        }
    }

    /// Allocates the canvas for the given depth, picking the first entry of
    /// the server's pixel-format table with that depth.  Fails when the
    /// table has no such entry, or the entry is not the one supported
    /// packed 32-bit layout — then no canvas (and no shared-memory segment)
    /// can be made.
    pub fn create(
        formats: &Vec<PixFormat>,
        byte_order: ByteOrder,
        depth: u8,
        width: u16,
        height: u16,
    ) -> (r: Result<Canvas, BgError>)
        requires
            canvas_fits(width as int, height as int),
        ensures
            r is Ok <==> (find_format(formats@, depth) matches Some(f) && f.bits_per_pixel == 32
                && (f.scanline_pad == 8 || f.scanline_pad == 16 || f.scanline_pad == 32)),
            r matches Ok(c) ==> {
                &&& c.wf()
                &&& c.width == width && c.height == height
                &&& c.cap_width == width && c.cap_height == height
                &&& c.depth == depth
                &&& c.scanline_pad == find_format(formats@, depth)->Some_0.scanline_pad
                &&& c.byte_order == byte_order
                &&& forall|i: int| 0 <= i < c.data@.len() ==> c.data@[i] == 0u8
            },
            r is Err ==> r == Err::<Canvas, BgError>(BgError::AllocFailed),
    {
        let mut k: usize = 0;
        let n = formats.len();
        proof {
            assert(formats@.skip(0) =~= formats@);
        }
        while k < n
            invariant
                canvas_fits(width as int, height as int),
                n == formats@.len(),
                k <= n,
                find_format(formats@, depth) == find_format(formats@.skip(k as int), depth),
            decreases n - k,
        {
            let f = formats[k];
            proof {
                assert(formats@.skip(k as int)[0] == formats@[k as int]);
                assert(formats@.skip(k as int).drop_first() =~= formats@.skip(k as int + 1));
            }
            if f.depth == depth {
                if f.bits_per_pixel == 32 && (f.scanline_pad == 8 || f.scanline_pad == 16
                    || f.scanline_pad == 32) {
                    return Ok(
                        Canvas::with_dims(depth, f.scanline_pad, byte_order, width, height),
                    );
                } else {
                    return Err(BgError::AllocFailed);
                }
            }
            k = k + 1;
        }
        proof {
            assert(formats@.skip(n as int) =~= Seq::<PixFormat>::empty());
        }
        Err(BgError::AllocFailed)
    }

    /// Sets the logical view to the given dimensions.  Both must fit inside
    /// the allocated capacity: growth always allocates a new canvas, so a
    /// larger request is a caller error, not a recoverable condition.
    pub fn resize(&mut self, width: u16, height: u16)
        requires
            old(self).wf(),
            width <= old(self).cap_width,
            height <= old(self).cap_height,
        ensures
            *final(self) == old(self).spec_resized(width, height),
            final(self).wf(),
    {
        let stride = stride_for(width, self.scanline_pad);
        self.width = width;
        self.height = height;
        self.stride = stride;
    }

    /// Resets the logical view to the full allocated capacity.
    pub fn restore(&mut self)
        requires
            old(self).wf(),
        ensures
            *final(self) == old(self).spec_resized(old(self).cap_width, old(self).cap_height),
            final(self).wf(),
            final(self).width == old(self).cap_width,
            final(self).height == old(self).cap_height,
    {
        let w = self.cap_width;
        let h = self.cap_height;
        self.resize(w, h);
    }

    /// Width of the logical view.
    pub fn width(&self) -> (w: u16)
        ensures
            w == self.width,
    {
        self.width
    }

    /// Height of the logical view.
    pub fn height(&self) -> (h: u16)
        ensures
            h == self.height,
    {
        self.height
    }

    /// Allocated capacity width.
    pub fn actual_width(&self) -> (w: u16)
        ensures
            w == self.cap_width,
    {
        self.cap_width
    }

    /// Allocated capacity height.
    pub fn actual_height(&self) -> (h: u16)
        ensures
            h == self.cap_height,
    {
        self.cap_height
    }

    /// Byte order of the canvas's pixel layout.
    pub fn byte_order(&self) -> (o: ByteOrder)
        ensures
            o == self.byte_order,
    {
        self.byte_order
    }

    /// Reads the packed 32-bit pixel at a coordinate of the logical view.
    pub fn get(&self, x: u32, y: u32) -> (z: u32)
        requires
            self.wf(),
            self.byte_order == ByteOrder::LsbFirst,
            x < self.width,
            y < self.height,
        ensures
            z == self.spec_pixel_at(x as int, y as int),
    {
        proof {
            lemma_pix_in_data(self, x as int, y as int);
        }
        let _len = self.data.len();
        let off = (y as usize) * self.stride + 4 * (x as usize);
        let b0 = self.data[off];
        let b1 = self.data[off + 1];
        let b2 = self.data[off + 2];
        let b3 = self.data[off + 3];
        let z = (b0 as u32) | ((b1 as u32) << 8u32) | ((b2 as u32) << 16u32) | ((b3 as u32)
            << 24u32);
        proof {
            let v0 = b0 as u32;
            let v1 = b1 as u32;
            let v2 = b2 as u32;
            let v3 = b3 as u32;
            assert(v0 | (v1 << 8u32) | (v2 << 16u32) | (v3 << 24u32) == v0 + v1 * 0x100 + v2
                * 0x10000 + v3 * 0x1000000) by (bit_vector)
                requires
                    v0 < 0x100 && v1 < 0x100 && v2 < 0x100 && v3 < 0x100,
            ;
        }
        z
    }

    /// Writes the packed 32-bit pixel at a coordinate of the logical view.
    pub fn put(&mut self, x: u32, y: u32, z: u32)
        requires
            old(self).wf(),
            old(self).byte_order == ByteOrder::LsbFirst,
            x < old(self).width,
            y < old(self).height,
        ensures
            final(self).wf(),
            *final(self) == (Canvas { data: final(self).data, ..*old(self) }),
            final(self).data@.len() == old(self).data@.len(),
            final(self).spec_pixel_at(x as int, y as int) == z,
            forall|i: int|
                0 <= i < old(self).data@.len() && !(old(self).pix_off(x as int, y as int) <= i
                    < old(self).pix_off(x as int, y as int) + 4) ==> final(self).data@[i] == old(
                    self,
                ).data@[i],
    {
        proof {
            lemma_pix_in_data(self, x as int, y as int);
        }
        let _len = self.data.len();
        let off = (y as usize) * self.stride + 4 * (x as usize);
        let b0 = #[verifier::truncate] (z as u8);
        let b1 = #[verifier::truncate] ((z >> 8u32) as u8);
        let b2 = #[verifier::truncate] ((z >> 16u32) as u8);
        let b3 = #[verifier::truncate] ((z >> 24u32) as u8);
        self.data.set(off, b0);
        self.data.set(off + 1, b1);
        self.data.set(off + 2, b2);
        self.data.set(off + 3, b3);
        proof {
            assert((z as u8) as u32 + ((z >> 8u32) as u8) as u32 * 0x100 + ((z >> 16u32) as u8)
                as u32 * 0x10000 + ((z >> 24u32) as u8) as u32 * 0x1000000 == z) by (bit_vector);
        }
    }

    /// Replaces the whole buffer with captured bytes, as a read-back from the
    /// server's drawable delivers them.
    pub fn load_pixels(&mut self, bytes: Vec<u8>)
        requires
            old(self).wf(),
            bytes@.len() == old(self).data@.len(),
        ensures
            final(self).wf(),
            *final(self) == (Canvas { data: final(self).data, ..*old(self) }),
            final(self).data@ == bytes@,
    {
        self.data = bytes;
    }

    /// The raw bytes of the canvas, for the caller to mirror into the real
    /// shared-memory segment.
    pub fn bytes(&self) -> (b: &Vec<u8>)
        ensures
            b@ == self.data@,
    {
        &self.data
    }
}

/// One pixel's precomputed blend step: the per-iteration channel difference
/// between the captured on-screen pixel and the target pixel, kept as an
/// exact numerator over the fade's iteration count.
#[derive(Debug, PartialEq, Eq, Structural, Clone, Copy)]
pub struct DeltaEntry {
    pub dr: i16,
    pub dg: i16,
    pub db: i16,
}

/// The per-fade delta table: one entry per pixel of the fade region, all
/// sharing the fade's iteration count as denominator.
pub struct DeltaTable {
    pub width: u16,
    pub height: u16,
    pub denom: u32,
    pub entries: Vec<DeltaEntry>,
}

impl DeltaTable {
    /// Structural invariant of a delta table.
    pub open spec fn wf(&self) -> bool {
        &&& self.entries@.len() == self.width * self.height
        &&& 1 <= self.denom <= 0x10000
    }

    /// The entry for the pixel at `(x, y)`.
    pub open spec fn spec_at(&self, x: int, y: int) -> DeltaEntry
        recommends
            self.wf(),
            0 <= x < self.width,
            0 <= y < self.height,
    {
        self.entries@[y * self.width + x]
    }

    /// Reads the entry for the pixel at `(x, y)`.
    pub fn entry(&self, x: u32, y: u32) -> (e: DeltaEntry)
        requires
            self.wf(),
            x < self.width,
            y < self.height,
        ensures
            e == self.spec_at(x as int, y as int),
    {
        let _len = self.entries.len();
        proof {
            crate::pixel::lemma_row_major_index(
                x as int, y as int, self.width as int, self.height as int);
        }
        let idx = (y as usize) * (self.width as usize) + (x as usize);
        self.entries[idx]
    }
}

/// A delta table fits a target image when adding each entry to the image's
/// channel lands back in the 8-bit range — which holds whenever the entry was
/// computed as an 8-bit captured channel minus that image channel.
pub open spec fn delta_compat(dt: &DeltaTable, img: &RgbData, x: int, y: int) -> bool {
    &&& 0 <= img.spec_pix(x, y).r + dt.spec_at(x, y).dr <= 255
    &&& 0 <= img.spec_pix(x, y).g + dt.spec_at(x, y).dg <= 255
    &&& 0 <= img.spec_pix(x, y).b + dt.spec_at(x, y).db <= 255
}

/// The smaller of two lengths.
pub open spec fn spec_min(a: int, b: int) -> int {
    if a <= b {
        a
    } else {
        b
    }
}

/// Red channel value the compositor writes for the pixel at `(x, y)`.
pub open spec fn out_r(img: &RgbData, deltas: Option<&DeltaTable>, iter: int, x: int, y: int)
    -> int {
    match deltas {
        Some(dt) => blend_chan(
            img.spec_pix(x, y).r,
            dt.spec_at(x, y).dr as int,
            iter,
            dt.denom as int,
        ),
        None => img.spec_pix(x, y).r as int,
    }
}

/// Green channel value the compositor writes for the pixel at `(x, y)`.
pub open spec fn out_g(img: &RgbData, deltas: Option<&DeltaTable>, iter: int, x: int, y: int)
    -> int {
    match deltas {
        Some(dt) => blend_chan(
            img.spec_pix(x, y).g,
            dt.spec_at(x, y).dg as int,
            iter,
            dt.denom as int,
        ),
        None => img.spec_pix(x, y).g as int,
    }
}

/// Blue channel value the compositor writes for the pixel at `(x, y)`.
pub open spec fn out_b(img: &RgbData, deltas: Option<&DeltaTable>, iter: int, x: int, y: int)
    -> int {
    match deltas {
        Some(dt) => blend_chan(
            img.spec_pix(x, y).b,
            dt.spec_at(x, y).db as int,
            iter,
            dt.denom as int,
        ),
        None => img.spec_pix(x, y).b as int,
    }
}

impl Canvas {
    /// Writes the three color channels of one pixel, leaving its unused top
    /// byte and every other byte of the buffer alone.
    fn put_rgb(&mut self, x: u32, y: u32, r: u8, g: u8, b: u8)
        requires
            old(self).wf(),
            x < old(self).width,
            y < old(self).height,
        ensures
            final(self).wf(),
            *final(self) == (Canvas { data: final(self).data, ..*old(self) }),
            final(self).data@.len() == old(self).data@.len(),
            chan_at(final(self).data@, old(self).stride as int, x as int, y as int, 0) == b,
            chan_at(final(self).data@, old(self).stride as int, x as int, y as int, 1) == g,
            chan_at(final(self).data@, old(self).stride as int, x as int, y as int, 2) == r,
            forall|i: int|
                0 <= i < old(self).data@.len() && !(old(self).pix_off(x as int, y as int) <= i
                    < old(self).pix_off(x as int, y as int) + 3) ==> final(self).data@[i] == old(
                    self,
                ).data@[i],
    {
        proof {
            lemma_pix_in_data(self, x as int, y as int);
        }
        let _len = self.data.len();
        let off = (y as usize) * self.stride + 4 * (x as usize);
        self.data.set(off, b);
        self.data.set(off + 1, g);
        self.data.set(off + 2, r);
    }

    /// The pixel compositor: copies the source image into the canvas over the
    /// rectangle where the logical view and the image overlap, optionally
    /// blending each channel with a per-pixel delta scaled by the iteration
    /// counter.  Channels are packed least-significant-byte first — blue,
    /// green, red, then the untouched top byte.
    pub fn compose(&mut self, img: &RgbData, deltas: Option<&DeltaTable>, iter: u32)
        requires
            old(self).wf(),
            old(self).byte_order == ByteOrder::LsbFirst,
            img.wf(),
            deltas matches Some(dt) ==> {
                &&& dt.wf()
                &&& dt.width as int == spec_min(old(self).width as int, img.width as int)
                &&& spec_min(old(self).height as int, img.height as int) <= dt.height
                &&& iter <= dt.denom
                &&& forall|x: int, y: int|
                    0 <= x < dt.width && 0 <= y < spec_min(
                        old(self).height as int,
                        img.height as int,
                    ) ==> #[trigger] delta_compat(dt, img, x, y)
            },
        ensures
            final(self).wf(),
            *final(self) == (Canvas { data: final(self).data, ..*old(self) }),
            final(self).data@.len() == old(self).data@.len(),
            forall|x: int, y: int|
                0 <= x < spec_min(old(self).width as int, img.width as int) && 0 <= y < spec_min(
                    old(self).height as int,
                    img.height as int,
                ) ==> {
                    &&& chan_at(final(self).data@, old(self).stride as int, x, y, 0) == out_b(
                        img,
                        deltas,
                        iter as int,
                        x,
                        y,
                    )
                    &&& chan_at(final(self).data@, old(self).stride as int, x, y, 1) == out_g(
                        img,
                        deltas,
                        iter as int,
                        x,
                        y,
                    )
                    &&& chan_at(final(self).data@, old(self).stride as int, x, y, 2) == out_r(
                        img,
                        deltas,
                        iter as int,
                        x,
                        y,
                    )
                },
            forall|x: int, y: int, ch: int|
                0 <= x < old(self).width && 0 <= y < old(self).height && 0 <= ch < 4 && !(x
                    < spec_min(old(self).width as int, img.width as int) && y < spec_min(
                    old(self).height as int,
                    img.height as int,
                ) && ch != 3) ==> chan_at(final(self).data@, old(self).stride as int, x, y, ch)
                    == chan_at(old(self).data@, old(self).stride as int, x, y, ch),
            forall|i: int|
                (old(self).stride as int) * (old(self).height as int) <= i < old(
                    self,
                ).data@.len() ==> final(self).data@[i] == old(self).data@[i],
            deltas is None ==> forall|x: int, y: int|
                0 <= x < spec_min(old(self).width as int, img.width as int) && 0 <= y < spec_min(
                    old(self).height as int,
                    img.height as int,
                ) && chan_at(old(self).data@, old(self).stride as int, x, y, 3) == 0
                    ==> #[trigger] final(self).spec_pixel_at(x, y) == zpix_of(
                    img.spec_pix(x, y).r,
                    img.spec_pix(x, y).g,
                    img.spec_pix(x, y).b,
                ),
    {
        let rw: u32 = if (self.width as u32) <= img.width {
            self.width as u32
        } else {
            img.width
        };
        let rh: u32 = if (self.height as u32) <= img.height {
            self.height as u32
        } else {
            img.height
        };
        let ghost orig = *self;
        let mut y: u32 = 0;
        while y < rh
            invariant
                orig.wf(),
                orig.byte_order == ByteOrder::LsbFirst,
                img.wf(),
                rw == spec_min(orig.width as int, img.width as int),
                rh == spec_min(orig.height as int, img.height as int),
                y <= rh,
                deltas matches Some(dt) ==> {
                    &&& dt.wf()
                    &&& dt.width as int == rw
                    &&& rh <= dt.height
                    &&& iter <= dt.denom
                    &&& forall|px: int, py: int|
                        0 <= px < dt.width && 0 <= py < rh ==> #[trigger] delta_compat(
                            dt,
                            img,
                            px,
                            py,
                        )
                },
                self.wf(),
                *self == (Canvas { data: self.data, ..orig }),
                self.data@.len() == orig.data@.len(),
                forall|px: int, py: int|
                    0 <= px < rw && 0 <= py < y ==> {
                        &&& chan_at(self.data@, orig.stride as int, px, py, 0) == out_b(
                            img,
                            deltas,
                            iter as int,
                            px,
                            py,
                        )
                        &&& chan_at(self.data@, orig.stride as int, px, py, 1) == out_g(
                            img,
                            deltas,
                            iter as int,
                            px,
                            py,
                        )
                        &&& chan_at(self.data@, orig.stride as int, px, py, 2) == out_r(
                            img,
                            deltas,
                            iter as int,
                            px,
                            py,
                        )
                    },
                forall|px: int, py: int, ch: int|
                    0 <= px < orig.width && 0 <= py < orig.height && 0 <= ch < 4 && !(px < rw && py
                        < y && ch != 3) ==> chan_at(self.data@, orig.stride as int, px, py, ch)
                        == chan_at(orig.data@, orig.stride as int, px, py, ch),
                forall|i: int|
                    (orig.stride as int) * (orig.height as int) <= i < orig.data@.len()
                        ==> self.data@[i] == orig.data@[i],
            decreases rh - y,
        {
            let mut x: u32 = 0;
            while x < rw
                invariant
                    orig.wf(),
                    orig.byte_order == ByteOrder::LsbFirst,
                    img.wf(),
                    rw == spec_min(orig.width as int, img.width as int),
                    rh == spec_min(orig.height as int, img.height as int),
                    y < rh,
                    x <= rw,
                    deltas matches Some(dt) ==> {
                        &&& dt.wf()
                        &&& dt.width as int == rw
                        &&& rh <= dt.height
                        &&& iter <= dt.denom
                        &&& forall|px: int, py: int|
                            0 <= px < dt.width && 0 <= py < rh ==> #[trigger] delta_compat(
                                dt,
                                img,
                                px,
                                py,
                            )
                    },
                    self.wf(),
                    *self == (Canvas { data: self.data, ..orig }),
                    self.data@.len() == orig.data@.len(),
                    forall|px: int, py: int|
                        0 <= px < rw && 0 <= py <= y && (py < y || px < x) ==> {
                            &&& chan_at(self.data@, orig.stride as int, px, py, 0) == out_b(
                                img,
                                deltas,
                                iter as int,
                                px,
                                py,
                            )
                            &&& chan_at(self.data@, orig.stride as int, px, py, 1) == out_g(
                                img,
                                deltas,
                                iter as int,
                                px,
                                py,
                            )
                            &&& chan_at(self.data@, orig.stride as int, px, py, 2) == out_r(
                                img,
                                deltas,
                                iter as int,
                                px,
                                py,
                            )
                        },
                    forall|px: int, py: int, ch: int|
                        0 <= px < orig.width && 0 <= py < orig.height && 0 <= ch < 4 && !(px < rw
                            && (py < y || (py == y && px < x)) && ch != 3) ==> chan_at(
                            self.data@,
                            orig.stride as int,
                            px,
                            py,
                            ch,
                        ) == chan_at(orig.data@, orig.stride as int, px, py, ch),
                    forall|i: int|
                        (orig.stride as int) * (orig.height as int) <= i < orig.data@.len()
                            ==> self.data@[i] == orig.data@[i],
                decreases rw - x,
            {
                let p = img.get_pixel(x, y);
                let (r, g, b) = match deltas {
                    Some(dt) => {
                        let e = dt.entry(x, y);
                        proof {
                            assert(delta_compat(dt, img, x as int, y as int));
                        }
                        let r = blend_channel(p.r, e.dr, iter, dt.denom);
                        let g = blend_channel(p.g, e.dg, iter, dt.denom);
                        let b = blend_channel(p.b, e.db, iter, dt.denom);
                        (r, g, b)
                    },
                    None => (p.r, p.g, p.b),
                };
                let ghost before = *self;
                self.put_rgb(x, y, r, g, b);
                proof {
                    let stride = orig.stride as int;
                    let w = orig.width as int;
                    assert forall|px: int, py: int, ch: int|
                        0 <= px < orig.width && 0 <= py < orig.height && 0 <= ch < 4 && !(px == x
                            && py == y && ch < 3) implies chan_at(self.data@, stride, px, py, ch)
                        == chan_at(before.data@, stride, px, py, ch) by {
                        lemma_cell_distinct(w, px, py, ch, x as int, y as int, 0);
                        lemma_cell_distinct(w, px, py, ch, x as int, y as int, 1);
                        lemma_cell_distinct(w, px, py, ch, x as int, y as int, 2);
                        lemma_pix_in_data(&before, px, py);
                    }
                    assert forall|i: int|
                        (orig.stride as int) * (orig.height as int) <= i < orig.data@.len()
                        implies self.data@[i] == orig.data@[i] by {
                        lemma_pix_in_data(&before, x as int, y as int);
                    }
                }
                x = x + 1;
            }
            y = y + 1;
        }
        proof {
            if deltas is None {
                assert forall|x: int, y: int|
                    0 <= x < rw && 0 <= y < rh && chan_at(
                        orig.data@,
                        orig.stride as int,
                        x,
                        y,
                        3,
                    ) == 0 implies self.spec_pixel_at(x, y) == zpix_of(
                    img.spec_pix(x, y).r,
                    img.spec_pix(x, y).g,
                    img.spec_pix(x, y).b,
                ) by {
                    let st = orig.stride as int;
                    assert(chan_at(self.data@, st, x, y, 3) == chan_at(orig.data@, st, x, y, 3));
                    assert(chan_at(self.data@, st, x, y, 0) == out_b(img, deltas, iter as int, x, y));
                    assert(chan_at(self.data@, st, x, y, 1) == out_g(img, deltas, iter as int, x, y));
                    assert(chan_at(self.data@, st, x, y, 2) == out_r(img, deltas, iter as int, x, y));
                    assert(self.stride == orig.stride);
                    assert(self.spec_pixel_at(x, y) == (chan_at(self.data@, st, x, y, 0) + chan_at(
                        self.data@,
                        st,
                        x,
                        y,
                        1,
                    ) * 0x100 + chan_at(self.data@, st, x, y, 2) * 0x10000 + chan_at(
                        self.data@,
                        st,
                        x,
                        y,
                        3,
                    ) * 0x1000000) as u32);
                }
            }
        }
    }
}

/// The canvas after `resize(width, height)` followed by `restore()` shows
/// the full capacity dimensions again, with the buffer untouched.
pub proof fn lemma_resize_restore(c: Canvas, w: u16, h: u16)
    requires
        c.wf(),
        w <= c.cap_width,
        h <= c.cap_height,
    ensures
        ({
            let after = c.spec_resized(w, h).spec_resized(c.cap_width, c.cap_height);
            after.width == c.cap_width && after.height == c.cap_height && after.data == c.data
                && after.wf()
        }),
{
}

} // verus!
