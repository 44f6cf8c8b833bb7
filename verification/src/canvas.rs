//! The framebuffer and its binary pixel-map encoding.
//!
//! A canvas is a row-major rectangular grid of colors. Encoding clamps
//! each channel into one unit, scales it to the eight-bit range, and
//! truncates; the result is the header `P6\n<width> <height>\n255\n`
//! followed by three bytes per pixel.

use vstd::prelude::*;

use crate::fixed::SCALE;
use crate::vector::{V3i, Vec3f};

verus! {

/// Decimal digit bytes of a natural number, most significant first.
pub open spec fn dec_s(n: nat) -> Seq<u8>
    decreases n,
{
    if n < 10 {
        seq![(n + 48) as u8]
    } else {
        dec_s(n / 10) + seq![((n % 10) + 48) as u8]
    }
}

/// The byte a color channel encodes to: the channel clamped into one
/// unit, scaled by 255, truncated.
pub open spec fn channel_byte_s(c: int) -> u8 {
    let k = if c < 0 {
        0
    } else if c > SCALE as int {
        SCALE as int
    } else {
        c
    };
    ((255 * k) / (SCALE as int)) as u8
}

/// The data section of the pixel map: three bytes per pixel, channels in
/// x, y, z order, pixels in row-major order.
pub open spec fn pixel_bytes_s(pix: Seq<V3i>) -> Seq<u8>
    decreases pix.len(),
{
    if pix.len() == 0 {
        Seq::<u8>::empty()
    } else {
        pixel_bytes_s(pix.drop_last())
            + seq![
            channel_byte_s(pix.last().x),
            channel_byte_s(pix.last().y),
            channel_byte_s(pix.last().z),
        ]
    }
}

/// The pixel-map header `P6\n<width> <height>\n255\n`.
pub open spec fn ppm_header_s(w: nat, h: nat) -> Seq<u8> {
    seq![80u8, 54u8, 10u8] + dec_s(w) + seq![32u8] + dec_s(h) + seq![10u8, 50u8, 53u8, 53u8, 10u8]
}

/// Appends the decimal digits of `n`.
fn push_dec(n: u64, out: &mut Vec<u8>)
    ensures
        final(out)@ == old(out)@ + dec_s(n as nat),
    decreases n,
{
    if n < 10 {
        out.push((n as u8) + 48);
        proof {
            assert(out@ =~= old(out)@ + dec_s(n as nat));
        }
    } else {
        push_dec(n / 10, out);
        out.push(((n % 10) as u8) + 48);
        proof {
            assert(out@ =~= old(out)@ + dec_s(n as nat));
        }
    }
}

/// The byte a color channel encodes to.
pub fn channel_byte(c: i64) -> (b: u8)
    ensures
        b == channel_byte_s(c as int),
{
    let k: i64 = if c < 0 {
        0
    } else if c > SCALE {
        SCALE
    } else {
        c
    };
    ((255u64 * (k as u64)) / (SCALE as u64)) as u8
}

/// A rectangular framebuffer of colors, in row-major order.
pub struct Canvas {
    pub framebuffer: Vec<Vec3f>,
    pub width: usize,
    pub height: usize,
}

impl Canvas {
    /// The framebuffer holds exactly one color per pixel.
    pub open spec fn wf(&self) -> bool {
        self.framebuffer@.len() == self.width * self.height
    }

    /// The pixel grid as a sequence of color views.
    pub open spec fn pix(&self) -> Seq<V3i> {
        self.framebuffer@.map_values(|v: Vec3f| v@)
    }

    /// Allocates a canvas with every pixel black.
    pub fn new(width: usize, height: usize) -> (c: Canvas)
        requires
            width * height <= usize::MAX,
        ensures
            c.wf(),
            c.width == width,
            c.height == height,
            forall|i: int|
                0 <= i < width * height ==> c.framebuffer@[i]@ == (V3i { x: 0, y: 0, z: 0 }),
    {
        let n = width * height;
        let mut framebuffer: Vec<Vec3f> = Vec::new();
        let mut i: usize = 0;
        while i < n
            invariant
                i <= n,
                framebuffer@.len() == i,
                forall|k: int| 0 <= k < i ==> framebuffer@[k]@ == (V3i { x: 0, y: 0, z: 0 }),
            decreases n - i,
        {
            framebuffer.push(Vec3f::new(0, 0, 0));
            i = i + 1;
        }
        Canvas { framebuffer, width, height }
    }

    /// Writes the color of the pixel at column `x` of row `y`.
    pub fn set(&mut self, x: usize, y: usize, color: Vec3f)
        requires
            old(self).wf(),
            x < old(self).width,
            y < old(self).height,
        ensures
            final(self).wf(),
            final(self).width == old(self).width,
            final(self).height == old(self).height,
            final(self).framebuffer@ == old(self).framebuffer@.update(
                x + y * old(self).width,
                color,
            ),
    {
        let n = self.framebuffer.len();
        proof {
            assert(x + y * self.width < self.width * self.height) by (nonlinear_arith)
                requires
                    x < self.width,
                    y < self.height,
            ;
            assert(x + y * self.width < n);
        }
        let idx = x + y * self.width;
        self.framebuffer[idx] = color;
    }

    /// Reads the color of the pixel at column `x` of row `y`.
    pub fn get(&self, x: usize, y: usize) -> (c: Vec3f)
        requires
            self.wf(),
            x < self.width,
            y < self.height,
        ensures
            c == self.framebuffer@[x + y * self.width],
    {
        let n = self.framebuffer.len();
        proof {
            assert(x + y * self.width < self.width * self.height) by (nonlinear_arith)
                requires
                    x < self.width,
                    y < self.height,
            ;
            assert(x + y * self.width < n);
        }
        self.framebuffer[x + y * self.width]
    }

    /// Serializes the canvas to the bytes of a binary pixel-map file.
    pub fn encode(&self) -> (bytes: Vec<u8>)
        requires
            self.wf(),
        ensures
            bytes@ == ppm_header_s(self.width as nat, self.height as nat) + pixel_bytes_s(
                self.pix(),
            ),
    {
        let mut out: Vec<u8> = Vec::new();
        out.push(80);
        out.push(54);
        out.push(10);
        push_dec(self.width as u64, &mut out);
        out.push(32);
        push_dec(self.height as u64, &mut out);
        out.push(10);
        out.push(50);
        out.push(53);
        out.push(53);
        out.push(10);
        proof {
            assert(out@ =~= ppm_header_s(self.width as nat, self.height as nat));
            assert(self.pix().subrange(0, 0) =~= Seq::<V3i>::empty());
        }
        let ghost header = out@;
        let mut i: usize = 0;
        while i < self.framebuffer.len()
            invariant
                i <= self.framebuffer@.len(),
                header == ppm_header_s(self.width as nat, self.height as nat),
                out@ == header + pixel_bytes_s(self.pix().subrange(0, i as int)),
            decreases self.framebuffer@.len() - i,
        {
            let v = self.framebuffer[i];
            out.push(channel_byte(v.x));
            out.push(channel_byte(v.y));
            out.push(channel_byte(v.z));
            proof {
                assert(self.pix().subrange(0, i as int + 1).drop_last() =~= self.pix().subrange(
                    0,
                    i as int,
                ));
                assert(self.pix().subrange(0, i as int + 1).last() == self.pix()[i as int]);
                assert(out@ =~= header + pixel_bytes_s(self.pix().subrange(0, i as int + 1)));
            }
            i = i + 1;
        }
        proof {
            assert(self.pix().subrange(0, self.framebuffer@.len() as int) =~= self.pix());
        }
        out
    }
}

/// The length of the data section is three bytes per pixel.
pub proof fn lemma_pixel_bytes_len(pix: Seq<V3i>)
    ensures
        pixel_bytes_s(pix).len() == 3 * pix.len(),
    decreases pix.len(),
{
    if pix.len() > 0 {
        lemma_pixel_bytes_len(pix.drop_last());
    }
}

/// A framebuffer of all-zero colors encodes to an all-zero data section.
pub proof fn lemma_zero_canvas_encodes_to_zero_bytes(pix: Seq<V3i>)
    requires
        forall|i: int| 0 <= i < pix.len() ==> pix[i] == (V3i { x: 0, y: 0, z: 0 }),
    ensures
        pixel_bytes_s(pix).len() == 3 * pix.len(),
        forall|i: int| 0 <= i < 3 * pix.len() ==> pixel_bytes_s(pix)[i] == 0u8,
    decreases pix.len(),
{
    lemma_pixel_bytes_len(pix);
    if pix.len() > 0 {
        lemma_zero_canvas_encodes_to_zero_bytes(pix.drop_last());
        lemma_pixel_bytes_len(pix.drop_last());
        vstd::arithmetic::div_mod::lemma_div_of0(SCALE as int);
        assert(channel_byte_s(0) == 0);
    }
}

} // verus!
