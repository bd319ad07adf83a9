//! The raster image sink.
//!
//! The sink assembles a binary `P6` image in memory: a text header naming
//! the image size, then one three-byte pixel per raster position. Pixels
//! must arrive strictly in row-major order, left to right within a row and
//! rows top to bottom; the sink tracks the position the next pixel must
//! have, and its contract refuses any other. Writing the finished bytes to
//! a file is the caller's affair.

use vstd::prelude::*;

verus! {

use vstd::arithmetic::div_mod::lemma_mod_bound;

/// One output pixel: three gamma-encoded eight-bit channels.
#[derive(Clone, Copy, PartialEq, Eq, Structural, Debug)]
pub struct Pixel {
    /// Red channel.
    pub r: u8,
    /// Green channel.
    pub g: u8,
    /// Blue channel.
    pub b: u8,
}

impl Pixel {
    /// The three bytes of the pixel, in the order they are written out.
    pub open spec fn bytes(self) -> Seq<u8> {
        seq![self.r, self.g, self.b]
    }

    /// Bundle three channels into a pixel.
    pub fn new(r: u8, g: u8, b: u8) -> (p: Pixel)
        ensures
            p == (Pixel { r, g, b }),
    {
        Pixel { r, g, b }
    }
}

/// The shortest base-ten writing of `n`, as ASCII digit bytes.
pub open spec fn dec_digits(n: nat) -> Seq<u8>
    decreases n,
{
    if n < 10 {
        seq![(48 + n) as u8]
    } else {
        dec_digits(n / 10).push((48 + n % 10) as u8)
    }
}

/// The header of a binary `P6` image of `w` by `h` pixels with the full
/// eight-bit channel range: `P6`, the two sizes and `255`, each line ended
/// by a newline.
pub open spec fn ppm_header(w: nat, h: nat) -> Seq<u8> {
    seq![80u8, 54u8, 10u8] + dec_digits(w) + seq![10u8] + dec_digits(h) + seq![10u8, 50u8, 53u8, 53u8, 10u8]
}

/// Append the decimal digits of `n` to `buf`.
pub fn push_dec(buf: &mut Vec<u8>, n: usize)
    ensures
        final(buf)@ == old(buf)@ + dec_digits(n as nat),
    decreases n,
{
    if n >= 10 {
        push_dec(buf, n / 10);
    }
    proof {
        lemma_mod_bound(n as int, 10);
    }
    buf.push(48 + (n % 10) as u8);
    assert(buf@ =~= old(buf)@ + dec_digits(n as nat));
}

/// The decimal writing of a number is never empty, holds ASCII digits
/// alone, and starts with a zero only for the number zero itself, so a
/// reader of the header finds each size unambiguously.
pub proof fn lemma_dec_digits_ascii(n: nat)
    ensures
        dec_digits(n).len() >= 1,
        forall|i: int| 0 <= i < dec_digits(n).len() ==> 48 <= #[trigger] dec_digits(n)[i] <= 57,
        n > 0 ==> dec_digits(n)[0] != 48,
    decreases n,
{
    if n >= 10 {
        lemma_dec_digits_ascii(n / 10);
        lemma_mod_bound(n as int, 10);
        let whole = dec_digits(n);
        let lead = dec_digits(n / 10);
        assert forall|i: int| 0 <= i < whole.len() implies 48 <= #[trigger] whole[i] <= 57 by {
            if i < lead.len() {
                assert(whole[i] == lead[i]);
            }
        }
    }
}

/// Sizes and accumulated bytes of one output image.
pub struct OutputInfo {
    /// Width of the image in pixels.
    pub xsize: usize,
    /// Height of the image in pixels.
    pub ysize: usize,
    /// The image bytes assembled so far.
    pub output: Vec<u8>,
}

/// A sink that assembles a binary `P6` image in raster order.
pub struct PpmRawOutput {
    output: OutputInfo,
    curx: usize,
    cury: usize,
}

impl PpmRawOutput {
    /// Width of the image.
    pub closed spec fn width(self) -> nat {
        self.output.xsize as nat
    }

    /// Height of the image.
    pub closed spec fn height(self) -> nat {
        self.output.ysize as nat
    }

    /// Column the next pixel must arrive at.
    pub closed spec fn next_x(self) -> nat {
        self.curx as nat
    }

    /// Row the next pixel must arrive at.
    pub closed spec fn next_y(self) -> nat {
        self.cury as nat
    }

    /// Every byte assembled so far.
    pub closed spec fn written(self) -> Seq<u8> {
        self.output.output@
    }

    /// The pixel bytes assembled so far: what stands past the header.
    pub open spec fn pixel_bytes(self) -> Seq<u8> {
        self.written().skip(ppm_header(self.width(), self.height()).len() as int)
    }

    /// The sink is consistent: the image is at least one pixel wide, the
    /// cursor stands inside it, and the buffer holds the header followed by
    /// three bytes for each pixel fed so far.
    pub open spec fn wf(self) -> bool {
        &&& 0 < self.width()
        &&& self.next_x() < self.width()
        &&& self.next_y() <= self.height()
        &&& ppm_header(self.width(), self.height()).is_prefix_of(self.written())
        &&& self.written().len() == ppm_header(self.width(), self.height()).len()
            + 3 * (self.next_y() * self.width() + self.next_x())
    }

    /// Open a sink for an image of `xsize` by `ysize` pixels: the header is
    /// assembled, and the first pixel is expected at the upper left corner.
    pub fn new(xsize: usize, ysize: usize) -> (out: Self)
        requires
            0 < xsize,
        ensures
            out.wf(),
            out.width() == xsize,
            out.height() == ysize,
            out.next_x() == 0,
            out.next_y() == 0,
            out.written() == ppm_header(xsize as nat, ysize as nat),
    {
        let mut buf: Vec<u8> = Vec::new();
        buf.push(80);
        buf.push(54);
        buf.push(10);
        push_dec(&mut buf, xsize);
        buf.push(10);
        push_dec(&mut buf, ysize);
        buf.push(10);
        buf.push(50);
        buf.push(53);
        buf.push(53);
        buf.push(10);
        assert(buf@ =~= ppm_header(xsize as nat, ysize as nat));
        let out = PpmRawOutput {
            output: OutputInfo { xsize, ysize, output: buf },
            curx: 0,
            cury: 0,
        };
        assert(out.written().skip(ppm_header(xsize as nat, ysize as nat).len() as int)
            =~= Seq::<u8>::empty());
        out
    }

    /// Accept the pixel at raster position `x`, `y`, which must be exactly
    /// the position the sink expects next, and append its three bytes. The
    /// expected position then moves one step in raster order.
    pub fn put_pixel(&mut self, x: usize, y: usize, p: Pixel)
        requires
            old(self).wf(),
            x == old(self).next_x(),
            y == old(self).next_y(),
            y < old(self).height(),
        ensures
            final(self).wf(),
            final(self).width() == old(self).width(),
            final(self).height() == old(self).height(),
            final(self).written() == old(self).written() + p.bytes(),
            final(self).pixel_bytes() == old(self).pixel_bytes() + p.bytes(),
            if x + 1 < old(self).width() {
                final(self).next_x() == x + 1 && final(self).next_y() == y
            } else {
                final(self).next_x() == 0 && final(self).next_y() == y + 1
            },
    {
        self.output.output.push(p.r);
        self.output.output.push(p.g);
        self.output.output.push(p.b);
        self.curx = self.curx + 1;
        if self.curx >= self.output.xsize {
            self.curx = 0;
            self.cury = self.cury + 1;
        }
        proof {
            let w = old(self).width();
            let hd = ppm_header(w, old(self).height());
            assert(self.written() =~= old(self).written() + p.bytes());
            assert(hd.is_prefix_of(self.written())) by {
                assert(self.written().take(hd.len() as int)
                    =~= old(self).written().take(hd.len() as int));
            }
            assert(self.pixel_bytes() =~= old(self).pixel_bytes() + p.bytes());
            if x + 1 == w {
                assert((y + 1) * w == y * w + w) by (nonlinear_arith);
            }
        }
    }

    /// Mark the end of a row. The binary format has no row terminator, so
    /// nothing is written and the sink is left as it stands.
    pub fn flush_row(&mut self)
        ensures
            *final(self) == *old(self),
    {
    }

    /// Hand the assembled bytes out, consuming the sink.
    pub fn into_bytes(self) -> (bytes: Vec<u8>)
        ensures
            bytes@ == self.written(),
    {
        self.output.output
    }

    /// Width of the image, as the sink was opened with.
    pub fn xsize(&self) -> (w: usize)
        ensures
            w == self.width(),
    {
        self.output.xsize
    }

    /// Height of the image, as the sink was opened with.
    pub fn ysize(&self) -> (h: usize)
        ensures
            h == self.height(),
    {
        self.output.ysize
    }
}

} // verus!
