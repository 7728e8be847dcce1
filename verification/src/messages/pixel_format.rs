//! The 16-byte description of how pixel samples are packed.
use vstd::prelude::*;

use crate::error::Error;
use crate::io::read_u16_be;
use crate::io::read_u8;
use crate::io::spec_u16_be;
use crate::io::spec_u16_from_be;
use crate::io::write_u16_be;
use crate::io::write_u8;
use crate::io::Decode;
use crate::io::Encode;
use crate::io::Length;

verus! {

/// How pixel samples are packed: container width, colour depth, byte
/// order, and the per-channel maximum value and bit shift.
///
/// The wire form is 16 bytes; the last 3 are padding, ignored on decode
/// and written as zero on encode.
#[derive(Clone, Copy, Debug, PartialEq, Eq, Structural)]
pub struct PixelFormat {
    pub bits_per_pixel: u8,
    pub depth: u8,
    pub big_endian_flag: bool,
    pub true_colour_flag: bool,
    pub red_max: u16,
    pub green_max: u16,
    pub blue_max: u16,
    pub red_shift: u8,
    pub green_shift: u8,
    pub blue_shift: u8,
}

/// The number of bits needed to write `m` in binary.
pub open spec fn spec_bit_width(m: int) -> int
    decreases m,
{
    if m <= 0 {
        0
    } else {
        1 + spec_bit_width(m / 2)
    }
}

impl PixelFormat {
    /// A format the engine can size payloads for: a whole number of
    /// bytes per pixel, and every channel's shifted value inside the
    /// pixel container.
    pub open spec fn wf(self) -> bool {
        &&& (self.bits_per_pixel == 8 || self.bits_per_pixel == 16 || self.bits_per_pixel == 32)
        &&& self.depth <= self.bits_per_pixel
        &&& self.red_shift + spec_bit_width(self.red_max as int) <= self.bits_per_pixel
        &&& self.green_shift + spec_bit_width(self.green_max as int) <= self.bits_per_pixel
        &&& self.blue_shift + spec_bit_width(self.blue_max as int) <= self.bits_per_pixel
    }

    /// Check the format's invariant; a decoder must reject formats
    /// where a shifted channel value would overflow the pixel container.
    pub fn check(&self) -> (r: bool)
        ensures
            r == self.wf(),
    {
        let ok_bpp = self.bits_per_pixel == 8 || self.bits_per_pixel == 16 || self.bits_per_pixel
            == 32;
        ok_bpp && self.depth <= self.bits_per_pixel && (self.red_shift as u32 + bit_width(
            self.red_max,
        )) <= self.bits_per_pixel as u32 && (self.green_shift as u32 + bit_width(self.green_max))
            <= self.bits_per_pixel as u32 && (self.blue_shift as u32 + bit_width(self.blue_max))
            <= self.bits_per_pixel as u32
    }

    /// The whole bytes each pixel occupies under this format.
    pub fn bytes_per_pixel(&self) -> (r: u8)
        requires
            self.wf(),
        ensures
            r == self.bits_per_pixel / 8,
            1 <= r <= 4,
    {
        self.bits_per_pixel / 8
    }
}

/// The number of bits needed to write `m` in binary.
pub fn bit_width(m: u16) -> (r: u32)
    ensures
        r == spec_bit_width(m as int),
        r <= 16,
{
    proof {
        lemma_bit_width_u16(m);
    }
    let mut v: u16 = m;
    let mut w: u32 = 0;
    while v > 0
        invariant
            w + spec_bit_width(v as int) == spec_bit_width(m as int),
            spec_bit_width(v as int) >= 0,
            spec_bit_width(m as int) <= 16,
        decreases v,
    {
        proof {
            lemma_bit_width_nonneg(v as int / 2);
        }
        v = v / 2;
        w = w + 1;
    }
    w
}

/// A bit width is never negative.
proof fn lemma_bit_width_nonneg(m: int)
    ensures
        spec_bit_width(m) >= 0,
    decreases (if m > 0 {
        m
    } else {
        0
    }),
{
    if m > 0 {
        lemma_bit_width_nonneg(m / 2);
    }
}

/// A larger value never needs fewer bits.
proof fn lemma_bit_width_monotone(a: int, b: int)
    requires
        0 <= a <= b,
    ensures
        spec_bit_width(a) <= spec_bit_width(b),
    decreases b,
{
    if a > 0 {
        lemma_bit_width_monotone(a / 2, b / 2);
    } else {
        lemma_bit_width_nonneg(b);
    }
}

/// A 16-bit value needs at most 16 bits.
proof fn lemma_bit_width_u16(m: u16)
    ensures
        0 <= spec_bit_width(m as int) <= 16,
{
    lemma_bit_width_nonneg(m as int);
    lemma_bit_width_monotone(m as int, 65535);
    assert(spec_bit_width(65535) == 16) by {
        reveal_with_fuel(spec_bit_width, 18);
    }
}

impl Length for PixelFormat {
    open spec fn spec_len() -> int {
        16
    }

    fn length() -> usize {
        16
    }
}

impl Encode for PixelFormat {
    /// The 16-byte layout: container and depth, the two flags, the
    /// three channel maxima big-endian, the three shifts, then three
    /// zero padding bytes.
    open spec fn spec_enc(&self) -> Seq<u8> {
        seq![
            self.bits_per_pixel,
            self.depth,
            if self.big_endian_flag {
                1u8
            } else {
                0u8
            },
            if self.true_colour_flag {
                1u8
            } else {
                0u8
            },
        ] + spec_u16_be(self.red_max) + spec_u16_be(self.green_max) + spec_u16_be(self.blue_max)
            + seq![self.red_shift, self.green_shift, self.blue_shift, 0u8, 0u8, 0u8]
    }

    fn encode(&self) -> Vec<u8> {
        let mut out: Vec<u8> = Vec::new();
        write_u8(&mut out, self.bits_per_pixel);
        write_u8(&mut out, self.depth);
        write_u8(&mut out, if self.big_endian_flag { 1 } else { 0 });
        write_u8(&mut out, if self.true_colour_flag { 1 } else { 0 });
        write_u16_be(&mut out, self.red_max);
        write_u16_be(&mut out, self.green_max);
        write_u16_be(&mut out, self.blue_max);
        write_u8(&mut out, self.red_shift);
        write_u8(&mut out, self.green_shift);
        write_u8(&mut out, self.blue_shift);
        write_u8(&mut out, 0);
        write_u8(&mut out, 0);
        write_u8(&mut out, 0);
        proof {
            assert(out@ =~= self.spec_enc());
        }
        out
    }
}

impl Decode for PixelFormat {
    /// The format read from 16 bytes; the 3 padding bytes are ignored.
    open spec fn spec_dec(s: Seq<u8>) -> Result<PixelFormat, Error> {
        if s.len() < 16 {
            Err(Error::IoFailure)
        } else {
            Ok(
                PixelFormat {
                    bits_per_pixel: s[0],
                    depth: s[1],
                    big_endian_flag: s[2] != 0,
                    true_colour_flag: s[3] != 0,
                    red_max: spec_u16_from_be(s.subrange(4, 6)),
                    green_max: spec_u16_from_be(s.subrange(6, 8)),
                    blue_max: spec_u16_from_be(s.subrange(8, 10)),
                    red_shift: s[10],
                    green_shift: s[11],
                    blue_shift: s[12],
                },
            )
        }
    }

    fn decode(bytes: &[u8], pos: usize) -> (r: Result<(PixelFormat, usize), Error>) {
        if bytes.len() - pos < 16 {
            return Err(Error::IoFailure);
        }
        let red_max = match read_u16_be(bytes, pos + 4) {
            Ok(p) => p.0,
            Err(_) => { return Err(Error::IoFailure) },
        };
        let green_max = match read_u16_be(bytes, pos + 6) {
            Ok(p) => p.0,
            Err(_) => { return Err(Error::IoFailure) },
        };
        let blue_max = match read_u16_be(bytes, pos + 8) {
            Ok(p) => p.0,
            Err(_) => { return Err(Error::IoFailure) },
        };
        let pf = PixelFormat {
            bits_per_pixel: bytes[pos],
            depth: bytes[pos + 1],
            big_endian_flag: bytes[pos + 2] != 0,
            true_colour_flag: bytes[pos + 3] != 0,
            red_max,
            green_max,
            blue_max,
            red_shift: bytes[pos + 10],
            green_shift: bytes[pos + 11],
            blue_shift: bytes[pos + 12],
        };
        proof {
            let s = bytes@.skip(pos as int);
            assert(s.len() == bytes@.len() - pos);
            assert(forall|i: int| 0 <= i < 16 ==> s[i] == bytes@[pos + i]);
            assert(s.subrange(4, 6) =~= bytes@.subrange(pos + 4, pos + 6));
            assert(s.subrange(6, 8) =~= bytes@.subrange(pos + 6, pos + 8));
            assert(s.subrange(8, 10) =~= bytes@.subrange(pos + 8, pos + 10));
        }
        Ok((pf, pos + 16))
    }
}

/// Decoding the 16-byte wire form of any format gives it back.
pub proof fn lemma_pixel_format_round_trip(pf: PixelFormat)
    ensures
        PixelFormat::spec_dec(pf.spec_enc()) == Ok::<PixelFormat, Error>(pf),
{
    let e = pf.spec_enc();
    assert(e.subrange(4, 6) =~= spec_u16_be(pf.red_max));
    assert(e.subrange(6, 8) =~= spec_u16_be(pf.green_max));
    assert(e.subrange(8, 10) =~= spec_u16_be(pf.blue_max));
    crate::io::lemma_u16_be_round(pf.red_max);
    crate::io::lemma_u16_be_round(pf.green_max);
    crate::io::lemma_u16_be_round(pf.blue_max);
}

/// Any 16 bytes whose flag bytes are 0 or 1 decode to a format that
/// re-encodes to the same bytes with the padding forced to zero; when
/// the padding was already zero the bytes come back identical.
///
/// A flag byte outside 0 and 1 is accepted on decode but re-encodes
/// to 1, so such inputs are left out here.
pub proof fn lemma_pixel_format_reencode(s: Seq<u8>)
    requires
        s.len() == 16,
        s[2] == 0 || s[2] == 1,
        s[3] == 0 || s[3] == 1,
    ensures
        PixelFormat::spec_dec(s) matches Ok(pf) && pf.spec_enc() == s.subrange(0, 13) + seq![
            0u8,
            0u8,
            0u8,
        ],
        s[13] == 0 && s[14] == 0 && s[15] == 0 ==> (PixelFormat::spec_dec(s) matches Ok(pf)
            && pf.spec_enc() == s),
{
    let pf = PixelFormat::spec_dec(s)->Ok_0;
    crate::io::lemma_u16_be_bytes(s[4], s[5]);
    crate::io::lemma_u16_be_bytes(s[6], s[7]);
    crate::io::lemma_u16_be_bytes(s[8], s[9]);
    assert(s.subrange(4, 6) =~= seq![s[4], s[5]]);
    assert(s.subrange(6, 8) =~= seq![s[6], s[7]]);
    assert(s.subrange(8, 10) =~= seq![s[8], s[9]]);
    assert(pf.spec_enc() =~= s.subrange(0, 13) + seq![0u8, 0u8, 0u8]);
    if s[13] == 0 && s[14] == 0 && s[15] == 0 {
        assert(pf.spec_enc() =~= s);
    }
}

} // verus!
