//! The server's framebuffer update: an ordered run of rectangles,
//! each carrying an encoding-specific pixel payload.
use vstd::prelude::*;

use crate::encodings::spec_hextile_len;
use crate::encodings::spec_raw_payload_len;
use crate::encodings::spec_tile_dims;
use crate::encodings::EncodingType;
use crate::encodings::Hextile;
use crate::error::Error;
use crate::io::read_u16_be;
use crate::io::read_u32_be;
use crate::io::spec_i32_be;
use crate::io::spec_u16_be;
use crate::io::spec_u16_from_be;
use crate::io::spec_u32_from_be;
use crate::io::write_bytes;
use crate::io::write_i32_be;
use crate::io::write_u16_be;
use crate::io::write_u8;
use crate::io::Decode;
use crate::io::Encode;
use crate::io::EncodeTo;
use crate::messages::pixel_format::PixelFormat;

verus! {

/// A positioned, sized region of the framebuffer with an encoded
/// pixel payload. The payload bytes are kept as received; the
/// per-encoding interpreters under `encodings` give them meaning.
#[derive(Clone, Debug, PartialEq)]
pub struct Rectangle {
    pub x: u16,
    pub y: u16,
    pub width: u16,
    pub height: u16,
    pub encoding_type: EncodingType,
    pub pixels: Vec<u8>,
}

/// The ghost mirror of a rectangle, for specifications.
pub struct RectangleModel {
    pub x: u16,
    pub y: u16,
    pub width: u16,
    pub height: u16,
    pub encoding_type: EncodingType,
    pub pixels: Seq<u8>,
}

impl Rectangle {
    /// This rectangle's ghost mirror.
    pub open spec fn model(self) -> RectangleModel {
        RectangleModel {
            x: self.x,
            y: self.y,
            width: self.width,
            height: self.height,
            encoding_type: self.encoding_type,
            pixels: self.pixels@,
        }
    }
}

/// The declared length of a rectangle's payload, by its encoding.
///
/// `s` is the input that follows the rectangle's header; RRE, CoRRE
/// and hextile read their counts from it. An encoding this build
/// cannot frame is refused with `UnsupportedEncoding`: silently
/// substituting another interpretation would desynchronize every
/// later rectangle.
pub open spec fn spec_rect_payload_len(
    s: Seq<u8>,
    enc: EncodingType,
    w: int,
    h: int,
    bpp: int,
) -> Result<int, Error> {
    match enc {
        EncodingType::Raw => Ok(spec_raw_payload_len(w, h, bpp)),
        EncodingType::CopyRect => Ok(4),
        EncodingType::Rre => spec_rre_len(s, bpp, 2),
        EncodingType::CoRre => spec_rre_len(s, bpp, 1),
        EncodingType::Hextile => spec_hextile_len(s, spec_tile_dims(w, h), bpp),
        EncodingType::Other(_) => Err(Error::UnsupportedEncoding),
    }
}

/// The length an RRE (`cw == 2`) or CoRRE (`cw == 1`) payload
/// declares through its leading subrectangle count.
pub open spec fn spec_rre_len(s: Seq<u8>, bpp: int, cw: int) -> Result<int, Error> {
    if s.len() < 4 {
        Err(Error::IoFailure)
    } else {
        let n = spec_u32_from_be(s.take(4)) as int;
        let need = 4 + bpp + n * (bpp + 4 * cw);
        if s.len() < need {
            Err(Error::IoFailure)
        } else {
            Ok(need)
        }
    }
}

/// What the front of the remaining input decodes to as a rectangle:
/// its model and the bytes consumed.
pub open spec fn spec_rectangle_dec(s: Seq<u8>, bpp: int) -> Result<(RectangleModel, int), Error> {
    if s.len() < 8 {
        Err(Error::IoFailure)
    } else {
        let x = spec_u16_from_be(s.subrange(0, 2));
        let y = spec_u16_from_be(s.subrange(2, 4));
        let w = spec_u16_from_be(s.subrange(4, 6));
        let h = spec_u16_from_be(s.subrange(6, 8));
        match EncodingType::spec_dec(s.skip(8)) {
            Err(e) => Err(e),
            Ok(enc) => {
                let body = s.skip(12);
                match spec_rect_payload_len(body, enc, w as int, h as int, bpp) {
                    Err(e) => Err(e),
                    Ok(len) => if body.len() < len {
                        Err(Error::IoFailure)
                    } else {
                        Ok(
                            (
                                RectangleModel {
                                    x,
                                    y,
                                    width: w,
                                    height: h,
                                    encoding_type: enc,
                                    pixels: body.take(len),
                                },
                                12 + len,
                            ),
                        )
                    },
                }
            },
        }
    }
}

/// The wire form of a rectangle: x, y, width, height big-endian, the
/// 4-byte encoding code, then the payload bytes.
pub open spec fn spec_rectangle_enc(m: RectangleModel) -> Seq<u8> {
    spec_u16_be(m.x) + spec_u16_be(m.y) + spec_u16_be(m.width) + spec_u16_be(m.height)
        + spec_i32_be(m.encoding_type.spec_code()) + m.pixels
}

impl Rectangle {
    /// Decode one rectangle at the cursor. The payload is sized from
    /// the encoding and the session's pixel format before it is
    /// copied, so a malformed header cannot claim unbounded memory.
    pub fn decode_from(bytes: &[u8], pos: usize, bpp: u8) -> (r: Result<(Rectangle, usize), Error>)
        requires
            pos <= bytes@.len(),
            1 <= bpp <= 4,
        ensures
            ({
                let sp = spec_rectangle_dec(bytes@.skip(pos as int), bpp as int);
                match r {
                    Ok(p) => sp matches Ok(q) && p.0.model() == q.0 && p.1 == pos + q.1 && pos
                        <= p.1 <= bytes@.len(),
                    Err(e) => sp matches Err(e2) && e == e2,
                }
            }),
    {
        let ghost s = bytes@.skip(pos as int);
        proof {
            assert(s.len() == bytes@.len() - pos);
        }
        if bytes.len() - pos < 8 {
            return Err(Error::IoFailure);
        }
        let x = match read_u16_be(bytes, pos) {
            Ok(p) => p.0,
            Err(_) => { return Err(Error::IoFailure) },
        };
        let y = match read_u16_be(bytes, pos + 2) {
            Ok(p) => p.0,
            Err(_) => { return Err(Error::IoFailure) },
        };
        let w = match read_u16_be(bytes, pos + 4) {
            Ok(p) => p.0,
            Err(_) => { return Err(Error::IoFailure) },
        };
        let h = match read_u16_be(bytes, pos + 6) {
            Ok(p) => p.0,
            Err(_) => { return Err(Error::IoFailure) },
        };
        proof {
            assert(s.subrange(0, 2) =~= bytes@.subrange(pos as int, pos + 2));
            assert(s.subrange(2, 4) =~= bytes@.subrange(pos + 2, pos + 4));
            assert(s.subrange(4, 6) =~= bytes@.subrange(pos + 4, pos + 6));
            assert(s.subrange(6, 8) =~= bytes@.subrange(pos + 6, pos + 8));
            assert(bytes@.skip(pos + 8) =~= s.skip(8));
        }
        let (enc, body_pos) = match EncodingType::decode(bytes, pos + 8) {
            Ok(p) => p,
            Err(e) => { return Err(e) },
        };
        let ghost body = s.skip(12);
        proof {
            assert(bytes@.skip(body_pos as int) =~= body);
        }
        let len = match Rectangle::payload_len(bytes, body_pos, enc, w, h, bpp) {
            Ok(l) => l,
            Err(e) => { return Err(e) },
        };
        let (pixels, end) = match crate::io::read_bytes(bytes, body_pos, len) {
            Ok(p) => p,
            Err(e) => { return Err(e) },
        };
        proof {
            assert(pixels@ =~= body.take(len as int));
        }
        Ok((Rectangle { x, y, width: w, height: h, encoding_type: enc, pixels }, end))
    }

    /// The length of the payload that starts at the cursor, sized by
    /// the encoding, the rectangle's dimensions, and the bytes per
    /// pixel; the cursor is not advanced.
    fn payload_len(bytes: &[u8], pos: usize, enc: EncodingType, w: u16, h: u16, bpp: u8) -> (r:
        Result<usize, Error>)
        requires
            pos <= bytes@.len(),
            1 <= bpp <= 4,
        ensures
            ({
                let sp = spec_rect_payload_len(
                    bytes@.skip(pos as int),
                    enc,
                    w as int,
                    h as int,
                    bpp as int,
                );
                match r {
                    Ok(l) => sp == Ok::<int, Error>(l as int),
                    Err(e) => (sp matches Err(e2) && e == e2) || (e == Error::IoFailure && (
                    sp matches Ok(l2) && bytes@.len() - pos < l2)),
                }
            }),
    {
        let ghost s = bytes@.skip(pos as int);
        proof {
            assert(s.len() == bytes@.len() - pos);
        }
        match enc {
            EncodingType::Raw => {
                proof {
                    assert(0 <= (w as int) * (h as int) <= 0xffff * 0xffff) by (nonlinear_arith)
                        requires
                            0 <= w <= 0xffff && 0 <= h <= 0xffff,
                    ;
                    assert(0 <= (w as int) * (h as int) * (bpp as int) <= 0xffff * 0xffff * 4)
                        by (nonlinear_arith)
                        requires
                            0 <= (w as int) * (h as int) <= 0xffff * 0xffff && 0 <= bpp <= 4,
                    ;
                }
                let need64: u64 = (w as u64) * (h as u64) * (bpp as u64);
                if (bytes.len() as u64) - (pos as u64) < need64 {
                    Err(Error::IoFailure)
                } else {
                    Ok(need64 as usize)
                }
            },
            EncodingType::CopyRect => Ok(4),
            EncodingType::Rre => rre_len(bytes, pos, bpp, false),
            EncodingType::CoRre => rre_len(bytes, pos, bpp, true),
            EncodingType::Hextile => Hextile::payload_len(bytes, pos, w, h, bpp),
            EncodingType::Other(_) => Err(Error::UnsupportedEncoding),
        }
    }
}

/// Measure an RRE or CoRRE payload through its leading count.
fn rre_len(bytes: &[u8], pos: usize, bpp: u8, compact: bool) -> (r: Result<usize, Error>)
    requires
        pos <= bytes@.len(),
        1 <= bpp <= 4,
    ensures
        ({
            let sp = spec_rre_len(bytes@.skip(pos as int), bpp as int, if compact {
                1int
            } else {
                2int
            });
            match r {
                Ok(l) => sp == Ok::<int, Error>(l as int),
                Err(e) => sp matches Err(e2) && e == e2,
            }
        }),
{
    let ghost s = bytes@.skip(pos as int);
    proof {
        assert(s.len() == bytes@.len() - pos);
        if s.len() >= 4 {
            assert(s.take(4) =~= bytes@.subrange(pos as int, pos + 4));
        }
    }
    let n = match read_u32_be(bytes, pos) {
        Ok(p) => p.0,
        Err(e) => { return Err(e) },
    };
    let item: u64 = (bpp as u64) + if compact {
        4
    } else {
        8
    };
    proof {
        assert(0 <= (n as int) * (item as int) <= 0xffff_ffff * 12) by (nonlinear_arith)
            requires
                0 <= n <= 0xffff_ffff && 0 <= item <= 12,
        ;
    }
    let need64: u64 = 4 + (bpp as u64) + (n as u64) * item;
    if (bytes.len() as u64) - (pos as u64) < need64 {
        Err(Error::IoFailure)
    } else {
        Ok(need64 as usize)
    }
}

impl EncodeTo for Rectangle {
    /// Append the wire form of this rectangle. An encoding this build
    /// cannot frame is refused with `UnsupportedEncoding` and the
    /// buffer is left unchanged: substituting another encoding would
    /// change the payload length the peer expects.
    fn encode_to(&self, buf: &mut Vec<u8>) -> (r: Result<(), Error>)
        ensures
            !(self.encoding_type is Other) ==> (r is Ok && final(buf)@ == old(buf)@
                + spec_rectangle_enc(self.model())),
            self.encoding_type is Other ==> (r == Err::<(), Error>(Error::UnsupportedEncoding)
                && final(buf)@ == old(buf)@),
    {
        match self.encoding_type {
            EncodingType::Other(_) => { return Err(Error::UnsupportedEncoding) },
            _ => {},
        }
        write_u16_be(buf, self.x);
        write_u16_be(buf, self.y);
        write_u16_be(buf, self.width);
        write_u16_be(buf, self.height);
        write_i32_be(buf, self.encoding_type.code());
        write_bytes(buf, self.pixels.as_slice());
        proof {
            assert(buf@ =~= old(buf)@ + spec_rectangle_enc(self.model()));
        }
        Ok(())
    }
}

/// An ordered run of rectangles; order is significant, since a later
/// rectangle may copy from regions painted by an earlier one.
#[derive(Clone, Debug, PartialEq)]
pub struct FramebufferUpdate {
    pub rectangles: Vec<Rectangle>,
}

/// What a rectangle run decodes to: the models, in order, and the
/// bytes consumed.
pub open spec fn spec_rect_list_dec(s: Seq<u8>, n: int, bpp: int) -> Result<
    (Seq<RectangleModel>, int),
    Error,
>
    decreases n,
{
    if n <= 0 {
        Ok((Seq::empty(), 0))
    } else {
        match spec_rectangle_dec(s, bpp) {
            Err(e) => Err(e),
            Ok(q) => match spec_rect_list_dec(s.skip(q.1), n - 1, bpp) {
                Err(e) => Err(e),
                Ok(rest) => Ok((seq![q.0] + rest.0, q.1 + rest.1)),
            },
        }
    }
}

/// What a framebuffer update decodes to: its rectangles' models and
/// the bytes consumed. The leading reserved and padding bytes are
/// ignored.
pub open spec fn spec_fbu_dec(s: Seq<u8>, bpp: int) -> Result<(Seq<RectangleModel>, int), Error> {
    if s.len() < 4 {
        Err(Error::IoFailure)
    } else {
        let n = spec_u16_from_be(s.subrange(2, 4)) as int;
        match spec_rect_list_dec(s.skip(4), n, bpp) {
            Err(e) => Err(e),
            Ok(q) => Ok((q.0, 4 + q.1)),
        }
    }
}

/// The concatenated wire forms of a rectangle run.
pub open spec fn spec_rect_list_bytes(ms: Seq<RectangleModel>) -> Seq<u8>
    decreases ms.len(),
{
    if ms.len() == 0 {
        Seq::empty()
    } else {
        spec_rectangle_enc(ms[0]) + spec_rect_list_bytes(ms.skip(1))
    }
}

/// The wire form of a framebuffer update: the tag, one zero padding
/// byte, the 2-byte rectangle count, then the rectangles.
pub open spec fn spec_fbu_enc(ms: Seq<RectangleModel>) -> Seq<u8>
    recommends
        ms.len() <= 65535,
{
    seq![0u8, 0u8] + spec_u16_be(ms.len() as u16) + spec_rect_list_bytes(ms)
}

impl FramebufferUpdate {
    /// Decode a framebuffer update at the cursor (tag included),
    /// sizing each rectangle's payload from the session's pixel
    /// format.
    pub fn decode_from(bytes: &[u8], pos: usize, pf: &PixelFormat) -> (r: Result<
        (FramebufferUpdate, usize),
        Error,
    >)
        requires
            pos <= bytes@.len(),
            pf.wf(),
        ensures
            ({
                let sp = spec_fbu_dec(bytes@.skip(pos as int), pf.bits_per_pixel as int / 8);
                match r {
                    Ok(p) => sp matches Ok(q) && p.0.rectangles@.map(
                        |i: int, rc: Rectangle| rc.model(),
                    ) == q.0 && p.1 == pos + q.1,
                    Err(e) => sp matches Err(e2) && e == e2,
                }
            }),
    {
        let bpp = pf.bytes_per_pixel();
        let ghost s = bytes@.skip(pos as int);
        proof {
            assert(s.len() == bytes@.len() - pos);
            if s.len() >= 4 {
                assert(s.subrange(2, 4) =~= bytes@.subrange(pos + 2, pos + 4));
            }
        }
        if bytes.len() - pos < 4 {
            return Err(Error::IoFailure);
        }
        let n = match read_u16_be(bytes, pos + 2) {
            Ok(p) => p.0,
            Err(_) => { return Err(Error::IoFailure) },
        };
        let avail: usize = bytes.len();
        let mut out: Vec<Rectangle> = Vec::new();
        let mut i: usize = 0;
        let mut cur: usize = pos + 4;
        let ghost bppg = pf.bits_per_pixel as int / 8;
        proof {
            assert(bytes@.skip(cur as int) =~= s.skip(4));
        }
        while i < n as usize
            invariant
                pos + 4 <= cur <= bytes@.len(),
                avail == bytes@.len(),
                0 <= i <= n,
                1 <= bpp <= 4,
                bpp == bppg,
                out@.len() == i,
                s == bytes@.skip(pos as int),
                pos <= bytes@.len(),
                s.len() >= 4,
                n as int == spec_u16_from_be(s.subrange(2, 4)) as int,
                bppg == pf.bits_per_pixel as int / 8,
                spec_rect_list_dec(s.skip(4), n as int, bppg) == (
                match spec_rect_list_dec(bytes@.skip(cur as int), n as int - i, bppg) {
                    Ok(rest) => Ok::<(Seq<RectangleModel>, int), Error>(
                        (out@.map(|j: int, rc: Rectangle| rc.model()) + rest.0, (cur - pos - 4)
                            + rest.1),
                    ),
                    Err(e) => Err::<(Seq<RectangleModel>, int), Error>(e),
                }),
            decreases n - i,
        {
            let (rect, next) = match Rectangle::decode_from(bytes, cur, bpp) {
                Ok(p) => p,
                Err(e) => {
                    proof {
                        assert(spec_rect_list_dec(bytes@.skip(cur as int), n as int - i, bppg)
                            == Err::<(Seq<RectangleModel>, int), Error>(e));
                    }
                    return Err(e);
                },
            };
            let ghost prev = out@;
            out.push(rect);
            proof {
                let f = |j: int, rc: Rectangle| rc.model();
                let used = next - cur;
                assert(bytes@.skip(next as int) =~= bytes@.skip(cur as int).skip(used as int));
                assert(out@.map(f) =~= prev.map(f) + seq![rect.model()]);
                let tail = spec_rect_list_dec(bytes@.skip(next as int), n as int - i - 1, bppg);
                assert(spec_rect_list_dec(bytes@.skip(cur as int), n as int - i, bppg) == (
                match tail {
                    Ok(rest) => Ok::<(Seq<RectangleModel>, int), Error>(
                        (seq![rect.model()] + rest.0, used + rest.1),
                    ),
                    Err(e) => Err::<(Seq<RectangleModel>, int), Error>(e),
                }));
                if let Ok(rest) = tail {
                    assert(prev.map(f) + (seq![rect.model()] + rest.0) =~= (prev.map(f) + seq![
                        rect.model(),
                    ]) + rest.0);
                }
            }
            i = i + 1;
            cur = next;
        }
        proof {
            assert(out@.map(|j: int, rc: Rectangle| rc.model()) + Seq::<RectangleModel>::empty()
                =~= out@.map(|j: int, rc: Rectangle| rc.model()));
        }
        Ok((FramebufferUpdate { rectangles: out }, cur))
    }

    /// The models of this update's rectangles, in order.
    pub open spec fn models(self) -> Seq<RectangleModel> {
        self.rectangles@.map(|i: int, rc: Rectangle| rc.model())
    }

    /// Whether this update can be written: the rectangle count fits
    /// its 2-byte field and every encoding can be framed.
    pub open spec fn enc_ok(self) -> bool {
        &&& self.rectangles@.len() <= 65535
        &&& forall|i: int|
            0 <= i < self.rectangles@.len() ==> !(#[trigger] self.rectangles@[i].encoding_type
                is Other)
    }
}

impl EncodeTo for FramebufferUpdate {
    /// Append the wire form of this update; fails, leaving the buffer
    /// unchanged, with `LengthOverflow` when more than 65535
    /// rectangles are carried, and with `UnsupportedEncoding` when a
    /// rectangle's encoding cannot be framed.
    fn encode_to(&self, buf: &mut Vec<u8>) -> (r: Result<(), Error>)
        ensures
            self.enc_ok() ==> (r is Ok && final(buf)@ == old(buf)@ + spec_fbu_enc(self.models())),
            self.rectangles@.len() > 65535 ==> (r == Err::<(), Error>(Error::LengthOverflow)
                && final(buf)@ == old(buf)@),
            self.rectangles@.len() <= 65535 && !self.enc_ok() ==> (r == Err::<(), Error>(
                Error::UnsupportedEncoding,
            ) && final(buf)@ == old(buf)@),
    {
        if self.rectangles.len() > 65535 {
            return Err(Error::LengthOverflow);
        }
        let mut i: usize = 0;
        while i < self.rectangles.len()
            invariant
                0 <= i <= self.rectangles@.len(),
                self.rectangles@.len() <= 65535,
                forall|j: int|
                    0 <= j < i ==> !(#[trigger] self.rectangles@[j].encoding_type is Other),
            decreases self.rectangles@.len() - i,
        {
            match self.rectangles[i].encoding_type {
                EncodingType::Other(_) => {
                    proof {
                        assert(self.rectangles@[i as int].encoding_type is Other);
                        assert(!self.enc_ok());
                    }
                    return Err(Error::UnsupportedEncoding);
                },
                _ => {},
            }
            i = i + 1;
        }
        let ghost ms = self.models();
        let ghost prefix = buf@;
        write_u8(buf, 0);
        write_u8(buf, 0);
        write_u16_be(buf, self.rectangles.len() as u16);
        let ghost hdr = seq![0u8, 0u8] + spec_u16_be(ms.len() as u16);
        proof {
            assert(buf@ =~= prefix + hdr);
            assert(ms.take(0) =~= Seq::<RectangleModel>::empty());
            assert(buf@ =~= prefix + hdr + spec_rect_list_bytes(ms.take(0)));
        }
        let mut k: usize = 0;
        while k < self.rectangles.len()
            invariant
                0 <= k <= self.rectangles@.len(),
                ms == self.models(),
                ms.len() == self.rectangles@.len(),
                forall|j: int|
                    0 <= j < self.rectangles@.len() ==> !(
                    #[trigger] self.rectangles@[j].encoding_type is Other),
                buf@ == prefix + hdr + spec_rect_list_bytes(ms.take(k as int)),
            decreases self.rectangles@.len() - k,
        {
            let r = self.rectangles[k].encode_to(buf);
            proof {
                assert(ms[k as int] == self.rectangles@[k as int].model());
                assert(r is Ok);
                lemma_rect_list_bytes_snoc(ms, k as int);
                assert(buf@ =~= prefix + hdr + spec_rect_list_bytes(ms.take(k + 1)));
            }
            k = k + 1;
        }
        proof {
            assert(ms.take(ms.len() as int) =~= ms);
            assert(buf@ =~= prefix + spec_fbu_enc(ms));
        }
        Ok(())
    }
}

/// A rectangle every encoder must maintain to keep the peer
/// synchronized: a framable encoding whose payload is consistent with
/// what that encoding declares for the rectangle's dimensions.
#[verifier::opaque]
pub open spec fn spec_rectangle_wf(m: RectangleModel, bpp: int) -> bool {
    &&& m.encoding_type.wf()
    &&& !(m.encoding_type is Other)
    &&& spec_rect_payload_len(m.pixels, m.encoding_type, m.width as int, m.height as int, bpp)
        == Ok::<int, Error>(m.pixels.len() as int)
}

/// Decoding the wire form of any well-formed rectangle gives back
/// exactly its fields.
pub proof fn lemma_rectangle_round_trip(m: RectangleModel, bpp: int)
    requires
        bpp >= 0,
        spec_rectangle_wf(m, bpp),
    ensures
        spec_rectangle_dec(spec_rectangle_enc(m), bpp) == Ok::<(RectangleModel, int), Error>(
            (m, 12 + m.pixels.len() as int),
        ),
{
    lemma_rectangle_dec_prefix(m, Seq::empty(), bpp);
    assert(spec_rectangle_enc(m) + Seq::<u8>::empty() =~= spec_rectangle_enc(m));
}

/// An RRE or CoRRE measure reads only the count it declares: bytes
/// appended after the payload change nothing.
proof fn lemma_rre_len_prefix(p: Seq<u8>, q: Seq<u8>, bpp: int, cw: int)
    requires
        spec_rre_len(p, bpp, cw) is Ok,
    ensures
        spec_rre_len(p + q, bpp, cw) == spec_rre_len(p, bpp, cw),
{
    assert((p + q).take(4) =~= p.take(4));
}

/// A payload's declared length reads only the payload itself: bytes
/// appended after it change nothing.
proof fn lemma_rect_payload_len_prefix(
    p: Seq<u8>,
    q: Seq<u8>,
    enc: EncodingType,
    w: int,
    h: int,
    bpp: int,
)
    requires
        bpp >= 0,
        0 <= w,
        0 <= h,
        spec_rect_payload_len(p, enc, w, h, bpp) is Ok,
    ensures
        spec_rect_payload_len(p + q, enc, w, h, bpp) == spec_rect_payload_len(p, enc, w, h, bpp),
{
    match enc {
        EncodingType::Rre => {
            lemma_rre_len_prefix(p, q, bpp, 2);
        },
        EncodingType::CoRre => {
            lemma_rre_len_prefix(p, q, bpp, 1);
        },
        EncodingType::Hextile => {
            let tiles = spec_tile_dims(w, h);
            if w >= 1 && h >= 1 {
                crate::encodings::lemma_tile_dims_bounds(w, h);
                assert(forall|k: int|
                    0 <= k < tiles.len() ==> (#[trigger] tiles[k].0 >= 0 && tiles[k].1 >= 0));
                crate::encodings::lemma_hextile_len_prefix(p, q, tiles, bpp);
            } else {
                let cols = (w + 15) / 16;
                let rows = (h + 15) / 16;
                assert(cols == 0 || rows == 0);
                assert(rows * cols == 0) by (nonlinear_arith)
                    requires
                        cols == 0 || rows == 0,
                ;
                assert(tiles.len() == 0);
            }
        },
        _ => {},
    }
}

/// A rectangle decodes from any input that starts with its wire form,
/// whatever follows: the header and the payload's own counts fix
/// where it ends.
proof fn lemma_rectangle_dec_prefix(m: RectangleModel, rest: Seq<u8>, bpp: int)
    requires
        bpp >= 0,
        spec_rectangle_wf(m, bpp),
    ensures
        spec_rectangle_dec(spec_rectangle_enc(m) + rest, bpp) == Ok::<(RectangleModel, int), Error>(
            (m, 12 + m.pixels.len() as int),
        ),
{
    reveal(spec_rectangle_wf);
    let e = spec_rectangle_enc(m) + rest;
    assert(e.len() == 12 + m.pixels.len() + rest.len());
    assert(e.subrange(0, 2) =~= spec_u16_be(m.x));
    assert(e.subrange(2, 4) =~= spec_u16_be(m.y));
    assert(e.subrange(4, 6) =~= spec_u16_be(m.width));
    assert(e.subrange(6, 8) =~= spec_u16_be(m.height));
    crate::io::lemma_u16_be_round(m.x);
    crate::io::lemma_u16_be_round(m.y);
    crate::io::lemma_u16_be_round(m.width);
    crate::io::lemma_u16_be_round(m.height);
    assert(e.skip(8).take(4) =~= spec_i32_be(m.encoding_type.spec_code()));
    crate::io::lemma_i32_be_round(m.encoding_type.spec_code());
    let body = e.skip(12);
    assert(body =~= m.pixels + rest);
    lemma_rect_payload_len_prefix(
        m.pixels,
        rest,
        m.encoding_type,
        m.width as int,
        m.height as int,
        bpp,
    );
    assert(body.take(m.pixels.len() as int) =~= m.pixels);
}

/// A rectangle run every encoder must maintain: each rectangle
/// well-formed for the session's bytes per pixel.
pub open spec fn spec_rect_list_wf(ms: Seq<RectangleModel>, bpp: int) -> bool {
    forall|i: int| 0 <= i < ms.len() ==> #[trigger] spec_rectangle_wf(ms[i], bpp)
}

/// Decoding the concatenated wire forms of a well-formed rectangle
/// run gives back exactly that run, consuming all of it.
/// One unfolding of the rectangle-run decoder: a rectangle, then the
/// rest of the run after it.
proof fn lemma_rect_list_dec_step(
    s: Seq<u8>,
    m: RectangleModel,
    used: int,
    rest: Seq<RectangleModel>,
    rest_used: int,
    n: int,
    bpp: int,
)
    requires
        n >= 1,
        spec_rectangle_dec(s, bpp) == Ok::<(RectangleModel, int), Error>((m, used)),
        spec_rect_list_dec(s.skip(used), n - 1, bpp) == Ok::<(Seq<RectangleModel>, int), Error>(
            (rest, rest_used),
        ),
    ensures
        spec_rect_list_dec(s, n, bpp) == Ok::<(Seq<RectangleModel>, int), Error>(
            (seq![m] + rest, used + rest_used),
        ),
{
}

#[verifier::rlimit(100)]
proof fn lemma_rect_list_round_trip(ms: Seq<RectangleModel>, bpp: int)
    requires
        bpp >= 0,
        spec_rect_list_wf(ms, bpp),
    ensures
        spec_rect_list_dec(spec_rect_list_bytes(ms), ms.len() as int, bpp) == Ok::<
            (Seq<RectangleModel>, int),
            Error,
        >((ms, spec_rect_list_bytes(ms).len() as int)),
    decreases ms.len(),
{
    let bytes = spec_rect_list_bytes(ms);
    if ms.len() == 0 {
        assert(ms =~= Seq::<RectangleModel>::empty());
    } else {
        let m = ms[0];
        let tailb = spec_rect_list_bytes(ms.skip(1));
        let used = 12 + m.pixels.len() as int;
        assert(spec_rectangle_wf(m, bpp));
        lemma_rectangle_dec_prefix(m, tailb, bpp);
        assert(bytes == spec_rectangle_enc(m) + tailb);
        assert(spec_rectangle_enc(m).len() == used);
        assert(bytes.skip(used) =~= tailb) by {
            assert(bytes == spec_rectangle_enc(m) + tailb);
            assert(spec_rectangle_enc(m).len() == used);
            assert((spec_rectangle_enc(m) + tailb).skip(used) =~= tailb);
        }
        assert(spec_rect_list_wf(ms.skip(1), bpp)) by {
            assert(forall|i: int|
                0 <= i < ms.skip(1).len() ==> ms.skip(1)[i] == ms[i + 1]
                    && #[trigger] spec_rectangle_wf(ms[i + 1], bpp));
        }
        lemma_rect_list_round_trip(ms.skip(1), bpp);
        lemma_rect_list_dec_step(
            bytes,
            m,
            used,
            ms.skip(1),
            tailb.len() as int,
            ms.len() as int,
            bpp,
        );
        assert(seq![m] + ms.skip(1) =~= ms);
        assert(bytes.len() == used + tailb.len());
    }
}

/// Decoding the wire form of any update whose rectangles are
/// well-formed gives back exactly those rectangles, in order.
pub proof fn lemma_framebuffer_update_round_trip(ms: Seq<RectangleModel>, bpp: int)
    requires
        bpp >= 0,
        ms.len() <= 65535,
        spec_rect_list_wf(ms, bpp),
    ensures
        spec_fbu_dec(spec_fbu_enc(ms), bpp) == Ok::<(Seq<RectangleModel>, int), Error>(
            (ms, spec_fbu_enc(ms).len() as int),
        ),
{
    let e = spec_fbu_enc(ms);
    assert(e.subrange(2, 4) =~= spec_u16_be(ms.len() as u16));
    crate::io::lemma_u16_be_round(ms.len() as u16);
    assert(e.skip(4) =~= spec_rect_list_bytes(ms));
    lemma_rect_list_round_trip(ms, bpp);
    assert(e.len() == 4 + spec_rect_list_bytes(ms).len());
}

/// One more rectangle appends exactly its wire form.
proof fn lemma_rect_list_bytes_snoc(ms: Seq<RectangleModel>, i: int)
    requires
        0 <= i < ms.len(),
    ensures
        spec_rect_list_bytes(ms.take(i + 1)) == spec_rect_list_bytes(ms.take(i))
            + spec_rectangle_enc(ms[i]),
    decreases i,
{
    if i == 0 {
        assert(ms.take(1)[0] == ms[0]);
        assert(ms.take(1).skip(1) =~= Seq::<RectangleModel>::empty());
        assert(ms.take(0) =~= Seq::<RectangleModel>::empty());
        assert(spec_rect_list_bytes(ms.take(1).skip(1)) =~= Seq::<u8>::empty());
        assert(spec_rect_list_bytes(ms.take(1)) =~= spec_rectangle_enc(ms[0]));
        assert(spec_rect_list_bytes(ms.take(0)) + spec_rectangle_enc(ms[0]) =~= spec_rectangle_enc(
            ms[0],
        ));
    } else {
        lemma_rect_list_bytes_snoc(ms.skip(1), i - 1);
        assert(ms.take(i + 1)[0] == ms[0] && ms.take(i)[0] == ms[0]);
        assert(ms.take(i + 1).skip(1) =~= ms.skip(1).take(i));
        assert(ms.take(i).skip(1) =~= ms.skip(1).take(i - 1));
        assert(ms.skip(1)[i - 1] == ms[i]);
        assert((spec_rectangle_enc(ms[0]) + spec_rect_list_bytes(ms.skip(1).take(i - 1)))
            + spec_rectangle_enc(ms[i]) =~= spec_rectangle_enc(ms[0]) + (spec_rect_list_bytes(
            ms.skip(1).take(i - 1),
        ) + spec_rectangle_enc(ms[i])));
    }
}

} // verus!
