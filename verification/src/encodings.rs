//! Pixel-encoding identifiers and the per-encoding payload
//! interpreters for framebuffer-update rectangles.
use vstd::prelude::*;

use crate::error::Error;
use crate::io::read_i32_be;
use crate::io::read_u16_be;
use crate::io::read_u32_be;
use crate::io::spec_i32_be;
use crate::io::spec_i32_from_be;
use crate::io::spec_u16_from_be;
use crate::io::spec_u32_from_be;
use crate::io::write_i32_be;
use crate::io::Decode;
use crate::io::Encode;
use crate::io::Length;

verus! {

/// A signed 32-bit pixel-encoding identifier. Unknown codes keep
/// their raw value; negative values are reserved for pseudo-encodings.
#[derive(Clone, Copy, Debug, PartialEq, Eq, Structural)]
pub enum EncodingType {
    Raw,
    CopyRect,
    Rre,
    CoRre,
    Hextile,
    Other(i32),
}

impl EncodingType {
    /// The symbol a wire code names.
    pub open spec fn spec_of_code(n: i32) -> EncodingType {
        if n == 0 {
            EncodingType::Raw
        } else if n == 1 {
            EncodingType::CopyRect
        } else if n == 2 {
            EncodingType::Rre
        } else if n == 4 {
            EncodingType::CoRre
        } else if n == 5 {
            EncodingType::Hextile
        } else {
            EncodingType::Other(n)
        }
    }

    /// The wire code of a symbol.
    pub open spec fn spec_code(self) -> i32 {
        match self {
            EncodingType::Raw => 0,
            EncodingType::CopyRect => 1,
            EncodingType::Rre => 2,
            EncodingType::CoRre => 4,
            EncodingType::Hextile => 5,
            EncodingType::Other(n) => n,
        }
    }

    /// A catch-all variant holds a code no named variant owns.
    pub open spec fn wf(self) -> bool {
        Self::spec_of_code(self.spec_code()) == self
    }

    /// Look a wire code up in the registry; unknown codes map to the
    /// catch-all, never to an error.
    pub fn from_code(n: i32) -> (r: EncodingType)
        ensures
            r == Self::spec_of_code(n),
            r.wf(),
    {
        if n == 0 {
            EncodingType::Raw
        } else if n == 1 {
            EncodingType::CopyRect
        } else if n == 2 {
            EncodingType::Rre
        } else if n == 4 {
            EncodingType::CoRre
        } else if n == 5 {
            EncodingType::Hextile
        } else {
            EncodingType::Other(n)
        }
    }

    /// The wire code this symbol encodes to.
    pub fn code(&self) -> (r: i32)
        ensures
            r == self.spec_code(),
    {
        match self {
            EncodingType::Raw => 0,
            EncodingType::CopyRect => 1,
            EncodingType::Rre => 2,
            EncodingType::CoRre => 4,
            EncodingType::Hextile => 5,
            EncodingType::Other(n) => *n,
        }
    }
}

impl From<i32> for EncodingType {
    /// The registry lookup, as the std conversion.
    fn from(n: i32) -> (r: EncodingType) {
        EncodingType::from_code(n)
    }
}

impl vstd::std_specs::convert::FromSpecImpl<i32> for EncodingType {
    open spec fn obeys_from_spec() -> bool {
        true
    }

    open spec fn from_spec(n: i32) -> EncodingType {
        EncodingType::spec_of_code(n)
    }
}

impl From<EncodingType> for i32 {
    /// The symbol's wire code, as the std conversion.
    fn from(e: EncodingType) -> (r: i32) {
        e.code()
    }
}

impl vstd::std_specs::convert::FromSpecImpl<EncodingType> for i32 {
    open spec fn obeys_from_spec() -> bool {
        true
    }

    open spec fn from_spec(e: EncodingType) -> i32 {
        e.spec_code()
    }
}

/// Every wire code survives the registry unchanged.
pub proof fn lemma_encoding_type_code_round(n: i32)
    ensures
        EncodingType::spec_of_code(n).spec_code() == n,
{
}

/// Every well-formed symbol survives the wire unchanged.
pub proof fn lemma_encoding_type_round(e: EncodingType)
    requires
        e.wf(),
    ensures
        EncodingType::spec_of_code(e.spec_code()) == e,
{
}

impl Length for EncodingType {
    open spec fn spec_len() -> int {
        4
    }

    fn length() -> usize {
        4
    }
}

impl Encode for EncodingType {
    open spec fn spec_enc(&self) -> Seq<u8> {
        spec_i32_be(self.spec_code())
    }

    fn encode(&self) -> Vec<u8> {
        let mut out: Vec<u8> = Vec::new();
        write_i32_be(&mut out, self.code());
        out
    }
}

impl Decode for EncodingType {
    open spec fn spec_dec(s: Seq<u8>) -> Result<EncodingType, Error> {
        if s.len() < 4 {
            Err(Error::IoFailure)
        } else {
            Ok(EncodingType::spec_of_code(spec_i32_from_be(s.take(4))))
        }
    }

    fn decode(bytes: &[u8], pos: usize) -> (r: Result<(EncodingType, usize), Error>) {
        proof {
            let s = bytes@.skip(pos as int);
            assert(s.len() == bytes@.len() - pos);
            if bytes@.len() - pos >= 4 {
                assert(s.take(4) =~= bytes@.subrange(pos as int, pos + 4));
            }
        }
        match read_i32_be(bytes, pos) {
            Ok((n, end)) => Ok((EncodingType::from_code(n), end)),
            Err(e) => Err(e),
        }
    }
}

/// A payload interpreter for one pixel encoding.
pub trait Encoding {
    /// The identifier this interpreter handles.
    spec fn spec_encoding_type() -> EncodingType;

    /// The identifier this interpreter handles.
    fn get_type() -> (r: EncodingType)
        ensures
            r == Self::spec_encoding_type(),
    ;
}

// ---------------------------------------------------------------------
// Raw: one pixel value per cell, row-major.
// ---------------------------------------------------------------------
/// The declared length of a raw payload.
pub open spec fn spec_raw_payload_len(w: int, h: int, bpp: int) -> int {
    w * h * bpp
}

/// A rectangle's pixels as plain packed samples.
pub struct Raw {
    pub pixels: Vec<u8>,
}

impl Encoding for Raw {
    open spec fn spec_encoding_type() -> EncodingType {
        EncodingType::Raw
    }

    fn get_type() -> EncodingType {
        EncodingType::Raw
    }
}

impl Raw {
    /// Interpret a raw payload: exactly `width * height * bpp` bytes.
    pub fn decode_payload(payload: &[u8], width: u16, height: u16, bpp: u8) -> (r: Result<
        Raw,
        Error,
    >)
        requires
            1 <= bpp <= 4,
        ensures
            ({
                let need = spec_raw_payload_len(width as int, height as int, bpp as int);
                match r {
                    Ok(raw) => payload@.len() >= need && raw.pixels@ == payload@.take(need),
                    Err(e) => payload@.len() < need && e == Error::IoFailure,
                }
            }),
    {
        proof {
            assert(0 <= (width as int) * (height as int) <= 0xffff * 0xffff) by (nonlinear_arith)
                requires
                    0 <= width <= 0xffff && 0 <= height <= 0xffff,
            ;
            assert(0 <= (width as int) * (height as int) * (bpp as int) <= 0xffff * 0xffff * 4)
                by (nonlinear_arith)
                requires
                    0 <= (width as int) * (height as int) <= 0xffff * 0xffff && 0 <= bpp <= 4,
            ;
        }
        let need64: u64 = (width as u64) * (height as u64) * (bpp as u64);
        if (payload.len() as u64) < need64 {
            return Err(Error::IoFailure);
        }
        let need = need64 as usize;
        match crate::io::read_bytes(payload, 0, need) {
            Ok((pixels, _)) => {
                proof {
                    assert(payload@.subrange(0, need as int) =~= payload@.take(need as int));
                }
                Ok(Raw { pixels })
            },
            Err(_) => {
                proof {
                    assert(false);
                }
                Err(Error::IoFailure)
            },
        }
    }
}

// ---------------------------------------------------------------------
// CopyRect: the payload names a source position already on screen.
// ---------------------------------------------------------------------
/// A region copied from elsewhere in the existing framebuffer.
#[derive(Clone, Copy, Debug, PartialEq, Eq, Structural)]
pub struct CopyRect {
    pub x: u16,
    pub y: u16,
}

impl Encoding for CopyRect {
    open spec fn spec_encoding_type() -> EncodingType {
        EncodingType::CopyRect
    }

    fn get_type() -> EncodingType {
        EncodingType::CopyRect
    }
}

impl CopyRect {
    /// Interpret a copy-rect payload: the 4-byte source x and y.
    pub fn decode_payload(payload: &[u8]) -> (r: Result<CopyRect, Error>)
        ensures
            payload@.len() < 4 ==> r == Err::<CopyRect, Error>(Error::IoFailure),
            payload@.len() >= 4 ==> r == Ok::<CopyRect, Error>(
                CopyRect {
                    x: spec_u16_from_be(payload@.subrange(0, 2)),
                    y: spec_u16_from_be(payload@.subrange(2, 4)),
                },
            ),
    {
        if payload.len() < 4 {
            return Err(Error::IoFailure);
        }
        let x = match read_u16_be(payload, 0) {
            Ok(p) => p.0,
            Err(_) => { return Err(Error::IoFailure) },
        };
        let y = match read_u16_be(payload, 2) {
            Ok(p) => p.0,
            Err(_) => { return Err(Error::IoFailure) },
        };
        Ok(CopyRect { x, y })
    }
}

// ---------------------------------------------------------------------
// RRE and its compact form CoRRE: a background pixel value and a list
// of coloured subrectangles.
// ---------------------------------------------------------------------
/// One coloured subrectangle of an RRE or CoRRE payload.
pub struct SubRectangle {
    pub pixel: Vec<u8>,
    pub x: u16,
    pub y: u16,
    pub width: u16,
    pub height: u16,
}

/// The ghost mirror of a subrectangle, for specifications.
pub struct SubRectangleModel {
    pub pixel: Seq<u8>,
    pub x: u16,
    pub y: u16,
    pub width: u16,
    pub height: u16,
}

/// A rectangle as a background colour plus coloured subrectangles.
pub struct RRE {
    pub background: Vec<u8>,
    pub subrectangles: Vec<SubRectangle>,
}

impl Encoding for RRE {
    open spec fn spec_encoding_type() -> EncodingType {
        EncodingType::Rre
    }

    fn get_type() -> EncodingType {
        EncodingType::Rre
    }
}

/// A coordinate of a subrectangle: 2 big-endian bytes in RRE, 1 byte
/// in the compact CoRRE form.
pub open spec fn spec_coord(t: Seq<u8>, off: int, cw: int) -> u16 {
    if cw == 2 {
        spec_u16_from_be(t.subrange(off, off + 2))
    } else {
        t[off] as u16
    }
}

/// The subrectangle written in one item of an RRE or CoRRE payload.
pub open spec fn spec_rre_subrect(t: Seq<u8>, bpp: int, cw: int) -> SubRectangleModel {
    SubRectangleModel {
        pixel: t.take(bpp),
        x: spec_coord(t, bpp, cw),
        y: spec_coord(t, bpp + cw, cw),
        width: spec_coord(t, bpp + 2 * cw, cw),
        height: spec_coord(t, bpp + 3 * cw, cw),
    }
}

/// What an RRE (`cw == 2`) or CoRRE (`cw == 1`) payload decodes to:
/// the background pixel value, the subrectangles, and the bytes
/// consumed.
pub open spec fn spec_rre_dec(s: Seq<u8>, bpp: int, cw: int) -> Result<
    (Seq<u8>, Seq<SubRectangleModel>, int),
    Error,
> {
    if s.len() < 4 {
        Err(Error::IoFailure)
    } else {
        let n = spec_u32_from_be(s.take(4)) as int;
        let item = bpp + 4 * cw;
        if s.len() < 4 + bpp + n * item {
            Err(Error::IoFailure)
        } else {
            Ok(
                (
                    s.subrange(4, 4 + bpp),
                    Seq::new(
                        n as nat,
                        |i: int|
                            spec_rre_subrect(
                                s.subrange(4 + bpp + i * item, 4 + bpp + (i + 1) * item),
                                bpp,
                                cw,
                            ),
                    ),
                    4 + bpp + n * item,
                ),
            )
        }
    }
}

/// Whether an executable subrectangle holds the fields of its model.
pub open spec fn spec_subrect_matches(v: SubRectangle, m: SubRectangleModel) -> bool {
    v.pixel@ == m.pixel && v.x == m.x && v.y == m.y && v.width == m.width && v.height == m.height
}

/// Whether an executable subrectangle list holds its models, in order.
pub open spec fn spec_subrects_match(v: Seq<SubRectangle>, m: Seq<SubRectangleModel>) -> bool {
    v.len() == m.len() && (forall|i: int|
        0 <= i < v.len() ==> #[trigger] spec_subrect_matches(v[i], m[i]))
}

impl RRE {
    /// Interpret an RRE payload: a 4-byte subrectangle count, the
    /// background pixel value, then per subrectangle a pixel value and
    /// 16-bit x, y, width, height.
    pub fn decode_payload(payload: &[u8], bpp: u8) -> (r: Result<(RRE, usize), Error>)
        requires
            1 <= bpp <= 4,
        ensures
            ({
                let sp = spec_rre_dec(payload@, bpp as int, 2);
                match r {
                    Ok(p) => sp matches Ok(q) && p.0.background@ == q.0 && spec_subrects_match(
                        p.0.subrectangles@,
                        q.1,
                    ) && p.1 == q.2,
                    Err(e) => sp matches Err(e2) && e == e2,
                }
            }),
    {
        rre_decode(payload, bpp, false)
    }

    /// Interpret a CoRRE payload: as RRE, but with 1-byte
    /// subrectangle coordinates and dimensions.
    pub fn decode_compact_payload(payload: &[u8], bpp: u8) -> (r: Result<(RRE, usize), Error>)
        requires
            1 <= bpp <= 4,
        ensures
            ({
                let sp = spec_rre_dec(payload@, bpp as int, 1);
                match r {
                    Ok(p) => sp matches Ok(q) && p.0.background@ == q.0 && spec_subrects_match(
                        p.0.subrectangles@,
                        q.1,
                    ) && p.1 == q.2,
                    Err(e) => sp matches Err(e2) && e == e2,
                }
            }),
    {
        rre_decode(payload, bpp, true)
    }
}

/// Read one subrectangle coordinate at the cursor.
fn read_coord(payload: &[u8], pos: usize, compact: bool) -> (r: u16)
    requires
        compact ==> pos + 1 <= payload@.len(),
        !compact ==> pos + 2 <= payload@.len(),
    ensures
        r == spec_coord(payload@, pos as int, if compact { 1int } else { 2int }),
{
    if compact {
        payload[pos] as u16
    } else {
        let v = match read_u16_be(payload, pos) {
            Ok(p) => p.0,
            Err(_) => {
                proof {
                    assert(false);
                }
                0
            },
        };
        v
    }
}

/// The shared RRE/CoRRE scan.
fn rre_decode(payload: &[u8], bpp: u8, compact: bool) -> (r: Result<(RRE, usize), Error>)
    requires
        1 <= bpp <= 4,
    ensures
        ({
            let sp = spec_rre_dec(payload@, bpp as int, if compact { 1int } else { 2int });
            match r {
                Ok(p) => sp matches Ok(q) && p.0.background@ == q.0 && spec_subrects_match(
                    p.0.subrectangles@,
                    q.1,
                ) && p.1 == q.2,
                Err(e) => sp matches Err(e2) && e == e2,
            }
        }),
{
    let ghost cw_g: int = if compact { 1int } else { 2int };
    let cw: usize = if compact { 1 } else { 2 };
    let n = match crate::io::read_u32_be(payload, 0) {
        Ok(p) => p.0,
        Err(e) => { return Err(e) },
    };
    proof {
        assert(payload@.take(4) =~= payload@.subrange(0, 4));
    }
    let item: usize = bpp as usize + 4 * cw;
    proof {
        assert(0 <= (n as int) * (item as int) <= 0xffff_ffff * 12) by (nonlinear_arith)
            requires
                0 <= n <= 0xffff_ffff && 0 <= item <= 12,
        ;
    }
    let need64: u64 = 4 + (bpp as u64) + (n as u64) * (item as u64);
    if (payload.len() as u64) < need64 {
        return Err(Error::IoFailure);
    }
    let (background, mut cur) = match crate::io::read_bytes(payload, 4, bpp as usize) {
        Ok(p) => p,
        Err(_) => {
            proof {
                assert(false);
            }
            return Err(Error::IoFailure);
        },
    };
    let mut subs: Vec<SubRectangle> = Vec::new();
    let mut i: usize = 0;
    let ghost models = spec_rre_dec(payload@, bpp as int, cw_g)->Ok_0.1;
    while i < n as usize
        invariant
            1 <= bpp <= 4,
            cw == (if compact { 1usize } else { 2usize }),
            cw_g == (if compact { 1int } else { 2int }),
            item == bpp + 4 * cw,
            cur == 4 + bpp + i * item,
            0 <= i <= n,
            4 + bpp + (n as int) * (item as int) <= payload@.len(),
            payload@.len() <= usize::MAX,
            subs@.len() == i,
            models == spec_rre_dec(payload@, bpp as int, cw_g)->Ok_0.1,
            models.len() == n,
            spec_rre_dec(payload@, bpp as int, cw_g) is Ok,
            forall|j: int| 0 <= j < i ==> #[trigger] spec_subrect_matches(subs@[j], models[j]),
        decreases n - i,
    {
        proof {
            assert((i as int + 1) * (item as int) == i as int * (item as int) + item)
                by (nonlinear_arith);
            assert((i as int + 1) * (item as int) <= (n as int) * (item as int))
                by (nonlinear_arith)
                requires
                    i as int + 1 <= n as int && item >= 0,
            ;
        }
        let ghost t = payload@.subrange(
            4 + bpp + i as int * item as int,
            4 + bpp + (i as int + 1) * item as int,
        );
        let (pixel, mid) = match crate::io::read_bytes(payload, cur, bpp as usize) {
            Ok(p) => p,
            Err(_) => {
                proof {
                    assert(false);
                }
                return Err(Error::IoFailure);
            },
        };
        let x = read_coord(payload, mid, compact);
        let y = read_coord(payload, mid + cw, compact);
        let width = read_coord(payload, mid + 2 * cw, compact);
        let height = read_coord(payload, mid + 3 * cw, compact);
        proof {
            assert(t.len() == item);
            assert(forall|o: int| 0 <= o < item ==> t[o] == payload@[cur + o]);
            assert(t.take(bpp as int) =~= payload@.subrange(cur as int, cur + bpp));
            if !compact {
                assert(t.subrange(bpp as int, bpp + 2) =~= payload@.subrange(
                    mid as int,
                    mid + 2,
                ));
                assert(t.subrange(bpp + cw_g, bpp + cw_g + 2) =~= payload@.subrange(
                    mid + cw_g,
                    mid + cw_g + 2,
                ));
                assert(t.subrange(bpp + 2 * cw_g, bpp + 2 * cw_g + 2) =~= payload@.subrange(
                    mid + 2 * cw_g,
                    mid + 2 * cw_g + 2,
                ));
                assert(t.subrange(bpp + 3 * cw_g, bpp + 3 * cw_g + 2) =~= payload@.subrange(
                    mid + 3 * cw_g,
                    mid + 3 * cw_g + 2,
                ));
            }
            assert(models[i as int] == spec_rre_subrect(t, bpp as int, cw_g));
            assert(spec_subrect_matches(
                SubRectangle { pixel: pixel, x: x, y: y, width: width, height: height },
                models[i as int],
            ));
        }
        subs.push(SubRectangle { pixel, x, y, width, height });
        i = i + 1;
        cur = cur + item;
    }
    proof {
        assert((n as int) * (item as int) == (i as int) * (item as int));
    }
    Ok((RRE { background, subrectangles: subs }, cur))
}

// ---------------------------------------------------------------------
// Hextile: the rectangle is tiled into 16-by-16 cells (smaller at the
// edges), each with a subencoding mask. The scanner walks the tiles
// and yields the payload's exact length, so a decoder can stay
// synchronized without interpreting every cell.
// ---------------------------------------------------------------------
/// A rectangle in hextile form, kept as its validated payload bytes.
pub struct Hextile {
    pub payload: Vec<u8>,
}

impl Encoding for Hextile {
    open spec fn spec_encoding_type() -> EncodingType {
        EncodingType::Hextile
    }

    fn get_type() -> EncodingType {
        EncodingType::Hextile
    }
}

/// The bytes one tile occupies at the front of `s`: its mask byte,
/// then raw pixels, or optional background and foreground values and
/// a counted list of subrectangles.
pub open spec fn spec_tile_len(s: Seq<u8>, tw: int, th: int, bpp: int) -> Result<int, Error> {
    if s.len() < 1 {
        Err(Error::IoFailure)
    } else {
        let mask = s[0];
        if mask & 1 != 0 {
            if s.len() >= 1 + tw * th * bpp {
                Ok(1 + tw * th * bpp)
            } else {
                Err(Error::IoFailure)
            }
        } else {
            let bg: int = if mask & 2 != 0 {
                bpp
            } else {
                0
            };
            let fg: int = if mask & 4 != 0 {
                bpp
            } else {
                0
            };
            if mask & 8 != 0 {
                if s.len() < 2 + bg + fg {
                    Err(Error::IoFailure)
                } else {
                    let cnt = s[1 + bg + fg] as int;
                    let each: int = (if mask & 16 != 0 {
                        bpp
                    } else {
                        0
                    }) + 2;
                    if s.len() >= 2 + bg + fg + cnt * each {
                        Ok(2 + bg + fg + cnt * each)
                    } else {
                        Err(Error::IoFailure)
                    }
                }
            } else {
                if s.len() >= 1 + bg + fg {
                    Ok(1 + bg + fg)
                } else {
                    Err(Error::IoFailure)
                }
            }
        }
    }
}

/// The width or height of the tile at index `idx` along one axis.
pub open spec fn spec_tile_span(total: int, idx: int) -> int {
    if total - 16 * idx >= 16 {
        16
    } else {
        total - 16 * idx
    }
}

/// The dimensions of every tile of a rectangle, row-major.
pub open spec fn spec_tile_dims(w: int, h: int) -> Seq<(int, int)> {
    let cols = (w + 15) / 16;
    let rows = (h + 15) / 16;
    Seq::new(
        (rows * cols) as nat,
        |k: int| (spec_tile_span(w, k % cols), spec_tile_span(h, k / cols)),
    )
}

/// The total bytes a run of tiles occupies at the front of `s`.
pub open spec fn spec_hextile_len(s: Seq<u8>, tiles: Seq<(int, int)>, bpp: int) -> Result<
    int,
    Error,
>
    decreases tiles.len(),
{
    if tiles.len() == 0 {
        Ok(0)
    } else {
        match spec_tile_len(s, tiles[0].0, tiles[0].1, bpp) {
            Err(e) => Err(e),
            Ok(t) => match spec_hextile_len(s.skip(t), tiles.skip(1), bpp) {
                Err(e) => Err(e),
                Ok(rest) => Ok(t + rest),
            },
        }
    }
}

/// A tile's measure reads only the tile itself: bytes appended after
/// it change nothing.
pub proof fn lemma_tile_len_prefix(p: Seq<u8>, q: Seq<u8>, tw: int, th: int, bpp: int)
    requires
        bpp >= 0,
        spec_tile_len(p, tw, th, bpp) is Ok,
    ensures
        spec_tile_len(p + q, tw, th, bpp) == spec_tile_len(p, tw, th, bpp),
{
    assert((p + q)[0] == p[0]);
    let mask = p[0];
    if mask & 1 == 0 {
        let bg: int = if mask & 2 != 0 {
            bpp
        } else {
            0
        };
        let fg: int = if mask & 4 != 0 {
            bpp
        } else {
            0
        };
        if mask & 8 != 0 {
            assert(p.len() >= 2 + bg + fg);
            assert((p + q)[1 + bg + fg] == p[1 + bg + fg]);
        }
    }
}

/// Every tile of a rectangle is between 1 and 16 pixels on each side.
pub proof fn lemma_tile_dims_bounds(w: int, h: int)
    requires
        1 <= w,
        1 <= h,
    ensures
        forall|k: int|
            0 <= k < spec_tile_dims(w, h).len() ==> (1 <= #[trigger] spec_tile_dims(w, h)[k].0
                <= 16 && 1 <= spec_tile_dims(w, h)[k].1 <= 16),
{
    let cols = (w + 15) / 16;
    let rows = (h + 15) / 16;
    assert forall|k: int| 0 <= k < spec_tile_dims(w, h).len() implies (1 <= #[trigger] spec_tile_dims(
        w,
        h,
    )[k].0 <= 16 && 1 <= spec_tile_dims(w, h)[k].1 <= 16) by {
        assert(cols >= 1);
        let tx = k % cols;
        let ty = k / cols;
        assert(0 <= tx <= cols - 1);
        assert(0 <= ty <= rows - 1) by (nonlinear_arith)
            requires
                0 <= k < rows * cols && cols >= 1 && ty == k / cols && rows >= 1,
        ;
        assert(16 * tx <= 16 * (cols - 1)) by (nonlinear_arith)
            requires
                tx <= cols - 1,
        ;
        assert(16 * cols <= w + 15);
        assert(16 * ty <= 16 * (rows - 1)) by (nonlinear_arith)
            requires
                ty <= rows - 1,
        ;
        assert(16 * rows <= h + 15);
    }
}

/// A hextile measure never claims more bytes than the input holds.
pub proof fn lemma_hextile_len_bound(s: Seq<u8>, tiles: Seq<(int, int)>, bpp: int)
    requires
        bpp >= 0,
        forall|k: int| 0 <= k < tiles.len() ==> (#[trigger] tiles[k].0 >= 0 && tiles[k].1 >= 0),
        spec_hextile_len(s, tiles, bpp) is Ok,
    ensures
        0 <= spec_hextile_len(s, tiles, bpp)->Ok_0 <= s.len(),
    decreases tiles.len(),
{
    if tiles.len() > 0 {
        let t = spec_tile_len(s, tiles[0].0, tiles[0].1, bpp)->Ok_0;
        assert(tiles[0].0 >= 0 && tiles[0].1 >= 0);
        assert(tiles[0].0 * tiles[0].1 * bpp >= 0) by (nonlinear_arith)
            requires
                tiles[0].0 >= 0 && tiles[0].1 >= 0 && bpp >= 0,
        ;
        if s[0] & 1 == 0 && s[0] & 8 != 0 {
            let bg: int = if s[0] & 2 != 0 {
                bpp
            } else {
                0
            };
            let fg: int = if s[0] & 4 != 0 {
                bpp
            } else {
                0
            };
            let cnt = s[1 + bg + fg] as int;
            let each: int = (if s[0] & 16 != 0 {
                bpp
            } else {
                0
            }) + 2;
            assert(cnt * each >= 0) by (nonlinear_arith)
                requires
                    cnt >= 0 && each >= 0,
            ;
        }
        assert(1 <= t <= s.len());
        assert(forall|k: int|
            0 <= k < tiles.skip(1).len() ==> (#[trigger] tiles.skip(1)[k].0 >= 0 && tiles.skip(
                1,
            )[k].1 >= 0));
        lemma_hextile_len_bound(s.skip(t), tiles.skip(1), bpp);
    }
}

/// A hextile measure reads only the tiles themselves: bytes appended
/// after them change nothing.
pub proof fn lemma_hextile_len_prefix(p: Seq<u8>, q: Seq<u8>, tiles: Seq<(int, int)>, bpp: int)
    requires
        bpp >= 0,
        forall|k: int| 0 <= k < tiles.len() ==> (#[trigger] tiles[k].0 >= 0 && tiles[k].1 >= 0),
        spec_hextile_len(p, tiles, bpp) is Ok,
    ensures
        spec_hextile_len(p + q, tiles, bpp) == spec_hextile_len(p, tiles, bpp),
    decreases tiles.len(),
{
    if tiles.len() > 0 {
        let t = spec_tile_len(p, tiles[0].0, tiles[0].1, bpp)->Ok_0;
        lemma_tile_len_prefix(p, q, tiles[0].0, tiles[0].1, bpp);
        lemma_hextile_len_bound(p, tiles, bpp);
        lemma_hextile_len_bound(p.skip(t), tiles.skip(1), bpp);
        assert(tiles[0].0 * tiles[0].1 * bpp >= 0) by (nonlinear_arith)
            requires
                tiles[0].0 >= 0 && tiles[0].1 >= 0 && bpp >= 0,
        ;
        if p[0] & 1 == 0 && p[0] & 8 != 0 {
            let bg: int = if p[0] & 2 != 0 {
                bpp
            } else {
                0
            };
            let fg: int = if p[0] & 4 != 0 {
                bpp
            } else {
                0
            };
            let cnt = p[1 + bg + fg] as int;
            let each: int = (if p[0] & 16 != 0 {
                bpp
            } else {
                0
            }) + 2;
            assert(cnt * each >= 0) by (nonlinear_arith)
                requires
                    cnt >= 0 && each >= 0,
            ;
        }
        assert(0 <= t <= p.len());
        assert((p + q).skip(t) =~= p.skip(t) + q);
        assert(forall|k: int|
            0 <= k < tiles.skip(1).len() ==> (#[trigger] tiles.skip(1)[k].0 >= 0 && tiles.skip(
                1,
            )[k].1 >= 0));
        lemma_hextile_len_prefix(p.skip(t), q, tiles.skip(1), bpp);
    }
}

/// Measure one tile at the cursor.
fn tile_len(bytes: &[u8], pos: usize, tw: u16, th: u16, bpp: u8) -> (r: Result<usize, Error>)
    requires
        pos <= bytes@.len(),
        1 <= bpp <= 4,
        1 <= tw <= 16,
        1 <= th <= 16,
    ensures
        ({
            let sp = spec_tile_len(bytes@.skip(pos as int), tw as int, th as int, bpp as int);
            match r {
                Ok(t) => sp == Ok::<int, Error>(t as int) && pos + t <= bytes@.len(),
                Err(e) => sp matches Err(e2) && e == e2,
            }
        }),
{
    let ghost s = bytes@.skip(pos as int);
    proof {
        assert(s.len() == bytes@.len() - pos);
        assert(1 <= (tw as int) * (th as int) <= 256) by (nonlinear_arith)
            requires
                1 <= tw <= 16 && 1 <= th <= 16,
        ;
        assert(1 <= (tw as int) * (th as int) * (bpp as int) <= 1024) by (nonlinear_arith)
            requires
                1 <= (tw as int) * (th as int) <= 256 && 1 <= bpp <= 4,
        ;
    }
    if bytes.len() - pos < 1 {
        return Err(Error::IoFailure);
    }
    let mask = bytes[pos];
    proof {
        assert(s[0] == bytes@[pos as int]);
    }
    if mask & 1 != 0 {
        let need = 1 + (tw as usize) * (th as usize) * (bpp as usize);
        if bytes.len() - pos < need {
            Err(Error::IoFailure)
        } else {
            Ok(need)
        }
    } else {
        let bg: usize = if mask & 2 != 0 {
            bpp as usize
        } else {
            0
        };
        let fg: usize = if mask & 4 != 0 {
            bpp as usize
        } else {
            0
        };
        if mask & 8 != 0 {
            if bytes.len() - pos < 2 + bg + fg {
                return Err(Error::IoFailure);
            }
            let cnt = bytes[pos + 1 + bg + fg] as usize;
            proof {
                assert(s[1 + bg + fg] == bytes@[pos + 1 + bg as int + fg as int]);
                assert(cnt * ((if mask & 16 != 0 {
                    bpp as int
                } else {
                    0int
                }) + 2) <= 255 * 6) by (nonlinear_arith)
                    requires
                        0 <= cnt <= 255 && 1 <= bpp <= 4,
                ;
            }
            let each: usize = (if mask & 16 != 0 {
                bpp as usize
            } else {
                0
            }) + 2;
            let need = 2 + bg + fg + cnt * each;
            if bytes.len() - pos < need {
                Err(Error::IoFailure)
            } else {
                Ok(need)
            }
        } else {
            let need = 1 + bg + fg;
            if bytes.len() - pos < need {
                Err(Error::IoFailure)
            } else {
                Ok(need)
            }
        }
    }
}

impl Hextile {
    /// Scan a hextile payload tile by tile and give its total length;
    /// the scan fails with `IoFailure` where the input ends inside a
    /// tile.
    pub fn payload_len(bytes: &[u8], pos: usize, width: u16, height: u16, bpp: u8) -> (r: Result<
        usize,
        Error,
    >)
        requires
            pos <= bytes@.len(),
            1 <= bpp <= 4,
        ensures
            ({
                let sp = spec_hextile_len(
                    bytes@.skip(pos as int),
                    spec_tile_dims(width as int, height as int),
                    bpp as int,
                );
                match r {
                    Ok(t) => sp == Ok::<int, Error>(t as int) && pos + t <= bytes@.len(),
                    Err(e) => sp matches Err(e2) && e == e2,
                }
            }),
    {
        let ghost tiles = spec_tile_dims(width as int, height as int);
        let cols: usize = (width as usize + 15) / 16;
        let rows: usize = (height as usize + 15) / 16;
        proof {
            assert(0 <= (rows as int) * (cols as int) <= 4096 * 4096) by (nonlinear_arith)
                requires
                    0 <= rows <= 4096 && 0 <= cols <= 4096,
            ;
            assert(tiles.len() == (rows as int) * (cols as int));
        }
        let total: usize = rows * cols;
        let avail: usize = bytes.len();
        let mut k: usize = 0;
        let mut cur: usize = pos;
        proof {
            assert(tiles.skip(0) =~= tiles);
        }
        while k < total
            invariant
                pos <= cur <= bytes@.len(),
                avail == bytes@.len(),
                0 <= k <= total,
                1 <= bpp <= 4,
                cols == (width as int + 15) / 16,
                rows == (height as int + 15) / 16,
                total == (rows as int) * (cols as int),
                tiles == spec_tile_dims(width as int, height as int),
                tiles.len() == total,
                spec_hextile_len(bytes@.skip(pos as int), tiles, bpp as int) == (
                match spec_hextile_len(bytes@.skip(cur as int), tiles.skip(k as int), bpp as int) {
                    Ok(rest) => Ok::<int, Error>((cur - pos) + rest),
                    Err(e) => Err::<int, Error>(e),
                }),
            decreases total - k,
        {
            proof {
                assert(cols >= 1) by (nonlinear_arith)
                    requires
                        total == (rows as int) * (cols as int) && k < total && 0 <= rows && 0
                            <= cols,
                ;
            }
            let tx: usize = k % cols;
            let ty: usize = k / cols;
            proof {
                assert(ty < rows) by (nonlinear_arith)
                    requires
                        k < total && total == (rows as int) * (cols as int) && cols >= 1 && ty == (
                        k as int) / (cols as int) && 0 <= k && 0 <= rows,
                ;
                assert(16 * (tx as int) <= 16 * ((width as int + 15) / 16) - 16) by (nonlinear_arith)
                    requires
                        tx <= (width as int + 15) / 16 - 1,
                ;
                assert(16 * ((width as int + 15) / 16) <= width as int + 15);
                assert(16 * (ty as int) <= 16 * ((height as int + 15) / 16) - 16)
                    by (nonlinear_arith)
                    requires
                        ty <= (height as int + 15) / 16 - 1,
                ;
                assert(16 * ((height as int + 15) / 16) <= height as int + 15);
            }
            let wrem: usize = width as usize - 16 * tx;
            let hrem: usize = height as usize - 16 * ty;
            let tw: u16 = if wrem >= 16 {
                16
            } else {
                wrem as u16
            };
            let th: u16 = if hrem >= 16 {
                16
            } else {
                hrem as u16
            };
            proof {
                assert(tiles[k as int] == (
                    spec_tile_span(width as int, (k as int) % (cols as int)),
                    spec_tile_span(height as int, (k as int) / (cols as int)),
                ));
                assert(tiles[k as int].0 == tw as int && tiles[k as int].1 == th as int);
                assert(tiles.skip(k as int)[0] == tiles[k as int]);
                assert(tiles.skip(k as int).len() > 0);
            }
            match tile_len(bytes, cur, tw, th, bpp) {
                Err(e) => {
                    return Err(e);
                },
                Ok(t) => {
                    proof {
                        assert(bytes@.skip(cur as int).skip(t as int) =~= bytes@.skip(
                            cur + t as int,
                        ));
                        assert(tiles.skip(k as int).skip(1) =~= tiles.skip(k + 1));
                    }
                    cur = cur + t;
                    k = k + 1;
                },
            }
        }
        proof {
            assert(tiles.skip(total as int).len() == 0);
        }
        Ok(cur - pos)
    }
}

} // verus!
