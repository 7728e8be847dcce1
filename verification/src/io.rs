//! Primitive wire codec: big-endian integers, byte runs, and
//! length-prefixed strings, all decoded from an in-memory byte slice
//! through a cursor and encoded by appending to a byte vector.
//!
//! Every decoder consumes exactly the declared number of bytes on
//! success; on failure it consumes nothing (the returned cursor is
//! never advanced past a failure, the caller must drop the stream).
use vstd::prelude::*;

use crate::error::Error;

verus! {

// ---------------------------------------------------------------------
// Big-endian byte layouts, as specification functions.
// ---------------------------------------------------------------------
/// The two big-endian bytes of a 16-bit integer.
pub open spec fn spec_u16_be(v: u16) -> Seq<u8> {
    seq![(v >> 8) as u8, v as u8]
}

/// The 16-bit integer read from two big-endian bytes.
pub open spec fn spec_u16_from_be(s: Seq<u8>) -> u16
    recommends
        s.len() == 2,
{
    ((s[0] as u16) << 8) | (s[1] as u16)
}

/// The four big-endian bytes of a 32-bit integer.
pub open spec fn spec_u32_be(v: u32) -> Seq<u8> {
    seq![(v >> 24) as u8, (v >> 16) as u8, (v >> 8) as u8, v as u8]
}

/// The 32-bit integer read from four big-endian bytes.
pub open spec fn spec_u32_from_be(s: Seq<u8>) -> u32
    recommends
        s.len() == 4,
{
    ((s[0] as u32) << 24) | ((s[1] as u32) << 16) | ((s[2] as u32) << 8) | (s[3] as u32)
}

/// The four big-endian bytes of a signed 32-bit integer
/// (two's complement, same bytes as the unsigned reinterpretation).
pub open spec fn spec_i32_be(v: i32) -> Seq<u8> {
    spec_u32_be(v as u32)
}

/// The signed 32-bit integer read from four big-endian bytes.
pub open spec fn spec_i32_from_be(s: Seq<u8>) -> i32
    recommends
        s.len() == 4,
{
    spec_u32_from_be(s) as i32
}

/// The two little-endian bytes of a 16-bit integer.
pub open spec fn spec_u16_le(v: u16) -> Seq<u8> {
    seq![v as u8, (v >> 8) as u8]
}

/// The 16-bit integer read from two little-endian bytes.
pub open spec fn spec_u16_from_le(s: Seq<u8>) -> u16
    recommends
        s.len() == 2,
{
    ((s[1] as u16) << 8) | (s[0] as u16)
}

/// Reassembling the big-endian bytes of a 16-bit integer gives it back.
pub proof fn lemma_u16_be_round(v: u16)
    ensures
        spec_u16_from_be(spec_u16_be(v)) == v,
{
    let b0 = (v >> 8) as u8;
    let b1 = v as u8;
    assert((((b0 as u16) << 8) | (b1 as u16)) == v) by (bit_vector)
        requires
            b0 == (v >> 8) as u8,
            b1 == v as u8,
    ;
}

/// Re-encoding the 16-bit integer read from two bytes gives the same bytes.
pub proof fn lemma_u16_be_bytes(b0: u8, b1: u8)
    ensures
        spec_u16_be(spec_u16_from_be(seq![b0, b1])) == seq![b0, b1],
{
    let v = spec_u16_from_be(seq![b0, b1]);
    assert((v >> 8) as u8 == b0 && v as u8 == b1) by (bit_vector)
        requires
            v == ((b0 as u16) << 8) | (b1 as u16),
    ;
    assert(spec_u16_be(v) =~= seq![b0, b1]);
}

/// Reassembling the big-endian bytes of a 32-bit integer gives it back.
pub proof fn lemma_u32_be_round(v: u32)
    ensures
        spec_u32_from_be(spec_u32_be(v)) == v,
{
    let b0 = (v >> 24) as u8;
    let b1 = (v >> 16) as u8;
    let b2 = (v >> 8) as u8;
    let b3 = v as u8;
    assert((((b0 as u32) << 24) | ((b1 as u32) << 16) | ((b2 as u32) << 8) | (b3 as u32))
        == v) by (bit_vector)
        requires
            b0 == (v >> 24) as u8,
            b1 == (v >> 16) as u8,
            b2 == (v >> 8) as u8,
            b3 == v as u8,
    ;
}

/// Re-encoding the 32-bit integer read from four bytes gives the same bytes.
pub proof fn lemma_u32_be_bytes(b0: u8, b1: u8, b2: u8, b3: u8)
    ensures
        spec_u32_be(spec_u32_from_be(seq![b0, b1, b2, b3])) == seq![b0, b1, b2, b3],
{
    let v = spec_u32_from_be(seq![b0, b1, b2, b3]);
    assert((v >> 24) as u8 == b0 && (v >> 16) as u8 == b1 && (v >> 8) as u8 == b2 && v as u8
        == b3) by (bit_vector)
        requires
            v == ((b0 as u32) << 24) | ((b1 as u32) << 16) | ((b2 as u32) << 8) | (b3 as u32),
    ;
    assert(spec_u32_be(v) =~= seq![b0, b1, b2, b3]);
}

/// Reassembling the big-endian bytes of a signed 32-bit integer gives it back.
pub proof fn lemma_i32_be_round(v: i32)
    ensures
        spec_i32_from_be(spec_i32_be(v)) == v,
{
    lemma_u32_be_round(v as u32);
    assert((v as u32) as i32 == v) by (bit_vector);
}

/// Re-encoding the signed 32-bit integer read from four bytes gives the same bytes.
pub proof fn lemma_i32_be_bytes(b0: u8, b1: u8, b2: u8, b3: u8)
    ensures
        spec_i32_be(spec_i32_from_be(seq![b0, b1, b2, b3])) == seq![b0, b1, b2, b3],
{
    lemma_u32_be_bytes(b0, b1, b2, b3);
    let u = spec_u32_from_be(seq![b0, b1, b2, b3]);
    assert((u as i32) as u32 == u) by (bit_vector);
}

// ---------------------------------------------------------------------
// Cursor reads. Each consumes exactly its width, or fails without
// consuming anything.
// ---------------------------------------------------------------------
/// Read one byte at the cursor.
pub fn read_u8(bytes: &[u8], pos: usize) -> (r: Result<(u8, usize), Error>)
    requires
        pos <= bytes@.len(),
    ensures
        bytes@.len() - pos < 1 ==> r == Err::<(u8, usize), Error>(Error::IoFailure),
        bytes@.len() - pos >= 1 ==> (r matches Ok(p) && p.0 == bytes@[pos as int] && p.1 == pos
            + 1),
{
    if bytes.len() - pos < 1 {
        Err(Error::IoFailure)
    } else {
        Ok((bytes[pos], pos + 1))
    }
}

/// Read a big-endian 16-bit integer at the cursor.
pub fn read_u16_be(bytes: &[u8], pos: usize) -> (r: Result<(u16, usize), Error>)
    requires
        pos <= bytes@.len(),
    ensures
        bytes@.len() - pos < 2 ==> r == Err::<(u16, usize), Error>(Error::IoFailure),
        bytes@.len() - pos >= 2 ==> (r matches Ok(p) && p.0 == spec_u16_from_be(
            bytes@.subrange(pos as int, pos + 2),
        ) && p.1 == pos + 2),
{
    if bytes.len() - pos < 2 {
        Err(Error::IoFailure)
    } else {
        let v = ((bytes[pos] as u16) << 8) | (bytes[pos + 1] as u16);
        proof {
            let s = bytes@.subrange(pos as int, pos + 2);
            assert(s[0] == bytes@[pos as int] && s[1] == bytes@[pos + 1]);
        }
        Ok((v, pos + 2))
    }
}

/// Read a big-endian 32-bit integer at the cursor.
pub fn read_u32_be(bytes: &[u8], pos: usize) -> (r: Result<(u32, usize), Error>)
    requires
        pos <= bytes@.len(),
    ensures
        bytes@.len() - pos < 4 ==> r == Err::<(u32, usize), Error>(Error::IoFailure),
        bytes@.len() - pos >= 4 ==> (r matches Ok(p) && p.0 == spec_u32_from_be(
            bytes@.subrange(pos as int, pos + 4),
        ) && p.1 == pos + 4),
{
    if bytes.len() - pos < 4 {
        Err(Error::IoFailure)
    } else {
        let v = ((bytes[pos] as u32) << 24) | ((bytes[pos + 1] as u32) << 16) | ((bytes[pos
            + 2] as u32) << 8) | (bytes[pos + 3] as u32);
        proof {
            let s = bytes@.subrange(pos as int, pos + 4);
            assert(s[0] == bytes@[pos as int] && s[1] == bytes@[pos + 1] && s[2] == bytes@[pos + 2]
                && s[3] == bytes@[pos + 3]);
        }
        Ok((v, pos + 4))
    }
}

/// Read a big-endian signed 32-bit integer at the cursor.
pub fn read_i32_be(bytes: &[u8], pos: usize) -> (r: Result<(i32, usize), Error>)
    requires
        pos <= bytes@.len(),
    ensures
        bytes@.len() - pos < 4 ==> r == Err::<(i32, usize), Error>(Error::IoFailure),
        bytes@.len() - pos >= 4 ==> (r matches Ok(p) && p.0 == spec_i32_from_be(
            bytes@.subrange(pos as int, pos + 4),
        ) && p.1 == pos + 4),
{
    match read_u32_be(bytes, pos) {
        Ok((v, end)) => Ok((
            #[verifier::truncate]
            (v as i32),
            end,
        )),
        Err(e) => Err(e),
    }
}

/// Copy `n` bytes out of the input, starting at the cursor.
pub fn read_bytes(bytes: &[u8], pos: usize, n: usize) -> (r: Result<(Vec<u8>, usize), Error>)
    requires
        pos <= bytes@.len(),
    ensures
        bytes@.len() - pos < n ==> r == Err::<(Vec<u8>, usize), Error>(Error::IoFailure),
        bytes@.len() - pos >= n ==> (r matches Ok(p) && p.0@ == bytes@.subrange(
            pos as int,
            pos + n,
        ) && p.1 == pos + n),
{
    if bytes.len() - pos < n {
        Err(Error::IoFailure)
    } else {
        let out = vstd::slice::slice_to_vec(vstd::slice::slice_subrange(bytes, pos, pos + n));
        Ok((out, pos + n))
    }
}

// ---------------------------------------------------------------------
// Length-prefixed UTF-8 strings: a 4-byte big-endian byte count,
// followed by that many UTF-8 bytes.
// ---------------------------------------------------------------------
/// What the front of the remaining input decodes to as a
/// length-prefixed string: the characters and the bytes consumed.
pub open spec fn spec_string_dec(s: Seq<u8>) -> Result<(Seq<char>, int), Error> {
    if s.len() < 4 {
        Err(Error::IoFailure)
    } else {
        let n = spec_u32_from_be(s.take(4)) as int;
        if s.len() - 4 < n {
            Err(Error::IoFailure)
        } else if !vstd::utf8::valid_utf8(s.subrange(4, 4 + n)) {
            Err(Error::InvalidUtf8)
        } else {
            Ok((vstd::utf8::decode_utf8(s.subrange(4, 4 + n)), 4 + n))
        }
    }
}

/// The wire form of a string: its UTF-8 byte count, big-endian, then
/// its UTF-8 bytes.
pub open spec fn spec_string_enc(chars: Seq<char>) -> Seq<u8> {
    spec_u32_be(vstd::utf8::encode_utf8(chars).len() as u32) + vstd::utf8::encode_utf8(chars)
}

/// Whether a string fits its 4-byte length prefix.
pub open spec fn spec_string_enc_ok(chars: Seq<char>) -> bool {
    vstd::utf8::encode_utf8(chars).len() <= u32::MAX
}

/// Relies on `String::from_utf8`: it returns `Ok` exactly when the
/// bytes are valid UTF-8, and then the string's characters are the
/// decoding of those bytes (vstd's model of UTF-8).
#[verifier::external_body]
fn string_from_utf8(bytes: Vec<u8>) -> (r: Option<String>)
    ensures
        r is Some <==> vstd::utf8::valid_utf8(bytes@),
        r matches Some(s) ==> s@ == vstd::utf8::decode_utf8(bytes@),
{
    String::from_utf8(bytes).ok()
}

/// Read a length-prefixed UTF-8 string at the cursor.
pub fn read_string(bytes: &[u8], pos: usize) -> (r: Result<(String, usize), Error>)
    requires
        pos <= bytes@.len(),
    ensures
        ({
            let sp = spec_string_dec(bytes@.skip(pos as int));
            match r {
                Ok(p) => sp matches Ok(q) && p.0@ == q.0 && p.1 == pos + q.1,
                Err(e) => sp matches Err(e2) && e == e2,
            }
        }),
{
    let ghost s = bytes@.skip(pos as int);
    proof {
        assert(s.len() == bytes@.len() - pos);
        if bytes@.len() - pos >= 4 {
            assert(s.take(4) =~= bytes@.subrange(pos as int, pos + 4));
        }
    }
    let (n, pos2) = match read_u32_be(bytes, pos) {
        Ok(p) => p,
        Err(e) => { return Err(e) },
    };
    let (data, pos3) = match read_bytes(bytes, pos2, n as usize) {
        Ok(p) => p,
        Err(e) => { return Err(e) },
    };
    proof {
        assert(data@ =~= s.subrange(4, 4 + n as int));
    }
    match string_from_utf8(data) {
        Some(text) => Ok((text, pos3)),
        None => Err(Error::InvalidUtf8),
    }
}

/// Append the wire form of a string; fails with `LengthOverflow` and
/// leaves the buffer unchanged when its UTF-8 form is longer than a
/// 4-byte count can say.
pub fn write_string(buf: &mut Vec<u8>, s: &str) -> (r: Result<(), Error>)
    ensures
        spec_string_enc_ok(s@) ==> (r is Ok && final(buf)@ == old(buf)@ + spec_string_enc(s@)),
        !spec_string_enc_ok(s@) ==> (r == Err::<(), Error>(Error::LengthOverflow) && final(buf)@
            == old(buf)@),
{
    let b = s.as_bytes();
    if b.len() > u32::MAX as usize {
        return Err(Error::LengthOverflow);
    }
    write_u32_be(buf, b.len() as u32);
    write_bytes(buf, b);
    Ok(())
}

/// Decoding the wire form of any string that fits its length prefix
/// gives back exactly its characters.
pub proof fn lemma_string_round_trip(chars: Seq<char>)
    requires
        spec_string_enc_ok(chars),
    ensures
        spec_string_dec(spec_string_enc(chars)) == Ok::<(Seq<char>, int), Error>(
            (chars, 4 + vstd::utf8::encode_utf8(chars).len() as int),
        ),
{
    broadcast use vstd::utf8::encode_utf8_valid_utf8, vstd::utf8::encode_utf8_decode_utf8;

    let u = vstd::utf8::encode_utf8(chars);
    let e = spec_string_enc(chars);
    assert(e.take(4) =~= spec_u32_be(u.len() as u32));
    lemma_u32_be_round(u.len() as u32);
    assert(e.subrange(4, 4 + u.len() as int) =~= u);
}

// ---------------------------------------------------------------------
// Appending writes. Each appends exactly the bytes of its layout.
// ---------------------------------------------------------------------
/// Append one byte.
pub fn write_u8(buf: &mut Vec<u8>, v: u8)
    ensures
        final(buf)@ == old(buf)@ + seq![v],
{
    buf.push(v);
    assert(buf@ =~= old(buf)@ + seq![v]);
}

/// Append a 16-bit integer in big-endian order.
pub fn write_u16_be(buf: &mut Vec<u8>, v: u16)
    ensures
        final(buf)@ == old(buf)@ + spec_u16_be(v),
{
    buf.push(
        #[verifier::truncate]
        ((v >> 8) as u8),
    );
    buf.push(
        #[verifier::truncate]
        (v as u8),
    );
    assert(buf@ =~= old(buf)@ + spec_u16_be(v));
}

/// Append a 32-bit integer in big-endian order.
pub fn write_u32_be(buf: &mut Vec<u8>, v: u32)
    ensures
        final(buf)@ == old(buf)@ + spec_u32_be(v),
{
    buf.push(
        #[verifier::truncate]
        ((v >> 24) as u8),
    );
    buf.push(
        #[verifier::truncate]
        ((v >> 16) as u8),
    );
    buf.push(
        #[verifier::truncate]
        ((v >> 8) as u8),
    );
    buf.push(
        #[verifier::truncate]
        (v as u8),
    );
    assert(buf@ =~= old(buf)@ + spec_u32_be(v));
}

/// Append a signed 32-bit integer in big-endian order.
pub fn write_i32_be(buf: &mut Vec<u8>, v: i32)
    ensures
        final(buf)@ == old(buf)@ + spec_i32_be(v),
{
    write_u32_be(
        buf,
        #[verifier::truncate]
        (v as u32),
    );
}

/// Append a run of bytes unchanged.
pub fn write_bytes(buf: &mut Vec<u8>, data: &[u8])
    ensures
        final(buf)@ == old(buf)@ + data@,
{
    buf.extend_from_slice(data);
}

// ---------------------------------------------------------------------
// The codec trait family for fixed-size wire primitives.
// ---------------------------------------------------------------------
/// A wire layout with a fixed encoded byte length.
pub trait Length {
    /// The declared encoded length, in bytes.
    spec fn spec_len() -> int;

    /// The declared encoded length, as an executable value.
    fn length() -> (n: usize)
        ensures
            n as int == Self::spec_len(),
    ;
}

/// A fixed-size value with a total byte encoding.
pub trait Encode: Length + Sized {
    /// The exact bytes this value encodes to.
    spec fn spec_enc(&self) -> Seq<u8>;

    /// Append the encoding of this value to `buf`.
    fn encode(&self) -> (r: Vec<u8>)
        ensures
            r@ == self.spec_enc(),
    ;
}

/// A fixed-size value decoded from the front of a byte suffix.
///
/// `spec_dec` is the ground truth of the wire format: it reads the first
/// `spec_len` bytes of the remaining input, and says which error comes
/// when it cannot (always `IoFailure` when fewer bytes remain).
pub trait Decode: Length + Sized {
    /// What the first bytes of the remaining input `s` decode to.
    spec fn spec_dec(s: Seq<u8>) -> Result<Self, Error>;

    /// Decode at the cursor, consuming exactly `spec_len` bytes on success.
    fn decode(bytes: &[u8], pos: usize) -> (r: Result<(Self, usize), Error>)
        requires
            pos <= bytes@.len(),
        ensures
            ({
                let sp = Self::spec_dec(bytes@.skip(pos as int));
                match r {
                    Ok(p) => sp matches Ok(v) && p.0 == v && p.1 as int == pos as int
                        + Self::spec_len() && p.1 <= bytes@.len(),
                    Err(e) => sp matches Err(e2) && e == e2,
                }
            }),
    ;
}

/// A variable-size value decoded from the front of a byte suffix.
///
/// The trait fixes only the cursor discipline; each implementation
/// states its exact wire layout in its own contract.
pub trait DecodeFrom: Sized {
    /// Decode at the cursor, yielding the value and the cursor after
    /// it.
    fn decode_from(bytes: &[u8], pos: usize) -> (r: Result<(Self, usize), Error>)
        requires
            pos <= bytes@.len(),
    ;
}

/// A variable-size value encoded by appending to a byte vector.
///
/// Each implementation states its exact wire layout, and when it
/// fails, in its own contract.
pub trait EncodeTo: Sized {
    /// Append this value's wire form to `buf`.
    fn encode_to(&self, buf: &mut Vec<u8>) -> Result<(), Error>;
}

impl DecodeFrom for String {
    /// A length-prefixed UTF-8 string, as `spec_string_dec` lays out.
    fn decode_from(bytes: &[u8], pos: usize) -> (r: Result<(String, usize), Error>)
        ensures
            ({
                let sp = spec_string_dec(bytes@.skip(pos as int));
                match r {
                    Ok(p) => sp matches Ok(q) && p.0@ == q.0 && p.1 == pos + q.1,
                    Err(e) => sp matches Err(e2) && e == e2,
                }
            }),
    {
        read_string(bytes, pos)
    }
}

impl EncodeTo for String {
    /// A length-prefixed UTF-8 string; fails with `LengthOverflow`,
    /// leaving the buffer unchanged, when the string is longer than
    /// its 4-byte count can say.
    fn encode_to(&self, buf: &mut Vec<u8>) -> (r: Result<(), Error>)
        ensures
            spec_string_enc_ok(self@) ==> (r is Ok && final(buf)@ == old(buf)@ + spec_string_enc(
                self@,
            )),
            !spec_string_enc_ok(self@) ==> (r == Err::<(), Error>(Error::LengthOverflow)
                && final(buf)@ == old(buf)@),
    {
        write_string(buf, self.as_str())
    }
}

impl Length for u8 {
    open spec fn spec_len() -> int {
        1
    }

    fn length() -> usize {
        1
    }
}

impl Encode for u8 {
    open spec fn spec_enc(&self) -> Seq<u8> {
        seq![*self]
    }

    fn encode(&self) -> Vec<u8> {
        let mut out: Vec<u8> = Vec::new();
        write_u8(&mut out, *self);
        out
    }
}

impl Decode for u8 {
    open spec fn spec_dec(s: Seq<u8>) -> Result<u8, Error> {
        if s.len() < 1 {
            Err(Error::IoFailure)
        } else {
            Ok(s[0])
        }
    }

    fn decode(bytes: &[u8], pos: usize) -> Result<(u8, usize), Error> {
        let r = read_u8(bytes, pos);
        proof {
            let s = bytes@.skip(pos as int);
            assert(s.len() == bytes@.len() - pos);
            if bytes@.len() - pos >= 1 {
                assert(s[0] == bytes@[pos as int]);
            }
        }
        r
    }
}

impl Length for u16 {
    open spec fn spec_len() -> int {
        2
    }

    fn length() -> usize {
        2
    }
}

impl Encode for u16 {
    open spec fn spec_enc(&self) -> Seq<u8> {
        spec_u16_be(*self)
    }

    fn encode(&self) -> Vec<u8> {
        let mut out: Vec<u8> = Vec::new();
        write_u16_be(&mut out, *self);
        out
    }
}

impl Decode for u16 {
    open spec fn spec_dec(s: Seq<u8>) -> Result<u16, Error> {
        if s.len() < 2 {
            Err(Error::IoFailure)
        } else {
            Ok(spec_u16_from_be(s.take(2)))
        }
    }

    fn decode(bytes: &[u8], pos: usize) -> Result<(u16, usize), Error> {
        let r = read_u16_be(bytes, pos);
        proof {
            let s = bytes@.skip(pos as int);
            assert(s.len() == bytes@.len() - pos);
            if bytes@.len() - pos >= 2 {
                assert(s.take(2) =~= bytes@.subrange(pos as int, pos + 2));
            }
        }
        r
    }
}

impl Length for u32 {
    open spec fn spec_len() -> int {
        4
    }

    fn length() -> usize {
        4
    }
}

impl Encode for u32 {
    open spec fn spec_enc(&self) -> Seq<u8> {
        spec_u32_be(*self)
    }

    fn encode(&self) -> Vec<u8> {
        let mut out: Vec<u8> = Vec::new();
        write_u32_be(&mut out, *self);
        out
    }
}

impl Decode for u32 {
    open spec fn spec_dec(s: Seq<u8>) -> Result<u32, Error> {
        if s.len() < 4 {
            Err(Error::IoFailure)
        } else {
            Ok(spec_u32_from_be(s.take(4)))
        }
    }

    fn decode(bytes: &[u8], pos: usize) -> Result<(u32, usize), Error> {
        let r = read_u32_be(bytes, pos);
        proof {
            let s = bytes@.skip(pos as int);
            assert(s.len() == bytes@.len() - pos);
            if bytes@.len() - pos >= 4 {
                assert(s.take(4) =~= bytes@.subrange(pos as int, pos + 4));
            }
        }
        r
    }
}

impl Length for i32 {
    open spec fn spec_len() -> int {
        4
    }

    fn length() -> usize {
        4
    }
}

impl Encode for i32 {
    open spec fn spec_enc(&self) -> Seq<u8> {
        spec_i32_be(*self)
    }

    fn encode(&self) -> Vec<u8> {
        let mut out: Vec<u8> = Vec::new();
        write_i32_be(&mut out, *self);
        out
    }
}

impl Decode for i32 {
    open spec fn spec_dec(s: Seq<u8>) -> Result<i32, Error> {
        if s.len() < 4 {
            Err(Error::IoFailure)
        } else {
            Ok(spec_i32_from_be(s.take(4)))
        }
    }

    fn decode(bytes: &[u8], pos: usize) -> Result<(i32, usize), Error> {
        let r = read_i32_be(bytes, pos);
        proof {
            let s = bytes@.skip(pos as int);
            assert(s.len() == bytes@.len() - pos);
            if bytes@.len() - pos >= 4 {
                assert(s.take(4) =~= bytes@.subrange(pos as int, pos + 4));
            }
        }
        r
    }
}

// ---------------------------------------------------------------------
// Endian-tagged wrappers.
// ---------------------------------------------------------------------
/// Tags an integer as encoded in big-endian byte order.
pub struct BigEndian<T> {
    pub inner: T,
}

impl<T> BigEndian<T> {
    /// Wrap a value for big-endian encoding.
    pub fn new(inner: T) -> (r: Self)
        ensures
            r.inner == inner,
    {
        BigEndian { inner }
    }
}

/// Tags an integer as encoded in little-endian byte order.
pub struct LittleEndian<T> {
    pub inner: T,
}

impl<T> LittleEndian<T> {
    /// Wrap a value for little-endian encoding.
    pub fn new(inner: T) -> (r: Self)
        ensures
            r.inner == inner,
    {
        LittleEndian { inner }
    }
}

impl<T: Length> Length for BigEndian<T> {
    open spec fn spec_len() -> int {
        T::spec_len()
    }

    fn length() -> usize {
        T::length()
    }
}

impl<T: Length> Length for LittleEndian<T> {
    open spec fn spec_len() -> int {
        T::spec_len()
    }

    fn length() -> usize {
        T::length()
    }
}

impl Encode for BigEndian<u16> {
    open spec fn spec_enc(&self) -> Seq<u8> {
        spec_u16_be(self.inner)
    }

    fn encode(&self) -> Vec<u8> {
        let mut out: Vec<u8> = Vec::new();
        write_u16_be(&mut out, self.inner);
        out
    }
}

impl Decode for BigEndian<u16> {
    open spec fn spec_dec(s: Seq<u8>) -> Result<Self, Error> {
        if s.len() < 2 {
            Err(Error::IoFailure)
        } else {
            Ok(BigEndian { inner: spec_u16_from_be(s.take(2)) })
        }
    }

    fn decode(bytes: &[u8], pos: usize) -> Result<(Self, usize), Error> {
        match u16::decode(bytes, pos) {
            Ok((v, end)) => Ok((BigEndian { inner: v }, end)),
            Err(e) => Err(e),
        }
    }
}

impl Encode for LittleEndian<u16> {
    open spec fn spec_enc(&self) -> Seq<u8> {
        spec_u16_le(self.inner)
    }

    fn encode(&self) -> Vec<u8> {
        let mut out: Vec<u8> = Vec::new();
        let v = self.inner;
        out.push(
            #[verifier::truncate]
            (v as u8),
        );
        out.push(
            #[verifier::truncate]
            ((v >> 8) as u8),
        );
        proof {
            assert(out@ =~= spec_u16_le(v));
        }
        out
    }
}

impl Decode for LittleEndian<u16> {
    open spec fn spec_dec(s: Seq<u8>) -> Result<Self, Error> {
        if s.len() < 2 {
            Err(Error::IoFailure)
        } else {
            Ok(LittleEndian { inner: spec_u16_from_le(s.take(2)) })
        }
    }

    fn decode(bytes: &[u8], pos: usize) -> Result<(Self, usize), Error> {
        if bytes.len() - pos < 2 {
            Err(Error::IoFailure)
        } else {
            let v = ((bytes[pos + 1] as u16) << 8) | (bytes[pos] as u16);
            proof {
                let s = bytes@.skip(pos as int).take(2);
                assert(s[0] == bytes@[pos as int] && s[1] == bytes@[pos + 1]);
            }
            Ok((LittleEndian { inner: v }, pos + 2))
        }
    }
}

} // verus!
