//! The one-shot session bootstrap records.
use vstd::prelude::*;

use crate::error::Error;
use crate::io::read_string;
use crate::io::read_u8;
use crate::io::spec_string_dec;
use crate::io::spec_string_enc;
use crate::io::spec_string_enc_ok;
use crate::io::spec_u16_be;
use crate::io::spec_u16_from_be;
use crate::io::write_bytes;
use crate::io::write_string;
use crate::io::write_u16_be;
use crate::io::Decode;
use crate::io::DecodeFrom;
use crate::io::EncodeTo;
use crate::io::Encode;
use crate::io::Length;
use crate::messages::pixel_format::PixelFormat;

verus! {

/// The client's opening record: whether the session is to be shared.
#[derive(Clone, Copy, Debug, PartialEq, Eq, Structural)]
pub struct ClientInit {
    pub shared: bool,
}

impl Length for ClientInit {
    open spec fn spec_len() -> int {
        1
    }

    fn length() -> usize {
        1
    }
}

impl Encode for ClientInit {
    open spec fn spec_enc(&self) -> Seq<u8> {
        seq![
            if self.shared {
                1u8
            } else {
                0u8
            },
        ]
    }

    fn encode(&self) -> Vec<u8> {
        let mut out: Vec<u8> = Vec::new();
        out.push(if self.shared { 1 } else { 0 });
        proof {
            assert(out@ =~= self.spec_enc());
        }
        out
    }
}

impl Decode for ClientInit {
    /// Any non-zero byte asks for a shared session.
    open spec fn spec_dec(s: Seq<u8>) -> Result<ClientInit, Error> {
        if s.len() < 1 {
            Err(Error::IoFailure)
        } else {
            Ok(ClientInit { shared: s[0] != 0 })
        }
    }

    fn decode(bytes: &[u8], pos: usize) -> (r: Result<(ClientInit, usize), Error>) {
        proof {
            let s = bytes@.skip(pos as int);
            assert(s.len() == bytes@.len() - pos);
            if s.len() >= 1 {
                assert(s[0] == bytes@[pos as int]);
            }
        }
        match read_u8(bytes, pos) {
            Ok((b, end)) => Ok((ClientInit { shared: b != 0 }, end)),
            Err(e) => Err(e),
        }
    }
}

/// Decoding the 1-byte wire form of a client init gives it back.
pub proof fn lemma_client_init_round_trip(x: ClientInit)
    ensures
        ClientInit::spec_dec(x.spec_enc()) == Ok::<ClientInit, Error>(x),
{
}

/// The server's opening record: framebuffer size, pixel format, and
/// the desktop's name.
#[derive(Clone, Debug, PartialEq)]
pub struct ServerInit {
    pub framebuffer_width: u16,
    pub framebuffer_height: u16,
    pub pixel_format: PixelFormat,
    pub name: String,
}

/// What the front of the remaining input decodes to as a server init:
/// width, height, pixel format, the desktop name's characters, and the
/// bytes consumed.
pub open spec fn spec_server_init_dec(s: Seq<u8>) -> Result<
    (u16, u16, PixelFormat, Seq<char>, int),
    Error,
> {
    if s.len() < 4 {
        Err(Error::IoFailure)
    } else {
        let w = spec_u16_from_be(s.subrange(0, 2));
        let h = spec_u16_from_be(s.subrange(2, 4));
        match PixelFormat::spec_dec(s.skip(4)) {
            Err(e) => Err(e),
            Ok(pf) => match spec_string_dec(s.skip(20)) {
                Err(e) => Err(e),
                Ok(q) => Ok((w, h, pf, q.0, 20 + q.1)),
            },
        }
    }
}

impl ServerInit {
    /// The wire form: width and height big-endian, the 16-byte pixel
    /// format, then the length-prefixed desktop name.
    pub open spec fn spec_enc(self) -> Seq<u8> {
        spec_u16_be(self.framebuffer_width) + spec_u16_be(self.framebuffer_height)
            + self.pixel_format.spec_enc() + spec_string_enc(self.name@)
    }

    /// Whether the desktop name fits its 4-byte length prefix.
    pub open spec fn enc_ok(self) -> bool {
        spec_string_enc_ok(self.name@)
    }
}

impl DecodeFrom for ServerInit {
    /// Decode a server init at the cursor.
    fn decode_from(bytes: &[u8], pos: usize) -> (r: Result<(ServerInit, usize), Error>)
        ensures
            ({
                let sp = spec_server_init_dec(bytes@.skip(pos as int));
                match r {
                    Ok(p) => sp matches Ok(q) && p.0.framebuffer_width == q.0
                        && p.0.framebuffer_height == q.1 && p.0.pixel_format == q.2 && p.0.name@
                        == q.3 && p.1 == pos + q.4,
                    Err(e) => sp matches Err(e2) && e == e2,
                }
            }),
    {
        let ghost s = bytes@.skip(pos as int);
        proof {
            assert(s.len() == bytes@.len() - pos);
        }
        if bytes.len() - pos < 4 {
            return Err(Error::IoFailure);
        }
        let (w, p1) = match u16::decode(bytes, pos) {
            Ok(p) => p,
            Err(e) => { return Err(e) },
        };
        let (h, p2) = match u16::decode(bytes, p1) {
            Ok(p) => p,
            Err(e) => { return Err(e) },
        };
        proof {
            assert(s.subrange(0, 2) =~= bytes@.skip(pos as int).take(2));
            assert(s.subrange(2, 4) =~= bytes@.skip(p1 as int).take(2));
            assert(bytes@.skip(p2 as int) =~= s.skip(4));
        }
        let (pf, p3) = match PixelFormat::decode(bytes, p2) {
            Ok(p) => p,
            Err(e) => { return Err(e) },
        };
        proof {
            assert(bytes@.skip(p3 as int) =~= s.skip(20));
        }
        let (name, p4) = match read_string(bytes, p3) {
            Ok(p) => p,
            Err(e) => { return Err(e) },
        };
        Ok(
            (
                ServerInit {
                    framebuffer_width: w,
                    framebuffer_height: h,
                    pixel_format: pf,
                    name,
                },
                p4,
            ),
        )
    }
}

impl EncodeTo for ServerInit {
    /// Append the wire form of this record; fails with
    /// `LengthOverflow`, leaving the buffer unchanged, when the name
    /// is longer than its 4-byte count can say.
    fn encode_to(&self, buf: &mut Vec<u8>) -> (r: Result<(), Error>)
        ensures
            self.enc_ok() ==> (r is Ok && final(buf)@ == old(buf)@ + self.spec_enc()),
            !self.enc_ok() ==> (r == Err::<(), Error>(Error::LengthOverflow) && final(buf)@ == old(
                buf,
            )@),
    {
        let name_bytes = self.name.as_str().as_bytes();
        if name_bytes.len() > u32::MAX as usize {
            return Err(Error::LengthOverflow);
        }
        write_u16_be(buf, self.framebuffer_width);
        write_u16_be(buf, self.framebuffer_height);
        let pf_bytes = self.pixel_format.encode();
        write_bytes(buf, pf_bytes.as_slice());
        let r = write_string(buf, self.name.as_str());
        proof {
            assert(r is Ok);
            assert(buf@ =~= old(buf)@ + self.spec_enc());
        }
        Ok(())
    }
}

/// Decoding the wire form of any server init whose name fits its
/// length prefix gives back exactly its fields.
pub proof fn lemma_server_init_round_trip(x: ServerInit)
    requires
        x.enc_ok(),
    ensures
        spec_server_init_dec(x.spec_enc()) matches Ok(q) && q.0 == x.framebuffer_width && q.1
            == x.framebuffer_height && q.2 == x.pixel_format && q.3 == x.name@ && q.4 == 20
            + spec_string_enc(x.name@).len(),
{
    let e = x.spec_enc();
    assert(e.subrange(0, 2) =~= spec_u16_be(x.framebuffer_width));
    assert(e.subrange(2, 4) =~= spec_u16_be(x.framebuffer_height));
    crate::io::lemma_u16_be_round(x.framebuffer_width);
    crate::io::lemma_u16_be_round(x.framebuffer_height);
    assert(e.skip(4).take(16) =~= x.pixel_format.spec_enc());
    crate::messages::pixel_format::lemma_pixel_format_round_trip(x.pixel_format);
    lemma_pixel_format_dec_prefix(e.skip(4), x.pixel_format.spec_enc());
    assert(e.skip(20) =~= spec_string_enc(x.name@));
    crate::io::lemma_string_round_trip(x.name@);
}

/// A pixel format decodes from any input whose first 16 bytes are its
/// encoding, whatever follows.
proof fn lemma_pixel_format_dec_prefix(s: Seq<u8>, prefix: Seq<u8>)
    requires
        prefix.len() == 16,
        s.len() >= 16,
        s.take(16) == prefix,
    ensures
        PixelFormat::spec_dec(s) == PixelFormat::spec_dec(prefix),
{
    assert(forall|i: int| 0 <= i < 16 ==> s[i] == prefix[i]);
    assert(s.subrange(4, 6) =~= prefix.subrange(4, 6));
    assert(s.subrange(6, 8) =~= prefix.subrange(6, 8));
    assert(s.subrange(8, 10) =~= prefix.subrange(8, 10));
}

} // verus!
