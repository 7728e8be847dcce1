//! The client's request for a framebuffer region.
use vstd::prelude::*;

use crate::error::Error;
use crate::io::read_u16_be;
use crate::io::spec_u16_be;
use crate::io::spec_u16_from_be;
use crate::io::write_u16_be;
use crate::io::write_u8;
use crate::io::Decode;
use crate::io::Encode;
use crate::io::Length;

verus! {

/// Asks the server for an update of a rectangular region; incremental
/// requests accept only what changed since the last update.
#[derive(Clone, Copy, Debug, PartialEq, Eq, Structural)]
pub struct FramebufferUpdateRequest {
    pub incremental: bool,
    pub x: u16,
    pub y: u16,
    pub width: u16,
    pub height: u16,
}

impl Length for FramebufferUpdateRequest {
    open spec fn spec_len() -> int {
        10
    }

    fn length() -> usize {
        10
    }
}

impl Encode for FramebufferUpdateRequest {
    /// The 10-byte layout: the tag, the incremental flag, then the
    /// region's x, y, width and height big-endian.
    open spec fn spec_enc(&self) -> Seq<u8> {
        seq![
            3u8,
            if self.incremental {
                1u8
            } else {
                0u8
            },
        ] + spec_u16_be(self.x) + spec_u16_be(self.y) + spec_u16_be(self.width) + spec_u16_be(
            self.height,
        )
    }

    fn encode(&self) -> Vec<u8> {
        let mut out: Vec<u8> = Vec::new();
        write_u8(&mut out, 3);
        write_u8(&mut out, if self.incremental { 1 } else { 0 });
        write_u16_be(&mut out, self.x);
        write_u16_be(&mut out, self.y);
        write_u16_be(&mut out, self.width);
        write_u16_be(&mut out, self.height);
        proof {
            assert(out@ =~= self.spec_enc());
        }
        out
    }
}

impl Decode for FramebufferUpdateRequest {
    /// The tag byte is ignored on decode.
    open spec fn spec_dec(s: Seq<u8>) -> Result<FramebufferUpdateRequest, Error> {
        if s.len() < 10 {
            Err(Error::IoFailure)
        } else {
            Ok(
                FramebufferUpdateRequest {
                    incremental: s[1] != 0,
                    x: spec_u16_from_be(s.subrange(2, 4)),
                    y: spec_u16_from_be(s.subrange(4, 6)),
                    width: spec_u16_from_be(s.subrange(6, 8)),
                    height: spec_u16_from_be(s.subrange(8, 10)),
                },
            )
        }
    }

    fn decode(bytes: &[u8], pos: usize) -> (r: Result<(FramebufferUpdateRequest, usize), Error>) {
        if bytes.len() - pos < 10 {
            return Err(Error::IoFailure);
        }
        let incremental = bytes[pos + 1] != 0;
        let x = match read_u16_be(bytes, pos + 2) {
            Ok(p) => p.0,
            Err(_) => { return Err(Error::IoFailure) },
        };
        let y = match read_u16_be(bytes, pos + 4) {
            Ok(p) => p.0,
            Err(_) => { return Err(Error::IoFailure) },
        };
        let width = match read_u16_be(bytes, pos + 6) {
            Ok(p) => p.0,
            Err(_) => { return Err(Error::IoFailure) },
        };
        let height = match read_u16_be(bytes, pos + 8) {
            Ok(p) => p.0,
            Err(_) => { return Err(Error::IoFailure) },
        };
        proof {
            let s = bytes@.skip(pos as int);
            assert(s.len() == bytes@.len() - pos);
            assert(s[1] == bytes@[pos + 1]);
            assert(s.subrange(2, 4) =~= bytes@.subrange(pos + 2, pos + 4));
            assert(s.subrange(4, 6) =~= bytes@.subrange(pos + 4, pos + 6));
            assert(s.subrange(6, 8) =~= bytes@.subrange(pos + 6, pos + 8));
            assert(s.subrange(8, 10) =~= bytes@.subrange(pos + 8, pos + 10));
        }
        Ok((FramebufferUpdateRequest { incremental, x, y, width, height }, pos + 10))
    }
}

/// Decoding the 10-byte wire form of any update request gives it back.
pub proof fn lemma_framebuffer_update_request_round_trip(x: FramebufferUpdateRequest)
    ensures
        FramebufferUpdateRequest::spec_dec(x.spec_enc()) == Ok::<FramebufferUpdateRequest, Error>(
            x,
        ),
{
    let e = x.spec_enc();
    assert(e.subrange(2, 4) =~= spec_u16_be(x.x));
    assert(e.subrange(4, 6) =~= spec_u16_be(x.y));
    assert(e.subrange(6, 8) =~= spec_u16_be(x.width));
    assert(e.subrange(8, 10) =~= spec_u16_be(x.height));
    crate::io::lemma_u16_be_round(x.x);
    crate::io::lemma_u16_be_round(x.y);
    crate::io::lemma_u16_be_round(x.width);
    crate::io::lemma_u16_be_round(x.height);
}

} // verus!
