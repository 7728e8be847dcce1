//! A verified codec and handshake engine for the Remote Framebuffer
//! (RFB) wire protocol used by VNC-compatible clients and servers.
//!
//! The crate is pure: every decoder reads from an in-memory byte slice
//! and every encoder appends to a byte vector, so the whole protocol
//! layer is verified independently of any transport.
use vstd::prelude::*;

pub mod client;
pub mod encodings;
pub mod error;
pub mod handshake;
pub mod io;
pub mod messages;

pub use error::Error;

use crate::io::Decode;
use crate::io::Encode;
use crate::io::Length;

verus! {

/// A supported protocol release, negotiated once per session.
#[derive(Clone, Copy, Debug, PartialEq, Eq, Structural)]
pub enum Version {
    Rfb33,
    Rfb37,
    Rfb38,
}

impl Version {
    /// The ASCII digit that distinguishes the three version strings.
    pub open spec fn spec_minor_digit(self) -> u8 {
        match self {
            Version::Rfb33 => 51,
            Version::Rfb37 => 55,
            Version::Rfb38 => 56,
        }
    }

    /// Positions the three releases on the protocol's timeline.
    pub open spec fn spec_rank(self) -> int {
        match self {
            Version::Rfb33 => 0,
            Version::Rfb37 => 1,
            Version::Rfb38 => 2,
        }
    }
}

impl Length for Version {
    open spec fn spec_len() -> int {
        12
    }

    fn length() -> usize {
        12
    }
}

impl Encode for Version {
    /// The fixed 12-byte ASCII form `RFB 003.00X\n`.
    open spec fn spec_enc(&self) -> Seq<u8> {
        seq![82u8, 70u8, 66u8, 32u8, 48u8, 48u8, 51u8, 46u8, 48u8, 48u8, self.spec_minor_digit(), 10u8]
    }

    fn encode(&self) -> Vec<u8> {
        let mut out: Vec<u8> = Vec::new();
        out.push(82);
        out.push(70);
        out.push(66);
        out.push(32);
        out.push(48);
        out.push(48);
        out.push(51);
        out.push(46);
        out.push(48);
        out.push(48);
        out.push(
            match self {
                Version::Rfb33 => 51,
                Version::Rfb37 => 55,
                Version::Rfb38 => 56,
            },
        );
        out.push(10);
        proof {
            assert(out@ =~= self.spec_enc());
        }
        out
    }
}

impl Decode for Version {
    open spec fn spec_dec(s: Seq<u8>) -> Result<Version, Error> {
        if s.len() < 12 {
            Err(Error::IoFailure)
        } else if s.take(12) == Version::Rfb33.spec_enc() {
            Ok(Version::Rfb33)
        } else if s.take(12) == Version::Rfb37.spec_enc() {
            Ok(Version::Rfb37)
        } else if s.take(12) == Version::Rfb38.spec_enc() {
            Ok(Version::Rfb38)
        } else {
            Err(Error::UnsupportedVersion)
        }
    }

    fn decode(bytes: &[u8], pos: usize) -> (r: Result<(Version, usize), Error>) {
        if bytes.len() - pos < 12 {
            return Err(Error::IoFailure);
        }
        let prefix_ok = bytes[pos] == 82 && bytes[pos + 1] == 70 && bytes[pos + 2] == 66
            && bytes[pos + 3] == 32 && bytes[pos + 4] == 48 && bytes[pos + 5] == 48 && bytes[pos
            + 6] == 51 && bytes[pos + 7] == 46 && bytes[pos + 8] == 48 && bytes[pos + 9] == 48
            && bytes[pos + 11] == 10;
        let minor = bytes[pos + 10];
        proof {
            let s = bytes@.skip(pos as int).take(12);
            assert(forall|i: int| 0 <= i < 12 ==> s[i] == bytes@[pos + i]);
            lemma_version_fixed_form(s, Version::Rfb33);
            lemma_version_fixed_form(s, Version::Rfb37);
            lemma_version_fixed_form(s, Version::Rfb38);
        }
        if prefix_ok && minor == 51 {
            Ok((Version::Rfb33, pos + 12))
        } else if prefix_ok && minor == 55 {
            Ok((Version::Rfb37, pos + 12))
        } else if prefix_ok && minor == 56 {
            Ok((Version::Rfb38, pos + 12))
        } else {
            Err(Error::UnsupportedVersion)
        }
    }
}

/// A 12-byte run is the wire form of a release exactly when each of its
/// bytes is the corresponding ASCII character of that release's string.
proof fn lemma_version_fixed_form(s: Seq<u8>, v: Version)
    requires
        s.len() == 12,
    ensures
        s == v.spec_enc() <==> (s[0] == 82 && s[1] == 70 && s[2] == 66 && s[3] == 32 && s[4] == 48
            && s[5] == 48 && s[6] == 51 && s[7] == 46 && s[8] == 48 && s[9] == 48 && s[10]
            == v.spec_minor_digit() && s[11] == 10),
{
    if s[0] == 82 && s[1] == 70 && s[2] == 66 && s[3] == 32 && s[4] == 48 && s[5] == 48 && s[6]
        == 51 && s[7] == 46 && s[8] == 48 && s[9] == 48 && s[10] == v.spec_minor_digit() && s[11]
        == 10 {
        assert(s =~= v.spec_enc());
    }
}

/// Decoding the 12-byte wire form of any release yields that release.
pub proof fn lemma_version_round_trip(v: Version)
    ensures
        Version::spec_dec(v.spec_enc()) == Ok::<Version, Error>(v),
{
    assert(v.spec_enc().take(12) =~= v.spec_enc());
    assert(Version::Rfb33.spec_enc()[10] == 51);
    assert(Version::Rfb37.spec_enc()[10] == 55);
    assert(Version::Rfb38.spec_enc()[10] == 56);
}

} // verus!
