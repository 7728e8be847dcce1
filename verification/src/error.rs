//! Error kinds shared by every codec and handshake operation.
use vstd::prelude::*;

verus! {

/// Everything that can go wrong while encoding, decoding, or negotiating.
///
/// `IoFailure` stands for a premature end of input: fewer bytes were
/// available than the structure's wire layout declares.
#[derive(Clone, Copy, Debug, PartialEq, Eq, Structural)]
pub enum Error {
    /// The input ended before the declared number of bytes was available.
    IoFailure,
    /// A 12-byte version string matched none of the supported releases.
    UnsupportedVersion,
    /// A reply carried a code outside the values the protocol defines.
    BadResponse,
    /// A length-prefixed string did not hold valid UTF-8.
    InvalidUtf8,
    /// The offered and supported security-type lists do not intersect.
    IncompatibleSecurity,
    /// The peer reported a non-Ok security result.
    HandshakeFailed,
    /// A rectangle carried an encoding whose payload this build cannot frame.
    UnsupportedEncoding,
    /// A collection is too long for the wire-width of its count field.
    LengthOverflow,
}

} // verus!
