//! The client's view of a ready session.
use vstd::prelude::*;

pub mod messages;

use crate::messages::pixel_format::PixelFormat;
use crate::Version;

verus! {

/// A session the handshake brought to readiness: the negotiated
/// protocol release and the server's pixel format. Both are replaced
/// wholesale on renegotiation, never mutated in place.
#[derive(Clone, Copy, Debug, PartialEq, Eq, Structural)]
pub struct Client {
    pub pixel_format: PixelFormat,
    pub version: Version,
}

impl Client {
    /// A ready session holding what the handshake negotiated.
    pub fn new(version: Version, pixel_format: PixelFormat) -> (r: Client)
        ensures
            r.version == version,
            r.pixel_format == pixel_format,
    {
        Client { pixel_format, version }
    }

    /// Replace the session's pixel format after a renegotiation.
    pub fn set_pixel_format(&mut self, pixel_format: PixelFormat)
        ensures
            final(self).pixel_format == pixel_format,
            final(self).version == old(self).version,
    {
        self.pixel_format = pixel_format;
    }
}

} // verus!
