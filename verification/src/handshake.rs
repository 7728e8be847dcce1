//! The handshake state machine: version, security, and init
//! negotiation as pure transitions, so a caller can drive them over
//! any transport.
//!
//! States are strictly ordered with no backward transitions:
//! `Connected`, `VersionAgreed`, `SecurityAgreed`, `Authenticated`,
//! `Initialized`, `Ready`; every failure lands in the terminal
//! `Rejected` state carrying its cause.
use vstd::prelude::*;

use crate::client::Client;
use crate::error::Error;
use crate::io::Decode;
use crate::io::Encode;
use crate::messages::init::ServerInit;
use crate::messages::security::SecurityResult;
use crate::messages::security::SecurityType;
use crate::Version;

verus! {

/// Where a handshake stands.
#[derive(Clone, Copy, Debug, PartialEq, Eq, Structural)]
pub enum HandshakeState {
    Connected,
    VersionAgreed,
    SecurityAgreed,
    Authenticated,
    Initialized,
    Ready,
    Rejected(Error),
}

impl HandshakeState {
    /// The states' strict order; `Rejected` is terminal and outside it.
    pub open spec fn rank(self) -> int {
        match self {
            HandshakeState::Connected => 0,
            HandshakeState::VersionAgreed => 1,
            HandshakeState::SecurityAgreed => 2,
            HandshakeState::Authenticated => 3,
            HandshakeState::Initialized => 4,
            HandshakeState::Ready => 5,
            HandshakeState::Rejected(_) => 6,
        }
    }
}

/// The lower-numbered of two protocol releases.
pub open spec fn spec_min_version(a: Version, b: Version) -> Version {
    if a.spec_rank() <= b.spec_rank() {
        a
    } else {
        b
    }
}

/// The first security type of `offered` that `supported` also holds,
/// in offer order.
pub open spec fn spec_choose_security(
    offered: Seq<SecurityType>,
    supported: Seq<SecurityType>,
) -> Option<SecurityType>
    decreases offered.len(),
{
    if offered.len() == 0 {
        Option::None
    } else if supported.contains(offered[0]) {
        Option::Some(offered[0])
    } else {
        spec_choose_security(offered.skip(1), supported)
    }
}

/// A client handshake in progress. Each step consumes one record the
/// transport read, and says exactly which state it leads to.
pub struct Handshake {
    /// Where the handshake stands.
    pub state: HandshakeState,
    /// The negotiated release, from `VersionAgreed` on.
    pub version: Option<Version>,
    /// The chosen security type, from `SecurityAgreed` on.
    pub security: Option<SecurityType>,
    /// The security types this side can complete.
    pub supported: Vec<SecurityType>,
}

impl Handshake {
    /// A handshake that has just connected, with the security types
    /// this side supports.
    pub fn new(supported: Vec<SecurityType>) -> (r: Handshake)
        ensures
            r.state == HandshakeState::Connected,
            r.version is None,
            r.security is None,
            r.supported@ == supported@,
    {
        Handshake { state: HandshakeState::Connected, version: Option::None, security: Option::None, supported }
    }

    /// Take the peer's 12-byte version string and agree on the
    /// lower-numbered of its release and `own`; the agreed release is
    /// returned so the caller can echo it. An unrecognized string
    /// rejects the handshake with `UnsupportedVersion` (or
    /// `IoFailure` when fewer than 12 bytes came).
    pub fn on_peer_version(&mut self, own: Version, peer: &[u8]) -> (r: Result<Version, Error>)
        requires
            old(self).state == HandshakeState::Connected,
        ensures
            ({
                let sp = Version::spec_dec(peer@);
                match r {
                    Ok(v) => sp matches Ok(pv) && v == spec_min_version(own, pv)
                        && final(self).state == HandshakeState::VersionAgreed
                        && final(self).version == Option::Some(v),
                    Err(e) => sp matches Err(e2) && e == e2 && final(self).state
                        == HandshakeState::Rejected(e) && final(self).version is None,
                }
            }),
            final(self).security == old(self).security,
            final(self).supported == old(self).supported,
    {
        proof {
            assert(peer@.skip(0) =~= peer@);
        }
        match Version::decode(peer, 0) {
            Ok((pv, _)) => {
                let agreed = lesser_version(own, pv);
                self.version = Option::Some(agreed);
                self.state = HandshakeState::VersionAgreed;
                Ok(agreed)
            },
            Err(e) => {
                self.version = Option::None;
                self.state = HandshakeState::Rejected(e);
                Err(e)
            },
        }
    }

    /// Take the security types the peer offered and choose the first
    /// that this side also supports. An empty offer, or one with no
    /// overlap, rejects the handshake with `IncompatibleSecurity`
    /// before anything further is read or written.
    pub fn on_security_offer(&mut self, offered: &Vec<SecurityType>) -> (r: Result<
        SecurityType,
        Error,
    >)
        requires
            old(self).state == HandshakeState::VersionAgreed,
        ensures
            ({
                let ch = spec_choose_security(offered@, old(self).supported@);
                match r {
                    Ok(t) => ch == Option::Some(t) && final(self).state
                        == HandshakeState::SecurityAgreed
                        && final(self).security == Option::Some(t),
                    Err(e) => ch is None && e == Error::IncompatibleSecurity && final(self).state
                        == HandshakeState::Rejected(Error::IncompatibleSecurity)
                        && final(self).security is None,
                }
            }),
            final(self).version == old(self).version,
            final(self).supported == old(self).supported,
    {
        let ghost supp = self.supported@;
        let mut i: usize = 0;
        proof {
            assert(offered@.skip(0) =~= offered@);
        }
        while i < offered.len()
            invariant
                0 <= i <= offered@.len(),
                supp == self.supported@,
                self.supported == old(self).supported,
                self.version == old(self).version,
                self.security == old(self).security,
                self.state == old(self).state,
                spec_choose_security(offered@, supp) == spec_choose_security(
                    offered@.skip(i as int),
                    supp,
                ),
            decreases offered@.len() - i,
        {
            let candidate = offered[i];
            let mut j: usize = 0;
            let mut found = false;
            while j < self.supported.len()
                invariant
                    0 <= j <= supp.len(),
                    supp == self.supported@,
                    self.supported == old(self).supported,
                    self.version == old(self).version,
                    self.security == old(self).security,
                    self.state == old(self).state,
                    0 <= i < offered@.len(),
                    candidate == offered@[i as int],
                    found <==> exists|l: int| 0 <= l < j && supp[l] == candidate,
                decreases supp.len() - j,
            {
                if self.supported[j] == candidate {
                    found = true;
                }
                j = j + 1;
            }
            proof {
                assert(found <==> supp.contains(candidate));
                assert(offered@.skip(i as int)[0] == offered@[i as int]);
            }
            if found {
                self.security = Option::Some(candidate);
                self.state = HandshakeState::SecurityAgreed;
                return Ok(candidate);
            }
            proof {
                assert(offered@.skip(i as int).skip(1) =~= offered@.skip(i + 1));
            }
            i = i + 1;
        }
        proof {
            assert(offered@.skip(offered@.len() as int).len() == 0);
        }
        self.security = Option::None;
        self.state = HandshakeState::Rejected(Error::IncompatibleSecurity);
        Err(Error::IncompatibleSecurity)
    }

    /// Take the peer's security result. Only `Accepted` proceeds; any
    /// other outcome rejects the handshake with `HandshakeFailed`.
    pub fn on_security_result(&mut self, result: SecurityResult) -> (r: Result<(), Error>)
        requires
            old(self).state == HandshakeState::SecurityAgreed,
        ensures
            result == SecurityResult::Accepted ==> (r is Ok && final(self).state
                == HandshakeState::Authenticated),
            result != SecurityResult::Accepted ==> (r == Err::<(), Error>(Error::HandshakeFailed)
                && final(self).state == HandshakeState::Rejected(Error::HandshakeFailed)),
            final(self).version == old(self).version,
            final(self).security == old(self).security,
            final(self).supported == old(self).supported,
    {
        match result {
            SecurityResult::Accepted => {
                self.state = HandshakeState::Authenticated;
                Ok(())
            },
            _ => {
                self.state = HandshakeState::Rejected(Error::HandshakeFailed);
                Err(Error::HandshakeFailed)
            },
        }
    }

    /// Whether a UTF-8 reason string follows a non-`Accepted` result
    /// on the wire: only under the newest release, and only on
    /// failure.
    pub fn reads_failure_reason(&self, result: SecurityResult) -> (r: bool)
        ensures
            r == (self.version == Option::Some(Version::Rfb38) && result
                != SecurityResult::Accepted),
    {
        let newest = match self.version {
            Option::Some(Version::Rfb38) => true,
            _ => false,
        };
        let failed = match result {
            SecurityResult::Accepted => false,
            _ => true,
        };
        newest && failed
    }

    /// Record that this side sent its one-shot client init.
    pub fn init_sent(&mut self)
        requires
            old(self).state == HandshakeState::Authenticated,
        ensures
            final(self).state == HandshakeState::Initialized,
            final(self).version == old(self).version,
            final(self).security == old(self).security,
            final(self).supported == old(self).supported,
    {
        self.state = HandshakeState::Initialized;
    }

    /// Take the server's init record; the handshake is then ready and
    /// the session holds the negotiated release and pixel format.
    pub fn on_server_init(&mut self, server_init: &ServerInit) -> (c: Client)
        requires
            old(self).state == HandshakeState::Initialized,
            old(self).version is Some,
        ensures
            final(self).state == HandshakeState::Ready,
            final(self).version == old(self).version,
            final(self).security == old(self).security,
            final(self).supported == old(self).supported,
            c.version == old(self).version->0,
            c.pixel_format == server_init.pixel_format,
    {
        self.state = HandshakeState::Ready;
        let v = match self.version {
            Option::Some(v) => v,
            Option::None => {
                proof {
                    assert(false);
                }
                Version::Rfb38
            },
        };
        Client::new(v, server_init.pixel_format)
    }
}

/// The lower-numbered of two protocol releases.
pub fn lesser_version(a: Version, b: Version) -> (r: Version)
    ensures
        r == spec_min_version(a, b),
{
    let ra: u8 = match a {
        Version::Rfb33 => 0,
        Version::Rfb37 => 1,
        Version::Rfb38 => 2,
    };
    let rb: u8 = match b {
        Version::Rfb33 => 0,
        Version::Rfb37 => 1,
        Version::Rfb38 => 2,
    };
    if ra <= rb {
        a
    } else {
        b
    }
}

/// Version negotiation over the wire: any advertised release decodes
/// to itself, and the agreed release is the lower-numbered one — it
/// is one of the pair, no newer than either side, and agreement on
/// equal releases is that release.
pub proof fn lemma_version_negotiation(own: Version, peer: Version)
    ensures
        Version::spec_dec(peer.spec_enc()) == Ok::<Version, Error>(peer),
        spec_min_version(own, peer) == own || spec_min_version(own, peer) == peer,
        spec_min_version(own, peer).spec_rank() <= own.spec_rank(),
        spec_min_version(own, peer).spec_rank() <= peer.spec_rank(),
        own == peer ==> spec_min_version(own, peer) == own,
{
    crate::lemma_version_round_trip(peer);
}

/// An empty security offer can never be satisfied: negotiation fails
/// with `IncompatibleSecurity` whatever this side supports.
pub proof fn lemma_empty_offer_incompatible(supported: Seq<SecurityType>)
    ensures
        spec_choose_security(Seq::empty(), supported) is None,
{
}

/// Asks the server to keep sending updates for a region without
/// per-update requests; a protocol extension record.
pub struct EnableContinuousUpdates {
    pub enable_flag: bool,
    pub x: u16,
    pub y: u16,
    pub width: u16,
    pub height: u16,
}

/// A fence record of the protocol extension for synchronizing the
/// two directions of a connection.
pub struct ClientFence {
    pub flags: u32,
    pub payload: Vec<u8>,
}

} // verus!
