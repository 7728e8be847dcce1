//! The handshake state machine: version pairing, security
//! negotiation, and the walk to a ready session.
use rfb::client::Client;
use rfb::error::Error;
use rfb::handshake::lesser_version;
use rfb::handshake::Handshake;
use rfb::handshake::HandshakeState;
use rfb::io::Encode;
use rfb::messages::init::ServerInit;
use rfb::messages::pixel_format::PixelFormat;
use rfb::messages::security::SecurityResult;
use rfb::messages::security::SecurityType;
use rfb::Version;

fn rgb32() -> PixelFormat {
    PixelFormat {
        bits_per_pixel: 32,
        depth: 24,
        big_endian_flag: false,
        true_colour_flag: true,
        red_max: 255,
        green_max: 255,
        blue_max: 255,
        red_shift: 16,
        green_shift: 8,
        blue_shift: 0,
    }
}

#[test]
fn version_negotiation_every_pairing() {
    let versions = [Version::Rfb33, Version::Rfb37, Version::Rfb38];
    for (i, own) in versions.iter().enumerate() {
        for (j, peer) in versions.iter().enumerate() {
            let mut hs = Handshake::new(vec![SecurityType::NoAuthentication]);
            let agreed = hs.on_peer_version(*own, &peer.encode()).unwrap();
            let expected = versions[i.min(j)];
            assert_eq!(agreed, expected);
            assert_eq!(hs.state, HandshakeState::VersionAgreed);
            assert_eq!(hs.version, Some(expected));
        }
    }
}

#[test]
fn version_negotiation_rejects_unknown_string() {
    let mut hs = Handshake::new(vec![SecurityType::NoAuthentication]);
    let r = hs.on_peer_version(Version::Rfb38, b"RFB 004.000\n");
    assert_eq!(r, Err(Error::UnsupportedVersion));
    assert_eq!(hs.state, HandshakeState::Rejected(Error::UnsupportedVersion));
}

#[test]
fn lesser_version_picks_the_older() {
    assert_eq!(lesser_version(Version::Rfb33, Version::Rfb38), Version::Rfb33);
    assert_eq!(lesser_version(Version::Rfb38, Version::Rfb37), Version::Rfb37);
    assert_eq!(lesser_version(Version::Rfb38, Version::Rfb38), Version::Rfb38);
}

fn version_agreed(supported: Vec<SecurityType>) -> Handshake {
    let mut hs = Handshake::new(supported);
    hs.on_peer_version(Version::Rfb38, &Version::Rfb38.encode()).unwrap();
    hs
}

#[test]
fn empty_security_offer_is_incompatible() {
    let mut hs = version_agreed(vec![SecurityType::NoAuthentication]);
    let offered: Vec<SecurityType> = Vec::new();
    assert_eq!(hs.on_security_offer(&offered), Err(Error::IncompatibleSecurity));
    assert_eq!(hs.state, HandshakeState::Rejected(Error::IncompatibleSecurity));
}

#[test]
fn disjoint_security_offer_is_incompatible() {
    let mut hs = version_agreed(vec![SecurityType::NoAuthentication]);
    let offered = vec![SecurityType::VncAuthentication, SecurityType::Tight];
    assert_eq!(hs.on_security_offer(&offered), Err(Error::IncompatibleSecurity));
}

#[test]
fn security_offer_picks_first_supported() {
    let mut hs = version_agreed(vec![
        SecurityType::NoAuthentication,
        SecurityType::VncAuthentication,
    ]);
    let offered = vec![
        SecurityType::Tight,
        SecurityType::VncAuthentication,
        SecurityType::NoAuthentication,
    ];
    // The first offered type that this side supports, in offer order.
    assert_eq!(hs.on_security_offer(&offered), Ok(SecurityType::VncAuthentication));
    assert_eq!(hs.state, HandshakeState::SecurityAgreed);
    assert_eq!(hs.security, Some(SecurityType::VncAuthentication));
}

#[test]
fn non_ok_security_result_fails_handshake() {
    let mut hs = version_agreed(vec![SecurityType::NoAuthentication]);
    hs.on_security_offer(&vec![SecurityType::NoAuthentication]).unwrap();
    assert_eq!(hs.on_security_result(SecurityResult::Failed), Err(Error::HandshakeFailed));
    assert_eq!(hs.state, HandshakeState::Rejected(Error::HandshakeFailed));
}

#[test]
fn failure_reason_only_under_newest_revision() {
    let mut hs = Handshake::new(vec![SecurityType::NoAuthentication]);
    hs.on_peer_version(Version::Rfb38, &Version::Rfb38.encode()).unwrap();
    assert!(hs.reads_failure_reason(SecurityResult::Failed));
    assert!(!hs.reads_failure_reason(SecurityResult::Accepted));

    let mut older = Handshake::new(vec![SecurityType::NoAuthentication]);
    older.on_peer_version(Version::Rfb37, &Version::Rfb37.encode()).unwrap();
    assert!(!older.reads_failure_reason(SecurityResult::Failed));
}

#[test]
fn handshake_walk_to_ready() {
    let mut hs = Handshake::new(vec![SecurityType::NoAuthentication]);
    let agreed = hs.on_peer_version(Version::Rfb38, &Version::Rfb38.encode()).unwrap();
    assert_eq!(agreed, Version::Rfb38);
    hs.on_security_offer(&vec![SecurityType::NoAuthentication]).unwrap();
    hs.on_security_result(SecurityResult::Accepted).unwrap();
    assert_eq!(hs.state, HandshakeState::Authenticated);
    hs.init_sent();
    assert_eq!(hs.state, HandshakeState::Initialized);
    let si = ServerInit {
        framebuffer_width: 500,
        framebuffer_height: 500,
        pixel_format: rgb32(),
        name: String::from("BONOJOUR"),
    };
    let client = hs.on_server_init(&si);
    assert_eq!(hs.state, HandshakeState::Ready);
    assert_eq!(client.version, Version::Rfb38);
    assert_eq!(client.pixel_format, rgb32());
}

#[test]
fn client_holds_negotiated_state() {
    let mut client = Client::new(Version::Rfb37, rgb32());
    assert_eq!(client.version, Version::Rfb37);
    let mut other = rgb32();
    other.bits_per_pixel = 16;
    other.depth = 16;
    client.set_pixel_format(other);
    assert_eq!(client.pixel_format.bits_per_pixel, 16);
    assert_eq!(client.version, Version::Rfb37);
}
