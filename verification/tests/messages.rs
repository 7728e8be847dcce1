//! Typed message layouts: registries, tagged dispatch, and
//! round trips on concrete values.
use rfb::client::messages::ClientCutText;
use rfb::client::messages::ClientMessage;
use rfb::client::messages::ClientMessageType;
use rfb::client::messages::PointerEvent;
use rfb::client::messages::SetPixelFormat;
use rfb::encodings::EncodingType;
use rfb::error::Error;
use rfb::io::Decode;
use rfb::io::DecodeFrom;
use rfb::io::Encode;
use rfb::io::EncodeTo;
use rfb::messages::framebuffer_update_request::FramebufferUpdateRequest;
use rfb::messages::init::ClientInit;
use rfb::messages::init::ServerInit;
use rfb::messages::key_event::Key;
use rfb::messages::key_event::KeyEvent;
use rfb::messages::pixel_format::PixelFormat;
use rfb::messages::security::SecurityResult;
use rfb::messages::security::SecurityType;
use rfb::messages::set_encodings::SetEncodings;
use rfb::Version;

fn rgb32() -> PixelFormat {
    PixelFormat {
        bits_per_pixel: 32,
        depth: 24,
        big_endian_flag: false,
        true_colour_flag: true,
        red_max: 255,
        green_max: 255,
        blue_max: 255,
        red_shift: 16,
        green_shift: 8,
        blue_shift: 0,
    }
}

#[test]
fn version_wire_forms() {
    assert_eq!(Version::Rfb33.encode(), b"RFB 003.003\n".to_vec());
    assert_eq!(Version::Rfb37.encode(), b"RFB 003.007\n".to_vec());
    assert_eq!(Version::Rfb38.encode(), b"RFB 003.008\n".to_vec());
    for v in [Version::Rfb33, Version::Rfb37, Version::Rfb38] {
        let bytes = v.encode();
        let (back, end) = <Version as Decode>::decode(&bytes, 0).unwrap();
        assert_eq!(back, v);
        assert_eq!(end, 12);
    }
}

#[test]
fn version_unrecognized_fails() {
    assert_eq!(
        <Version as Decode>::decode(b"RFB 003.009\n", 0),
        Err(Error::UnsupportedVersion)
    );
    assert_eq!(<Version as Decode>::decode(b"RFB 003.00", 0), Err(Error::IoFailure));
}

#[test]
fn client_init_round_trip() {
    for shared in [false, true] {
        let ci = ClientInit { shared };
        let bytes = ci.encode();
        assert_eq!(bytes, vec![if shared { 1 } else { 0 }]);
        let (back, _) = <ClientInit as Decode>::decode(&bytes, 0).unwrap();
        assert_eq!(back, ci);
    }
}

#[test]
fn server_init_round_trip() {
    let si = ServerInit {
        framebuffer_width: 500,
        framebuffer_height: 500,
        pixel_format: rgb32(),
        name: String::from("BONOJOUR"),
    };
    let mut buf: Vec<u8> = Vec::new();
    si.encode_to(&mut buf).unwrap();
    assert_eq!(buf.len(), 2 + 2 + 16 + 4 + 8);
    let (back, end) = ServerInit::decode_from(&buf, 0).unwrap();
    assert_eq!(back, si);
    assert_eq!(end, buf.len());
}

#[test]
fn framebuffer_update_request_round_trip() {
    let req = FramebufferUpdateRequest { incremental: false, x: 0, y: 0, width: 10, height: 10 };
    let bytes = req.encode();
    assert_eq!(bytes, vec![3, 0, 0, 0, 0, 0, 0, 10, 0, 10]);
    let (back, end) = <FramebufferUpdateRequest as Decode>::decode(&bytes, 0).unwrap();
    assert_eq!(back, req);
    assert_eq!(end, 10);
}

#[test]
fn key_event_round_trip() {
    let ev = KeyEvent { down: true, key: 0xFF0D };
    let bytes = ev.encode();
    assert_eq!(bytes, vec![4, 1, 0, 0, 0, 0, 0xFF, 0x0D]);
    let (back, _) = <KeyEvent as Decode>::decode(&bytes, 0).unwrap();
    assert_eq!(back, ev);
}

#[test]
fn key_registry() {
    assert_eq!(Key::from_code(0xFF08), Key::BackSpace);
    assert_eq!(Key::from_code(0x20), Key::Space);
    assert_eq!(Key::from_code(0xFFBE), Key::F1);
    // A code outside the table names the void key, never an error.
    assert_eq!(Key::from_code(0x41), Key::VoidSymbol);
    assert_eq!(Key::VoidSymbol.code(), 0xFFFFFF);
    let bytes = Key::Return.encode();
    let (back, _) = <Key as Decode>::decode(&bytes, 0).unwrap();
    assert_eq!(back, Key::Return);
}

#[test]
fn security_type_registry_is_lossless() {
    for code in 0..=255u8 {
        let t = SecurityType::from_code(code);
        assert_eq!(t.code(), code);
    }
    assert_eq!(SecurityType::from_code(1), SecurityType::NoAuthentication);
    assert_eq!(SecurityType::from_code(2), SecurityType::VncAuthentication);
    assert_eq!(SecurityType::from_code(5), SecurityType::RealVnc(5));
    assert_eq!(SecurityType::from_code(30), SecurityType::AppleInc(30));
    assert_eq!(SecurityType::from_code(200), SecurityType::Unassigned(200));
}

#[test]
fn security_list_round_trip() {
    let list = vec![SecurityType::NoAuthentication, SecurityType::VncAuthentication];
    let mut buf: Vec<u8> = Vec::new();
    list.encode_to(&mut buf).unwrap();
    assert_eq!(buf, vec![2, 1, 2]);
    let (back, end) = <Vec<SecurityType>>::decode_from(&buf, 0).unwrap();
    assert_eq!(back, list);
    assert_eq!(end, 3);
}

#[test]
fn security_list_overflow() {
    let list = vec![SecurityType::NoAuthentication; 256];
    let mut buf: Vec<u8> = Vec::new();
    assert_eq!(list.encode_to(&mut buf), Err(Error::LengthOverflow));
    assert!(buf.is_empty());
}

#[test]
fn security_single_code_decodes() {
    // The oldest revision sends one 4-byte big-endian code.
    let (t, end) = SecurityType::decode_single(&[0, 0, 0, 1], 0).unwrap();
    assert_eq!(t, SecurityType::NoAuthentication);
    assert_eq!(end, 4);
    assert_eq!(SecurityType::decode_single(&[0, 0, 0], 0), Err(Error::IoFailure));
}

#[test]
fn security_result_codec() {
    let bytes = SecurityResult::Accepted.encode();
    assert_eq!(bytes, vec![0, 0, 0, 0]);
    let (back, _) = <SecurityResult as Decode>::decode(&bytes, 0).unwrap();
    assert_eq!(back, SecurityResult::Accepted);
    let bytes = SecurityResult::Failed.encode();
    assert_eq!(bytes, vec![0, 0, 0, 1]);
    let (back, _) = <SecurityResult as Decode>::decode(&bytes, 0).unwrap();
    assert_eq!(back, SecurityResult::Failed);
    let bytes = SecurityResult::TooManyAttempts.encode();
    let (back, _) = <SecurityResult as Decode>::decode(&bytes, 0).unwrap();
    assert_eq!(back, SecurityResult::TooManyAttempts);
}

#[test]
fn security_result_unknown_code_is_bad_response() {
    assert_eq!(
        <SecurityResult as Decode>::decode(&[0, 0, 0, 9], 0),
        Err(Error::BadResponse)
    );
}

#[test]
fn encoding_type_registry() {
    assert_eq!(EncodingType::from_code(0), EncodingType::Raw);
    assert_eq!(EncodingType::from_code(1), EncodingType::CopyRect);
    assert_eq!(EncodingType::from_code(2), EncodingType::Rre);
    assert_eq!(EncodingType::from_code(4), EncodingType::CoRre);
    assert_eq!(EncodingType::from_code(5), EncodingType::Hextile);
    assert_eq!(EncodingType::from_code(3), EncodingType::Other(3));
    assert_eq!(EncodingType::from_code(-239), EncodingType::Other(-239));
    assert_eq!(i32::from(EncodingType::Other(-239)), -239);
    assert_eq!(EncodingType::from(5), EncodingType::Hextile);
}

#[test]
fn set_encodings_round_trip() {
    let msg = SetEncodings {
        encodings: vec![EncodingType::Raw, EncodingType::Hextile, EncodingType::Other(7)],
    };
    let mut buf: Vec<u8> = Vec::new();
    msg.encode_to(&mut buf).unwrap();
    assert_eq!(
        buf,
        vec![2, 0, 0, 3, 0, 0, 0, 0, 0, 0, 0, 5, 0, 0, 0, 7]
    );
    let (back, end) = SetEncodings::decode_from(&buf, 0).unwrap();
    assert_eq!(back, msg);
    assert_eq!(end, buf.len());
}

#[test]
fn client_message_type_registry() {
    assert_eq!(ClientMessageType::from(0u8), ClientMessageType::SetPixelFormat);
    assert_eq!(ClientMessageType::from(6u8), ClientMessageType::ClientCutText);
    assert_eq!(ClientMessageType::from(127u8), ClientMessageType::VmWare(127));
    assert_eq!(ClientMessageType::from(254u8), ClientMessageType::VmWare(254));
    assert_eq!(ClientMessageType::from(200u8), ClientMessageType::Unassigned(200));
    for code in 0..=255u8 {
        assert_eq!(ClientMessageType::from_code(code).code(), code);
    }
}

#[test]
fn client_message_dispatch() {
    // SetPixelFormat: tag, 3 padding bytes, then the format.
    let sp = SetPixelFormat { pixel_format: rgb32() };
    let bytes = sp.encode();
    assert_eq!(bytes.len(), 20);
    let (msg, end) = ClientMessage::decode_from(&bytes, 0).unwrap();
    assert_eq!(msg, ClientMessage::SetPixelFormat(sp));
    assert_eq!(end, 20);

    let req = FramebufferUpdateRequest { incremental: true, x: 1, y: 2, width: 3, height: 4 };
    let (msg, _) = ClientMessage::decode_from(&req.encode(), 0).unwrap();
    assert_eq!(msg, ClientMessage::FramebufferUpdateRequest(req));

    let ev = KeyEvent { down: false, key: 0x20 };
    let (msg, _) = ClientMessage::decode_from(&ev.encode(), 0).unwrap();
    assert_eq!(msg, ClientMessage::KeyEvent(ev));

    let pe = PointerEvent { button_mask: 1, x: 9, y: 11 };
    let (msg, _) = ClientMessage::decode_from(&pe.encode(), 0).unwrap();
    assert_eq!(msg, ClientMessage::PointerEvent(pe));
}

#[test]
fn client_message_cut_text_round_trip() {
    let ct = ClientCutText { text: String::from("BONJOUR") };
    let mut buf: Vec<u8> = Vec::new();
    ClientMessage::ClientCutText(ct.clone()).encode_to(&mut buf).unwrap();
    assert_eq!(&buf[..8], &[6, 0, 0, 0, 0, 0, 0, 7]);
    let (msg, end) = ClientMessage::decode_from(&buf, 0).unwrap();
    assert_eq!(msg, ClientMessage::ClientCutText(ct));
    assert_eq!(end, buf.len());
}

#[test]
fn unknown_client_tag_decodes_to_unassigned() {
    // A tag outside the known table decodes to the vendor/unassigned
    // variant carrying the raw tag, not to an error.
    let (msg, end) = ClientMessage::decode_from(&[200, 1, 2, 3], 0).unwrap();
    assert_eq!(msg, ClientMessage::Unassigned(200));
    assert_eq!(end, 1);
    let mut buf: Vec<u8> = Vec::new();
    ClientMessage::Unassigned(200).encode_to(&mut buf).unwrap();
    assert_eq!(buf, vec![200]);
}

#[test]
fn pointer_event_round_trip() {
    let pe = PointerEvent { button_mask: 4, x: 700, y: 80 };
    let bytes = pe.encode();
    assert_eq!(bytes.len(), 6);
    let (back, _) = <PointerEvent as Decode>::decode(&bytes, 0).unwrap();
    assert_eq!(back, pe);
}
