//! The framebuffer update layer: rectangle framing, payload sizing
//! per encoding, and the payload interpreters.
use rfb::encodings::EncodingType;
use rfb::encodings::Hextile;
use rfb::encodings::Raw;
use rfb::encodings::CopyRect;
use rfb::encodings::RRE;
use rfb::error::Error;
use rfb::io::EncodeTo;
use rfb::messages::framebuffer_update::FramebufferUpdate;
use rfb::messages::framebuffer_update::Rectangle;
use rfb::messages::pixel_format::PixelFormat;

fn rgb32() -> PixelFormat {
    PixelFormat {
        bits_per_pixel: 32,
        depth: 24,
        big_endian_flag: false,
        true_colour_flag: true,
        red_max: 255,
        green_max: 255,
        blue_max: 255,
        red_shift: 16,
        green_shift: 8,
        blue_shift: 0,
    }
}

fn raw_rect_bytes(width: u16, height: u16, payload_len: usize) -> Vec<u8> {
    let mut bytes: Vec<u8> = Vec::new();
    bytes.extend_from_slice(&[0, 0, 0, 0]);
    bytes.extend_from_slice(&width.to_be_bytes());
    bytes.extend_from_slice(&height.to_be_bytes());
    bytes.extend_from_slice(&0i32.to_be_bytes());
    bytes.extend((0..payload_len).map(|i| (i % 256) as u8));
    bytes
}

#[test]
fn empty_update_decodes() {
    // One reserved byte, one padding byte, a zero rectangle count.
    let bytes = [0u8, 1, 0, 0];
    let (fbu, end) = FramebufferUpdate::decode_from(&bytes, 0, &rgb32()).unwrap();
    assert!(fbu.rectangles.is_empty());
    assert_eq!(end, 4);
}

#[test]
fn raw_rectangle_full_payload_decodes() {
    // 10 by 10 pixels at 4 bytes per pixel: exactly 400 payload bytes.
    let bytes = raw_rect_bytes(10, 10, 400);
    let (rect, end) = Rectangle::decode_from(&bytes, 0, 4).unwrap();
    assert_eq!(rect.width, 10);
    assert_eq!(rect.height, 10);
    assert_eq!(rect.encoding_type, EncodingType::Raw);
    assert_eq!(rect.pixels.len(), 400);
    assert_eq!(end, 412);
}

#[test]
fn raw_rectangle_short_payload_fails() {
    // One byte short of the declared 400: the decode must fail, not
    // succeed misaligned.
    let bytes = raw_rect_bytes(10, 10, 399);
    assert!(matches!(Rectangle::decode_from(&bytes, 0, 4), Err(Error::IoFailure)));
}

#[test]
fn unknown_encoding_is_refused() {
    let mut bytes: Vec<u8> = Vec::new();
    bytes.extend_from_slice(&[0, 0, 0, 0, 0, 10, 0, 10]);
    bytes.extend_from_slice(&3i32.to_be_bytes());
    bytes.extend_from_slice(&[0; 400]);
    assert!(matches!(
        Rectangle::decode_from(&bytes, 0, 4),
        Err(Error::UnsupportedEncoding)
    ));
}

#[test]
fn rectangle_encode_refuses_unknown_encoding() {
    let rect = Rectangle {
        x: 0,
        y: 0,
        width: 1,
        height: 1,
        encoding_type: EncodingType::Other(3),
        pixels: vec![0; 4],
    };
    let mut buf: Vec<u8> = Vec::new();
    assert_eq!(rect.encode_to(&mut buf), Err(Error::UnsupportedEncoding));
    assert!(buf.is_empty());
}

#[test]
fn update_round_trip_with_raw_rectangle() {
    let rect = Rectangle {
        x: 1,
        y: 2,
        width: 2,
        height: 2,
        encoding_type: EncodingType::Raw,
        pixels: (0u8..16).collect(),
    };
    let fbu = FramebufferUpdate { rectangles: vec![rect] };
    let mut buf: Vec<u8> = Vec::new();
    fbu.encode_to(&mut buf).unwrap();
    let (back, end) = FramebufferUpdate::decode_from(&buf, 0, &rgb32()).unwrap();
    assert_eq!(back, fbu);
    assert_eq!(end, buf.len());
}

#[test]
fn copy_rect_payload() {
    let mut bytes: Vec<u8> = Vec::new();
    bytes.extend_from_slice(&[0, 3, 0, 4, 0, 10, 0, 10]);
    bytes.extend_from_slice(&1i32.to_be_bytes());
    bytes.extend_from_slice(&[0, 7, 0, 9]);
    let (rect, end) = Rectangle::decode_from(&bytes, 0, 4).unwrap();
    assert_eq!(rect.encoding_type, EncodingType::CopyRect);
    assert_eq!(rect.pixels, vec![0, 7, 0, 9]);
    assert_eq!(end, 16);
    let cr = CopyRect::decode_payload(&rect.pixels).unwrap();
    assert_eq!(cr.x, 7);
    assert_eq!(cr.y, 9);
}

#[test]
fn raw_payload_interpreter() {
    let payload: Vec<u8> = (0u8..16).collect();
    let raw = Raw::decode_payload(&payload, 2, 2, 4).unwrap();
    assert_eq!(raw.pixels, payload);
    assert!(matches!(Raw::decode_payload(&payload[..15], 2, 2, 4), Err(Error::IoFailure)));
}

#[test]
fn rre_payload_interpreter() {
    // One subrectangle over a red background, 4 bytes per pixel.
    let mut payload: Vec<u8> = Vec::new();
    payload.extend_from_slice(&1u32.to_be_bytes());
    payload.extend_from_slice(&[9, 9, 9, 9]);
    payload.extend_from_slice(&[1, 2, 3, 4]);
    payload.extend_from_slice(&[0, 5, 0, 6, 0, 7, 0, 8]);
    let (rre, used) = RRE::decode_payload(&payload, 4).unwrap();
    assert_eq!(used, payload.len());
    assert_eq!(rre.background, vec![9, 9, 9, 9]);
    assert_eq!(rre.subrectangles.len(), 1);
    let sub = &rre.subrectangles[0];
    assert_eq!(sub.pixel, vec![1, 2, 3, 4]);
    assert_eq!((sub.x, sub.y, sub.width, sub.height), (5, 6, 7, 8));
}

#[test]
fn corre_payload_interpreter() {
    // The compact form: 1-byte coordinates.
    let mut payload: Vec<u8> = Vec::new();
    payload.extend_from_slice(&2u32.to_be_bytes());
    payload.push(7);
    payload.extend_from_slice(&[1, 10, 11, 12, 13]);
    payload.extend_from_slice(&[2, 20, 21, 22, 23]);
    let (rre, used) = RRE::decode_compact_payload(&payload, 1).unwrap();
    assert_eq!(used, payload.len());
    assert_eq!(rre.background, vec![7]);
    assert_eq!(rre.subrectangles.len(), 2);
    assert_eq!(rre.subrectangles[0].pixel, vec![1]);
    assert_eq!(
        (rre.subrectangles[1].x, rre.subrectangles[1].y),
        (20, 21)
    );
}

#[test]
fn rre_rectangle_framing() {
    // A rectangle whose payload length comes from its own count field.
    let mut bytes: Vec<u8> = Vec::new();
    bytes.extend_from_slice(&[0, 0, 0, 0, 0, 10, 0, 10]);
    bytes.extend_from_slice(&2i32.to_be_bytes());
    bytes.extend_from_slice(&1u32.to_be_bytes());
    bytes.extend_from_slice(&[9, 9, 9, 9]);
    bytes.extend_from_slice(&[1, 2, 3, 4, 0, 5, 0, 6, 0, 7, 0, 8]);
    let (rect, end) = Rectangle::decode_from(&bytes, 0, 4).unwrap();
    assert_eq!(rect.encoding_type, EncodingType::Rre);
    assert_eq!(rect.pixels.len(), 4 + 4 + 12);
    assert_eq!(end, bytes.len());
}

#[test]
fn hextile_raw_tile_length() {
    // A 4-by-4 rectangle at 1 byte per pixel is one tile; its mask
    // says raw, so the tile is the mask byte plus 16 pixels.
    let mut payload: Vec<u8> = vec![1];
    payload.extend_from_slice(&[0; 16]);
    assert_eq!(Hextile::payload_len(&payload, 0, 4, 4, 1), Ok(17));
}

#[test]
fn hextile_subrect_tile_length() {
    // Background and foreground given, two plain subrectangles:
    // mask, bg, fg, count, then 2 bytes per subrectangle.
    let payload: Vec<u8> = vec![2 | 4 | 8, 9, 8, 2, 0x11, 0x22, 0x33, 0x44];
    assert_eq!(Hextile::payload_len(&payload, 0, 4, 4, 1), Ok(8));
}

#[test]
fn hextile_multi_tile_length() {
    // 20 by 4 pixels is two tiles: 16 wide then 4 wide, both raw.
    let mut payload: Vec<u8> = vec![1];
    payload.extend_from_slice(&[0; 64]);
    payload.push(1);
    payload.extend_from_slice(&[0; 16]);
    assert_eq!(Hextile::payload_len(&payload, 0, 20, 4, 1), Ok(82));
}

#[test]
fn hextile_truncated_tile_fails() {
    let payload: Vec<u8> = vec![1, 0, 0];
    assert_eq!(Hextile::payload_len(&payload, 0, 4, 4, 1), Err(Error::IoFailure));
}

#[test]
fn update_count_overflow_on_encode() {
    let rect = Rectangle {
        x: 0,
        y: 0,
        width: 0,
        height: 0,
        encoding_type: EncodingType::Raw,
        pixels: Vec::new(),
    };
    let fbu = FramebufferUpdate { rectangles: vec![rect; 65536] };
    let mut buf: Vec<u8> = Vec::new();
    assert_eq!(fbu.encode_to(&mut buf), Err(Error::LengthOverflow));
    assert!(buf.is_empty());
}
