//! Primitive codec behaviour: integers, strings, endian wrappers,
//! and the pixel format.
use rfb::error::Error;
use rfb::io::read_string;
use rfb::io::read_u16_be;
use rfb::io::read_u32_be;
use rfb::io::write_string;
use rfb::io::write_u16_be;
use rfb::io::write_u32_be;
use rfb::io::BigEndian;
use rfb::io::Decode;
use rfb::io::Encode;
use rfb::io::Length;
use rfb::io::LittleEndian;
use rfb::messages::pixel_format::bit_width;
use rfb::messages::pixel_format::PixelFormat;

fn rgb32() -> PixelFormat {
    PixelFormat {
        bits_per_pixel: 32,
        depth: 24,
        big_endian_flag: false,
        true_colour_flag: true,
        red_max: 255,
        green_max: 255,
        blue_max: 255,
        red_shift: 16,
        green_shift: 8,
        blue_shift: 0,
    }
}

#[test]
fn u16_round_trip() {
    let mut buf: Vec<u8> = Vec::new();
    write_u16_be(&mut buf, 0x1234);
    assert_eq!(buf, vec![0x12, 0x34]);
    let (v, end) = read_u16_be(&buf, 0).unwrap();
    assert_eq!(v, 0x1234);
    assert_eq!(end, 2);
}

#[test]
fn u32_round_trip() {
    let mut buf: Vec<u8> = Vec::new();
    write_u32_be(&mut buf, 0xDEADBEEF);
    assert_eq!(buf, vec![0xDE, 0xAD, 0xBE, 0xEF]);
    let (v, end) = read_u32_be(&buf, 0).unwrap();
    assert_eq!(v, 0xDEADBEEF);
    assert_eq!(end, 4);
}

#[test]
fn short_integer_reads_fail() {
    assert_eq!(read_u16_be(&[7], 0), Err(Error::IoFailure));
    assert_eq!(read_u32_be(&[1, 2, 3], 0), Err(Error::IoFailure));
}

#[test]
fn i32_codec() {
    let v: i32 = -2;
    let bytes = v.encode();
    assert_eq!(bytes, vec![0xFF, 0xFF, 0xFF, 0xFE]);
    let (back, end) = <i32 as Decode>::decode(&bytes, 0).unwrap();
    assert_eq!(back, -2);
    assert_eq!(end, 4);
}

#[test]
fn endian_wrappers() {
    let be = BigEndian::new(0x1234u16);
    assert_eq!(be.inner, 0x1234);
    assert_eq!(be.encode(), vec![0x12, 0x34]);
    let le = LittleEndian::new(0x1234u16);
    assert_eq!(le.encode(), vec![0x34, 0x12]);
    let (b, _) = <BigEndian<u16> as Decode>::decode(&[0x12, 0x34], 0).unwrap();
    assert_eq!(b.inner, 0x1234);
    let (l, _) = <LittleEndian<u16> as Decode>::decode(&[0x34, 0x12], 0).unwrap();
    assert_eq!(l.inner, 0x1234);
    assert_eq!(<BigEndian<u16> as Length>::length(), 2);
    assert_eq!(<LittleEndian<u16> as Length>::length(), 2);
}

#[test]
fn length_prefixed_string_decodes_exactly() {
    let mut bytes: Vec<u8> = vec![0, 0, 0, 7];
    bytes.extend_from_slice(b"BONJOUR");
    let (text, end) = read_string(&bytes, 0).unwrap();
    assert_eq!(text, "BONJOUR");
    assert_eq!(end, 11);
}

#[test]
fn string_with_excess_declared_length_fails() {
    // The prefix declares 7 bytes, the stream holds 3.
    let bytes: Vec<u8> = vec![0, 0, 0, 7, b'B', b'O', b'N'];
    assert_eq!(read_string(&bytes, 0), Err(Error::IoFailure));
}

#[test]
fn string_with_invalid_utf8_fails() {
    let bytes: Vec<u8> = vec![0, 0, 0, 2, 0xFF, 0xFE];
    assert_eq!(read_string(&bytes, 0), Err(Error::InvalidUtf8));
}

#[test]
fn string_write_then_read() {
    let mut buf: Vec<u8> = Vec::new();
    write_string(&mut buf, "BONJOUR").unwrap();
    assert_eq!(&buf[..4], &[0, 0, 0, 7]);
    let (text, end) = read_string(&buf, 0).unwrap();
    assert_eq!(text, "BONJOUR");
    assert_eq!(end, buf.len());
}

#[test]
fn pixel_format_round_trip_with_zero_padding() {
    let bytes: Vec<u8> = vec![32, 24, 0, 1, 0, 255, 0, 255, 0, 255, 16, 8, 0, 0, 0, 0];
    let (pf, end) = <PixelFormat as Decode>::decode(&bytes, 0).unwrap();
    assert_eq!(end, 16);
    assert_eq!(pf, rgb32());
    assert_eq!(pf.encode(), bytes);
}

#[test]
fn pixel_format_nonzero_padding_is_zeroed_on_reencode() {
    let bytes: Vec<u8> = vec![32, 24, 0, 1, 0, 255, 0, 255, 0, 255, 16, 8, 0, 9, 9, 9];
    let (pf, _) = <PixelFormat as Decode>::decode(&bytes, 0).unwrap();
    assert_eq!(pf, rgb32());
    let reencoded = pf.encode();
    assert_eq!(&reencoded[..13], &bytes[..13]);
    assert_eq!(&reencoded[13..], &[0, 0, 0]);
}

#[test]
fn pixel_format_too_short_fails() {
    let bytes: Vec<u8> = vec![32, 24, 0, 1];
    assert!(matches!(<PixelFormat as Decode>::decode(&bytes, 0), Err(Error::IoFailure)));
}

#[test]
fn pixel_format_invariant_check() {
    assert!(rgb32().check());
    let mut bad = rgb32();
    // A red channel shifted past the pixel container.
    bad.red_shift = 30;
    assert!(!bad.check());
    assert_eq!(bad.bits_per_pixel, 32);
    let mut odd = rgb32();
    odd.bits_per_pixel = 12;
    assert!(!odd.check());
}

#[test]
fn bit_width_values() {
    assert_eq!(bit_width(0), 0);
    assert_eq!(bit_width(1), 1);
    assert_eq!(bit_width(255), 8);
    assert_eq!(bit_width(256), 9);
    assert_eq!(bit_width(65535), 16);
}
