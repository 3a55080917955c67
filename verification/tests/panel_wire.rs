use lianli_devices::blank::{blank_jpeg_layer, blank_png_layer, BlankLayerError};
use lianli_devices::screen::{frame_layer, LayerKind, ScreenInfo};
use lianli_devices::session::LcdSession;
use lianli_devices::wire::{
    block_size_from_reply, check_frame_len, firmware_field_bytes, firmware_version, frame_packet,
    reply_level, FrameError,
};

fn reply_with(at: usize, bytes: &[u8]) -> [u8; 512] {
    let mut r = [0u8; 512];
    r[at..at + bytes.len()].copy_from_slice(bytes);
    r
}

fn screen(width: u32, height: u32) -> ScreenInfo {
    ScreenInfo { width, height, jpeg_quality: 85, max_payload: 1024, png: false, max_fps: 30 }
}

#[test]
fn packet_is_header_then_payload() {
    let header = vec![0xAAu8; 512];
    let payload = [1u8, 2, 3];
    let p = frame_packet(&header, &payload);
    assert_eq!(p.len(), 515);
    assert!(p[..512].iter().all(|&b| b == 0xAA));
    assert_eq!(&p[512..], &payload);
    assert_eq!(frame_packet(&header, &[]).len(), 512);
}

#[test]
fn frame_over_limit_is_refused() {
    assert_eq!(check_frame_len(1024, 1024), Ok(()));
    assert_eq!(check_frame_len(1025, 1024), Err(FrameError::TooLarge { len: 1025, max: 1024 }));
}

#[test]
fn level_is_byte_eight() {
    assert_eq!(reply_level(&reply_with(8, &[4])), 4);
    assert_eq!(reply_level(&[0u8; 512]), 0);
}

#[test]
fn block_size_is_big_endian() {
    assert_eq!(block_size_from_reply(&reply_with(8, &[0x00, 0x03, 0x18, 0x00])), Some(202_752));
    assert_eq!(block_size_from_reply(&reply_with(8, &[0x12, 0x34, 0x56, 0x78])), Some(0x1234_5678));
    assert_eq!(block_size_from_reply(&[0u8; 512]), None);
}

#[test]
fn session_keeps_chunk_size_on_zero() {
    let mut s = LcdSession::new();
    s.apply_block_size_reply(&[0u8; 512]);
    assert_eq!(s.h264_chunk_size, 202_752);
    s.apply_block_size_reply(&reply_with(8, &[0, 0, 0x10, 0]));
    assert_eq!(s.h264_chunk_size, 4096);
}

#[test]
fn firmware_stops_at_nul() {
    let r = reply_with(8, b"1.7\0junk");
    assert_eq!(firmware_field_bytes(&r), b"1.7".to_vec());
    assert_eq!(firmware_version(&r), Some("1.7".to_string()));
}

#[test]
fn firmware_field_is_at_most_32_bytes() {
    let r = reply_with(8, &[b'x'; 40]);
    assert_eq!(firmware_field_bytes(&r).len(), 32);
}

#[test]
fn empty_firmware_is_ignored() {
    let mut s = LcdSession::new();
    s.apply_firmware_reply(&reply_with(8, b"2.0"));
    assert_eq!(s.firmware_str(), Some("2.0"));
    s.apply_firmware_reply(&[0u8; 512]);
    assert_eq!(s.firmware_str(), Some("2.0"));
}

#[test]
fn invalid_utf8_firmware_is_replaced() {
    let r = reply_with(8, &[b'v', 0xFF, b'1']);
    assert_eq!(firmware_version(&r), Some("v\u{FFFD}1".to_string()));
}

#[test]
fn blank_jpeg_is_a_jpeg() {
    let jpg = blank_jpeg_layer(&screen(16, 8)).unwrap();
    assert_eq!(&jpg[..2], &[0xFF, 0xD8]);
    assert_eq!(&jpg[jpg.len() - 2..], &[0xFF, 0xD9]);
}

#[test]
fn blank_jpeg_refuses_bad_sizes() {
    assert_eq!(blank_jpeg_layer(&screen(0, 8)), Err(BlankLayerError::Encoding));
    assert_eq!(blank_jpeg_layer(&screen(65536, 1)), Err(BlankLayerError::Encoding));
}

#[test]
fn blank_png_is_a_png() {
    let png = blank_png_layer(&screen(4, 4)).unwrap();
    assert_eq!(&png[..8], &[0x89, b'P', b'N', b'G', 0x0D, 0x0A, 0x1A, 0x0A]);
    assert_eq!(blank_png_layer(&screen(4, 0)), Err(BlankLayerError::Encoding));
}

#[test]
fn frame_layer_follows_screen() {
    let mut s = screen(4, 4);
    assert_eq!(frame_layer(&s), LayerKind::Jpeg);
    s.png = true;
    assert_eq!(frame_layer(&s), LayerKind::Png);
}

#[test]
fn valid_utf8_firmware_is_kept() {
    let mut s = LcdSession::new();
    s.apply_firmware_reply(&reply_with(8, "é1.7".as_bytes()));
    assert_eq!(s.firmware_str(), Some("é1.7"));
}
