use blightmud::net::zlib::ZlibState;
use std::io::Write;

fn compressed(text: &[u8]) -> Vec<u8> {
    let mut enc = flate2::write::ZlibEncoder::new(Vec::new(), flate2::Compression::default());
    enc.write_all(text).unwrap();
    enc.finish().unwrap()
}

#[test]
fn bytes_pass_through_until_decompression_starts() {
    let mut zlib = ZlibState::new();
    assert!(!zlib.is_active());
    assert_eq!(zlib.decompress(b"plain").unwrap(), b"plain".to_vec());
}

#[test]
fn decompression_across_chunks() {
    let data = compressed(b"hello from the mud\r\n");
    let (first, rest) = data.split_at(5);
    let mut zlib = ZlibState::new();
    let mut out = zlib.start_decompression_with(first.to_vec()).unwrap();
    assert!(zlib.is_active());
    out.extend(zlib.decompress(rest).unwrap());
    assert_eq!(out, b"hello from the mud\r\n".to_vec());
}

#[test]
fn corrupt_stream_is_an_error() {
    let mut zlib = ZlibState::new();
    assert!(zlib.start_decompression_with(vec![0xff, 0xff, 0xff, 0xff]).is_err());
}

#[test]
fn a_failure_stays() {
    let mut zlib = ZlibState::new();
    assert!(zlib.start_decompression_with(vec![0xff, 0xff, 0xff, 0xff]).is_err());
    let data = compressed(b"fine\r\n");
    assert!(zlib.decompress(&data).is_err());
}

#[test]
fn bytes_after_the_stream_end_are_an_error() {
    let mut data = compressed(b"done\r\n");
    let mut zlib = ZlibState::new();
    assert_eq!(zlib.start_decompression_with(data.clone()).unwrap(), b"done\r\n".to_vec());
    data.truncate(0);
    data.extend_from_slice(b"extra");
    assert!(zlib.decompress(&data).is_err());
}
