use std::io::Read;
use terrain_assets::buffer::Buffer;

#[test]
fn write_byte_appends_in_order() {
    let mut b = Buffer::new();
    b.write_byte(7);
    b.write_byte(255);
    assert_eq!(b.bytes, vec![7, 255]);
}

#[test]
fn write_short_is_little_endian() {
    let mut b = Buffer::default();
    b.write_short(0x1234);
    b.write_short(65535);
    assert_eq!(b.bytes, vec![0x34, 0x12, 0xff, 0xff]);
}

#[test]
fn write_float_bits_is_little_endian() {
    let mut b = Buffer::new();
    b.write_float_bits(1.5f32.to_bits());
    b.write_float_bits((-2.0f32).to_bits());
    assert_eq!(b.bytes, vec![0x00, 0x00, 0xc0, 0x3f, 0x00, 0x00, 0x00, 0xc0]);
}

#[test]
fn compressed_is_a_gzip_stream_of_the_bytes() {
    let mut b = Buffer::new();
    for i in 0..200u16 {
        b.write_short(i % 7);
    }
    let z = b.compressed().expect("compression failed");
    assert_eq!(&z[0..2], &[0x1f, 0x8b]);
    assert_ne!(z, b.bytes);
    let mut out = Vec::new();
    flate2::read::GzDecoder::new(&z[..]).read_to_end(&mut out).unwrap();
    assert_eq!(out, b.bytes);
}
