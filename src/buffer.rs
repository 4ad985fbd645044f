//! The append-only byte sink shared by every encoder of the library.

use vstd::prelude::*;
use std::io::Write;

verus! {

/// Two bytes of `x`, least significant first.
pub open spec fn le16(x: u16) -> Seq<u8> {
    seq![(x % 256) as u8, (x / 256) as u8]
}

/// Four bytes of `x`, least significant first.
pub open spec fn le32(x: u32) -> Seq<u8> {
    seq![(x % 256) as u8, ((x / 256) % 256) as u8, ((x / 65536) % 256) as u8, (x / 16777216) as u8]
}

/// An append-only sequence of bytes with typed little-endian writes.
pub struct Buffer {
    pub bytes: Vec<u8>,
}

impl View for Buffer {
    type V = Seq<u8>;

    open spec fn view(&self) -> Seq<u8> {
        self.bytes@
    }
}

impl Buffer {
    /// An empty buffer.
    pub fn new() -> (r: Buffer)
        ensures
            r@ == Seq::<u8>::empty(),
    {
        Buffer { bytes: Vec::new() }
    }

    /// Appends one byte.
    pub fn write_byte(&mut self, x: u8)
        ensures
            final(self)@ == old(self)@.push(x),
    {
        self.bytes.push(x);
    }

    /// Appends a 16-bit integer, little-endian.
    pub fn write_short(&mut self, x: u16)
        ensures
            final(self)@ == old(self)@ + le16(x),
    {
        self.bytes.push((x % 256) as u8);
        self.bytes.push((x / 256) as u8);
        assert(self@ =~= old(self)@ + le16(x));
    }

    /// Appends a single-precision float, given by its IEEE-754 bit pattern,
    /// little-endian.
    pub fn write_float_bits(&mut self, x: u32)
        ensures
            final(self)@ == old(self)@ + le32(x),
    {
        self.bytes.push((x % 256) as u8);
        self.bytes.push(((x / 256) % 256) as u8);
        self.bytes.push(((x / 65536) % 256) as u8);
        self.bytes.push((x / 16777216) as u8);
        assert(self@ =~= old(self)@ + le32(x));
    }
}

impl Default for Buffer {
    fn default() -> (r: Buffer)
        ensures
            r@ == Seq::<u8>::empty(),
    {
        Buffer::new()
    }
}

/// The gzip stream that flate2 makes of `data` at its default level, with a
/// header that holds no name, no comment and no time stamp.
pub uninterp spec fn gzip_of(data: Seq<u8>) -> Seq<u8>;

/// Relies on flate2::write::GzEncoder (default level, default header):
/// the compressed stream depends on the data alone, and a fresh encoder
/// into a `Vec` that is written once and then finished does not fail.
#[verifier::external_body]
fn gzip(data: &[u8]) -> (r: Option<Vec<u8>>)
    ensures
        r is Some,
        r->0@ == gzip_of(data@),
{
    let mut encoder = flate2::write::GzEncoder::new(Vec::new(), flate2::Compression::default());
    encoder.write_all(data).ok()?;
    encoder.finish().ok()
}

impl Buffer {
    /// The buffer's bytes as a gzip stream, as they are stored on disk.
    pub fn compressed(&self) -> (r: Option<Vec<u8>>)
        ensures
            r is Some,
            r->0@ == gzip_of(self@),
    {
        gzip(self.bytes.as_slice())
    }
}

} // verus!
