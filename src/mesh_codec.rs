//! The binary tile-mesh format: a header with the elevation range, the
//! quantized vertices, and the faces as 16-bit vertex indices.
//!
//! `f32 min_z | f32 range_z | u16 n | n × (u16 x, u16 y, u16 z, i8 nx, i8 ny, i8 nz)
//!  | u16 m | m × (u16 b, u16 a, u16 c)`, all little-endian, where a face
//! `(a, b, c)` is written with its first two corners swapped.

use vstd::prelude::*;
use crate::buffer::{Buffer, le16, le32};

verus! {

/// A vertex quantized for the renderer: a position in 16-bit steps and a
/// unit normal in signed 8-bit steps.
#[derive(Clone, Copy, Debug, PartialEq, Eq, Structural)]
pub struct QuantVertex {
    pub x: u16,
    pub y: u16,
    pub z: u16,
    pub nx: i8,
    pub ny: i8,
    pub nz: i8,
}

/// A decimated tile mesh ready to be written: the lowest elevation and the
/// elevation range (single-precision bit patterns), the quantized vertices,
/// and the faces as indices into the vertex list.
pub struct TileMesh {
    pub min_z: u32,
    pub range_z: u32,
    pub vertices: Vec<QuantVertex>,
    pub faces: Vec<(u16, u16, u16)>,
}

/// What a tile mesh holds: `(min_z, range_z, vertices, faces)`.
pub type TileMeshView = (u32, u32, Seq<QuantVertex>, Seq<(u16, u16, u16)>);

impl View for TileMesh {
    type V = TileMeshView;

    open spec fn view(&self) -> TileMeshView {
        (self.min_z, self.range_z, self.vertices@, self.faces@)
    }
}

/// Both counts fit the 16-bit fields that carry them.
pub open spec fn mesh_fits(m: TileMeshView) -> bool {
    m.2.len() < 65536 && m.3.len() < 65536
}

/// The two's-complement byte of `n`.
pub open spec fn byte_of(n: i8) -> u8 {
    if n < 0 {
        (n + 256) as u8
    } else {
        n as u8
    }
}

/// The signed value of the two's-complement byte `b`.
pub open spec fn signed_of(b: u8) -> i8 {
    if b >= 128 {
        (b - 256) as i8
    } else {
        b as i8
    }
}

pub open spec fn vertex_bytes(v: QuantVertex) -> Seq<u8> {
    le16(v.x) + le16(v.y) + le16(v.z) + seq![byte_of(v.nx), byte_of(v.ny), byte_of(v.nz)]
}

pub open spec fn face_bytes(f: (u16, u16, u16)) -> Seq<u8> {
    le16(f.1) + le16(f.0) + le16(f.2)
}

pub open spec fn vertices_bytes(vs: Seq<QuantVertex>) -> Seq<u8>
    decreases vs.len(),
{
    if vs.len() == 0 {
        Seq::empty()
    } else {
        vertices_bytes(vs.drop_last()) + vertex_bytes(vs.last())
    }
}

pub open spec fn faces_bytes(fs: Seq<(u16, u16, u16)>) -> Seq<u8>
    decreases fs.len(),
{
    if fs.len() == 0 {
        Seq::empty()
    } else {
        faces_bytes(fs.drop_last()) + face_bytes(fs.last())
    }
}

/// The encoding of a tile mesh.
pub open spec fn mesh_bytes(m: TileMeshView) -> Seq<u8> {
    le32(m.0) + le32(m.1) + le16(m.2.len() as u16) + vertices_bytes(m.2) + le16(m.3.len() as u16)
        + faces_bytes(m.3)
}

/// The little-endian 16-bit integer at `p`.
pub open spec fn u16_at(b: Seq<u8>, p: int) -> u16 {
    (b[p] + 256 * b[p + 1]) as u16
}

/// The little-endian 32-bit word at `p`.
pub open spec fn u32_at(b: Seq<u8>, p: int) -> u32 {
    (b[p] + 256 * b[p + 1] + 65536 * b[p + 2] + 16777216 * b[p + 3]) as u32
}

pub open spec fn vertex_at(b: Seq<u8>, p: int) -> QuantVertex {
    QuantVertex {
        x: u16_at(b, p),
        y: u16_at(b, p + 2),
        z: u16_at(b, p + 4),
        nx: signed_of(b[p + 6]),
        ny: signed_of(b[p + 7]),
        nz: signed_of(b[p + 8]),
    }
}

pub open spec fn face_at(b: Seq<u8>, p: int) -> (u16, u16, u16) {
    (u16_at(b, p + 2), u16_at(b, p), u16_at(b, p + 4))
}

/// Reads a tile mesh from `b`: `None` unless `b` is exactly one encoded mesh.
pub open spec fn parse_mesh(b: Seq<u8>) -> Option<TileMeshView> {
    if b.len() < 10 {
        None
    } else {
        let nv = u16_at(b, 8) as int;
        let vend = 10 + 9 * nv;
        if b.len() < vend + 2 {
            None
        } else {
            let nf = u16_at(b, vend) as int;
            if b.len() != vend + 2 + 6 * nf {
                None
            } else {
                Some(
                    (
                        u32_at(b, 0),
                        u32_at(b, 4),
                        Seq::new(nv as nat, |i: int| vertex_at(b, 10 + 9 * i)),
                        Seq::new(nf as nat, |i: int| face_at(b, vend + 2 + 6 * i)),
                    ),
                )
            }
        }
    }
}

proof fn lemma_le16_read(x: u16)
    ensures
        (le16(x)[0] + 256 * le16(x)[1]) as u16 == x,
        le16(x).len() == 2,
{
}

proof fn lemma_le32_read(x: u32)
    ensures
        (le32(x)[0] + 256 * le32(x)[1] + 65536 * le32(x)[2] + 16777216 * le32(x)[3]) as u32 == x,
        le32(x).len() == 4,
{
}

proof fn lemma_signed_byte(n: i8)
    ensures
        signed_of(byte_of(n)) == n,
{
}

proof fn lemma_vertices_bytes(vs: Seq<QuantVertex>)
    ensures
        vertices_bytes(vs).len() == 9 * vs.len(),
        forall|i: int, k: int|
            0 <= i < vs.len() && 0 <= k < 9 ==> vertices_bytes(vs)[9 * i + k] == #[trigger] vertex_bytes(
                vs[i],
            )[k],
    decreases vs.len(),
{
    if vs.len() > 0 {
        let init = vs.drop_last();
        lemma_vertices_bytes(init);
        assert forall|i: int, k: int| 0 <= i < vs.len() && 0 <= k < 9 implies vertices_bytes(vs)[9 * i
            + k] == #[trigger] vertex_bytes(vs[i])[k] by {
            if i < vs.len() - 1 {
                assert(init[i] == vs[i]);
                assert(vertex_bytes(init[i])[k] == vertices_bytes(init)[9 * i + k]);
            }
        }
    }
}

proof fn lemma_faces_bytes(fs: Seq<(u16, u16, u16)>)
    ensures
        faces_bytes(fs).len() == 6 * fs.len(),
        forall|i: int, k: int|
            0 <= i < fs.len() && 0 <= k < 6 ==> faces_bytes(fs)[6 * i + k] == #[trigger] face_bytes(
                fs[i],
            )[k],
    decreases fs.len(),
{
    if fs.len() > 0 {
        let init = fs.drop_last();
        lemma_faces_bytes(init);
        assert forall|i: int, k: int| 0 <= i < fs.len() && 0 <= k < 6 implies faces_bytes(fs)[6 * i
            + k] == #[trigger] face_bytes(fs[i])[k] by {
            if i < fs.len() - 1 {
                assert(init[i] == fs[i]);
                assert(face_bytes(init[i])[k] == faces_bytes(init)[6 * i + k]);
            }
        }
    }
}

/// Round trip: reading an encoded tile mesh gives back the same elevation
/// range, the same vertices and the same faces.
pub proof fn lemma_round_trip(m: TileMeshView)
    requires
        mesh_fits(m),
    ensures
        parse_mesh(mesh_bytes(m)) == Some(m),
{
    let b = mesh_bytes(m);
    let nv = m.2.len() as int;
    let nf = m.3.len() as int;
    let vend = 10 + 9 * nv;
    lemma_vertices_bytes(m.2);
    lemma_faces_bytes(m.3);
    lemma_le32_read(m.0);
    lemma_le32_read(m.1);
    lemma_le16_read(nv as u16);
    lemma_le16_read(nf as u16);
    assert(b.len() == vend + 2 + 6 * nf);
    assert(u32_at(b, 0) == m.0);
    assert(u32_at(b, 4) == m.1);
    assert(u16_at(b, 8) == nv);
    assert(u16_at(b, vend) == nf);
    let vs = Seq::new(nv as nat, |i: int| vertex_at(b, 10 + 9 * i));
    assert forall|i: int| 0 <= i < nv implies #[trigger] vs[i] == m.2[i] by {
        let v = m.2[i];
        lemma_le16_read(v.x);
        lemma_le16_read(v.y);
        lemma_le16_read(v.z);
        lemma_signed_byte(v.nx);
        lemma_signed_byte(v.ny);
        lemma_signed_byte(v.nz);
        assert forall|k: int| 0 <= k < 9 implies b[10 + 9 * i + k] == #[trigger] vertex_bytes(v)[k] by {
            assert(vertices_bytes(m.2)[9 * i + k] == vertex_bytes(m.2[i])[k]);
        }
        assert(vertex_bytes(v)[0] == le16(v.x)[0]);
        assert(vertex_bytes(v)[1] == le16(v.x)[1]);
        assert(vertex_bytes(v)[2] == le16(v.y)[0]);
        assert(vertex_bytes(v)[3] == le16(v.y)[1]);
        assert(vertex_bytes(v)[4] == le16(v.z)[0]);
        assert(vertex_bytes(v)[5] == le16(v.z)[1]);
        assert(b[10 + 9 * i + 0] == vertex_bytes(v)[0]);
        assert(b[10 + 9 * i + 1] == vertex_bytes(v)[1]);
        assert(b[10 + 9 * i + 2] == vertex_bytes(v)[2]);
        assert(b[10 + 9 * i + 3] == vertex_bytes(v)[3]);
        assert(b[10 + 9 * i + 4] == vertex_bytes(v)[4]);
        assert(b[10 + 9 * i + 5] == vertex_bytes(v)[5]);
        assert(b[10 + 9 * i + 6] == vertex_bytes(v)[6]);
        assert(b[10 + 9 * i + 7] == vertex_bytes(v)[7]);
        assert(b[10 + 9 * i + 8] == vertex_bytes(v)[8]);
    }
    assert(vs =~= m.2);
    let fs = Seq::new(nf as nat, |i: int| face_at(b, vend + 2 + 6 * i));
    assert forall|i: int| 0 <= i < nf implies #[trigger] fs[i] == m.3[i] by {
        let f = m.3[i];
        lemma_le16_read(f.0);
        lemma_le16_read(f.1);
        lemma_le16_read(f.2);
        assert forall|k: int| 0 <= k < 6 implies b[vend + 2 + 6 * i + k] == #[trigger] face_bytes(f)[k] by {
            assert(faces_bytes(m.3)[6 * i + k] == face_bytes(m.3[i])[k]);
        }
        assert(face_bytes(f)[0] == le16(f.1)[0]);
        assert(face_bytes(f)[1] == le16(f.1)[1]);
        assert(face_bytes(f)[2] == le16(f.0)[0]);
        assert(face_bytes(f)[3] == le16(f.0)[1]);
        assert(face_bytes(f)[4] == le16(f.2)[0]);
        assert(face_bytes(f)[5] == le16(f.2)[1]);
        assert(b[vend + 2 + 6 * i + 0] == face_bytes(f)[0]);
        assert(b[vend + 2 + 6 * i + 1] == face_bytes(f)[1]);
        assert(b[vend + 2 + 6 * i + 2] == face_bytes(f)[2]);
        assert(b[vend + 2 + 6 * i + 3] == face_bytes(f)[3]);
        assert(b[vend + 2 + 6 * i + 4] == face_bytes(f)[4]);
        assert(b[vend + 2 + 6 * i + 5] == face_bytes(f)[5]);
    }
    assert(fs =~= m.3);
}

fn signed_byte(n: i8) -> (r: u8)
    ensures
        r == byte_of(n),
{
    if n < 0 {
        (n as i16 + 256) as u8
    } else {
        n as u8
    }
}

fn byte_signed(b: u8) -> (r: i8)
    ensures
        r == signed_of(b),
{
    if b >= 128 {
        (b as i16 - 256) as i8
    } else {
        b as i8
    }
}

fn write_vertex(buf: &mut Buffer, v: QuantVertex)
    ensures
        final(buf)@ == old(buf)@ + vertex_bytes(v),
{
    buf.write_short(v.x);
    buf.write_short(v.y);
    buf.write_short(v.z);
    buf.write_byte(signed_byte(v.nx));
    buf.write_byte(signed_byte(v.ny));
    buf.write_byte(signed_byte(v.nz));
    assert(buf@ =~= old(buf)@ + vertex_bytes(v));
}

fn write_face(buf: &mut Buffer, f: (u16, u16, u16))
    ensures
        final(buf)@ == old(buf)@ + face_bytes(f),
{
    buf.write_short(f.1);
    buf.write_short(f.0);
    buf.write_short(f.2);
    assert(buf@ =~= old(buf)@ + face_bytes(f));
}

/// Encodes a tile mesh.
pub fn encode_tile_mesh(mesh: &TileMesh) -> (r: Buffer)
    requires
        mesh_fits(mesh@),
    ensures
        r@ == mesh_bytes(mesh@),
{
    let mut buf = Buffer::new();
    buf.write_float_bits(mesh.min_z);
    buf.write_float_bits(mesh.range_z);
    buf.write_short(mesh.vertices.len() as u16);
    let ghost head = buf@;
    let mut i: usize = 0;
    while i < mesh.vertices.len()
        invariant
            i <= mesh.vertices@.len(),
            buf@ == head + vertices_bytes(mesh.vertices@.subrange(0, i as int)),
        decreases mesh.vertices@.len() - i,
    {
        write_vertex(&mut buf, mesh.vertices[i]);
        proof {
            let vs = mesh.vertices@;
            assert(vs.subrange(0, i + 1).drop_last() =~= vs.subrange(0, i as int));
            assert(buf@ =~= head + vertices_bytes(vs.subrange(0, i + 1)));
        }
        i = i + 1;
    }
    assert(mesh.vertices@.subrange(0, i as int) =~= mesh.vertices@);
    buf.write_short(mesh.faces.len() as u16);
    let ghost mid = buf@;
    let mut k: usize = 0;
    while k < mesh.faces.len()
        invariant
            k <= mesh.faces@.len(),
            buf@ == mid + faces_bytes(mesh.faces@.subrange(0, k as int)),
        decreases mesh.faces@.len() - k,
    {
        write_face(&mut buf, mesh.faces[k]);
        proof {
            let fs = mesh.faces@;
            assert(fs.subrange(0, k + 1).drop_last() =~= fs.subrange(0, k as int));
            assert(buf@ =~= mid + faces_bytes(fs.subrange(0, k + 1)));
        }
        k = k + 1;
    }
    assert(mesh.faces@.subrange(0, k as int) =~= mesh.faces@);
    assert(buf@ =~= mesh_bytes(mesh@));
    buf
}

fn read_u16(b: &[u8], p: usize) -> (r: u16)
    requires
        p + 1 < b@.len(),
    ensures
        r == u16_at(b@, p as int),
{
    b[p] as u16 + 256 * (b[p + 1] as u16)
}

fn read_u32(b: &[u8], p: usize) -> (r: u32)
    requires
        p + 3 < b@.len(),
    ensures
        r == u32_at(b@, p as int),
{
    b[p] as u32 + 256 * (b[p + 1] as u32) + 65536 * (b[p + 2] as u32) + 16777216 * (b[p + 3] as u32)
}

fn read_vertex(b: &[u8], p: usize) -> (r: QuantVertex)
    requires
        p + 8 < b@.len() <= usize::MAX,
    ensures
        r == vertex_at(b@, p as int),
{
    QuantVertex {
        x: read_u16(b, p),
        y: read_u16(b, p + 2),
        z: read_u16(b, p + 4),
        nx: byte_signed(b[p + 6]),
        ny: byte_signed(b[p + 7]),
        nz: byte_signed(b[p + 8]),
    }
}

/// Decodes a tile mesh: `Some` exactly when `bytes` is one encoded mesh,
/// with what it encodes.
pub fn decode_tile_mesh(bytes: &[u8]) -> (r: Option<TileMesh>)
    ensures
        match r {
            Some(m) => parse_mesh(bytes@) == Some(m@),
            None => parse_mesh(bytes@) is None,
        },
{
    let b = bytes;
    let n = b.len();
    if n < 10 {
        return None;
    }
    let nv = read_u16(b, 8) as usize;
    let vend = 10 + 9 * nv;
    if b.len() < vend + 2 {
        return None;
    }
    let nf = read_u16(b, vend) as usize;
    if b.len() != vend + 2 + 6 * nf {
        return None;
    }
    let min_z = read_u32(b, 0);
    let range_z = read_u32(b, 4);
    let mut vertices: Vec<QuantVertex> = Vec::new();
    let mut i: usize = 0;
    while i < nv
        invariant
            nv == u16_at(b@, 8),
            vend == 10 + 9 * nv,
            vend + 2 <= b@.len(),
            b@.len() <= usize::MAX,
            i <= nv,
            vertices@ =~= Seq::new(i as nat, |j: int| vertex_at(b@, 10 + 9 * j)),
        decreases nv - i,
    {
        let v = read_vertex(b, 10 + 9 * i);
        vertices.push(v);
        i = i + 1;
    }
    let mut faces: Vec<(u16, u16, u16)> = Vec::new();
    let mut k: usize = 0;
    while k < nf
        invariant
            vend + 2 + 6 * nf == b@.len(),
            b@.len() <= usize::MAX,
            k <= nf,
            faces@ =~= Seq::new(k as nat, |j: int| face_at(b@, vend + 2 + 6 * j)),
        decreases nf - k,
    {
        let p = vend + 2 + 6 * k;
        let f = (read_u16(b, p + 2), read_u16(b, p), read_u16(b, p + 4));
        faces.push(f);
        k = k + 1;
    }
    Some(TileMesh { min_z, range_z, vertices, faces })
}

} // verus!
