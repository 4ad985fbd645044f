use terrain_assets::mesh_codec::{decode_tile_mesh, encode_tile_mesh, QuantVertex, TileMesh};

fn sample_mesh() -> TileMesh {
    TileMesh {
        min_z: 100.0f32.to_bits(),
        range_z: 0.0f32.to_bits(),
        vertices: vec![
            QuantVertex { x: 0, y: 0, z: 0, nx: 0, ny: 0, nz: 127 },
            QuantVertex { x: 65535, y: 0, z: 0, nx: -127, ny: 1, nz: -1 },
            QuantVertex { x: 0, y: 65535, z: 0, nx: 0, ny: 0, nz: 127 },
        ],
        faces: vec![(0, 1, 2)],
    }
}

#[test]
fn encode_writes_the_documented_layout() {
    let bytes = encode_tile_mesh(&sample_mesh()).bytes;
    let mut expect = Vec::new();
    expect.extend_from_slice(&100.0f32.to_le_bytes());
    expect.extend_from_slice(&0.0f32.to_le_bytes());
    expect.extend_from_slice(&[3, 0]);
    expect.extend_from_slice(&[0, 0, 0, 0, 0, 0, 0, 0, 127]);
    expect.extend_from_slice(&[0xff, 0xff, 0, 0, 0, 0, 0x81, 1, 0xff]);
    expect.extend_from_slice(&[0, 0, 0xff, 0xff, 0, 0, 0, 0, 127]);
    expect.extend_from_slice(&[1, 0]);
    expect.extend_from_slice(&[1, 0, 0, 0, 2, 0]);
    assert_eq!(bytes, expect);
}

#[test]
fn decode_inverts_encode() {
    let m = sample_mesh();
    let bytes = encode_tile_mesh(&m).bytes;
    let d = decode_tile_mesh(&bytes).expect("decodes");
    assert_eq!(d.vertices.len(), m.vertices.len());
    assert_eq!(d.faces.len(), m.faces.len());
    assert_eq!(d.min_z, m.min_z);
    assert_eq!(d.range_z, m.range_z);
    assert_eq!(d.vertices, m.vertices);
    assert_eq!(d.faces, m.faces);
}

#[test]
fn flat_tile_header_has_zero_range() {
    let bytes = encode_tile_mesh(&sample_mesh()).bytes;
    let d = decode_tile_mesh(&bytes).unwrap();
    assert_eq!(f32::from_bits(d.min_z), 100.0);
    assert_eq!(f32::from_bits(d.range_z), 0.0);
    assert!(d.vertices.iter().all(|v| v.z == 0));
}

#[test]
fn decode_rejects_truncated_or_padded_input() {
    let bytes = encode_tile_mesh(&sample_mesh()).bytes;
    assert!(decode_tile_mesh(&bytes[..bytes.len() - 1]).is_none());
    let mut longer = bytes.clone();
    longer.push(0);
    assert!(decode_tile_mesh(&longer).is_none());
    assert!(decode_tile_mesh(&bytes[..9]).is_none());
    assert!(decode_tile_mesh(&[]).is_none());
}

#[test]
fn empty_mesh_round_trips() {
    let m = TileMesh { min_z: 1, range_z: 2, vertices: vec![], faces: vec![] };
    let bytes = encode_tile_mesh(&m).bytes;
    assert_eq!(bytes, vec![1, 0, 0, 0, 2, 0, 0, 0, 0, 0, 0, 0]);
    let d = decode_tile_mesh(&bytes).unwrap();
    assert!(d.vertices.is_empty() && d.faces.is_empty());
}
