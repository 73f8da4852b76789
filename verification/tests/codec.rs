use moonpack::codec::{decode_mesh_faces, encode_mesh_faces, fac_width, CodecError, MeshFaceData};

fn face(texture: u16, vertices: Vec<u32>) -> MeshFaceData {
    MeshFaceData { texture, vertices }
}

#[test]
fn decode_walks_tex_in_order() {
    // 0x23 packs texture 2 with 3 vertices; 0x14 packs texture 1 with 4.
    let tex: Vec<u16> = vec![0x23, 0x14];
    let fac: Vec<u32> = vec![0, 1, 2, 3, 4, 5, 6];
    let faces = decode_mesh_faces(&tex, &fac).unwrap();
    assert_eq!(faces.len(), 2);
    assert_eq!(faces[0], face(2, vec![0, 1, 2]));
    assert_eq!(faces[1], face(1, vec![3, 4, 5, 6]));
}

#[test]
fn decode_rejects_zero_vertex_count() {
    let tex: Vec<u16> = vec![0x20];
    let fac: Vec<u32> = vec![];
    assert_eq!(decode_mesh_faces(&tex, &fac), Err(CodecError::ZeroVertexCount));
}

#[test]
fn decode_rejects_short_fac() {
    let tex: Vec<u16> = vec![0x13];
    let fac: Vec<u32> = vec![7, 8];
    assert_eq!(decode_mesh_faces(&tex, &fac), Err(CodecError::FacTooShort));
}

#[test]
fn decode_ignores_trailing_fac() {
    let tex: Vec<u16> = vec![0x11];
    let fac: Vec<u32> = vec![9, 10, 11];
    let faces = decode_mesh_faces(&tex, &fac).unwrap();
    assert_eq!(faces, vec![face(1, vec![9])]);
}

#[test]
fn encode_then_decode_is_identity() {
    let faces = vec![
        face(0, vec![1]),
        face(4095, vec![0, 1, 2, 3, 4, 5, 6, 7, 8, 9, 10, 11, 12, 13, 14]),
        face(7, vec![65536, 255, 70000]),
    ];
    let (tex, fac) = encode_mesh_faces(&faces).unwrap();
    assert_eq!(decode_mesh_faces(&tex, &fac).unwrap(), faces);
}

#[test]
fn encode_packs_texture_and_count() {
    let faces = vec![face(2, vec![5, 6, 7])];
    let (tex, fac) = encode_mesh_faces(&faces).unwrap();
    assert_eq!(tex, vec![0x23]);
    assert_eq!(fac, vec![5, 6, 7]);
}

#[test]
fn encode_rejects_empty_face() {
    assert_eq!(encode_mesh_faces(&vec![face(0, vec![])]), Err(CodecError::NoVertices));
}

#[test]
fn encode_rejects_sixteen_vertices() {
    let verts: Vec<u32> = (0..16).collect();
    assert_eq!(encode_mesh_faces(&vec![face(0, verts)]), Err(CodecError::TooManyVertices));
}

#[test]
fn encode_rejects_wide_texture() {
    assert_eq!(encode_mesh_faces(&vec![face(0x1000, vec![0])]), Err(CodecError::TextureTooLarge));
}

#[test]
fn width_is_narrowest() {
    assert_eq!(fac_width(&vec![0, 255]), 1);
    assert_eq!(fac_width(&vec![0, 256]), 2);
    assert_eq!(fac_width(&vec![65535]), 2);
    assert_eq!(fac_width(&vec![65536]), 4);
    assert_eq!(fac_width(&vec![]), 1);
}
