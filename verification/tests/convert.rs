use moonpack::bbmodel::{ElementType, OutlinerItem, Rect, XYZ};
use moonpack::convert::{convert_subtree, validate_texture_indices, ConvertError, SubtreeError};
use moonpack::moon::{
    Face, Metadata, MeshData, ModelData, ModelPart, Moon, Sided, TextureData, Textures,
};

fn group(name: &str, chld: Vec<ModelPart>) -> ModelPart {
    ModelPart {
        name: name.to_owned(),
        chld,
        anim: None,
        rot: XYZ { x: 0, y: 0, z: 0 },
        piv: XYZ { x: 0, y: 0, z: 0 },
        primary: None,
        secondary: None,
        pt: None,
        vsb: true,
        smo: false,
        data: ModelData::Group {},
        nr: None,
        cn: None,
        pr: None,
    }
}

fn cube(name: &str, up: Option<Face>) -> ModelPart {
    let mut p = group(name, vec![]);
    p.data = ModelData::Cube {
        cube_data: Sided { n: None, s: None, u: up, d: None, w: None, e: None },
        f: XYZ { x: (0.0f64).to_bits(), y: (0.0f64).to_bits(), z: (0.0f64).to_bits() },
        t: XYZ { x: (1.0f64).to_bits(), y: (1.0f64).to_bits(), z: (1.0f64).to_bits() },
        inf: (0.0f64).to_bits(),
    };
    p
}

fn empty_moon() -> Moon {
    Moon {
        textures: Textures { src: vec![], data: vec![] },
        scripts: vec![],
        animations: vec![],
        models: None,
        resources: vec![],
        metadata: Metadata {
            uuid: String::new(),
            authors: vec![],
            color: None,
            bg: None,
            id: None,
            name: String::new(),
            description: String::new(),
            ver: String::new(),
        },
    }
}

#[test]
fn cube_with_children_fails() {
    let mut bad = cube("bad", None);
    bad.chld = vec![group("stray", vec![])];
    let mut elements = vec![];
    assert_eq!(bad.convert_elements(&mut elements), Err(ConvertError::LeafWithChildren));
}

#[test]
fn mesh_with_children_fails() {
    let mut bad = group("bad", vec![group("stray", vec![])]);
    bad.data = ModelData::Mesh {
        mesh_data: MeshData { vtx: vec![], tex: vec![], fac: vec![], uvs: vec![] },
    };
    let mut elements = vec![];
    assert_eq!(bad.convert_elements(&mut elements), Err(ConvertError::LeafWithChildren));
}

#[test]
fn identical_siblings_get_distinct_identifiers() {
    // two cubes identical in everything the structural hash reads, placed at
    // different pivots; the running salt must keep their identifiers apart
    let mut a = cube("twin", None);
    a.piv = XYZ { x: (1.0f64).to_bits(), y: 0, z: 0 };
    let b = cube("twin", None);
    let root = group("root", vec![a, b]);
    let mut elements = vec![];
    let item = root.convert_elements(&mut elements).unwrap();
    assert_eq!(elements.len(), 2);
    assert_ne!(elements[0].uuid, elements[1].uuid);
    match item {
        OutlinerItem::Group(g) => {
            assert_eq!(g.children.len(), 2);
            match (&g.children[0], &g.children[1]) {
                (OutlinerItem::Element(u0), OutlinerItem::Element(u1)) => {
                    assert_eq!(*u0, elements[0].uuid);
                    assert_eq!(*u1, elements[1].uuid);
                    assert_ne!(u0, u1);
                }
                _ => panic!("expected element references"),
            }
        }
        _ => panic!("expected a group"),
    }
}

#[test]
fn group_with_one_cube_converts_end_to_end() {
    let up = Face {
        tex: 0,
        uv: Rect {
            x0: (0.0f64).to_bits(),
            y0: (0.0f64).to_bits(),
            x1: (16.0f64).to_bits(),
            y1: (16.0f64).to_bits(),
        },
        rot: (0.0f64).to_bits(),
    };
    let root = group("root", vec![cube("box", Some(up))]);
    let mut moon = empty_moon();
    moon.textures.data = vec![TextureData { d: "skin".to_owned(), e: None }];
    moon.models = Some(group("models", vec![root]));
    // the empty path names the root: its child "root" becomes the outliner group
    let h = convert_subtree(&moon, &vec![]).unwrap();
    assert_eq!(h.elements.len(), 1);
    let e = &h.elements[0];
    assert_eq!(e.name, "box");
    assert_eq!(e.visibility, Some(true));
    match &e.extra {
        ElementType::Cube { from, to, faces, inflate, .. } => {
            assert_eq!(from.x, (0.0f64).to_bits());
            assert_eq!(to.y, (1.0f64).to_bits());
            let upf = faces.up.expect("up face");
            assert_eq!(upf.texture, Some(0));
            assert_eq!(upf.uv.x1, (16.0f64).to_bits());
            assert!(faces.north.is_none());
            assert_eq!(*inflate, Some((0.0f64).to_bits()));
        }
        _ => panic!("expected a cube element"),
    }
    assert_eq!(h.outliner.len(), 1);
    match &h.outliner[0] {
        OutlinerItem::Group(g) => {
            assert_eq!(g.name, "root");
            assert_eq!(g.children.len(), 1);
            match &g.children[0] {
                OutlinerItem::Element(id) => assert_eq!(*id, e.uuid),
                _ => panic!("expected an element reference"),
            }
        }
        _ => panic!("expected a group"),
    }
}

#[test]
fn mesh_converts_with_synthesized_identifiers() {
    let mut m = group("tri", vec![]);
    m.data = ModelData::Mesh {
        mesh_data: MeshData {
            vtx: vec![
                (0.0f64).to_bits(),
                (0.0f64).to_bits(),
                (0.0f64).to_bits(),
                (1.0f64).to_bits(),
                (0.0f64).to_bits(),
                (0.0f64).to_bits(),
                (0.0f64).to_bits(),
                (1.0f64).to_bits(),
                (0.0f64).to_bits(),
            ],
            tex: vec![0x03],
            fac: vec![0, 1, 2],
            uvs: vec![
                (0.0f64).to_bits(),
                (0.0f64).to_bits(),
                (1.0f64).to_bits(),
                (0.0f64).to_bits(),
                (0.0f64).to_bits(),
                (1.0f64).to_bits(),
            ],
        },
    };
    let mut elements = vec![];
    m.convert_elements(&mut elements).unwrap();
    assert_eq!(elements.len(), 1);
    match &elements[0].extra {
        ElementType::Mesh { vertices, faces } => {
            assert_eq!(vertices.len(), 3);
            assert_eq!(vertices[0].0, "0");
            assert_eq!(vertices[2].0, "2");
            assert_eq!(vertices[1].1.x, (1.0f64).to_bits());
            assert_eq!(faces.len(), 1);
            assert_eq!(faces[0].0, "0");
            let mf = &faces[0].1;
            assert_eq!(mf.vertices, vec!["0", "1", "2"]);
            assert_eq!(mf.texture, Some(0));
            assert_eq!(mf.uv.len(), 3);
            assert_eq!(mf.uv[1].0, "1");
            assert_eq!(mf.uv[1].1.x, (1.0f64).to_bits());
        }
        _ => panic!("expected a mesh element"),
    }
}

#[test]
fn mesh_with_dangling_vertex_fails() {
    let mut m = group("tri", vec![]);
    m.data = ModelData::Mesh {
        mesh_data: MeshData { vtx: vec![0, 0, 0], tex: vec![0x01], fac: vec![5], uvs: vec![0, 0] },
    };
    let mut elements = vec![];
    assert_eq!(m.convert_elements(&mut elements), Err(ConvertError::VertexIndexOutOfRange));
}

#[test]
fn texture_index_is_checked_at_conversion() {
    let up = Face {
        tex: 3,
        uv: Rect { x0: 0, y0: 0, x1: 0, y1: 0 },
        rot: 0,
    };
    let root = group("root", vec![cube("box", Some(up))]);
    let mut moon = empty_moon();
    moon.models = Some(group("models", vec![root]));
    // no texture slots at all: index 3 is out of range
    assert_eq!(
        convert_subtree(&moon, &vec![0]),
        Err(SubtreeError::Convert(ConvertError::TextureIndexOutOfRange))
    );
}

#[test]
fn subtree_path_is_checked() {
    let mut moon = empty_moon();
    assert_eq!(convert_subtree(&moon, &vec![]), Err(SubtreeError::NoModels));
    moon.models = Some(group("models", vec![]));
    assert_eq!(convert_subtree(&moon, &vec![4]), Err(SubtreeError::BadPath));
    moon.models = Some(group("models", vec![cube("box", None)]));
    assert_eq!(convert_subtree(&moon, &vec![0]), Err(SubtreeError::NotAGroup));
}

#[test]
fn hierarchy_hands_back_non_groups() {
    let c = cube("box", None);
    match c.hierarchy() {
        Err(moonpack::convert::HierarchyError::NotAGroup(p)) => assert_eq!(p.name, "box"),
        _ => panic!("expected the part back"),
    }
    let g = group("root", vec![cube("box", None)]);
    let h = g.hierarchy().unwrap();
    assert_eq!(h.elements.len(), 1);
    assert!(validate_texture_indices(&h, 0).is_ok());
}
