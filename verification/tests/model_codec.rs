use moonpack::adapter::DecodeError;
use moonpack::bbmodel::{Rect, XYZ};
use moonpack::model_codec::{decode_moon, decode_part, encode_moon, encode_part};
use moonpack::moon::{
    Face, MeshData, Metadata, ModelData, ModelPart, Moon, ParentType, Sided, TextureData, Textures,
};
use moonpack::tag::Tag;

fn group(name: &str, chld: Vec<ModelPart>) -> ModelPart {
    ModelPart {
        name: name.to_owned(),
        chld,
        anim: None,
        rot: XYZ { x: 0, y: 0, z: 0 },
        piv: XYZ { x: 0, y: 0, z: 0 },
        primary: None,
        secondary: None,
        pt: None,
        vsb: true,
        smo: false,
        data: ModelData::Group {},
        nr: None,
        cn: None,
        pr: None,
    }
}

fn sample_moon() -> Moon {
    let face = Face {
        tex: 0,
        uv: Rect {
            x0: (0.0f64).to_bits(),
            y0: (0.0f64).to_bits(),
            x1: (16.0f64).to_bits(),
            y1: (16.0f64).to_bits(),
        },
        rot: (90.0f64).to_bits(),
    };
    let mut cube = group("box", vec![]);
    cube.data = ModelData::Cube {
        cube_data: Sided { n: Some(face), s: None, u: Some(face), d: None, w: None, e: None },
        f: XYZ { x: (0.0f64).to_bits(), y: (0.0f64).to_bits(), z: (0.0f64).to_bits() },
        t: XYZ { x: (1.0f64).to_bits(), y: (2.0f64).to_bits(), z: (3.0f64).to_bits() },
        inf: (0.25f64).to_bits(),
    };
    cube.nr = Some((1, 2, 3, 4));
    cube.pt = Some(ParentType::Head);
    cube.primary = Some("CUTOUT".to_owned());
    let mut mesh = group("tri", vec![]);
    mesh.data = ModelData::Mesh {
        mesh_data: MeshData {
            vtx: vec![(0.0f64).to_bits(); 9],
            tex: vec![0x03],
            fac: vec![0, 1, 2],
            uvs: vec![(0.5f64).to_bits(); 6],
        },
    };
    mesh.anim = Some(Tag::Compound(vec![("len".to_owned(), Tag::Double((2.0f64).to_bits()))]));
    mesh.cn = Some(vec!["layer".to_owned()]);
    mesh.pr = Some(vec![0, 7]);
    let root = group("models", vec![cube, mesh]);
    Moon {
        textures: Textures {
            src: vec![("skin".to_owned(), vec![1u8, 2, 3])],
            data: vec![TextureData { d: "skin".to_owned(), e: Some("skin_e".to_owned()) }],
        },
        scripts: vec![("main".to_owned(), vec![10u8, 20])],
        animations: vec![Tag::Str("idle".to_owned())],
        models: Some(root),
        resources: vec![("notes".to_owned(), vec![7u8])],
        metadata: Metadata {
            uuid: "u".to_owned(),
            authors: vec!["ana".to_owned()],
            color: Some("#a0a0a0".to_owned()),
            bg: None,
            id: None,
            name: "ava".to_owned(),
            description: "d".to_owned(),
            ver: "0.1.4".to_owned(),
        },
    }
}

#[test]
fn moon_round_trips_through_the_tag_tree() {
    let moon = sample_moon();
    let tag = encode_moon(&moon);
    assert_eq!(decode_moon(&tag).unwrap(), moon);
}

#[test]
fn part_round_trips() {
    let moon = sample_moon();
    let part = moon.models.unwrap();
    let tag = encode_part(&part);
    assert_eq!(decode_part(&tag).unwrap(), part);
}

#[test]
fn part_requires_a_name() {
    let tag = Tag::Compound(vec![]);
    assert_eq!(decode_part(&tag), Err(DecodeError::MissingField("name".to_owned())));
}

#[test]
fn part_rejects_unknown_fields() {
    let tag = Tag::Compound(vec![
        ("name".to_owned(), Tag::Str("p".to_owned())),
        ("sparkle".to_owned(), Tag::Byte(1)),
    ]);
    assert_eq!(decode_part(&tag), Err(DecodeError::UnknownField("sparkle".to_owned())));
}

#[test]
fn variant_dispatch_is_fixed() {
    // no variant field means a group
    let g = Tag::Compound(vec![("name".to_owned(), Tag::Str("g".to_owned()))]);
    assert!(matches!(decode_part(&g).unwrap().data, ModelData::Group {}));
    // a cube field without the rest is a missing cube field
    let partial = Tag::Compound(vec![
        ("name".to_owned(), Tag::Str("c".to_owned())),
        ("inf".to_owned(), Tag::Double(0)),
    ]);
    assert_eq!(decode_part(&partial), Err(DecodeError::MissingField("cube_data".to_owned())));
    // cube fields and mesh data together are ambiguous
    let both = Tag::Compound(vec![
        ("name".to_owned(), Tag::Str("x".to_owned())),
        ("inf".to_owned(), Tag::Double(0)),
        (
            "mesh_data".to_owned(),
            Tag::Compound(vec![
                ("vtx".to_owned(), Tag::List(vec![])),
                ("tex".to_owned(), Tag::List(vec![])),
                ("fac".to_owned(), Tag::Ints(vec![])),
                ("uvs".to_owned(), Tag::List(vec![])),
            ]),
        ),
    ]);
    assert_eq!(decode_part(&both), Err(DecodeError::AmbiguousVariant));
}

#[test]
fn part_defaults_apply() {
    let tag = Tag::Compound(vec![("name".to_owned(), Tag::Str("p".to_owned()))]);
    let p = decode_part(&tag).unwrap();
    assert!(p.vsb);
    assert!(!p.smo);
    assert!(p.chld.is_empty());
    assert_eq!(p.rot, XYZ { x: 0, y: 0, z: 0 });
    // a stored parent type round-trips by enumeration position
    let tag2 = Tag::Compound(vec![
        ("name".to_owned(), Tag::Str("p".to_owned())),
        ("pt".to_owned(), Tag::Int(9)),
    ]);
    assert_eq!(decode_part(&tag2).unwrap().pt, Some(ParentType::Cape));
}

#[test]
fn moon_rejects_unknown_sections() {
    let tag = Tag::Compound(vec![("extras".to_owned(), Tag::Byte(0))]);
    assert_eq!(decode_moon(&tag), Err(DecodeError::UnknownField("extras".to_owned())));
}

#[test]
fn decoded_moon_is_normalized() {
    // a duplicated script name keeps its last value, as in the container's
    // own map model
    let tag = Tag::Compound(vec![(
        "scripts".to_owned(),
        Tag::Compound(vec![
            ("a".to_owned(), Tag::Bytes(vec![1])),
            ("a".to_owned(), Tag::Bytes(vec![2])),
        ]),
    )]);
    let moon = decode_moon(&tag).unwrap();
    assert_eq!(moon.scripts, vec![("a".to_owned(), vec![2u8])]);
}
