use moonpack::adapter::{
    decode_bytes_map, decode_face, decode_metadata, decode_mesh, decode_sided, decode_texdata,
    decode_textures, encode_bytes_map, encode_face, encode_metadata, encode_mesh, encode_sided,
    encode_texdata, encode_textures, parent_type_index, tag_nr, tag_parent_type, tag_strs,
    tag_u32s, tag_xyz, DecodeError,
};
use moonpack::bbmodel::{Rect, XYZ};
use moonpack::moon::{Face, MeshData, Metadata, ParentType, Sided, TextureData, Textures};
use moonpack::tag::Tag;

fn meta(authors: Vec<&str>) -> Metadata {
    Metadata {
        uuid: "u".to_owned(),
        authors: authors.into_iter().map(|a| a.to_owned()).collect(),
        color: Some("#fff".to_owned()),
        bg: None,
        id: None,
        name: "ava".to_owned(),
        description: "desc".to_owned(),
        ver: "0.1.4".to_owned(),
    }
}

#[test]
fn metadata_round_trips() {
    let m = meta(vec!["ana", "bo"]);
    let tag = encode_metadata(&m);
    assert_eq!(decode_metadata(&tag).unwrap(), m);
}

#[test]
fn metadata_empty_authors_round_trips_via_placeholder() {
    let m = meta(vec![]);
    let tag = encode_metadata(&m);
    match &tag {
        Tag::Compound(fs) => {
            let authors = fs.iter().find(|e| e.0 == "authors").unwrap();
            assert_eq!(authors.1, Tag::Str("?".to_owned()));
        }
        _ => panic!("expected a compound"),
    }
    assert_eq!(decode_metadata(&tag).unwrap(), m);
}

#[test]
fn placeholder_authors_normalize_to_empty() {
    let tag = Tag::Compound(vec![("authors".to_owned(), Tag::Str("?".to_owned()))]);
    let m = decode_metadata(&tag).unwrap();
    assert_eq!(m.authors, Vec::<String>::new());
}

#[test]
fn appended_author_replaces_placeholder() {
    // a bundle whose stored authors field is the literal "?" ends with
    // exactly one author after one append, never "?" and the new name
    let tag = Tag::Compound(vec![("authors".to_owned(), Tag::Str("?".to_owned()))]);
    let m = decode_metadata(&tag).unwrap();
    let mut moon = moonpack::moon::Moon {
        textures: Textures { src: vec![], data: vec![] },
        scripts: vec![],
        animations: vec![],
        models: None,
        resources: vec![],
        metadata: m,
    };
    moon.add_author("newauthor".to_owned());
    assert_eq!(moon.metadata.authors, vec!["newauthor".to_owned()]);
    let tag2 = encode_metadata(&moon.metadata);
    match &tag2 {
        Tag::Compound(fs) => {
            let authors = fs.iter().find(|e| e.0 == "authors").unwrap();
            assert_eq!(authors.1, Tag::Str("newauthor".to_owned()));
        }
        _ => panic!("expected a compound"),
    }
}

#[test]
fn unknown_metadata_field_is_rejected() {
    let tag = Tag::Compound(vec![("surprise".to_owned(), Tag::Byte(1))]);
    assert_eq!(decode_metadata(&tag), Err(DecodeError::UnknownField("surprise".to_owned())));
}

#[test]
fn newline_separated_authors_split() {
    let tag = Tag::Compound(vec![("authors".to_owned(), Tag::Str("ana\nbo\n\n?".to_owned()))]);
    let m = decode_metadata(&tag).unwrap();
    assert_eq!(m.authors, vec!["ana".to_owned(), "bo".to_owned()]);
}

#[test]
fn bytes_map_round_trips() {
    let m = vec![("a.png".to_owned(), vec![1u8, 2, 255]), ("b.png".to_owned(), vec![])];
    let tag = encode_bytes_map(&m);
    assert_eq!(decode_bytes_map(&tag).unwrap(), m);
}

#[test]
fn texdata_round_trips_and_requires_primary() {
    let td = TextureData { d: "skin".to_owned(), e: Some("skin_e".to_owned()) };
    assert_eq!(decode_texdata(&encode_texdata(&td)).unwrap(), td);
    let missing = Tag::Compound(vec![("e".to_owned(), Tag::Str("x".to_owned()))]);
    assert_eq!(decode_texdata(&missing), Err(DecodeError::MissingField("d".to_owned())));
}

#[test]
fn textures_round_trip() {
    let tx = Textures {
        src: vec![("skin".to_owned(), vec![137u8, 80, 78, 71])],
        data: vec![TextureData { d: "skin".to_owned(), e: None }],
    };
    assert_eq!(decode_textures(&encode_textures(&tx)).unwrap(), tx);
}

#[test]
fn face_round_trips() {
    let f = Face {
        tex: 2,
        uv: Rect {
            x0: (0.0f64).to_bits(),
            y0: (0.5f64).to_bits(),
            x1: (16.0f64).to_bits(),
            y1: (8.25f64).to_bits(),
        },
        rot: (90.0f64).to_bits(),
    };
    assert_eq!(decode_face(&encode_face(&f)).unwrap(), f);
}

#[test]
fn sided_round_trips() {
    let f = Face { tex: 0, uv: Rect { x0: 0, y0: 0, x1: 0, y1: 0 }, rot: 0 };
    let sd = Sided { n: Some(f), s: None, u: Some(f), d: None, w: None, e: Some(f) };
    assert_eq!(decode_sided(&encode_sided(&sd)).unwrap(), sd);
}

#[test]
fn mesh_data_round_trips_in_every_width() {
    let narrow = MeshData { vtx: vec![1, 2, 3], tex: vec![0x13], fac: vec![0, 1, 255], uvs: vec![] };
    let tag = encode_mesh(&narrow);
    match &tag {
        Tag::Compound(fs) => {
            let fac = fs.iter().find(|e| e.0 == "fac").unwrap();
            assert!(matches!(fac.1, Tag::Bytes(_)));
        }
        _ => panic!("expected a compound"),
    }
    assert_eq!(decode_mesh(&tag).unwrap(), narrow);

    let mid = MeshData { vtx: vec![], tex: vec![0x11], fac: vec![300], uvs: vec![7] };
    assert_eq!(decode_mesh(&encode_mesh(&mid)).unwrap(), mid);

    let wide = MeshData { vtx: vec![], tex: vec![0x11], fac: vec![70000], uvs: vec![] };
    let tag_w = encode_mesh(&wide);
    match &tag_w {
        Tag::Compound(fs) => {
            let fac = fs.iter().find(|e| e.0 == "fac").unwrap();
            assert!(matches!(fac.1, Tag::Ints(_)));
        }
        _ => panic!("expected a compound"),
    }
    assert_eq!(decode_mesh(&tag_w).unwrap(), wide);
}

#[test]
fn mesh_requires_all_arrays() {
    let t = Tag::Compound(vec![("vtx".to_owned(), Tag::List(vec![]))]);
    assert_eq!(decode_mesh(&t), Err(DecodeError::MissingField("tex".to_owned())));
}

#[test]
fn wrong_tag_is_reported_by_field() {
    let t = Tag::Compound(vec![("uuid".to_owned(), Tag::Byte(3))]);
    assert_eq!(decode_metadata(&t), Err(DecodeError::WrongTag("uuid".to_owned())));
}

#[test]
fn parent_types_decode_by_index_or_name() {
    assert_eq!(tag_parent_type(&Tag::Int(0)), Some(Some(ParentType::NoParent)));
    assert_eq!(tag_parent_type(&Tag::Byte(1)), Some(Some(ParentType::Head)));
    assert_eq!(tag_parent_type(&Tag::Int(35)), Some(Some(ParentType::RightElytraPivot)));
    assert_eq!(tag_parent_type(&Tag::Int(36)), Some(None));
    assert_eq!(
        tag_parent_type(&Tag::Str("Cape".to_owned())),
        Some(Some(ParentType::Cape))
    );
    assert_eq!(tag_parent_type(&Tag::Str("Nowhere".to_owned())), Some(None));
    assert_eq!(tag_parent_type(&Tag::Double(0)), None);
    assert_eq!(parent_type_index(&ParentType::Cape), 9);
}

#[test]
fn list_readers_are_exact() {
    assert_eq!(
        tag_xyz(&Tag::List(vec![Tag::Double(1), Tag::Double(2), Tag::Double(3)])),
        Some(XYZ { x: 1, y: 2, z: 3 })
    );
    assert_eq!(tag_xyz(&Tag::List(vec![Tag::Double(1)])), None);
    assert_eq!(tag_nr(&Tag::Ints(vec![1, 2, 3, 4])), Some((1, 2, 3, 4)));
    assert_eq!(tag_nr(&Tag::Ints(vec![1, 2, 3])), None);
    assert_eq!(tag_u32s(&Tag::Ints(vec![-1])), Some(vec![u32::MAX]));
    assert_eq!(
        tag_strs(&Tag::List(vec![Tag::Str("a".to_owned())])),
        Some(vec!["a".to_owned()])
    );
}
