use moonpack::bbmodel::XYZ;
use moonpack::ident::HASH_SEED;
use moonpack::moon::{ModelData, ModelPart};

fn plain_part(name: &str) -> ModelPart {
    ModelPart {
        name: name.to_owned(),
        chld: vec![],
        anim: None,
        rot: XYZ { x: 0, y: 0, z: 0 },
        piv: XYZ { x: 0, y: 0, z: 0 },
        primary: None,
        secondary: None,
        pt: None,
        vsb: true,
        smo: false,
        data: ModelData::Group {},
        nr: None,
        cn: None,
        pr: None,
    }
}

#[test]
fn stored_identifier_decodes_exactly() {
    let mut p = plain_part("box");
    p.nr = Some((1, 2, 3, 4));
    // words 0 and 1 are the high 64 bits, 2 and 3 the low 64 bits
    assert_eq!(p.get_uuid(), "00000001-0000-0002-0000-000300000004");
    assert_eq!(p.get_uuid_with_salt(0), "00000001-0000-0002-0000-000300000004");
}

#[test]
fn stored_identifier_ignores_salt() {
    let mut p = plain_part("box");
    p.nr = Some((10, 20, 30, 40));
    assert_eq!(p.get_uuid_with_salt(0), p.get_uuid_with_salt(99));
    assert_eq!(p.get_uuid_with_salt(7), p.get_uuid());
}

#[test]
fn stored_identifier_matches_generator() {
    let mut p = plain_part("box");
    p.nr = Some((0xa1a2a3a4, 0xb1b2c1c2, 0xd1d2d3d4, 0xd5d6d7d8));
    let expected =
        uuid::Uuid::from_u64_pair(0xa1a2a3a4b1b2c1c2, 0xd1d2d3d4d5d6d7d8).to_string();
    assert_eq!(p.get_uuid(), expected);
}

#[test]
fn derived_identifier_is_deterministic() {
    let p = plain_part("box");
    let q = plain_part("box");
    assert_eq!(p.get_uuid_with_salt(5), q.get_uuid_with_salt(5));
    assert_eq!(p.get_uuid(), q.get_uuid());
}

#[test]
fn derived_identifier_ignores_floats() {
    let p = plain_part("box");
    let mut q = plain_part("box");
    q.piv = XYZ { x: (4.5f64).to_bits(), y: (1.0f64).to_bits(), z: (2.0f64).to_bits() };
    q.rot = XYZ { x: (90.0f64).to_bits(), y: 0, z: 0 };
    assert_eq!(p.get_uuid_with_salt(3), q.get_uuid_with_salt(3));
}

#[test]
fn derived_identifier_depends_on_salt_and_name() {
    let p = plain_part("box");
    assert_ne!(p.get_uuid_with_salt(0), p.get_uuid_with_salt(1));
    let q = plain_part("lid");
    assert_ne!(p.get_uuid_with_salt(0), q.get_uuid_with_salt(0));
}

#[test]
fn derived_identifier_matches_generator() {
    // the wrapper must hand the hash to the name-based generator under the
    // conversion namespace, not return anything of its own making
    let p = plain_part("box");
    let h = p.structural_hash(HASH_SEED);
    let ns = uuid::Uuid::from_u128(0x82703e9507cb41eb85910ae63fc1e2db);
    let expected = uuid::Uuid::new_v5(&ns, &h.to_le_bytes()).to_string();
    assert_eq!(p.get_uuid(), expected);
}
