use moonpack::args::{equal, opt_equal, EqualParseError};
use moonpack::moon::{Metadata, Moon, Textures};
use moonpack::strutil::{str_eq, u64_to_string, usize_to_string};
use moonpack::unpack::{whitelisted, UnpackFilter};
use moonpack::tag::{clone_tag, Tag};
use moonpack::{modify::MoonModifications, return_true};

fn empty_moon() -> Moon {
    Moon {
        textures: Textures { src: vec![], data: vec![] },
        scripts: vec![],
        animations: vec![],
        models: None,
        resources: vec![],
        metadata: Metadata {
            uuid: String::new(),
            authors: vec![],
            color: None,
            bg: None,
            id: None,
            name: String::new(),
            description: String::new(),
            ver: String::new(),
        },
    }
}

#[test]
fn defaults_hold() {
    assert!(return_true());
    let f = UnpackFilter::default();
    assert!(f.textures && f.scripts && f.models && f.resources && f.manifest);
}

#[test]
fn decimal_rendering_is_exact() {
    assert_eq!(u64_to_string(0), "0");
    assert_eq!(u64_to_string(7), "7");
    assert_eq!(u64_to_string(10), "10");
    assert_eq!(u64_to_string(90125), "90125");
    assert_eq!(u64_to_string(u64::MAX), "18446744073709551615");
    assert_eq!(usize_to_string(42), "42");
}

#[test]
fn string_equality_is_exact() {
    assert!(str_eq("", ""));
    assert!(str_eq("abc", "abc"));
    assert!(!str_eq("abc", "abd"));
    assert!(!str_eq("abc", "ab"));
}

#[test]
fn equal_splits_at_first_sign() {
    assert_eq!(equal("k=v").unwrap(), ("k".to_owned(), "v".to_owned()));
    assert_eq!(equal("a=b=c").unwrap(), ("a".to_owned(), "b=c".to_owned()));
    assert_eq!(equal("=v").unwrap(), ("".to_owned(), "v".to_owned()));
    assert_eq!(equal("nope"), Err(EqualParseError::EqualSignRequired));
}

#[test]
fn opt_equal_accepts_lone_values() {
    assert_eq!(opt_equal("k=v"), (Some("k".to_owned()), "v".to_owned()));
    assert_eq!(opt_equal("lone"), (None, "lone".to_owned()));
}

#[test]
fn whitelist_admits_exact_names_and_directories() {
    let paths = Some(vec!["a/".to_owned(), "b.lua".to_owned()]);
    assert!(whitelisted(&paths, "a/x.png"));
    assert!(whitelisted(&paths, "b.lua"));
    assert!(!whitelisted(&paths, "b.lua.bak"));
    assert!(!whitelisted(&paths, "c"));
    assert!(whitelisted(&None, "anything"));
}

#[test]
fn scripts_and_textures_edit_by_name() {
    let mut moon = empty_moon();
    moon.add_script("main".to_owned(), vec![1, 2]);
    moon.add_script("util".to_owned(), vec![3]);
    moon.add_script("main".to_owned(), vec![9]);
    assert_eq!(
        moon.scripts,
        vec![("main".to_owned(), vec![9u8]), ("util".to_owned(), vec![3u8])]
    );
    assert!(moon.remove_script("main"));
    assert!(!moon.remove_script("main"));
    assert_eq!(moon.scripts, vec![("util".to_owned(), vec![3u8])]);

    moon.add_texture("skin".to_owned(), vec![0]);
    assert!(moon.remove_texture("skin"));
    assert!(moon.textures.src.is_empty());
}

#[test]
fn modifications_apply_in_order() {
    let mut moon = empty_moon();
    moon.add_script("old".to_owned(), vec![1]);
    let mods = MoonModifications {
        add_author: vec!["ana".to_owned()],
        add_script: vec![("new".to_owned(), vec![2])],
        add_texture: vec![("skin".to_owned(), vec![3])],
        remove_script: vec!["old".to_owned()],
        remove_texture: vec![],
    };
    mods.apply(&mut moon);
    assert_eq!(moon.metadata.authors, vec!["ana".to_owned()]);
    assert_eq!(moon.scripts, vec![("new".to_owned(), vec![2u8])]);
    assert_eq!(moon.textures.src, vec![("skin".to_owned(), vec![3u8])]);
}

#[test]
fn json_metadata_collapses_single_author() {
    let mut m = empty_moon().metadata;
    m.name = "ava".to_owned();
    m.authors = vec!["solo".to_owned()];
    let j = m.to_json_metadata(vec![]);
    assert_eq!(j.author, Some("solo".to_owned()));
    assert!(j.authors.is_empty());

    m.authors = vec!["ana".to_owned(), "bo".to_owned()];
    let j2 = m.to_json_metadata(vec!["r".to_owned()]);
    assert_eq!(j2.author, None);
    assert_eq!(j2.authors, vec!["ana".to_owned(), "bo".to_owned()]);
    assert_eq!(j2.resources, vec!["r".to_owned()]);
    assert_eq!(j2.name, Some("ava".to_owned()));
}

#[test]
fn default_group_is_fresh() {
    let g = moonpack::bbmodel::Group::default();
    let h = moonpack::bbmodel::Group::default();
    assert_eq!(g.uuid.len(), 36);
    assert!(g.export && g.visibility && !g.locked && !g.isOpen && !g.mirror_uv);
    assert!(g.children.is_empty());
    // each default draws its own identifier
    assert_ne!(g.uuid, h.uuid);
}

#[test]
fn tag_clone_preserves_value() {
    let t = Tag::Compound(vec![
        ("a".to_owned(), Tag::List(vec![Tag::Double((1.5f64).to_bits()), Tag::Byte(-1)])),
        ("b".to_owned(), Tag::Str("x".to_owned())),
    ]);
    assert_eq!(clone_tag(&t), t);
}
