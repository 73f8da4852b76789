//! The model-part and bundle codecs over the tagged-value tree: the strict
//! part schema with its untagged-variant dispatch (cube fields mean a cube,
//! mesh data means a mesh, both together are ambiguous, neither is a group),
//! and the bundle's top-level compound, each section through its own
//! decoder and encoder.

use vstd::prelude::*;

use crate::adapter::{
    decode_bytes_map, decode_metadata, decode_mesh, decode_sided, decode_textures,
    encode_bytes_map, encode_metadata, encode_mesh, encode_sided, encode_textures,
    parent_type_index, spec_bool_of, spec_dec_bytes_map, spec_dec_meta, spec_dec_mesh,
    spec_all_strs, spec_dec_sided, spec_dec_textures, spec_default_meta, spec_default_textures, spec_f64_of,
    spec_fields_view, spec_nr_of, spec_parent_type_of, spec_str_of, spec_strs_of, spec_u32s_of,
    spec_xyz_of, tag_bool, tag_f64, tag_nr, tag_parent_type, tag_str, tag_strs, tag_u32s,
    tag_xyz, u32s_tag, xyz_tag, DecodeError, DecodeErrorV,
};
use crate::bbmodel::XYZ;
use crate::moon::{
    spec_parent_type_index, spec_parent_type_of_index, spec_uniq_keys, ParentType,
};
use crate::strutil::str_eq;
use crate::tag::{clone_string, clone_tag, tag_view, Tag, TagV};

verus! {

broadcast use vstd::group_vstd_default;

/// The model-part field names are pairwise distinct.
proof fn lemma_part_names_distinct()
    ensures
        "chld"@ != "name"@,
        "anim"@ != "name"@,
        "anim"@ != "chld"@,
        "rot"@ != "name"@,
        "rot"@ != "chld"@,
        "rot"@ != "anim"@,
        "piv"@ != "name"@,
        "piv"@ != "chld"@,
        "piv"@ != "anim"@,
        "piv"@ != "rot"@,
        "primary"@ != "name"@,
        "primary"@ != "chld"@,
        "primary"@ != "anim"@,
        "primary"@ != "rot"@,
        "primary"@ != "piv"@,
        "secondary"@ != "name"@,
        "secondary"@ != "chld"@,
        "secondary"@ != "anim"@,
        "secondary"@ != "rot"@,
        "secondary"@ != "piv"@,
        "secondary"@ != "primary"@,
        "pt"@ != "name"@,
        "pt"@ != "chld"@,
        "pt"@ != "anim"@,
        "pt"@ != "rot"@,
        "pt"@ != "piv"@,
        "pt"@ != "primary"@,
        "pt"@ != "secondary"@,
        "vsb"@ != "name"@,
        "vsb"@ != "chld"@,
        "vsb"@ != "anim"@,
        "vsb"@ != "rot"@,
        "vsb"@ != "piv"@,
        "vsb"@ != "primary"@,
        "vsb"@ != "secondary"@,
        "vsb"@ != "pt"@,
        "smo"@ != "name"@,
        "smo"@ != "chld"@,
        "smo"@ != "anim"@,
        "smo"@ != "rot"@,
        "smo"@ != "piv"@,
        "smo"@ != "primary"@,
        "smo"@ != "secondary"@,
        "smo"@ != "pt"@,
        "smo"@ != "vsb"@,
        "nr"@ != "name"@,
        "nr"@ != "chld"@,
        "nr"@ != "anim"@,
        "nr"@ != "rot"@,
        "nr"@ != "piv"@,
        "nr"@ != "primary"@,
        "nr"@ != "secondary"@,
        "nr"@ != "pt"@,
        "nr"@ != "vsb"@,
        "nr"@ != "smo"@,
        "cn"@ != "name"@,
        "cn"@ != "chld"@,
        "cn"@ != "anim"@,
        "cn"@ != "rot"@,
        "cn"@ != "piv"@,
        "cn"@ != "primary"@,
        "cn"@ != "secondary"@,
        "cn"@ != "pt"@,
        "cn"@ != "vsb"@,
        "cn"@ != "smo"@,
        "cn"@ != "nr"@,
        "pr"@ != "name"@,
        "pr"@ != "chld"@,
        "pr"@ != "anim"@,
        "pr"@ != "rot"@,
        "pr"@ != "piv"@,
        "pr"@ != "primary"@,
        "pr"@ != "secondary"@,
        "pr"@ != "pt"@,
        "pr"@ != "vsb"@,
        "pr"@ != "smo"@,
        "pr"@ != "nr"@,
        "pr"@ != "cn"@,
        "cube_data"@ != "name"@,
        "cube_data"@ != "chld"@,
        "cube_data"@ != "anim"@,
        "cube_data"@ != "rot"@,
        "cube_data"@ != "piv"@,
        "cube_data"@ != "primary"@,
        "cube_data"@ != "secondary"@,
        "cube_data"@ != "pt"@,
        "cube_data"@ != "vsb"@,
        "cube_data"@ != "smo"@,
        "cube_data"@ != "nr"@,
        "cube_data"@ != "cn"@,
        "cube_data"@ != "pr"@,
        "f"@ != "name"@,
        "f"@ != "chld"@,
        "f"@ != "anim"@,
        "f"@ != "rot"@,
        "f"@ != "piv"@,
        "f"@ != "primary"@,
        "f"@ != "secondary"@,
        "f"@ != "pt"@,
        "f"@ != "vsb"@,
        "f"@ != "smo"@,
        "f"@ != "nr"@,
        "f"@ != "cn"@,
        "f"@ != "pr"@,
        "f"@ != "cube_data"@,
        "t"@ != "name"@,
        "t"@ != "chld"@,
        "t"@ != "anim"@,
        "t"@ != "rot"@,
        "t"@ != "piv"@,
        "t"@ != "primary"@,
        "t"@ != "secondary"@,
        "t"@ != "pt"@,
        "t"@ != "vsb"@,
        "t"@ != "smo"@,
        "t"@ != "nr"@,
        "t"@ != "cn"@,
        "t"@ != "pr"@,
        "t"@ != "cube_data"@,
        "t"@ != "f"@,
        "inf"@ != "name"@,
        "inf"@ != "chld"@,
        "inf"@ != "anim"@,
        "inf"@ != "rot"@,
        "inf"@ != "piv"@,
        "inf"@ != "primary"@,
        "inf"@ != "secondary"@,
        "inf"@ != "pt"@,
        "inf"@ != "vsb"@,
        "inf"@ != "smo"@,
        "inf"@ != "nr"@,
        "inf"@ != "cn"@,
        "inf"@ != "pr"@,
        "inf"@ != "cube_data"@,
        "inf"@ != "f"@,
        "inf"@ != "t"@,
        "mesh_data"@ != "name"@,
        "mesh_data"@ != "chld"@,
        "mesh_data"@ != "anim"@,
        "mesh_data"@ != "rot"@,
        "mesh_data"@ != "piv"@,
        "mesh_data"@ != "primary"@,
        "mesh_data"@ != "secondary"@,
        "mesh_data"@ != "pt"@,
        "mesh_data"@ != "vsb"@,
        "mesh_data"@ != "smo"@,
        "mesh_data"@ != "nr"@,
        "mesh_data"@ != "cn"@,
        "mesh_data"@ != "pr"@,
        "mesh_data"@ != "cube_data"@,
        "mesh_data"@ != "f"@,
        "mesh_data"@ != "t"@,
        "mesh_data"@ != "inf"@,
{
    reveal_strlit("name");
    reveal_strlit("chld");
    reveal_strlit("anim");
    reveal_strlit("rot");
    reveal_strlit("piv");
    reveal_strlit("primary");
    reveal_strlit("secondary");
    reveal_strlit("pt");
    reveal_strlit("vsb");
    reveal_strlit("smo");
    reveal_strlit("nr");
    reveal_strlit("cn");
    reveal_strlit("pr");
    reveal_strlit("cube_data");
    reveal_strlit("f");
    reveal_strlit("t");
    reveal_strlit("inf");
    reveal_strlit("mesh_data");
    assert("name"@.len() == 4);
    assert("chld"@.len() == 4);
    assert("anim"@.len() == 4);
    assert("rot"@.len() == 3);
    assert("piv"@.len() == 3);
    assert("primary"@.len() == 7);
    assert("secondary"@.len() == 9);
    assert("pt"@.len() == 2);
    assert("vsb"@.len() == 3);
    assert("smo"@.len() == 3);
    assert("nr"@.len() == 2);
    assert("cn"@.len() == 2);
    assert("pr"@.len() == 2);
    assert("cube_data"@.len() == 9);
    assert("f"@.len() == 1);
    assert("t"@.len() == 1);
    assert("inf"@.len() == 3);
    assert("mesh_data"@.len() == 9);
    assert("name"@[0] == 'n');
    assert("chld"@[0] == 'c');
    assert("anim"@[0] == 'a');
    assert("rot"@[0] == 'r');
    assert("piv"@[0] == 'p');
    assert("vsb"@[0] == 'v');
    assert("smo"@[0] == 's');
    assert("inf"@[0] == 'i');
    assert("pt"@[0] == 'p');
    assert("nr"@[0] == 'n');
    assert("cn"@[0] == 'c');
    assert("pr"@[0] == 'p');
    assert("secondary"@[0] == 's');
    assert("cube_data"@[0] == 'c');
    assert("mesh_data"@[0] == 'm');
    assert("f"@[0] == 'f');
    assert("t"@[0] == 't');
    assert("pt"@[1] == 't' && "pr"@[1] == 'r');
}

// ---------------------------------------------------------------------------
// Model parts
// ---------------------------------------------------------------------------

/// The running state of a model-part record. The variant fields collect
/// separately and are resolved when the record closes.
#[verifier::ext_equal]
pub struct PartAcc {
    pub name: Option<Seq<char>>,
    pub chld: Seq<crate::moon::ModelPartV>,
    pub anim: Option<TagV>,
    pub rot: XYZ<u64>,
    pub piv: XYZ<u64>,
    pub primary: Option<Seq<char>>,
    pub secondary: Option<Seq<char>>,
    pub pt: Option<ParentType>,
    pub vsb: bool,
    pub smo: bool,
    pub nr: Option<(u32, u32, u32, u32)>,
    pub cn: Option<Seq<Seq<char>>>,
    pub pr: Option<Seq<u32>>,
    pub cube_data: Option<crate::moon::Sided<crate::moon::Face>>,
    pub f: Option<XYZ<u64>>,
    pub t: Option<XYZ<u64>>,
    pub inf: Option<u64>,
    pub mesh: Option<crate::moon::MeshDataV>,
}

/// The model-part record before any field is read: visibility defaults to
/// true, everything else to absent, empty or zero.
pub open spec fn spec_default_part_acc() -> PartAcc {
    PartAcc {
        name: None,
        chld: Seq::empty(),
        anim: None,
        rot: XYZ { x: 0, y: 0, z: 0 },
        piv: XYZ { x: 0, y: 0, z: 0 },
        primary: None,
        secondary: None,
        pt: None,
        vsb: true,
        smo: false,
        nr: None,
        cn: None,
        pr: None,
        cube_data: None,
        f: None,
        t: None,
        inf: None,
        mesh: None,
    }
}

/// Folds one model-part field.
pub open spec fn spec_part_field(acc: PartAcc, k: Seq<char>, v: TagV) -> Result<
    PartAcc,
    DecodeErrorV,
>
    decreases v, 1nat, 1int,
{
    if k == "name"@ {
        match spec_str_of(v) {
            None => Err(DecodeErrorV::WrongTag(k)),
            Some(x) => Ok(PartAcc { name: Some(x), ..acc }),
        }
    } else if k == "chld"@ {
        match v {
            TagV::List(s) => match spec_parts_of(s, 0) {
                Err(e) => Err(e),
                Ok(ps) => Ok(PartAcc { chld: ps, ..acc }),
            },
            _ => Err(DecodeErrorV::WrongTag(k)),
        }
    } else if k == "anim"@ {
        Ok(PartAcc { anim: Some(v), ..acc })
    } else if k == "rot"@ {
        match spec_xyz_of(v) {
            None => Err(DecodeErrorV::WrongTag(k)),
            Some(x) => Ok(PartAcc { rot: x, ..acc }),
        }
    } else if k == "piv"@ {
        match spec_xyz_of(v) {
            None => Err(DecodeErrorV::WrongTag(k)),
            Some(x) => Ok(PartAcc { piv: x, ..acc }),
        }
    } else if k == "primary"@ {
        match spec_str_of(v) {
            None => Err(DecodeErrorV::WrongTag(k)),
            Some(x) => Ok(PartAcc { primary: Some(x), ..acc }),
        }
    } else if k == "secondary"@ {
        match spec_str_of(v) {
            None => Err(DecodeErrorV::WrongTag(k)),
            Some(x) => Ok(PartAcc { secondary: Some(x), ..acc }),
        }
    } else if k == "pt"@ {
        match spec_parent_type_of(v) {
            None => Err(DecodeErrorV::WrongTag(k)),
            Some(None) => Err(DecodeErrorV::UnknownParentType),
            Some(Some(p)) => Ok(PartAcc { pt: Some(p), ..acc }),
        }
    } else if k == "vsb"@ {
        match spec_bool_of(v) {
            None => Err(DecodeErrorV::WrongTag(k)),
            Some(x) => Ok(PartAcc { vsb: x, ..acc }),
        }
    } else if k == "smo"@ {
        match spec_bool_of(v) {
            None => Err(DecodeErrorV::WrongTag(k)),
            Some(x) => Ok(PartAcc { smo: x, ..acc }),
        }
    } else if k == "nr"@ {
        match spec_nr_of(v) {
            None => Err(DecodeErrorV::WrongTag(k)),
            Some(x) => Ok(PartAcc { nr: Some(x), ..acc }),
        }
    } else if k == "cn"@ {
        match spec_strs_of(v) {
            None => Err(DecodeErrorV::WrongTag(k)),
            Some(x) => Ok(PartAcc { cn: Some(x), ..acc }),
        }
    } else if k == "pr"@ {
        match spec_u32s_of(v) {
            None => Err(DecodeErrorV::WrongTag(k)),
            Some(x) => Ok(PartAcc { pr: Some(x), ..acc }),
        }
    } else if k == "cube_data"@ {
        match spec_dec_sided(v) {
            Err(e) => Err(e),
            Ok(x) => Ok(PartAcc { cube_data: Some(x), ..acc }),
        }
    } else if k == "f"@ {
        match spec_xyz_of(v) {
            None => Err(DecodeErrorV::WrongTag(k)),
            Some(x) => Ok(PartAcc { f: Some(x), ..acc }),
        }
    } else if k == "t"@ {
        match spec_xyz_of(v) {
            None => Err(DecodeErrorV::WrongTag(k)),
            Some(x) => Ok(PartAcc { t: Some(x), ..acc }),
        }
    } else if k == "inf"@ {
        match spec_f64_of(v) {
            None => Err(DecodeErrorV::WrongTag(k)),
            Some(x) => Ok(PartAcc { inf: Some(x), ..acc }),
        }
    } else if k == "mesh_data"@ {
        match spec_dec_mesh(v) {
            Err(e) => Err(e),
            Ok(x) => Ok(PartAcc { mesh: Some(x), ..acc }),
        }
    } else {
        Err(DecodeErrorV::UnknownField(k))
    }
}

/// Folds the model-part fields `fs[i..]`.
pub open spec fn spec_part_fields(fs: Seq<(Seq<char>, TagV)>, i: int, acc: PartAcc) -> Result<
    PartAcc,
    DecodeErrorV,
>
    decreases fs, (fs.len() - i + 2) as nat, 0int,
{
    if i < 0 || i >= fs.len() {
        Ok(acc)
    } else {
        match spec_part_field(acc, fs[i].0, fs[i].1) {
            Err(e) => Err(e),
            Ok(a2) => spec_part_fields(fs, i + 1, a2),
        }
    }
}

/// The parts a tag list decodes to, element by element.
pub open spec fn spec_parts_of(s: Seq<TagV>, i: int) -> Result<
    Seq<crate::moon::ModelPartV>,
    DecodeErrorV,
>
    decreases s, (s.len() - i + 2) as nat, 0int,
{
    if i < 0 || i >= s.len() {
        Ok(Seq::empty())
    } else {
        match spec_dec_part(s[i]) {
            Err(e) => Err(e),
            Ok(p) => match spec_parts_of(s, i + 1) {
                Err(e) => Err(e),
                Ok(rest) => Ok(seq![p] + rest),
            },
        }
    }
}

/// Closes a model-part record: the name is required, and the variant is the
/// one whose fields are present — cube fields and mesh data together are
/// ambiguous, partial cube fields are missing ones, and neither means a
/// group.
pub open spec fn spec_part_finalize(a: PartAcc) -> Result<crate::moon::ModelPartV, DecodeErrorV> {
    match a.name {
        None => Err(DecodeErrorV::MissingField("name"@)),
        Some(nm) => {
            let has_cube = a.cube_data is Some || a.f is Some || a.t is Some || a.inf is Some;
            if a.mesh is Some && has_cube {
                Err(DecodeErrorV::AmbiguousVariant)
            } else if a.mesh is Some {
                Ok(spec_mk_part(a, nm, crate::moon::ModelDataV::Mesh { mesh_data: a.mesh->0 }))
            } else if has_cube {
                if a.cube_data is None {
                    Err(DecodeErrorV::MissingField("cube_data"@))
                } else if a.f is None {
                    Err(DecodeErrorV::MissingField("f"@))
                } else if a.t is None {
                    Err(DecodeErrorV::MissingField("t"@))
                } else {
                    Ok(
                        spec_mk_part(
                            a,
                            nm,
                            crate::moon::ModelDataV::Cube {
                                cube_data: a.cube_data->0,
                                f: a.f->0,
                                t: a.t->0,
                                inf: match a.inf {
                                    Some(x) => x,
                                    None => 0,
                                },
                            },
                        ),
                    )
                }
            } else {
                Ok(spec_mk_part(a, nm, crate::moon::ModelDataV::Group {  }))
            }
        },
    }
}

/// A model part from a closed record.
pub open spec fn spec_mk_part(
    a: PartAcc,
    nm: Seq<char>,
    data: crate::moon::ModelDataV,
) -> crate::moon::ModelPartV {
    crate::moon::ModelPartV {
        name: nm,
        chld: a.chld,
        anim: a.anim,
        rot: a.rot,
        piv: a.piv,
        primary: a.primary,
        secondary: a.secondary,
        pt: a.pt,
        vsb: a.vsb,
        smo: a.smo,
        data,
        nr: a.nr,
        cn: a.cn,
        pr: a.pr,
    }
}

/// The model part a tag decodes to.
pub open spec fn spec_dec_part(t: TagV) -> Result<crate::moon::ModelPartV, DecodeErrorV>
    decreases t, 0nat, 1int,
{
    match t {
        TagV::Compound(fs) => match spec_part_fields(fs, 0, spec_default_part_acc()) {
            Err(e) => Err(e),
            Ok(a) => spec_part_finalize(a),
        },
        _ => Err(DecodeErrorV::WrongTag("models"@)),
    }
}

proof fn lemma_part_fold_snoc(
    fs: Seq<(Seq<char>, TagV)>,
    kv: (Seq<char>, TagV),
    i: int,
    acc: PartAcc,
)
    requires
        0 <= i <= fs.len(),
    ensures
        spec_part_fields(fs.push(kv), i, acc) == (match spec_part_fields(fs, i, acc) {
            Err(e) => Err::<PartAcc, DecodeErrorV>(e),
            Ok(a) => spec_part_field(a, kv.0, kv.1),
        }),
    decreases fs.len() - i,
{
    if i == fs.len() {
        assert(fs.push(kv)[i] == kv);
        match spec_part_field(acc, kv.0, kv.1) {
            Err(e) => {},
            Ok(a2) => {
                assert(spec_part_fields(fs.push(kv), i + 1, a2) == Ok::<_, DecodeErrorV>(a2));
            },
        }
    } else {
        assert(fs.push(kv)[i] == fs[i]);
        match spec_part_field(acc, fs[i].0, fs[i].1) {
            Err(e) => {},
            Ok(a2) => {
                lemma_part_fold_snoc(fs, kv, i + 1, a2);
            },
        }
    }
}

/// A model-part record under construction, mirroring [`PartAcc`] in
/// executable form.
pub struct PartBuilder {
    pub name: Option<String>,
    pub chld: Vec<crate::moon::ModelPart>,
    pub anim: Option<Tag>,
    pub rot: XYZ<u64>,
    pub piv: XYZ<u64>,
    pub primary: Option<String>,
    pub secondary: Option<String>,
    pub pt: Option<ParentType>,
    pub vsb: bool,
    pub smo: bool,
    pub nr: Option<(u32, u32, u32, u32)>,
    pub cn: Option<Vec<String>>,
    pub pr: Option<Vec<u32>>,
    pub cube_data: Option<crate::moon::Sided<crate::moon::Face>>,
    pub f: Option<XYZ<u64>>,
    pub t: Option<XYZ<u64>>,
    pub inf: Option<u64>,
    pub mesh: Option<crate::moon::MeshData>,
}

impl DeepView for PartBuilder {
    type V = PartAcc;

    open spec fn deep_view(&self) -> PartAcc {
        PartAcc {
            name: self.name.deep_view(),
            chld: self.chld.deep_view(),
            anim: match &self.anim {
                Some(a) => Some(a.deep_view()),
                None => None,
            },
            rot: self.rot,
            piv: self.piv,
            primary: self.primary.deep_view(),
            secondary: self.secondary.deep_view(),
            pt: self.pt,
            vsb: self.vsb,
            smo: self.smo,
            nr: self.nr,
            cn: match &self.cn {
                Some(v) => Some(v.deep_view()),
                None => None,
            },
            pr: match &self.pr {
                Some(v) => Some(v@),
                None => None,
            },
            cube_data: self.cube_data,
            f: self.f,
            t: self.t,
            inf: self.inf,
            mesh: match &self.mesh {
                Some(m) => Some(m.deep_view()),
                None => None,
            },
        }
    }
}

impl PartBuilder {
    /// The record before any field is read: every field at its default.
    fn empty() -> (b: PartBuilder)
        ensures
            b.deep_view() == spec_default_part_acc(),
    {
        let b = PartBuilder {
            name: None,
            chld: Vec::new(),
            anim: None,
            rot: XYZ { x: 0, y: 0, z: 0 },
            piv: XYZ { x: 0, y: 0, z: 0 },
            primary: None,
            secondary: None,
            pt: None,
            vsb: true,
            smo: false,
            nr: None,
            cn: None,
            pr: None,
            cube_data: None,
            f: None,
            t: None,
            inf: None,
            mesh: None,
        };
        proof {
            assert(b.deep_view() =~= spec_default_part_acc());
        }
        b
    }
}

/// Folds one model-part field into the record under construction.
#[verifier::loop_isolation(false)]
#[verifier::rlimit(100)]
fn apply_part_field(b: &mut PartBuilder, key: &String, val: &Tag) -> (r: Result<(), DecodeError>)
    ensures
        match r {
            Ok(()) => spec_part_field(old(b).deep_view(), key@, val.deep_view()) == Ok::<
                _,
                DecodeErrorV,
            >(final(b).deep_view()),
            Err(e) => spec_part_field(old(b).deep_view(), key@, val.deep_view()) == Err::<
                PartAcc,
                _,
            >(e.deep_view()),
        },
    decreases val, 0nat,
{
    if str_eq(key.as_str(), "name") {
        match tag_str(val) {
            Some(x) => {
                b.name = Some(x);
                proof {
                    assert(b.deep_view() =~= PartAcc {
                        name: Some(tag_view(*val)->Str_0),
                        ..old(b).deep_view()
                    });
                }
                Ok(())
            },
            None => Err(DecodeError::WrongTag(clone_string(key))),
        }
    } else if str_eq(key.as_str(), "chld") {
        match val {
            Tag::List(items) => {
                let ghost sv = val.deep_view()->List_0;
                let mut out: Vec<crate::moon::ModelPart> = Vec::new();
                let mut j: usize = 0;
                proof {
                    assert(out.deep_view() =~= Seq::<crate::moon::ModelPartV>::empty());
                }
                while j < items.len()
                    invariant
                        j <= items@.len(),
                        sv.len() == items@.len(),
                        spec_parts_of(sv, 0) == (match spec_parts_of(sv, j as int) {
                            Err(e) => Err::<Seq<crate::moon::ModelPartV>, _>(e),
                            Ok(rest) => Ok::<_, DecodeErrorV>(out.deep_view() + rest),
                        }),
                    decreases items@.len() - j,
                {
                    proof {
                        assert(sv[j as int] == tag_view(items@[j as int]));
                        assert(decreases_to!(*val => *items));
                        assert(decreases_to!(*items => items[j as int]));
                    }
                    match decode_part(&items[j]) {
                        Ok(p) => {
                            let ghost prev = out.deep_view();
                            out.push(p);
                            proof {
                                assert(out.deep_view() =~= prev.push(
                                    spec_dec_part(sv[j as int])->Ok_0,
                                ));
                                if let Ok(rest) = spec_parts_of(sv, j as int + 1) {
                                    assert(prev + (seq![spec_dec_part(sv[j as int])->Ok_0] + rest)
                                        =~= out.deep_view() + rest);
                                }
                            }
                        },
                        Err(e) => {
                            return Err(e);
                        },
                    }
                    j = j + 1;
                }
                proof {
                    assert(out.deep_view() + Seq::<crate::moon::ModelPartV>::empty()
                        =~= out.deep_view());
                }
                b.chld = out;
                proof {
                    assert(b.deep_view() =~= PartAcc {
                        chld: spec_parts_of(sv, 0)->Ok_0,
                        ..old(b).deep_view()
                    });
                }
                Ok(())
            },
            _ => Err(DecodeError::WrongTag(clone_string(key))),
        }
    } else if str_eq(key.as_str(), "anim") {
        b.anim = Some(clone_tag(val));
        proof {
            assert(b.deep_view() =~= PartAcc {
                anim: Some(val.deep_view()),
                ..old(b).deep_view()
            });
        }
        Ok(())
    } else if str_eq(key.as_str(), "rot") {
        match tag_xyz(val) {
            Some(x) => {
                b.rot = x;
                proof {
                    assert(b.deep_view() =~= PartAcc { rot: x, ..old(b).deep_view() });
                }
                Ok(())
            },
            None => Err(DecodeError::WrongTag(clone_string(key))),
        }
    } else if str_eq(key.as_str(), "piv") {
        match tag_xyz(val) {
            Some(x) => {
                b.piv = x;
                proof {
                    assert(b.deep_view() =~= PartAcc { piv: x, ..old(b).deep_view() });
                }
                Ok(())
            },
            None => Err(DecodeError::WrongTag(clone_string(key))),
        }
    } else if str_eq(key.as_str(), "primary") {
        match tag_str(val) {
            Some(x) => {
                b.primary = Some(x);
                proof {
                    assert(b.deep_view() =~= PartAcc {
                        primary: Some(tag_view(*val)->Str_0),
                        ..old(b).deep_view()
                    });
                }
                Ok(())
            },
            None => Err(DecodeError::WrongTag(clone_string(key))),
        }
    } else if str_eq(key.as_str(), "secondary") {
        match tag_str(val) {
            Some(x) => {
                b.secondary = Some(x);
                proof {
                    assert(b.deep_view() =~= PartAcc {
                        secondary: Some(tag_view(*val)->Str_0),
                        ..old(b).deep_view()
                    });
                }
                Ok(())
            },
            None => Err(DecodeError::WrongTag(clone_string(key))),
        }
    } else if str_eq(key.as_str(), "pt") {
        match tag_parent_type(val) {
            Some(Some(p)) => {
                b.pt = Some(p);
                proof {
                    assert(b.deep_view() =~= PartAcc { pt: Some(p), ..old(b).deep_view() });
                }
                Ok(())
            },
            Some(None) => Err(DecodeError::UnknownParentType),
            None => Err(DecodeError::WrongTag(clone_string(key))),
        }
    } else if str_eq(key.as_str(), "vsb") {
        match tag_bool(val) {
            Some(x) => {
                b.vsb = x;
                proof {
                    assert(b.deep_view() =~= PartAcc { vsb: x, ..old(b).deep_view() });
                }
                Ok(())
            },
            None => Err(DecodeError::WrongTag(clone_string(key))),
        }
    } else if str_eq(key.as_str(), "smo") {
        match tag_bool(val) {
            Some(x) => {
                b.smo = x;
                proof {
                    assert(b.deep_view() =~= PartAcc { smo: x, ..old(b).deep_view() });
                }
                Ok(())
            },
            None => Err(DecodeError::WrongTag(clone_string(key))),
        }
    } else if str_eq(key.as_str(), "nr") {
        match tag_nr(val) {
            Some(x) => {
                b.nr = Some(x);
                proof {
                    assert(b.deep_view() =~= PartAcc { nr: Some(x), ..old(b).deep_view() });
                }
                Ok(())
            },
            None => Err(DecodeError::WrongTag(clone_string(key))),
        }
    } else if str_eq(key.as_str(), "cn") {
        match tag_strs(val) {
            Some(x) => {
                b.cn = Some(x);
                proof {
                    assert(b.deep_view() =~= PartAcc {
                        cn: Some(spec_strs_of(val.deep_view())->Some_0),
                        ..old(b).deep_view()
                    });
                }
                Ok(())
            },
            None => Err(DecodeError::WrongTag(clone_string(key))),
        }
    } else if str_eq(key.as_str(), "pr") {
        match tag_u32s(val) {
            Some(x) => {
                b.pr = Some(x);
                proof {
                    assert(b.deep_view() =~= PartAcc {
                        pr: Some(spec_u32s_of(val.deep_view())->Some_0),
                        ..old(b).deep_view()
                    });
                }
                Ok(())
            },
            None => Err(DecodeError::WrongTag(clone_string(key))),
        }
    } else if str_eq(key.as_str(), "cube_data") {
        match decode_sided(val) {
            Ok(x) => {
                b.cube_data = Some(x);
                proof {
                    assert(b.deep_view() =~= PartAcc {
                        cube_data: Some(x),
                        ..old(b).deep_view()
                    });
                }
                Ok(())
            },
            Err(e) => Err(e),
        }
    } else if str_eq(key.as_str(), "f") {
        match tag_xyz(val) {
            Some(x) => {
                b.f = Some(x);
                proof {
                    assert(b.deep_view() =~= PartAcc { f: Some(x), ..old(b).deep_view() });
                }
                Ok(())
            },
            None => Err(DecodeError::WrongTag(clone_string(key))),
        }
    } else if str_eq(key.as_str(), "t") {
        match tag_xyz(val) {
            Some(x) => {
                b.t = Some(x);
                proof {
                    assert(b.deep_view() =~= PartAcc { t: Some(x), ..old(b).deep_view() });
                }
                Ok(())
            },
            None => Err(DecodeError::WrongTag(clone_string(key))),
        }
    } else if str_eq(key.as_str(), "inf") {
        match tag_f64(val) {
            Some(x) => {
                b.inf = Some(x);
                proof {
                    assert(b.deep_view() =~= PartAcc { inf: Some(x), ..old(b).deep_view() });
                }
                Ok(())
            },
            None => Err(DecodeError::WrongTag(clone_string(key))),
        }
    } else if str_eq(key.as_str(), "mesh_data") {
        match decode_mesh(val) {
            Ok(x) => {
                b.mesh = Some(x);
                proof {
                    assert(b.deep_view() =~= PartAcc {
                        mesh: Some(spec_dec_mesh(val.deep_view())->Ok_0),
                        ..old(b).deep_view()
                    });
                }
                Ok(())
            },
            Err(e) => Err(e),
        }
    } else {
        Err(DecodeError::UnknownField(clone_string(key)))
    }
}

/// Closes a model-part record.
fn finalize_part(b: PartBuilder) -> (r: Result<crate::moon::ModelPart, DecodeError>)
    ensures
        match r {
            Ok(p) => spec_part_finalize(b.deep_view()) == Ok::<_, DecodeErrorV>(p.deep_view()),
            Err(e) => spec_part_finalize(b.deep_view()) == Err::<crate::moon::ModelPartV, _>(
                e.deep_view(),
            ),
        },
{
    let ghost bv = b.deep_view();
    let PartBuilder {
        name,
        chld,
        anim,
        rot,
        piv,
        primary,
        secondary,
        pt,
        vsb,
        smo,
        nr,
        cn,
        pr,
        cube_data,
        f,
        t,
        inf,
        mesh,
    } = b;
    let nm = match name {
        Some(x) => x,
        None => {
            return Err(DecodeError::MissingField("name".to_owned()));
        },
    };
    let has_cube = cube_data.is_some() || f.is_some() || t.is_some() || inf.is_some();
    if mesh.is_some() && has_cube {
        return Err(DecodeError::AmbiguousVariant);
    }
    let data = if mesh.is_some() {
        let md = match mesh {
            Some(m) => m,
            None => {
                proof {
                    assert(false);
                }
                unreached()
            },
        };
        crate::moon::ModelData::Mesh { mesh_data: md }
    } else if has_cube {
        match (cube_data, f, t) {
            (Some(cd), Some(fv), Some(tv2)) => crate::moon::ModelData::Cube {
                cube_data: cd,
                f: fv,
                t: tv2,
                inf: match inf {
                    Some(x) => x,
                    None => 0,
                },
            },
            (None, _, _) => {
                return Err(DecodeError::MissingField("cube_data".to_owned()));
            },
            (_, None, _) => {
                return Err(DecodeError::MissingField("f".to_owned()));
            },
            (_, _, None) => {
                return Err(DecodeError::MissingField("t".to_owned()));
            },
        }
    } else {
        crate::moon::ModelData::Group {  }
    };
    let p = crate::moon::ModelPart {
        name: nm,
        chld,
        anim,
        rot,
        piv,
        primary,
        secondary,
        pt,
        vsb,
        smo,
        data,
        nr,
        cn,
        pr,
    };
    proof {
        assert(p.deep_view().chld =~= p.chld.deep_view());
        assert(p.deep_view() =~= spec_part_finalize(bv)->Ok_0);
    }
    Ok(p)
}

/// Decodes one model part: a compound whose fields fold into the record in
/// any order, later duplicates winning, closed by the variant dispatch.
#[verifier::loop_isolation(false)]
pub fn decode_part(t: &Tag) -> (r: Result<crate::moon::ModelPart, DecodeError>)
    ensures
        match r {
            Ok(p) => spec_dec_part(t.deep_view()) == Ok::<_, DecodeErrorV>(p.deep_view()),
            Err(e) => spec_dec_part(t.deep_view()) == Err::<crate::moon::ModelPartV, _>(
                e.deep_view(),
            ),
        },
    decreases t, 1nat,
{
    let fields = match t {
        Tag::Compound(fs) => fs,
        _ => {
            return Err(DecodeError::WrongTag("models".to_owned()));
        },
    };
    let ghost fsv = t.deep_view()->Compound_0;
    let mut b = PartBuilder::empty();
    let mut i: usize = 0;
    while i < fields.len()
        invariant
            i <= fields@.len(),
            fsv.len() == fields@.len(),
            spec_part_fields(fsv, 0, spec_default_part_acc()) == spec_part_fields(
                fsv,
                i as int,
                b.deep_view(),
            ),
        decreases fields@.len() - i,
    {
        let key = &fields[i].0;
        let val = &fields[i].1;
        proof {
            assert(fsv[i as int] == (key@, tag_view(fields@[i as int].1)));
            assert(decreases_to!(*t => *fields));
            assert(decreases_to!(*fields => fields[i as int]));
            assert(decreases_to!(fields[i as int] => fields[i as int].1));
        }
        match apply_part_field(&mut b, key, val) {
            Ok(()) => {},
            Err(e) => {
                return Err(e);
            },
        }
        i = i + 1;
    }
    finalize_part(b)
}

/// Appends one field to a model-part compound under construction.
fn push_part_field(
    fs: &mut Vec<(String, Tag)>,
    name: &str,
    tag: Tag,
    Ghost(acc): Ghost<PartAcc>,
    Ghost(acc2): Ghost<PartAcc>,
)
    requires
        spec_part_fields(spec_fields_view(old(fs)@), 0, spec_default_part_acc()) == Ok::<
            _,
            DecodeErrorV,
        >(acc),
        spec_part_field(acc, name@, tag.deep_view()) == Ok::<_, DecodeErrorV>(acc2),
    ensures
        spec_part_fields(spec_fields_view(final(fs)@), 0, spec_default_part_acc()) == Ok::<
            _,
            DecodeErrorV,
        >(acc2),
{
    let ghost tv = tag.deep_view();
    let ghost snap = spec_fields_view(fs@);
    fs.push((name.to_owned(), tag));
    proof {
        lemma_part_fold_snoc(snap, (name@, tv), 0, spec_default_part_acc());
        assert(spec_fields_view(fs@) =~= snap.push((name@, tv)));
    }
}

/// A tag list whose every element decodes to the matching part decodes, as a
/// list, to exactly those parts.
proof fn lemma_parts_all_ok(sv: Seq<TagV>, expect: Seq<crate::moon::ModelPartV>, i: int)
    requires
        0 <= i <= sv.len(),
        sv.len() == expect.len(),
        forall|k: int|
            0 <= k < sv.len() ==> spec_dec_part(#[trigger] sv[k]) == Ok::<_, DecodeErrorV>(
                expect[k],
            ),
    ensures
        spec_parts_of(sv, i) == Ok::<_, DecodeErrorV>(expect.subrange(i, expect.len() as int)),
    decreases sv.len() - i,
{
    if i == sv.len() {
        assert(expect.subrange(i, expect.len() as int) =~= Seq::<
            crate::moon::ModelPartV,
        >::empty());
    } else {
        lemma_parts_all_ok(sv, expect, i + 1);
        assert(seq![expect[i]] + expect.subrange(i + 1, expect.len() as int) =~= expect.subrange(
            i,
            expect.len() as int,
        ));
    }
}

/// The enumeration position decodes back to the parent type it encodes.
proof fn lemma_parent_type_index_round(pt: ParentType)
    ensures
        spec_parent_type_of_index(spec_parent_type_index(pt)) == Some(pt),
{
}

/// A list of strings from owned values.
#[verifier::loop_isolation(false)]
fn strs_tag(v: &Vec<String>) -> (r: Tag)
    ensures
        spec_strs_of(r.deep_view()) == Some(v.deep_view()),
{
    let mut out: Vec<Tag> = Vec::new();
    let mut i: usize = 0;
    while i < v.len()
        invariant
            i <= v@.len(),
            out@.len() == i as int,
            forall|j: int|
                0 <= j < i as int ==> #[trigger] tag_view(out@[j]) == TagV::Str(v@[j]@),
        decreases v@.len() - i,
    {
        out.push(Tag::Str(clone_string(&v[i])));
        i = i + 1;
    }
    let r = Tag::List(out);
    proof {
        let s = r.deep_view()->List_0;
        assert forall|j: int| 0 <= j < s.len() implies #[trigger] s[j] == TagV::Str(v@[j]@) by {
            assert(s[j] == tag_view(r->List_0@[j]));
        }
        assert(spec_all_strs(s));
        assert(spec_strs_of(r.deep_view())->Some_0 =~= v.deep_view());
    }
    r
}

/// The record state after the base fields of a part are folded in: every
/// field set from the part, the variant fields still empty.
pub open spec fn spec_base_acc(pv: crate::moon::ModelPartV) -> PartAcc {
    PartAcc {
        name: Some(pv.name),
        chld: pv.chld,
        anim: pv.anim,
        rot: pv.rot,
        piv: pv.piv,
        primary: pv.primary,
        secondary: pv.secondary,
        pt: pv.pt,
        vsb: pv.vsb,
        smo: pv.smo,
        nr: pv.nr,
        cn: pv.cn,
        pr: pv.pr,
        cube_data: None,
        f: None,
        t: None,
        inf: None,
        mesh: None,
    }
}

/// Writes a part's base fields — everything but the variant payload — into a
/// fresh compound, in the canonical order.
#[verifier::loop_isolation(false)]
#[verifier::rlimit(100)]
fn push_base_fields(fs: &mut Vec<(String, Tag)>, p: &crate::moon::ModelPart)
    requires
        old(fs)@ == Seq::<(String, Tag)>::empty(),
    ensures
        spec_part_fields(spec_fields_view(final(fs)@), 0, spec_default_part_acc()) == Ok::<
            _,
            DecodeErrorV,
        >(spec_base_acc(p.deep_view())),
    decreases p, 0nat,
{
    let ghost d = spec_default_part_acc();
    let ghost pv = p.deep_view();
    proof {
        assert(spec_fields_view(fs@) =~= Seq::<(Seq<char>, TagV)>::empty());
    }
    let ghost a1 = PartAcc { name: Some(p.name@), ..d };
    proof {
        assert(spec_part_field(d, "name"@, TagV::Str(p.name@)) == Ok::<_, DecodeErrorV>(a1));
    }
    push_part_field(fs, "name", Tag::Str(clone_string(&p.name)), Ghost(d), Ghost(a1));
    let mut items: Vec<Tag> = Vec::new();
    let mut j: usize = 0;
    while j < p.chld.len()
        invariant
            j <= p.chld@.len(),
            items@.len() == j as int,
            forall|k: int|
                0 <= k < j as int ==> spec_dec_part(#[trigger] tag_view(items@[k])) == Ok::<
                    _,
                    DecodeErrorV,
                >(p.chld.deep_view()[k]),
        decreases p.chld@.len() - j,
    {
        proof {
            assert(decreases_to!(*p => p.chld));
            assert(decreases_to!(p.chld => p.chld[j as int]));
            assert(p.chld.deep_view()[j as int] == p.chld[j as int].deep_view());
        }
        let child_tag = encode_part(&p.chld[j]);
        items.push(child_tag);
        j = j + 1;
    }
    let chld_tag = Tag::List(items);
    let ghost chldv = chld_tag.deep_view();
    let ghost a2 = PartAcc { chld: pv.chld, ..a1 };
    proof {
        let sv = chldv->List_0;
        assert(sv.len() == p.chld@.len());
        assert forall|k: int| 0 <= k < sv.len() implies spec_dec_part(#[trigger] sv[k]) == Ok::<
            _,
            DecodeErrorV,
        >(p.chld.deep_view()[k]) by {
            assert(sv[k] == tag_view(chld_tag->List_0@[k]));
        }
        lemma_parts_all_ok(sv, p.chld.deep_view(), 0);
        assert(p.chld.deep_view().subrange(0, p.chld.deep_view().len() as int)
            =~= p.chld.deep_view());
        lemma_part_names_distinct();
        assert(pv.chld =~= p.chld.deep_view());
        assert(spec_part_field(a1, "chld"@, chldv) == Ok::<_, DecodeErrorV>(a2));
    }
    push_part_field(fs, "chld", chld_tag, Ghost(a1), Ghost(a2));
    let ghost a3 = PartAcc { anim: pv.anim, ..a2 };
    match &p.anim {
        Some(a) => {
            let tag = clone_tag(a);
            proof {
                lemma_part_names_distinct();
                assert(spec_part_field(a2, "anim"@, tag.deep_view()) == Ok::<_, DecodeErrorV>(
                    a3,
                ));
            }
            push_part_field(fs, "anim", tag, Ghost(a2), Ghost(a3));
        },
        None => {
            proof {
                assert(a3 =~= a2);
            }
        },
    }
    let ghost a4 = PartAcc { rot: p.rot, ..a3 };
    let rot_tag = xyz_tag(&p.rot);
    proof {
        lemma_part_names_distinct();
        assert(spec_part_field(a3, "rot"@, rot_tag.deep_view()) == Ok::<_, DecodeErrorV>(a4));
    }
    push_part_field(fs, "rot", rot_tag, Ghost(a3), Ghost(a4));
    let ghost a5 = PartAcc { piv: p.piv, ..a4 };
    let piv_tag = xyz_tag(&p.piv);
    proof {
        lemma_part_names_distinct();
        assert(spec_part_field(a4, "piv"@, piv_tag.deep_view()) == Ok::<_, DecodeErrorV>(a5));
    }
    push_part_field(fs, "piv", piv_tag, Ghost(a4), Ghost(a5));
    let ghost a6 = PartAcc { primary: pv.primary, ..a5 };
    match &p.primary {
        Some(x) => {
            proof {
                lemma_part_names_distinct();
                assert(spec_part_field(a5, "primary"@, TagV::Str(x@)) == Ok::<_, DecodeErrorV>(
                    a6,
                ));
            }
            push_part_field(fs, "primary", Tag::Str(clone_string(x)), Ghost(a5), Ghost(a6));
        },
        None => {
            proof {
                assert(a6 =~= a5);
            }
        },
    }
    let ghost a7 = PartAcc { secondary: pv.secondary, ..a6 };
    match &p.secondary {
        Some(x) => {
            proof {
                lemma_part_names_distinct();
                assert(spec_part_field(a6, "secondary"@, TagV::Str(x@)) == Ok::<_, DecodeErrorV>(
                    a7,
                ));
            }
            push_part_field(fs, "secondary", Tag::Str(clone_string(x)), Ghost(a6), Ghost(a7));
        },
        None => {
            proof {
                assert(a7 =~= a6);
            }
        },
    }
    let ghost a8 = PartAcc { pt: p.pt, ..a7 };
    match &p.pt {
        Some(x) => {
            let idx = parent_type_index(x);
            proof {
                lemma_part_names_distinct();
                lemma_parent_type_index_round(*x);
                assert(spec_part_field(a7, "pt"@, TagV::Int(idx)) == Ok::<_, DecodeErrorV>(a8));
            }
            push_part_field(fs, "pt", Tag::Int(idx), Ghost(a7), Ghost(a8));
        },
        None => {
            proof {
                assert(a8 =~= a7);
            }
        },
    }
    let ghost a9 = PartAcc { vsb: p.vsb, ..a8 };
    proof {
        lemma_part_names_distinct();
        assert(spec_part_field(a8, "vsb"@, TagV::Byte(if p.vsb { 1i8 } else { 0i8 })) == Ok::<
            _,
            DecodeErrorV,
        >(a9));
    }
    push_part_field(fs, "vsb", Tag::Byte(if p.vsb { 1 } else { 0 }), Ghost(a8), Ghost(a9));
    let ghost a10 = PartAcc { smo: p.smo, ..a9 };
    proof {
        lemma_part_names_distinct();
        assert(spec_part_field(a9, "smo"@, TagV::Byte(if p.smo { 1i8 } else { 0i8 })) == Ok::<
            _,
            DecodeErrorV,
        >(a10));
    }
    push_part_field(fs, "smo", Tag::Byte(if p.smo { 1 } else { 0 }), Ghost(a9), Ghost(a10));
    let ghost a11 = PartAcc { nr: p.nr, ..a10 };
    match &p.nr {
        Some(w) => {
            let mut ints: Vec<i32> = Vec::new();
            ints.push(w.0 as i32);
            ints.push(w.1 as i32);
            ints.push(w.2 as i32);
            ints.push(w.3 as i32);
            let tag = Tag::Ints(ints);
            proof {
                lemma_part_names_distinct();
                let s = tag.deep_view()->Ints_0;
                assert(s.len() == 4);
                assert(s[0] == w.0 as i32 && s[1] == w.1 as i32 && s[2] == w.2 as i32 && s[3]
                    == w.3 as i32);
                let x0: u32 = w.0;
                let x1: u32 = w.1;
                let x2: u32 = w.2;
                let x3: u32 = w.3;
                assert((x0 as i32) as u32 == x0 && (x1 as i32) as u32 == x1 && (x2 as i32) as u32
                    == x2 && (x3 as i32) as u32 == x3) by (bit_vector);
                assert(spec_nr_of(tag.deep_view()) == Some((w.0, w.1, w.2, w.3)));
                assert(spec_part_field(a10, "nr"@, tag.deep_view()) == Ok::<_, DecodeErrorV>(
                    a11,
                ));
            }
            push_part_field(fs, "nr", tag, Ghost(a10), Ghost(a11));
        },
        None => {
            proof {
                assert(a11 =~= a10);
            }
        },
    }
    let ghost a12 = PartAcc { cn: pv.cn, ..a11 };
    match &p.cn {
        Some(v) => {
            let tag = strs_tag(v);
            proof {
                lemma_part_names_distinct();
                assert(spec_part_field(a11, "cn"@, tag.deep_view()) == Ok::<_, DecodeErrorV>(
                    a12,
                ));
            }
            push_part_field(fs, "cn", tag, Ghost(a11), Ghost(a12));
        },
        None => {
            proof {
                assert(a12 =~= a11);
            }
        },
    }
    let ghost a13 = PartAcc { pr: pv.pr, ..a12 };
    match &p.pr {
        Some(v) => {
            let tag = u32s_tag(v);
            proof {
                lemma_part_names_distinct();
                assert(spec_part_field(a12, "pr"@, tag.deep_view()) == Ok::<_, DecodeErrorV>(
                    a13,
                ));
            }
            push_part_field(fs, "pr", tag, Ghost(a12), Ghost(a13));
        },
        None => {
            proof {
                assert(a13 =~= a12);
            }
        },
    }
    proof {
        assert(a13 =~= spec_base_acc(pv));
    }
}

/// Encodes one model part; decoding the result gives it back exactly.
#[verifier::loop_isolation(false)]
#[verifier::rlimit(100)]
pub fn encode_part(p: &crate::moon::ModelPart) -> (r: Tag)
    ensures
        spec_dec_part(r.deep_view()) == Ok::<_, DecodeErrorV>(p.deep_view()),
    decreases p, 1nat,
{
    let ghost d = spec_default_part_acc();
    let ghost pv = p.deep_view();
    let mut fs: Vec<(String, Tag)> = Vec::new();
    push_base_fields(&mut fs, p);
    let ghost a13 = spec_base_acc(pv);
    let ghost afinal: PartAcc = match pv.data {
        crate::moon::ModelDataV::Group {  } => a13,
        crate::moon::ModelDataV::Cube { cube_data, f, t, inf } => PartAcc {
            cube_data: Some(cube_data),
            f: Some(f),
            t: Some(t),
            inf: Some(inf),
            ..a13
        },
        crate::moon::ModelDataV::Mesh { mesh_data } => PartAcc { mesh: Some(mesh_data), ..a13 },
    };
    match &p.data {
        crate::moon::ModelData::Group {  } => {
            proof {
                assert(afinal =~= a13);
            }
        },
        crate::moon::ModelData::Cube { cube_data, f, t, inf } => {
            let ghost b1 = PartAcc { cube_data: Some(*cube_data), ..a13 };
            let cd_tag = encode_sided(cube_data);
            proof {
                lemma_part_names_distinct();
                assert(spec_part_field(a13, "cube_data"@, cd_tag.deep_view()) == Ok::<
                    _,
                    DecodeErrorV,
                >(b1));
            }
            push_part_field(&mut fs, "cube_data", cd_tag, Ghost(a13), Ghost(b1));
            let ghost b2 = PartAcc { f: Some(*f), ..b1 };
            let f_tag = xyz_tag(f);
            proof {
                lemma_part_names_distinct();
                assert(spec_part_field(b1, "f"@, f_tag.deep_view()) == Ok::<_, DecodeErrorV>(b2));
            }
            push_part_field(&mut fs, "f", f_tag, Ghost(b1), Ghost(b2));
            let ghost b3 = PartAcc { t: Some(*t), ..b2 };
            let t_tag = xyz_tag(t);
            proof {
                lemma_part_names_distinct();
                assert(spec_part_field(b2, "t"@, t_tag.deep_view()) == Ok::<_, DecodeErrorV>(b3));
            }
            push_part_field(&mut fs, "t", t_tag, Ghost(b2), Ghost(b3));
            proof {
                lemma_part_names_distinct();
                assert(spec_part_field(b3, "inf"@, TagV::Double(*inf)) == Ok::<_, DecodeErrorV>(
                    afinal,
                ));
            }
            push_part_field(&mut fs, "inf", Tag::Double(*inf), Ghost(b3), Ghost(afinal));
        },
        crate::moon::ModelData::Mesh { mesh_data } => {
            let md_tag = encode_mesh(mesh_data);
            proof {
                lemma_part_names_distinct();
                assert(spec_part_field(a13, "mesh_data"@, md_tag.deep_view()) == Ok::<
                    _,
                    DecodeErrorV,
                >(afinal));
            }
            push_part_field(&mut fs, "mesh_data", md_tag, Ghost(a13), Ghost(afinal));
        },
    }
    let r = Tag::Compound(fs);
    proof {
        assert(r.deep_view()->Compound_0 =~= spec_fields_view(fs@));
        assert(spec_part_finalize(afinal) matches Ok(q) && q =~= pv);
    }
    r
}

// ---------------------------------------------------------------------------
// The bundle
// ---------------------------------------------------------------------------

/// The empty bundle: every section at its default.
pub open spec fn spec_default_moon() -> crate::moon::MoonV {
    crate::moon::MoonV {
        textures: spec_default_textures(),
        scripts: Seq::empty(),
        animations: Seq::empty(),
        models: None,
        resources: Seq::empty(),
        metadata: spec_default_meta(),
    }
}

/// Folds one bundle section into the record.
pub open spec fn spec_moon_field(acc: crate::moon::MoonV, k: Seq<char>, v: TagV) -> Result<
    crate::moon::MoonV,
    DecodeErrorV,
> {
    if k == "textures"@ {
        match spec_dec_textures(v) {
            Err(e) => Err(e),
            Ok(x) => Ok(crate::moon::MoonV { textures: x, ..acc }),
        }
    } else if k == "scripts"@ {
        match spec_dec_bytes_map(v) {
            Err(e) => Err(e),
            Ok(x) => Ok(crate::moon::MoonV { scripts: x, ..acc }),
        }
    } else if k == "animations"@ {
        match v {
            TagV::List(s) => Ok(crate::moon::MoonV { animations: s, ..acc }),
            _ => Err(DecodeErrorV::WrongTag(k)),
        }
    } else if k == "models"@ {
        match spec_dec_part(v) {
            Err(e) => Err(e),
            Ok(p) => Ok(crate::moon::MoonV { models: Some(p), ..acc }),
        }
    } else if k == "resources"@ {
        match spec_dec_bytes_map(v) {
            Err(e) => Err(e),
            Ok(x) => Ok(crate::moon::MoonV { resources: x, ..acc }),
        }
    } else if k == "metadata"@ {
        match spec_dec_meta(v) {
            Err(e) => Err(e),
            Ok(x) => Ok(crate::moon::MoonV { metadata: x, ..acc }),
        }
    } else {
        Err(DecodeErrorV::UnknownField(k))
    }
}

/// Folds the bundle sections `fs[i..]` into the record.
pub open spec fn spec_moon_fields(
    fs: Seq<(Seq<char>, TagV)>,
    i: int,
    acc: crate::moon::MoonV,
) -> Result<crate::moon::MoonV, DecodeErrorV>
    decreases fs.len() - i,
{
    if i < 0 || i >= fs.len() {
        Ok(acc)
    } else {
        match spec_moon_field(acc, fs[i].0, fs[i].1) {
            Err(e) => Err(e),
            Ok(a2) => spec_moon_fields(fs, i + 1, a2),
        }
    }
}

/// The bundle a tag tree decodes to: a compound whose sections fold into the
/// record, any order, later duplicates winning.
pub open spec fn spec_dec_moon(t: TagV) -> Result<crate::moon::MoonV, DecodeErrorV> {
    match t {
        TagV::Compound(fs) => spec_moon_fields(fs, 0, spec_default_moon()),
        _ => Err(DecodeErrorV::WrongTag("moon"@)),
    }
}

proof fn lemma_moon_fold_snoc(
    fs: Seq<(Seq<char>, TagV)>,
    kv: (Seq<char>, TagV),
    i: int,
    acc: crate::moon::MoonV,
)
    requires
        0 <= i <= fs.len(),
    ensures
        spec_moon_fields(fs.push(kv), i, acc) == (match spec_moon_fields(fs, i, acc) {
            Err(e) => Err::<crate::moon::MoonV, DecodeErrorV>(e),
            Ok(a) => spec_moon_field(a, kv.0, kv.1),
        }),
    decreases fs.len() - i,
{
    if i == fs.len() {
        assert(fs.push(kv)[i] == kv);
        match spec_moon_field(acc, kv.0, kv.1) {
            Err(e) => {},
            Ok(a2) => {
                assert(spec_moon_fields(fs.push(kv), i + 1, a2) == Ok::<_, DecodeErrorV>(a2));
            },
        }
    } else {
        assert(fs.push(kv)[i] == fs[i]);
        match spec_moon_field(acc, fs[i].0, fs[i].1) {
            Err(e) => {},
            Ok(a2) => {
                lemma_moon_fold_snoc(fs, kv, i + 1, a2);
            },
        }
    }
}

/// The bundle section names are pairwise distinct.
proof fn lemma_moon_names_distinct()
    ensures
        "scripts"@ != "textures"@,
        "animations"@ != "textures"@,
        "animations"@ != "scripts"@,
        "models"@ != "textures"@,
        "models"@ != "scripts"@,
        "models"@ != "animations"@,
        "resources"@ != "textures"@,
        "resources"@ != "scripts"@,
        "resources"@ != "animations"@,
        "resources"@ != "models"@,
        "metadata"@ != "textures"@,
        "metadata"@ != "scripts"@,
        "metadata"@ != "animations"@,
        "metadata"@ != "models"@,
        "metadata"@ != "resources"@,
{
    reveal_strlit("textures");
    reveal_strlit("scripts");
    reveal_strlit("animations");
    reveal_strlit("models");
    reveal_strlit("resources");
    reveal_strlit("metadata");
    assert("textures"@.len() == 8);
    assert("scripts"@.len() == 7);
    assert("animations"@.len() == 10);
    assert("models"@.len() == 6);
    assert("resources"@.len() == 9);
    assert("metadata"@.len() == 8);
    assert("textures"@[0] == 't' && "metadata"@[0] == 'm');
}

/// Copies a list of opaque tags; the copy has the same mathematical values.
#[verifier::loop_isolation(false)]
fn clone_tags(v: &Vec<Tag>) -> (r: Vec<Tag>)
    ensures
        r.deep_view() == v.deep_view(),
{
    let mut out: Vec<Tag> = Vec::new();
    let mut i: usize = 0;
    proof {
        assert(out.deep_view() =~= v.deep_view().subrange(0, 0));
    }
    while i < v.len()
        invariant
            i <= v@.len(),
            out.deep_view() =~= v.deep_view().subrange(0, i as int),
        decreases v@.len() - i,
    {
        let ghost prev = out.deep_view();
        out.push(clone_tag(&v[i]));
        proof {
            assert(out.deep_view() =~= prev.push(v.deep_view()[i as int]));
            assert(out.deep_view() =~= v.deep_view().subrange(0, i as int + 1));
        }
        i = i + 1;
    }
    proof {
        assert(v.deep_view().subrange(0, v.deep_view().len() as int) =~= v.deep_view());
    }
    out
}

/// Decodes a bundle from the tagged-value tree: the strict schema of the
/// top-level compound, every section through its own decoder. The result is
/// well formed: authors normalized, script, resource and raw-texture names
/// distinct.
#[verifier::loop_isolation(false)]
#[verifier::rlimit(60)]
pub fn decode_moon(t: &Tag) -> (r: Result<crate::moon::Moon, DecodeError>)
    ensures
        match r {
            Ok(m) => spec_dec_moon(t.deep_view()) == Ok::<_, DecodeErrorV>(m.deep_view())
                && m.wf(),
            Err(e) => spec_dec_moon(t.deep_view()) == Err::<crate::moon::MoonV, _>(e.deep_view()),
        },
{
    let fields = match t {
        Tag::Compound(fs) => fs,
        _ => {
            return Err(DecodeError::WrongTag("moon".to_owned()));
        },
    };
    let ghost fsv = t.deep_view()->Compound_0;
    let mut textures = crate::moon::Textures { src: Vec::new(), data: Vec::new() };
    let mut scripts: Vec<(String, Vec<u8>)> = Vec::new();
    let mut animations: Vec<Tag> = Vec::new();
    let mut models: Option<crate::moon::ModelPart> = None;
    let mut resources: Vec<(String, Vec<u8>)> = Vec::new();
    let mut metadata = crate::moon::Metadata {
        uuid: String::new(),
        authors: Vec::new(),
        color: None,
        bg: None,
        id: None,
        name: String::new(),
        description: String::new(),
        ver: String::new(),
    };
    let mut i: usize = 0;
    proof {
        assert(crate::moon::MoonV {
            textures: textures.deep_view(),
            scripts: scripts.deep_view(),
            animations: animations.deep_view(),
            models: match models {
                Some(ref m) => Some(m.deep_view()),
                None => None,
            },
            resources: resources.deep_view(),
            metadata: metadata.deep_view(),
        } =~= spec_default_moon());
    }
    while i < fields.len()
        invariant
            i <= fields@.len(),
            fsv.len() == fields@.len(),
            spec_moon_fields(fsv, 0, spec_default_moon()) == spec_moon_fields(
                fsv,
                i as int,
                crate::moon::MoonV {
                    textures: textures.deep_view(),
                    scripts: scripts.deep_view(),
                    animations: animations.deep_view(),
                    models: match models {
                        Some(ref m) => Some(m.deep_view()),
                        None => None,
                    },
                    resources: resources.deep_view(),
                    metadata: metadata.deep_view(),
                },
            ),
            metadata.wf(),
            spec_uniq_keys(scripts.deep_view()),
            spec_uniq_keys(resources.deep_view()),
            spec_uniq_keys(textures.src.deep_view()),
        decreases fields@.len() - i,
    {
        let key = &fields[i].0;
        let val = &fields[i].1;
        proof {
            assert(fsv[i as int] == (key@, tag_view(fields@[i as int].1)));
        }
        if str_eq(key.as_str(), "textures") {
            match decode_textures(val) {
                Ok(x) => {
                    textures = x;
                },
                Err(e) => {
                    return Err(e);
                },
            }
        } else if str_eq(key.as_str(), "scripts") {
            match decode_bytes_map(val) {
                Ok(x) => {
                    scripts = x;
                },
                Err(e) => {
                    return Err(e);
                },
            }
        } else if str_eq(key.as_str(), "animations") {
            match val {
                Tag::List(items) => {
                    animations = clone_tags(items);
                    proof {
                        assert(animations.deep_view() =~= tag_view(fields@[i as int].1)->List_0);
                    }
                },
                _ => {
                    return Err(DecodeError::WrongTag(clone_string(key)));
                },
            }
        } else if str_eq(key.as_str(), "models") {
            match decode_part(val) {
                Ok(p) => {
                    models = Some(p);
                },
                Err(e) => {
                    return Err(e);
                },
            }
        } else if str_eq(key.as_str(), "resources") {
            match decode_bytes_map(val) {
                Ok(x) => {
                    resources = x;
                },
                Err(e) => {
                    return Err(e);
                },
            }
        } else if str_eq(key.as_str(), "metadata") {
            match decode_metadata(val) {
                Ok(x) => {
                    metadata = x;
                },
                Err(e) => {
                    return Err(e);
                },
            }
        } else {
            return Err(DecodeError::UnknownField(clone_string(key)));
        }
        i = i + 1;
    }
    let m = crate::moon::Moon { textures, scripts, animations, models, resources, metadata };
    proof {
        assert(m.deep_view() =~= spec_dec_moon(t.deep_view())->Ok_0);
    }
    Ok(m)
}

/// Appends one section to a bundle compound under construction.
fn push_moon_field(
    fs: &mut Vec<(String, Tag)>,
    name: &str,
    tag: Tag,
    Ghost(acc): Ghost<crate::moon::MoonV>,
    Ghost(acc2): Ghost<crate::moon::MoonV>,
)
    requires
        spec_moon_fields(spec_fields_view(old(fs)@), 0, spec_default_moon()) == Ok::<
            _,
            DecodeErrorV,
        >(acc),
        spec_moon_field(acc, name@, tag.deep_view()) == Ok::<_, DecodeErrorV>(acc2),
    ensures
        spec_moon_fields(spec_fields_view(final(fs)@), 0, spec_default_moon()) == Ok::<
            _,
            DecodeErrorV,
        >(acc2),
{
    let ghost tv = tag.deep_view();
    let ghost snap = spec_fields_view(fs@);
    fs.push((name.to_owned(), tag));
    proof {
        lemma_moon_fold_snoc(snap, (name@, tv), 0, spec_default_moon());
        assert(spec_fields_view(fs@) =~= snap.push((name@, tv)));
    }
}

/// Encodes a well-formed bundle to the tagged-value tree; decoding the
/// result gives back exactly the bundle that was encoded.
#[verifier::loop_isolation(false)]
#[verifier::rlimit(60)]
pub fn encode_moon(m: &crate::moon::Moon) -> (r: Tag)
    requires
        m.wf(),
    ensures
        spec_dec_moon(r.deep_view()) == Ok::<_, DecodeErrorV>(m.deep_view()),
{
    let ghost d = spec_default_moon();
    let ghost mv = m.deep_view();
    let mut fs: Vec<(String, Tag)> = Vec::new();
    proof {
        assert(spec_fields_view(fs@) =~= Seq::<(Seq<char>, TagV)>::empty());
    }
    let ghost a1 = crate::moon::MoonV { textures: mv.textures, ..d };
    let tex_tag = encode_textures(&m.textures);
    proof {
        lemma_moon_names_distinct();
        assert(spec_moon_field(d, "textures"@, tex_tag.deep_view()) == Ok::<_, DecodeErrorV>(a1));
    }
    push_moon_field(&mut fs, "textures", tex_tag, Ghost(d), Ghost(a1));
    let ghost a2 = crate::moon::MoonV { scripts: mv.scripts, ..a1 };
    let scr_tag = encode_bytes_map(&m.scripts);
    proof {
        lemma_moon_names_distinct();
        assert(spec_moon_field(a1, "scripts"@, scr_tag.deep_view()) == Ok::<_, DecodeErrorV>(a2));
    }
    push_moon_field(&mut fs, "scripts", scr_tag, Ghost(a1), Ghost(a2));
    let ghost a3 = crate::moon::MoonV { animations: mv.animations, ..a2 };
    let anims = clone_tags(&m.animations);
    let ghost av = anims.deep_view();
    let anim_tag = Tag::List(anims);
    proof {
        lemma_moon_names_distinct();
        assert(anim_tag.deep_view()->List_0 =~= av);
        assert(av =~= mv.animations);
        assert(spec_moon_field(a2, "animations"@, anim_tag.deep_view()) == Ok::<_, DecodeErrorV>(
            a3,
        ));
    }
    push_moon_field(&mut fs, "animations", anim_tag, Ghost(a2), Ghost(a3));
    let ghost a4 = crate::moon::MoonV { models: mv.models, ..a3 };
    match &m.models {
        Some(p) => {
            let part_tag = encode_part(p);
            proof {
                lemma_moon_names_distinct();
                assert(spec_moon_field(a3, "models"@, part_tag.deep_view()) == Ok::<
                    _,
                    DecodeErrorV,
                >(a4));
            }
            push_moon_field(&mut fs, "models", part_tag, Ghost(a3), Ghost(a4));
        },
        None => {
            proof {
                assert(a4 =~= a3);
            }
        },
    }
    let ghost a5 = crate::moon::MoonV { resources: mv.resources, ..a4 };
    let res_tag = encode_bytes_map(&m.resources);
    proof {
        lemma_moon_names_distinct();
        assert(spec_moon_field(a4, "resources"@, res_tag.deep_view()) == Ok::<_, DecodeErrorV>(
            a5,
        ));
    }
    push_moon_field(&mut fs, "resources", res_tag, Ghost(a4), Ghost(a5));
    let ghost a6 = crate::moon::MoonV { metadata: mv.metadata, ..a5 };
    let meta_tag = encode_metadata(&m.metadata);
    proof {
        lemma_moon_names_distinct();
        assert(spec_moon_field(a5, "metadata"@, meta_tag.deep_view()) == Ok::<_, DecodeErrorV>(
            a6,
        ));
    }
    push_moon_field(&mut fs, "metadata", meta_tag, Ghost(a5), Ghost(a6));
    proof {
        assert(a6 =~= mv);
    }
    let r = Tag::Compound(fs);
    proof {
        assert(r.deep_view()->Compound_0 =~= spec_fields_view(fs@));
    }
    r
}

} // verus!
