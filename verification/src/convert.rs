//! The tree conversion engine: turns a model-part tree into the editable
//! form, depth first and in child order. A group node becomes an outliner
//! group whose children are converted with the running element count as
//! their identifier salt; a cube or mesh node becomes one element appended
//! to the flat list and an outliner reference to its identifier. A cube or
//! mesh node with children is malformed and conversion fails rather than
//! dropping them; mesh geometry is decoded through the packed-array codec
//! and emitted with synthesized sequential vertex and face identifiers.

use vstd::prelude::*;

use crate::bbmodel::{
    Element, ElementType, ElementTypeV, ElementV, Faces, Group, GroupV, Hierarchy, MeshFace,
    MeshFaceV, OutlinerItem, OutlinerItemV, XY, XYZ,
};
use crate::codec::{decode_mesh_faces, spec_decode_faces, CodecError, MeshFaceDataV};
use crate::ident::{spec_mix, spec_resolve_id_salted, HASH_SEED};
use crate::moon::{MeshDataV, ModelData, ModelDataV, ModelPart, ModelPartV, Moon, Sided};
use crate::strutil::{spec_dec, usize_to_string};
use crate::tag::clone_string;

verus! {

broadcast use vstd::group_vstd_default;

/// Why a model-part tree cannot be converted to the editable form.
#[derive(Debug, PartialEq, Eq, Clone, Copy, Structural)]
pub enum ConvertError {
    /// A cube or mesh node has children; only groups may.
    LeafWithChildren,
    /// The packed face arrays of a mesh are malformed.
    MalformedMesh(CodecError),
    /// A mesh's flat vertex array is not a whole number of triples.
    VtxNotTriples,
    /// A mesh face refers to a vertex the vertex array does not hold.
    VertexIndexOutOfRange,
    /// A mesh's UV array holds fewer pairs than its faces consume.
    UvsTooShort,
    /// A face refers to a texture slot past the end of the slot list.
    TextureIndexOutOfRange,
}

/// The face record of one cube side carried into the editable form: the UV
/// rectangle and rotation are copied and the texture index becomes an
/// optional slot reference.
pub open spec fn spec_opt_face(o: Option<crate::moon::Face>) -> Option<crate::bbmodel::Face> {
    match o {
        None => None,
        Some(f) => Some(crate::bbmodel::Face { uv: f.uv, texture: Some(f.tex as usize), rotation: f.rot }),
    }
}

/// The element a cube node converts to, resolved under the salt `start`.
pub open spec fn spec_cube_element(p: ModelPartV, start: nat) -> ElementV {
    let (cube_data, f, t, inf) = match p.data {
        ModelDataV::Cube { cube_data, f, t, inf } => (cube_data, f, t, inf),
        _ => arbitrary(),
    };
    ElementV {
        origin: p.piv,
        name: p.name,
        uuid: spec_resolve_id_salted(p, start as u64),
        visibility: Some(p.vsb),
        locked: false,
        allow_mirror_modeling: true,
        export: Some(true),
        color: 0,
        rotation: p.rot,
        extra: ElementTypeV::Cube {
            from: f,
            to: t,
            uv_offset: None,
            faces: Faces {
                north: spec_opt_face(cube_data.n),
                east: spec_opt_face(cube_data.e),
                south: spec_opt_face(cube_data.s),
                west: spec_opt_face(cube_data.w),
                up: spec_opt_face(cube_data.u),
                down: spec_opt_face(cube_data.d),
            },
            box_uv: None,
            rescale: false,
            autouv: 0,
            light_emission: None,
            mirror_uv: Some(false),
            inflate: Some(inf),
            shade: None,
        },
    }
}

/// The synthesized vertex list of a mesh: vertex `i` is named by its decimal
/// index and positioned at the `i`-th coordinate triple.
pub open spec fn spec_mesh_vertices(vtx: Seq<u64>) -> Seq<(Seq<char>, XYZ<u64>)> {
    Seq::new(
        (vtx.len() / 3) as nat,
        |i: int|
            if 0 <= i && 3 * i + 2 < vtx.len() {
                (
                    spec_dec(i as nat),
                    XYZ { x: vtx[3 * i], y: vtx[3 * i + 1], z: vtx[3 * i + 2] },
                )
            } else {
                arbitrary()
            },
    )
}

/// The editable form of one decoded mesh face whose UV pairs start at `off`
/// in the flat UV array: corner labels are the vertex identifiers, in face
/// order.
pub open spec fn spec_mesh_face(f: MeshFaceDataV, uvs: Seq<u64>, off: int) -> MeshFaceV {
    MeshFaceV {
        uv: Seq::new(
            f.vertices.len(),
            |k: int|
                if 0 <= k && off + 2 * k + 1 < uvs.len() {
                    (spec_dec(f.vertices[k] as nat), XY { x: uvs[off + 2 * k], y: uvs[off + 2 * k + 1] })
                } else {
                    arbitrary()
                },
        ),
        vertices: Seq::new(
            f.vertices.len(),
            |k: int|
                if 0 <= k < f.vertices.len() {
                    spec_dec(f.vertices[k] as nat)
                } else {
                    arbitrary()
                },
        ),
        texture: Some(f.texture as usize),
    }
}

/// The synthesized face list of a mesh from the faces `faces[j..]`, with the
/// next UV pair at `off`: face `j` is named by its decimal index, its corners
/// carry the next UV pairs in order, and every vertex reference must fall
/// inside the vertex list.
pub open spec fn spec_mesh_faces_from(
    faces: Seq<MeshFaceDataV>,
    uvs: Seq<u64>,
    vcount: int,
    j: int,
    off: int,
) -> Result<Seq<(Seq<char>, MeshFaceV)>, ConvertError>
    decreases faces.len() - j,
{
    if j < 0 || j >= faces.len() {
        Ok(Seq::empty())
    } else {
        let f = faces[j];
        if !(forall|k: int| 0 <= k < f.vertices.len() ==> f.vertices[k] < vcount) {
            Err(ConvertError::VertexIndexOutOfRange)
        } else if off < 0 || off + 2 * f.vertices.len() > uvs.len() {
            Err(ConvertError::UvsTooShort)
        } else {
            match spec_mesh_faces_from(faces, uvs, vcount, j + 1, off + 2 * f.vertices.len()) {
                Err(e) => Err(e),
                Ok(rest) => Ok(seq![(spec_dec(j as nat), spec_mesh_face(f, uvs, off))] + rest),
            }
        }
    }
}

/// The element a mesh node converts to, resolved under the salt `start`, or
/// the error that stops its decoding.
pub open spec fn spec_mesh_element(p: ModelPartV, start: nat) -> Result<ElementV, ConvertError> {
    let md = match p.data {
        ModelDataV::Mesh { mesh_data } => mesh_data,
        _ => arbitrary(),
    };
    if md.vtx.len() % 3 != 0 {
        Err(ConvertError::VtxNotTriples)
    } else {
        match spec_decode_faces(md.tex, md.fac) {
            Err(c) => Err(ConvertError::MalformedMesh(c)),
            Ok(faces) => match spec_mesh_faces_from(
                faces,
                md.uvs,
                (md.vtx.len() / 3) as int,
                0,
                0,
            ) {
                Err(e) => Err(e),
                Ok(named) => Ok(
                    ElementV {
                        origin: p.piv,
                        name: p.name,
                        uuid: spec_resolve_id_salted(p, start as u64),
                        visibility: Some(p.vsb),
                        locked: false,
                        allow_mirror_modeling: true,
                        export: Some(true),
                        color: 0,
                        rotation: p.rot,
                        extra: ElementTypeV::Mesh {
                            vertices: spec_mesh_vertices(md.vtx),
                            faces: named,
                        },
                    },
                ),
            },
        }
    }
}

/// What converting a part under the salt `start` yields: the elements it
/// appends and the outliner item standing for it, or the first error of the
/// depth-first walk.
pub open spec fn spec_convert(p: ModelPartV, start: nat) -> Result<
    (Seq<ElementV>, OutlinerItemV),
    ConvertError,
>
    decreases p, 1nat,
{
    match p.data {
        ModelDataV::Group {  } => match spec_convert_children(p.chld, 0, start) {
            Err(e) => Err(e),
            Ok(pr) => Ok(
                (
                    pr.0,
                    OutlinerItemV::Group(
                        GroupV {
                            name: p.name,
                            origin: p.piv,
                            color: 0,
                            uuid: spec_resolve_id_salted(p, start as u64),
                            export: true,
                            mirror_uv: false,
                            isOpen: false,
                            locked: false,
                            visibility: true,
                            autouv: 0,
                            children: pr.1,
                        },
                    ),
                ),
            ),
        },
        ModelDataV::Cube { .. } => {
            if p.chld.len() != 0 {
                Err(ConvertError::LeafWithChildren)
            } else {
                let e = spec_cube_element(p, start);
                Ok((seq![e], OutlinerItemV::Element(e.uuid)))
            }
        },
        ModelDataV::Mesh { .. } => {
            if p.chld.len() != 0 {
                Err(ConvertError::LeafWithChildren)
            } else {
                match spec_mesh_element(p, start) {
                    Err(e) => Err(e),
                    Ok(e) => Ok((seq![e], OutlinerItemV::Element(e.uuid))),
                }
            }
        },
    }
}

/// What converting the children `chld[i..]` yields, the first starting at
/// the running element count `start`: the elements they append and their
/// outliner items in order.
pub open spec fn spec_convert_children(chld: Seq<ModelPartV>, i: int, start: nat) -> Result<
    (Seq<ElementV>, Seq<OutlinerItemV>),
    ConvertError,
>
    decreases chld, (chld.len() - i + 2) as nat,
{
    if i < 0 || i >= chld.len() {
        Ok((Seq::empty(), Seq::empty()))
    } else {
        match spec_convert(chld[i], start) {
            Err(e) => Err(e),
            Ok(pr) => match spec_convert_children(chld, i + 1, start + pr.0.len()) {
                Err(e) => Err(e),
                Ok(rest) => Ok((pr.0 + rest.0, seq![pr.1] + rest.1)),
            },
        }
    }
}

impl ModelPart {
    /// Converts this part's subtree to the editable form, appending the
    /// elements it yields to `elements` and returning the outliner item that
    /// stands for the part. The salt of every derived identifier is the
    /// length of `elements` at the moment the node is reached, so that
    /// structurally identical siblings resolve to distinct generator inputs.
    /// On an error nothing is promised of `elements` beyond what the caller
    /// can see; the error is never swallowed.
    #[verifier::loop_isolation(false)]
    pub fn convert_elements(&self, elements: &mut Vec<Element>) -> (r: Result<
        OutlinerItem,
        ConvertError,
    >)
        ensures
            match r {
                Ok(item) => spec_convert(self.deep_view(), old(elements)@.len() as nat) matches Ok(
                    pr,
                ) && final(elements).deep_view() == old(elements).deep_view() + pr.0
                    && item.deep_view() == pr.1,
                Err(e) => spec_convert(self.deep_view(), old(elements)@.len() as nat) == Err::<
                    (Seq<ElementV>, OutlinerItemV),
                    _,
                >(e) && final(elements).deep_view().len() >= old(elements).deep_view().len()
                    && final(elements).deep_view().subrange(
                    0,
                    old(elements).deep_view().len() as int,
                ) == old(elements).deep_view(),
            },
        decreases self, 1nat,
    {
        let ghost dv = self.deep_view();
        let ghost start = elements@.len() as nat;
        let salt = elements.len();
        match &self.data {
            ModelData::Group {  } => {
                let uuid = self.get_uuid_with_salt(salt as u64);
                proof {
                    assert(decreases_to!(*self => self.chld));
                }
                let ghost base = elements.deep_view();
                let children = match convert_children(&self.chld, elements) {
                    Ok(cs) => cs,
                    Err(e) => {
                        proof {
                            assert(dv.chld =~= self.chld.deep_view());
                        }
                        return Err(e);
                    },
                };
                proof {
                    assert(dv.chld =~= self.chld.deep_view());
                }
                let g = Group {
                    name: clone_string(&self.name),
                    origin: self.piv,
                    color: 0,
                    uuid,
                    export: true,
                    mirror_uv: false,
                    isOpen: false,
                    locked: false,
                    visibility: true,
                    autouv: 0,
                    children,
                };
                let r = OutlinerItem::Group(g);
                proof {
                    let gv = r.deep_view()->Group_0;
                    let sv = spec_convert(dv, start)->Ok_0.1->Group_0;
                    assert(gv.children =~= sv.children);
                    assert(gv =~= sv);
                }
                Ok(r)
            },
            ModelData::Cube { .. } => {
                if self.chld.len() != 0 {
                    return Err(ConvertError::LeafWithChildren);
                }
                let uuid = self.get_uuid_with_salt(salt as u64);
                let elem = self.cube_element(clone_string(&uuid), Ghost(start));
                let ghost prev = elements.deep_view();
                elements.push(elem);
                proof {
                    assert(elements.deep_view() =~= prev + seq![spec_cube_element(dv, start)]);
                }
                Ok(OutlinerItem::Element(uuid))
            },
            ModelData::Mesh { .. } => {
                if self.chld.len() != 0 {
                    return Err(ConvertError::LeafWithChildren);
                }
                let uuid = self.get_uuid_with_salt(salt as u64);
                let elem = match self.mesh_element(clone_string(&uuid), Ghost(start)) {
                    Ok(e) => e,
                    Err(e) => {
                        return Err(e);
                    },
                };
                let ghost prev = elements.deep_view();
                elements.push(elem);
                proof {
                    let ev = spec_mesh_element(dv, start)->Ok_0;
                    assert(elements.deep_view().last() =~= ev);
                    assert(elements.deep_view() =~= prev + seq![ev]);
                }
                Ok(OutlinerItem::Element(uuid))
            },
        }
    }

    /// Builds the element a cube node converts to.
    fn cube_element(&self, uuid: String, Ghost(start): Ghost<nat>) -> (e: Element)
        requires
            self.data is Cube,
            uuid@ == spec_resolve_id_salted(self.deep_view(), start as u64),
        ensures
            e.deep_view() == spec_cube_element(self.deep_view(), start),
    {
        let ghost dv = self.deep_view();
        let (cube_data, f, t, inf) = match &self.data {
            ModelData::Cube { cube_data, f, t, inf } => (cube_data, f, t, inf),
            _ => {
                proof {
                    assert(false);
                }
                unreached()
            },
        };
        let elem = Element {
            origin: self.piv,
            name: clone_string(&self.name),
            uuid,
            visibility: Some(self.vsb),
            locked: false,
            allow_mirror_modeling: true,
            export: Some(true),
            color: 0,
            rotation: self.rot,
            extra: ElementType::Cube {
                from: *f,
                to: *t,
                uv_offset: None,
                faces: Faces {
                    north: opt_face(&cube_data.n),
                    east: opt_face(&cube_data.e),
                    south: opt_face(&cube_data.s),
                    west: opt_face(&cube_data.w),
                    up: opt_face(&cube_data.u),
                    down: opt_face(&cube_data.d),
                },
                box_uv: None,
                rescale: false,
                autouv: 0,
                light_emission: None,
                mirror_uv: Some(false),
                inflate: Some(*inf),
                shade: None,
            },
        };
        proof {
            assert(elem.deep_view() =~= spec_cube_element(dv, start));
        }
        elem
    }

    /// Builds the element a mesh node converts to: decoded faces, synthesized
    /// sequential vertex and face identifiers, and UV pairs consumed in face
    /// order from the flat UV array.
    #[verifier::loop_isolation(false)]
    fn mesh_element(&self, uuid: String, Ghost(start): Ghost<nat>) -> (r: Result<
        Element,
        ConvertError,
    >)
        requires
            self.data is Mesh,
            uuid@ == spec_resolve_id_salted(self.deep_view(), start as u64),
        ensures
            match r {
                Ok(e) => spec_mesh_element(self.deep_view(), start) == Ok::<_, ConvertError>(
                    e.deep_view(),
                ),
                Err(e) => spec_mesh_element(self.deep_view(), start) == Err::<ElementV, _>(e),
            },
    {
        let ghost dv = self.deep_view();
        let mesh_data = match &self.data {
            ModelData::Mesh { mesh_data } => mesh_data,
            _ => {
                proof {
                    assert(false);
                }
                unreached()
            },
        };
        if mesh_data.vtx.len() % 3 != 0 {
            return Err(ConvertError::VtxNotTriples);
        }
        let faces = match decode_mesh_faces(&mesh_data.tex, &mesh_data.fac) {
            Ok(fs) => fs,
            Err(c) => {
                return Err(ConvertError::MalformedMesh(c));
            },
        };
        let vcount = mesh_data.vtx.len() / 3;
        let mut vertices: Vec<(String, XYZ<u64>)> = Vec::new();
        let mut i: usize = 0;
        while i < vcount
            invariant
                i <= vcount,
                vcount == mesh_data.vtx@.len() / 3,
                mesh_data.vtx@.len() % 3 == 0,
                vertices.deep_view() =~= spec_mesh_vertices(mesh_data.vtx@).subrange(0, i as int),
            decreases vcount - i,
        {
            let id = usize_to_string(i);
            let pos = XYZ {
                x: mesh_data.vtx[3 * i],
                y: mesh_data.vtx[3 * i + 1],
                z: mesh_data.vtx[3 * i + 2],
            };
            vertices.push((id, pos));
            proof {
                assert(vertices.deep_view() =~= spec_mesh_vertices(mesh_data.vtx@).subrange(
                    0,
                    i as int + 1,
                ));
            }
            i = i + 1;
        }
        proof {
            assert(vertices.deep_view() =~= spec_mesh_vertices(mesh_data.vtx@));
        }
        let mut named: Vec<(String, MeshFace)> = Vec::new();
        let mut off: usize = 0;
        let mut j: usize = 0;
        while j < faces.len()
            invariant
                j <= faces@.len(),
                off <= mesh_data.uvs@.len(),
                named@.len() == j as int,
                spec_mesh_faces_from(faces.deep_view(), mesh_data.uvs@, vcount as int, 0, 0) == (
                match spec_mesh_faces_from(
                    faces.deep_view(),
                    mesh_data.uvs@,
                    vcount as int,
                    j as int,
                    off as int,
                ) {
                    Err(e) => Err::<Seq<(Seq<char>, MeshFaceV)>, _>(e),
                    Ok(rest) => Ok::<_, ConvertError>(named.deep_view() + rest),
                }),
            decreases faces@.len() - j,
        {
            let face = &faces[j];
            let cnt = face.vertices.len();
            let mut k: usize = 0;
            while k < cnt
                invariant
                    k <= cnt,
                    cnt == face.vertices@.len(),
                    forall|kk: int|
                        0 <= kk < k as int ==> (face.vertices@[kk] as int) < vcount as int,
                    vcount == mesh_data.vtx@.len() / 3,
                decreases cnt - k,
            {
                if face.vertices[k] as usize >= vcount {
                    proof {
                        assert(!(forall|kk: int|
                            0 <= kk < face.deep_view().vertices.len()
                                ==> face.deep_view().vertices[kk] < vcount as int));
                    }
                    return Err(ConvertError::VertexIndexOutOfRange);
                }
                k = k + 1;
            }
            proof {
                assert(forall|kk: int|
                    0 <= kk < face.deep_view().vertices.len() ==> face.deep_view().vertices[kk]
                        < vcount as int);
            }
            let room = (mesh_data.uvs.len() - off) / 2;
            if cnt > room {
                proof {
                    assert(off as int + 2 * (cnt as int) > mesh_data.uvs@.len());
                }
                return Err(ConvertError::UvsTooShort);
            }
            let mut uv: Vec<(String, XY)> = Vec::new();
            let mut verts: Vec<String> = Vec::new();
            let mut k2: usize = 0;
            while k2 < cnt
                invariant
                    k2 <= cnt,
                    cnt == face.vertices@.len(),
                    off as int + 2 * cnt as int <= mesh_data.uvs@.len(),
                    uv.deep_view() =~= spec_mesh_face(
                        face.deep_view(),
                        mesh_data.uvs@,
                        off as int,
                    ).uv.subrange(0, k2 as int),
                    verts.deep_view() =~= spec_mesh_face(
                        face.deep_view(),
                        mesh_data.uvs@,
                        off as int,
                    ).vertices.subrange(0, k2 as int),
                decreases cnt - k2,
            {
                let vid = face.vertices[k2];
                let vid_str = usize_to_string(vid as usize);
                let vid_str2 = usize_to_string(vid as usize);
                let pt = XY { x: mesh_data.uvs[off + 2 * k2], y: mesh_data.uvs[off + 2 * k2 + 1] };
                uv.push((vid_str, pt));
                verts.push(vid_str2);
                proof {
                    let mf = spec_mesh_face(face.deep_view(), mesh_data.uvs@, off as int);
                    assert(uv.deep_view() =~= mf.uv.subrange(0, k2 as int + 1));
                    assert(verts.deep_view() =~= mf.vertices.subrange(0, k2 as int + 1));
                }
                k2 = k2 + 1;
            }
            let mf = MeshFace { uv, vertices: verts, texture: Some(face.texture as usize) };
            let fid = usize_to_string(j);
            let ghost prev_named = named.deep_view();
            named.push((fid, mf));
            proof {
                let sf = spec_mesh_face(face.deep_view(), mesh_data.uvs@, off as int);
                assert(sf.uv =~= sf.uv.subrange(0, cnt as int));
                assert(sf.vertices =~= sf.vertices.subrange(0, cnt as int));
                assert(named.deep_view() =~= prev_named.push((spec_dec(j as nat), sf)));
                if let Ok(rest) = spec_mesh_faces_from(
                    faces.deep_view(),
                    mesh_data.uvs@,
                    vcount as int,
                    j as int + 1,
                    off as int + 2 * cnt as int,
                ) {
                    assert(prev_named + (seq![(spec_dec(j as nat), sf)] + rest) =~= named.deep_view()
                        + rest);
                }
            }
            off = off + 2 * cnt;
            j = j + 1;
        }
        proof {
            assert(named.deep_view() + Seq::<(Seq<char>, MeshFaceV)>::empty()
                =~= named.deep_view());
        }
        let elem = Element {
            origin: self.piv,
            name: clone_string(&self.name),
            uuid,
            visibility: Some(self.vsb),
            locked: false,
            allow_mirror_modeling: true,
            export: Some(true),
            color: 0,
            rotation: self.rot,
            extra: ElementType::Mesh { vertices, faces: named },
        };
        proof {
            let ev = spec_mesh_element(dv, start)->Ok_0;
            assert(elem.deep_view() =~= ev);
        }
        Ok(elem)
    }
}


/// Converts the parts of `chld` in order, appending the elements they yield
/// to `elements` and returning their outliner items; each part's identifier
/// salt is the length of `elements` when it is reached.
#[verifier::loop_isolation(false)]
fn convert_children(chld: &Vec<ModelPart>, elements: &mut Vec<Element>) -> (r: Result<
    Vec<OutlinerItem>,
    ConvertError,
>)
    ensures
        match r {
            Ok(items) => spec_convert_children(chld.deep_view(), 0, old(elements)@.len() as nat)
                matches Ok(pr) && final(elements).deep_view() == old(elements).deep_view() + pr.0
                && items.deep_view() == pr.1,
            Err(e) => spec_convert_children(chld.deep_view(), 0, old(elements)@.len() as nat)
                == Err::<(Seq<ElementV>, Seq<OutlinerItemV>), _>(e)
                && final(elements).deep_view().len() >= old(elements).deep_view().len()
                && final(elements).deep_view().subrange(
                0,
                old(elements).deep_view().len() as int,
            ) == old(elements).deep_view(),
        },
    decreases chld, 0nat,
{
    let ghost cv = chld.deep_view();
    let ghost start = elements@.len() as nat;
    let mut children: Vec<OutlinerItem> = Vec::new();
    let mut j: usize = 0;
    let ghost base = elements.deep_view();
    while j < chld.len()
        invariant
            j <= chld@.len(),
            elements@.len() >= start,
            elements.deep_view().len() == elements@.len(),
            base.len() == start,
            spec_convert_children(cv, 0, start) == (match spec_convert_children(
                cv,
                j as int,
                elements@.len() as nat,
            ) {
                Err(e) => Err::<(Seq<ElementV>, Seq<OutlinerItemV>), _>(e),
                Ok(rest) => Ok::<_, ConvertError>(
                    (
                        elements.deep_view().subrange(start as int, elements@.len() as int)
                            + rest.0,
                        children.deep_view() + rest.1,
                    ),
                ),
            }),
            elements.deep_view().subrange(0, start as int) == base,
        decreases chld@.len() - j,
    {
        proof {
            assert(decreases_to!(*chld => chld[j as int]));
            assert(cv[j as int] == chld[j as int].deep_view());
        }
        let ghost before = elements.deep_view();
        let ghost nbefore = elements@.len();
        let item = match chld[j].convert_elements(elements) {
            Ok(it) => it,
            Err(e) => {
                return Err(e);
            },
        };
        let ghost prev_children = children.deep_view();
        children.push(item);
        proof {
            let ghost pr = spec_convert(cv[j as int], nbefore as nat)->Ok_0;
            assert(before.len() == nbefore);
            assert(elements.deep_view() == before + pr.0);
            assert(elements.deep_view().len() == elements@.len());
            assert(children.deep_view() =~= prev_children.push(pr.1));
            assert(elements.deep_view().subrange(start as int, elements@.len() as int)
                =~= before.subrange(start as int, before.len() as int) + pr.0);
            assert(elements.deep_view().subrange(0, start as int) =~= base);
            if let Ok(rest) = spec_convert_children(cv, j as int + 1, elements@.len() as nat) {
                assert(before.subrange(start as int, before.len() as int) + (pr.0 + rest.0)
                    =~= elements.deep_view().subrange(start as int, elements@.len() as int)
                    + rest.0);
                assert(prev_children + (seq![pr.1] + rest.1) =~= children.deep_view() + rest.1);
            }
        }
        j = j + 1;
    }
    proof {
        assert(elements.deep_view().subrange(start as int, elements@.len() as int) + Seq::<
            ElementV,
        >::empty() =~= elements.deep_view().subrange(start as int, elements@.len() as int));
        assert(children.deep_view() + Seq::<OutlinerItemV>::empty() =~= children.deep_view());
        assert(elements.deep_view() =~= base + elements.deep_view().subrange(
            start as int,
            elements@.len() as int,
        ));
    }
    Ok(children)
}

/// Converts one optional cube side.
fn opt_face(o: &Option<crate::moon::Face>) -> (r: Option<crate::bbmodel::Face>)
    ensures
        r == spec_opt_face(*o),
{
    match o {
        None => None,
        Some(f) => Some(crate::bbmodel::Face::from(*f)),
    }
}

/// Why a model part cannot become a hierarchy.
#[derive(Debug, PartialEq)]
pub enum HierarchyError {
    /// The part is not a group; it is handed back untouched.
    NotAGroup(ModelPart),
    /// Converting one of the part's children failed.
    Convert(ConvertError),
}

impl ModelPart {
    /// Creates the element list and outliner of this part's children. The
    /// part must be a group; a cube or mesh part is handed back untouched.
    pub fn hierarchy(self) -> (r: Result<Hierarchy, HierarchyError>)
        ensures
            match r {
                Ok(h) => self.data is Group && (spec_convert_children(self.deep_view().chld, 0, 0)
                    matches Ok(pr) && h.deep_view().elements == pr.0 && h.deep_view().outliner
                    == pr.1),
                Err(e) => match e {
                    HierarchyError::NotAGroup(p) => !(self.data is Group) && p == self,
                    HierarchyError::Convert(c) => self.data is Group && spec_convert_children(
                        self.deep_view().chld,
                        0,
                        0,
                    ) == Err::<(Seq<ElementV>, Seq<OutlinerItemV>), _>(c),
                },
            },
    {
        match &self.data {
            ModelData::Group {  } => {
                let mut elements: Vec<Element> = Vec::new();
                proof {
                    assert(self.deep_view().chld =~= self.chld.deep_view());
                    assert(elements.deep_view() =~= Seq::<ElementV>::empty());
                }
                match convert_children(&self.chld, &mut elements) {
                    Ok(outliner) => {
                        let h = Hierarchy { elements, outliner };
                        proof {
                            let pr = spec_convert_children(self.deep_view().chld, 0, 0)->Ok_0;
                            assert(h.deep_view().elements =~= pr.0);
                        }
                        Ok(h)
                    },
                    Err(e) => Err(HierarchyError::Convert(e)),
                }
            },
            _ => Err(HierarchyError::NotAGroup(self)),
        }
    }
}

/// Whether a texture-slot reference falls inside a slot list of the given
/// length.
pub open spec fn spec_slot_ok(o: Option<usize>, slots: int) -> bool {
    match o {
        None => true,
        Some(t) => t < slots,
    }
}

/// Whether every texture-slot reference of an element falls inside a slot
/// list of the given length.
pub open spec fn spec_element_slots_ok(e: ElementV, slots: int) -> bool {
    match e.extra {
        ElementTypeV::Cube { faces, .. } => {
            &&& (faces.north matches Some(f) ==> spec_slot_ok(f.texture, slots))
            &&& (faces.east matches Some(f) ==> spec_slot_ok(f.texture, slots))
            &&& (faces.south matches Some(f) ==> spec_slot_ok(f.texture, slots))
            &&& (faces.west matches Some(f) ==> spec_slot_ok(f.texture, slots))
            &&& (faces.up matches Some(f) ==> spec_slot_ok(f.texture, slots))
            &&& (faces.down matches Some(f) ==> spec_slot_ok(f.texture, slots))
        },
        ElementTypeV::Mesh { faces, .. } => forall|j: int|
            0 <= j < faces.len() ==> spec_slot_ok(#[trigger] faces[j].1.texture, slots),
    }
}

/// Whether every texture-slot reference of a hierarchy's elements falls
/// inside a slot list of the given length.
pub open spec fn spec_hierarchy_slots_ok(elements: Seq<ElementV>, slots: int) -> bool {
    forall|i: int| 0 <= i < elements.len() ==> spec_element_slots_ok(#[trigger] elements[i], slots)
}

/// Checks that every texture-slot index a hierarchy's elements refer to
/// falls inside a slot list of `slots` entries. Slot validity is an
/// invariant of conversion time, not of parse time.
#[verifier::loop_isolation(false)]
pub fn validate_texture_indices(h: &Hierarchy, slots: usize) -> (r: Result<(), ConvertError>)
    ensures
        match r {
            Ok(()) => spec_hierarchy_slots_ok(h.deep_view().elements, slots as int),
            Err(e) => e == ConvertError::TextureIndexOutOfRange && !spec_hierarchy_slots_ok(
                h.deep_view().elements,
                slots as int,
            ),
        },
{
    let mut i: usize = 0;
    while i < h.elements.len()
        invariant
            i <= h.elements@.len(),
            forall|ii: int|
                0 <= ii < i as int ==> spec_element_slots_ok(
                    #[trigger] h.elements.deep_view()[ii],
                    slots as int,
                ),
        decreases h.elements@.len() - i,
    {
        let e = &h.elements[i];
        proof {
            assert(h.deep_view().elements[i as int] == e.deep_view());
        }
        match &e.extra {
            ElementType::Cube { faces, .. } => {
                if !(slot_ok(&faces.north, slots) && slot_ok(&faces.east, slots) && slot_ok(
                    &faces.south,
                    slots,
                ) && slot_ok(&faces.west, slots) && slot_ok(&faces.up, slots) && slot_ok(
                    &faces.down,
                    slots,
                )) {
                    return Err(ConvertError::TextureIndexOutOfRange);
                }
            },
            ElementType::Mesh { faces, .. } => {
                let mut j: usize = 0;
                while j < faces.len()
                    invariant
                        j <= faces@.len(),
                        forall|jj: int|
                            0 <= jj < j as int ==> spec_slot_ok(
                                #[trigger] faces.deep_view()[jj].1.texture,
                                slots as int,
                            ),
                    decreases faces@.len() - j,
                {
                    match &faces[j].1.texture {
                        Some(t) => {
                            if *t >= slots {
                                proof {
                                    assert(!spec_slot_ok(
                                        faces.deep_view()[j as int].1.texture,
                                        slots as int,
                                    ));
                                }
                                return Err(ConvertError::TextureIndexOutOfRange);
                            }
                        },
                        None => {},
                    }
                    j = j + 1;
                }
            },
        }
        i = i + 1;
    }
    Ok(())
}

/// Checks one optional cube side against the slot-list length.
fn slot_ok(side: &Option<crate::bbmodel::Face>, slots: usize) -> (r: bool)
    ensures
        r == (side matches Some(f) ==> spec_slot_ok(f.texture, slots as int)),
{
    match side {
        None => true,
        Some(f) => match f.texture {
            None => true,
            Some(t) => t < slots,
        },
    }
}

/// Why a subtree of a bundle cannot be converted.
#[derive(Debug, PartialEq, Eq, Clone, Copy, Structural)]
pub enum SubtreeError {
    /// The bundle holds no model tree.
    NoModels,
    /// An index of the path does not name a child.
    BadPath,
    /// The part the path names is not a group.
    NotAGroup,
    /// Converting the named part's children failed, or an element refers to
    /// a texture slot the bundle does not have.
    Convert(ConvertError),
}

/// The part reached from `p` by the child indices `path[i..]`, if each index
/// is in range.
pub open spec fn spec_subtree(p: ModelPartV, path: Seq<usize>, i: int) -> Option<ModelPartV>
    decreases path.len() - i,
{
    if i < 0 || i >= path.len() {
        Some(p)
    } else if path[i] < p.chld.len() {
        spec_subtree(p.chld[path[i] as int], path, i + 1)
    } else {
        None
    }
}

/// What converting the subtree of a bundle at a child-index path yields: the
/// hierarchy of the named group, with every texture-slot reference checked
/// against the bundle's slot list.
pub open spec fn spec_convert_subtree(m: crate::moon::MoonV, path: Seq<usize>) -> Result<
    (Seq<ElementV>, Seq<OutlinerItemV>),
    SubtreeError,
> {
    match m.models {
        None => Err(SubtreeError::NoModels),
        Some(root) => match spec_subtree(root, path, 0) {
            None => Err(SubtreeError::BadPath),
            Some(p) => if !(p.data is Group) {
                Err(SubtreeError::NotAGroup)
            } else {
                match spec_convert_children(p.chld, 0, 0) {
                    Err(e) => Err(SubtreeError::Convert(e)),
                    Ok(pr) => if spec_hierarchy_slots_ok(pr.0, m.textures.data.len() as int) {
                        Ok(pr)
                    } else {
                        Err(SubtreeError::Convert(ConvertError::TextureIndexOutOfRange))
                    },
                }
            },
        },
    }
}

/// Converts the model-part subtree of `moon` named by the child-index path
/// into a hierarchy, checking texture-slot references against the bundle's
/// slot list.
#[verifier::loop_isolation(false)]
pub fn convert_subtree(moon: &Moon, index_path: &Vec<usize>) -> (r: Result<
    Hierarchy,
    SubtreeError,
>)
    ensures
        match r {
            Ok(h) => spec_convert_subtree(moon.deep_view(), index_path@) matches Ok(pr)
                && h.deep_view().elements == pr.0 && h.deep_view().outliner == pr.1,
            Err(e) => spec_convert_subtree(moon.deep_view(), index_path@) == Err::<
                (Seq<ElementV>, Seq<OutlinerItemV>),
                _,
            >(e),
        },
{
    let ghost mv = moon.deep_view();
    let root = match &moon.models {
        Some(m) => m,
        None => {
            return Err(SubtreeError::NoModels);
        },
    };
    let mut node: &ModelPart = root;
    let mut k: usize = 0;
    while k < index_path.len()
        invariant
            k <= index_path@.len(),
            spec_subtree(root.deep_view(), index_path@, 0) == spec_subtree(
                node.deep_view(),
                index_path@,
                k as int,
            ),
        decreases index_path@.len() - k,
    {
        let idx = index_path[k];
        if idx >= node.chld.len() {
            return Err(SubtreeError::BadPath);
        }
        proof {
            assert(node.deep_view().chld[idx as int] == node.chld[idx as int].deep_view());
        }
        node = &node.chld[idx];
        k = k + 1;
    }
    match &node.data {
        ModelData::Group {  } => {},
        _ => {
            return Err(SubtreeError::NotAGroup);
        },
    }
    let mut elements: Vec<Element> = Vec::new();
    proof {
        assert(node.deep_view().chld =~= node.chld.deep_view());
        assert(elements.deep_view() =~= Seq::<ElementV>::empty());
    }
    let outliner = match convert_children(&node.chld, &mut elements) {
        Ok(o) => o,
        Err(e) => {
            return Err(SubtreeError::Convert(e));
        },
    };
    let h = Hierarchy { elements, outliner };
    proof {
        let pr = spec_convert_children(node.deep_view().chld, 0, 0)->Ok_0;
        assert(h.deep_view().elements =~= pr.0);
    }
    match validate_texture_indices(&h, moon.textures.data.len()) {
        Ok(()) => Ok(h),
        Err(_) => Err(SubtreeError::Convert(ConvertError::TextureIndexOutOfRange)),
    }
}

/// Converting a cube or mesh node that has children fails with the
/// invariant-violation error; the children are never dropped silently.
pub proof fn lemma_leaf_with_children_fails(p: ModelPartV, start: nat)
    requires
        !(p.data is Group),
        p.chld.len() > 0,
    ensures
        spec_convert(p, start) == Err::<(Seq<ElementV>, OutlinerItemV), _>(
            ConvertError::LeafWithChildren,
        ),
{
}

/// Converting a group with two cube children that carry no stored
/// identifiers resolves the first child at the starting salt and the second
/// at the starting salt plus one: structurally identical siblings hand the
/// identifier generator distinct inputs through the running salt.
pub proof fn lemma_sibling_salts_differ(g: ModelPartV, c1: ModelPartV, c2: ModelPartV, start: nat)
    requires
        g.data is Group,
        g.chld =~= seq![c1, c2],
        c1.data is Cube,
        c2.data is Cube,
        c1.chld.len() == 0,
        c2.chld.len() == 0,
        c1.nr is None,
        c2.nr is None,
    ensures
        spec_convert(g, start) matches Ok(pr) && pr.1 matches OutlinerItemV::Group(gv)
            && gv.children =~= seq![
            OutlinerItemV::Element(
                crate::ident::spec_uuid_v5_str(
                    crate::ident::spec_part_hash(spec_mix(HASH_SEED, start as u64), c1),
                ),
            ),
            OutlinerItemV::Element(
                crate::ident::spec_uuid_v5_str(
                    crate::ident::spec_part_hash(spec_mix(HASH_SEED, (start + 1) as u64), c2),
                ),
            ),
        ],
{
    let e1 = spec_cube_element(c1, start);
    let e2 = spec_cube_element(c2, start + 1);
    assert(spec_convert(c1, start) == Ok::<_, ConvertError>(
        (seq![e1], OutlinerItemV::Element(e1.uuid)),
    ));
    assert(spec_convert(c2, start + 1) == Ok::<_, ConvertError>(
        (seq![e2], OutlinerItemV::Element(e2.uuid)),
    ));
    assert(spec_convert_children(g.chld, 2, start + 2) == Ok::<
        (Seq<ElementV>, Seq<OutlinerItemV>),
        ConvertError,
    >((Seq::empty(), Seq::empty())));
    assert(g.chld[1] == c2);
    assert(spec_convert_children(g.chld, 1, start + 1) matches Ok(pr) && pr.1 =~= seq![
        OutlinerItemV::Element(e2.uuid),
    ]);
    assert(g.chld[0] == c1);
    assert(spec_convert_children(g.chld, 0, start) matches Ok(pr) && pr.1 =~= seq![
        OutlinerItemV::Element(e1.uuid),
        OutlinerItemV::Element(e2.uuid),
    ]);
}

} // verus!
