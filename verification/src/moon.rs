//! The compact avatar bundle ("moon") model: the top-level container with
//! its textures, scripts, animations, resources and metadata, and the
//! model-part tree of group / cube / mesh nodes. Floating point quantities
//! (rotations, pivots, UV rectangles, vertex data) are carried as the raw
//! bit patterns of the 64-bit values they stand for, so the model holds
//! plain integers only.

use vstd::prelude::*;

use crate::bbmodel;
use crate::bbmodel::{Rect, XYZ};
use crate::tag::{Tag, TagV};

verus! {

broadcast use vstd::group_vstd_default;

/// One of the render types the host engine supports, by name.
pub type RenderType = String;

/// The body or attachment slot a model part binds to. The container stores
/// either the slot's position in this enumeration or its name; both decode
/// forms are accepted, and [`NoParent`](ParentType::NoParent) (stored under
/// the name `"None"`) is first.
#[derive(Debug, PartialEq, Eq, Clone, Copy, Structural)]
pub enum ParentType {
    NoParent,
    Head,
    Body,
    LeftArm,
    RightArm,
    LeftLeg,
    RightLeg,
    LeftElytra,
    RightElytra,
    Cape,
    World,
    Hud,
    Camera,
    Skull,
    Portrait,
    Arrow,
    Trident,
    Item,
    LeftItemPivot,
    RightItemPivot,
    LeftSpyglassPivot,
    RightSpyglassPivot,
    LeftParrotPivot,
    RightParrotPivot,
    HelmetItemPivot,
    HelmetPivot,
    ChestplatePivot,
    LeftShoulderPivot,
    RightShoulderPivot,
    LeggingsPivot,
    LeftLeggingPivot,
    RightLeggingPivot,
    LeftBootPivot,
    RightBootPivot,
    LeftElytraPivot,
    RightElytraPivot,
}

/// The position of a parent type in the enumeration, as the container
/// stores it.
pub open spec fn spec_parent_type_index(pt: ParentType) -> int {
    match pt {
        ParentType::NoParent => 0,
        ParentType::Head => 1,
        ParentType::Body => 2,
        ParentType::LeftArm => 3,
        ParentType::RightArm => 4,
        ParentType::LeftLeg => 5,
        ParentType::RightLeg => 6,
        ParentType::LeftElytra => 7,
        ParentType::RightElytra => 8,
        ParentType::Cape => 9,
        ParentType::World => 10,
        ParentType::Hud => 11,
        ParentType::Camera => 12,
        ParentType::Skull => 13,
        ParentType::Portrait => 14,
        ParentType::Arrow => 15,
        ParentType::Trident => 16,
        ParentType::Item => 17,
        ParentType::LeftItemPivot => 18,
        ParentType::RightItemPivot => 19,
        ParentType::LeftSpyglassPivot => 20,
        ParentType::RightSpyglassPivot => 21,
        ParentType::LeftParrotPivot => 22,
        ParentType::RightParrotPivot => 23,
        ParentType::HelmetItemPivot => 24,
        ParentType::HelmetPivot => 25,
        ParentType::ChestplatePivot => 26,
        ParentType::LeftShoulderPivot => 27,
        ParentType::RightShoulderPivot => 28,
        ParentType::LeggingsPivot => 29,
        ParentType::LeftLeggingPivot => 30,
        ParentType::RightLeggingPivot => 31,
        ParentType::LeftBootPivot => 32,
        ParentType::RightBootPivot => 33,
        ParentType::LeftElytraPivot => 34,
        ParentType::RightElytraPivot => 35,
    }
}

/// The parent type at a given position in the enumeration, if any.
pub open spec fn spec_parent_type_of_index(i: int) -> Option<ParentType> {
    if i == 0 {
        Some(ParentType::NoParent)
    } else if i == 1 {
        Some(ParentType::Head)
    } else if i == 2 {
        Some(ParentType::Body)
    } else if i == 3 {
        Some(ParentType::LeftArm)
    } else if i == 4 {
        Some(ParentType::RightArm)
    } else if i == 5 {
        Some(ParentType::LeftLeg)
    } else if i == 6 {
        Some(ParentType::RightLeg)
    } else if i == 7 {
        Some(ParentType::LeftElytra)
    } else if i == 8 {
        Some(ParentType::RightElytra)
    } else if i == 9 {
        Some(ParentType::Cape)
    } else if i == 10 {
        Some(ParentType::World)
    } else if i == 11 {
        Some(ParentType::Hud)
    } else if i == 12 {
        Some(ParentType::Camera)
    } else if i == 13 {
        Some(ParentType::Skull)
    } else if i == 14 {
        Some(ParentType::Portrait)
    } else if i == 15 {
        Some(ParentType::Arrow)
    } else if i == 16 {
        Some(ParentType::Trident)
    } else if i == 17 {
        Some(ParentType::Item)
    } else if i == 18 {
        Some(ParentType::LeftItemPivot)
    } else if i == 19 {
        Some(ParentType::RightItemPivot)
    } else if i == 20 {
        Some(ParentType::LeftSpyglassPivot)
    } else if i == 21 {
        Some(ParentType::RightSpyglassPivot)
    } else if i == 22 {
        Some(ParentType::LeftParrotPivot)
    } else if i == 23 {
        Some(ParentType::RightParrotPivot)
    } else if i == 24 {
        Some(ParentType::HelmetItemPivot)
    } else if i == 25 {
        Some(ParentType::HelmetPivot)
    } else if i == 26 {
        Some(ParentType::ChestplatePivot)
    } else if i == 27 {
        Some(ParentType::LeftShoulderPivot)
    } else if i == 28 {
        Some(ParentType::RightShoulderPivot)
    } else if i == 29 {
        Some(ParentType::LeggingsPivot)
    } else if i == 30 {
        Some(ParentType::LeftLeggingPivot)
    } else if i == 31 {
        Some(ParentType::RightLeggingPivot)
    } else if i == 32 {
        Some(ParentType::LeftBootPivot)
    } else if i == 33 {
        Some(ParentType::RightBootPivot)
    } else if i == 34 {
        Some(ParentType::LeftElytraPivot)
    } else if i == 35 {
        Some(ParentType::RightElytraPivot)
    } else {
        None
    }
}

/// A loop mode of an animation.
#[derive(Debug, PartialEq, Eq, Clone, Copy, Structural)]
pub enum Loop {
    /// The animation returns to the beginning when it hits the end.
    Loop,
    /// The animation holds the values of its last keyframe after the end.
    Hold,
}

/// A set of textures used by model parts: the primary layer's name, and the
/// name of the secondary (emissive) layer if there is one.
#[derive(Debug, PartialEq, Eq, Clone)]
pub struct TextureData {
    pub d: String,
    pub e: Option<String>,
}

/// The mathematical value of a [`TextureData`].
#[verifier::ext_equal]
pub struct TextureDataV {
    pub d: Seq<char>,
    pub e: Option<Seq<char>>,
}

impl DeepView for TextureData {
    type V = TextureDataV;

    open spec fn deep_view(&self) -> TextureDataV {
        TextureDataV { d: self.d@, e: self.e.deep_view() }
    }
}

/// The texture sections of a bundle: raw image bytes by texture name, and
/// the ordered texture-slot list that faces refer to by index.
#[derive(Debug, PartialEq)]
pub struct Textures {
    pub src: Vec<(String, Vec<u8>)>,
    pub data: Vec<TextureData>,
}

/// The mathematical value of a [`Textures`].
#[verifier::ext_equal]
pub struct TexturesV {
    pub src: Seq<(Seq<char>, Seq<u8>)>,
    pub data: Seq<TextureDataV>,
}

impl DeepView for Textures {
    type V = TexturesV;

    open spec fn deep_view(&self) -> TexturesV {
        TexturesV { src: self.src.deep_view(), data: self.data.deep_view() }
    }
}

/// Bundle metadata. Authors are normalized to a list: the container's
/// single newline-separated string (with `"?"` standing for nobody) is split
/// on decode, and entries that are empty or `"?"` are dropped; the list is
/// joined again on encode, with the empty list written as `"?"`.
#[derive(Debug, PartialEq)]
pub struct Metadata {
    pub uuid: String,
    pub authors: Vec<String>,
    pub color: Option<String>,
    pub bg: Option<String>,
    pub id: Option<String>,
    pub name: String,
    pub description: String,
    pub ver: String,
}

/// The mathematical value of a [`Metadata`].
#[verifier::ext_equal]
pub struct MetadataV {
    pub uuid: Seq<char>,
    pub authors: Seq<Seq<char>>,
    pub color: Option<Seq<char>>,
    pub bg: Option<Seq<char>>,
    pub id: Option<Seq<char>>,
    pub name: Seq<char>,
    pub description: Seq<char>,
    pub ver: Seq<char>,
}

impl DeepView for Metadata {
    type V = MetadataV;

    open spec fn deep_view(&self) -> MetadataV {
        MetadataV {
            uuid: self.uuid@,
            authors: self.authors.deep_view(),
            color: self.color.deep_view(),
            bg: self.bg.deep_view(),
            id: self.id.deep_view(),
            name: self.name@,
            description: self.description@,
            ver: self.ver@,
        }
    }
}

/// Whether an author entry survives a round trip through the container's
/// newline-separated author string: nonempty, not the `"?"` placeholder, and
/// free of the separator itself.
pub open spec fn spec_wf_author(a: Seq<char>) -> bool {
    &&& a.len() > 0
    &&& a != seq!['?']
    &&& forall|i: int| 0 <= i < a.len() ==> a[i] != '\n'
}

impl Metadata {
    /// Every author entry is in the form the newline-joined encoding keeps.
    pub open spec fn wf(&self) -> bool {
        forall|i: int|
            0 <= i < self.authors@.len() ==> spec_wf_author(#[trigger] self.authors.deep_view()[i])
    }
}

/// Texture and UV information for one side of a cube.
#[derive(Debug, PartialEq, Eq, Clone, Copy)]
pub struct Face {
    /// The texture slot this side draws, as an index into
    /// [`Textures::data`]; the container stores it as a 32-bit integer.
    pub tex: u32,
    /// The UV rectangle, as `x0, y0, x1, y1` bit patterns.
    pub uv: Rect,
    /// The face rotation bit pattern.
    pub rot: u64,
}

impl DeepView for Face {
    type V = Face;

    open spec fn deep_view(&self) -> Face {
        *self
    }
}

impl From<Face> for bbmodel::Face {
    /// An editable-tree face keeps the UV rectangle and rotation and carries
    /// the texture index forward as an optional slot reference.
    fn from(v: Face) -> (r: bbmodel::Face) {
        bbmodel::Face { uv: v.uv, texture: Some(v.tex as usize), rotation: v.rot }
    }
}

impl vstd::std_specs::convert::FromSpecImpl<Face> for bbmodel::Face {
    open spec fn obeys_from_spec() -> bool {
        true
    }

    open spec fn from_spec(v: Face) -> bbmodel::Face {
        bbmodel::Face { uv: v.uv, texture: Some(v.tex as usize), rotation: v.rot }
    }
}

/// Maps each side of a cube to an optional per-side record.
#[derive(Debug, PartialEq, Eq, Clone, Copy)]
pub struct Sided<S> {
    pub n: Option<S>,
    pub s: Option<S>,
    pub u: Option<S>,
    pub d: Option<S>,
    pub w: Option<S>,
    pub e: Option<S>,
}

impl<S: Copy> DeepView for Sided<S> {
    type V = Sided<S>;

    open spec fn deep_view(&self) -> Sided<S> {
        *self
    }
}

/// Texture and vertex information for a mesh, in the container's packed
/// form: `vtx` and `uvs` are flat coordinate arrays (bit patterns), each
/// `tex` entry packs a texture-slot index with a vertex count, and `fac`
/// holds the concatenated vertex indices of every face.
#[derive(Debug, PartialEq, Eq, Clone)]
pub struct MeshData {
    pub vtx: Vec<u64>,
    pub tex: Vec<u16>,
    pub fac: Vec<u32>,
    pub uvs: Vec<u64>,
}

/// The mathematical value of a [`MeshData`].
#[verifier::ext_equal]
pub struct MeshDataV {
    pub vtx: Seq<u64>,
    pub tex: Seq<u16>,
    pub fac: Seq<u32>,
    pub uvs: Seq<u64>,
}

impl DeepView for MeshData {
    type V = MeshDataV;

    open spec fn deep_view(&self) -> MeshDataV {
        MeshDataV { vtx: self.vtx@, tex: self.tex@, fac: self.fac@, uvs: self.uvs@ }
    }
}

/// The variant payload of a model part.
#[derive(Debug, PartialEq)]
pub enum ModelData {
    /// A group, with no model data of its own.
    Group {},
    /// A rectangular prism between two corner points.
    Cube { cube_data: Sided<Face>, f: XYZ<u64>, t: XYZ<u64>, inf: u64 },
    /// A mesh with free vertices.
    Mesh { mesh_data: MeshData },
}

/// The mathematical value of a [`ModelData`].
#[verifier::ext_equal]
pub enum ModelDataV {
    Group {},
    Cube { cube_data: Sided<Face>, f: XYZ<u64>, t: XYZ<u64>, inf: u64 },
    Mesh { mesh_data: MeshDataV },
}

impl DeepView for ModelData {
    type V = ModelDataV;

    open spec fn deep_view(&self) -> ModelDataV {
        match self {
            ModelData::Group {} => ModelDataV::Group {},
            ModelData::Cube { cube_data, f, t, inf } => ModelDataV::Cube {
                cube_data: *cube_data,
                f: *f,
                t: *t,
                inf: *inf,
            },
            ModelData::Mesh { mesh_data } => ModelDataV::Mesh { mesh_data: mesh_data.deep_view() },
        }
    }
}

impl Default for ModelData {
    fn default() -> (r: Self)
        ensures
            r == (ModelData::Group {  }),
    {
        ModelData::Group {}
    }
}

/// One part of a model: a group, cube or mesh, with its children.
#[derive(Debug, PartialEq)]
pub struct ModelPart {
    /// The part's name.
    pub name: String,
    /// The part's children, in order.
    pub chld: Vec<ModelPart>,
    /// An opaque animation payload.
    pub anim: Option<Tag>,
    /// The rotation vector's bit patterns.
    pub rot: XYZ<u64>,
    /// The pivot point's bit patterns.
    pub piv: XYZ<u64>,
    /// The render type of the primary texture layer.
    pub primary: Option<RenderType>,
    /// The render type of the secondary (emissive) texture layer.
    pub secondary: Option<RenderType>,
    /// The stored parent type, if any.
    pub pt: Option<ParentType>,
    /// Whether the part is visible.
    pub vsb: bool,
    /// Whether the part's normals are smoothed.
    pub smo: bool,
    /// The variant payload.
    pub data: ModelData,
    /// The stored compact identifier, as four 32-bit words.
    pub nr: Option<(u32, u32, u32, u32)>,
    /// Named collections declared by this part.
    pub cn: Option<Vec<String>>,
    /// Collections this part belongs to, as indices into a parent's list.
    pub pr: Option<Vec<u32>>,
}

/// The mathematical value of a [`ModelPart`].
#[verifier::ext_equal]
pub struct ModelPartV {
    pub name: Seq<char>,
    pub chld: Seq<ModelPartV>,
    pub anim: Option<TagV>,
    pub rot: XYZ<u64>,
    pub piv: XYZ<u64>,
    pub primary: Option<Seq<char>>,
    pub secondary: Option<Seq<char>>,
    pub pt: Option<ParentType>,
    pub vsb: bool,
    pub smo: bool,
    pub data: ModelDataV,
    pub nr: Option<(u32, u32, u32, u32)>,
    pub cn: Option<Seq<Seq<char>>>,
    pub pr: Option<Seq<u32>>,
}

/// The mathematical value of a model-part tree.
pub open spec fn part_view(p: ModelPart) -> ModelPartV
    decreases p,
{
    ModelPartV {
        name: p.name@,
        chld: Seq::new(
            p.chld@.len(),
            |i: int|
                if 0 <= i < p.chld@.len() {
                    part_view(p.chld[i])
                } else {
                    arbitrary()
                },
        ),
        anim: match &p.anim {
            Some(t) => Some(t.deep_view()),
            None => None,
        },
        rot: p.rot,
        piv: p.piv,
        primary: p.primary.deep_view(),
        secondary: p.secondary.deep_view(),
        pt: p.pt,
        vsb: p.vsb,
        smo: p.smo,
        data: p.data.deep_view(),
        nr: p.nr,
        cn: match &p.cn {
            Some(v) => Some(v.deep_view()),
            None => None,
        },
        pr: match &p.pr {
            Some(v) => Some(v@),
            None => None,
        },
    }
}

impl DeepView for ModelPart {
    type V = ModelPartV;

    open spec fn deep_view(&self) -> ModelPartV {
        part_view(*self)
    }
}

/// The top level of an avatar bundle.
#[derive(Debug, PartialEq)]
pub struct Moon {
    /// Textures found in the avatar's models.
    pub textures: Textures,
    /// The avatar's scripts, by name; script bytes need not be UTF-8.
    pub scripts: Vec<(String, Vec<u8>)>,
    /// The avatar's animation entries, kept as opaque tagged values.
    pub animations: Vec<Tag>,
    /// The root of the model-part tree, when the bundle has one.
    pub models: Option<ModelPart>,
    /// Arbitrary binary resources shipped with the avatar, by name.
    pub resources: Vec<(String, Vec<u8>)>,
    /// The bundle's metadata record.
    pub metadata: Metadata,
}

/// The mathematical value of a [`Moon`].
#[verifier::ext_equal]
pub struct MoonV {
    pub textures: TexturesV,
    pub scripts: Seq<(Seq<char>, Seq<u8>)>,
    pub animations: Seq<TagV>,
    pub models: Option<ModelPartV>,
    pub resources: Seq<(Seq<char>, Seq<u8>)>,
    pub metadata: MetadataV,
}

impl DeepView for Moon {
    type V = MoonV;

    open spec fn deep_view(&self) -> MoonV {
        MoonV {
            textures: self.textures.deep_view(),
            scripts: self.scripts.deep_view(),
            animations: Seq::new(
                self.animations@.len(),
                |i: int|
                    if 0 <= i < self.animations@.len() {
                        self.animations[i].deep_view()
                    } else {
                        TagV::Byte(0)
                    },
            ),
            models: match &self.models {
                Some(m) => Some(m.deep_view()),
                None => None,
            },
            resources: self.resources.deep_view(),
            metadata: self.metadata.deep_view(),
        }
    }
}

/// The entry names of a name-to-bytes list are pairwise distinct, as they
/// are in the container's map model.
pub open spec fn spec_uniq_keys(s: Seq<(Seq<char>, Seq<u8>)>) -> bool {
    forall|i: int, j: int| 0 <= i < j < s.len() ==> (#[trigger] s[i]).0 != (#[trigger] s[j]).0
}

impl Moon {
    /// What every decoded bundle satisfies and encoding relies on: the
    /// author list is in the normalized form, and the script, resource and
    /// raw-texture names are unique, as the container's maps keep them.
    pub open spec fn wf(&self) -> bool {
        &&& self.metadata.wf()
        &&& spec_uniq_keys(self.scripts.deep_view())
        &&& spec_uniq_keys(self.resources.deep_view())
        &&& spec_uniq_keys(self.textures.src.deep_view())
    }
}

/// The avatar metadata shape of the sidecar manifest that editable trees
/// ship with: a single author and an author list are mutually exclusive.
#[derive(Debug, PartialEq)]
#[allow(non_snake_case)]
pub struct JsonMetadata {
    pub name: Option<String>,
    pub description: Option<String>,
    pub author: Option<String>,
    pub version: Option<String>,
    pub color: Option<String>,
    pub background: Option<String>,
    pub id: Option<String>,
    pub authors: Vec<String>,
    pub autoScripts: Option<Vec<String>>,
    pub autoAnims: Vec<String>,
    pub ignoredTextures: Vec<String>,
    pub resources: Vec<String>,
    pub customizations: Vec<(String, Customization)>,
}

/// A customization dissociates a model part's behaviour from its imported
/// element. No fields are modelled yet.
#[derive(Debug, PartialEq, Eq, Clone)]
pub struct Customization {}

impl Metadata {
    /// Builds the sidecar-manifest metadata from a bundle's metadata record,
    /// as unpacking writes it: one author becomes the single `author` field,
    /// several stay a list, and none leaves both empty.
    #[verifier::loop_isolation(false)]
    pub fn to_json_metadata(&self, resources: Vec<String>) -> (r: JsonMetadata)
        ensures
            (r.name matches Some(n) && n@ == self.name@),
            (r.description matches Some(d) && d@ == self.description@),
            (r.version matches Some(v) && v@ == self.ver@),
            r.color.deep_view() == self.color.deep_view(),
            r.background.deep_view() == self.bg.deep_view(),
            r.id is None,
            self.authors@.len() == 1 ==> (r.author matches Some(a) && a@
                == self.authors.deep_view()[0] && r.authors@.len() == 0),
            self.authors@.len() != 1 ==> (r.author is None && r.authors.deep_view()
                == self.authors.deep_view()),
            r.autoScripts is None,
            r.autoAnims@.len() == 0,
            r.ignoredTextures@.len() == 0,
            r.resources == resources,
            r.customizations@.len() == 0,
    {
        let mut author: Option<String> = None;
        let mut authors: Vec<String> = Vec::new();
        if self.authors.len() == 1 {
            author = Some(crate::tag::clone_string(&self.authors[0]));
        } else {
            let mut i: usize = 0;
            while i < self.authors.len()
                invariant
                    i <= self.authors@.len(),
                    authors.deep_view() == self.authors.deep_view().subrange(0, i as int),
                decreases self.authors@.len() - i,
            {
                let ghost prev = authors.deep_view();
                authors.push(crate::tag::clone_string(&self.authors[i]));
                proof {
                    assert(authors.deep_view() =~= prev.push(
                        self.authors.deep_view()[i as int],
                    ));
                    assert(authors.deep_view() =~= self.authors.deep_view().subrange(
                        0,
                        i as int + 1,
                    ));
                }
                i = i + 1;
            }
            proof {
                assert(self.authors.deep_view().subrange(0, self.authors@.len() as int)
                    =~= self.authors.deep_view());
            }
        }
        JsonMetadata {
            name: Some(crate::tag::clone_string(&self.name)),
            description: Some(crate::tag::clone_string(&self.description)),
            author,
            version: Some(crate::tag::clone_string(&self.ver)),
            color: clone_opt_string(&self.color),
            background: clone_opt_string(&self.bg),
            id: None,
            authors,
            autoScripts: None,
            autoAnims: Vec::new(),
            ignoredTextures: Vec::new(),
            resources,
            customizations: Vec::new(),
        }
    }
}

/// Copies an optional string; the copy has the same characters.
pub fn clone_opt_string(s: &Option<String>) -> (r: Option<String>)
    ensures
        r.deep_view() == s.deep_view(),
{
    match s {
        Some(x) => Some(crate::tag::clone_string(x)),
        None => None,
    }
}

} // verus!
