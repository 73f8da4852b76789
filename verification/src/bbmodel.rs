//! The editable tree model: the verbose element/outliner form that external
//! modeling tools round-trip. An [`Element`] is one leaf entity (cube or
//! mesh) in a flat list; an [`OutlinerItem`] is a display-hierarchy node that
//! either owns a named group or refers to an element by its identifier
//! string. All floating point quantities are carried as the raw bit patterns
//! of the 64-bit values they stand for, so the model holds plain integers
//! only; the document layer that renders JSON turns them back into numbers.

use vstd::prelude::*;

verus! {

broadcast use vstd::group_vstd_default;

/// A value in three axes.
#[derive(Debug, PartialEq, Eq, Clone, Copy)]
pub struct XYZ<T> {
    pub x: T,
    pub y: T,
    pub z: T,
}

impl<T: Copy> DeepView for XYZ<T> {
    type V = XYZ<T>;

    open spec fn deep_view(&self) -> XYZ<T> {
        *self
    }
}

/// A value in two axes, such as a UV coordinate pair.
#[derive(Debug, PartialEq, Eq, Clone, Copy)]
pub struct XY {
    pub x: u64,
    pub y: u64,
}

impl DeepView for XY {
    type V = XY;

    open spec fn deep_view(&self) -> XY {
        *self
    }
}

/// A UV rectangle: two corner coordinate pairs.
#[derive(Debug, PartialEq, Eq, Clone, Copy)]
pub struct Rect {
    pub x0: u64,
    pub y0: u64,
    pub x1: u64,
    pub y1: u64,
}

impl DeepView for Rect {
    type V = Rect;

    open spec fn deep_view(&self) -> Rect {
        *self
    }
}

/// The project resolution of an editable-tree document.
#[derive(Debug, PartialEq, Eq, Clone, Copy)]
pub struct Resolution {
    pub width: usize,
    pub height: usize,
}

impl Default for Resolution {
    fn default() -> (r: Self)
        ensures
            r.width == 0 && r.height == 0,
    {
        Resolution { width: 0, height: 0 }
    }
}

/// One of the 4.x editable-tree format versions.
#[derive(Debug, PartialEq, Eq, Clone, Copy)]
pub enum FormatVersion {
    V4_10,
    V4_9,
    V4_8,
    V4_7,
    V4_6,
    V4_5,
    V4_4,
    V4_3,
    V4_2,
    V4_1,
    V4_0,
}

impl Default for FormatVersion {
    fn default() -> (r: Self)
        ensures
            r == FormatVersion::V4_10,
    {
        FormatVersion::V4_10
    }
}

/// Document metadata needed to make sense of an editable tree.
#[derive(Debug, PartialEq, Eq, Clone)]
pub struct Meta {
    pub format_version: FormatVersion,
    pub model_format: String,
    pub box_uv: bool,
}

impl Default for Meta {
    fn default() -> (r: Self)
        ensures
            r.format_version == FormatVersion::V4_10,
            r.model_format@ == Seq::<char>::empty(),
            r.box_uv == false,
    {
        Meta { format_version: FormatVersion::V4_10, model_format: String::new(), box_uv: false }
    }
}

/// The texture and UV rectangle of one cube side.
#[derive(Debug, PartialEq, Eq, Clone, Copy)]
pub struct Face {
    pub uv: Rect,
    pub texture: Option<usize>,
    pub rotation: u64,
}

/// A [`Face`] for each side of a cube.
#[derive(Debug, PartialEq, Eq, Clone, Copy)]
pub struct Faces {
    pub north: Option<Face>,
    pub east: Option<Face>,
    pub south: Option<Face>,
    pub west: Option<Face>,
    pub up: Option<Face>,
    pub down: Option<Face>,
}

impl Default for Faces {
    fn default() -> (r: Self)
        ensures
            r == (Faces {
                north: None::<Face>,
                east: None::<Face>,
                south: None::<Face>,
                west: None::<Face>,
                up: None::<Face>,
                down: None::<Face>,
            }),
    {
        Faces { north: None, east: None, south: None, west: None, up: None, down: None }
    }
}

/// One face of a mesh element: a corner-label to UV map, the identifiers of
/// the vertices it spans in order, and an optional texture slot.
#[derive(Debug, PartialEq, Eq, Clone)]
pub struct MeshFace {
    pub uv: Vec<(String, XY)>,
    pub vertices: Vec<String>,
    pub texture: Option<usize>,
}

/// The mathematical value of a [`MeshFace`].
#[verifier::ext_equal]
pub struct MeshFaceV {
    pub uv: Seq<(Seq<char>, XY)>,
    pub vertices: Seq<Seq<char>>,
    pub texture: Option<usize>,
}

impl DeepView for MeshFace {
    type V = MeshFaceV;

    open spec fn deep_view(&self) -> MeshFaceV {
        MeshFaceV {
            uv: self.uv.deep_view(),
            vertices: self.vertices.deep_view(),
            texture: self.texture,
        }
    }
}

/// The variant payload of an element: cube or mesh.
#[derive(Debug, PartialEq)]
pub enum ElementType {
    Cube {
        from: XYZ<u64>,
        to: XYZ<u64>,
        uv_offset: Option<XY>,
        faces: Faces,
        box_uv: Option<bool>,
        rescale: bool,
        autouv: u8,
        light_emission: Option<u8>,
        mirror_uv: Option<bool>,
        inflate: Option<u64>,
        shade: Option<bool>,
    },
    Mesh { vertices: Vec<(String, XYZ<u64>)>, faces: Vec<(String, MeshFace)> },
}

/// The mathematical value of an [`ElementType`].
#[verifier::ext_equal]
pub enum ElementTypeV {
    Cube {
        from: XYZ<u64>,
        to: XYZ<u64>,
        uv_offset: Option<XY>,
        faces: Faces,
        box_uv: Option<bool>,
        rescale: bool,
        autouv: u8,
        light_emission: Option<u8>,
        mirror_uv: Option<bool>,
        inflate: Option<u64>,
        shade: Option<bool>,
    },
    Mesh { vertices: Seq<(Seq<char>, XYZ<u64>)>, faces: Seq<(Seq<char>, MeshFaceV)> },
}

impl DeepView for ElementType {
    type V = ElementTypeV;

    open spec fn deep_view(&self) -> ElementTypeV {
        match self {
            ElementType::Cube {
                from,
                to,
                uv_offset,
                faces,
                box_uv,
                rescale,
                autouv,
                light_emission,
                mirror_uv,
                inflate,
                shade,
            } => ElementTypeV::Cube {
                from: *from,
                to: *to,
                uv_offset: *uv_offset,
                faces: *faces,
                box_uv: *box_uv,
                rescale: *rescale,
                autouv: *autouv,
                light_emission: *light_emission,
                mirror_uv: *mirror_uv,
                inflate: *inflate,
                shade: *shade,
            },
            ElementType::Mesh { vertices, faces } => ElementTypeV::Mesh {
                vertices: vertices.deep_view(),
                faces: faces.deep_view(),
            },
        }
    }
}

/// Common information between all types of elements. The document layer's
/// render-order passthrough is not modelled here: conversion never produces
/// one, and the JSON layer emits its absence.
#[derive(Debug, PartialEq)]
pub struct Element {
    pub origin: XYZ<u64>,
    pub name: String,
    pub uuid: String,
    pub visibility: Option<bool>,
    pub locked: bool,
    pub allow_mirror_modeling: bool,
    pub export: Option<bool>,
    pub color: u8,
    pub rotation: XYZ<u64>,
    pub extra: ElementType,
}

/// The mathematical value of an [`Element`].
#[verifier::ext_equal]
pub struct ElementV {
    pub origin: XYZ<u64>,
    pub name: Seq<char>,
    pub uuid: Seq<char>,
    pub visibility: Option<bool>,
    pub locked: bool,
    pub allow_mirror_modeling: bool,
    pub export: Option<bool>,
    pub color: u8,
    pub rotation: XYZ<u64>,
    pub extra: ElementTypeV,
}

impl DeepView for Element {
    type V = ElementV;

    open spec fn deep_view(&self) -> ElementV {
        ElementV {
            origin: self.origin,
            name: self.name@,
            uuid: self.uuid@,
            visibility: self.visibility,
            locked: self.locked,
            allow_mirror_modeling: self.allow_mirror_modeling,
            export: self.export,
            color: self.color,
            rotation: self.rotation,
            extra: self.extra.deep_view(),
        }
    }
}

/// Either a group in the outliner, or the identifier of an element.
#[derive(Debug, PartialEq)]
pub enum OutlinerItem {
    Group(Group),
    Element(String),
}

/// A group in the outliner.
#[derive(Debug, PartialEq)]
#[allow(non_snake_case)]
pub struct Group {
    pub name: String,
    pub origin: XYZ<u64>,
    pub color: u8,
    pub uuid: String,
    pub export: bool,
    pub mirror_uv: bool,
    pub isOpen: bool,
    pub locked: bool,
    pub visibility: bool,
    pub autouv: u8,
    pub children: Vec<OutlinerItem>,
}

/// The mathematical value of an [`OutlinerItem`].
#[verifier::ext_equal]
pub enum OutlinerItemV {
    Group(GroupV),
    Element(Seq<char>),
}

/// The mathematical value of a [`Group`].
#[verifier::ext_equal]
#[allow(non_snake_case)]
pub struct GroupV {
    pub name: Seq<char>,
    pub origin: XYZ<u64>,
    pub color: u8,
    pub uuid: Seq<char>,
    pub export: bool,
    pub mirror_uv: bool,
    pub isOpen: bool,
    pub locked: bool,
    pub visibility: bool,
    pub autouv: u8,
    pub children: Seq<OutlinerItemV>,
}

/// The mathematical value of an outliner tree node.
pub open spec fn item_view(x: OutlinerItem) -> OutlinerItemV
    decreases x,
{
    match &x {
        OutlinerItem::Element(id) => OutlinerItemV::Element(id@),
        OutlinerItem::Group(g) => OutlinerItemV::Group(group_view(*g)),
    }
}

/// The mathematical value of an outliner group.
pub open spec fn group_view(g: Group) -> GroupV
    decreases g,
{
    GroupV {
        name: g.name@,
        origin: g.origin,
        color: g.color,
        uuid: g.uuid@,
        export: g.export,
        mirror_uv: g.mirror_uv,
        isOpen: g.isOpen,
        locked: g.locked,
        visibility: g.visibility,
        autouv: g.autouv,
        children: Seq::new(
            g.children@.len(),
            |i: int|
                if 0 <= i < g.children@.len() {
                    item_view(g.children[i])
                } else {
                    OutlinerItemV::Element(Seq::empty())
                },
        ),
    }
}

impl DeepView for OutlinerItem {
    type V = OutlinerItemV;

    open spec fn deep_view(&self) -> OutlinerItemV {
        item_view(*self)
    }
}

impl DeepView for Group {
    type V = GroupV;

    open spec fn deep_view(&self) -> GroupV {
        group_view(*self)
    }
}

impl Default for Group {
    /// A fresh group: exported, visible, closed, unlocked, colorless, with no
    /// children and a newly drawn random identifier.
    fn default() -> (r: Group)
        ensures
            r.name@ == Seq::<char>::empty(),
            r.origin == (XYZ { x: 0u64, y: 0u64, z: 0u64 }),
            r.color == 0,
            r.uuid@.len() == 36,
            r.export,
            !r.mirror_uv,
            !r.isOpen,
            !r.locked,
            r.visibility,
            r.autouv == 0,
            r.children@.len() == 0,
    {
        Group {
            name: String::new(),
            origin: XYZ { x: 0, y: 0, z: 0 },
            color: 0,
            uuid: crate::ident::new_v4_string(),
            export: true,
            mirror_uv: false,
            isOpen: false,
            locked: false,
            visibility: true,
            autouv: 0,
            children: Vec::new(),
        }
    }
}

/// The element list and outliner tree extracted from (or destined for) an
/// editable-tree document. The outliner refers to elements by identifier;
/// the flat list owns them.
#[derive(Debug, PartialEq)]
pub struct Hierarchy {
    pub elements: Vec<Element>,
    pub outliner: Vec<OutlinerItem>,
}

/// The mathematical value of a [`Hierarchy`].
#[verifier::ext_equal]
pub struct HierarchyV {
    pub elements: Seq<ElementV>,
    pub outliner: Seq<OutlinerItemV>,
}

impl DeepView for Hierarchy {
    type V = HierarchyV;

    open spec fn deep_view(&self) -> HierarchyV {
        HierarchyV { elements: self.elements.deep_view(), outliner: self.outliner.deep_view() }
    }
}

} // verus!
