//! The packed mesh-face codec. A mesh face list is stored as two flat
//! arrays: `tex`, where each entry packs a texture-slot index (high 12 bits)
//! with the face's vertex count (low 4 bits), and `fac`, the concatenated
//! vertex indices of every face. Decoding walks `tex` in order and takes the
//! next `count` entries of `fac` for each face; a zero vertex count or a
//! `fac` array shorter than the declared total is malformed. The four-bit
//! count limits a face to 15 vertices: that is a hard limit of the format.

use vstd::prelude::*;

verus! {

broadcast use vstd::group_vstd_default;

/// One decoded mesh face: a texture-slot index and the indices of its
/// vertices in the mesh's flat vertex array.
#[derive(Debug, PartialEq, Eq, Clone)]
pub struct MeshFaceData {
    pub texture: u16,
    pub vertices: Vec<u32>,
}

/// The mathematical value of a [`MeshFaceData`].
#[verifier::ext_equal]
pub struct MeshFaceDataV {
    pub texture: u16,
    pub vertices: Seq<u32>,
}

impl DeepView for MeshFaceData {
    type V = MeshFaceDataV;

    open spec fn deep_view(&self) -> MeshFaceDataV {
        MeshFaceDataV { texture: self.texture, vertices: self.vertices@ }
    }
}

/// Why a packed face array cannot be decoded or encoded.
#[derive(Debug, PartialEq, Eq, Clone, Copy, Structural)]
pub enum CodecError {
    /// A `tex` entry declares zero vertices.
    ZeroVertexCount,
    /// `fac` holds fewer indices than the `tex` entries declare in total.
    FacTooShort,
    /// A face to encode has no vertices.
    NoVertices,
    /// A face to encode has more than 15 vertices.
    TooManyVertices,
    /// A texture-slot index to encode does not fit in 12 bits.
    TextureTooLarge,
}

/// The faces encoded by `tex[i..]` and `fac[off..]`, or the error that stops
/// decoding.
pub open spec fn spec_decode_faces_from(tex: Seq<u16>, fac: Seq<u32>, i: int, off: int) -> Result<
    Seq<MeshFaceDataV>,
    CodecError,
>
    decreases tex.len() - i,
{
    if i < 0 || i >= tex.len() {
        Ok(Seq::empty())
    } else {
        let count = (tex[i] & 0xf) as int;
        if count == 0 {
            Err(CodecError::ZeroVertexCount)
        } else if off < 0 || off + count > fac.len() {
            Err(CodecError::FacTooShort)
        } else {
            match spec_decode_faces_from(tex, fac, i + 1, off + count) {
                Ok(rest) => Ok(
                    seq![
                        MeshFaceDataV {
                            texture: tex[i] >> 4,
                            vertices: fac.subrange(off, off + count),
                        },
                    ] + rest,
                ),
                Err(e) => Err(e),
            }
        }
    }
}

/// The faces encoded by a packed `tex`/`fac` pair, or the error that stops
/// decoding. Entries of `fac` beyond the declared total are ignored, as the
/// format gives them no meaning.
pub open spec fn spec_decode_faces(tex: Seq<u16>, fac: Seq<u32>) -> Result<
    Seq<MeshFaceDataV>,
    CodecError,
> {
    spec_decode_faces_from(tex, fac, 0, 0)
}

/// Decodes the packed `tex`/`fac` face arrays of a mesh.
#[verifier::loop_isolation(false)]
pub fn decode_mesh_faces(tex: &Vec<u16>, fac: &Vec<u32>) -> (r: Result<
    Vec<MeshFaceData>,
    CodecError,
>)
    ensures
        match r {
            Ok(faces) => spec_decode_faces(tex@, fac@) == Ok::<_, CodecError>(faces.deep_view()),
            Err(e) => spec_decode_faces(tex@, fac@) == Err::<Seq<MeshFaceDataV>, _>(e),
        },
{
    let mut out: Vec<MeshFaceData> = Vec::new();
    let mut off: usize = 0;
    let mut i: usize = 0;
    while i < tex.len()
        invariant
            i <= tex@.len(),
            off <= fac@.len(),
            spec_decode_faces(tex@, fac@) == (match spec_decode_faces_from(
                tex@,
                fac@,
                i as int,
                off as int,
            ) {
                Ok(s) => Ok::<_, CodecError>(out.deep_view() + s),
                Err(e) => Err::<Seq<MeshFaceDataV>, _>(e),
            }),
        decreases tex@.len() - i,
    {
        let packed = tex[i];
        let count = (packed & 0xf) as usize;
        proof {
            assert(packed & 0xf <= 0xf) by (bit_vector);
        }
        if count == 0 {
            return Err(CodecError::ZeroVertexCount);
        }
        if count > fac.len() || off > fac.len() - count {
            proof {
                assert(off as int + count as int > fac@.len());
            }
            return Err(CodecError::FacTooShort);
        }
        let mut verts: Vec<u32> = Vec::new();
        let mut k: usize = 0;
        while k < count
            invariant
                k <= count,
                off as int + count as int <= fac@.len(),
                verts@ == fac@.subrange(off as int, off as int + k as int),
            decreases count - k,
        {
            verts.push(fac[off + k]);
            proof {
                assert(verts@ =~= fac@.subrange(off as int, off as int + k as int + 1));
            }
            k = k + 1;
        }
        let ghost prev = out.deep_view();
        let face = MeshFaceData { texture: packed >> 4, vertices: verts };
        out.push(face);
        proof {
            let fv = MeshFaceDataV {
                texture: tex@[i as int] >> 4,
                vertices: fac@.subrange(off as int, off as int + count as int),
            };
            assert(out.deep_view() =~= prev.push(fv));
            if let Ok(rest) = spec_decode_faces_from(tex@, fac@, i as int + 1, off as int
                + count as int) {
                assert(prev + (seq![fv] + rest) =~= prev.push(fv) + rest);
            }
        }
        off = off + count;
        i = i + 1;
    }
    proof {
        assert(out.deep_view() + Seq::<MeshFaceDataV>::empty() =~= out.deep_view());
    }
    Ok(out)
}

/// The total vertex count declared by `tex[i..]`.
pub open spec fn spec_count_sum(tex: Seq<u16>, i: int) -> int
    decreases tex.len() - i,
{
    if i < 0 || i >= tex.len() {
        0
    } else {
        (tex[i] & 0xf) + spec_count_sum(tex, i + 1)
    }
}

proof fn lemma_count_sum_push(tex: Seq<u16>, p: u16, i: int)
    requires
        0 <= i <= tex.len(),
    ensures
        spec_count_sum(tex.push(p), i) == spec_count_sum(tex, i) + (p & 0xf),
    decreases tex.len() - i,
{
    if i == tex.len() {
        assert(tex.push(p)[i] == p);
        assert(spec_count_sum(tex.push(p), i + 1) == 0);
    } else {
        lemma_count_sum_push(tex, p, i + 1);
        assert(tex.push(p)[i] == tex[i]);
    }
}

/// Encodes a face list into the packed `tex`/`fac` pair. Decoding the result
/// gives back exactly the faces that were encoded.
#[verifier::loop_isolation(false)]
pub fn encode_mesh_faces(faces: &Vec<MeshFaceData>) -> (r: Result<(Vec<u16>, Vec<u32>), CodecError>)
    ensures
        match r {
            Ok(pair) => spec_decode_faces(pair.0@, pair.1@) == Ok::<_, CodecError>(
                faces.deep_view(),
            ),
            Err(e) => {
                ||| e == CodecError::NoVertices && exists|j: int|
                    0 <= j < faces@.len() && #[trigger] faces@[j].vertices@.len() == 0
                ||| e == CodecError::TooManyVertices && exists|j: int|
                    0 <= j < faces@.len() && #[trigger] faces@[j].vertices@.len() > 15
                ||| e == CodecError::TextureTooLarge && exists|j: int|
                    0 <= j < faces@.len() && #[trigger] faces@[j].texture > 0xfff
            },
        },
{
    let mut tex: Vec<u16> = Vec::new();
    let mut fac: Vec<u32> = Vec::new();
    let mut i: usize = 0;
    proof {
        assert(faces.deep_view().subrange(0, 0) =~= Seq::<MeshFaceDataV>::empty());
    }
    while i < faces.len()
        invariant
            i <= faces@.len(),
            spec_decode_faces(tex@, fac@) == Ok::<_, CodecError>(
                faces.deep_view().subrange(0, i as int),
            ),
            spec_count_sum(tex@, 0) == fac@.len(),
        decreases faces@.len() - i,
    {
        let face = &faces[i];
        let count = face.vertices.len();
        if count == 0 {
            return Err(CodecError::NoVertices);
        }
        if count > 15 {
            return Err(CodecError::TooManyVertices);
        }
        if face.texture > 0xfff {
            return Err(CodecError::TextureTooLarge);
        }
        let packed: u16 = (face.texture << 4) | (count as u16);
        let ghost old_tex = tex@;
        let ghost old_fac = fac@;
        tex.push(packed);
        let mut k: usize = 0;
        while k < count
            invariant
                k <= count,
                count == face.vertices@.len(),
                fac@ == old_fac + face.vertices@.subrange(0, k as int),
            decreases count - k,
        {
            fac.push(face.vertices[k]);
            proof {
                assert(fac@ =~= old_fac + face.vertices@.subrange(0, k as int + 1));
            }
            k = k + 1;
        }
        proof {
            assert(fac@ =~= old_fac + face.vertices@);
            let cnt16: u16 = count as u16;
            let t16: u16 = face.texture;
            assert(packed & 0xf == cnt16 && packed >> 4 == t16) by (bit_vector)
                requires
                    packed == (t16 << 4) | cnt16,
                    t16 <= 0xfff,
                    0 < cnt16 <= 15,
            ;
            lemma_count_sum_push(old_tex, packed, 0);
            lemma_decode_extend_from(old_tex, old_fac, faces@[i as int].deep_view(), packed, 0, 0);
            assert(faces.deep_view().subrange(0, i as int).push(faces@[i as int].deep_view())
                =~= faces.deep_view().subrange(0, i as int + 1));
        }
        i = i + 1;
    }
    proof {
        assert(faces.deep_view().subrange(0, faces@.len() as int) =~= faces.deep_view());
    }
    Ok((tex, fac))
}

/// Appending one well-formed face to a pair that decodes from `(i, off)`
/// extends the decoded sequence by exactly that face.
proof fn lemma_decode_extend_from(
    tex: Seq<u16>,
    fac: Seq<u32>,
    face: MeshFaceDataV,
    packed: u16,
    i: int,
    off: int,
)
    requires
        0 <= i <= tex.len(),
        0 <= off <= fac.len(),
        off + spec_count_sum(tex, i) == fac.len(),
        spec_decode_faces_from(tex, fac, i, off) is Ok,
        (packed & 0xf) as int == face.vertices.len(),
        packed >> 4 == face.texture,
        0 < face.vertices.len() <= 15,
    ensures
        spec_decode_faces_from(tex.push(packed), fac + face.vertices, i, off) == Ok::<
            _,
            CodecError,
        >(spec_decode_faces_from(tex, fac, i, off)->Ok_0.push(face)),
    decreases tex.len() - i,
{
    let tex2 = tex.push(packed);
    let fac2 = fac + face.vertices;
    if i == tex.len() {
        assert(tex2[i] == packed);
        assert(fac2.subrange(fac.len() as int, fac.len() as int + face.vertices.len() as int) =~= face.vertices);
        assert(spec_decode_faces_from(tex2, fac2, i + 1, fac.len() as int + face.vertices.len() as int) == Ok::<
            _,
            CodecError,
        >(Seq::<MeshFaceDataV>::empty()));
        assert(spec_decode_faces_from(tex2, fac2, i, off)->Ok_0 =~= seq![face]);
        assert(spec_decode_faces_from(tex, fac, i, off)->Ok_0.push(face) =~= seq![face]);
    } else {
        let count = (tex[i] & 0xf) as int;
        assert(tex2[i] == tex[i]);
        assert(count > 0 && off + count <= fac.len());
        assert(fac2.subrange(off, off + count) =~= fac.subrange(off, off + count));
        lemma_decode_extend_from(tex, fac, face, packed, i + 1, off + count);
        assert(spec_decode_faces_from(tex2, fac2, i, off)->Ok_0 =~= spec_decode_faces_from(
            tex,
            fac,
            i,
            off,
        )->Ok_0.push(face));
    }
}

/// The width in bytes (1, 2 or 4) of the narrowest fixed-width integer type
/// able to represent every index in `fac`.
pub fn fac_width(fac: &Vec<u32>) -> (w: u8)
    ensures
        w == 1 || w == 2 || w == 4,
        w == 1 <==> forall|j: int| 0 <= j < fac@.len() ==> #[trigger] fac@[j] < 256,
        w == 2 <==> (!forall|j: int| 0 <= j < fac@.len() ==> #[trigger] fac@[j] < 256) && forall|
            j: int,
        |
            0 <= j < fac@.len() ==> #[trigger] fac@[j] < 65536,
{
    let mut max: u32 = 0;
    let mut i: usize = 0;
    while i < fac.len()
        invariant
            i <= fac@.len(),
            forall|j: int| 0 <= j < i as int ==> #[trigger] fac@[j] <= max,
            max == 0 || exists|j: int| 0 <= j < i as int && fac@[j] == max,
        decreases fac@.len() - i,
    {
        if fac[i] > max {
            max = fac[i];
        }
        i = i + 1;
    }
    if max < 256 {
        1
    } else if max < 65536 {
        2
    } else {
        4
    }
}

} // verus!
