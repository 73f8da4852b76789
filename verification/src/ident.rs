//! Deterministic identifier derivation for model parts. A part that stores a
//! compact identifier (four 32-bit words) decodes it directly: words 0 and 1
//! form the high 64 bits, words 2 and 3 the low 64 bits, and the identifier
//! renders in the hyphenated form. A part without one derives its identifier
//! from a structural hash that deliberately excludes every floating-point
//! bearing field — only the name, the children (recursively, by their own
//! hashes), the variant, and the non-float per-face data (cube face texture
//! indices, mesh `tex` and `fac` arrays) participate — so that geometry-only
//! edits never reassign a part's identity. The hash, combined with a
//! caller-supplied salt, feeds a name-based identifier generator.

use vstd::prelude::*;

use crate::moon::{ModelData, ModelDataV, ModelPart, ModelPartV, Sided, Face};

verus! {

broadcast use vstd::group_vstd_default;

/// The offset basis of the structural hash (the FNV-1a 64-bit offset).
pub const HASH_SEED: u64 = 0xcbf29ce484222325;

/// The multiplier of the structural hash (the FNV-1a 64-bit prime).
pub const HASH_PRIME: u64 = 0x100000001b3;

/// One step of the structural hash: fold a 64-bit token into the state.
pub open spec fn spec_mix(h: u64, x: u64) -> u64 {
    vstd::wrapping::u64_specs::wrapping_mul(h ^ x, HASH_PRIME)
}

/// Folds a 64-bit token into the hash state.
pub fn mix(h: u64, x: u64) -> (r: u64)
    ensures
        r == spec_mix(h, x),
{
    (h ^ x).wrapping_mul(HASH_PRIME)
}

/// Folds the characters of `s[i..]` into the hash state.
pub open spec fn spec_hash_chars(h: u64, s: Seq<char>, i: int) -> u64
    decreases s.len() - i,
{
    if i < 0 || i >= s.len() {
        h
    } else {
        spec_hash_chars(spec_mix(h, s[i] as u64), s, i + 1)
    }
}

/// Folds the entries of `s[i..]` into the hash state.
pub open spec fn spec_hash_u16s(h: u64, s: Seq<u16>, i: int) -> u64
    decreases s.len() - i,
{
    if i < 0 || i >= s.len() {
        h
    } else {
        spec_hash_u16s(spec_mix(h, s[i] as u64), s, i + 1)
    }
}

/// Folds the entries of `s[i..]` into the hash state.
pub open spec fn spec_hash_u32s(h: u64, s: Seq<u32>, i: int) -> u64
    decreases s.len() - i,
{
    if i < 0 || i >= s.len() {
        h
    } else {
        spec_hash_u32s(spec_mix(h, s[i] as u64), s, i + 1)
    }
}

/// Folds one optional cube side into the hash state: a presence token, then
/// the side's texture index. The side's UV rectangle and rotation are
/// floating point and deliberately left out.
pub open spec fn spec_hash_side(h: u64, side: Option<Face>) -> u64 {
    match side {
        None => spec_mix(h, 0),
        Some(f) => spec_mix(spec_mix(h, 1), f.tex as u64),
    }
}

/// Folds a part's variant payload into the hash state: a discriminant
/// token, then the variant's non-float per-face data. Cube corner points and
/// inflate, and mesh vertex and UV coordinates, are floating point and
/// deliberately left out.
pub open spec fn spec_hash_data(h: u64, data: ModelDataV) -> u64 {
    match data {
        ModelDataV::Group {  } => spec_mix(h, 0),
        ModelDataV::Cube { cube_data, .. } => {
            let h1 = spec_mix(h, 1);
            let h2 = spec_hash_side(h1, cube_data.n);
            let h3 = spec_hash_side(h2, cube_data.s);
            let h4 = spec_hash_side(h3, cube_data.u);
            let h5 = spec_hash_side(h4, cube_data.d);
            let h6 = spec_hash_side(h5, cube_data.w);
            spec_hash_side(h6, cube_data.e)
        },
        ModelDataV::Mesh { mesh_data } => {
            let h1 = spec_mix(h, 2);
            let h2 = spec_mix(h1, mesh_data.tex.len() as u64);
            let h3 = spec_hash_u16s(h2, mesh_data.tex, 0);
            let h4 = spec_mix(h3, mesh_data.fac.len() as u64);
            spec_hash_u32s(h4, mesh_data.fac, 0)
        },
    }
}

/// The structural hash of a part, folded into the state `h`: the name (with
/// a length token), the children count and each child's own hash, and the
/// variant payload. Rotation, pivot, the animation payload, render types,
/// flags, the stored identifier and collection lists do not participate.
pub open spec fn spec_part_hash(h: u64, p: ModelPartV) -> u64
    decreases p, 1nat,
{
    let h1 = spec_mix(h, p.name.len() as u64);
    let h2 = spec_hash_chars(h1, p.name, 0);
    let h3 = spec_mix(h2, p.chld.len() as u64);
    let h4 = spec_hash_children(h3, p.chld, 0);
    spec_hash_data(h4, p.data)
}

/// Folds the hashes of the children `s[i..]` into the hash state.
pub open spec fn spec_hash_children(h: u64, s: Seq<ModelPartV>, i: int) -> u64
    decreases s, (s.len() - i + 2) as nat,
{
    if i < 0 || i >= s.len() {
        h
    } else {
        spec_hash_children(spec_mix(h, spec_part_hash(HASH_SEED, s[i])), s, i + 1)
    }
}

/// The hyphenated identifier string that an external generator derives from
/// the eight little-endian bytes of `x` under the conversion namespace.
pub uninterp spec fn spec_uuid_v5_str(x: u64) -> Seq<char>;

/// Relies on `uuid::Uuid::new_v5` (the RFC 9562 name-based, SHA-1 backed
/// generator) applied under this library's fixed conversion namespace to the
/// eight little-endian bytes of `x`, and on `uuid`'s hyphenated `Display`
/// form: the result is a function of `x` alone.
#[verifier::external_body]
fn uuid_v5_string(x: u64) -> (r: String)
    ensures
        r@ == spec_uuid_v5_str(x),
{
    let ns = uuid::Uuid::from_u128(0x82703e9507cb41eb85910ae63fc1e2db);
    uuid::Uuid::new_v5(&ns, &x.to_le_bytes()).to_string()
}

/// The sixteen lowercase hex digits.
pub open spec fn spec_hex_digit(d: u64) -> char {
    if d == 0 {
        '0'
    } else if d == 1 {
        '1'
    } else if d == 2 {
        '2'
    } else if d == 3 {
        '3'
    } else if d == 4 {
        '4'
    } else if d == 5 {
        '5'
    } else if d == 6 {
        '6'
    } else if d == 7 {
        '7'
    } else if d == 8 {
        '8'
    } else if d == 9 {
        '9'
    } else if d == 10 {
        'a'
    } else if d == 11 {
        'b'
    } else if d == 12 {
        'c'
    } else if d == 13 {
        'd'
    } else if d == 14 {
        'e'
    } else {
        'f'
    }
}

/// The sixteen hex digits of a 64-bit value, most significant first.
pub open spec fn spec_hex16(x: u64) -> Seq<char> {
    Seq::new(16, |i: int| spec_hex_digit((x >> (((15 - i) * 4) as u64)) & 0xf))
}

/// The hyphenated lowercase rendering of the 128-bit identifier whose high
/// half is `hi` and low half is `lo`: 32 hex digits in groups of 8, 4, 4, 4
/// and 12.
pub open spec fn spec_uuid_hyphenated(hi: u64, lo: u64) -> Seq<char> {
    let h = spec_hex16(hi);
    let l = spec_hex16(lo);
    h.subrange(0, 8) + seq!['-'] + h.subrange(8, 12) + seq!['-'] + h.subrange(12, 16) + seq!['-']
        + l.subrange(0, 4) + seq!['-'] + l.subrange(4, 16)
}

/// Relies on `uuid::Uuid::from_u64_pair`, which lays `hi` and `lo` out as
/// the high and low 64 bits of the identifier, and on `uuid`'s `Display`
/// form, the hyphenated lowercase hex rendering of those 128 bits.
#[verifier::external_body]
fn uuid_pair_string(hi: u64, lo: u64) -> (r: String)
    ensures
        r@ == spec_uuid_hyphenated(hi, lo),
{
    uuid::Uuid::from_u64_pair(hi, lo).to_string()
}

/// Relies on `uuid::Uuid::new_v4`: a random identifier, of which only the
/// hyphenated `Display` length is stated.
#[verifier::external_body]
pub(crate) fn new_v4_string() -> (r: String)
    ensures
        r@.len() == 36,
{
    uuid::Uuid::new_v4().to_string()
}

/// The identifier of a part that stores one: words 0 and 1 are the high 64
/// bits, words 2 and 3 the low 64 bits.
pub open spec fn spec_stored_id(w: (u32, u32, u32, u32)) -> Seq<char> {
    spec_uuid_hyphenated((w.0 as u64) << 32 | (w.1 as u64), (w.2 as u64) << 32 | (w.3 as u64))
}

/// The identifier of a part under a salt: the stored identifier when there
/// is one (the salt is ignored), otherwise the derived identifier of the
/// salted structural hash.
pub open spec fn spec_resolve_id_salted(p: ModelPartV, salt: u64) -> Seq<char> {
    match p.nr {
        Some(w) => spec_stored_id(w),
        None => spec_uuid_v5_str(spec_part_hash(spec_mix(HASH_SEED, salt), p)),
    }
}

/// The identifier of a part with no salt in play: the stored identifier when
/// there is one, otherwise the derived identifier of the unsalted hash.
pub open spec fn spec_resolve_id(p: ModelPartV) -> Seq<char> {
    match p.nr {
        Some(w) => spec_stored_id(w),
        None => spec_uuid_v5_str(spec_part_hash(HASH_SEED, p)),
    }
}

impl ModelPart {
    /// The part's structural hash folded into the state `h`.
    #[verifier::loop_isolation(false)]
    pub fn structural_hash(&self, h: u64) -> (r: u64)
        ensures
            r == spec_part_hash(h, self.deep_view()),
        decreases self,
    {
        let mut acc = mix(h, self.name.unicode_len() as u64);
        let mut i: usize = 0;
        let n = self.name.unicode_len();
        while i < n
            invariant
                i <= n,
                n == self.name@.len(),
                spec_hash_chars(acc, self.name@, i as int) == spec_hash_chars(
                    spec_mix(h, self.name@.len() as u64),
                    self.name@,
                    0,
                ),
            decreases n - i,
        {
            acc = mix(acc, self.name.get_char(i) as u64);
            i = i + 1;
        }
        acc = mix(acc, self.chld.len() as u64);
        let mut j: usize = 0;
        while j < self.chld.len()
            invariant
                j <= self.chld@.len(),
                spec_hash_children(acc, self.deep_view().chld, j as int) == spec_hash_children(
                    spec_mix(
                        spec_hash_chars(
                            spec_mix(h, self.name@.len() as u64),
                            self.name@,
                            0,
                        ),
                        self.chld@.len() as u64,
                    ),
                    self.deep_view().chld,
                    0,
                ),
            decreases self.chld@.len() - j,
        {
            proof {
                assert(decreases_to!(*self => self.chld));
                assert(decreases_to!(self.chld => self.chld[j as int]));
            }
            let ch = self.chld[j].structural_hash(HASH_SEED);
            proof {
                assert(self.deep_view().chld[j as int] == self.chld[j as int].deep_view());
            }
            acc = mix(acc, ch);
            j = j + 1;
        }
        match &self.data {
            ModelData::Group {  } => mix(acc, 0),
            ModelData::Cube { cube_data, .. } => {
                let mut hh = mix(acc, 1);
                hh = hash_side(hh, &cube_data.n);
                hh = hash_side(hh, &cube_data.s);
                hh = hash_side(hh, &cube_data.u);
                hh = hash_side(hh, &cube_data.d);
                hh = hash_side(hh, &cube_data.w);
                hh = hash_side(hh, &cube_data.e);
                hh
            },
            ModelData::Mesh { mesh_data } => {
                let mut hh = mix(acc, 2);
                hh = mix(hh, mesh_data.tex.len() as u64);
                let mut k: usize = 0;
                while k < mesh_data.tex.len()
                    invariant
                        k <= mesh_data.tex@.len(),
                        spec_hash_u16s(hh, mesh_data.tex@, k as int) == spec_hash_u16s(
                            spec_mix(spec_mix(acc, 2), mesh_data.tex@.len() as u64),
                            mesh_data.tex@,
                            0,
                        ),
                    decreases mesh_data.tex@.len() - k,
                {
                    hh = mix(hh, mesh_data.tex[k] as u64);
                    k = k + 1;
                }
                hh = mix(hh, mesh_data.fac.len() as u64);
                let ghost base = hh;
                let mut k2: usize = 0;
                while k2 < mesh_data.fac.len()
                    invariant
                        k2 <= mesh_data.fac@.len(),
                        spec_hash_u32s(hh, mesh_data.fac@, k2 as int) == spec_hash_u32s(
                            base,
                            mesh_data.fac@,
                            0,
                        ),
                    decreases mesh_data.fac@.len() - k2,
                {
                    hh = mix(hh, mesh_data.fac[k2] as u64);
                    k2 = k2 + 1;
                }
                hh
            },
        }
    }

    /// The part's identifier under a salt. A stored identifier is decoded
    /// exactly and the salt is ignored; otherwise the identifier is derived
    /// from the salted structural hash, so that two parts of identical
    /// hash-relevant structure still get distinct generator inputs when
    /// resolved under distinct salts.
    pub fn get_uuid_with_salt(&self, salt: u64) -> (r: String)
        ensures
            r@ == spec_resolve_id_salted(self.deep_view(), salt),
    {
        match &self.nr {
            Some(w) => uuid_pair_string(
                (w.0 as u64) << 32u64 | (w.1 as u64),
                (w.2 as u64) << 32u64 | (w.3 as u64),
            ),
            None => uuid_v5_string(self.structural_hash(mix(HASH_SEED, salt))),
        }
    }

    /// The part's identifier: the stored one decoded exactly, or the one
    /// derived from the unsalted structural hash.
    pub fn get_uuid(&self) -> (r: String)
        ensures
            r@ == spec_resolve_id(self.deep_view()),
    {
        match &self.nr {
            Some(w) => uuid_pair_string(
                (w.0 as u64) << 32u64 | (w.1 as u64),
                (w.2 as u64) << 32u64 | (w.3 as u64),
            ),
            None => uuid_v5_string(self.structural_hash(HASH_SEED)),
        }
    }
}

/// Folds one optional cube side into the hash state.
fn hash_side(h: u64, side: &Option<Face>) -> (r: u64)
    ensures
        r == spec_hash_side(h, *side),
{
    match side {
        None => mix(h, 0),
        Some(f) => mix(mix(h, 1), f.tex as u64),
    }
}

/// Two variant payloads agree on everything the structural hash reads: the
/// discriminant and the non-float per-face data. They may differ freely in
/// corner points, inflate, and vertex or UV coordinates.
pub open spec fn spec_data_hash_equiv(a: ModelDataV, b: ModelDataV) -> bool {
    match (a, b) {
        (ModelDataV::Group {  }, ModelDataV::Group {  }) => true,
        (ModelDataV::Cube { cube_data: ca, .. }, ModelDataV::Cube { cube_data: cb, .. }) => {
            &&& spec_side_hash_equiv(ca.n, cb.n)
            &&& spec_side_hash_equiv(ca.s, cb.s)
            &&& spec_side_hash_equiv(ca.u, cb.u)
            &&& spec_side_hash_equiv(ca.d, cb.d)
            &&& spec_side_hash_equiv(ca.w, cb.w)
            &&& spec_side_hash_equiv(ca.e, cb.e)
        },
        (ModelDataV::Mesh { mesh_data: ma }, ModelDataV::Mesh { mesh_data: mb }) => ma.tex
            == mb.tex && ma.fac == mb.fac,
        _ => false,
    }
}

/// Two optional cube sides agree on presence and texture index.
pub open spec fn spec_side_hash_equiv(a: Option<Face>, b: Option<Face>) -> bool {
    match (a, b) {
        (None, None) => true,
        (Some(fa), Some(fb)) => fa.tex == fb.tex,
        _ => false,
    }
}

/// Changing only floating-point fields of a part — its rotation or pivot,
/// a cube's corner points or inflate, a face's UV rectangle or rotation, or
/// a mesh's vertex and UV coordinate arrays — leaves the structural hash,
/// and with it the derived identifier, unchanged.
pub proof fn lemma_hash_ignores_floats(h: u64, p1: ModelPartV, p2: ModelPartV)
    requires
        p1.name == p2.name,
        p1.chld == p2.chld,
        spec_data_hash_equiv(p1.data, p2.data),
    ensures
        spec_part_hash(h, p1) == spec_part_hash(h, p2),
{
}

/// A part without a stored identifier resolves to the same identifier under
/// one salt however its floating-point fields are changed.
pub proof fn lemma_resolve_id_ignores_floats(p1: ModelPartV, p2: ModelPartV, salt: u64)
    requires
        p1.nr is None,
        p2.nr is None,
        p1.name == p2.name,
        p1.chld == p2.chld,
        spec_data_hash_equiv(p1.data, p2.data),
    ensures
        spec_resolve_id_salted(p1, salt) == spec_resolve_id_salted(p2, salt),
{
    lemma_hash_ignores_floats(spec_mix(HASH_SEED, salt), p1, p2);
}

/// A part with a stored identifier resolves to that identifier under every
/// salt: the salt is ignored and the stored words decode exactly.
pub proof fn lemma_stored_id_ignores_salt(p: ModelPartV, s1: u64, s2: u64)
    requires
        p.nr is Some,
    ensures
        spec_resolve_id_salted(p, s1) == spec_resolve_id_salted(p, s2),
        spec_resolve_id_salted(p, s1) == spec_stored_id(p.nr->0),
{
}

} // verus!
