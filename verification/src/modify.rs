//! Edits to a bundle before re-encoding: appending authors, adding or
//! replacing named scripts and textures, and removing them by name. Reading
//! script or texture files is the caller's business; the helpers take the
//! bytes.

use vstd::prelude::*;

use crate::moon::{spec_uniq_keys, spec_wf_author, Moon};
use crate::strutil::str_eq;

verus! {

broadcast use vstd::group_vstd_default;

/// The entries of `s[i..]` whose name is not `k`, in order.
pub open spec fn spec_without_key(s: Seq<(Seq<char>, Seq<u8>)>, k: Seq<char>, i: int) -> Seq<
    (Seq<char>, Seq<u8>),
>
    decreases s.len() - i,
{
    if i < 0 || i >= s.len() {
        Seq::empty()
    } else if s[i].0 == k {
        spec_without_key(s, k, i + 1)
    } else {
        seq![s[i]] + spec_without_key(s, k, i + 1)
    }
}

/// Removes every entry named `k` from a name-to-bytes list; reports whether
/// any entry was removed.
#[verifier::loop_isolation(false)]
pub fn remove_key(v: &mut Vec<(String, Vec<u8>)>, k: &str) -> (found: bool)
    ensures
        final(v).deep_view() == spec_without_key(old(v).deep_view(), k@, 0),
        found == exists|j: int|
            0 <= j < old(v).deep_view().len() && (#[trigger] old(v).deep_view()[j]).0 == k@,
{
    let ghost sv = v.deep_view();
    let mut out: Vec<(String, Vec<u8>)> = Vec::new();
    let mut found = false;
    let mut i: usize = 0;
    proof {
        assert(out.deep_view() =~= Seq::<(Seq<char>, Seq<u8>)>::empty());
    }
    while i < v.len()
        invariant
            i <= v@.len(),
            sv == v.deep_view(),
            sv.len() == v@.len(),
            spec_without_key(sv, k@, 0) == out.deep_view() + spec_without_key(sv, k@, i as int),
            found == exists|j: int| 0 <= j < i as int && (#[trigger] sv[j]).0 == k@,
        decreases v@.len() - i,
    {
        let entry = &v[i];
        proof {
            assert(sv[i as int] == (entry.0@, entry.1@));
        }
        if str_eq(entry.0.as_str(), k) {
            found = true;
        } else {
            let ghost prev = out.deep_view();
            out.push((crate::tag::clone_string(&entry.0), crate::tag::clone_i8s_free(&entry.1)));
            proof {
                assert(out.deep_view() =~= prev.push(sv[i as int]));
                assert(prev + (seq![sv[i as int]] + spec_without_key(sv, k@, i as int + 1))
                    =~= out.deep_view() + spec_without_key(sv, k@, i as int + 1));
            }
        }
        i = i + 1;
    }
    proof {
        assert(out.deep_view() + Seq::<(Seq<char>, Seq<u8>)>::empty() =~= out.deep_view());
    }
    *v = out;
    found
}

/// `s` with the first entry named `k` replaced by `(k, b)`, or `(k, b)`
/// appended when no entry is named `k`.
pub open spec fn spec_upsert_key(
    s: Seq<(Seq<char>, Seq<u8>)>,
    k: Seq<char>,
    b: Seq<u8>,
    i: int,
) -> Seq<(Seq<char>, Seq<u8>)>
    decreases s.len() - i,
{
    if i < 0 || i >= s.len() {
        seq![(k, b)]
    } else if s[i].0 == k {
        seq![(k, b)] + s.subrange(i + 1, s.len() as int)
    } else {
        seq![s[i]] + spec_upsert_key(s, k, b, i + 1)
    }
}

/// Adds or replaces the entry named `k` in a name-to-bytes list.
#[verifier::loop_isolation(false)]
pub fn upsert_key(v: &mut Vec<(String, Vec<u8>)>, k: String, b: Vec<u8>)
    ensures
        final(v).deep_view() == spec_upsert_key(old(v).deep_view(), k@, b@, 0),
{
    let ghost sv = v.deep_view();
    let ghost kk = k@;
    let ghost bb = b@;
    let mut i: usize = 0;
    while i < v.len()
        invariant
            i <= v@.len(),
            sv == v.deep_view(),
            sv.len() == v@.len(),
            forall|j: int| 0 <= j < i as int ==> (#[trigger] sv[j]).0 != kk,
        decreases v@.len() - i,
    {
        proof {
            assert(sv[i as int] == (v@[i as int].0@, v@[i as int].1@));
        }
        if str_eq(v[i].0.as_str(), k.as_str()) {
            let mut out: Vec<(String, Vec<u8>)> = Vec::new();
            let mut j: usize = 0;
            proof {
                assert(out.deep_view() =~= Seq::<(Seq<char>, Seq<u8>)>::empty());
            }
            while j < i
                invariant
                    j <= i < v@.len(),
                    sv == v.deep_view(),
                    sv.len() == v@.len(),
                    out.deep_view() =~= sv.subrange(0, j as int),
                decreases i - j,
            {
                let entry = &v[j];
                let ghost prev = out.deep_view();
                out.push(
                    (crate::tag::clone_string(&entry.0), crate::tag::clone_i8s_free(&entry.1)),
                );
                proof {
                    assert(out.deep_view() =~= prev.push(sv[j as int]));
                    assert(out.deep_view() =~= sv.subrange(0, j as int + 1));
                }
                j = j + 1;
            }
            let ghost mid = out.deep_view();
            out.push((k, b));
            proof {
                assert(out.deep_view() =~~= mid.push((kk, bb)));
                assert(sv.subrange(i as int + 1, i as int + 1) =~= Seq::<
                    (Seq<char>, Seq<u8>),
                >::empty());
                assert(out.deep_view() =~~= sv.subrange(0, i as int).push((kk, bb)) + sv.subrange(
                    i as int + 1,
                    i as int + 1,
                ));
            }
            let mut j2: usize = i + 1;
            while j2 < v.len()
                invariant
                    i < j2 <= v@.len(),
                    sv == v.deep_view(),
                    sv.len() == v@.len(),
                    out.deep_view() =~= sv.subrange(0, i as int).push((kk, bb)) + sv.subrange(
                        i as int + 1,
                        j2 as int,
                    ),
                decreases v@.len() - j2,
            {
                let entry = &v[j2];
                let ghost prev = out.deep_view();
                out.push(
                    (crate::tag::clone_string(&entry.0), crate::tag::clone_i8s_free(&entry.1)),
                );
                proof {
                    assert(out.deep_view() =~= prev.push(sv[j2 as int]));
                    assert(out.deep_view() =~= sv.subrange(0, i as int).push((kk, bb))
                        + sv.subrange(i as int + 1, j2 as int + 1));
                }
                j2 = j2 + 1;
            }
            proof {
                lemma_upsert_shape(sv, kk, bb, i as int);
                assert(out.deep_view() =~= sv.subrange(0, i as int).push((kk, bb)) + sv.subrange(
                    i as int + 1,
                    sv.len() as int,
                ));
            }
            *v = out;
            return ;
        }
        i = i + 1;
    }
    let ghost prev = v.deep_view();
    v.push((k, b));
    proof {
        assert(v.deep_view() =~~= prev.push((kk, bb)));
        lemma_upsert_tail(sv, kk, bb, 0);
        assert(sv.subrange(0, sv.len() as int) =~= sv);
        assert(sv + seq![(kk, bb)] =~= prev.push((kk, bb)));
    }
}

/// When no entry before `i` is named `k` and `s[i]` is, the upsert is the
/// prefix, the new entry, and the tail.
proof fn lemma_upsert_shape(s: Seq<(Seq<char>, Seq<u8>)>, k: Seq<char>, b: Seq<u8>, i: int)
    requires
        0 <= i < s.len(),
        forall|j: int| 0 <= j < i ==> (#[trigger] s[j]).0 != k,
        s[i].0 == k,
    ensures
        spec_upsert_key(s, k, b, 0) == s.subrange(0, i).push((k, b)) + s.subrange(
            i + 1,
            s.len() as int,
        ),
    decreases i,
{
    if i == 0 {
        assert(spec_upsert_key(s, k, b, 0) == seq![(k, b)] + s.subrange(1, s.len() as int));
        assert(s.subrange(0, 0).push((k, b)) =~= seq![(k, b)]);
    } else {
        lemma_upsert_shape_from(s, k, b, 0, i);
    }
}

proof fn lemma_upsert_shape_from(s: Seq<(Seq<char>, Seq<u8>)>, k: Seq<char>, b: Seq<u8>, j: int, i: int)
    requires
        0 <= j <= i < s.len(),
        forall|jj: int| 0 <= jj < i ==> (#[trigger] s[jj]).0 != k,
        s[i].0 == k,
    ensures
        spec_upsert_key(s, k, b, j) == s.subrange(j, i).push((k, b)) + s.subrange(
            i + 1,
            s.len() as int,
        ),
    decreases i - j,
{
    if j == i {
        assert(s.subrange(i, i).push((k, b)) =~= seq![(k, b)]);
        assert(spec_upsert_key(s, k, b, i) == seq![(k, b)] + s.subrange(i + 1, s.len() as int));
    } else {
        lemma_upsert_shape_from(s, k, b, j + 1, i);
        assert(seq![s[j]] + (s.subrange(j + 1, i).push((k, b)) + s.subrange(i + 1, s.len() as int))
            =~= s.subrange(j, i).push((k, b)) + s.subrange(i + 1, s.len() as int));
    }
}

/// When no entry is named `k`, the upsert appends the new entry.
pub proof fn lemma_upsert_tail_pub(s: Seq<(Seq<char>, Seq<u8>)>, k: Seq<char>, b: Seq<u8>, i: int)
    requires
        0 <= i <= s.len(),
        forall|j: int| 0 <= j < s.len() ==> (#[trigger] s[j]).0 != k,
    ensures
        spec_upsert_key(s, k, b, i) == s.subrange(i, s.len() as int) + seq![(k, b)],
{
    lemma_upsert_tail(s, k, b, i);
}

/// When no entry is named `k`, the upsert appends the new entry.
proof fn lemma_upsert_tail(s: Seq<(Seq<char>, Seq<u8>)>, k: Seq<char>, b: Seq<u8>, i: int)
    requires
        0 <= i <= s.len(),
        forall|j: int| 0 <= j < s.len() ==> (#[trigger] s[j]).0 != k,
    ensures
        spec_upsert_key(s, k, b, i) == s.subrange(i, s.len() as int) + seq![(k, b)],
    decreases s.len() - i,
{
    if i == s.len() {
        assert(s.subrange(i, s.len() as int) + seq![(k, b)] =~= seq![(k, b)]);
    } else {
        lemma_upsert_tail(s, k, b, i + 1);
        assert(seq![s[i]] + (s.subrange(i + 1, s.len() as int) + seq![(k, b)]) =~= s.subrange(
            i,
            s.len() as int,
        ) + seq![(k, b)]);
    }
}

/// Removing entries never disturbs the distinctness of the remaining names.
pub proof fn lemma_without_key_uniq(s: Seq<(Seq<char>, Seq<u8>)>, k: Seq<char>, i: int)
    requires
        spec_uniq_keys(s),
        0 <= i <= s.len(),
    ensures
        spec_uniq_keys(spec_without_key(s, k, i)),
        forall|n: int|
            0 <= n < spec_without_key(s, k, i).len() ==> exists|m: int|
                i <= m < s.len() && #[trigger] spec_without_key(s, k, i)[n] == s[m],
    decreases s.len() - i,
{
    if i < 0 || i >= s.len() {
    } else {
        lemma_without_key_uniq(s, k, i + 1);
        let rest = spec_without_key(s, k, i + 1);
        if s[i].0 == k {
        } else {
            let r = spec_without_key(s, k, i);
            assert forall|n: int, n2: int| 0 <= n < n2 < r.len() implies (#[trigger] r[n]).0 != (
            #[trigger] r[n2]).0 by {
                assert(r[n2] == rest[n2 - 1]);
                if n > 0 {
                    assert(r[n] == rest[n - 1]);
                } else {
                    assert(r[0] == s[i]);
                    let m = choose|m: int|
                        i + 1 <= m < s.len() && #[trigger] rest[n2 - 1] == s[m];
                    assert(s[i].0 != s[m].0);
                }
            }
            assert forall|n: int| 0 <= n < r.len() implies exists|m: int|
                i <= m < s.len() && #[trigger] r[n] == s[m] by {
                if n == 0 {
                    assert(r[0] == s[i]);
                } else {
                    assert(r[n] == rest[n - 1]);
                    let m = choose|m: int| i + 1 <= m < s.len() && #[trigger] rest[n - 1] == s[m];
                    assert(r[n] == s[m]);
                }
            }
        }
    }
}

/// Adding or replacing one entry never disturbs the distinctness of the
/// names.
pub proof fn lemma_upsert_key_uniq(s: Seq<(Seq<char>, Seq<u8>)>, k: Seq<char>, b: Seq<u8>, i: int)
    requires
        spec_uniq_keys(s),
        0 <= i <= s.len(),
        forall|j: int| 0 <= j < i ==> (#[trigger] s[j]).0 != k,
    ensures
        spec_uniq_keys(spec_upsert_key(s, k, b, i)),
        forall|n: int|
            0 <= n < spec_upsert_key(s, k, b, i).len() ==> ((#[trigger] spec_upsert_key(
                s,
                k,
                b,
                i,
            )[n]).0 == k || exists|m: int|
                i <= m < s.len() && spec_upsert_key(s, k, b, i)[n] == s[m]),
    decreases s.len() - i,
{
    let r = spec_upsert_key(s, k, b, i);
    if i < 0 || i >= s.len() {
    } else if s[i].0 == k {
        assert forall|n: int, n2: int| 0 <= n < n2 < r.len() implies (#[trigger] r[n]).0 != (
        #[trigger] r[n2]).0 by {
            assert(r[n2] == s[i + n2]);
            if n > 0 {
                assert(r[n] == s[i + n]);
            } else {
                assert(r[0] == (k, b));
                assert(s[i].0 == k && s[i + n2].0 != s[i].0);
            }
        }
        assert forall|n: int| 0 <= n < r.len() implies ((#[trigger] r[n]).0 == k || exists|m: int|
            i <= m < s.len() && r[n] == s[m]) by {
            if n > 0 {
                assert(r[n] == s[i + n]);
            }
        }
    } else {
        lemma_upsert_key_uniq(s, k, b, i + 1);
        let rest = spec_upsert_key(s, k, b, i + 1);
        assert forall|n: int, n2: int| 0 <= n < n2 < r.len() implies (#[trigger] r[n]).0 != (
        #[trigger] r[n2]).0 by {
            assert(r[n2] == rest[n2 - 1]);
            if n > 0 {
                assert(r[n] == rest[n - 1]);
            } else {
                assert(r[0] == s[i]);
                if rest[n2 - 1].0 == k {
                    assert(s[i].0 != k);
                } else {
                    let m = choose|m: int|
                        i + 1 <= m < s.len() && #[trigger] rest[n2 - 1] == s[m];
                    assert(s[i].0 != s[m].0);
                }
            }
        }
        assert forall|n: int| 0 <= n < r.len() implies ((#[trigger] r[n]).0 == k || exists|m: int|
            i <= m < s.len() && r[n] == s[m]) by {
            if n == 0 {
                assert(r[0] == s[i]);
            } else {
                assert(r[n] == rest[n - 1]);
                if rest[n - 1].0 != k {
                    let m = choose|m: int| i + 1 <= m < s.len() && #[trigger] rest[n - 1] == s[m];
                    assert(r[n] == s[m]);
                }
            }
        }
    }
}

/// The list left after removing every entry of `names[i..]` in turn.
pub open spec fn spec_remove_all(
    s: Seq<(Seq<char>, Seq<u8>)>,
    names: Seq<Seq<char>>,
    i: int,
) -> Seq<(Seq<char>, Seq<u8>)>
    decreases names.len() - i,
{
    if i < 0 || i >= names.len() {
        s
    } else {
        spec_remove_all(spec_without_key(s, names[i], 0), names, i + 1)
    }
}

/// The list left after adding or replacing every entry of `entries[i..]` in
/// turn.
pub open spec fn spec_upsert_all(
    s: Seq<(Seq<char>, Seq<u8>)>,
    entries: Seq<(Seq<char>, Seq<u8>)>,
    i: int,
) -> Seq<(Seq<char>, Seq<u8>)>
    decreases entries.len() - i,
{
    if i < 0 || i >= entries.len() {
        s
    } else {
        spec_upsert_all(spec_upsert_key(s, entries[i].0, entries[i].1, 0), entries, i + 1)
    }
}

impl Moon {
    /// Appends one author to the normalized author list. The entry must be in
    /// the form the container's joined encoding keeps: nonempty, not the
    /// placeholder, and free of the separator.
    pub fn add_author(&mut self, author: String)
        requires
            spec_wf_author(author@),
        ensures
            final(self).metadata.authors.deep_view() == old(self).metadata.authors.deep_view().push(
                author@,
            ),
            final(self).metadata.uuid == old(self).metadata.uuid,
            final(self).metadata.color == old(self).metadata.color,
            final(self).metadata.bg == old(self).metadata.bg,
            final(self).metadata.id == old(self).metadata.id,
            final(self).metadata.name == old(self).metadata.name,
            final(self).metadata.description == old(self).metadata.description,
            final(self).metadata.ver == old(self).metadata.ver,
            final(self).textures == old(self).textures,
            final(self).scripts == old(self).scripts,
            final(self).animations == old(self).animations,
            final(self).models == old(self).models,
            final(self).resources == old(self).resources,
            old(self).wf() ==> final(self).wf(),
    {
        let ghost prev = self.metadata.authors.deep_view();
        self.metadata.authors.push(author);
        proof {
            assert(self.metadata.authors.deep_view() =~= prev.push(author@));
        }
    }

    /// Removes every script of the given name; reports whether one existed.
    pub fn remove_script(&mut self, name: &str) -> (found: bool)
        ensures
            final(self).scripts.deep_view() == spec_without_key(
                old(self).scripts.deep_view(),
                name@,
                0,
            ),
            found == exists|j: int|
                0 <= j < old(self).scripts.deep_view().len() && (#[trigger] old(
                    self,
                ).scripts.deep_view()[j]).0 == name@,
            final(self).metadata == old(self).metadata,
            final(self).textures == old(self).textures,
            final(self).animations == old(self).animations,
            final(self).models == old(self).models,
            final(self).resources == old(self).resources,
            old(self).wf() ==> final(self).wf(),
    {
        proof {
            if old(self).wf() {
                lemma_without_key_uniq(old(self).scripts.deep_view(), name@, 0);
            }
        }
        remove_key(&mut self.scripts, name)
    }

    /// Removes every raw texture of the given name; reports whether one
    /// existed.
    pub fn remove_texture(&mut self, name: &str) -> (found: bool)
        ensures
            final(self).textures.src.deep_view() == spec_without_key(
                old(self).textures.src.deep_view(),
                name@,
                0,
            ),
            found == exists|j: int|
                0 <= j < old(self).textures.src.deep_view().len() && (#[trigger] old(
                    self,
                ).textures.src.deep_view()[j]).0 == name@,
            final(self).textures.data == old(self).textures.data,
            final(self).metadata == old(self).metadata,
            final(self).scripts == old(self).scripts,
            final(self).animations == old(self).animations,
            final(self).models == old(self).models,
            final(self).resources == old(self).resources,
            old(self).wf() ==> final(self).wf(),
    {
        proof {
            if old(self).wf() {
                lemma_without_key_uniq(old(self).textures.src.deep_view(), name@, 0);
            }
        }
        remove_key(&mut self.textures.src, name)
    }

    /// Adds a script, replacing one of the same name.
    pub fn add_script(&mut self, name: String, bytes: Vec<u8>)
        ensures
            final(self).scripts.deep_view() == spec_upsert_key(
                old(self).scripts.deep_view(),
                name@,
                bytes@,
                0,
            ),
            final(self).metadata == old(self).metadata,
            final(self).textures == old(self).textures,
            final(self).animations == old(self).animations,
            final(self).models == old(self).models,
            final(self).resources == old(self).resources,
            old(self).wf() ==> final(self).wf(),
    {
        proof {
            if old(self).wf() {
                lemma_upsert_key_uniq(old(self).scripts.deep_view(), name@, bytes@, 0);
            }
        }
        upsert_key(&mut self.scripts, name, bytes)
    }

    /// Adds a raw texture, replacing one of the same name.
    pub fn add_texture(&mut self, name: String, bytes: Vec<u8>)
        ensures
            final(self).textures.src.deep_view() == spec_upsert_key(
                old(self).textures.src.deep_view(),
                name@,
                bytes@,
                0,
            ),
            final(self).textures.data == old(self).textures.data,
            final(self).metadata == old(self).metadata,
            final(self).scripts == old(self).scripts,
            final(self).animations == old(self).animations,
            final(self).models == old(self).models,
            final(self).resources == old(self).resources,
            old(self).wf() ==> final(self).wf(),
    {
        proof {
            if old(self).wf() {
                lemma_upsert_key_uniq(old(self).textures.src.deep_view(), name@, bytes@, 0);
            }
        }
        upsert_key(&mut self.textures.src, name, bytes)
    }
}

/// A batch of edits to apply to a bundle before re-encoding. Scripts and
/// textures arrive as bytes; reading them from disk, and the interactive
/// editing and reformatting of scripts, belong to the caller.
#[derive(Debug, PartialEq)]
pub struct MoonModifications {
    /// Authors to append, each in normalized form.
    pub add_author: Vec<String>,
    /// Scripts to add or replace, by name.
    pub add_script: Vec<(String, Vec<u8>)>,
    /// Raw textures to add or replace, by name.
    pub add_texture: Vec<(String, Vec<u8>)>,
    /// Scripts to delete, by name.
    pub remove_script: Vec<String>,
    /// Raw textures to delete, by name.
    pub remove_texture: Vec<String>,
}

impl MoonModifications {
    /// Applies the edits: authors are appended first, then scripts and
    /// textures are removed, then added — a name both removed and added ends
    /// up added. Removing an absent name changes nothing and is no error.
    /// Every appended author survives a round trip through the container, so
    /// a well-formed bundle stays well formed.
    #[verifier::loop_isolation(false)]
    pub fn apply(&self, moon: &mut Moon)
        requires
            forall|i: int|
                0 <= i < self.add_author.deep_view().len() ==> spec_wf_author(
                    #[trigger] self.add_author.deep_view()[i],
                ),
        ensures
            final(moon).metadata.authors.deep_view() == old(
                moon,
            ).metadata.authors.deep_view() + self.add_author.deep_view(),
            final(moon).metadata.uuid == old(moon).metadata.uuid,
            final(moon).metadata.color == old(moon).metadata.color,
            final(moon).metadata.bg == old(moon).metadata.bg,
            final(moon).metadata.id == old(moon).metadata.id,
            final(moon).metadata.name == old(moon).metadata.name,
            final(moon).metadata.description == old(moon).metadata.description,
            final(moon).metadata.ver == old(moon).metadata.ver,
            final(moon).scripts.deep_view() == spec_upsert_all(
                spec_remove_all(
                    old(moon).scripts.deep_view(),
                    self.remove_script.deep_view(),
                    0,
                ),
                self.add_script.deep_view(),
                0,
            ),
            final(moon).textures.src.deep_view() == spec_upsert_all(
                spec_remove_all(
                    old(moon).textures.src.deep_view(),
                    self.remove_texture.deep_view(),
                    0,
                ),
                self.add_texture.deep_view(),
                0,
            ),
            final(moon).textures.data == old(moon).textures.data,
            final(moon).animations == old(moon).animations,
            final(moon).models == old(moon).models,
            final(moon).resources == old(moon).resources,
            old(moon).wf() ==> final(moon).wf(),
    {
        let ghost astart = moon.metadata.authors.deep_view();
        let ghost s0 = moon.scripts.deep_view();
        let ghost t0 = moon.textures.src.deep_view();
        let mut i: usize = 0;
        while i < self.add_author.len()
            invariant
                i <= self.add_author@.len(),
                moon.metadata.authors.deep_view() == astart + self.add_author.deep_view().subrange(
                    0,
                    i as int,
                ),
                moon.metadata.uuid == old(moon).metadata.uuid,
                moon.metadata.color == old(moon).metadata.color,
                moon.metadata.bg == old(moon).metadata.bg,
                moon.metadata.id == old(moon).metadata.id,
                moon.metadata.name == old(moon).metadata.name,
                moon.metadata.description == old(moon).metadata.description,
                moon.metadata.ver == old(moon).metadata.ver,
                moon.animations == old(moon).animations,
                moon.models == old(moon).models,
                moon.resources == old(moon).resources,
                moon.scripts == old(moon).scripts,
                moon.textures == old(moon).textures,
                old(moon).wf() ==> moon.metadata.wf(),
            decreases self.add_author@.len() - i,
        {
            proof {
                assert(spec_wf_author(self.add_author.deep_view()[i as int]));
                assert(self.add_author.deep_view()[i as int] == self.add_author@[i as int]@);
            }
            moon.add_author(crate::tag::clone_string(&self.add_author[i]));
            proof {
                assert(moon.metadata.authors.deep_view() =~= astart
                    + self.add_author.deep_view().subrange(0, i as int + 1));
            }
            i = i + 1;
        }
        proof {
            assert(astart + self.add_author.deep_view().subrange(
                0,
                self.add_author.deep_view().len() as int,
            ) =~= astart + self.add_author.deep_view());
        }
        let ghost meta_now = moon.metadata;
        let mut j: usize = 0;
        while j < self.remove_script.len()
            invariant
                j <= self.remove_script@.len(),
                moon.metadata == meta_now,
                moon.animations == old(moon).animations,
                moon.models == old(moon).models,
                moon.resources == old(moon).resources,
                moon.textures == old(moon).textures,
                spec_remove_all(s0, self.remove_script.deep_view(), 0) == spec_remove_all(
                    moon.scripts.deep_view(),
                    self.remove_script.deep_view(),
                    j as int,
                ),
                old(moon).wf() ==> spec_uniq_keys(moon.scripts.deep_view()),
            decreases self.remove_script@.len() - j,
        {
            proof {
                assert(self.remove_script.deep_view()[j as int] == self.remove_script@[
                    j as int]@);
                if old(moon).wf() {
                    lemma_without_key_uniq(
                        moon.scripts.deep_view(),
                        self.remove_script.deep_view()[j as int],
                        0,
                    );
                }
            }
            remove_key(&mut moon.scripts, self.remove_script[j].as_str());
            j = j + 1;
        }
        let ghost s_removed = moon.scripts.deep_view();
        proof {
            assert(s_removed == spec_remove_all(s0, self.remove_script.deep_view(), 0));
        }
        let mut j2: usize = 0;
        while j2 < self.remove_texture.len()
            invariant
                j2 <= self.remove_texture@.len(),
                moon.metadata == meta_now,
                moon.animations == old(moon).animations,
                moon.models == old(moon).models,
                moon.resources == old(moon).resources,
                moon.scripts.deep_view() == s_removed,
                moon.textures.data == old(moon).textures.data,
                spec_remove_all(t0, self.remove_texture.deep_view(), 0) == spec_remove_all(
                    moon.textures.src.deep_view(),
                    self.remove_texture.deep_view(),
                    j2 as int,
                ),
                old(moon).wf() ==> spec_uniq_keys(moon.textures.src.deep_view()),
            decreases self.remove_texture@.len() - j2,
        {
            proof {
                assert(self.remove_texture.deep_view()[j2 as int] == self.remove_texture@[
                    j2 as int]@);
                if old(moon).wf() {
                    lemma_without_key_uniq(
                        moon.textures.src.deep_view(),
                        self.remove_texture.deep_view()[j2 as int],
                        0,
                    );
                }
            }
            remove_key(&mut moon.textures.src, self.remove_texture[j2].as_str());
            j2 = j2 + 1;
        }
        let ghost t_removed = moon.textures.src.deep_view();
        proof {
            assert(t_removed == spec_remove_all(t0, self.remove_texture.deep_view(), 0));
        }
        let mut j3: usize = 0;
        while j3 < self.add_script.len()
            invariant
                j3 <= self.add_script@.len(),
                moon.metadata == meta_now,
                moon.animations == old(moon).animations,
                moon.models == old(moon).models,
                moon.resources == old(moon).resources,
                moon.textures.src.deep_view() == t_removed,
                moon.textures.data == old(moon).textures.data,
                spec_upsert_all(s_removed, self.add_script.deep_view(), 0) == spec_upsert_all(
                    moon.scripts.deep_view(),
                    self.add_script.deep_view(),
                    j3 as int,
                ),
                old(moon).wf() ==> spec_uniq_keys(moon.scripts.deep_view()),
            decreases self.add_script@.len() - j3,
        {
            let entry = &self.add_script[j3];
            proof {
                assert(self.add_script.deep_view()[j3 as int] == (entry.0@, entry.1@));
                if old(moon).wf() {
                    lemma_upsert_key_uniq(moon.scripts.deep_view(), entry.0@, entry.1@, 0);
                }
            }
            upsert_key(
                &mut moon.scripts,
                crate::tag::clone_string(&entry.0),
                crate::tag::clone_i8s_free(&entry.1),
            );
            j3 = j3 + 1;
        }
        let ghost s_final = moon.scripts.deep_view();
        proof {
            assert(s_final == spec_upsert_all(s_removed, self.add_script.deep_view(), 0));
        }
        let mut j4: usize = 0;
        while j4 < self.add_texture.len()
            invariant
                j4 <= self.add_texture@.len(),
                moon.metadata == meta_now,
                moon.animations == old(moon).animations,
                moon.models == old(moon).models,
                moon.resources == old(moon).resources,
                moon.scripts.deep_view() == s_final,
                moon.textures.data == old(moon).textures.data,
                spec_upsert_all(t_removed, self.add_texture.deep_view(), 0) == spec_upsert_all(
                    moon.textures.src.deep_view(),
                    self.add_texture.deep_view(),
                    j4 as int,
                ),
                old(moon).wf() ==> spec_uniq_keys(moon.textures.src.deep_view()),
            decreases self.add_texture@.len() - j4,
        {
            let entry = &self.add_texture[j4];
            proof {
                assert(self.add_texture.deep_view()[j4 as int] == (entry.0@, entry.1@));
                if old(moon).wf() {
                    lemma_upsert_key_uniq(moon.textures.src.deep_view(), entry.0@, entry.1@, 0);
                }
            }
            upsert_key(
                &mut moon.textures.src,
                crate::tag::clone_string(&entry.0),
                crate::tag::clone_i8s_free(&entry.1),
            );
            j4 = j4 + 1;
        }
        proof {
            if old(moon).wf() {
                assert forall|k: int|
                    0 <= k < moon.metadata.authors.deep_view().len() implies spec_wf_author(
                    #[trigger] moon.metadata.authors.deep_view()[k],
                ) by {
                    if k < astart.len() {
                        assert(moon.metadata.authors.deep_view()[k] == astart[k]);
                    } else {
                        assert(moon.metadata.authors.deep_view()[k]
                            == self.add_author.deep_view()[k - astart.len()]);
                    }
                }
            }
        }
    }
}

} // verus!
