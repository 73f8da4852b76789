//! The dynamic tagged-value tree that the binary container library hands the
//! core. Scalars, byte/int/long arrays, strings, lists and string-keyed
//! compounds mirror the container's own value model one for one; floating
//! point values are carried as their raw IEEE-754 bit patterns so that the
//! tree holds plain integers only.

use vstd::prelude::*;

verus! {

broadcast use vstd::group_vstd_default;

/// One node of the tagged-value tree. `Float` and `Double` hold the bit
/// patterns of the 32- and 64-bit floating point values they stand for.
#[derive(Debug, PartialEq)]
pub enum Tag {
    Byte(i8),
    Short(i16),
    Int(i32),
    Long(i64),
    Float(u32),
    Double(u64),
    Bytes(Vec<i8>),
    Str(String),
    List(Vec<Tag>),
    Compound(Vec<(String, Tag)>),
    Ints(Vec<i32>),
    Longs(Vec<i64>),
}

/// The mathematical value of a [`Tag`].
#[verifier::ext_equal]
pub enum TagV {
    Byte(i8),
    Short(i16),
    Int(i32),
    Long(i64),
    Float(u32),
    Double(u64),
    Bytes(Seq<i8>),
    Str(Seq<char>),
    List(Seq<TagV>),
    Compound(Seq<(Seq<char>, TagV)>),
    Ints(Seq<i32>),
    Longs(Seq<i64>),
}

/// The mathematical value of a tag tree.
pub open spec fn tag_view(t: Tag) -> TagV
    decreases t,
{
    {
        match &t {
            Tag::Byte(x) => TagV::Byte(*x),
            Tag::Short(x) => TagV::Short(*x),
            Tag::Int(x) => TagV::Int(*x),
            Tag::Long(x) => TagV::Long(*x),
            Tag::Float(x) => TagV::Float(*x),
            Tag::Double(x) => TagV::Double(*x),
            Tag::Bytes(v) => TagV::Bytes(v@),
            Tag::Str(s) => TagV::Str(s@),
            Tag::List(v) => TagV::List(
                Seq::new(
                    v@.len(),
                    |i: int|
                        if 0 <= i < v@.len() {
                            tag_view(v[i])
                        } else {
                            TagV::Byte(0)
                        },
                ),
            ),
            Tag::Compound(v) => TagV::Compound(
                Seq::new(
                    v@.len(),
                    |i: int|
                        if 0 <= i < v@.len() {
                            (v[i].0@, tag_view(v[i].1))
                        } else {
                            (Seq::empty(), TagV::Byte(0))
                        },
                ),
            ),
            Tag::Ints(v) => TagV::Ints(v@),
            Tag::Longs(v) => TagV::Longs(v@),
        }
    }
}

impl DeepView for Tag {
    type V = TagV;

    open spec fn deep_view(&self) -> TagV {
        tag_view(*self)
    }
}

/// Copies a tag tree; the copy has the same mathematical value as the
/// original.
#[verifier::loop_isolation(false)]
pub fn clone_tag(t: &Tag) -> (r: Tag)
    ensures
        r.deep_view() == t.deep_view(),
    decreases t,
{
    match t {
        Tag::Byte(x) => Tag::Byte(*x),
        Tag::Short(x) => Tag::Short(*x),
        Tag::Int(x) => Tag::Int(*x),
        Tag::Long(x) => Tag::Long(*x),
        Tag::Float(x) => Tag::Float(*x),
        Tag::Double(x) => Tag::Double(*x),
        Tag::Bytes(v) => Tag::Bytes(clone_i8s(v)),
        Tag::Str(s) => Tag::Str(clone_string(s)),
        Tag::List(v) => {
            let mut out: Vec<Tag> = Vec::new();
            let mut i: usize = 0;
            while i < v.len()
                invariant
                    i <= v@.len(),
                    out@.len() == i as int,
                    forall|j: int| 0 <= j < i as int ==> out@[j].deep_view() == v@[j].deep_view(),
                decreases v@.len() - i,
            {
                proof {
                    assert(decreases_to!(*t => *v));
                    assert(decreases_to!(*v => v[i as int]));
                }
                out.push(clone_tag(&v[i]));
                i = i + 1;
            }
            let r = Tag::List(out);
            proof {
                let a = r.deep_view();
                let b = t.deep_view();
                assert(a->List_0.len() == b->List_0.len());
                assert forall|j: int| 0 <= j < v@.len() implies a->List_0[j] == b->List_0[j] by {
                }
                assert(a->List_0 =~= b->List_0);
            }
            r
        },
        Tag::Compound(v) => {
            let mut out: Vec<(String, Tag)> = Vec::new();
            let mut i: usize = 0;
            while i < v.len()
                invariant
                    i <= v@.len(),
                    out@.len() == i as int,
                    forall|j: int| 0 <= j < i as int ==> out@[j].0@ == v@[j].0@
                        && out@[j].1.deep_view() == v@[j].1.deep_view(),
                decreases v@.len() - i,
            {
                proof {
                    assert(decreases_to!(*t => *v));
                    assert(decreases_to!(*v => v[i as int]));
                }
                let entry = &v[i];
                out.push((clone_string(&entry.0), clone_tag(&entry.1)));
                i = i + 1;
            }
            let r = Tag::Compound(out);
            proof {
                let a = r.deep_view();
                let b = t.deep_view();
                assert(a->Compound_0.len() == b->Compound_0.len());
                assert forall|j: int| 0 <= j < v@.len() implies a->Compound_0[j]
                    == b->Compound_0[j] by {
                }
                assert(a->Compound_0 =~= b->Compound_0);
            }
            r
        },
        Tag::Ints(v) => Tag::Ints(clone_i32s(v)),
        Tag::Longs(v) => Tag::Longs(clone_i64s(v)),
    }
}

/// Copies a string; the copy has the same characters.
pub fn clone_string(s: &String) -> (r: String)
    ensures
        r@ == s@,
{
    s.clone()
}

/// Copies a byte vector; the copy has the same bytes.
pub fn clone_i8s_free(v: &Vec<u8>) -> (r: Vec<u8>)
    ensures
        r@ == v@,
{
    let mut out: Vec<u8> = Vec::new();
    let mut i: usize = 0;
    while i < v.len()
        invariant
            i <= v@.len(),
            out@ == v@.subrange(0, i as int),
        decreases v@.len() - i,
    {
        out.push(v[i]);
        i = i + 1;
    }
    proof {
        assert(out@ =~= v@);
    }
    out
}

fn clone_i8s(v: &Vec<i8>) -> (r: Vec<i8>)
    ensures
        r@ == v@,
{
    let mut out: Vec<i8> = Vec::new();
    let mut i: usize = 0;
    while i < v.len()
        invariant
            i <= v@.len(),
            out@ == v@.subrange(0, i as int),
        decreases v@.len() - i,
    {
        out.push(v[i]);
        i = i + 1;
    }
    proof {
        assert(out@ =~= v@);
    }
    out
}

fn clone_i32s(v: &Vec<i32>) -> (r: Vec<i32>)
    ensures
        r@ == v@,
{
    let mut out: Vec<i32> = Vec::new();
    let mut i: usize = 0;
    while i < v.len()
        invariant
            i <= v@.len(),
            out@ == v@.subrange(0, i as int),
        decreases v@.len() - i,
    {
        out.push(v[i]);
        i = i + 1;
    }
    proof {
        assert(out@ =~= v@);
    }
    out
}

fn clone_i64s(v: &Vec<i64>) -> (r: Vec<i64>)
    ensures
        r@ == v@,
{
    let mut out: Vec<i64> = Vec::new();
    let mut i: usize = 0;
    while i < v.len()
        invariant
            i <= v@.len(),
            out@ == v@.subrange(0, i as int),
        decreases v@.len() - i,
    {
        out.push(v[i]);
        i = i + 1;
    }
    proof {
        assert(out@ =~= v@);
    }
    out
}

} // verus!
