//! The container adapter: decoding a bundle from the dynamic tagged-value
//! tree and encoding it back. The schema is strict — a compound field the
//! model does not know is an error, never silently ignored — and fields the
//! container omits take their documented defaults. Decoding accepts the
//! compound's fields in any order and, where a later field repeats an
//! earlier name, the later one wins, as it would in the container's own map
//! model; encoding writes one canonical order, and decoding what was encoded
//! gives back exactly the bundle that was encoded.

use vstd::prelude::*;

use crate::bbmodel::{Rect, XYZ};
use crate::moon::{
    spec_parent_type_index, spec_parent_type_of_index, spec_wf_author, Metadata, MetadataV,
    ParentType, TextureDataV, TexturesV,
};
use crate::modify::{lemma_upsert_key_uniq, lemma_upsert_tail_pub, spec_upsert_key, upsert_key};
use crate::moon::spec_uniq_keys;
use crate::strutil::str_eq;
use crate::tag::{clone_string, clone_tag, tag_view, Tag, TagV};

verus! {

broadcast use vstd::group_vstd_default;

/// Why a tagged-value tree is not a bundle.
#[derive(Debug, PartialEq)]
pub enum DecodeError {
    /// A compound holds a field the schema does not know.
    UnknownField(String),
    /// A required field is missing.
    MissingField(String),
    /// A field holds a tag of the wrong type, or of the wrong shape (a
    /// coordinate list of the wrong length, an identifier of other than
    /// four words).
    WrongTag(String),
    /// A part's fields match more than one variant's required fields.
    AmbiguousVariant,
    /// A parent-type value falls outside the enumeration.
    UnknownParentType,
}

/// The mathematical value of a [`DecodeError`].
#[verifier::ext_equal]
pub enum DecodeErrorV {
    UnknownField(Seq<char>),
    MissingField(Seq<char>),
    WrongTag(Seq<char>),
    AmbiguousVariant,
    UnknownParentType,
}

impl DeepView for DecodeError {
    type V = DecodeErrorV;

    open spec fn deep_view(&self) -> DecodeErrorV {
        match self {
            DecodeError::UnknownField(s) => DecodeErrorV::UnknownField(s@),
            DecodeError::MissingField(s) => DecodeErrorV::MissingField(s@),
            DecodeError::WrongTag(s) => DecodeErrorV::WrongTag(s@),
            DecodeError::AmbiguousVariant => DecodeErrorV::AmbiguousVariant,
            DecodeError::UnknownParentType => DecodeErrorV::UnknownParentType,
        }
    }
}

// ---------------------------------------------------------------------------
// Leaf values
// ---------------------------------------------------------------------------

/// The characters of a string tag.
pub open spec fn spec_str_of(t: TagV) -> Option<Seq<char>> {
    match t {
        TagV::Str(s) => Some(s),
        _ => None,
    }
}

/// The bytes of a byte-array tag, reinterpreted unsigned.
pub open spec fn spec_bytes_of(t: TagV) -> Option<Seq<u8>> {
    match t {
        TagV::Bytes(s) => Some(Seq::new(s.len(), |i: int| s[i] as u8)),
        _ => None,
    }
}

/// The truth value of a byte tag: zero is false, everything else true.
pub open spec fn spec_bool_of(t: TagV) -> Option<bool> {
    match t {
        TagV::Byte(b) => Some(b != 0),
        _ => None,
    }
}

/// The bit pattern of a double tag.
pub open spec fn spec_f64_of(t: TagV) -> Option<u64> {
    match t {
        TagV::Double(x) => Some(x),
        _ => None,
    }
}

/// Whether every element of a tag list is a double.
pub open spec fn spec_all_doubles(s: Seq<TagV>) -> bool {
    forall|i: int| 0 <= i < s.len() ==> #[trigger] s[i] is Double
}

/// The coordinate triple of a list of exactly three doubles.
pub open spec fn spec_xyz_of(t: TagV) -> Option<XYZ<u64>> {
    match t {
        TagV::List(s) => {
            if s.len() == 3 && spec_all_doubles(s) {
                Some(XYZ { x: s[0]->Double_0, y: s[1]->Double_0, z: s[2]->Double_0 })
            } else {
                None
            }
        },
        _ => None,
    }
}

/// The UV rectangle of a list of exactly four doubles.
pub open spec fn spec_rect_of(t: TagV) -> Option<Rect> {
    match t {
        TagV::List(s) => {
            if s.len() == 4 && spec_all_doubles(s) {
                Some(
                    Rect {
                        x0: s[0]->Double_0,
                        y0: s[1]->Double_0,
                        x1: s[2]->Double_0,
                        y1: s[3]->Double_0,
                    },
                )
            } else {
                None
            }
        },
        _ => None,
    }
}

/// The bit patterns of a list of doubles.
pub open spec fn spec_doubles_of(t: TagV) -> Option<Seq<u64>> {
    match t {
        TagV::List(s) => {
            if spec_all_doubles(s) {
                Some(Seq::new(s.len(), |i: int| s[i]->Double_0))
            } else {
                None
            }
        },
        _ => None,
    }
}

/// Whether every element of a tag list is a short.
pub open spec fn spec_all_shorts(s: Seq<TagV>) -> bool {
    forall|i: int| 0 <= i < s.len() ==> #[trigger] s[i] is Short
}

/// The values of a list of shorts, reinterpreted unsigned.
pub open spec fn spec_u16s_of(t: TagV) -> Option<Seq<u16>> {
    match t {
        TagV::List(s) => {
            if spec_all_shorts(s) {
                Some(Seq::new(s.len(), |i: int| s[i]->Short_0 as u16))
            } else {
                None
            }
        },
        _ => None,
    }
}

/// The values of an int-array tag, reinterpreted unsigned.
pub open spec fn spec_u32s_of(t: TagV) -> Option<Seq<u32>> {
    match t {
        TagV::Ints(s) => Some(Seq::new(s.len(), |i: int| s[i] as u32)),
        _ => None,
    }
}

/// The face-index array in whichever of its three widths the container
/// used: a byte array, a list of shorts, or an int array, each entry
/// reinterpreted unsigned and widened.
pub open spec fn spec_fac_of(t: TagV) -> Option<Seq<u32>> {
    match t {
        TagV::Bytes(s) => Some(Seq::new(s.len(), |i: int| (s[i] as u8) as u32)),
        TagV::List(s) => {
            if spec_all_shorts(s) {
                Some(Seq::new(s.len(), |i: int| (s[i]->Short_0 as u16) as u32))
            } else {
                None
            }
        },
        TagV::Ints(s) => Some(Seq::new(s.len(), |i: int| s[i] as u32)),
        _ => None,
    }
}

/// The four identifier words of an int array of exactly four entries.
pub open spec fn spec_nr_of(t: TagV) -> Option<(u32, u32, u32, u32)> {
    match t {
        TagV::Ints(s) => {
            if s.len() == 4 {
                Some((s[0] as u32, s[1] as u32, s[2] as u32, s[3] as u32))
            } else {
                None
            }
        },
        _ => None,
    }
}

/// Whether every element of a tag list is a string.
pub open spec fn spec_all_strs(s: Seq<TagV>) -> bool {
    forall|i: int| 0 <= i < s.len() ==> #[trigger] s[i] is Str
}

/// The values of a list of strings.
pub open spec fn spec_strs_of(t: TagV) -> Option<Seq<Seq<char>>> {
    match t {
        TagV::List(s) => {
            if spec_all_strs(s) {
                Some(Seq::new(s.len(), |i: int| s[i]->Str_0))
            } else {
                None
            }
        },
        _ => None,
    }
}

/// The parent type a tag stands for: a byte, short or int holds the slot's
/// position in the enumeration, a string holds its name; `None` if the tag
/// has another type, `Some(None)` if the position or name falls outside the
/// enumeration.
pub open spec fn spec_parent_type_of(t: TagV) -> Option<Option<ParentType>> {
    match t {
        TagV::Byte(b) => Some(spec_parent_type_of_index(b as int)),
        TagV::Short(x) => Some(spec_parent_type_of_index(x as int)),
        TagV::Int(i) => Some(spec_parent_type_of_index(i as int)),
        TagV::Str(s) => Some(spec_parent_type_of_name(s)),
        _ => None,
    }
}

/// The parent type of a stored name.
pub open spec fn spec_parent_type_of_name(s: Seq<char>) -> Option<ParentType> {
    if s == "None"@ {
        Some(ParentType::NoParent)
    } else if s == "Head"@ {
        Some(ParentType::Head)
    } else if s == "Body"@ {
        Some(ParentType::Body)
    } else if s == "LeftArm"@ {
        Some(ParentType::LeftArm)
    } else if s == "RightArm"@ {
        Some(ParentType::RightArm)
    } else if s == "LeftLeg"@ {
        Some(ParentType::LeftLeg)
    } else if s == "RightLeg"@ {
        Some(ParentType::RightLeg)
    } else if s == "LeftElytra"@ {
        Some(ParentType::LeftElytra)
    } else if s == "RightElytra"@ {
        Some(ParentType::RightElytra)
    } else if s == "Cape"@ {
        Some(ParentType::Cape)
    } else if s == "World"@ {
        Some(ParentType::World)
    } else if s == "Hud"@ {
        Some(ParentType::Hud)
    } else if s == "Camera"@ {
        Some(ParentType::Camera)
    } else if s == "Skull"@ {
        Some(ParentType::Skull)
    } else if s == "Portrait"@ {
        Some(ParentType::Portrait)
    } else if s == "Arrow"@ {
        Some(ParentType::Arrow)
    } else if s == "Trident"@ {
        Some(ParentType::Trident)
    } else if s == "Item"@ {
        Some(ParentType::Item)
    } else if s == "LeftItemPivot"@ {
        Some(ParentType::LeftItemPivot)
    } else if s == "RightItemPivot"@ {
        Some(ParentType::RightItemPivot)
    } else if s == "LeftSpyglassPivot"@ {
        Some(ParentType::LeftSpyglassPivot)
    } else if s == "RightSpyglassPivot"@ {
        Some(ParentType::RightSpyglassPivot)
    } else if s == "LeftParrotPivot"@ {
        Some(ParentType::LeftParrotPivot)
    } else if s == "RightParrotPivot"@ {
        Some(ParentType::RightParrotPivot)
    } else if s == "HelmetItemPivot"@ {
        Some(ParentType::HelmetItemPivot)
    } else if s == "HelmetPivot"@ {
        Some(ParentType::HelmetPivot)
    } else if s == "ChestplatePivot"@ {
        Some(ParentType::ChestplatePivot)
    } else if s == "LeftShoulderPivot"@ {
        Some(ParentType::LeftShoulderPivot)
    } else if s == "RightShoulderPivot"@ {
        Some(ParentType::RightShoulderPivot)
    } else if s == "LeggingsPivot"@ {
        Some(ParentType::LeggingsPivot)
    } else if s == "LeftLeggingPivot"@ {
        Some(ParentType::LeftLeggingPivot)
    } else if s == "RightLeggingPivot"@ {
        Some(ParentType::RightLeggingPivot)
    } else if s == "LeftBootPivot"@ {
        Some(ParentType::LeftBootPivot)
    } else if s == "RightBootPivot"@ {
        Some(ParentType::RightBootPivot)
    } else if s == "LeftElytraPivot"@ {
        Some(ParentType::LeftElytraPivot)
    } else if s == "RightElytraPivot"@ {
        Some(ParentType::RightElytraPivot)
    } else {
        None
    }
}

// ---------------------------------------------------------------------------
// The author list
// ---------------------------------------------------------------------------

/// Whether an author entry of the split survives normalization: dropped when
/// empty or the `"?"` placeholder.
pub open spec fn spec_keep_author(t: Seq<char>) -> bool {
    t.len() > 0 && t != seq!['?']
}

/// The normalized author list of the tail `s[i..]` of a newline-separated
/// author string, with `cur` the part of the current entry read so far.
pub open spec fn spec_authors_at(s: Seq<char>, i: int, cur: Seq<char>) -> Seq<Seq<char>>
    decreases s.len() - i,
{
    if i < 0 || i >= s.len() {
        if spec_keep_author(cur) {
            seq![cur]
        } else {
            seq![]
        }
    } else if s[i] == '\n' {
        (if spec_keep_author(cur) {
            seq![cur]
        } else {
            seq![]
        }) + spec_authors_at(s, i + 1, Seq::empty())
    } else {
        spec_authors_at(s, i + 1, cur.push(s[i]))
    }
}

/// The normalized author list of a newline-separated author string.
pub open spec fn spec_authors_of(s: Seq<char>) -> Seq<Seq<char>> {
    spec_authors_at(s, 0, Seq::empty())
}

/// The newline-joined form of the first `n` entries of an author list.
pub open spec fn spec_join_upto(a: Seq<Seq<char>>, n: int) -> Seq<char>
    decreases n,
{
    if n <= 0 || n > a.len() {
        Seq::empty()
    } else if n == 1 {
        a[0]
    } else {
        spec_join_upto(a, n - 1) + seq!['\n'] + a[n - 1]
    }
}

/// The author string a bundle's author list encodes to: the entries joined
/// by newlines, with the empty list written as the `"?"` placeholder.
pub open spec fn spec_join_authors(a: Seq<Seq<char>>) -> Seq<char> {
    if a.len() == 0 {
        seq!['?']
    } else {
        spec_join_upto(a, a.len() as int)
    }
}

/// Splits a newline-separated author string into the normalized author list.
#[verifier::loop_isolation(false)]
pub fn authors_of_string(s: &str) -> (r: Vec<String>)
    ensures
        r.deep_view() == spec_authors_of(s@),
{
    let n = s.unicode_len();
    let mut out: Vec<String> = Vec::new();
    let mut start: usize = 0;
    let mut i: usize = 0;
    proof {
        assert(s@.subrange(0, 0) =~= Seq::<char>::empty());
        assert(out.deep_view() =~= Seq::<Seq<char>>::empty());
        assert(Seq::<Seq<char>>::empty() + spec_authors_at(s@, 0, Seq::empty())
            =~= spec_authors_at(s@, 0, Seq::empty()));
    }
    while i < n
        invariant
            start <= i <= n,
            n == s@.len(),
            spec_authors_of(s@) == out.deep_view() + spec_authors_at(
                s@,
                i as int,
                s@.subrange(start as int, i as int),
            ),
        decreases n - i,
    {
        if s.get_char(i) == '\n' {
            let ghost cur = s@.subrange(start as int, i as int);
            let tok = s.substring_char(start, i);
            if keep_author(tok) {
                let ghost prev = out.deep_view();
                out.push(tok.to_owned());
                proof {
                    assert(out.deep_view() =~= prev.push(cur));
                    assert(prev.push(cur) + spec_authors_at(s@, i as int + 1, Seq::empty())
                        =~= prev + (seq![cur] + spec_authors_at(s@, i as int + 1, Seq::empty())));
                }
            } else {
                proof {
                    assert(out.deep_view() + spec_authors_at(s@, i as int + 1, Seq::empty())
                        =~= out.deep_view() + (seq![] + spec_authors_at(
                        s@,
                        i as int + 1,
                        Seq::empty(),
                    )));
                }
            }
            start = i + 1;
            proof {
                assert(s@.subrange(start as int, i as int + 1) =~= Seq::<char>::empty());
            }
        } else {
            proof {
                assert(s@.subrange(start as int, i as int + 1) =~= s@.subrange(
                    start as int,
                    i as int,
                ).push(s@[i as int]));
            }
        }
        i = i + 1;
    }
    let ghost cur = s@.subrange(start as int, n as int);
    let tok = s.substring_char(start, n);
    if keep_author(tok) {
        let ghost prev = out.deep_view();
        out.push(tok.to_owned());
        proof {
            assert(out.deep_view() =~= prev.push(cur));
            assert(prev.push(cur) =~= prev + seq![cur]);
        }
    }
    out
}

/// Whether an author entry survives normalization.
fn keep_author(tok: &str) -> (r: bool)
    ensures
        r == spec_keep_author(tok@),
{
    let n = tok.unicode_len();
    if n == 0 {
        return false;
    }
    if n == 1 && tok.get_char(0) == '?' {
        proof {
            assert(tok@ =~= seq!['?']);
        }
        return false;
    }
    proof {
        if tok@ == seq!['?'] {
            assert(tok@.len() == 1 && tok@[0] == '?');
        }
    }
    true
}

/// Joins an author list into the container's single string form.
#[verifier::loop_isolation(false)]
pub fn join_authors(a: &Vec<String>) -> (r: String)
    ensures
        r@ == spec_join_authors(a.deep_view()),
{
    if a.len() == 0 {
        proof {
            reveal_strlit("?");
        }
        return "?".to_owned();
    }
    let mut out = clone_string(&a[0]);
    proof {
        assert(out@ == spec_join_upto(a.deep_view(), 1));
    }
    let mut i: usize = 1;
    while i < a.len()
        invariant
            1 <= i <= a@.len(),
            out@ == spec_join_upto(a.deep_view(), i as int),
        decreases a@.len() - i,
    {
        proof {
            reveal_strlit("\n");
        }
        out.append("\n");
        proof {
            assert(out@ =~= spec_join_upto(a.deep_view(), i as int) + seq!['\n']);
        }
        out.append(a[i].as_str());
        i = i + 1;
    }
    out
}

/// In `s[i..]` no character is the newline separator.
pub open spec fn spec_no_nl(s: Seq<char>, i: int, end: int) -> bool {
    forall|j: int| i <= j < end ==> s[j] != '\n'
}

/// Reading a separator-free stretch extends the current entry by exactly
/// that stretch.
proof fn lemma_authors_skip_clean(s: Seq<char>, i: int, end: int, cur: Seq<char>)
    requires
        0 <= i <= end <= s.len(),
        spec_no_nl(s, i, end),
    ensures
        spec_authors_at(s, i, cur) == spec_authors_at(s, end, cur + s.subrange(i, end)),
    decreases end - i,
{
    if i == end {
        assert(cur + s.subrange(i, end) =~= cur);
    } else {
        lemma_authors_skip_clean(s, i + 1, end, cur.push(s[i]));
        assert(cur.push(s[i]) + s.subrange(i + 1, end) =~= cur + s.subrange(i, end));
    }
}

/// The split of a concatenation, started past the first half, is the split
/// of the second half.
proof fn lemma_authors_shift(x: Seq<char>, y: Seq<char>, d: int, cur: Seq<char>)
    requires
        0 <= d <= y.len(),
    ensures
        spec_authors_at(x + y, x.len() + d, cur) == spec_authors_at(y, d, cur),
    decreases y.len() - d,
{
    let s = x + y;
    if d == y.len() {
    } else {
        assert(s[x.len() + d] == y[d]);
        if y[d] == '\n' {
            lemma_authors_shift(x, y, d + 1, Seq::empty());
        } else {
            lemma_authors_shift(x, y, d + 1, cur.push(y[d]));
        }
    }
}

/// A join of entries in normalized form splits back into exactly those
/// entries: the author list survives the round trip through the container's
/// single string.
pub proof fn lemma_authors_round_trip(a: Seq<Seq<char>>)
    requires
        forall|i: int| 0 <= i < a.len() ==> spec_wf_author(#[trigger] a[i]),
    ensures
        spec_authors_of(spec_join_authors(a)) == a,
    decreases a.len(),
{
    if a.len() == 0 {
        let s = seq!['?'];
        assert(spec_authors_at(s, 1, seq!['?']) =~~= Seq::<Seq<char>>::empty());
        assert(spec_authors_at(s, 0, Seq::empty()) =~~= Seq::<Seq<char>>::empty());
        assert(spec_authors_of(spec_join_authors(a)) =~~= a);
    } else if a.len() == 1 {
        let s = spec_join_authors(a);
        assert(s == a[0]);
        lemma_authors_skip_clean(s, 0, s.len() as int, Seq::empty());
        assert(Seq::<char>::empty() + s.subrange(0, s.len() as int) =~= a[0]);
        assert(spec_keep_author(a[0]));
        assert(spec_authors_of(spec_join_authors(a)) =~~= a);
    } else {
        let rest = a.drop_first();
        lemma_join_head(a);
        let s = spec_join_authors(a);
        let head = a[0];
        let tail = spec_join_authors(rest);
        assert(s == head + seq!['\n'] + tail);
        assert(spec_no_nl(s, 0, head.len() as int)) by {
            assert(forall|j: int|
                0 <= j < head.len() ==> #[trigger] s[j] == head[j] && head[j] != '\n');
        }
        lemma_authors_skip_clean(s, 0, head.len() as int, Seq::empty());
        assert(Seq::<char>::empty() + s.subrange(0, head.len() as int) =~= head);
        assert(s[head.len() as int] == '\n');
        assert(spec_authors_at(s, head.len() as int, head) == seq![head] + spec_authors_at(
            s,
            head.len() as int + 1,
            Seq::empty(),
        ));
        assert((head + seq!['\n']) + tail =~= s);
        lemma_authors_shift(head + seq!['\n'], tail, 0, Seq::empty());
        lemma_authors_round_trip(rest);
        assert(forall|i: int| 0 <= i < rest.len() ==> a[i + 1] == #[trigger] rest[i]);
        assert(spec_authors_of(s) =~~= seq![head] + rest);
        assert(seq![head] + rest =~= a);
    }
}

/// For two or more entries the join is the first entry, the separator, and
/// the join of the rest.
proof fn lemma_join_head(a: Seq<Seq<char>>)
    requires
        a.len() >= 2,
    ensures
        spec_join_authors(a) == a[0] + seq!['\n'] + spec_join_authors(a.drop_first()),
    decreases a.len(),
{
    let rest = a.drop_first();
    if a.len() == 2 {
        assert(spec_join_upto(a, 2) == spec_join_upto(a, 1) + seq!['\n'] + a[1]);
        assert(spec_join_authors(rest) == rest[0]);
        assert(rest[0] == a[1]);
    } else {
        lemma_join_head_upto(a, a.len() as int);
    }
}

/// The prefix joins of a list and of its tail line up.
proof fn lemma_join_head_upto(a: Seq<Seq<char>>, n: int)
    requires
        2 <= n <= a.len(),
    ensures
        spec_join_upto(a, n) == a[0] + seq!['\n'] + spec_join_upto(a.drop_first(), n - 1),
    decreases n,
{
    let rest = a.drop_first();
    if n == 2 {
        assert(spec_join_upto(a, 2) == spec_join_upto(a, 1) + seq!['\n'] + a[1]);
        assert(spec_join_upto(rest, 1) == rest[0]);
        assert(rest[0] == a[1]);
        assert(a[0] + seq!['\n'] + a[1] == a[0] + seq!['\n'] + spec_join_upto(rest, 1));
    } else {
        lemma_join_head_upto(a, n - 1);
        assert(rest[n - 2] == a[n - 1]);
        assert((a[0] + seq!['\n'] + spec_join_upto(rest, n - 2)) + seq!['\n'] + a[n - 1] =~= a[0]
            + seq!['\n'] + (spec_join_upto(rest, n - 2) + seq!['\n'] + rest[n - 2]));
    }
}

/// Every entry the split yields is in normalized form: nonempty, not the
/// placeholder, and free of the separator.
pub proof fn lemma_authors_wf(s: Seq<char>, i: int, cur: Seq<char>)
    requires
        forall|j: int| 0 <= j < cur.len() ==> cur[j] != '\n',
    ensures
        forall|k: int|
            0 <= k < spec_authors_at(s, i, cur).len() ==> spec_wf_author(
                #[trigger] spec_authors_at(s, i, cur)[k],
            ),
    decreases s.len() - i,
{
    let out = spec_authors_at(s, i, cur);
    if i < 0 || i >= s.len() {
        assert forall|k: int| 0 <= k < out.len() implies spec_wf_author(#[trigger] out[k]) by {
            assert(out[k] == cur);
        }
    } else if s[i] == '\n' {
        lemma_authors_wf(s, i + 1, Seq::empty());
        let pre: Seq<Seq<char>> = if spec_keep_author(cur) {
            seq![cur]
        } else {
            seq![]
        };
        let rest = spec_authors_at(s, i + 1, Seq::empty());
        assert(out == pre + rest);
        assert forall|k: int| 0 <= k < out.len() implies spec_wf_author(#[trigger] out[k]) by {
            if k < pre.len() {
                assert(out[k] == cur);
            } else {
                assert(out[k] == rest[k - pre.len()]);
            }
        }
    } else {
        assert(forall|j: int|
            0 <= j < cur.push(s[i]).len() ==> #[trigger] cur.push(s[i])[j] != '\n');
        lemma_authors_wf(s, i + 1, cur.push(s[i]));
        assert(out == spec_authors_at(s, i + 1, cur.push(s[i])));
    }
}

// ---------------------------------------------------------------------------
// Executable leaf readers
// ---------------------------------------------------------------------------

/// Reads a string tag.
pub(crate) fn tag_str(t: &Tag) -> (r: Option<String>)
    ensures
        r.deep_view() == spec_str_of(t.deep_view()),
{
    match t {
        Tag::Str(s) => Some(clone_string(s)),
        _ => None,
    }
}

/// Reads a byte-array tag as unsigned bytes.
#[verifier::loop_isolation(false)]
pub(crate) fn tag_bytes(t: &Tag) -> (r: Option<Vec<u8>>)
    ensures
        r.deep_view() == spec_bytes_of(t.deep_view()),
{
    match t {
        Tag::Bytes(v) => {
            let mut out: Vec<u8> = Vec::new();
            let mut i: usize = 0;
            while i < v.len()
                invariant
                    i <= v@.len(),
                    out@ =~= spec_bytes_of(t.deep_view())->Some_0.subrange(0, i as int),
                decreases v@.len() - i,
            {
                out.push(v[i] as u8);
                proof {
                    assert(out@ =~= spec_bytes_of(t.deep_view())->Some_0.subrange(
                        0,
                        i as int + 1,
                    ));
                }
                i = i + 1;
            }
            proof {
                assert(out@ =~= spec_bytes_of(t.deep_view())->Some_0);
            }
            Some(out)
        },
        _ => None,
    }
}

/// Reads a byte tag as a truth value.
pub(crate) fn tag_bool(t: &Tag) -> (r: Option<bool>)
    ensures
        r == spec_bool_of(t.deep_view()),
{
    match t {
        Tag::Byte(b) => Some(*b != 0),
        _ => None,
    }
}

/// Reads a double tag's bit pattern.
pub(crate) fn tag_f64(t: &Tag) -> (r: Option<u64>)
    ensures
        r == spec_f64_of(t.deep_view()),
{
    match t {
        Tag::Double(x) => Some(*x),
        _ => None,
    }
}

/// Reads a list of exactly three doubles as a coordinate triple.
pub fn tag_xyz(t: &Tag) -> (r: Option<XYZ<u64>>)
    ensures
        r == spec_xyz_of(t.deep_view()),
{
    match t {
        Tag::List(v) => {
            if v.len() != 3 {
                return None;
            }
            let ghost s = t.deep_view()->List_0;
            proof {
                assert(s[0] == tag_view(v[0 as int]));
                assert(s[1] == tag_view(v[1 as int]));
                assert(s[2] == tag_view(v[2 as int]));
            }
            match (&v[0], &v[1], &v[2]) {
                (Tag::Double(a), Tag::Double(b), Tag::Double(c)) => {
                    proof {
                        assert forall|i: int| 0 <= i < s.len() implies #[trigger] s[i]
                            is Double by {
                            assert(i == 0 || i == 1 || i == 2);
                        }
                    }
                    Some(XYZ { x: *a, y: *b, z: *c })
                },
                _ => {
                    proof {
                        assert(!spec_all_doubles(s));
                    }
                    None
                },
            }
        },
        _ => None,
    }
}

/// Reads a list of exactly four doubles as a UV rectangle.
pub(crate) fn tag_rect(t: &Tag) -> (r: Option<Rect>)
    ensures
        r == spec_rect_of(t.deep_view()),
{
    match t {
        Tag::List(v) => {
            if v.len() != 4 {
                return None;
            }
            let ghost s = t.deep_view()->List_0;
            proof {
                assert(s[0] == tag_view(v[0 as int]));
                assert(s[1] == tag_view(v[1 as int]));
                assert(s[2] == tag_view(v[2 as int]));
                assert(s[3] == tag_view(v[3 as int]));
            }
            match (&v[0], &v[1], &v[2], &v[3]) {
                (Tag::Double(a), Tag::Double(b), Tag::Double(c), Tag::Double(d)) => {
                    proof {
                        assert forall|i: int| 0 <= i < s.len() implies #[trigger] s[i]
                            is Double by {
                            assert(i == 0 || i == 1 || i == 2 || i == 3);
                        }
                    }
                    Some(Rect { x0: *a, y0: *b, x1: *c, y1: *d })
                },
                _ => {
                    proof {
                        assert(!spec_all_doubles(s));
                    }
                    None
                },
            }
        },
        _ => None,
    }
}

/// Reads a list of doubles as bit patterns.
#[verifier::loop_isolation(false)]
pub(crate) fn tag_doubles(t: &Tag) -> (r: Option<Vec<u64>>)
    ensures
        r.deep_view() == spec_doubles_of(t.deep_view()),
{
    match t {
        Tag::List(v) => {
            let ghost s = t.deep_view()->List_0;
            let mut out: Vec<u64> = Vec::new();
            let mut i: usize = 0;
            while i < v.len()
                invariant
                    i <= v@.len(),
                    s.len() == v@.len(),
                    forall|j: int| 0 <= j < i as int ==> #[trigger] s[j] is Double,
                    out@ =~= Seq::new(i as nat, |j: int| s[j]->Double_0),
                decreases v@.len() - i,
            {
                proof {
                    assert(s[i as int] == tag_view(v[i as int]));
                }
                match &v[i] {
                    Tag::Double(x) => {
                        out.push(*x);
                        proof {
                            assert(out@ =~= Seq::new((i + 1) as nat, |j: int| s[j]->Double_0));
                        }
                    },
                    _ => {
                        proof {
                            assert(!spec_all_doubles(s));
                        }
                        return None;
                    },
                }
                i = i + 1;
            }
            proof {
                assert(spec_all_doubles(s));
                assert(out@ =~= Seq::new(s.len(), |j: int| s[j]->Double_0));
            }
            Some(out)
        },
        _ => None,
    }
}

/// Reads a list of shorts as unsigned values.
#[verifier::loop_isolation(false)]
pub(crate) fn tag_u16s(t: &Tag) -> (r: Option<Vec<u16>>)
    ensures
        r.deep_view() == spec_u16s_of(t.deep_view()),
{
    match t {
        Tag::List(v) => {
            let ghost s = t.deep_view()->List_0;
            let mut out: Vec<u16> = Vec::new();
            let mut i: usize = 0;
            while i < v.len()
                invariant
                    i <= v@.len(),
                    s.len() == v@.len(),
                    forall|j: int| 0 <= j < i as int ==> #[trigger] s[j] is Short,
                    out@ =~= Seq::new(i as nat, |j: int| s[j]->Short_0 as u16),
                decreases v@.len() - i,
            {
                proof {
                    assert(s[i as int] == tag_view(v[i as int]));
                }
                match &v[i] {
                    Tag::Short(x) => {
                        out.push(*x as u16);
                        proof {
                            assert(out@ =~= Seq::new(
                                (i + 1) as nat,
                                |j: int| s[j]->Short_0 as u16,
                            ));
                        }
                    },
                    _ => {
                        proof {
                            assert(!spec_all_shorts(s));
                        }
                        return None;
                    },
                }
                i = i + 1;
            }
            proof {
                assert(spec_all_shorts(s));
                assert(out@ =~= Seq::new(s.len(), |j: int| s[j]->Short_0 as u16));
            }
            Some(out)
        },
        _ => None,
    }
}

/// Reads an int array as unsigned values.
#[verifier::loop_isolation(false)]
pub fn tag_u32s(t: &Tag) -> (r: Option<Vec<u32>>)
    ensures
        r.deep_view() == spec_u32s_of(t.deep_view()),
{
    match t {
        Tag::Ints(v) => {
            let ghost s = t.deep_view()->Ints_0;
            let mut out: Vec<u32> = Vec::new();
            let mut i: usize = 0;
            while i < v.len()
                invariant
                    i <= v@.len(),
                    s == v@,
                    out@ =~= Seq::new(i as nat, |j: int| s[j] as u32),
                decreases v@.len() - i,
            {
                out.push(v[i] as u32);
                proof {
                    assert(out@ =~= Seq::new((i + 1) as nat, |j: int| s[j] as u32));
                }
                i = i + 1;
            }
            proof {
                assert(out@ =~= Seq::new(s.len(), |j: int| s[j] as u32));
            }
            Some(out)
        },
        _ => None,
    }
}

/// Reads a face-index array in whichever width the container used.
#[verifier::loop_isolation(false)]
fn tag_fac(t: &Tag) -> (r: Option<Vec<u32>>)
    ensures
        r.deep_view() == spec_fac_of(t.deep_view()),
{
    match t {
        Tag::Bytes(v) => {
            let ghost s = t.deep_view()->Bytes_0;
            let mut out: Vec<u32> = Vec::new();
            let mut i: usize = 0;
            while i < v.len()
                invariant
                    i <= v@.len(),
                    s == v@,
                    out@ =~= Seq::new(i as nat, |j: int| (s[j] as u8) as u32),
                decreases v@.len() - i,
            {
                out.push((v[i] as u8) as u32);
                proof {
                    assert(out@ =~= Seq::new((i + 1) as nat, |j: int| (s[j] as u8) as u32));
                }
                i = i + 1;
            }
            proof {
                assert(out@ =~= Seq::new(s.len(), |j: int| (s[j] as u8) as u32));
            }
            Some(out)
        },
        Tag::List(v) => {
            let ghost s = t.deep_view()->List_0;
            let mut out: Vec<u32> = Vec::new();
            let mut i: usize = 0;
            while i < v.len()
                invariant
                    i <= v@.len(),
                    s.len() == v@.len(),
                    forall|j: int| 0 <= j < i as int ==> #[trigger] s[j] is Short,
                    out@ =~= Seq::new(i as nat, |j: int| (s[j]->Short_0 as u16) as u32),
                decreases v@.len() - i,
            {
                proof {
                    assert(s[i as int] == tag_view(v[i as int]));
                }
                match &v[i] {
                    Tag::Short(x) => {
                        out.push((*x as u16) as u32);
                        proof {
                            assert(out@ =~= Seq::new(
                                (i + 1) as nat,
                                |j: int| (s[j]->Short_0 as u16) as u32,
                            ));
                        }
                    },
                    _ => {
                        proof {
                            assert(!spec_all_shorts(s));
                        }
                        return None;
                    },
                }
                i = i + 1;
            }
            proof {
                assert(spec_all_shorts(s));
                assert(out@ =~= Seq::new(s.len(), |j: int| (s[j]->Short_0 as u16) as u32));
            }
            Some(out)
        },
        Tag::Ints(v) => {
            let ghost s = t.deep_view()->Ints_0;
            let mut out: Vec<u32> = Vec::new();
            let mut i: usize = 0;
            while i < v.len()
                invariant
                    i <= v@.len(),
                    s == v@,
                    out@ =~= Seq::new(i as nat, |j: int| s[j] as u32),
                decreases v@.len() - i,
            {
                out.push(v[i] as u32);
                proof {
                    assert(out@ =~= Seq::new((i + 1) as nat, |j: int| s[j] as u32));
                }
                i = i + 1;
            }
            proof {
                assert(out@ =~= Seq::new(s.len(), |j: int| s[j] as u32));
            }
            Some(out)
        },
        _ => None,
    }
}

/// Reads an int array of exactly four entries as identifier words.
pub fn tag_nr(t: &Tag) -> (r: Option<(u32, u32, u32, u32)>)
    ensures
        r == spec_nr_of(t.deep_view()),
{
    match t {
        Tag::Ints(v) => {
            if v.len() != 4 {
                return None;
            }
            Some((v[0] as u32, v[1] as u32, v[2] as u32, v[3] as u32))
        },
        _ => None,
    }
}

/// Reads a list of strings.
#[verifier::loop_isolation(false)]
pub fn tag_strs(t: &Tag) -> (r: Option<Vec<String>>)
    ensures
        match r {
            Some(v) => spec_strs_of(t.deep_view()) == Some(v.deep_view()),
            None => spec_strs_of(t.deep_view()) is None,
        },
{
    match t {
        Tag::List(v) => {
            let ghost s = t.deep_view()->List_0;
            let mut out: Vec<String> = Vec::new();
            let mut i: usize = 0;
            while i < v.len()
                invariant
                    i <= v@.len(),
                    s.len() == v@.len(),
                    forall|j: int| 0 <= j < i as int ==> #[trigger] s[j] is Str,
                    out.deep_view() =~= Seq::new(i as nat, |j: int| s[j]->Str_0),
                decreases v@.len() - i,
            {
                proof {
                    assert(s[i as int] == tag_view(v[i as int]));
                }
                match &v[i] {
                    Tag::Str(x) => {
                        let ghost prev = out.deep_view();
                        out.push(clone_string(x));
                        proof {
                            assert(out.deep_view() =~= prev.push(s[i as int]->Str_0));
                            assert(out.deep_view() =~= Seq::new(
                                (i + 1) as nat,
                                |j: int| s[j]->Str_0,
                            ));
                        }
                    },
                    _ => {
                        proof {
                            assert(!spec_all_strs(s));
                        }
                        return None;
                    },
                }
                i = i + 1;
            }
            proof {
                assert(spec_all_strs(s));
                assert(out.deep_view() =~= Seq::new(s.len(), |j: int| s[j]->Str_0));
            }
            Some(out)
        },
        _ => None,
    }
}

/// The parent type at an enumeration position, as executable code.
pub fn parent_type_of_index(i: i64) -> (r: Option<ParentType>)
    ensures
        r == spec_parent_type_of_index(i as int),
{
    if i == 0 {
        Some(ParentType::NoParent)
    } else if i == 1 {
        Some(ParentType::Head)
    } else if i == 2 {
        Some(ParentType::Body)
    } else if i == 3 {
        Some(ParentType::LeftArm)
    } else if i == 4 {
        Some(ParentType::RightArm)
    } else if i == 5 {
        Some(ParentType::LeftLeg)
    } else if i == 6 {
        Some(ParentType::RightLeg)
    } else if i == 7 {
        Some(ParentType::LeftElytra)
    } else if i == 8 {
        Some(ParentType::RightElytra)
    } else if i == 9 {
        Some(ParentType::Cape)
    } else if i == 10 {
        Some(ParentType::World)
    } else if i == 11 {
        Some(ParentType::Hud)
    } else if i == 12 {
        Some(ParentType::Camera)
    } else if i == 13 {
        Some(ParentType::Skull)
    } else if i == 14 {
        Some(ParentType::Portrait)
    } else if i == 15 {
        Some(ParentType::Arrow)
    } else if i == 16 {
        Some(ParentType::Trident)
    } else if i == 17 {
        Some(ParentType::Item)
    } else if i == 18 {
        Some(ParentType::LeftItemPivot)
    } else if i == 19 {
        Some(ParentType::RightItemPivot)
    } else if i == 20 {
        Some(ParentType::LeftSpyglassPivot)
    } else if i == 21 {
        Some(ParentType::RightSpyglassPivot)
    } else if i == 22 {
        Some(ParentType::LeftParrotPivot)
    } else if i == 23 {
        Some(ParentType::RightParrotPivot)
    } else if i == 24 {
        Some(ParentType::HelmetItemPivot)
    } else if i == 25 {
        Some(ParentType::HelmetPivot)
    } else if i == 26 {
        Some(ParentType::ChestplatePivot)
    } else if i == 27 {
        Some(ParentType::LeftShoulderPivot)
    } else if i == 28 {
        Some(ParentType::RightShoulderPivot)
    } else if i == 29 {
        Some(ParentType::LeggingsPivot)
    } else if i == 30 {
        Some(ParentType::LeftLeggingPivot)
    } else if i == 31 {
        Some(ParentType::RightLeggingPivot)
    } else if i == 32 {
        Some(ParentType::LeftBootPivot)
    } else if i == 33 {
        Some(ParentType::RightBootPivot)
    } else if i == 34 {
        Some(ParentType::LeftElytraPivot)
    } else if i == 35 {
        Some(ParentType::RightElytraPivot)
    } else {
        None
    }
}

/// The parent type of a stored name, as executable code.
pub fn parent_type_of_name(s: &str) -> (r: Option<ParentType>)
    ensures
        r == spec_parent_type_of_name(s@),
{
    if str_eq(s, "None") {
        Some(ParentType::NoParent)
    } else if str_eq(s, "Head") {
        Some(ParentType::Head)
    } else if str_eq(s, "Body") {
        Some(ParentType::Body)
    } else if str_eq(s, "LeftArm") {
        Some(ParentType::LeftArm)
    } else if str_eq(s, "RightArm") {
        Some(ParentType::RightArm)
    } else if str_eq(s, "LeftLeg") {
        Some(ParentType::LeftLeg)
    } else if str_eq(s, "RightLeg") {
        Some(ParentType::RightLeg)
    } else if str_eq(s, "LeftElytra") {
        Some(ParentType::LeftElytra)
    } else if str_eq(s, "RightElytra") {
        Some(ParentType::RightElytra)
    } else if str_eq(s, "Cape") {
        Some(ParentType::Cape)
    } else if str_eq(s, "World") {
        Some(ParentType::World)
    } else if str_eq(s, "Hud") {
        Some(ParentType::Hud)
    } else if str_eq(s, "Camera") {
        Some(ParentType::Camera)
    } else if str_eq(s, "Skull") {
        Some(ParentType::Skull)
    } else if str_eq(s, "Portrait") {
        Some(ParentType::Portrait)
    } else if str_eq(s, "Arrow") {
        Some(ParentType::Arrow)
    } else if str_eq(s, "Trident") {
        Some(ParentType::Trident)
    } else if str_eq(s, "Item") {
        Some(ParentType::Item)
    } else if str_eq(s, "LeftItemPivot") {
        Some(ParentType::LeftItemPivot)
    } else if str_eq(s, "RightItemPivot") {
        Some(ParentType::RightItemPivot)
    } else if str_eq(s, "LeftSpyglassPivot") {
        Some(ParentType::LeftSpyglassPivot)
    } else if str_eq(s, "RightSpyglassPivot") {
        Some(ParentType::RightSpyglassPivot)
    } else if str_eq(s, "LeftParrotPivot") {
        Some(ParentType::LeftParrotPivot)
    } else if str_eq(s, "RightParrotPivot") {
        Some(ParentType::RightParrotPivot)
    } else if str_eq(s, "HelmetItemPivot") {
        Some(ParentType::HelmetItemPivot)
    } else if str_eq(s, "HelmetPivot") {
        Some(ParentType::HelmetPivot)
    } else if str_eq(s, "ChestplatePivot") {
        Some(ParentType::ChestplatePivot)
    } else if str_eq(s, "LeftShoulderPivot") {
        Some(ParentType::LeftShoulderPivot)
    } else if str_eq(s, "RightShoulderPivot") {
        Some(ParentType::RightShoulderPivot)
    } else if str_eq(s, "LeggingsPivot") {
        Some(ParentType::LeggingsPivot)
    } else if str_eq(s, "LeftLeggingPivot") {
        Some(ParentType::LeftLeggingPivot)
    } else if str_eq(s, "RightLeggingPivot") {
        Some(ParentType::RightLeggingPivot)
    } else if str_eq(s, "LeftBootPivot") {
        Some(ParentType::LeftBootPivot)
    } else if str_eq(s, "RightBootPivot") {
        Some(ParentType::RightBootPivot)
    } else if str_eq(s, "LeftElytraPivot") {
        Some(ParentType::LeftElytraPivot)
    } else if str_eq(s, "RightElytraPivot") {
        Some(ParentType::RightElytraPivot)
    } else {
        None
    }
}

/// Reads a parent-type tag.
pub fn tag_parent_type(t: &Tag) -> (r: Option<Option<ParentType>>)
    ensures
        r == spec_parent_type_of(t.deep_view()),
{
    match t {
        Tag::Byte(b) => Some(parent_type_of_index(*b as i64)),
        Tag::Short(x) => Some(parent_type_of_index(*x as i64)),
        Tag::Int(i) => Some(parent_type_of_index(*i as i64)),
        Tag::Str(s) => Some(parent_type_of_name(s.as_str())),
        _ => None,
    }
}

/// The enumeration position of a parent type, as executable code.
pub fn parent_type_index(pt: &ParentType) -> (i: i32)
    ensures
        i as int == spec_parent_type_index(*pt),
{
    match pt {
        ParentType::NoParent => 0,
        ParentType::Head => 1,
        ParentType::Body => 2,
        ParentType::LeftArm => 3,
        ParentType::RightArm => 4,
        ParentType::LeftLeg => 5,
        ParentType::RightLeg => 6,
        ParentType::LeftElytra => 7,
        ParentType::RightElytra => 8,
        ParentType::Cape => 9,
        ParentType::World => 10,
        ParentType::Hud => 11,
        ParentType::Camera => 12,
        ParentType::Skull => 13,
        ParentType::Portrait => 14,
        ParentType::Arrow => 15,
        ParentType::Trident => 16,
        ParentType::Item => 17,
        ParentType::LeftItemPivot => 18,
        ParentType::RightItemPivot => 19,
        ParentType::LeftSpyglassPivot => 20,
        ParentType::RightSpyglassPivot => 21,
        ParentType::LeftParrotPivot => 22,
        ParentType::RightParrotPivot => 23,
        ParentType::HelmetItemPivot => 24,
        ParentType::HelmetPivot => 25,
        ParentType::ChestplatePivot => 26,
        ParentType::LeftShoulderPivot => 27,
        ParentType::RightShoulderPivot => 28,
        ParentType::LeggingsPivot => 29,
        ParentType::LeftLeggingPivot => 30,
        ParentType::RightLeggingPivot => 31,
        ParentType::LeftBootPivot => 32,
        ParentType::RightBootPivot => 33,
        ParentType::LeftElytraPivot => 34,
        ParentType::RightElytraPivot => 35,
    }
}

// ---------------------------------------------------------------------------
// Metadata
// ---------------------------------------------------------------------------

/// The metadata record before any field is read: every field at its
/// documented default.
pub open spec fn spec_default_meta() -> MetadataV {
    MetadataV {
        uuid: Seq::empty(),
        authors: Seq::empty(),
        color: None,
        bg: None,
        id: None,
        name: Seq::empty(),
        description: Seq::empty(),
        ver: Seq::empty(),
    }
}

/// Folds one metadata field into the record; an unknown name is an error
/// under the strict schema.
pub open spec fn spec_meta_field(acc: MetadataV, k: Seq<char>, v: TagV) -> Result<
    MetadataV,
    DecodeErrorV,
> {
    if k == "uuid"@ {
        match spec_str_of(v) {
            None => Err(DecodeErrorV::WrongTag(k)),
            Some(x) => Ok(MetadataV { uuid: x, ..acc }),
        }
    } else if k == "authors"@ {
        match spec_str_of(v) {
            None => Err(DecodeErrorV::WrongTag(k)),
            Some(x) => Ok(MetadataV { authors: spec_authors_of(x), ..acc }),
        }
    } else if k == "color"@ {
        match spec_str_of(v) {
            None => Err(DecodeErrorV::WrongTag(k)),
            Some(x) => Ok(MetadataV { color: Some(x), ..acc }),
        }
    } else if k == "bg"@ {
        match spec_str_of(v) {
            None => Err(DecodeErrorV::WrongTag(k)),
            Some(x) => Ok(MetadataV { bg: Some(x), ..acc }),
        }
    } else if k == "id"@ {
        match spec_str_of(v) {
            None => Err(DecodeErrorV::WrongTag(k)),
            Some(x) => Ok(MetadataV { id: Some(x), ..acc }),
        }
    } else if k == "name"@ {
        match spec_str_of(v) {
            None => Err(DecodeErrorV::WrongTag(k)),
            Some(x) => Ok(MetadataV { name: x, ..acc }),
        }
    } else if k == "description"@ {
        match spec_str_of(v) {
            None => Err(DecodeErrorV::WrongTag(k)),
            Some(x) => Ok(MetadataV { description: x, ..acc }),
        }
    } else if k == "ver"@ {
        match spec_str_of(v) {
            None => Err(DecodeErrorV::WrongTag(k)),
            Some(x) => Ok(MetadataV { ver: x, ..acc }),
        }
    } else {
        Err(DecodeErrorV::UnknownField(k))
    }
}

/// Folds the metadata fields `fs[i..]` into the record.
pub open spec fn spec_meta_fields(fs: Seq<(Seq<char>, TagV)>, i: int, acc: MetadataV) -> Result<
    MetadataV,
    DecodeErrorV,
>
    decreases fs.len() - i,
{
    if i < 0 || i >= fs.len() {
        Ok(acc)
    } else {
        match spec_meta_field(acc, fs[i].0, fs[i].1) {
            Err(e) => Err(e),
            Ok(a2) => spec_meta_fields(fs, i + 1, a2),
        }
    }
}

/// The metadata record a tag decodes to: a compound whose fields fold into
/// the record, any order, later duplicates winning.
pub open spec fn spec_dec_meta(t: TagV) -> Result<MetadataV, DecodeErrorV> {
    match t {
        TagV::Compound(fs) => spec_meta_fields(fs, 0, spec_default_meta()),
        _ => Err(DecodeErrorV::WrongTag("metadata"@)),
    }
}

/// Decodes a bundle's metadata record. The decoded author list is always in
/// normalized form.
#[verifier::loop_isolation(false)]
pub fn decode_metadata(t: &Tag) -> (r: Result<Metadata, DecodeError>)
    ensures
        match r {
            Ok(m) => spec_dec_meta(t.deep_view()) == Ok::<_, DecodeErrorV>(m.deep_view())
                && m.wf(),
            Err(e) => spec_dec_meta(t.deep_view()) == Err::<MetadataV, _>(e.deep_view()),
        },
{
    let fields = match t {
        Tag::Compound(fs) => fs,
        _ => {
            return Err(DecodeError::WrongTag("metadata".to_owned()));
        },
    };
    let ghost fsv = t.deep_view()->Compound_0;
    let mut uuid = String::new();
    let mut authors: Vec<String> = Vec::new();
    let mut color: Option<String> = None;
    let mut bg: Option<String> = None;
    let mut id: Option<String> = None;
    let mut name = String::new();
    let mut description = String::new();
    let mut ver = String::new();
    let mut i: usize = 0;
    proof {
        assert(MetadataV {
            uuid: uuid@,
            authors: authors.deep_view(),
            color: color.deep_view(),
            bg: bg.deep_view(),
            id: id.deep_view(),
            name: name@,
            description: description@,
            ver: ver@,
        } =~= spec_default_meta());
    }
    while i < fields.len()
        invariant
            i <= fields@.len(),
            fsv.len() == fields@.len(),
            spec_meta_fields(fsv, 0, spec_default_meta()) == spec_meta_fields(
                fsv,
                i as int,
                MetadataV {
                    uuid: uuid@,
                    authors: authors.deep_view(),
                    color: color.deep_view(),
                    bg: bg.deep_view(),
                    id: id.deep_view(),
                    name: name@,
                    description: description@,
                    ver: ver@,
                },
            ),
            forall|k: int|
                0 <= k < authors.deep_view().len() ==> spec_wf_author(
                    #[trigger] authors.deep_view()[k],
                ),
        decreases fields@.len() - i,
    {
        let key = &fields[i].0;
        let val = &fields[i].1;
        proof {
            assert(fsv[i as int] == (key@, tag_view(fields@[i as int].1)));
        }
        if str_eq(key.as_str(), "uuid") {
            match tag_str(val) {
                Some(x) => {
                    uuid = x;
                },
                None => {
                    return Err(DecodeError::WrongTag(clone_string(key)));
                },
            }
        } else if str_eq(key.as_str(), "authors") {
            match tag_str(val) {
                Some(x) => {
                    authors = authors_of_string(x.as_str());
                    proof {
                        lemma_authors_wf(x@, 0, Seq::empty());
                    }
                },
                None => {
                    return Err(DecodeError::WrongTag(clone_string(key)));
                },
            }
        } else if str_eq(key.as_str(), "color") {
            match tag_str(val) {
                Some(x) => {
                    color = Some(x);
                },
                None => {
                    return Err(DecodeError::WrongTag(clone_string(key)));
                },
            }
        } else if str_eq(key.as_str(), "bg") {
            match tag_str(val) {
                Some(x) => {
                    bg = Some(x);
                },
                None => {
                    return Err(DecodeError::WrongTag(clone_string(key)));
                },
            }
        } else if str_eq(key.as_str(), "id") {
            match tag_str(val) {
                Some(x) => {
                    id = Some(x);
                },
                None => {
                    return Err(DecodeError::WrongTag(clone_string(key)));
                },
            }
        } else if str_eq(key.as_str(), "name") {
            match tag_str(val) {
                Some(x) => {
                    name = x;
                },
                None => {
                    return Err(DecodeError::WrongTag(clone_string(key)));
                },
            }
        } else if str_eq(key.as_str(), "description") {
            match tag_str(val) {
                Some(x) => {
                    description = x;
                },
                None => {
                    return Err(DecodeError::WrongTag(clone_string(key)));
                },
            }
        } else if str_eq(key.as_str(), "ver") {
            match tag_str(val) {
                Some(x) => {
                    ver = x;
                },
                None => {
                    return Err(DecodeError::WrongTag(clone_string(key)));
                },
            }
        } else {
            return Err(DecodeError::UnknownField(clone_string(key)));
        }
        i = i + 1;
    }
    let m = Metadata { uuid, authors, color, bg, id, name, description, ver };
    Ok(m)
}

/// The field sequence of a compound under construction, as the tag tree's
/// mathematical value presents it.
pub open spec fn spec_fields_view(fs: Seq<(String, Tag)>) -> Seq<(Seq<char>, TagV)> {
    Seq::new(
        fs.len(),
        |i: int|
            if 0 <= i < fs.len() {
                (fs[i].0@, tag_view(fs[i].1))
            } else {
                arbitrary()
            },
    )
}

/// Folding one more field at the end folds the earlier fields first, then
/// the new one.
proof fn lemma_meta_fold_snoc(fs: Seq<(Seq<char>, TagV)>, kv: (Seq<char>, TagV), i: int, acc: MetadataV)
    requires
        0 <= i <= fs.len(),
    ensures
        spec_meta_fields(fs.push(kv), i, acc) == (match spec_meta_fields(fs, i, acc) {
            Err(e) => Err::<MetadataV, DecodeErrorV>(e),
            Ok(a) => spec_meta_field(a, kv.0, kv.1),
        }),
    decreases fs.len() - i,
{
    if i == fs.len() {
        assert(fs.push(kv)[i] == kv);
        assert(spec_meta_fields(fs.push(kv), i + 1, acc) == Ok::<_, DecodeErrorV>(acc))
            by {
            let a2 = acc;
            assert(spec_meta_fields(fs.push(kv), i + 1, a2) == Ok::<_, DecodeErrorV>(a2));
        }
        match spec_meta_field(acc, kv.0, kv.1) {
            Err(e) => {},
            Ok(a2) => {
                assert(spec_meta_fields(fs.push(kv), i + 1, a2) == Ok::<_, DecodeErrorV>(a2));
            },
        }
    } else {
        assert(fs.push(kv)[i] == fs[i]);
        match spec_meta_field(acc, fs[i].0, fs[i].1) {
            Err(e) => {},
            Ok(a2) => {
                lemma_meta_fold_snoc(fs, kv, i + 1, a2);
            },
        }
    }
}

/// The metadata field names are pairwise distinct.
proof fn lemma_meta_names_distinct()
    ensures
        "authors"@ != "uuid"@,
        "color"@ != "uuid"@,
        "color"@ != "authors"@,
        "bg"@ != "uuid"@,
        "bg"@ != "authors"@,
        "bg"@ != "color"@,
        "id"@ != "uuid"@,
        "id"@ != "authors"@,
        "id"@ != "color"@,
        "id"@ != "bg"@,
        "name"@ != "uuid"@,
        "name"@ != "authors"@,
        "name"@ != "color"@,
        "name"@ != "bg"@,
        "name"@ != "id"@,
        "description"@ != "uuid"@,
        "description"@ != "authors"@,
        "description"@ != "color"@,
        "description"@ != "bg"@,
        "description"@ != "id"@,
        "description"@ != "name"@,
        "ver"@ != "uuid"@,
        "ver"@ != "authors"@,
        "ver"@ != "color"@,
        "ver"@ != "bg"@,
        "ver"@ != "id"@,
        "ver"@ != "name"@,
        "ver"@ != "description"@,
{
    reveal_strlit("uuid");
    reveal_strlit("authors");
    reveal_strlit("color");
    reveal_strlit("bg");
    reveal_strlit("id");
    reveal_strlit("name");
    reveal_strlit("description");
    reveal_strlit("ver");
    assert("uuid"@.len() == 4);
    assert("authors"@.len() == 7);
    assert("color"@.len() == 5);
    assert("bg"@.len() == 2);
    assert("id"@.len() == 2);
    assert("name"@.len() == 4);
    assert("description"@.len() == 11);
    assert("ver"@.len() == 3);
    assert("bg"@[0] == 'b' && "id"@[0] == 'i');
    assert("uuid"@[0] == 'u' && "name"@[0] == 'n');
}

/// Appends one field to a metadata compound under construction, folding the
/// record state forward.
fn push_meta_field(
    fs: &mut Vec<(String, Tag)>,
    name: &str,
    tag: Tag,
    Ghost(d): Ghost<MetadataV>,
    Ghost(acc): Ghost<MetadataV>,
    Ghost(acc2): Ghost<MetadataV>,
)
    requires
        spec_meta_fields(spec_fields_view(old(fs)@), 0, d) == Ok::<_, DecodeErrorV>(acc),
        spec_meta_field(acc, name@, tag.deep_view()) == Ok::<_, DecodeErrorV>(acc2),
    ensures
        spec_meta_fields(spec_fields_view(final(fs)@), 0, d) == Ok::<_, DecodeErrorV>(acc2),
{
    let ghost tv = tag.deep_view();
    let ghost snap = spec_fields_view(fs@);
    let owned = name.to_owned();
    fs.push((owned, tag));
    proof {
        lemma_meta_fold_snoc(snap, (name@, tv), 0, d);
        assert(spec_fields_view(fs@) =~= snap.push((name@, tv)));
    }
}

/// Encodes a bundle's metadata record; decoding the result gives it back
/// exactly.
pub fn encode_metadata(m: &Metadata) -> (r: Tag)
    requires
        m.wf(),
    ensures
        spec_dec_meta(r.deep_view()) == Ok::<_, DecodeErrorV>(m.deep_view()),
{
    let ghost d = spec_default_meta();
    let mut fs: Vec<(String, Tag)> = Vec::new();
    proof {
        lemma_meta_names_distinct();
        assert(spec_fields_view(fs@) =~= Seq::<(Seq<char>, TagV)>::empty());
    }
    let ghost acc1 = MetadataV { uuid: m.uuid@, ..d };
    proof {
        lemma_meta_names_distinct();
    }
    push_meta_field(
        &mut fs,
        "uuid",
        Tag::Str(clone_string(&m.uuid)),
        Ghost(d),
        Ghost(d),
        Ghost(acc1),
    );
    let ghost acc2 = MetadataV { authors: m.authors.deep_view(), ..acc1 };
    proof {
        lemma_meta_names_distinct();
        lemma_authors_round_trip(m.authors.deep_view());
        let v = TagV::Str(spec_join_authors(m.authors.deep_view()));
        assert("authors"@ != "uuid"@);
        assert(spec_str_of(v) == Some(spec_join_authors(m.authors.deep_view())));
        assert(spec_authors_of(spec_join_authors(m.authors.deep_view()))
            == m.authors.deep_view());
        assert(spec_meta_field(acc1, "authors"@, v) == Ok::<_, DecodeErrorV>(
            MetadataV { authors: spec_authors_of(spec_join_authors(m.authors.deep_view())), ..acc1 },
        ));
        assert(MetadataV {
            authors: spec_authors_of(spec_join_authors(m.authors.deep_view())),
            ..acc1
        } == acc2);
        assert(spec_meta_field(
            acc1,
            "authors"@,
            TagV::Str(spec_join_authors(m.authors.deep_view())),
        ) == Ok::<_, DecodeErrorV>(acc2));
    }
    push_meta_field(
        &mut fs,
        "authors",
        Tag::Str(join_authors(&m.authors)),
        Ghost(d),
        Ghost(acc1),
        Ghost(acc2),
    );
    let ghost acc3 = MetadataV { color: m.color.deep_view(), ..acc2 };
    match &m.color {
        Some(c) => {
            proof {
                lemma_meta_names_distinct();
                assert(spec_meta_field(acc2, "color"@, TagV::Str(c@)) == Ok::<_, DecodeErrorV>(
                    acc3,
                ));
            }
            push_meta_field(
                &mut fs,
                "color",
                Tag::Str(clone_string(c)),
                Ghost(d),
                Ghost(acc2),
                Ghost(acc3),
            );
        },
        None => {
            proof {
                lemma_meta_names_distinct();
                assert(acc3 =~= acc2);
            }
        },
    }
    let ghost acc4 = MetadataV { bg: m.bg.deep_view(), ..acc3 };
    match &m.bg {
        Some(c) => {
            proof {
                lemma_meta_names_distinct();
                assert(spec_meta_field(acc3, "bg"@, TagV::Str(c@)) == Ok::<_, DecodeErrorV>(
                    acc4,
                ));
            }
            push_meta_field(
                &mut fs,
                "bg",
                Tag::Str(clone_string(c)),
                Ghost(d),
                Ghost(acc3),
                Ghost(acc4),
            );
        },
        None => {
            proof {
                lemma_meta_names_distinct();
                assert(acc4 =~= acc3);
            }
        },
    }
    let ghost acc5 = MetadataV { id: m.id.deep_view(), ..acc4 };
    match &m.id {
        Some(c) => {
            proof {
                lemma_meta_names_distinct();
                assert(spec_meta_field(acc4, "id"@, TagV::Str(c@)) == Ok::<_, DecodeErrorV>(
                    acc5,
                ));
            }
            push_meta_field(
                &mut fs,
                "id",
                Tag::Str(clone_string(c)),
                Ghost(d),
                Ghost(acc4),
                Ghost(acc5),
            );
        },
        None => {
            proof {
                lemma_meta_names_distinct();
                assert(acc5 =~= acc4);
            }
        },
    }
    let ghost acc6 = MetadataV { name: m.name@, ..acc5 };
    proof {
        lemma_meta_names_distinct();
        assert(spec_meta_field(acc5, "name"@, TagV::Str(m.name@)) == Ok::<_, DecodeErrorV>(acc6));
    }
    push_meta_field(
        &mut fs,
        "name",
        Tag::Str(clone_string(&m.name)),
        Ghost(d),
        Ghost(acc5),
        Ghost(acc6),
    );
    let ghost acc7 = MetadataV { description: m.description@, ..acc6 };
    proof {
        lemma_meta_names_distinct();
        assert(spec_meta_field(acc6, "description"@, TagV::Str(m.description@)) == Ok::<
            _,
            DecodeErrorV,
        >(acc7));
    }
    push_meta_field(
        &mut fs,
        "description",
        Tag::Str(clone_string(&m.description)),
        Ghost(d),
        Ghost(acc6),
        Ghost(acc7),
    );
    let ghost acc8 = MetadataV { ver: m.ver@, ..acc7 };
    proof {
        lemma_meta_names_distinct();
        assert(spec_meta_field(acc7, "ver"@, TagV::Str(m.ver@)) == Ok::<_, DecodeErrorV>(acc8));
    }
    push_meta_field(
        &mut fs,
        "ver",
        Tag::Str(clone_string(&m.ver)),
        Ghost(d),
        Ghost(acc7),
        Ghost(acc8),
    );
    proof {
        lemma_meta_names_distinct();
        assert(acc8 =~= m.deep_view());
    }
    let r = Tag::Compound(fs);
    proof {
        lemma_meta_names_distinct();
        assert(r.deep_view()->Compound_0 =~= spec_fields_view(fs@));
    }
    r
}


// ---------------------------------------------------------------------------
// Named byte maps (scripts, resources, texture sources)
// ---------------------------------------------------------------------------

/// Folds the fields `fs[i..]` of a compound whose every value is a byte
/// array into a name-to-bytes list. First occurrences keep the container's
/// order; a later field of a name already seen replaces the earlier value,
/// as it would in the container's own map model.
pub open spec fn spec_bytes_map_fields(
    fs: Seq<(Seq<char>, TagV)>,
    i: int,
    acc: Seq<(Seq<char>, Seq<u8>)>,
) -> Result<Seq<(Seq<char>, Seq<u8>)>, DecodeErrorV>
    decreases fs.len() - i,
{
    if i < 0 || i >= fs.len() {
        Ok(acc)
    } else {
        match spec_bytes_of(fs[i].1) {
            None => Err(DecodeErrorV::WrongTag(fs[i].0)),
            Some(b) => spec_bytes_map_fields(fs, i + 1, spec_upsert_key(acc, fs[i].0, b, 0)),
        }
    }
}

/// The fold keeps entry names distinct.
proof fn lemma_bytes_map_fold_uniq(
    fs: Seq<(Seq<char>, TagV)>,
    i: int,
    acc: Seq<(Seq<char>, Seq<u8>)>,
)
    requires
        0 <= i <= fs.len(),
        spec_uniq_keys(acc),
    ensures
        spec_bytes_map_fields(fs, i, acc) matches Ok(r) ==> spec_uniq_keys(r),
    decreases fs.len() - i,
{
    if i == fs.len() {
    } else {
        match spec_bytes_of(fs[i].1) {
            None => {},
            Some(b) => {
                lemma_upsert_key_uniq(acc, fs[i].0, b, 0);
                lemma_bytes_map_fold_uniq(fs, i + 1, spec_upsert_key(acc, fs[i].0, b, 0));
            },
        }
    }
}

/// The name-to-bytes list a tag decodes to.
pub open spec fn spec_dec_bytes_map(t: TagV) -> Result<Seq<(Seq<char>, Seq<u8>)>, DecodeErrorV> {
    match t {
        TagV::Compound(fs) => spec_bytes_map_fields(fs, 0, Seq::empty()),
        _ => Err(DecodeErrorV::WrongTag("src"@)),
    }
}

/// Decodes a compound of byte arrays into a name-to-bytes list. The entry
/// names come out distinct: a repeated name keeps its last value.
#[verifier::loop_isolation(false)]
pub fn decode_bytes_map(t: &Tag) -> (r: Result<Vec<(String, Vec<u8>)>, DecodeError>)
    ensures
        match r {
            Ok(m) => spec_dec_bytes_map(t.deep_view()) == Ok::<_, DecodeErrorV>(m.deep_view())
                && spec_uniq_keys(m.deep_view()),
            Err(e) => spec_dec_bytes_map(t.deep_view()) == Err::<Seq<(Seq<char>, Seq<u8>)>, _>(
                e.deep_view(),
            ),
        },
{
    let fields = match t {
        Tag::Compound(fs) => fs,
        _ => {
            return Err(DecodeError::WrongTag("src".to_owned()));
        },
    };
    let ghost fsv = t.deep_view()->Compound_0;
    let mut out: Vec<(String, Vec<u8>)> = Vec::new();
    let mut i: usize = 0;
    proof {
        assert(out.deep_view() =~= Seq::<(Seq<char>, Seq<u8>)>::empty());
    }
    while i < fields.len()
        invariant
            i <= fields@.len(),
            fsv.len() == fields@.len(),
            spec_bytes_map_fields(fsv, 0, Seq::empty()) == spec_bytes_map_fields(
                fsv,
                i as int,
                out.deep_view(),
            ),
        decreases fields@.len() - i,
    {
        let key = &fields[i].0;
        let val = &fields[i].1;
        proof {
            assert(fsv[i as int] == (key@, tag_view(fields@[i as int].1)));
        }
        match tag_bytes(val) {
            Some(b) => {
                let ghost prev = out.deep_view();
                let ghost bv = b@;
                upsert_key(&mut out, clone_string(key), b);
                proof {
                    assert(out.deep_view() == spec_upsert_key(prev, key@, bv, 0));
                    assert(bv == spec_bytes_of(fsv[i as int].1)->Some_0);
                }
            },
            None => {
                return Err(DecodeError::WrongTag(clone_string(key)));
            },
        }
        i = i + 1;
    }
    proof {
        lemma_bytes_map_fold_uniq(fsv, 0, Seq::empty());
    }
    Ok(out)
}

/// Folding one more field at the end folds the earlier fields first, then
/// the new one.
proof fn lemma_bytes_map_fold_snoc(
    fs: Seq<(Seq<char>, TagV)>,
    kv: (Seq<char>, TagV),
    i: int,
    acc: Seq<(Seq<char>, Seq<u8>)>,
)
    requires
        0 <= i <= fs.len(),
    ensures
        spec_bytes_map_fields(fs.push(kv), i, acc) == (match spec_bytes_map_fields(fs, i, acc) {
            Err(e) => Err::<Seq<(Seq<char>, Seq<u8>)>, DecodeErrorV>(e),
            Ok(a) => match spec_bytes_of(kv.1) {
                None => Err(DecodeErrorV::WrongTag(kv.0)),
                Some(b) => Ok(spec_upsert_key(a, kv.0, b, 0)),
            },
        }),
    decreases fs.len() - i,
{
    if i == fs.len() {
        assert(fs.push(kv)[i] == kv);
        match spec_bytes_of(kv.1) {
            None => {},
            Some(b) => {
                let a2 = spec_upsert_key(acc, kv.0, b, 0);
                assert(spec_bytes_map_fields(fs.push(kv), i + 1, a2) == Ok::<_, DecodeErrorV>(a2));
            },
        }
    } else {
        assert(fs.push(kv)[i] == fs[i]);
        match spec_bytes_of(fs[i].1) {
            None => {},
            Some(b) => {
                lemma_bytes_map_fold_snoc(fs, kv, i + 1, spec_upsert_key(acc, fs[i].0, b, 0));
            },
        }
    }
}

/// Turns unsigned bytes back into the container's signed byte array.
#[verifier::loop_isolation(false)]
pub(crate) fn bytes_tag(b: &Vec<u8>) -> (r: Tag)
    ensures
        spec_bytes_of(r.deep_view()) == Some(b@),
{
    let mut out: Vec<i8> = Vec::new();
    let mut i: usize = 0;
    while i < b.len()
        invariant
            i <= b@.len(),
            out@.len() == i as int,
            forall|j: int| 0 <= j < i as int ==> #[trigger] out@[j] as u8 == b@[j],
        decreases b@.len() - i,
    {
        let x = b[i];
        proof {
            assert((x as i8) as u8 == x) by (bit_vector);
        }
        out.push(x as i8);
        i = i + 1;
    }
    let r = Tag::Bytes(out);
    proof {
        assert(spec_bytes_of(r.deep_view())->Some_0 =~= b@);
    }
    r
}

/// Encodes a name-to-bytes list with distinct names as a compound of byte
/// arrays; decoding the result gives back exactly the list, in order.
#[verifier::loop_isolation(false)]
pub fn encode_bytes_map(m: &Vec<(String, Vec<u8>)>) -> (r: Tag)
    requires
        spec_uniq_keys(m.deep_view()),
    ensures
        spec_dec_bytes_map(r.deep_view()) == Ok::<_, DecodeErrorV>(m.deep_view()),
{
    let mut fs: Vec<(String, Tag)> = Vec::new();
    let mut i: usize = 0;
    proof {
        assert(spec_fields_view(fs@) =~= Seq::<(Seq<char>, TagV)>::empty());
        assert(m.deep_view().subrange(0, 0) =~= Seq::<(Seq<char>, Seq<u8>)>::empty());
    }
    while i < m.len()
        invariant
            i <= m@.len(),
            spec_bytes_map_fields(spec_fields_view(fs@), 0, Seq::empty()) == Ok::<
                _,
                DecodeErrorV,
            >(m.deep_view().subrange(0, i as int)),
        decreases m@.len() - i,
    {
        let entry = &m[i];
        let ghost snap = spec_fields_view(fs@);
        let tag = bytes_tag(&entry.1);
        let ghost tv = tag.deep_view();
        fs.push((clone_string(&entry.0), tag));
        proof {
            lemma_bytes_map_fold_snoc(snap, (entry.0@, tv), 0, Seq::empty());
            assert(spec_fields_view(fs@) =~= snap.push((entry.0@, tv)));
            assert(m.deep_view()[i as int] == (entry.0@, entry.1@));
            let prefix = m.deep_view().subrange(0, i as int);
            assert forall|j: int| 0 <= j < prefix.len() implies (#[trigger] prefix[j]).0
                != entry.0@ by {
                assert(prefix[j] == m.deep_view()[j]);
            }
            lemma_upsert_tail_pub(prefix, entry.0@, entry.1@, 0);
            assert(prefix.subrange(0, prefix.len() as int) =~= prefix);
            assert(spec_upsert_key(prefix, entry.0@, entry.1@, 0) =~= prefix.push(
                (entry.0@, entry.1@),
            ));
            assert(m.deep_view().subrange(0, i as int).push((entry.0@, entry.1@))
                =~= m.deep_view().subrange(0, i as int + 1));
        }
        i = i + 1;
    }
    proof {
        assert(m.deep_view().subrange(0, m@.len() as int) =~= m.deep_view());
    }
    let r = Tag::Compound(fs);
    proof {
        assert(r.deep_view()->Compound_0 =~= spec_fields_view(fs@));
    }
    r
}

// ---------------------------------------------------------------------------
// Texture slots
// ---------------------------------------------------------------------------

/// Folds one texture-slot field.
pub open spec fn spec_texdata_field(
    acc: (Option<Seq<char>>, Option<Seq<char>>),
    k: Seq<char>,
    v: TagV,
) -> Result<(Option<Seq<char>>, Option<Seq<char>>), DecodeErrorV> {
    if k == "d"@ {
        match spec_str_of(v) {
            None => Err(DecodeErrorV::WrongTag(k)),
            Some(x) => Ok((Some(x), acc.1)),
        }
    } else if k == "e"@ {
        match spec_str_of(v) {
            None => Err(DecodeErrorV::WrongTag(k)),
            Some(x) => Ok((acc.0, Some(x))),
        }
    } else {
        Err(DecodeErrorV::UnknownField(k))
    }
}

/// Folds the texture-slot fields `fs[i..]`.
pub open spec fn spec_texdata_fields(
    fs: Seq<(Seq<char>, TagV)>,
    i: int,
    acc: (Option<Seq<char>>, Option<Seq<char>>),
) -> Result<(Option<Seq<char>>, Option<Seq<char>>), DecodeErrorV>
    decreases fs.len() - i,
{
    if i < 0 || i >= fs.len() {
        Ok(acc)
    } else {
        match spec_texdata_field(acc, fs[i].0, fs[i].1) {
            Err(e) => Err(e),
            Ok(a2) => spec_texdata_fields(fs, i + 1, a2),
        }
    }
}

/// The texture slot a tag decodes to: the primary layer name is required,
/// the secondary optional.
pub open spec fn spec_dec_texdata(t: TagV) -> Result<TextureDataV, DecodeErrorV> {
    match t {
        TagV::Compound(fs) => match spec_texdata_fields(fs, 0, (None, None)) {
            Err(e) => Err(e),
            Ok((None, _)) => Err(DecodeErrorV::MissingField("d"@)),
            Ok((Some(dd), ee)) => Ok(TextureDataV { d: dd, e: ee }),
        },
        _ => Err(DecodeErrorV::WrongTag("data"@)),
    }
}

proof fn lemma_texdata_fold_snoc(
    fs: Seq<(Seq<char>, TagV)>,
    kv: (Seq<char>, TagV),
    i: int,
    acc: (Option<Seq<char>>, Option<Seq<char>>),
)
    requires
        0 <= i <= fs.len(),
    ensures
        spec_texdata_fields(fs.push(kv), i, acc) == (match spec_texdata_fields(fs, i, acc) {
            Err(e) => Err::<(Option<Seq<char>>, Option<Seq<char>>), DecodeErrorV>(e),
            Ok(a) => spec_texdata_field(a, kv.0, kv.1),
        }),
    decreases fs.len() - i,
{
    if i == fs.len() {
        assert(fs.push(kv)[i] == kv);
        match spec_texdata_field(acc, kv.0, kv.1) {
            Err(e) => {},
            Ok(a2) => {
                assert(spec_texdata_fields(fs.push(kv), i + 1, a2) == Ok::<_, DecodeErrorV>(a2));
            },
        }
    } else {
        assert(fs.push(kv)[i] == fs[i]);
        match spec_texdata_field(acc, fs[i].0, fs[i].1) {
            Err(e) => {},
            Ok(a2) => {
                lemma_texdata_fold_snoc(fs, kv, i + 1, a2);
            },
        }
    }
}

/// The texture-slot field names are distinct.
proof fn lemma_texdata_names_distinct()
    ensures
        "e"@ != "d"@,
{
    reveal_strlit("d");
    reveal_strlit("e");
    assert("d"@.len() == 1);
    assert("e"@.len() == 1);
    assert("d"@[0] == 'd' && "e"@[0] == 'e');
}

/// Decodes one texture slot.
#[verifier::loop_isolation(false)]
pub fn decode_texdata(t: &Tag) -> (r: Result<crate::moon::TextureData, DecodeError>)
    ensures
        match r {
            Ok(td) => spec_dec_texdata(t.deep_view()) == Ok::<_, DecodeErrorV>(td.deep_view()),
            Err(e) => spec_dec_texdata(t.deep_view()) == Err::<TextureDataV, _>(e.deep_view()),
        },
{
    let fields = match t {
        Tag::Compound(fs) => fs,
        _ => {
            return Err(DecodeError::WrongTag("data".to_owned()));
        },
    };
    let ghost fsv = t.deep_view()->Compound_0;
    let mut dd: Option<String> = None;
    let mut ee: Option<String> = None;
    let mut i: usize = 0;
    while i < fields.len()
        invariant
            i <= fields@.len(),
            fsv.len() == fields@.len(),
            spec_texdata_fields(fsv, 0, (None, None)) == spec_texdata_fields(
                fsv,
                i as int,
                (dd.deep_view(), ee.deep_view()),
            ),
        decreases fields@.len() - i,
    {
        let key = &fields[i].0;
        let val = &fields[i].1;
        proof {
            assert(fsv[i as int] == (key@, tag_view(fields@[i as int].1)));
        }
        if str_eq(key.as_str(), "d") {
            match tag_str(val) {
                Some(x) => {
                    dd = Some(x);
                },
                None => {
                    return Err(DecodeError::WrongTag(clone_string(key)));
                },
            }
        } else if str_eq(key.as_str(), "e") {
            match tag_str(val) {
                Some(x) => {
                    ee = Some(x);
                },
                None => {
                    return Err(DecodeError::WrongTag(clone_string(key)));
                },
            }
        } else {
            return Err(DecodeError::UnknownField(clone_string(key)));
        }
        i = i + 1;
    }
    match dd {
        Some(dv) => Ok(crate::moon::TextureData { d: dv, e: ee }),
        None => Err(DecodeError::MissingField("d".to_owned())),
    }
}

/// Encodes one texture slot; decoding the result gives it back exactly.
pub fn encode_texdata(td: &crate::moon::TextureData) -> (r: Tag)
    ensures
        spec_dec_texdata(r.deep_view()) == Ok::<_, DecodeErrorV>(td.deep_view()),
{
    let mut fs: Vec<(String, Tag)> = Vec::new();
    proof {
        assert(spec_fields_view(fs@) =~= Seq::<(Seq<char>, TagV)>::empty());
    }
    let ghost snap0 = spec_fields_view(fs@);
    fs.push(("d".to_owned(), Tag::Str(clone_string(&td.d))));
    proof {
        lemma_texdata_fold_snoc(snap0, ("d"@, TagV::Str(td.d@)), 0, (None, None));
        assert(spec_fields_view(fs@) =~= snap0.push(("d"@, TagV::Str(td.d@))));
        assert(spec_texdata_fields(spec_fields_view(fs@), 0, (None, None)) == Ok::<
            _,
            DecodeErrorV,
        >((Some(td.d@), None::<Seq<char>>)));
    }
    let ghost snap1 = spec_fields_view(fs@);
    match &td.e {
        Some(c) => {
            fs.push(("e".to_owned(), Tag::Str(clone_string(c))));
            proof {
                lemma_texdata_names_distinct();
                lemma_texdata_fold_snoc(snap1, ("e"@, TagV::Str(c@)), 0, (None, None));
                assert(spec_fields_view(fs@) =~= snap1.push(("e"@, TagV::Str(c@))));
            }
        },
        None => {},
    }
    proof {
        assert(spec_texdata_fields(spec_fields_view(fs@), 0, (None, None)) == Ok::<
            _,
            DecodeErrorV,
        >((Some(td.d@), td.e.deep_view())));
    }
    let r = Tag::Compound(fs);
    proof {
        assert(r.deep_view()->Compound_0 =~= spec_fields_view(fs@));
    }
    r
}

// ---------------------------------------------------------------------------
// The textures section
// ---------------------------------------------------------------------------

/// The texture-slot list a tag list decodes to, element by element.
pub open spec fn spec_texdata_list(s: Seq<TagV>, i: int) -> Result<Seq<TextureDataV>, DecodeErrorV>
    decreases s.len() - i,
{
    if i < 0 || i >= s.len() {
        Ok(Seq::empty())
    } else {
        match spec_dec_texdata(s[i]) {
            Err(e) => Err(e),
            Ok(td) => match spec_texdata_list(s, i + 1) {
                Err(e) => Err(e),
                Ok(rest) => Ok(seq![td] + rest),
            },
        }
    }
}

/// Folds one textures-section field: the raw sources map or the slot list.
pub open spec fn spec_textures_field(acc: TexturesV, k: Seq<char>, v: TagV) -> Result<
    TexturesV,
    DecodeErrorV,
> {
    if k == "src"@ {
        match spec_dec_bytes_map(v) {
            Err(e) => Err(e),
            Ok(m) => Ok(TexturesV { src: m, ..acc }),
        }
    } else if k == "data"@ {
        match v {
            TagV::List(s) => match spec_texdata_list(s, 0) {
                Err(e) => Err(e),
                Ok(d) => Ok(TexturesV { data: d, ..acc }),
            },
            _ => Err(DecodeErrorV::WrongTag(k)),
        }
    } else {
        Err(DecodeErrorV::UnknownField(k))
    }
}

/// Folds the textures-section fields `fs[i..]`.
pub open spec fn spec_textures_fields(fs: Seq<(Seq<char>, TagV)>, i: int, acc: TexturesV) -> Result<
    TexturesV,
    DecodeErrorV,
>
    decreases fs.len() - i,
{
    if i < 0 || i >= fs.len() {
        Ok(acc)
    } else {
        match spec_textures_field(acc, fs[i].0, fs[i].1) {
            Err(e) => Err(e),
            Ok(a2) => spec_textures_fields(fs, i + 1, a2),
        }
    }
}

/// The empty textures section.
pub open spec fn spec_default_textures() -> TexturesV {
    TexturesV { src: Seq::empty(), data: Seq::empty() }
}

/// The textures section a tag decodes to.
pub open spec fn spec_dec_textures(t: TagV) -> Result<TexturesV, DecodeErrorV> {
    match t {
        TagV::Compound(fs) => spec_textures_fields(fs, 0, spec_default_textures()),
        _ => Err(DecodeErrorV::WrongTag("textures"@)),
    }
}

proof fn lemma_textures_fold_snoc(
    fs: Seq<(Seq<char>, TagV)>,
    kv: (Seq<char>, TagV),
    i: int,
    acc: TexturesV,
)
    requires
        0 <= i <= fs.len(),
    ensures
        spec_textures_fields(fs.push(kv), i, acc) == (match spec_textures_fields(fs, i, acc) {
            Err(e) => Err::<TexturesV, DecodeErrorV>(e),
            Ok(a) => spec_textures_field(a, kv.0, kv.1),
        }),
    decreases fs.len() - i,
{
    if i == fs.len() {
        assert(fs.push(kv)[i] == kv);
        match spec_textures_field(acc, kv.0, kv.1) {
            Err(e) => {},
            Ok(a2) => {
                assert(spec_textures_fields(fs.push(kv), i + 1, a2) == Ok::<_, DecodeErrorV>(a2));
            },
        }
    } else {
        assert(fs.push(kv)[i] == fs[i]);
        match spec_textures_field(acc, fs[i].0, fs[i].1) {
            Err(e) => {},
            Ok(a2) => {
                lemma_textures_fold_snoc(fs, kv, i + 1, a2);
            },
        }
    }
}

/// The textures-section field names are distinct.
proof fn lemma_textures_names_distinct()
    ensures
        "data"@ != "src"@,
{
    reveal_strlit("src");
    reveal_strlit("data");
    assert("src"@.len() == 3);
    assert("data"@.len() == 4);
}

/// Decodes the textures section. The raw-texture names come out distinct.
#[verifier::loop_isolation(false)]
pub fn decode_textures(t: &Tag) -> (r: Result<crate::moon::Textures, DecodeError>)
    ensures
        match r {
            Ok(tx) => spec_dec_textures(t.deep_view()) == Ok::<_, DecodeErrorV>(tx.deep_view())
                && spec_uniq_keys(tx.src.deep_view()),
            Err(e) => spec_dec_textures(t.deep_view()) == Err::<TexturesV, _>(e.deep_view()),
        },
{
    let fields = match t {
        Tag::Compound(fs) => fs,
        _ => {
            return Err(DecodeError::WrongTag("textures".to_owned()));
        },
    };
    let ghost fsv = t.deep_view()->Compound_0;
    let mut src: Vec<(String, Vec<u8>)> = Vec::new();
    let mut data: Vec<crate::moon::TextureData> = Vec::new();
    let mut i: usize = 0;
    proof {
        assert(TexturesV { src: src.deep_view(), data: data.deep_view() }
            =~= spec_default_textures());
    }
    while i < fields.len()
        invariant
            i <= fields@.len(),
            fsv.len() == fields@.len(),
            spec_textures_fields(fsv, 0, spec_default_textures()) == spec_textures_fields(
                fsv,
                i as int,
                TexturesV { src: src.deep_view(), data: data.deep_view() },
            ),
            spec_uniq_keys(src.deep_view()),
        decreases fields@.len() - i,
    {
        let key = &fields[i].0;
        let val = &fields[i].1;
        proof {
            assert(fsv[i as int] == (key@, tag_view(fields@[i as int].1)));
        }
        if str_eq(key.as_str(), "src") {
            match decode_bytes_map(val) {
                Ok(m) => {
                    src = m;
                },
                Err(e) => {
                    return Err(e);
                },
            }
        } else if str_eq(key.as_str(), "data") {
            match val {
                Tag::List(items) => {
                    let ghost sv = tag_view(fields@[i as int].1)->List_0;
                    let mut out: Vec<crate::moon::TextureData> = Vec::new();
                    let mut j: usize = 0;
                    proof {
                        assert(out.deep_view() =~= Seq::<TextureDataV>::empty());
                    }
                    while j < items.len()
                        invariant
                            j <= items@.len(),
                            sv.len() == items@.len(),
                            spec_texdata_list(sv, 0) == (match spec_texdata_list(sv, j as int) {
                                Err(e) => Err::<Seq<TextureDataV>, _>(e),
                                Ok(rest) => Ok::<_, DecodeErrorV>(out.deep_view() + rest),
                            }),
                        decreases items@.len() - j,
                    {
                        proof {
                            assert(sv[j as int] == tag_view(items@[j as int]));
                        }
                        match decode_texdata(&items[j]) {
                            Ok(td) => {
                                let ghost prev = out.deep_view();
                                out.push(td);
                                proof {
                                    assert(out.deep_view() =~= prev.push(
                                        spec_dec_texdata(sv[j as int])->Ok_0,
                                    ));
                                    if let Ok(rest) = spec_texdata_list(sv, j as int + 1) {
                                        assert(prev + (seq![
                                            spec_dec_texdata(sv[j as int])->Ok_0,
                                        ] + rest) =~= out.deep_view() + rest);
                                    }
                                }
                            },
                            Err(e) => {
                                return Err(e);
                            },
                        }
                        j = j + 1;
                    }
                    proof {
                        assert(out.deep_view() + Seq::<TextureDataV>::empty()
                            =~= out.deep_view());
                    }
                    data = out;
                },
                _ => {
                    return Err(DecodeError::WrongTag(clone_string(key)));
                },
            }
        } else {
            return Err(DecodeError::UnknownField(clone_string(key)));
        }
        i = i + 1;
    }
    Ok(crate::moon::Textures { src, data })
}

/// Encodes the textures section; the raw-texture names must be distinct, as
/// the container's map keeps them. Decoding the result gives it back
/// exactly.
#[verifier::loop_isolation(false)]
pub fn encode_textures(tx: &crate::moon::Textures) -> (r: Tag)
    requires
        spec_uniq_keys(tx.src.deep_view()),
    ensures
        spec_dec_textures(r.deep_view()) == Ok::<_, DecodeErrorV>(tx.deep_view()),
{
    let mut fs: Vec<(String, Tag)> = Vec::new();
    proof {
        assert(spec_fields_view(fs@) =~= Seq::<(Seq<char>, TagV)>::empty());
    }
    let ghost snap0 = spec_fields_view(fs@);
    let src_tag = encode_bytes_map(&tx.src);
    let ghost srcv = src_tag.deep_view();
    fs.push(("src".to_owned(), src_tag));
    let ghost acc1 = TexturesV { src: tx.src.deep_view(), ..spec_default_textures() };
    proof {
        lemma_textures_fold_snoc(snap0, ("src"@, srcv), 0, spec_default_textures());
        assert(spec_fields_view(fs@) =~= snap0.push(("src"@, srcv)));
        assert(spec_textures_fields(spec_fields_view(fs@), 0, spec_default_textures()) == Ok::<
            _,
            DecodeErrorV,
        >(acc1));
    }
    let ghost snap1 = spec_fields_view(fs@);
    let mut items: Vec<Tag> = Vec::new();
    let mut j: usize = 0;
    proof {
        assert(spec_fields_view(fs@) == snap1);
    }
    while j < tx.data.len()
        invariant
            j <= tx.data@.len(),
            items@.len() == j as int,
            forall|k: int|
                0 <= k < j as int ==> spec_dec_texdata(#[trigger] tag_view(items@[k])) == Ok::<
                    _,
                    DecodeErrorV,
                >(tx.data.deep_view()[k]),
        decreases tx.data@.len() - j,
    {
        let td_tag = encode_texdata(&tx.data[j]);
        items.push(td_tag);
        j = j + 1;
    }
    let data_tag = Tag::List(items);
    let ghost datav = data_tag.deep_view();
    proof {
        let sv = datav->List_0;
        assert(sv.len() == tx.data@.len());
        assert forall|k: int| 0 <= k < sv.len() implies spec_dec_texdata(#[trigger] sv[k]) == Ok::<
            _,
            DecodeErrorV,
        >(tx.data.deep_view()[k]) by {
            assert(sv[k] == tag_view(items@[k]));
        }
        lemma_texdata_list_all_ok(sv, tx.data.deep_view(), 0);
        assert(tx.data.deep_view().subrange(0, tx.data.deep_view().len() as int)
            =~= tx.data.deep_view());
    }
    fs.push(("data".to_owned(), data_tag));
    let ghost acc2 = TexturesV { data: tx.data.deep_view(), ..acc1 };
    proof {
        lemma_textures_names_distinct();
        lemma_textures_fold_snoc(snap1, ("data"@, datav), 0, spec_default_textures());
        assert(spec_fields_view(fs@) =~= snap1.push(("data"@, datav)));
        assert(spec_textures_fields(spec_fields_view(fs@), 0, spec_default_textures()) == Ok::<
            _,
            DecodeErrorV,
        >(acc2));
        assert(acc2 =~= tx.deep_view());
    }
    let r = Tag::Compound(fs);
    proof {
        assert(r.deep_view()->Compound_0 =~= spec_fields_view(fs@));
    }
    r
}

/// A tag list whose every element decodes to the matching slot decodes, as a
/// list, to exactly those slots.
proof fn lemma_texdata_list_all_ok(sv: Seq<TagV>, expect: Seq<TextureDataV>, i: int)
    requires
        0 <= i <= sv.len(),
        sv.len() == expect.len(),
        forall|k: int|
            0 <= k < sv.len() ==> spec_dec_texdata(#[trigger] sv[k]) == Ok::<_, DecodeErrorV>(
                expect[k],
            ),
    ensures
        spec_texdata_list(sv, i) == Ok::<_, DecodeErrorV>(expect.subrange(i, expect.len() as int)),
    decreases sv.len() - i,
{
    if i == sv.len() {
        assert(expect.subrange(i, expect.len() as int) =~= Seq::<TextureDataV>::empty());
    } else {
        lemma_texdata_list_all_ok(sv, expect, i + 1);
        assert(seq![expect[i]] + expect.subrange(i + 1, expect.len() as int) =~= expect.subrange(
            i,
            expect.len() as int,
        ));
    }
}

// ---------------------------------------------------------------------------
// Cube faces
// ---------------------------------------------------------------------------

/// The running state of a cube-side record: texture and UV rectangle are
/// required, the rotation defaults to zero.
pub type FaceAcc = (Option<u32>, Option<Rect>, u64);

/// Folds one cube-side field.
pub open spec fn spec_face_field(acc: FaceAcc, k: Seq<char>, v: TagV) -> Result<
    FaceAcc,
    DecodeErrorV,
> {
    if k == "tex"@ {
        match v {
            TagV::Int(x) => Ok((Some(x as u32), acc.1, acc.2)),
            _ => Err(DecodeErrorV::WrongTag(k)),
        }
    } else if k == "uv"@ {
        match spec_rect_of(v) {
            None => Err(DecodeErrorV::WrongTag(k)),
            Some(x) => Ok((acc.0, Some(x), acc.2)),
        }
    } else if k == "rot"@ {
        match spec_f64_of(v) {
            None => Err(DecodeErrorV::WrongTag(k)),
            Some(x) => Ok((acc.0, acc.1, x)),
        }
    } else {
        Err(DecodeErrorV::UnknownField(k))
    }
}

/// Folds the cube-side fields `fs[i..]`.
pub open spec fn spec_face_fields(fs: Seq<(Seq<char>, TagV)>, i: int, acc: FaceAcc) -> Result<
    FaceAcc,
    DecodeErrorV,
>
    decreases fs.len() - i,
{
    if i < 0 || i >= fs.len() {
        Ok(acc)
    } else {
        match spec_face_field(acc, fs[i].0, fs[i].1) {
            Err(e) => Err(e),
            Ok(a2) => spec_face_fields(fs, i + 1, a2),
        }
    }
}

/// The cube side a tag decodes to.
pub open spec fn spec_dec_face(t: TagV) -> Result<crate::moon::Face, DecodeErrorV> {
    match t {
        TagV::Compound(fs) => match spec_face_fields(fs, 0, (None, None, 0)) {
            Err(e) => Err(e),
            Ok((None, _, _)) => Err(DecodeErrorV::MissingField("tex"@)),
            Ok((_, None, _)) => Err(DecodeErrorV::MissingField("uv"@)),
            Ok((Some(tex), Some(uv), rot)) => Ok(crate::moon::Face { tex, uv, rot }),
        },
        _ => Err(DecodeErrorV::WrongTag("cube_data"@)),
    }
}

proof fn lemma_face_fold_snoc(
    fs: Seq<(Seq<char>, TagV)>,
    kv: (Seq<char>, TagV),
    i: int,
    acc: FaceAcc,
)
    requires
        0 <= i <= fs.len(),
    ensures
        spec_face_fields(fs.push(kv), i, acc) == (match spec_face_fields(fs, i, acc) {
            Err(e) => Err::<FaceAcc, DecodeErrorV>(e),
            Ok(a) => spec_face_field(a, kv.0, kv.1),
        }),
    decreases fs.len() - i,
{
    if i == fs.len() {
        assert(fs.push(kv)[i] == kv);
        match spec_face_field(acc, kv.0, kv.1) {
            Err(e) => {},
            Ok(a2) => {
                assert(spec_face_fields(fs.push(kv), i + 1, a2) == Ok::<_, DecodeErrorV>(a2));
            },
        }
    } else {
        assert(fs.push(kv)[i] == fs[i]);
        match spec_face_field(acc, fs[i].0, fs[i].1) {
            Err(e) => {},
            Ok(a2) => {
                lemma_face_fold_snoc(fs, kv, i + 1, a2);
            },
        }
    }
}

/// The cube-side field names are distinct.
proof fn lemma_face_names_distinct()
    ensures
        "uv"@ != "tex"@,
        "rot"@ != "tex"@,
        "rot"@ != "uv"@,
{
    reveal_strlit("tex");
    reveal_strlit("uv");
    reveal_strlit("rot");
    assert("tex"@.len() == 3);
    assert("uv"@.len() == 2);
    assert("rot"@.len() == 3);
    assert("tex"@[0] == 't' && "rot"@[0] == 'r');
}

/// Decodes one cube side.
#[verifier::loop_isolation(false)]
pub fn decode_face(t: &Tag) -> (r: Result<crate::moon::Face, DecodeError>)
    ensures
        match r {
            Ok(f) => spec_dec_face(t.deep_view()) == Ok::<_, DecodeErrorV>(f),
            Err(e) => spec_dec_face(t.deep_view()) == Err::<crate::moon::Face, _>(e.deep_view()),
        },
{
    let fields = match t {
        Tag::Compound(fs) => fs,
        _ => {
            return Err(DecodeError::WrongTag("cube_data".to_owned()));
        },
    };
    let ghost fsv = t.deep_view()->Compound_0;
    let mut tex: Option<u32> = None;
    let mut uv: Option<Rect> = None;
    let mut rot: u64 = 0;
    let mut i: usize = 0;
    while i < fields.len()
        invariant
            i <= fields@.len(),
            fsv.len() == fields@.len(),
            spec_face_fields(fsv, 0, (None, None, 0)) == spec_face_fields(
                fsv,
                i as int,
                (tex, uv, rot),
            ),
        decreases fields@.len() - i,
    {
        let key = &fields[i].0;
        let val = &fields[i].1;
        proof {
            assert(fsv[i as int] == (key@, tag_view(fields@[i as int].1)));
        }
        if str_eq(key.as_str(), "tex") {
            match val {
                Tag::Int(x) => {
                    tex = Some(*x as u32);
                },
                _ => {
                    return Err(DecodeError::WrongTag(clone_string(key)));
                },
            }
        } else if str_eq(key.as_str(), "uv") {
            match tag_rect(val) {
                Some(x) => {
                    uv = Some(x);
                },
                None => {
                    return Err(DecodeError::WrongTag(clone_string(key)));
                },
            }
        } else if str_eq(key.as_str(), "rot") {
            match tag_f64(val) {
                Some(x) => {
                    rot = x;
                },
                None => {
                    return Err(DecodeError::WrongTag(clone_string(key)));
                },
            }
        } else {
            return Err(DecodeError::UnknownField(clone_string(key)));
        }
        i = i + 1;
    }
    match (tex, uv) {
        (Some(tv), Some(uvv)) => Ok(crate::moon::Face { tex: tv, uv: uvv, rot }),
        (None, _) => Err(DecodeError::MissingField("tex".to_owned())),
        (_, None) => Err(DecodeError::MissingField("uv".to_owned())),
    }
}

/// A list of four doubles for a UV rectangle.
pub(crate) fn rect_tag(x: &Rect) -> (r: Tag)
    ensures
        spec_rect_of(r.deep_view()) == Some(*x),
{
    let mut v: Vec<Tag> = Vec::new();
    v.push(Tag::Double(x.x0));
    v.push(Tag::Double(x.y0));
    v.push(Tag::Double(x.x1));
    v.push(Tag::Double(x.y1));
    let r = Tag::List(v);
    proof {
        let s = r.deep_view()->List_0;
        assert(s.len() == 4);
        assert(r->List_0@[0] == Tag::Double(x.x0) && r->List_0@[1] == Tag::Double(x.y0)
            && r->List_0@[2] == Tag::Double(x.x1) && r->List_0@[3] == Tag::Double(x.y1));
        assert(s[0] == tag_view(r->List_0@[0]) && s[1] == tag_view(r->List_0@[1]) && s[2]
            == tag_view(r->List_0@[2]) && s[3] == tag_view(r->List_0@[3]));
        assert(s[0] == TagV::Double(x.x0) && s[1] == TagV::Double(x.y0) && s[2] == TagV::Double(
            x.x1,
        ) && s[3] == TagV::Double(x.y1));
        assert forall|i: int| 0 <= i < s.len() implies #[trigger] s[i] is Double by {
            assert(i == 0 || i == 1 || i == 2 || i == 3);
        }
    }
    r
}

/// A list of three doubles for a coordinate triple.
pub(crate) fn xyz_tag(x: &XYZ<u64>) -> (r: Tag)
    ensures
        spec_xyz_of(r.deep_view()) == Some(*x),
{
    let mut v: Vec<Tag> = Vec::new();
    v.push(Tag::Double(x.x));
    v.push(Tag::Double(x.y));
    v.push(Tag::Double(x.z));
    let r = Tag::List(v);
    proof {
        let s = r.deep_view()->List_0;
        assert(s.len() == 3);
        assert(r->List_0@[0] == Tag::Double(x.x) && r->List_0@[1] == Tag::Double(x.y)
            && r->List_0@[2] == Tag::Double(x.z));
        assert(s[0] == tag_view(r->List_0@[0]) && s[1] == tag_view(r->List_0@[1]) && s[2]
            == tag_view(r->List_0@[2]));
        assert(s[0] == TagV::Double(x.x) && s[1] == TagV::Double(x.y) && s[2] == TagV::Double(
            x.z,
        ));
        assert forall|i: int| 0 <= i < s.len() implies #[trigger] s[i] is Double by {
            assert(i == 0 || i == 1 || i == 2);
        }
    }
    r
}

/// Encodes one cube side; decoding the result gives it back exactly.
pub fn encode_face(f: &crate::moon::Face) -> (r: Tag)
    ensures
        spec_dec_face(r.deep_view()) == Ok::<_, DecodeErrorV>(*f),
{
    let mut fs: Vec<(String, Tag)> = Vec::new();
    proof {
        assert(spec_fields_view(fs@) =~= Seq::<(Seq<char>, TagV)>::empty());
    }
    let ghost snap0 = spec_fields_view(fs@);
    proof {
        let xi: i32 = f.tex as i32;
        let xt: u32 = f.tex;
        assert(xi as u32 == xt) by (bit_vector)
            requires
                xi == xt as i32,
        ;
    }
    fs.push(("tex".to_owned(), Tag::Int(f.tex as i32)));
    proof {
        lemma_face_fold_snoc(snap0, ("tex"@, TagV::Int(f.tex as i32)), 0, (None, None, 0));
        assert(spec_fields_view(fs@) =~= snap0.push(("tex"@, TagV::Int(f.tex as i32))));
        assert(spec_face_fields(spec_fields_view(fs@), 0, (None, None, 0)) == Ok::<
            _,
            DecodeErrorV,
        >((Some(f.tex), None::<Rect>, 0u64)));
    }
    let ghost snap1 = spec_fields_view(fs@);
    let uv_tag = rect_tag(&f.uv);
    let ghost uvv = uv_tag.deep_view();
    fs.push(("uv".to_owned(), uv_tag));
    proof {
        lemma_face_names_distinct();
        lemma_face_fold_snoc(snap1, ("uv"@, uvv), 0, (None, None, 0));
        assert(spec_fields_view(fs@) =~= snap1.push(("uv"@, uvv)));
        assert(spec_face_fields(spec_fields_view(fs@), 0, (None, None, 0)) == Ok::<
            _,
            DecodeErrorV,
        >((Some(f.tex), Some(f.uv), 0u64)));
    }
    let ghost snap2 = spec_fields_view(fs@);
    fs.push(("rot".to_owned(), Tag::Double(f.rot)));
    proof {
        lemma_face_names_distinct();
        lemma_face_fold_snoc(snap2, ("rot"@, TagV::Double(f.rot)), 0, (None, None, 0));
        assert(spec_fields_view(fs@) =~= snap2.push(("rot"@, TagV::Double(f.rot))));
        assert(spec_face_fields(spec_fields_view(fs@), 0, (None, None, 0)) == Ok::<
            _,
            DecodeErrorV,
        >((Some(f.tex), Some(f.uv), f.rot)));
    }
    let r = Tag::Compound(fs);
    proof {
        assert(r.deep_view()->Compound_0 =~= spec_fields_view(fs@));
    }
    r
}

// ---------------------------------------------------------------------------
// Cube sides
// ---------------------------------------------------------------------------

/// Folds one side of a cube-side map.
pub open spec fn spec_sided_field(
    acc: crate::moon::Sided<crate::moon::Face>,
    k: Seq<char>,
    v: TagV,
) -> Result<crate::moon::Sided<crate::moon::Face>, DecodeErrorV> {
    if k == "n"@ {
        match spec_dec_face(v) {
            Err(e) => Err(e),
            Ok(f) => Ok(crate::moon::Sided { n: Some(f), ..acc }),
        }
    } else if k == "s"@ {
        match spec_dec_face(v) {
            Err(e) => Err(e),
            Ok(f) => Ok(crate::moon::Sided { s: Some(f), ..acc }),
        }
    } else if k == "u"@ {
        match spec_dec_face(v) {
            Err(e) => Err(e),
            Ok(f) => Ok(crate::moon::Sided { u: Some(f), ..acc }),
        }
    } else if k == "d"@ {
        match spec_dec_face(v) {
            Err(e) => Err(e),
            Ok(f) => Ok(crate::moon::Sided { d: Some(f), ..acc }),
        }
    } else if k == "w"@ {
        match spec_dec_face(v) {
            Err(e) => Err(e),
            Ok(f) => Ok(crate::moon::Sided { w: Some(f), ..acc }),
        }
    } else if k == "e"@ {
        match spec_dec_face(v) {
            Err(e) => Err(e),
            Ok(f) => Ok(crate::moon::Sided { e: Some(f), ..acc }),
        }
    } else {
        Err(DecodeErrorV::UnknownField(k))
    }
}

/// Folds the side fields `fs[i..]`.
pub open spec fn spec_sided_fields(
    fs: Seq<(Seq<char>, TagV)>,
    i: int,
    acc: crate::moon::Sided<crate::moon::Face>,
) -> Result<crate::moon::Sided<crate::moon::Face>, DecodeErrorV>
    decreases fs.len() - i,
{
    if i < 0 || i >= fs.len() {
        Ok(acc)
    } else {
        match spec_sided_field(acc, fs[i].0, fs[i].1) {
            Err(e) => Err(e),
            Ok(a2) => spec_sided_fields(fs, i + 1, a2),
        }
    }
}

/// The empty cube-side map.
pub open spec fn spec_default_sided() -> crate::moon::Sided<crate::moon::Face> {
    crate::moon::Sided { n: None, s: None, u: None, d: None, w: None, e: None }
}

/// The cube-side map a tag decodes to.
pub open spec fn spec_dec_sided(t: TagV) -> Result<
    crate::moon::Sided<crate::moon::Face>,
    DecodeErrorV,
> {
    match t {
        TagV::Compound(fs) => spec_sided_fields(fs, 0, spec_default_sided()),
        _ => Err(DecodeErrorV::WrongTag("cube_data"@)),
    }
}

proof fn lemma_sided_fold_snoc(
    fs: Seq<(Seq<char>, TagV)>,
    kv: (Seq<char>, TagV),
    i: int,
    acc: crate::moon::Sided<crate::moon::Face>,
)
    requires
        0 <= i <= fs.len(),
    ensures
        spec_sided_fields(fs.push(kv), i, acc) == (match spec_sided_fields(fs, i, acc) {
            Err(e) => Err::<crate::moon::Sided<crate::moon::Face>, DecodeErrorV>(e),
            Ok(a) => spec_sided_field(a, kv.0, kv.1),
        }),
    decreases fs.len() - i,
{
    if i == fs.len() {
        assert(fs.push(kv)[i] == kv);
        match spec_sided_field(acc, kv.0, kv.1) {
            Err(e) => {},
            Ok(a2) => {
                assert(spec_sided_fields(fs.push(kv), i + 1, a2) == Ok::<_, DecodeErrorV>(a2));
            },
        }
    } else {
        assert(fs.push(kv)[i] == fs[i]);
        match spec_sided_field(acc, fs[i].0, fs[i].1) {
            Err(e) => {},
            Ok(a2) => {
                lemma_sided_fold_snoc(fs, kv, i + 1, a2);
            },
        }
    }
}

/// The side names are distinct.
proof fn lemma_sided_names_distinct()
    ensures
        "s"@ != "n"@,
        "u"@ != "n"@,
        "u"@ != "s"@,
        "d"@ != "n"@,
        "d"@ != "s"@,
        "d"@ != "u"@,
        "w"@ != "n"@,
        "w"@ != "s"@,
        "w"@ != "u"@,
        "w"@ != "d"@,
        "e"@ != "n"@,
        "e"@ != "s"@,
        "e"@ != "u"@,
        "e"@ != "d"@,
        "e"@ != "w"@,
{
    reveal_strlit("n");
    reveal_strlit("s");
    reveal_strlit("u");
    reveal_strlit("d");
    reveal_strlit("w");
    reveal_strlit("e");
    assert("n"@.len() == 1 && "s"@.len() == 1 && "u"@.len() == 1 && "d"@.len() == 1 && "w"@.len()
        == 1 && "e"@.len() == 1);
    assert("n"@[0] == 'n' && "s"@[0] == 's' && "u"@[0] == 'u' && "d"@[0] == 'd' && "w"@[0] == 'w'
        && "e"@[0] == 'e');
}

/// Decodes a cube-side map.
#[verifier::loop_isolation(false)]
pub fn decode_sided(t: &Tag) -> (r: Result<crate::moon::Sided<crate::moon::Face>, DecodeError>)
    ensures
        match r {
            Ok(sd) => spec_dec_sided(t.deep_view()) == Ok::<_, DecodeErrorV>(sd),
            Err(e) => spec_dec_sided(t.deep_view()) == Err::<
                crate::moon::Sided<crate::moon::Face>,
                _,
            >(e.deep_view()),
        },
{
    let fields = match t {
        Tag::Compound(fs) => fs,
        _ => {
            return Err(DecodeError::WrongTag("cube_data".to_owned()));
        },
    };
    let ghost fsv = t.deep_view()->Compound_0;
    let mut acc = crate::moon::Sided::<crate::moon::Face> {
        n: None,
        s: None,
        u: None,
        d: None,
        w: None,
        e: None,
    };
    let mut i: usize = 0;
    while i < fields.len()
        invariant
            i <= fields@.len(),
            fsv.len() == fields@.len(),
            spec_sided_fields(fsv, 0, spec_default_sided()) == spec_sided_fields(
                fsv,
                i as int,
                acc,
            ),
        decreases fields@.len() - i,
    {
        let key = &fields[i].0;
        let val = &fields[i].1;
        proof {
            assert(fsv[i as int] == (key@, tag_view(fields@[i as int].1)));
        }
        if str_eq(key.as_str(), "n") {
            match decode_face(val) {
                Ok(f) => {
                    acc.n = Some(f);
                },
                Err(e) => {
                    return Err(e);
                },
            }
        } else if str_eq(key.as_str(), "s") {
            match decode_face(val) {
                Ok(f) => {
                    acc.s = Some(f);
                },
                Err(e) => {
                    return Err(e);
                },
            }
        } else if str_eq(key.as_str(), "u") {
            match decode_face(val) {
                Ok(f) => {
                    acc.u = Some(f);
                },
                Err(e) => {
                    return Err(e);
                },
            }
        } else if str_eq(key.as_str(), "d") {
            match decode_face(val) {
                Ok(f) => {
                    acc.d = Some(f);
                },
                Err(e) => {
                    return Err(e);
                },
            }
        } else if str_eq(key.as_str(), "w") {
            match decode_face(val) {
                Ok(f) => {
                    acc.w = Some(f);
                },
                Err(e) => {
                    return Err(e);
                },
            }
        } else if str_eq(key.as_str(), "e") {
            match decode_face(val) {
                Ok(f) => {
                    acc.e = Some(f);
                },
                Err(e) => {
                    return Err(e);
                },
            }
        } else {
            return Err(DecodeError::UnknownField(clone_string(key)));
        }
        i = i + 1;
    }
    Ok(acc)
}

/// Appends one present side to a cube-side compound under construction.
fn push_side(
    fs: &mut Vec<(String, Tag)>,
    name: &str,
    side: &Option<crate::moon::Face>,
    Ghost(acc): Ghost<crate::moon::Sided<crate::moon::Face>>,
    Ghost(acc2): Ghost<crate::moon::Sided<crate::moon::Face>>,
)
    requires
        spec_sided_fields(spec_fields_view(old(fs)@), 0, spec_default_sided()) == Ok::<
            _,
            DecodeErrorV,
        >(acc),
        side matches Some(f) ==> forall|tv: TagV|
            spec_dec_face(tv) == Ok::<_, DecodeErrorV>(*f) ==> #[trigger] spec_sided_field(
                acc,
                name@,
                tv,
            ) == Ok::<_, DecodeErrorV>(acc2),
        side is None ==> acc2 == acc,
    ensures
        spec_sided_fields(spec_fields_view(final(fs)@), 0, spec_default_sided()) == Ok::<
            _,
            DecodeErrorV,
        >(acc2),
{
    match side {
        Some(f) => {
            let ghost snap = spec_fields_view(fs@);
            let tag = encode_face(f);
            let ghost tv = tag.deep_view();
            fs.push((name.to_owned(), tag));
            proof {
                lemma_sided_fold_snoc(snap, (name@, tv), 0, spec_default_sided());
                assert(spec_fields_view(fs@) =~= snap.push((name@, tv)));
            }
        },
        None => {},
    }
}

/// Encodes a cube-side map; decoding the result gives it back exactly.
pub fn encode_sided(sd: &crate::moon::Sided<crate::moon::Face>) -> (r: Tag)
    ensures
        spec_dec_sided(r.deep_view()) == Ok::<_, DecodeErrorV>(*sd),
{
    let ghost d = spec_default_sided();
    let mut fs: Vec<(String, Tag)> = Vec::new();
    proof {
        assert(spec_fields_view(fs@) =~= Seq::<(Seq<char>, TagV)>::empty());
    }
    let ghost a1 = crate::moon::Sided { n: sd.n, ..d };
    proof {
        lemma_sided_names_distinct();
        if let Some(f) = sd.n {
            assert forall|tv: TagV| spec_dec_face(tv) == Ok::<_, DecodeErrorV>(f)
                implies #[trigger] spec_sided_field(d, "n"@, tv) == Ok::<_, DecodeErrorV>(a1) by {}
        }
    }
    push_side(&mut fs, "n", &sd.n, Ghost(d), Ghost(a1));
    let ghost a2 = crate::moon::Sided { s: sd.s, ..a1 };
    proof {
        lemma_sided_names_distinct();
        if let Some(f) = sd.s {
            assert forall|tv: TagV| spec_dec_face(tv) == Ok::<_, DecodeErrorV>(f)
                implies #[trigger] spec_sided_field(a1, "s"@, tv) == Ok::<_, DecodeErrorV>(
                a2,
            ) by {}
        }
    }
    push_side(&mut fs, "s", &sd.s, Ghost(a1), Ghost(a2));
    let ghost a3 = crate::moon::Sided { u: sd.u, ..a2 };
    proof {
        lemma_sided_names_distinct();
        if let Some(f) = sd.u {
            assert forall|tv: TagV| spec_dec_face(tv) == Ok::<_, DecodeErrorV>(f)
                implies #[trigger] spec_sided_field(a2, "u"@, tv) == Ok::<_, DecodeErrorV>(
                a3,
            ) by {}
        }
    }
    push_side(&mut fs, "u", &sd.u, Ghost(a2), Ghost(a3));
    let ghost a4 = crate::moon::Sided { d: sd.d, ..a3 };
    proof {
        lemma_sided_names_distinct();
        if let Some(f) = sd.d {
            assert forall|tv: TagV| spec_dec_face(tv) == Ok::<_, DecodeErrorV>(f)
                implies #[trigger] spec_sided_field(a3, "d"@, tv) == Ok::<_, DecodeErrorV>(
                a4,
            ) by {}
        }
    }
    push_side(&mut fs, "d", &sd.d, Ghost(a3), Ghost(a4));
    let ghost a5 = crate::moon::Sided { w: sd.w, ..a4 };
    proof {
        lemma_sided_names_distinct();
        if let Some(f) = sd.w {
            assert forall|tv: TagV| spec_dec_face(tv) == Ok::<_, DecodeErrorV>(f)
                implies #[trigger] spec_sided_field(a4, "w"@, tv) == Ok::<_, DecodeErrorV>(
                a5,
            ) by {}
        }
    }
    push_side(&mut fs, "w", &sd.w, Ghost(a4), Ghost(a5));
    let ghost a6 = crate::moon::Sided { e: sd.e, ..a5 };
    proof {
        lemma_sided_names_distinct();
        if let Some(f) = sd.e {
            assert forall|tv: TagV| spec_dec_face(tv) == Ok::<_, DecodeErrorV>(f)
                implies #[trigger] spec_sided_field(a5, "e"@, tv) == Ok::<_, DecodeErrorV>(
                a6,
            ) by {}
        }
    }
    push_side(&mut fs, "e", &sd.e, Ghost(a5), Ghost(a6));
    proof {
        assert(a6 == *sd);
    }
    let r = Tag::Compound(fs);
    proof {
        assert(r.deep_view()->Compound_0 =~= spec_fields_view(fs@));
    }
    r
}

// ---------------------------------------------------------------------------
// Mesh data
// ---------------------------------------------------------------------------

/// The running state of a mesh-data record: all four arrays are required.
pub type MeshAcc = (Option<Seq<u64>>, Option<Seq<u16>>, Option<Seq<u32>>, Option<Seq<u64>>);

/// Folds one mesh-data field.
pub open spec fn spec_mesh_field(acc: MeshAcc, k: Seq<char>, v: TagV) -> Result<
    MeshAcc,
    DecodeErrorV,
> {
    if k == "vtx"@ {
        match spec_doubles_of(v) {
            None => Err(DecodeErrorV::WrongTag(k)),
            Some(x) => Ok((Some(x), acc.1, acc.2, acc.3)),
        }
    } else if k == "tex"@ {
        match spec_u16s_of(v) {
            None => Err(DecodeErrorV::WrongTag(k)),
            Some(x) => Ok((acc.0, Some(x), acc.2, acc.3)),
        }
    } else if k == "fac"@ {
        match spec_fac_of(v) {
            None => Err(DecodeErrorV::WrongTag(k)),
            Some(x) => Ok((acc.0, acc.1, Some(x), acc.3)),
        }
    } else if k == "uvs"@ {
        match spec_doubles_of(v) {
            None => Err(DecodeErrorV::WrongTag(k)),
            Some(x) => Ok((acc.0, acc.1, acc.2, Some(x))),
        }
    } else {
        Err(DecodeErrorV::UnknownField(k))
    }
}

/// Folds the mesh-data fields `fs[i..]`.
pub open spec fn spec_mesh_fields(fs: Seq<(Seq<char>, TagV)>, i: int, acc: MeshAcc) -> Result<
    MeshAcc,
    DecodeErrorV,
>
    decreases fs.len() - i,
{
    if i < 0 || i >= fs.len() {
        Ok(acc)
    } else {
        match spec_mesh_field(acc, fs[i].0, fs[i].1) {
            Err(e) => Err(e),
            Ok(a2) => spec_mesh_fields(fs, i + 1, a2),
        }
    }
}

/// The mesh data a tag decodes to.
pub open spec fn spec_dec_mesh(t: TagV) -> Result<crate::moon::MeshDataV, DecodeErrorV> {
    match t {
        TagV::Compound(fs) => match spec_mesh_fields(fs, 0, (None, None, None, None)) {
            Err(e) => Err(e),
            Ok((None, _, _, _)) => Err(DecodeErrorV::MissingField("vtx"@)),
            Ok((_, None, _, _)) => Err(DecodeErrorV::MissingField("tex"@)),
            Ok((_, _, None, _)) => Err(DecodeErrorV::MissingField("fac"@)),
            Ok((_, _, _, None)) => Err(DecodeErrorV::MissingField("uvs"@)),
            Ok((Some(vtx), Some(tex), Some(fac), Some(uvs))) => Ok(
                crate::moon::MeshDataV { vtx, tex, fac, uvs },
            ),
        },
        _ => Err(DecodeErrorV::WrongTag("mesh_data"@)),
    }
}

proof fn lemma_mesh_fold_snoc(fs: Seq<(Seq<char>, TagV)>, kv: (Seq<char>, TagV), i: int, acc: MeshAcc)
    requires
        0 <= i <= fs.len(),
    ensures
        spec_mesh_fields(fs.push(kv), i, acc) == (match spec_mesh_fields(fs, i, acc) {
            Err(e) => Err::<MeshAcc, DecodeErrorV>(e),
            Ok(a) => spec_mesh_field(a, kv.0, kv.1),
        }),
    decreases fs.len() - i,
{
    if i == fs.len() {
        assert(fs.push(kv)[i] == kv);
        match spec_mesh_field(acc, kv.0, kv.1) {
            Err(e) => {},
            Ok(a2) => {
                assert(spec_mesh_fields(fs.push(kv), i + 1, a2) == Ok::<_, DecodeErrorV>(a2));
            },
        }
    } else {
        assert(fs.push(kv)[i] == fs[i]);
        match spec_mesh_field(acc, fs[i].0, fs[i].1) {
            Err(e) => {},
            Ok(a2) => {
                lemma_mesh_fold_snoc(fs, kv, i + 1, a2);
            },
        }
    }
}

/// The mesh-data field names are pairwise distinct.
proof fn lemma_mesh_names_distinct()
    ensures
        "tex"@ != "vtx"@,
        "fac"@ != "vtx"@,
        "fac"@ != "tex"@,
        "uvs"@ != "vtx"@,
        "uvs"@ != "tex"@,
        "uvs"@ != "fac"@,
{
    reveal_strlit("vtx");
    reveal_strlit("tex");
    reveal_strlit("fac");
    reveal_strlit("uvs");
    assert("vtx"@.len() == 3 && "tex"@.len() == 3 && "fac"@.len() == 3 && "uvs"@.len() == 3);
    assert("vtx"@[0] == 'v' && "tex"@[0] == 't' && "fac"@[0] == 'f' && "uvs"@[0] == 'u');
}

/// Decodes a mesh-data record.
#[verifier::loop_isolation(false)]
pub fn decode_mesh(t: &Tag) -> (r: Result<crate::moon::MeshData, DecodeError>)
    ensures
        match r {
            Ok(md) => spec_dec_mesh(t.deep_view()) == Ok::<_, DecodeErrorV>(md.deep_view()),
            Err(e) => spec_dec_mesh(t.deep_view()) == Err::<crate::moon::MeshDataV, _>(
                e.deep_view(),
            ),
        },
{
    let fields = match t {
        Tag::Compound(fs) => fs,
        _ => {
            return Err(DecodeError::WrongTag("mesh_data".to_owned()));
        },
    };
    let ghost fsv = t.deep_view()->Compound_0;
    let mut vtx: Option<Vec<u64>> = None;
    let mut tex: Option<Vec<u16>> = None;
    let mut fac: Option<Vec<u32>> = None;
    let mut uvs: Option<Vec<u64>> = None;
    let mut i: usize = 0;
    while i < fields.len()
        invariant
            i <= fields@.len(),
            fsv.len() == fields@.len(),
            spec_mesh_fields(fsv, 0, (None, None, None, None)) == spec_mesh_fields(
                fsv,
                i as int,
                (vtx.deep_view(), tex.deep_view(), fac.deep_view(), uvs.deep_view()),
            ),
        decreases fields@.len() - i,
    {
        let key = &fields[i].0;
        let val = &fields[i].1;
        proof {
            assert(fsv[i as int] == (key@, tag_view(fields@[i as int].1)));
        }
        if str_eq(key.as_str(), "vtx") {
            match tag_doubles(val) {
                Some(x) => {
                    vtx = Some(x);
                },
                None => {
                    return Err(DecodeError::WrongTag(clone_string(key)));
                },
            }
        } else if str_eq(key.as_str(), "tex") {
            match tag_u16s(val) {
                Some(x) => {
                    tex = Some(x);
                },
                None => {
                    return Err(DecodeError::WrongTag(clone_string(key)));
                },
            }
        } else if str_eq(key.as_str(), "fac") {
            match tag_fac(val) {
                Some(x) => {
                    fac = Some(x);
                },
                None => {
                    return Err(DecodeError::WrongTag(clone_string(key)));
                },
            }
        } else if str_eq(key.as_str(), "uvs") {
            match tag_doubles(val) {
                Some(x) => {
                    uvs = Some(x);
                },
                None => {
                    return Err(DecodeError::WrongTag(clone_string(key)));
                },
            }
        } else {
            return Err(DecodeError::UnknownField(clone_string(key)));
        }
        i = i + 1;
    }
    match (vtx, tex, fac, uvs) {
        (Some(a), Some(b), Some(c), Some(dd)) => {
            let md = crate::moon::MeshData { vtx: a, tex: b, fac: c, uvs: dd };
            proof {
                assert(md.deep_view() =~= spec_dec_mesh(t.deep_view())->Ok_0);
            }
            Ok(md)
        },
        (None, _, _, _) => Err(DecodeError::MissingField("vtx".to_owned())),
        (_, None, _, _) => Err(DecodeError::MissingField("tex".to_owned())),
        (_, _, None, _) => Err(DecodeError::MissingField("fac".to_owned())),
        (_, _, _, None) => Err(DecodeError::MissingField("uvs".to_owned())),
    }
}

/// A list of doubles from bit patterns.
#[verifier::loop_isolation(false)]
pub(crate) fn doubles_tag(v: &Vec<u64>) -> (r: Tag)
    ensures
        spec_doubles_of(r.deep_view()) == Some(v@),
{
    let mut out: Vec<Tag> = Vec::new();
    let mut i: usize = 0;
    while i < v.len()
        invariant
            i <= v@.len(),
            out@.len() == i as int,
            forall|j: int| 0 <= j < i as int ==> #[trigger] out@[j] == Tag::Double(v@[j]),
        decreases v@.len() - i,
    {
        out.push(Tag::Double(v[i]));
        i = i + 1;
    }
    let r = Tag::List(out);
    proof {
        let s = r.deep_view()->List_0;
        assert forall|j: int| 0 <= j < s.len() implies #[trigger] s[j] == TagV::Double(v@[j]) by {
            assert(s[j] == tag_view(r->List_0@[j]));
        }
        assert(spec_all_doubles(s));
        assert(spec_doubles_of(r.deep_view())->Some_0 =~= v@);
    }
    r
}

/// A list of shorts from unsigned values.
#[verifier::loop_isolation(false)]
pub(crate) fn u16s_tag(v: &Vec<u16>) -> (r: Tag)
    ensures
        spec_u16s_of(r.deep_view()) == Some(v@),
{
    let mut out: Vec<Tag> = Vec::new();
    let mut i: usize = 0;
    while i < v.len()
        invariant
            i <= v@.len(),
            out@.len() == i as int,
            forall|j: int| 0 <= j < i as int ==> #[trigger] out@[j] == Tag::Short(v@[j] as i16),
        decreases v@.len() - i,
    {
        out.push(Tag::Short(v[i] as i16));
        i = i + 1;
    }
    let r = Tag::List(out);
    proof {
        let s = r.deep_view()->List_0;
        assert forall|j: int| 0 <= j < s.len() implies #[trigger] s[j] == TagV::Short(
            v@[j] as i16,
        ) by {
            assert(s[j] == tag_view(r->List_0@[j]));
        }
        assert(spec_all_shorts(s));
        assert forall|j: int| 0 <= j < s.len() implies #[trigger] s[j]->Short_0 as u16
            == v@[j] by {
            let x: u16 = v@[j];
            assert((x as i16) as u16 == x) by (bit_vector);
        }
        assert(spec_u16s_of(r.deep_view())->Some_0 =~= v@);
    }
    r
}

/// An int array from unsigned values.
#[verifier::loop_isolation(false)]
pub(crate) fn u32s_tag(v: &Vec<u32>) -> (r: Tag)
    ensures
        spec_u32s_of(r.deep_view()) == Some(v@),
{
    let mut out: Vec<i32> = Vec::new();
    let mut i: usize = 0;
    while i < v.len()
        invariant
            i <= v@.len(),
            out@.len() == i as int,
            forall|j: int| 0 <= j < i as int ==> #[trigger] out@[j] == v@[j] as i32,
        decreases v@.len() - i,
    {
        out.push(v[i] as i32);
        i = i + 1;
    }
    let r = Tag::Ints(out);
    proof {
        assert forall|j: int| 0 <= j < v@.len() implies #[trigger] (r->Ints_0@[j] as u32)
            == v@[j] by {
            let x: u32 = v@[j];
            assert((x as i32) as u32 == x) by (bit_vector);
        }
        assert(spec_u32s_of(r.deep_view())->Some_0 =~= v@);
    }
    r
}

/// The face-index array in its narrowest width: a byte array when every
/// index fits a byte, a list of shorts when every index fits a short, an int
/// array otherwise.
#[verifier::loop_isolation(false)]
pub(crate) fn fac_tag(v: &Vec<u32>) -> (r: Tag)
    ensures
        spec_fac_of(r.deep_view()) == Some(v@),
{
    let w = crate::codec::fac_width(v);
    if w == 1 {
        let mut out: Vec<i8> = Vec::new();
        let mut i: usize = 0;
        while i < v.len()
            invariant
                i <= v@.len(),
                out@.len() == i as int,
                forall|j: int| 0 <= j < v@.len() ==> #[trigger] v@[j] < 256,
                forall|j: int| 0 <= j < i as int ==> #[trigger] (out@[j] as u8) as u32 == v@[j],
            decreases v@.len() - i,
        {
            let x = v[i];
            proof {
                assert(((x as u8) as i8) as u8 == x as u8 && x < 256 ==> (x as u8) as u32 == x)
                    by (bit_vector);
                assert(((x as u8) as i8) as u8 == x as u8) by (bit_vector);
            }
            out.push((x as u8) as i8);
            i = i + 1;
        }
        let r = Tag::Bytes(out);
        proof {
            assert(spec_fac_of(r.deep_view())->Some_0 =~= v@);
        }
        r
    } else if w == 2 {
        let mut out: Vec<Tag> = Vec::new();
        let mut i: usize = 0;
        while i < v.len()
            invariant
                i <= v@.len(),
                out@.len() == i as int,
                forall|j: int| 0 <= j < v@.len() ==> #[trigger] v@[j] < 65536,
                forall|j: int|
                    0 <= j < i as int ==> #[trigger] out@[j] == Tag::Short((v@[j] as u16) as i16),
            decreases v@.len() - i,
        {
            out.push(Tag::Short((v[i] as u16) as i16));
            i = i + 1;
        }
        let r = Tag::List(out);
        proof {
            let s = r.deep_view()->List_0;
            assert forall|j: int| 0 <= j < s.len() implies #[trigger] s[j] == TagV::Short(
                (v@[j] as u16) as i16,
            ) by {
                assert(s[j] == tag_view(r->List_0@[j]));
            }
            assert(spec_all_shorts(s));
            assert forall|j: int| 0 <= j < s.len() implies #[trigger] (s[j]->Short_0 as u16) as u32
                == v@[j] by {
                let x: u32 = v@[j];
                assert(x < 65536 ==> (((x as u16) as i16) as u16) as u32 == x) by (bit_vector);
            }
            assert(spec_fac_of(r.deep_view())->Some_0 =~= v@);
        }
        r
    } else {
        let r = u32s_tag(v);
        proof {
            assert(spec_fac_of(r.deep_view())->Some_0 =~= v@);
        }
        r
    }
}

/// Appends one field to a mesh-data compound under construction.
fn push_mesh_field(
    fs: &mut Vec<(String, Tag)>,
    name: &str,
    tag: Tag,
    Ghost(acc): Ghost<MeshAcc>,
    Ghost(acc2): Ghost<MeshAcc>,
)
    requires
        spec_mesh_fields(spec_fields_view(old(fs)@), 0, (None, None, None, None)) == Ok::<
            _,
            DecodeErrorV,
        >(acc),
        spec_mesh_field(acc, name@, tag.deep_view()) == Ok::<_, DecodeErrorV>(acc2),
    ensures
        spec_mesh_fields(spec_fields_view(final(fs)@), 0, (None, None, None, None)) == Ok::<
            _,
            DecodeErrorV,
        >(acc2),
{
    let ghost tv = tag.deep_view();
    let ghost snap = spec_fields_view(fs@);
    fs.push((name.to_owned(), tag));
    proof {
        lemma_mesh_fold_snoc(snap, (name@, tv), 0, (None, None, None, None));
        assert(spec_fields_view(fs@) =~= snap.push((name@, tv)));
    }
}

/// Encodes a mesh-data record; decoding the result gives it back exactly,
/// with the face-index array written in its narrowest width.
pub fn encode_mesh(md: &crate::moon::MeshData) -> (r: Tag)
    ensures
        spec_dec_mesh(r.deep_view()) == Ok::<_, DecodeErrorV>(md.deep_view()),
{
    let ghost d: MeshAcc = (None, None, None, None);
    let mut fs: Vec<(String, Tag)> = Vec::new();
    proof {
        assert(spec_fields_view(fs@) =~= Seq::<(Seq<char>, TagV)>::empty());
    }
    let ghost a1: MeshAcc = (Some(md.vtx@), None, None, None);
    let t1 = doubles_tag(&md.vtx);
    proof {
        lemma_mesh_names_distinct();
        assert(spec_mesh_field(d, "vtx"@, t1.deep_view()) == Ok::<_, DecodeErrorV>(a1));
    }
    push_mesh_field(&mut fs, "vtx", t1, Ghost(d), Ghost(a1));
    let ghost a2: MeshAcc = (Some(md.vtx@), Some(md.tex@), None, None);
    let t2 = u16s_tag(&md.tex);
    proof {
        lemma_mesh_names_distinct();
        assert(spec_mesh_field(a1, "tex"@, t2.deep_view()) == Ok::<_, DecodeErrorV>(a2));
    }
    push_mesh_field(&mut fs, "tex", t2, Ghost(a1), Ghost(a2));
    let ghost a3: MeshAcc = (Some(md.vtx@), Some(md.tex@), Some(md.fac@), None);
    let t3 = fac_tag(&md.fac);
    proof {
        lemma_mesh_names_distinct();
        assert(spec_mesh_field(a2, "fac"@, t3.deep_view()) == Ok::<_, DecodeErrorV>(a3));
    }
    push_mesh_field(&mut fs, "fac", t3, Ghost(a2), Ghost(a3));
    let ghost a4: MeshAcc = (Some(md.vtx@), Some(md.tex@), Some(md.fac@), Some(md.uvs@));
    let t4 = doubles_tag(&md.uvs);
    proof {
        lemma_mesh_names_distinct();
        assert(spec_mesh_field(a3, "uvs"@, t4.deep_view()) == Ok::<_, DecodeErrorV>(a4));
    }
    push_mesh_field(&mut fs, "uvs", t4, Ghost(a3), Ghost(a4));
    let r = Tag::Compound(fs);
    proof {
        assert(r.deep_view()->Compound_0 =~= spec_fields_view(fs@));
    }
    r
}


} // verus!
