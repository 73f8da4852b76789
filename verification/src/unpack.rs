//! The pure rules of unpacking: which bundle sections to extract, and
//! whether a file name passes the caller's whitelist. Writing files is the
//! caller's business.

use vstd::prelude::*;

use crate::strutil::str_eq;

verus! {

broadcast use vstd::group_vstd_default;

/// Which bundle sections an unpack run extracts.
#[derive(Debug, PartialEq, Eq, Clone, Copy, Structural)]
pub struct UnpackFilter {
    /// Whether to unpack textures.
    pub textures: bool,
    /// Whether to unpack scripts.
    pub scripts: bool,
    /// Whether to unpack models.
    pub models: bool,
    /// Whether to unpack resources.
    pub resources: bool,
    /// Whether to unpack the avatar manifest.
    pub manifest: bool,
}

impl Default for UnpackFilter {
    fn default() -> (r: Self)
        ensures
            r.textures && r.scripts && r.models && r.resources && r.manifest,
    {
        UnpackFilter { textures: true, scripts: true, models: true, resources: true, manifest: true }
    }
}

/// A whitelist prefix admits a name when it ends in a slash and the name
/// starts with it, or when the name equals it exactly.
pub open spec fn spec_prefix_admits(prefix: Seq<char>, name: Seq<char>) -> bool {
    if prefix.len() > 0 && prefix[prefix.len() - 1] == '/' {
        prefix.len() <= name.len() && name.subrange(0, prefix.len() as int) == prefix
    } else {
        name == prefix
    }
}

/// Whether a name passes a whitelist of prefixes: it does when one of the
/// prefixes admits it.
pub open spec fn spec_whitelist_admits(ps: Seq<Seq<char>>, name: Seq<char>) -> bool {
    exists|i: int| 0 <= i < ps.len() && #[trigger] spec_prefix_admits(ps[i], name)
}

/// Whether one whitelist prefix admits a name.
#[verifier::loop_isolation(false)]
pub fn prefix_admits(prefix: &str, name: &str) -> (r: bool)
    ensures
        r == spec_prefix_admits(prefix@, name@),
{
    let pn = prefix.unicode_len();
    let nn = name.unicode_len();
    if pn > 0 && prefix.get_char(pn - 1) == '/' {
        if pn > nn {
            return false;
        }
        let head = name.substring_char(0, pn);
        str_eq(head, prefix)
    } else {
        str_eq(name, prefix)
    }
}

/// Whether a name passes the whitelist: no whitelist admits everything.
#[verifier::loop_isolation(false)]
pub fn whitelisted(paths: &Option<Vec<String>>, name: &str) -> (r: bool)
    ensures
        match paths {
            None => r == true,
            Some(ps) => r == spec_whitelist_admits(ps.deep_view(), name@),
        },
{
    match paths {
        None => true,
        Some(ps) => {
            let mut i: usize = 0;
            while i < ps.len()
                invariant
                    i <= ps@.len(),
                    forall|j: int|
                        0 <= j < i as int ==> !spec_prefix_admits(
                            #[trigger] ps.deep_view()[j],
                            name@,
                        ),
                decreases ps@.len() - i,
            {
                proof {
                    assert(ps.deep_view()[i as int] == ps@[i as int]@);
                }
                if prefix_admits(ps[i].as_str(), name) {
                    proof {
                        assert(spec_prefix_admits(ps.deep_view()[i as int], name@));
                        let ii: int = i as int;
                        assert(0 <= ii && ii < ps.deep_view().len());
                        assert(spec_prefix_admits(ps.deep_view()[ii], name@));
                        assert(spec_whitelist_admits(ps.deep_view(), name@));
                    }
                    return true;
                }
                i = i + 1;
            }
            false
        },
    }
}

} // verus!
