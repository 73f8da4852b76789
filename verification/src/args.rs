//! Parsing of `NAME=VALUE` style arguments: splitting at the first equals
//! sign, with or without a mandatory key.

use vstd::prelude::*;

verus! {

broadcast use vstd::group_vstd_default;

/// Why a `NAME=VALUE` pair cannot be split.
#[derive(Debug, PartialEq, Eq, Clone, Copy, Structural)]
pub enum EqualParseError {
    /// The string holds no equals sign.
    EqualSignRequired,
}

/// `n` is the position of the first equals sign of `s`.
pub open spec fn spec_first_eq_at(s: Seq<char>, n: int) -> bool {
    &&& 0 <= n < s.len()
    &&& s[n] == '='
    &&& forall|j: int| 0 <= j < n ==> s[j] != '='
}

/// Splits `pair` at its first equals sign into a key and a value.
#[verifier::loop_isolation(false)]
pub fn equal(pair: &str) -> (r: Result<(String, String), EqualParseError>)
    ensures
        match r {
            Ok(kv) => exists|n: int|
                #[trigger] spec_first_eq_at(pair@, n) && kv.0@ == pair@.subrange(0, n) && kv.1@
                    == pair@.subrange(n + 1, pair@.len() as int),
            Err(e) => e == EqualParseError::EqualSignRequired && forall|j: int|
                0 <= j < pair@.len() ==> pair@[j] != '=',
        },
{
    let n = pair.unicode_len();
    let mut i: usize = 0;
    while i < n
        invariant
            i <= n,
            n == pair@.len(),
            forall|j: int| 0 <= j < i as int ==> pair@[j] != '=',
        decreases n - i,
    {
        if pair.get_char(i) == '=' {
            let k = pair.substring_char(0, i).to_owned();
            let v = pair.substring_char(i + 1, n).to_owned();
            proof {
                assert(spec_first_eq_at(pair@, i as int));
            }
            return Ok((k, v));
        }
        i = i + 1;
    }
    Err(EqualParseError::EqualSignRequired)
}

/// Splits `pair` at its first equals sign into an optional key and a value;
/// a string without an equals sign is all value.
#[verifier::loop_isolation(false)]
pub fn opt_equal(pair: &str) -> (r: (Option<String>, String))
    ensures
        match r.0 {
            Some(k) => exists|n: int|
                #[trigger] spec_first_eq_at(pair@, n) && k@ == pair@.subrange(0, n) && r.1@
                    == pair@.subrange(n + 1, pair@.len() as int),
            None => r.1@ == pair@ && forall|j: int| 0 <= j < pair@.len() ==> pair@[j] != '=',
        },
{
    match equal(pair) {
        Ok((k, v)) => (Some(k), v),
        Err(_) => (None, pair.to_owned()),
    }
}

} // verus!
