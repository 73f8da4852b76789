//! Tools for Figura avatar bundles ("moons"): a model of the compact binary
//! tree format, the packed mesh-face codec, deterministic identifier
//! derivation, and the conversion of a model-part tree into the editable
//! Blockbench-style element/outliner form.

use vstd::prelude::*;

pub mod adapter;
pub mod args;
pub mod bbmodel;
pub mod codec;
pub mod convert;
pub mod ident;
pub mod model_codec;
pub mod modify;
pub mod moon;
pub mod strutil;
pub mod tag;
pub mod unpack;

verus! {

/// Default used by the container schema for visibility-style flags.
pub fn return_true() -> (r: bool)
    ensures
        r == true,
{
    true
}

} // verus!
