//! The manifest: a generic tree-shaped value whose objects become directories
//! and whose strings become file descriptors.

use vstd::prelude::*;

verus! {

/// One value of a manifest. Keys of an object keep the manifest's order.
#[derive(Debug)]
pub enum ManifestValue {
    Object(Vec<(String, ManifestValue)>),
    Text(String),
    /// Any other value (a number, a boolean, null, an array).
    Other,
}

/// Number of nodes that a value stands for: itself and, for an object, all
/// that its entries stand for.
pub open spec fn manifest_size(m: ManifestValue) -> nat
    decreases m,
{
    match m {
        ManifestValue::Object(entries) => 1 + entries_size(entries@),
        _ => 1,
    }
}

/// Number of nodes that a list of object entries stands for.
pub open spec fn entries_size(entries: Seq<(String, ManifestValue)>) -> nat
    decreases entries,
{
    if entries.len() == 0 {
        0
    } else {
        entries_size(entries.drop_last()) + manifest_size(entries.last().1)
    }
}

} // verus!
