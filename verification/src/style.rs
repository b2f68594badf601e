//! The styles by which a view tells the tree's nodes apart.

use vstd::prelude::*;

verus! {

/// The background styles of nested branches, which repeat after the last.
pub const COLORS: [&'static str; 15] = [
    "background-color: #000b0b;",
    "background-color: #000a0a;",
    "background-color: #000909;",
    "background-color: #000808;",
    "background-color: #000008;",
    "background-color: #000800;",
    "background-color: #000707;",
    "background-color: #000007;",
    "background-color: #000700;",
    "background-color: #000600;",
    "background-color: #000006;",
    "background-color: #000500;",
    "background-color: #000005;",
    "background-color: #000004;",
    "background-color: #000400;",
];

/// The background style of a branch that is drawn `height` boxes deep.
pub fn get_color(height: usize) -> (style: String)
    ensures
        style@ == COLORS[(height % 15) as int]@,
{
    COLORS[height % 15].to_owned()
}

/// The text class of a leaf: that of a marked node where the leaf is on a
/// proof path, else by the number of records that came after it.
pub open spec fn leaf_class_of(newer: nat, highlight: bool) -> Seq<char> {
    if highlight {
        "has-text-success"@
    } else if newer == 0 {
        "has-text-danger"@
    } else if newer == 1 {
        "has-text-warning"@
    } else {
        "has-text-info"@
    }
}

/// The text class of the leaf of record `id`, in a tree whose last record
/// is `last_tx`.
pub fn leaf_class(last_tx: usize, id: usize, highlight: bool) -> (class: &'static str)
    requires
        id <= last_tx,
    ensures
        class@ == leaf_class_of((last_tx - id) as nat, highlight),
{
    let newer: usize = last_tx - id;
    if highlight {
        "has-text-success"
    } else if newer == 0 {
        "has-text-danger"
    } else if newer == 1 {
        "has-text-warning"
    } else {
        "has-text-info"
    }
}

/// The text class of a branch's fingerprint: that of a marked node where
/// the branch is on a proof path.
pub fn branch_class(highlight: bool) -> (class: &'static str)
    ensures
        class@ == (if highlight {
            "has-text-success"@
        } else {
            "has-text-link"@
        }),
{
    if highlight {
        "has-text-success"
    } else {
        "has-text-link"
    }
}

} // verus!
