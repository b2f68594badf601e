//! The proof path of a record: the fingerprints that a verifier needs to
//! confirm that the record is in the tree.
//!
//! A path is listed from the root to the leaf. At each level it names the
//! sibling of the subtree that holds the record, where that sibling exists;
//! it ends with the record's leaf. Each entry says which node it stands
//! for: the node's level, 0 for a leaf, and the first of its slots.

use crate::digest::RecordView;
use crate::levels::{lemma_pow2_monotonic, pow2_usize};
use crate::node::{fingerprint, Node};
use vstd::arithmetic::power2::pow2;
use vstd::prelude::*;

verus! {

/// What an entry of a proof path stands for.
#[derive(Clone, Copy, Debug, PartialEq, Eq, Structural)]
pub enum Role {
    /// The leaf of the record in question.
    Leaf,
    /// A subtree beside the path, whose fingerprint the verifier is given.
    ProofSibling,
    /// The root, which the verifier arrives at.
    PathAncestor,
}

/// One entry of a proof path.
#[derive(Debug)]
pub struct PathEntry {
    pub node_fingerprint: String,
    pub role: Role,
    /// The height of the node's subtree: 0 for a leaf.
    pub level: u32,
    /// The first of the leaf slots that the node covers.
    pub first_slot: usize,
}

/// What a [`PathEntry`] holds, as plain values.
pub ghost struct PathEntryView {
    pub node_fingerprint: Seq<char>,
    pub role: Role,
    pub level: nat,
    pub first_slot: nat,
}

impl View for PathEntry {
    type V = PathEntryView;

    open spec fn view(&self) -> PathEntryView {
        PathEntryView {
            node_fingerprint: self.node_fingerprint@,
            role: self.role,
            level: self.level as nat,
            first_slot: self.first_slot as nat,
        }
    }
}

/// The entries of a path, each by its view.
pub open spec fn entries_view(entries: Seq<PathEntry>) -> Seq<PathEntryView> {
    entries.map_values(|e: PathEntry| e@)
}

/// The entry for a sibling subtree of height `height` that holds `records`
/// from slot `first` on.
pub open spec fn sibling_entry(records: Seq<RecordView>, height: nat, first: nat) -> PathEntryView {
    PathEntryView {
        node_fingerprint: fingerprint(records, height),
        role: Role::ProofSibling,
        level: height,
        first_slot: first,
    }
}

/// The entry for the leaf in slot `first` that holds `records`.
pub open spec fn leaf_entry(records: Seq<RecordView>, first: nat) -> PathEntryView {
    PathEntryView {
        node_fingerprint: fingerprint(records, 0),
        role: Role::Leaf,
        level: 0,
        first_slot: first,
    }
}

/// The path below the top of a subtree of height `height` that holds
/// `records`, to the record in its slot `target`: level by level the sibling
/// of the half that holds the slot, unless that sibling is empty, and last
/// the leaf. `first` is the first of the tree's slots that the subtree
/// covers.
pub open spec fn proof_entries(
    records: Seq<RecordView>,
    target: nat,
    height: nat,
    first: nat,
) -> Seq<PathEntryView>
    recommends
        target < records.len(),
    decreases height,
{
    if height == 0 {
        seq![leaf_entry(records, first)]
    } else {
        let half = pow2((height - 1) as nat) as int;
        let below = (height - 1) as nat;
        if target >= half {
            seq![sibling_entry(records.subrange(0, half), below, first)] + proof_entries(
                records.subrange(half, records.len() as int),
                (target - half) as nat,
                below,
                (first + half) as nat,
            )
        } else if records.len() > half {
            seq![
                sibling_entry(
                    records.subrange(half, records.len() as int),
                    below,
                    (first + half) as nat,
                ),
            ] + proof_entries(records.subrange(0, half), target, below, first)
        } else {
            proof_entries(records, target, below, first)
        }
    }
}

impl Node {
    /// Appends to `path` the proof path from below this node, a subtree of
    /// height `height` whose first slot is slot `first` of the tree, to the
    /// record in its slot `target`.
    pub fn proof_path(
        &self,
        target: usize,
        height: u32,
        first: usize,
        path: &mut Vec<PathEntry>,
    )
        requires
            self.is_tree(height as nat),
            target < self.records().len(),
            first + self.records().len() <= usize::MAX,
            height >= 1 ==> pow2((height - 1) as nat) <= usize::MAX,
        ensures
            entries_view(final(path)@) == entries_view(old(path)@) + proof_entries(
                self.records(),
                target as nat,
                height as nat,
                first as nat,
            ),
        decreases height,
    {
        let ghost records = self.records();
        if height == 0 {
            path.push(
                PathEntry {
                    node_fingerprint: self.hash.clone(),
                    role: Role::Leaf,
                    level: 0,
                    first_slot: first,
                },
            );
            return ;
        }
        proof {
            reveal_with_fuel(Node::is_tree, 2);
            if height >= 2 {
                lemma_pow2_monotonic((height - 2) as nat, (height - 1) as nat);
            }
        }
        let half = pow2_usize(height - 1);
        let down = self.down.as_ref().unwrap();
        if target >= half {
            let up = self.up.as_ref().unwrap();
            assert(records.subrange(0, half as int) =~= down.records());
            assert(records.subrange(half as int, records.len() as int) =~= up.records());
            path.push(
                PathEntry {
                    node_fingerprint: down.hash.clone(),
                    role: Role::ProofSibling,
                    level: height - 1,
                    first_slot: first,
                },
            );
            up.proof_path(target - half, height - 1, first + half, path);
        } else {
            if let Some(up) = &self.up {
                assert(records.subrange(0, half as int) =~= down.records());
                assert(records.subrange(half as int, records.len() as int) =~= up.records());
                path.push(
                    PathEntry {
                        node_fingerprint: up.hash.clone(),
                        role: Role::ProofSibling,
                        level: height - 1,
                        first_slot: first + half,
                    },
                );
            }
            down.proof_path(target, height - 1, first, path);
        }
    }
}

} // verus!
