//! What holds of every tree, stated over the functions' own models.

use crate::digest::{leaf_fingerprint, RecordView};
use crate::levels::{height_of, lemma_height_capacity, lemma_log2_step};
use crate::node::{fingerprint, Node};
use crate::path::{proof_entries, PathEntryView, Role};
use crate::tree::MerkleTree;
use vstd::arithmetic::power2::{is_pow2, lemma2_to64, lemma_pow2_pos, lemma_pow2_unfold, pow2};
use vstd::prelude::*;

verus! {

/// Two trees that hold the same records in the same order have the same
/// root fingerprint.
pub proof fn law_same_records_same_root(a: MerkleTree, b: MerkleTree)
    requires
        a.wf(),
        b.wf(),
        a@ == b@,
    ensures
        a.root_text() == b.root_text(),
{
    a.lemma_wf();
    b.lemma_wf();
}

/// The height never falls when a record is added to `n` records. Added to a
/// tree that is not empty, the record raises the height by one where `n` is
/// a power of two above 1, and leaves it otherwise.
pub proof fn law_height_growth(n: nat)
    ensures
        height_of(n) <= height_of(n + 1),
        n >= 1 ==> height_of(n + 1) == height_of(n) + (if n > 1 && is_pow2(n as int) {
            1nat
        } else {
            0nat
        }),
{
    if n >= 2 {
        lemma_log2_step(n);
    }
}

/// A branch without a secondary child has the fingerprint of its primary
/// child.
pub proof fn law_pass_through(node: Node, height: nat)
    requires
        height >= 1,
        node.is_tree(height),
        node.down.is_some(),
        node.up.is_none(),
    ensures
        node.hash@ == node.down.unwrap().hash@,
{
    reveal_with_fuel(Node::is_tree, 2);
}

/// A subtree of any height that holds one record has the fingerprint of
/// that record's leaf.
pub proof fn law_single_record(r: RecordView, height: nat)
    ensures
        fingerprint(seq![r], height) == leaf_fingerprint(r),
    decreases height,
{
    if height > 0 {
        lemma_pow2_pos((height - 1) as nat);
        law_single_record(r, (height - 1) as nat);
    }
}

/// A subtree in which no branch has a secondary child, which is one that
/// holds a single record, has the fingerprint of that record's leaf.
pub proof fn law_pass_through_chain(node: Node, height: nat)
    requires
        node.is_tree(height),
        node.records().len() == 1,
    ensures
        node.hash@ == leaf_fingerprint(node.records()[0]),
{
    law_single_record(node.records()[0], height);
    assert(node.records() =~= seq![node.records()[0]]);
}

/// Every level on the way to slot `target` has a sibling with a record in
/// it, in a subtree of height `height` that holds `count` records.
pub open spec fn every_level_paired(count: nat, target: nat, height: nat) -> bool
    decreases height,
{
    if height == 0 {
        true
    } else {
        let half = pow2((height - 1) as nat);
        if target >= half {
            every_level_paired((count - half) as nat, (target - half) as nat, (height - 1) as nat)
        } else {
            count > half && every_level_paired(half, target, (height - 1) as nat)
        }
    }
}

/// In a tree whose slots are all taken, every level has its sibling.
pub proof fn law_full_tree_paired(target: nat, height: nat)
    requires
        target < pow2(height),
    ensures
        every_level_paired(pow2(height), target, height),
    decreases height,
{
    if height > 0 {
        lemma_pow2_unfold(height);
        let half = pow2((height - 1) as nat);
        if target >= half {
            law_full_tree_paired((target - half) as nat, (height - 1) as nat);
        } else {
            law_full_tree_paired(target, (height - 1) as nat);
        }
    }
}

/// The path below the root to a record of the tree ends with the record's
/// leaf, and all before it are siblings: at most one for each level, and
/// exactly one for each where every level has its sibling.
pub proof fn law_proof_path_shape(records: Seq<RecordView>, target: nat, height: nat, first: nat)
    requires
        target < records.len() <= pow2(height),
    ensures
        ({
            let p = proof_entries(records, target, height, first);
            &&& 1 <= p.len() <= height + 1
            &&& p.last() == (PathEntryView {
                node_fingerprint: leaf_fingerprint(records[target as int]),
                role: Role::Leaf,
                level: 0,
                first_slot: first + target,
            })
            &&& forall|i: int| 0 <= i < p.len() - 1 ==> (#[trigger] p[i]).role == Role::ProofSibling
            &&& (p.len() == height + 1 <==> every_level_paired(records.len(), target, height))
        }),
    decreases height,
{
    lemma2_to64();
    if height > 0 {
        lemma_pow2_unfold(height);
        let half = pow2((height - 1) as nat) as int;
        let below = (height - 1) as nat;
        if target >= half {
            let rest = records.subrange(half, records.len() as int);
            law_proof_path_shape(rest, (target - half) as nat, below, (first + half) as nat);
        } else if records.len() > half {
            law_proof_path_shape(records.subrange(0, half), target, below, first);
        } else {
            law_proof_path_shape(records, target, below, first);
        }
    }
}

/// The proof path of a record of the tree starts with the root, ends with
/// the record's leaf, and holds siblings between them: at most one for each
/// level of the tree, and exactly one for each where every level on the way
/// to the record has its sibling.
pub proof fn law_proof_path_complete(tree: MerkleTree, target: nat)
    requires
        tree.wf(),
        target < tree@.len(),
    ensures
        ({
            let p = tree.spec_proof_path(target);
            let height = height_of(tree@.len());
            &&& 2 <= p.len() <= height + 2
            &&& p[0] == (PathEntryView {
                node_fingerprint: tree.root_text(),
                role: Role::PathAncestor,
                level: height,
                first_slot: 0,
            })
            &&& p.last() == (PathEntryView {
                node_fingerprint: leaf_fingerprint(tree@[target as int]),
                role: Role::Leaf,
                level: 0,
                first_slot: target,
            })
            &&& forall|i: int| 1 <= i < p.len() - 1 ==> (#[trigger] p[i]).role == Role::ProofSibling
            &&& (p.len() == height + 2 <==> every_level_paired(tree@.len(), target, height))
        }),
{
    tree.lemma_wf();
    lemma_height_capacity(tree@.len());
    law_proof_path_shape(tree@, target, height_of(tree@.len()), 0);
}

} // verus!
