//! The tree: its root, the number of its records, and its growth.

use crate::digest::{Record, RecordView};
use crate::levels::{height_for, height_of, is_power_of_two, lemma_height_capacity, lemma_log2_step};
use crate::node::{fingerprint, Node};
use crate::path::{entries_view, proof_entries, PathEntry, PathEntryView, Role};
use vstd::arithmetic::power2::{lemma2_to64, lemma_pow2_pos, pow2};
use vstd::prelude::*;

verus! {

/// Why a request was turned down.
#[derive(Clone, Copy, Debug, PartialEq, Eq, Structural)]
pub enum TreeError {
    /// No record of the tree has the id that was asked for.
    InvalidRecordId,
    /// A text that was handed over as an amount is none.
    MalformedAmount,
}

/// `r` with the id `id`.
pub open spec fn with_id(r: RecordView, id: usize) -> RecordView {
    RecordView { from: r.from, to: r.to, amount: r.amount, id }
}

/// Each record's id is its place in the sequence.
pub open spec fn ids_in_order(records: Seq<RecordView>) -> bool {
    forall|i: int| 0 <= i < records.len() ==> (#[trigger] records[i]).id == i
}

/// An append-only hash tree. Its view is the sequence of its records in the
/// order of their insertion.
#[derive(Debug)]
pub struct MerkleTree {
    total_tx: usize,
    root: Node,
}

impl View for MerkleTree {
    type V = Seq<RecordView>;

    closed spec fn view(&self) -> Seq<RecordView> {
        self.root.records()
    }
}

impl MerkleTree {
    /// The tree counts its records, numbers them in order, and its root is
    /// a subtree of the height that their number asks for (a branch without
    /// children while there is none).
    pub closed spec fn wf(&self) -> bool {
        &&& self.total_tx == self.root.records().len()
        &&& ids_in_order(self.root.records())
        &&& if self.total_tx == 0 {
            &&& self.root.tx.is_none()
            &&& self.root.down.is_none()
            &&& self.root.up.is_none()
            &&& self.root.hash@ == Seq::<char>::empty()
        } else {
            self.root.is_tree(height_of(self.total_tx as nat))
        }
    }

    /// The fingerprint that the root holds.
    pub closed spec fn root_text(&self) -> Seq<char> {
        self.root.hash@
    }

    /// The entry for the root.
    pub open spec fn root_entry(&self) -> PathEntryView {
        PathEntryView {
            node_fingerprint: fingerprint(self@, height_of(self@.len())),
            role: Role::PathAncestor,
            level: height_of(self@.len()),
            first_slot: 0,
        }
    }

    /// The proof path of the record `target`: the root, then the path below
    /// it.
    pub open spec fn spec_proof_path(&self, target: nat) -> Seq<PathEntryView> {
        seq![self.root_entry()] + proof_entries(self@, target, height_of(self@.len()), 0)
    }

    /// What holds of every tree: the ids are the places, the number of
    /// records is a machine integer, and the root's fingerprint is that of
    /// the records.
    pub proof fn lemma_wf(&self)
        requires
            self.wf(),
        ensures
            ids_in_order(self@),
            self@.len() <= usize::MAX,
            self.root_text() == fingerprint(self@, height_of(self@.len())),
    {
    }

    /// The tree without records.
    pub fn new() -> (tree: MerkleTree)
        ensures
            tree.wf(),
            tree@ == Seq::<RecordView>::empty(),
    {
        MerkleTree { total_tx: 0, root: Node::new() }
    }

    /// The root: a branch without children while the tree is empty.
    pub fn root(&self) -> (node: &Node)
        requires
            self.wf(),
        ensures
            node.records() == self@,
            node.hash@ == self.root_text(),
            self@.len() > 0 ==> node.is_tree(height_of(self@.len())),
            self@.len() == 0 ==> node.down.is_none() && node.up.is_none() && node.tx.is_none(),
    {
        &self.root
    }

    /// The number of records.
    pub fn len(&self) -> (n: usize)
        requires
            self.wf(),
        ensures
            n == self@.len(),
    {
        self.total_tx
    }

    /// The id of the record that came last.
    pub fn last_tx(&self) -> (last: Option<usize>)
        requires
            self.wf(),
        ensures
            self@.len() == 0 ==> last.is_none(),
            self@.len() > 0 ==> last == Some((self@.len() - 1) as usize),
    {
        if self.total_tx == 0 {
            return None;
        }
        Some(self.total_tx - 1)
    }

    /// The height of the tree: 0 without records, else the least height
    /// above 0 whose `2^height` slots take them all.
    pub fn height(&self) -> (h: u32)
        requires
            self.wf(),
        ensures
            h == height_of(self@.len()),
    {
        height_for(self.total_tx)
    }

    /// The fingerprint that commits to all records: empty without records.
    pub fn root_fingerprint(&self) -> (text: String)
        requires
            self.wf(),
        ensures
            text@ == self.root_text(),
            text@ == fingerprint(self@, height_of(self@.len())),
    {
        self.root.hash.clone()
    }

    /// Puts a new root above the full tree: the old root becomes its
    /// primary child, and it takes the old root's fingerprint.
    fn new_root(&mut self, Ghost(height): Ghost<nat>)
        requires
            height >= 1,
            old(self).root.is_tree(height),
            old(self).root.records().len() == pow2(height),
        ensures
            final(self).root.is_tree(height + 1),
            final(self).root.records() == old(self).root.records(),
            final(self).total_tx == old(self).total_tx,
    {
        let mut root = Node::new();
        root.hash = self.root.hash.clone();
        core::mem::swap(&mut self.root, &mut root);
        self.root.down = Some(Box::new(root));
        proof {
            lemma_pow2_pos(height);
        }
    }

    /// Appends `record` under the next id, whatever id it came with, and
    /// returns the new root fingerprint. The tree grows by one level first
    /// where all slots of its height are taken.
    pub fn append(&mut self, record: Record) -> (root: String)
        requires
            old(self).wf(),
            old(self)@.len() < usize::MAX,
        ensures
            final(self).wf(),
            final(self)@ == old(self)@.push(with_id(record@, old(self)@.len() as usize)),
            root@ == final(self).root_text(),
            root@ == fingerprint(final(self)@, height_of(final(self)@.len())),
    {
        let mut record = record;
        let position = self.total_tx;
        record.id = position;
        self.total_tx = self.total_tx + 1;
        let height = height_for(self.total_tx);
        if self.total_tx == 1 {
            self.root = Node::bootstrap(record);
            return self.root.hash.clone();
        }
        proof {
            lemma_height_capacity(position as nat);
            lemma_height_capacity((position + 1) as nat);
            if position >= 2 {
                lemma_log2_step(position as nat);
            }
        }
        if position > 1 && is_power_of_two(position) {
            self.new_root(Ghost(height_of(position as nat)));
        }
        self.root.insert_at(record, position, height)
    }

    /// The proof path of the record `target_id`, from the root to the
    /// record's leaf.
    pub fn proof_path(&self, target_id: usize) -> (result: Result<Vec<PathEntry>, TreeError>)
        requires
            self.wf(),
        ensures
            target_id >= self@.len() ==> result == Err::<Vec<PathEntry>, TreeError>(
                TreeError::InvalidRecordId,
            ),
            target_id < self@.len() ==> result.is_ok() && entries_view(result.unwrap()@)
                == self.spec_proof_path(target_id as nat),
    {
        if target_id >= self.total_tx {
            return Err(TreeError::InvalidRecordId);
        }
        let height = height_for(self.total_tx);
        proof {
            lemma2_to64();
            lemma_height_capacity(self.total_tx as nat);
        }
        let mut path: Vec<PathEntry> = Vec::new();
        path.push(
            PathEntry {
                node_fingerprint: self.root.hash.clone(),
                role: Role::PathAncestor,
                level: height,
                first_slot: 0,
            },
        );
        self.root.proof_path(target_id, height, 0, &mut path);
        Ok(path)
    }
}

} // verus!
