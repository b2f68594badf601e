//! The cells of the tree and the insertion of a record below one of them.

use crate::digest::{combine, combine_fingerprints, leaf_fingerprint, Record, RecordView};
use crate::levels::pow2_usize;
use vstd::arithmetic::power2::{lemma2_to64, lemma_pow2_unfold, pow2};
use vstd::prelude::*;

verus! {

/// The fingerprint of a subtree of height `height` that holds `records`,
/// in the order of their insertion.
///
/// While the records fit the lower half, the fingerprint is that of the
/// lower half. Each record after that folds the upper half's fingerprint,
/// as it stands with that record, into the fingerprint before the record.
pub open spec fn fingerprint(records: Seq<RecordView>, height: nat) -> Seq<char>
    decreases height, records.len(),
{
    if records.len() == 0 {
        Seq::empty()
    } else if height == 0 {
        leaf_fingerprint(records[0])
    } else if records.len() <= pow2((height - 1) as nat) {
        fingerprint(records, (height - 1) as nat)
    } else {
        combine(
            fingerprint(records.drop_last(), height),
            fingerprint(
                records.subrange(pow2((height - 1) as nat) as int, records.len() as int),
                (height - 1) as nat,
            ),
        )
    }
}

/// A cell of the tree: a leaf, which holds a record, or a branch, which
/// holds up to two children.
#[derive(Debug)]
pub struct Node {
    /// The primary child: the first that was attached.
    pub down: Option<Box<Node>>,
    /// The secondary child.
    pub up: Option<Box<Node>>,
    /// The fingerprint of what stands below.
    pub hash: String,
    /// The record, in a leaf.
    pub tx: Option<Record>,
}

impl Node {
    /// The records below this node, in the order of their insertion.
    pub open spec fn records(&self) -> Seq<RecordView>
        decreases self,
    {
        match self.tx {
            Some(r) => seq![r@],
            None => (match self.down {
                Some(d) => d.records(),
                None => Seq::empty(),
            }) + (match self.up {
                Some(u) => u.records(),
                None => Seq::empty(),
            }),
        }
    }

    /// This node is a subtree of height `height`: a leaf at height 0, a
    /// branch above. A branch fills its primary child first, attaches the
    /// secondary child only when the primary is full, and holds no empty
    /// child. The fingerprint is that of the records below.
    pub open spec fn is_tree(&self, height: nat) -> bool
        decreases height,
    {
        &&& self.hash@ == fingerprint(self.records(), height)
        &&& if height == 0 {
            self.tx.is_some() && self.down.is_none() && self.up.is_none()
        } else {
            &&& self.tx.is_none()
            &&& match self.down {
                None => self.up.is_none(),
                Some(d) => {
                    &&& d.is_tree((height - 1) as nat)
                    &&& 1 <= d.records().len() <= pow2((height - 1) as nat)
                    &&& match self.up {
                        None => true,
                        Some(u) => {
                            &&& d.records().len() == pow2((height - 1) as nat)
                            &&& u.is_tree((height - 1) as nat)
                            &&& 1 <= u.records().len() <= pow2((height - 1) as nat)
                        },
                    }
                },
            }
        }
    }

    /// A branch without children.
    pub fn new() -> (node: Node)
        ensures
            node.down.is_none(),
            node.up.is_none(),
            node.tx.is_none(),
            node.hash@ == Seq::<char>::empty(),
            node.records() == Seq::<RecordView>::empty(),
    {
        Node { down: None, up: None, hash: String::new(), tx: None }
    }

    /// The leaf that holds `record`.
    pub fn leaf(record: Record) -> (node: Node)
        ensures
            node.is_tree(0),
            node.records() == seq![record@],
            node.hash@ == leaf_fingerprint(record@),
    {
        let hash = record.new_hash();
        Node { down: None, up: None, hash, tx: Some(record) }
    }

    /// The tree of one record: a branch over the record's leaf, with the
    /// leaf's fingerprint.
    pub fn bootstrap(record: Record) -> (node: Node)
        ensures
            node.is_tree(1),
            node.records() == seq![record@],
            node.hash@ == leaf_fingerprint(record@),
    {
        let leaf = Node::leaf(record);
        let hash = leaf.hash.clone();
        proof {
            lemma2_to64();
        }
        Node { down: Some(Box::new(leaf)), up: None, hash, tx: None }
    }

    /// Folds the fingerprint `new_hash` into this node's own.
    pub fn add_hash(&mut self, new_hash: &String)
        ensures
            final(self).hash@ == combine(old(self).hash@, new_hash@),
            final(self).down == old(self).down,
            final(self).up == old(self).up,
            final(self).tx == old(self).tx,
    {
        let folded = combine_fingerprints(self.hash.as_str(), new_hash.as_str());
        self.hash = folded;
    }

    /// Puts `record` into the next free slot of this subtree, which is slot
    /// `position` of its `2^height`, and returns the subtree's new
    /// fingerprint.
    pub fn insert_at(&mut self, record: Record, position: usize, height: u32) -> (hash: String)
        requires
            height >= 1,
            pow2((height - 1) as nat) <= usize::MAX,
            old(self).is_tree(height as nat),
            position == old(self).records().len(),
            position < pow2(height as nat),
        ensures
            final(self).is_tree(height as nat),
            final(self).records() == old(self).records().push(record@),
            hash@ == final(self).hash@,
            hash@ == fingerprint(old(self).records().push(record@), height as nat),
        decreases height,
    {
        let ghost before = old(self).records();
        let ghost after = before.push(record@);
        proof {
            lemma2_to64();
            lemma_pow2_unfold(height as nat);
            assert(after.drop_last() =~= before);
        }
        if height == 1 {
            let leaf = Box::new(Node::leaf(record));
            if self.down.is_none() {
                self.hash = leaf.hash.clone();
                self.down = Some(leaf);
                return self.hash.clone();
            }
            self.add_hash(&leaf.hash);
            self.up = Some(leaf);
            assert(after.subrange(1, 2) =~= seq![record@]);
            return self.hash.clone();
        }
        proof {
            lemma_pow2_unfold((height - 1) as nat);
        }
        if self.down.is_none() {
            let mut new_node = Box::new(Node::new());
            let hash = new_node.insert_at(record, position, height - 1);
            self.down = Some(new_node);
            self.hash = hash.clone();
            return hash;
        }
        let half = pow2_usize(height - 1);
        if position < half {
            let mut down = self.down.take().unwrap();
            let hash = down.insert_at(record, position, height - 1);
            self.down = Some(down);
            self.hash = hash.clone();
            return hash;
        }
        let mut up = match self.up.take() {
            Some(u) => u,
            None => Box::new(Node::new()),
        };
        let hash = up.insert_at(record, position - half, height - 1);
        self.up = Some(up);
        self.add_hash(&hash);
        assert(after.subrange(half as int, after.len() as int) =~= up.records());
        self.hash.clone()
    }
}

} // verus!
