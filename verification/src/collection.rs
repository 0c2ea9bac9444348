//! Collections of public keys behind one Merkle root, with per-leaf
//! revocation. Revoking a leaf marks it and leaves the root as it is, so
//! the proofs of the other leaves stay valid.

use vstd::prelude::*;
use crate::error::Error;
use crate::inclusion::{InclusionProof, DIGEST_SHA256};
use crate::merkle::{
    bytes_list_view, hash_leaf, inclusion_path, leaf_hashes, lemma_inclusion_path_verifies,
    path_index, path_leads_to, subtree_digest, subtree_path, tree_root, tree_shape, ProofNode,
};

verus! {

/// The revocation marks of a collection, one per leaf.
pub struct Revocation {
    marks: Vec<bool>,
}

impl View for Revocation {
    type V = Seq<bool>;

    closed spec fn view(&self) -> Seq<bool> {
        self.marks@
    }
}

/// What `revoke` answers on marks `marks` and index `index`.
pub open spec fn revoke_outcome(marks: Seq<bool>, index: int) -> Result<bool, Error> {
    if 0 <= index < marks.len() {
        Ok(!marks[index])
    } else {
        Err(Error::InvalidKeyIndex)
    }
}

/// The marks after `revoke`.
pub open spec fn revoke_marks(marks: Seq<bool>, index: int) -> Seq<bool> {
    if 0 <= index < marks.len() {
        marks.update(index, true)
    } else {
        marks
    }
}

impl Revocation {
    /// Marks for `count` leaves, none of them revoked.
    pub fn new(count: usize) -> (r: Revocation)
        ensures
            r@ == Seq::new(count as nat, |i: int| false),
    {
        let mut marks: Vec<bool> = Vec::new();
        let mut i: usize = 0;
        while i < count
            invariant
                i <= count,
                marks@.len() == i,
                forall|j: int| 0 <= j < i ==> !marks@[j],
            decreases count - i,
        {
            marks.push(false);
            i += 1;
        }
        assert(marks@ =~= Seq::new(count as nat, |i: int| false));
        Revocation { marks }
    }

    /// The given marks.
    pub fn from_marks(marks: Vec<bool>) -> (r: Revocation)
        ensures
            r@ == marks@,
    {
        Revocation { marks }
    }

    /// The number of leaves.
    pub fn len(&self) -> (n: usize)
        ensures
            n == self@.len(),
    {
        self.marks.len()
    }

    /// Whether leaf `index` is revoked. A leaf outside the collection is not.
    pub fn is_revoked(&self, index: usize) -> (revoked: bool)
        ensures
            revoked == (index < self@.len() && self@[index as int]),
    {
        index < self.marks.len() && self.marks[index]
    }

    /// Revokes leaf `index`. Answers whether the leaf was still valid;
    /// `InvalidKeyIndex` where the collection has no such leaf.
    pub fn revoke(&mut self, index: usize) -> (r: Result<bool, Error>)
        ensures
            r == revoke_outcome(old(self)@, index as int),
            final(self)@ == revoke_marks(old(self)@, index as int),
    {
        if index >= self.marks.len() {
            return Err(Error::InvalidKeyIndex);
        }
        let fresh: bool = !self.marks[index];
        self.marks.set(index, true);
        Ok(fresh)
    }

    /// Whether two sets of marks are the same.
    pub fn same(&self, other: &Revocation) -> (same: bool)
        ensures
            same == (self@ == other@),
    {
        if self.marks.len() != other.marks.len() {
            return false;
        }
        let mut i: usize = 0;
        while i < self.marks.len()
            invariant
                i <= self.marks.len(),
                self.marks.len() == other.marks.len(),
                forall|j: int| 0 <= j < i ==> self.marks@[j] == other.marks@[j],
            decreases self.marks.len() - i,
        {
            if self.marks[i] != other.marks[i] {
                return false;
            }
            i += 1;
        }
        assert(self.marks@ =~= other.marks@);
        true
    }

    /// A copy of the marks.
    pub fn duplicate(&self) -> (r: Revocation)
        ensures
            r@ == self@,
    {
        let mut marks: Vec<bool> = Vec::new();
        let mut i: usize = 0;
        while i < self.marks.len()
            invariant
                i <= self.marks.len(),
                marks@ == self.marks@.take(i as int),
            decreases self.marks.len() - i,
        {
            marks.push(self.marks[i]);
            assert(self.marks@.take(i + 1) =~= self.marks@.take(i as int).push(self.marks@[i as int]));
            i += 1;
        }
        assert(self.marks@.take(self.marks@.len() as int) =~= self.marks@);
        Revocation { marks }
    }
}

/// An ordered list of public keys, the Merkle tree over them, and the
/// revocation marks of the leaves.
pub struct MerkleKeyCollection {
    keys: Vec<Vec<u8>>,
    leaves: Vec<Vec<u8>>,
    depth: u64,
    width: u128,
    root: Vec<u8>,
    revoked: Revocation,
}

impl MerkleKeyCollection {
    /// The keys, in order.
    pub closed spec fn keys(&self) -> Seq<Seq<u8>> {
        bytes_list_view(self.keys@)
    }

    /// The root digest.
    pub closed spec fn root_digest(&self) -> Seq<u8> {
        self.root@
    }

    /// The revocation marks.
    pub closed spec fn marks(&self) -> Seq<bool> {
        self.revoked@
    }

    /// Every leaf has a mark.
    pub proof fn lemma_marks_len(&self)
        requires
            self.wf(),
        ensures
            self.marks().len() == self.keys().len(),
    {
    }

    /// The tree is the one over the keys, and every leaf has a mark.
    pub closed spec fn wf(&self) -> bool {
        &&& bytes_list_view(self.leaves@) == leaf_hashes(self.keys())
        &&& forall|k: int| 0 <= k < self.leaves@.len() ==> (#[trigger] self.leaves@[k])@.len() == 32
        &&& self.depth == crate::merkle::tree_depth(self.keys().len())
        &&& self.width == crate::merkle::pow2(self.depth as nat)
        &&& self.keys().len() <= self.width <= 2 * self.keys().len() + 1
        &&& self.depth <= 65
        &&& self.root@ == tree_root(leaf_hashes(self.keys()))
        &&& self.root@.len() == 32
        &&& self.revoked@.len() == self.keys().len()
    }

    /// Builds the collection over `keys`: its root is the root of the tree
    /// over the keys' leaves, and no leaf is revoked.
    pub fn build(keys: Vec<Vec<u8>>) -> (c: MerkleKeyCollection)
        ensures
            c.wf(),
            c.keys() == bytes_list_view(keys@),
            c.root_digest() == tree_root(leaf_hashes(bytes_list_view(keys@))),
            c.marks() == Seq::new(keys@.len(), |i: int| false),
            c.marks().len() == keys@.len(),
    {
        let mut leaves: Vec<Vec<u8>> = Vec::new();
        let mut i: usize = 0;
        let ghost all = leaf_hashes(bytes_list_view(keys@));
        while i < keys.len()
            invariant
                i <= keys.len(),
                all == leaf_hashes(bytes_list_view(keys@)),
                leaves@.len() == i,
                forall|k: int| 0 <= k < i ==> (#[trigger] leaves@[k])@ == all[k],
                forall|k: int| 0 <= k < i ==> (#[trigger] leaves@[k])@.len() == 32,
            decreases keys.len() - i,
        {
            leaves.push(hash_leaf(keys[i].as_slice()));
            i += 1;
        }
        assert(bytes_list_view(leaves@) =~= all);
        let shape: (u64, u128) = tree_shape(keys.len());
        let root: Vec<u8> = subtree_digest(&leaves, 0, shape.0, shape.1);
        let revoked: Revocation = Revocation::new(keys.len());
        MerkleKeyCollection { keys, leaves, depth: shape.0, width: shape.1, root, revoked }
    }

    /// The number of keys.
    pub fn len(&self) -> (n: usize)
        ensures
            n == self.keys().len(),
    {
        self.keys.len()
    }

    /// The root digest.
    pub fn root(&self) -> (root: &[u8])
        ensures
            root@ == self.root_digest(),
    {
        self.root.as_slice()
    }

    /// The key at `index`, if there is one.
    pub fn key(&self, index: usize) -> (key: Option<&[u8]>)
        ensures
            match key {
                Some(k) => index < self.keys().len() && k@ == self.keys()[index as int],
                None => index >= self.keys().len(),
            },
    {
        if index < self.keys.len() {
            Some(self.keys[index].as_slice())
        } else {
            None
        }
    }

    /// The inclusion proof of the key at `index`: `InvalidKeyIndex` where
    /// there is no such key. The proof leads from that key to the root, and
    /// its path gives `index` back.
    pub fn prove(&self, index: usize) -> (r: Result<InclusionProof, Error>)
        requires
            self.wf(),
        ensures
            match r {
                Ok(p) => {
                    &&& index < self.keys().len()
                    &&& p@.digest_tag == DIGEST_SHA256
                    &&& p@.nodes == inclusion_path(leaf_hashes(self.keys()), index as int)
                    &&& p.wf()
                    &&& path_leads_to(self.root_digest(), self.keys()[index as int], p@.nodes)
                    &&& path_index(p@.nodes) == index
                    &&& p@.nodes.len() == crate::merkle::tree_depth(self.keys().len())
                },
                Err(e) => e == Error::InvalidKeyIndex && index >= self.keys().len(),
            },
    {
        if index >= self.keys.len() {
            return Err(Error::InvalidKeyIndex);
        }
        let nodes: Vec<ProofNode> = subtree_path(
            &self.leaves,
            0,
            self.depth,
            self.width,
            index as u128,
        );
        proof {
            lemma_inclusion_path_verifies(self.keys(), index as int);
        }
        Ok(InclusionProof { digest_tag: DIGEST_SHA256, nodes })
    }

    /// Whether the leaf at `index` is revoked.
    pub fn is_revoked(&self, index: usize) -> (revoked: bool)
        ensures
            revoked == (index < self.marks().len() && self.marks()[index as int]),
    {
        self.revoked.is_revoked(index)
    }

    /// Revokes the leaf at `index` and answers whether it was still valid;
    /// `InvalidKeyIndex` where there is no such leaf. Keys and root stay.
    pub fn revoke(&mut self, index: usize) -> (r: Result<bool, Error>)
        requires
            old(self).wf(),
        ensures
            r == revoke_outcome(old(self).marks(), index as int),
            final(self).marks() == revoke_marks(old(self).marks(), index as int),
            final(self).keys() == old(self).keys(),
            final(self).root_digest() == old(self).root_digest(),
            final(self).marks().len() == old(self).marks().len(),
            final(self).wf(),
    {
        self.revoked.revoke(index)
    }

    /// A copy of the revocation marks.
    pub fn revocation(&self) -> (r: Revocation)
        ensures
            r@ == self.marks(),
    {
        self.revoked.duplicate()
    }
}

} // verus!
