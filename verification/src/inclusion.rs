//! Inclusion proofs as they travel inside a signature envelope: the digest
//! algorithm's tag, the number of steps in two bytes, big end first, then
//! for each step one byte for the side (1 where the sibling stands on the
//! left, else 0) and the sibling's 32-byte digest.

use vstd::prelude::*;
use vstd::slice::slice_subrange;
use crate::bytes::{append, copy_bytes, lemma_take_all, lemma_take_step};
use crate::merkle::{digests_sized, nodes_view, NodeView, ProofNode};

verus! {

/// The tag of SHA-256 among the digest algorithms.
pub const DIGEST_SHA256: u8 = 0;

/// An inclusion path together with the tag of the digest it was made with.
pub struct InclusionProof {
    pub digest_tag: u8,
    pub nodes: Vec<ProofNode>,
}

/// The mathematical value of an `InclusionProof`.
pub struct ProofView {
    pub digest_tag: u8,
    pub nodes: Seq<NodeView>,
}

impl View for InclusionProof {
    type V = ProofView;

    open spec fn view(&self) -> ProofView {
        ProofView { digest_tag: self.digest_tag, nodes: nodes_view(self.nodes@) }
    }
}

/// A proof can be written when its step count fits two bytes and every
/// digest has 32 bytes.
pub open spec fn writable(p: ProofView) -> bool {
    p.nodes.len() <= 0xFFFF && digests_sized(p.nodes)
}

/// The byte that stands for a step's side.
pub open spec fn side_of(node: NodeView) -> u8 {
    if node.left {
        1u8
    } else {
        0u8
    }
}

/// The bytes of one step.
pub open spec fn node_bytes(node: NodeView) -> Seq<u8> {
    seq![side_of(node)] + node.digest
}

/// The bytes of the steps, in order.
pub open spec fn nodes_bytes(nodes: Seq<NodeView>) -> Seq<u8>
    decreases nodes.len(),
{
    if nodes.len() == 0 {
        Seq::empty()
    } else {
        nodes_bytes(nodes.drop_last()) + node_bytes(nodes.last())
    }
}

/// The bytes of a proof.
pub open spec fn proof_bytes(p: ProofView) -> Seq<u8> {
    seq![p.digest_tag, (p.nodes.len() / 256) as u8, (p.nodes.len() % 256) as u8] + nodes_bytes(
        p.nodes,
    )
}

/// The step count that a byte string announces.
pub open spec fn announced(b: Seq<u8>) -> int {
    b[1] * 256 + b[2]
}

/// The side byte of step `k` in a byte string.
pub open spec fn side_byte(b: Seq<u8>, k: int) -> u8 {
    b[3 + 33 * k]
}

/// Step `k` as read from a byte string.
pub open spec fn decoded_node(b: Seq<u8>, k: int) -> NodeView {
    NodeView { left: side_byte(b, k) == 1, digest: b.subrange(3 + 33 * k + 1, 3 + 33 * k + 33) }
}

/// Whether a byte string holds a proof: a header, exactly the announced
/// number of steps, and no side byte other than 0 and 1.
pub open spec fn decodable(b: Seq<u8>) -> bool {
    &&& b.len() >= 3
    &&& b.len() == 3 + 33 * announced(b)
    &&& forall|k: int| 0 <= k < announced(b) ==> #[trigger] side_byte(b, k) <= 1
}

/// The proof that a byte string holds, if it holds one.
pub open spec fn decoded(b: Seq<u8>) -> Option<ProofView> {
    if decodable(b) {
        Some(
            ProofView {
                digest_tag: b[0],
                nodes: Seq::new(announced(b) as nat, |k: int| decoded_node(b, k)),
            },
        )
    } else {
        None
    }
}

/// The view of an optional proof.
pub open spec fn proof_option_view(p: Option<InclusionProof>) -> Option<ProofView> {
    match p {
        Some(q) => Some(q@),
        None => None,
    }
}

proof fn lemma_nodes_bytes_len(nodes: Seq<NodeView>)
    requires
        digests_sized(nodes),
    ensures
        nodes_bytes(nodes).len() == 33 * nodes.len(),
    decreases nodes.len(),
{
    if nodes.len() > 0 {
        lemma_nodes_bytes_len(nodes.drop_last());
    }
}

proof fn lemma_nodes_bytes_at(nodes: Seq<NodeView>, k: int)
    requires
        digests_sized(nodes),
        0 <= k < nodes.len(),
    ensures
        nodes_bytes(nodes).len() == 33 * nodes.len(),
        nodes_bytes(nodes)[33 * k] == side_of(nodes[k]),
        nodes_bytes(nodes).subrange(33 * k + 1, 33 * k + 33) == nodes[k].digest,
    decreases nodes.len(),
{
    let init = nodes.drop_last();
    lemma_nodes_bytes_len(nodes);
    lemma_nodes_bytes_len(init);
    if k < nodes.len() - 1 {
        lemma_nodes_bytes_at(init, k);
        assert(nodes_bytes(nodes).subrange(33 * k + 1, 33 * k + 33) =~= nodes_bytes(
            init,
        ).subrange(33 * k + 1, 33 * k + 33));
    } else {
        assert(nodes_bytes(nodes).subrange(33 * k + 1, 33 * k + 33) =~= nodes[k].digest);
    }
}

/// Reading what was written gives the proof back.
pub proof fn lemma_decode_encode(p: ProofView)
    requires
        writable(p),
    ensures
        decoded(proof_bytes(p)) == Some(p),
{
    let b = proof_bytes(p);
    let n = p.nodes.len() as int;
    lemma_nodes_bytes_len(p.nodes);
    assert(announced(b) == n);
    assert forall|k: int| 0 <= k < n implies #[trigger] side_byte(b, k) <= 1 && decoded_node(b, k)
        == p.nodes[k] by {
        lemma_nodes_bytes_at(p.nodes, k);
        assert(b[3 + 33 * k] == nodes_bytes(p.nodes)[33 * k]);
        assert(b.subrange(3 + 33 * k + 1, 3 + 33 * k + 33) =~= nodes_bytes(p.nodes).subrange(
            33 * k + 1,
            33 * k + 33,
        ));
    }
    assert(decodable(b));
    assert(decoded(b).unwrap().nodes =~= p.nodes);
}

impl InclusionProof {
    /// Whether the proof can be written.
    pub open spec fn wf(&self) -> bool {
        writable(self@)
    }

    /// Whether the proof can be written; see `writable`.
    pub fn is_writable(&self) -> (ok: bool)
        ensures
            ok == self.wf(),
    {
        if self.nodes.len() > 0xFFFF {
            return false;
        }
        let mut i: usize = 0;
        while i < self.nodes.len()
            invariant
                i <= self.nodes.len(),
                forall|k: int| 0 <= k < i ==> (#[trigger] self@.nodes[k]).digest.len() == 32,
            decreases self.nodes.len() - i,
        {
            if self.nodes[i].digest.len() != 32 {
                assert(self@.nodes[i as int].digest.len() != 32);
                return false;
            }
            i += 1;
        }
        true
    }

    /// Writes the proof: `None` where it cannot be written. What is
    /// written reads back as the proof.
    pub fn encode(&self) -> (out: Option<Vec<u8>>)
        ensures
            match out {
                Some(bytes) => self.wf() && bytes@ == proof_bytes(self@) && decoded(bytes@)
                    == Some(self@),
                None => !self.wf(),
            },
    {
        if !self.is_writable() {
            return None;
        }
        proof {
            lemma_decode_encode(self@);
        }
        Some(self.write())
    }

    /// Writes a proof that can be written.
    fn write(&self) -> (out: Vec<u8>)
        requires
            self.wf(),
        ensures
            out@ == proof_bytes(self@),
    {
        let count: usize = self.nodes.len();
        let mut out: Vec<u8> = Vec::new();
        out.push(self.digest_tag);
        out.push((count / 256) as u8);
        out.push((count % 256) as u8);
        let ghost header = out@;
        let ghost all = nodes_view(self.nodes@);
        let mut i: usize = 0;
        assert(header + nodes_bytes(all.take(0)) =~= header);
        while i < count
            invariant
                i <= count,
                count == self.nodes.len(),
                all == nodes_view(self.nodes@),
                out@ == header + nodes_bytes(all.take(i as int)),
            decreases count - i,
        {
            let node: &ProofNode = &self.nodes[i];
            let ghost before = out@;
            out.push(if node.left {
                1
            } else {
                0
            });
            append(&mut out, node.digest.as_slice());
            proof {
                lemma_take_step(all, i as int);
                assert(out@ =~= before + node_bytes(node@));
                assert(out@ =~= header + nodes_bytes(all.take(i + 1)));
            }
            i += 1;
        }
        proof {
            lemma_take_all(all);
            assert(header =~= seq![
                self.digest_tag,
                (self@.nodes.len() / 256) as u8,
                (self@.nodes.len() % 256) as u8,
            ]);
        }
        out
    }

    /// Reads a proof: `Some` exactly for the byte strings that hold one.
    pub fn decode(bytes: &[u8]) -> (p: Option<InclusionProof>)
        ensures
            proof_option_view(p) == decoded(bytes@),
            p matches Some(q) ==> q.wf(),
    {
        if bytes.len() < 3 {
            return None;
        }
        let count: usize = bytes[1] as usize * 256 + bytes[2] as usize;
        if bytes.len() - 3 != 33 * count {
            return None;
        }
        let mut nodes: Vec<ProofNode> = Vec::new();
        let mut k: usize = 0;
        while k < count
            invariant
                k <= count,
                count == announced(bytes@),
                bytes@.len() == 3 + 33 * count,
                nodes@.len() == k,
                forall|j: int| 0 <= j < k ==> #[trigger] side_byte(bytes@, j) <= 1,
                forall|j: int| 0 <= j < k ==> (#[trigger] nodes@[j])@ == decoded_node(bytes@, j),
            decreases count - k,
        {
            let at: usize = 3 + 33 * k;
            let side: u8 = bytes[at];
            if side > 1 {
                assert(side_byte(bytes@, k as int) > 1);
                return None;
            }
            let digest: Vec<u8> = copy_bytes(slice_subrange(bytes, at + 1, at + 33));
            nodes.push(ProofNode { left: side == 1, digest });
            k += 1;
        }
        let p = InclusionProof { digest_tag: bytes[0], nodes };
        assert(p@.nodes =~= decoded(bytes@).unwrap().nodes);
        Some(p)
    }

    /// A copy of the proof.
    pub fn duplicate(&self) -> (p: InclusionProof)
        ensures
            p@ == self@,
    {
        let mut nodes: Vec<ProofNode> = Vec::new();
        let mut i: usize = 0;
        while i < self.nodes.len()
            invariant
                i <= self.nodes.len(),
                nodes@.len() == i,
                forall|j: int| 0 <= j < i ==> (#[trigger] nodes@[j])@ == self.nodes@[j]@,
            decreases self.nodes.len() - i,
        {
            let node: &ProofNode = &self.nodes[i];
            nodes.push(ProofNode { left: node.left, digest: copy_bytes(node.digest.as_slice()) });
            i += 1;
        }
        let p = InclusionProof { digest_tag: self.digest_tag, nodes };
        assert(p@.nodes =~= self@.nodes);
        p
    }
}

} // verus!
