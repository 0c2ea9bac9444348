//! Merkle trees over public keys: the root that commits to a list of keys,
//! the path that proves one key's membership, and the check of such a path.
//!
//! The tree is a full binary tree whose number of leaves is the smallest
//! power of two that holds all keys; places past the last key hold a fixed
//! filler digest. A path lists the sibling digests from the leaf up to the
//! root, each with the side on which the sibling stands, so the path alone
//! gives the leaf's index.

use vstd::prelude::*;
use crate::bytes::{append, constant_time_eq, copy_bytes, lemma_take_all, lemma_take_step};
use crate::codec::{sha256, sha256_digest};

verus! {

/// Two to the power `d`.
pub open spec fn pow2(d: nat) -> nat
    decreases d,
{
    if d == 0 {
        1
    } else {
        2 * pow2((d - 1) as nat)
    }
}

/// Powers of two grow with the exponent.
pub proof fn lemma_pow2_monotonic(a: nat, b: nat)
    requires
        a <= b,
    ensures
        1 <= pow2(a) <= pow2(b),
    decreases b,
{
    if a < b {
        lemma_pow2_monotonic(a, (b - 1) as nat);
    } else if a > 0 {
        lemma_pow2_monotonic((a - 1) as nat, (a - 1) as nat);
    }
}

proof fn lemma_pow2_64()
    ensures
        pow2(64) == 0x1_0000_0000_0000_0000,
{
    assert(pow2(16) == 0x1_0000) by {
        reveal_with_fuel(pow2, 17);
    }
    assert(pow2(32) == 0x1_0000_0000) by {
        lemma_pow2_sum(16, 16);
    }
    assert(pow2(64) == 0x1_0000_0000_0000_0000) by {
        lemma_pow2_sum(32, 32);
    }
}

proof fn lemma_pow2_sum(a: nat, b: nat)
    ensures
        pow2(a + b) == pow2(a) * pow2(b),
    decreases b,
{
    if b == 0 {
        assert(pow2(a) * 1 == pow2(a));
    } else {
        lemma_pow2_sum(a, (b - 1) as nat);
        assert(pow2(a) * (2 * pow2((b - 1) as nat)) == 2 * (pow2(a) * pow2((b - 1) as nat)))
            by (nonlinear_arith);
    }
}

/// The digest of a leaf that holds `key`.
pub open spec fn leaf_hash(key: Seq<u8>) -> Seq<u8> {
    sha256(seq![0u8] + key)
}

/// The digest of an inner node over its two children.
pub open spec fn node_hash(left: Seq<u8>, right: Seq<u8>) -> Seq<u8> {
    sha256(seq![1u8] + left + right)
}

/// The digest that stands in a place past the last key: 32 zero bytes.
pub open spec fn filler() -> Seq<u8> {
    Seq::new(32, |i: int| 0u8)
}

/// The leaf digests of a list of keys.
pub open spec fn leaf_hashes(keys: Seq<Seq<u8>>) -> Seq<Seq<u8>> {
    Seq::new(keys.len(), |i: int| leaf_hash(keys[i]))
}

/// The digest at place `i` of the bottom row.
pub open spec fn leaf_at(leaves: Seq<Seq<u8>>, i: int) -> Seq<u8> {
    if 0 <= i < leaves.len() {
        leaves[i]
    } else {
        filler()
    }
}

/// The digest of the subtree of the given depth whose first leaf is `lo`.
pub open spec fn subtree(leaves: Seq<Seq<u8>>, lo: int, depth: nat) -> Seq<u8>
    decreases depth,
{
    if depth == 0 {
        leaf_at(leaves, lo)
    } else {
        node_hash(
            subtree(leaves, lo, (depth - 1) as nat),
            subtree(leaves, lo + pow2((depth - 1) as nat), (depth - 1) as nat),
        )
    }
}

/// The depth reached by doubling `cap` until it holds `n` leaves.
pub open spec fn depth_above(n: nat, cap: nat, d: nat) -> nat
    decreases (if cap < n { n - cap } else { 0 }),
{
    if cap >= n || cap == 0 {
        d
    } else {
        depth_above(n, 2 * cap, d + 1)
    }
}

/// The depth of the tree over `n` leaves: the least `d` with `2^d >= n`.
pub open spec fn tree_depth(n: nat) -> nat {
    depth_above(n, 1, 0)
}

proof fn lemma_depth_above_covers(n: nat, cap: nat, d: nat)
    requires
        cap == pow2(d),
    ensures
        pow2(depth_above(n, cap, d)) >= n,
        depth_above(n, cap, d) >= d,
        depth_above(n, cap, d) > d ==> pow2((depth_above(n, cap, d) - 1) as nat) < n,
    decreases (if cap < n { n - cap } else { 0 }),
{
    lemma_pow2_monotonic(d, d);
    if cap >= n {
    } else {
        lemma_depth_above_covers(n, 2 * cap, d + 1);
    }
}

/// The tree's bottom row holds every leaf, and no shallower tree would.
pub proof fn lemma_tree_depth_least(n: nat)
    ensures
        pow2(tree_depth(n)) >= n,
        tree_depth(n) > 0 ==> pow2((tree_depth(n) - 1) as nat) < n,
{
    lemma_depth_above_covers(n, 1, 0);
}

/// The root digest of the tree over the given leaf digests.
pub open spec fn tree_root(leaves: Seq<Seq<u8>>) -> Seq<u8> {
    subtree(leaves, 0, tree_depth(leaves.len()))
}

/// One step of a path: a sibling digest and whether it stands on the left.
pub struct ProofNode {
    pub left: bool,
    pub digest: Vec<u8>,
}

/// The mathematical value of a `ProofNode`.
pub struct NodeView {
    pub left: bool,
    pub digest: Seq<u8>,
}

impl View for ProofNode {
    type V = NodeView;

    open spec fn view(&self) -> NodeView {
        NodeView { left: self.left, digest: self.digest@ }
    }
}

/// The values of a list of nodes.
pub open spec fn nodes_view(nodes: Seq<ProofNode>) -> Seq<NodeView> {
    Seq::new(nodes.len(), |i: int| nodes[i]@)
}

/// The values of a list of byte strings.
pub open spec fn bytes_list_view(list: Seq<Vec<u8>>) -> Seq<Seq<u8>> {
    Seq::new(list.len(), |i: int| list[i]@)
}

/// The digest one level up from `acc`, given the sibling.
pub open spec fn climb(acc: Seq<u8>, node: NodeView) -> Seq<u8> {
    if node.left {
        node_hash(node.digest, acc)
    } else {
        node_hash(acc, node.digest)
    }
}

/// The digest reached from `start` by climbing along `path`.
pub open spec fn climb_path(start: Seq<u8>, path: Seq<NodeView>) -> Seq<u8>
    decreases path.len(),
{
    if path.len() == 0 {
        start
    } else {
        climb(climb_path(start, path.drop_last()), path.last())
    }
}

/// The index of the leaf that a path starts from: the sum of `2^k` over the
/// steps `k` whose sibling stands on the left.
pub open spec fn path_index(path: Seq<NodeView>) -> nat
    decreases path.len(),
{
    if path.len() == 0 {
        0
    } else {
        path_index(path.drop_last()) + if path.last().left {
            pow2((path.len() - 1) as nat)
        } else {
            0
        }
    }
}

/// The path from leaf `i` up to the top of the subtree of the given depth
/// whose first leaf is `lo`.
pub open spec fn path_of(leaves: Seq<Seq<u8>>, lo: int, depth: nat, i: int) -> Seq<NodeView>
    decreases depth,
{
    if depth == 0 {
        Seq::empty()
    } else {
        let half = pow2((depth - 1) as nat);
        if i < lo + half {
            path_of(leaves, lo, (depth - 1) as nat, i).push(
                NodeView { left: false, digest: subtree(leaves, lo + half, (depth - 1) as nat) },
            )
        } else {
            path_of(leaves, lo + half, (depth - 1) as nat, i).push(
                NodeView { left: true, digest: subtree(leaves, lo, (depth - 1) as nat) },
            )
        }
    }
}

/// The inclusion path of leaf `i` in the tree over `leaves`.
pub open spec fn inclusion_path(leaves: Seq<Seq<u8>>, i: int) -> Seq<NodeView> {
    path_of(leaves, 0, tree_depth(leaves.len()), i)
}

/// What `leaf_index` answers.
pub open spec fn leaf_index_of(path: Seq<NodeView>, leaf_count: nat) -> Option<nat> {
    if path.len() == tree_depth(leaf_count) && path_index(path) < leaf_count {
        Some(path_index(path))
    } else {
        None
    }
}

/// Whether every digest of a path has the length of a SHA-256 digest.
pub open spec fn digests_sized(path: Seq<NodeView>) -> bool {
    forall|k: int| 0 <= k < path.len() ==> (#[trigger] path[k]).digest.len() == 32
}

/// Whether `path` leads from the leaf of `key` to `root`.
pub open spec fn path_leads_to(root: Seq<u8>, key: Seq<u8>, path: Seq<NodeView>) -> bool {
    climb_path(leaf_hash(key), path) == root
}

/// A path out of a subtree has one step per level, climbs from its leaf to
/// the subtree's digest, and gives back the leaf's place in the subtree.
pub proof fn lemma_path_of(leaves: Seq<Seq<u8>>, lo: int, depth: nat, i: int)
    requires
        lo <= i < lo + pow2(depth),
    ensures
        path_of(leaves, lo, depth, i).len() == depth,
        climb_path(leaf_at(leaves, i), path_of(leaves, lo, depth, i)) == subtree(
            leaves,
            lo,
            depth,
        ),
        path_index(path_of(leaves, lo, depth, i)) == i - lo,
    decreases depth,
{
    if depth == 0 {
    } else {
        let d = (depth - 1) as nat;
        let half = pow2(d);
        let path = path_of(leaves, lo, depth, i);
        if i < lo + half {
            let sub = path_of(leaves, lo, d, i);
            lemma_path_of(leaves, lo, d, i);
            assert(path.drop_last() =~= sub);
        } else {
            let sub = path_of(leaves, lo + half, d, i);
            lemma_path_of(leaves, lo + half, d, i);
            assert(path.drop_last() =~= sub);
        }
    }
}

/// Every key of a list is proved by its inclusion path: the path climbs from
/// the key's leaf to the root of the tree over the list, and its index is
/// the key's position.
pub proof fn lemma_inclusion_path_verifies(keys: Seq<Seq<u8>>, i: int)
    requires
        0 <= i < keys.len(),
    ensures
        path_leads_to(
            tree_root(leaf_hashes(keys)),
            keys[i],
            inclusion_path(leaf_hashes(keys), i),
        ),
        path_index(inclusion_path(leaf_hashes(keys), i)) == i,
        inclusion_path(leaf_hashes(keys), i).len() == tree_depth(keys.len()),
{
    let leaves = leaf_hashes(keys);
    lemma_tree_depth_least(leaves.len());
    lemma_path_of(leaves, 0, tree_depth(leaves.len()), i);
}

/// Two climbs along one path that start from different digests and end at
/// the same digest hash two different inputs to one digest on the way. The
/// two inputs are returned.
pub proof fn lemma_climbs_collide(x: Seq<u8>, y: Seq<u8>, path: Seq<NodeView>) -> (pair: (
    Seq<u8>,
    Seq<u8>,
))
    requires
        x != y,
        climb_path(x, path) == climb_path(y, path),
    ensures
        pair.0 != pair.1,
        sha256(pair.0) == sha256(pair.1),
    decreases path.len(),
{
    let below_x = climb_path(x, path.drop_last());
    let below_y = climb_path(y, path.drop_last());
    let d = path.last().digest;
    if below_x == below_y {
        lemma_climbs_collide(x, y, path.drop_last())
    } else if path.last().left {
        let a = seq![1u8] + d + below_x;
        let b = seq![1u8] + d + below_y;
        if a == b {
            assert(a.subrange(1 + d.len() as int, a.len() as int) =~= below_x);
            assert(b.subrange(1 + d.len() as int, b.len() as int) =~= below_y);
        }
        (a, b)
    } else {
        let a = seq![1u8] + below_x + d;
        let b = seq![1u8] + below_y + d;
        if a == b {
            assert(a.len() == 1 + below_x.len() + d.len());
            assert(b.len() == 1 + below_y.len() + d.len());
            assert(a.subrange(1, 1 + below_x.len() as int) =~= below_x);
            assert(b.subrange(1, 1 + below_y.len() as int) =~= below_y);
        }
        (a, b)
    }
}

/// A key that is not the one at place `i` is proved by the inclusion path
/// of place `i` only where SHA-256 maps two different inputs to one digest:
/// the two inputs, which the two climbs hash, are returned.
pub proof fn lemma_foreign_key_collides(keys: Seq<Seq<u8>>, i: int, key: Seq<u8>) -> (pair: (
    Seq<u8>,
    Seq<u8>,
))
    requires
        0 <= i < keys.len(),
        key != keys[i],
        path_leads_to(tree_root(leaf_hashes(keys)), key, inclusion_path(leaf_hashes(keys), i)),
    ensures
        pair.0 != pair.1,
        sha256(pair.0) == sha256(pair.1),
{
    lemma_inclusion_path_verifies(keys, i);
    let path = inclusion_path(leaf_hashes(keys), i);
    if leaf_hash(key) == leaf_hash(keys[i]) {
        let a = seq![0u8] + key;
        let b = seq![0u8] + keys[i];
        if a == b {
            assert(a.subrange(1, a.len() as int) =~= key);
            assert(b.subrange(1, b.len() as int) =~= keys[i]);
        }
        (a, b)
    } else {
        lemma_climbs_collide(leaf_hash(key), leaf_hash(keys[i]), path)
    }
}

/// Whether every SHA-256 digest has 32 bytes.
pub open spec fn digests_have_32_bytes() -> bool {
    forall|data: Seq<u8>| (#[trigger] sha256(data)).len() == 32
}

/// A path that climbs from a digest to the digest of a subtree is the path
/// of the leaf that its sides point at, and starts from that leaf's digest,
/// unless SHA-256 maps two different inputs to one digest on the way: then
/// the two inputs are returned.
pub proof fn lemma_path_binds(
    leaves: Seq<Seq<u8>>,
    lo: int,
    depth: nat,
    start: Seq<u8>,
    path: Seq<NodeView>,
) -> (pair: Option<(Seq<u8>, Seq<u8>)>)
    requires
        digests_have_32_bytes(),
        forall|k: int| 0 <= k < leaves.len() ==> (#[trigger] leaves[k]).len() == 32,
        digests_sized(path),
        start.len() == 32,
        path.len() == depth,
        climb_path(start, path) == subtree(leaves, lo, depth),
    ensures
        match pair {
            Some(p) => p.0 != p.1 && sha256(p.0) == sha256(p.1),
            None => {
                &&& path_index(path) < pow2(depth)
                &&& start == leaf_at(leaves, lo + path_index(path))
                &&& path == path_of(leaves, lo, depth, lo + path_index(path))
            },
        },
    decreases depth,
{
    if depth == 0 {
        assert(path =~= path_of(leaves, lo, depth, lo));
        None
    } else {
        let d = (depth - 1) as nat;
        let half = pow2(d);
        let init = path.drop_last();
        let last = path.last();
        let below = climb_path(start, init);
        let left = subtree(leaves, lo, d);
        let right = subtree(leaves, lo + half, d);
        let target = seq![1u8] + left + right;
        assert(below.len() == 32) by {
            if init.len() > 0 {
                assert(below == climb(climb_path(start, init.drop_last()), init.last()));
            }
        }
        assert(left.len() == 32 && right.len() == 32) by {
            assert(filler().len() == 32);
        }
        assert(last.digest.len() == 32);
        assert(digests_sized(init)) by {
            assert forall|k: int| 0 <= k < init.len() implies (#[trigger] init[k]).digest.len()
                == 32 by {
                assert(init[k] == path[k]);
            }
        }
        if last.left {
            let input = seq![1u8] + last.digest + below;
            if input != target {
                Some((input, target))
            } else {
                assert(input.subrange(1, 33) =~= last.digest);
                assert(target.subrange(1, 33) =~= left);
                assert(input.subrange(33, 65) =~= below);
                assert(target.subrange(33, 65) =~= right);
                let inner = lemma_path_binds(leaves, lo + half, d, start, init);
                if inner is None {
                    let i = lo + half + path_index(init);
                    assert(path_of(leaves, lo, depth, i) =~= init.push(last));
                    assert(path =~= init.push(last));
                }
                inner
            }
        } else {
            let input = seq![1u8] + below + last.digest;
            if input != target {
                Some((input, target))
            } else {
                assert(input.subrange(1, 33) =~= below);
                assert(target.subrange(1, 33) =~= left);
                assert(input.subrange(33, 65) =~= last.digest);
                assert(target.subrange(33, 65) =~= right);
                let inner = lemma_path_binds(leaves, lo, d, start, init);
                if inner is None {
                    let i = lo + path_index(init);
                    assert(path_of(leaves, lo, depth, i) =~= init.push(last));
                    assert(path =~= init.push(last));
                }
                inner
            }
        }
    }
}

/// An inclusion proof that is accepted is bound to its leaf: a path of the
/// tree's depth that leads from a key to the root of the tree over `keys`,
/// and whose sides point at place `i` of the tree, is the inclusion path of
/// place `i`, and the key is the key at place `i`, unless SHA-256 maps two
/// different inputs to one digest: then the two inputs are returned. So a
/// path with a changed side or sibling, or the path of another place, is
/// not accepted for the key.
pub proof fn lemma_accepted_proof_is_honest(keys: Seq<Seq<u8>>, key: Seq<u8>, path: Seq<NodeView>) -> (pair:
    Option<(Seq<u8>, Seq<u8>)>)
    requires
        digests_have_32_bytes(),
        digests_sized(path),
        path.len() == tree_depth(keys.len()),
        path_index(path) < keys.len(),
        path_leads_to(tree_root(leaf_hashes(keys)), key, path),
    ensures
        match pair {
            Some(p) => p.0 != p.1 && sha256(p.0) == sha256(p.1),
            None => key == keys[path_index(path) as int] && path == inclusion_path(
                leaf_hashes(keys),
                path_index(path) as int,
            ),
        },
{
    let leaves = leaf_hashes(keys);
    let i = path_index(path) as int;
    let inner = lemma_path_binds(leaves, 0, tree_depth(keys.len()), leaf_hash(key), path);
    if inner is Some {
        inner
    } else if key == keys[i] {
        None
    } else {
        let a = seq![0u8] + key;
        let b = seq![0u8] + keys[i];
        if a == b {
            assert(a.subrange(1, a.len() as int) =~= key);
            assert(b.subrange(1, b.len() as int) =~= keys[i]);
        }
        Some((a, b))
    }
}

/// The depth of the tree over `n` leaves and the width of its bottom row.
pub fn tree_shape(n: usize) -> (shape: (u64, u128))
    ensures
        shape.0 == tree_depth(n as nat),
        shape.1 == pow2(shape.0 as nat),
        shape.1 >= n,
        shape.1 <= 2 * n + 1,
        shape.0 <= 65,
{
    let mut depth: u64 = 0;
    let mut cap: u128 = 1;
    while cap < n as u128
        invariant
            cap == pow2(depth as nat),
            depth_above(n as nat, cap as nat, depth as nat) == tree_depth(n as nat),
            depth < cap,
            cap <= 2 * n + 1,
        decreases (if cap < n { n - cap } else { 0 }),
    {
        cap = cap * 2;
        depth = depth + 1;
    }
    proof {
        if depth > 65 {
            lemma_pow2_64();
            lemma_pow2_monotonic(66, depth as nat);
            assert(pow2(66) == 2 * (2 * pow2(64))) by {
                reveal_with_fuel(pow2, 3);
            }
        }
    }
    (depth, cap)
}

pub(crate) fn hash_leaf(key: &[u8]) -> (digest: Vec<u8>)
    ensures
        digest@ == leaf_hash(key@),
        digest@.len() == 32,
{
    let mut input: Vec<u8> = Vec::new();
    input.push(0);
    append(&mut input, key);
    assert(input@ =~= seq![0u8] + key@);
    sha256_digest(input.as_slice())
}

fn hash_node(left: &[u8], right: &[u8]) -> (digest: Vec<u8>)
    ensures
        digest@ == node_hash(left@, right@),
        digest@.len() == 32,
{
    let mut input: Vec<u8> = Vec::new();
    input.push(1);
    append(&mut input, left);
    append(&mut input, right);
    assert(input@ =~= seq![1u8] + left@ + right@);
    sha256_digest(input.as_slice())
}

fn filler_digest() -> (digest: Vec<u8>)
    ensures
        digest@ == filler(),
{
    let mut digest: Vec<u8> = Vec::new();
    let mut i: usize = 0;
    while i < 32
        invariant
            i <= 32,
            digest@.len() == i,
            forall|j: int| 0 <= j < i ==> digest@[j] == 0u8,
        decreases 32 - i,
    {
        digest.push(0);
        i += 1;
    }
    assert(digest@ =~= filler());
    digest
}

pub(crate) fn subtree_digest(leaves: &Vec<Vec<u8>>, lo: u128, depth: u64, width: u128) -> (digest: Vec<u8>)
    requires
        width == pow2(depth as nat),
        lo + width <= u128::MAX,
        forall|k: int| 0 <= k < leaves@.len() ==> (#[trigger] leaves@[k])@.len() == 32,
    ensures
        digest@ == subtree(bytes_list_view(leaves@), lo as int, depth as nat),
        digest@.len() == 32,
    decreases depth,
{
    if depth == 0 {
        if lo < leaves.len() as u128 {
            copy_bytes(leaves[lo as usize].as_slice())
        } else {
            filler_digest()
        }
    } else {
        let half: u128 = width / 2;
        let left: Vec<u8> = subtree_digest(leaves, lo, depth - 1, half);
        let right: Vec<u8> = subtree_digest(leaves, lo + half, depth - 1, half);
        hash_node(left.as_slice(), right.as_slice())
    }
}

pub(crate) fn subtree_path(leaves: &Vec<Vec<u8>>, lo: u128, depth: u64, width: u128, index: u128) -> (path:
    Vec<ProofNode>)
    requires
        width == pow2(depth as nat),
        lo + width <= u128::MAX,
        forall|k: int| 0 <= k < leaves@.len() ==> (#[trigger] leaves@[k])@.len() == 32,
    ensures
        nodes_view(path@) == path_of(
            bytes_list_view(leaves@),
            lo as int,
            depth as nat,
            index as int,
        ),
        digests_sized(nodes_view(path@)),
    decreases depth,
{
    if depth == 0 {
        let path: Vec<ProofNode> = Vec::new();
        assert(nodes_view(path@) =~= Seq::<NodeView>::empty());
        path
    } else {
        let half: u128 = width / 2;
        if index < lo + half {
            let mut path: Vec<ProofNode> = subtree_path(leaves, lo, depth - 1, half, index);
            let ghost before = nodes_view(path@);
            let digest: Vec<u8> = subtree_digest(leaves, lo + half, depth - 1, half);
            let node = ProofNode { left: false, digest };
            path.push(node);
            assert(nodes_view(path@) =~= before.push(node@));
            path
        } else {
            let mut path: Vec<ProofNode> = subtree_path(leaves, lo + half, depth - 1, half, index);
            let ghost before = nodes_view(path@);
            let digest: Vec<u8> = subtree_digest(leaves, lo, depth - 1, half);
            let node = ProofNode { left: true, digest };
            path.push(node);
            assert(nodes_view(path@) =~= before.push(node@));
            path
        }
    }
}

/// The leaf index that a path gives in a tree over `leaf_count` leaves:
/// `None` unless the path has one step per level of that tree and starts at
/// one of its leaves.
pub fn leaf_index(path: &Vec<ProofNode>, leaf_count: usize) -> (index: Option<usize>)
    ensures
        match index {
            Some(i) => leaf_index_of(nodes_view(path@), leaf_count as nat) == Some(i as nat),
            None => leaf_index_of(nodes_view(path@), leaf_count as nat) is None,
        },
{
    let shape: (u64, u128) = tree_shape(leaf_count);
    let depth: u64 = shape.0;
    let width: u128 = shape.1;
    if path.len() as u64 != depth || path.len() > 65 {
        return None;
    }
    let ghost all = nodes_view(path@);
    let mut index: u128 = 0;
    let mut bit: u128 = 1;
    let mut i: usize = 0;
    while i < path.len()
        invariant
            i <= path.len(),
            path.len() == depth,
            width == pow2(depth as nat),
            width <= 2 * leaf_count + 1,
            all == nodes_view(path@),
            bit == pow2(i as nat),
            index == path_index(all.take(i as int)),
            index < bit,
        decreases path.len() - i,
    {
        proof {
            lemma_take_step(all, i as int);
            lemma_pow2_monotonic((i + 1) as nat, depth as nat);
            assert(pow2((i + 1) as nat) == 2 * pow2(i as nat));
        }
        if path[i].left {
            index = index + bit;
        }
        bit = bit * 2;
        i += 1;
    }
    proof {
        lemma_take_all(all);
    }
    if index < leaf_count as u128 {
        Some(index as usize)
    } else {
        None
    }
}

/// The digest reached from the leaf of `key` by climbing along `path`.
pub fn climb_from_key(key: &[u8], path: &Vec<ProofNode>) -> (top: Vec<u8>)
    ensures
        top@ == climb_path(leaf_hash(key@), nodes_view(path@)),
{
    let mut acc: Vec<u8> = hash_leaf(key);
    let mut i: usize = 0;
    let ghost all = nodes_view(path@);
    while i < path.len()
        invariant
            i <= path.len(),
            all == nodes_view(path@),
            acc@ == climb_path(leaf_hash(key@), all.take(i as int)),
        decreases path.len() - i,
    {
        proof {
            lemma_take_step(all, i as int);
        }
        let node: &ProofNode = &path[i];
        if node.left {
            acc = hash_node(node.digest.as_slice(), acc.as_slice());
        } else {
            acc = hash_node(acc.as_slice(), node.digest.as_slice());
        }
        i += 1;
    }
    proof {
        lemma_take_all(all);
    }
    acc
}

/// Whether `path` proves that `key` is a leaf of the tree with the given
/// root. The digests are compared in constant time.
pub fn verify_inclusion(root: &[u8], key: &[u8], path: &Vec<ProofNode>) -> (ok: bool)
    ensures
        ok == path_leads_to(root@, key@, nodes_view(path@)),
{
    let top: Vec<u8> = climb_from_key(key, path);
    constant_time_eq(top.as_slice(), root)
}

} // verus!
