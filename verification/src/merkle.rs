//! Hash-tree nodes and Merkle inclusion proofs against a header's state root.

use crate::types::{result_view, views, ByteVector, Bytes32, Error, ForkVersion, Header, Node};
use vstd::arithmetic::div_mod::lemma_basic_div;
use vstd::arithmetic::div_mod::lemma_div_non_zero;
use vstd::arithmetic::power2::{lemma2_to64, lemma2_to64_rest, lemma_pow2_pos, pow2};
use vstd::bits::lemma_usize_shr_is_div;
use vstd::prelude::*;
use vstd::slice::slice_to_vec;

verus! {

#[verifier::external_type_specification]
#[verifier::external_body]
pub struct ExMerkleizationError(ssz_rs::MerkleizationError);

/// The root that `ssz_rs` computes for the binary tree whose bottom layer is
/// `chunks`, padded with zero chunks to the next power of two.
pub uninterp spec fn merkle_root(chunks: Seq<u8>) -> Seq<u8>;

/// Whether `ssz_rs` accepts `branch` as the siblings on the path that leads
/// from `leaf`, at position `index` of a tree of the given `depth`, to `root`.
pub uninterp spec fn merkle_branch_valid(
    leaf: Seq<u8>,
    branch: Seq<Seq<u8>>,
    depth: nat,
    index: nat,
    root: Seq<u8>,
) -> bool;

/// Calls `ssz_rs::__internal::merkleize` with no limit on the number of chunks.
///
/// Trusted: the root it returns is `merkle_root` of the chunks, and it does
/// return one, since without a limit every path through `merkleize` ends in `Ok`.
/// The chunks must come in whole 32-byte units, which `merkleize` asserts.
#[verifier::external_body]
pub(crate) fn merkleize(chunks: &[u8]) -> (res: Result<Node, ssz_rs::MerkleizationError>)
    requires
        chunks@.len() % 32 == 0,
    ensures
        res is Ok,
        res matches Ok(root) ==> root@ == merkle_root(chunks@),
{
    let root = ssz_rs::__internal::merkleize(chunks, None)?;
    let mut bytes = [0u8; 32];
    bytes.copy_from_slice(root.as_ref());
    Ok(Node { bytes })
}

/// Calls `ssz_rs::is_valid_merkle_branch` on the nodes given.
///
/// Trusted: its answer is `merkle_branch_valid` of the same values. The depth
/// is bounded by the width of `usize` because the outside function computes
/// `2usize.pow(level)` for each level below `depth` that the branch reaches.
#[verifier::external_body]
pub(crate) fn is_valid_merkle_branch(
    leaf: &Node,
    branch: &Vec<Node>,
    depth: usize,
    index: usize,
    root: &Node,
) -> (res: bool)
    requires
        depth <= usize::BITS,
    ensures
        res == merkle_branch_valid(leaf@, views(branch@), depth as nat, index as nat, root@),
{
    let leaf = ssz_rs::Node::try_from(leaf.as_slice()).unwrap();
    let root = ssz_rs::Node::try_from(root.as_slice()).unwrap();
    let siblings: Vec<ssz_rs::Node> =
        branch.iter().map(|node| ssz_rs::Node::try_from(node.as_slice()).unwrap()).collect();
    ssz_rs::is_valid_merkle_branch(&leaf, siblings.iter(), depth, index, &root)
}

/// A value that reduces to a single 32-byte root, given its field layout.
pub trait Merkleized {
    /// The root the value reduces to, or why it has none.
    spec fn spec_hash_tree_root(&self) -> Result<Seq<u8>, Error>;

    /// Computes the root. The value may change in the course of it, but not
    /// what it reduces to.
    fn hash_tree_root(&mut self) -> (res: Result<Node, Error>)
        ensures
            result_view(res) == old(self).spec_hash_tree_root(),
            final(self).spec_hash_tree_root() == old(self).spec_hash_tree_root(),
    ;
}

/// Every item is one 32-byte chunk.
pub open spec fn all_chunks(items: Seq<Seq<u8>>) -> bool {
    forall|i: int| 0 <= i < items.len() ==> (#[trigger] items[i]).len() == 32
}

/// What converting `bytes` to a node gives.
pub open spec fn node_of(bytes: Seq<u8>) -> Result<Seq<u8>, Error> {
    if bytes.len() == 32 {
        Ok(bytes)
    } else {
        Err(Error::MalformedInput)
    }
}

/// What converting a whole branch to nodes gives.
pub open spec fn nodes_of(branch: Seq<Seq<u8>>) -> Result<Seq<Seq<u8>>, Error> {
    if all_chunks(branch) {
        Ok(branch)
    } else {
        Err(Error::MalformedInput)
    }
}

/// Copies one chunk into a node.
fn node_from_chunk(chunk: &[u8]) -> (node: Node)
    requires
        chunk@.len() == 32,
    ensures
        node@ == chunk@,
{
    let mut bytes = [0u8; 32];
    let mut i: usize = 0;
    while i < 32
        invariant
            i <= 32,
            chunk@.len() == 32,
            forall|j: int| 0 <= j < i ==> bytes@[j] == chunk@[j],
        decreases 32 - i,
    {
        bytes[i] = chunk[i];
        i += 1;
    }
    assert(bytes@ =~= chunk@);
    Node { bytes }
}

/// Reinterprets a 32-byte value as a hash-tree node, byte for byte.
pub fn bytes32_to_node(bytes: &Bytes32) -> (res: Result<Node, Error>)
    ensures
        result_view(res) == node_of(bytes@),
{
    let source = bytes.as_slice();
    if source.len() != 32 {
        return Err(Error::MalformedInput);
    }
    Ok(node_from_chunk(source))
}

/// Converts the values of a branch to nodes, in order; fails on the first
/// value that is not 32 bytes long.
fn slice_to_nodes(branch: &[Bytes32]) -> (res: Result<Vec<Node>, Error>)
    ensures
        match res {
            Ok(nodes) => nodes_of(views(branch@)) == Ok::<Seq<Seq<u8>>, Error>(views(nodes@)),
            Err(e) => nodes_of(views(branch@)) == Err::<Seq<Seq<u8>>, Error>(e),
        },
{
    let mut nodes: Vec<Node> = Vec::new();
    let mut i: usize = 0;
    while i < branch.len()
        invariant
            i <= branch.len(),
            nodes@.len() == i,
            forall|j: int| 0 <= j < i ==> (#[trigger] nodes@[j])@ == branch@[j]@,
            forall|j: int| 0 <= j < i ==> (#[trigger] branch@[j])@.len() == 32,
        decreases branch.len() - i,
    {
        match bytes32_to_node(&branch[i]) {
            Ok(node) => nodes.push(node),
            Err(e) => {
                assert(views(branch@)[i as int].len() != 32);
                return Err(e);
            },
        }
        i += 1;
    }
    assert(views(nodes@) =~= views(branch@));
    assert(all_chunks(views(branch@)));
    Ok(nodes)
}

/// Converts an ordered sequence of 32-byte values to hash-tree nodes,
/// keeping the order.
pub fn branch_to_nodes(branch: Vec<Bytes32>) -> (res: Result<Vec<Node>, Error>)
    ensures
        match res {
            Ok(nodes) => nodes_of(views(branch@)) == Ok::<Seq<Seq<u8>>, Error>(views(nodes@)),
            Err(e) => nodes_of(views(branch@)) == Err::<Seq<Seq<u8>>, Error>(e),
        },
{
    slice_to_nodes(branch.as_slice())
}

/// `count` zero bytes.
pub open spec fn zeros(count: nat) -> Seq<u8> {
    Seq::new(count, |i: int| 0u8)
}

/// The bytes laid out in 32-byte chunks: padded with zero bytes at the end up
/// to a whole number of chunks, and to one chunk where there are no bytes.
pub open spec fn packed(bytes: Seq<u8>) -> Seq<u8> {
    if bytes.len() == 0 {
        zeros(32)
    } else {
        bytes + zeros(((32 - bytes.len() % 32) % 32) as nat)
    }
}

/// The root of a vector of bytes: its one chunk where it fills no more than
/// that, the Merkle root of its chunks otherwise.
pub open spec fn bytes_root(bytes: Seq<u8>) -> Seq<u8> {
    if bytes.len() <= 32 {
        packed(bytes)
    } else {
        merkle_root(packed(bytes))
    }
}

/// The root of a record of two fields, from the roots of the fields: the
/// Merkle root over the two chunks, or the failure of the first field that has
/// no root.
pub open spec fn pair_root(
    first: Result<Seq<u8>, Error>,
    second: Result<Seq<u8>, Error>,
) -> Result<Seq<u8>, Error> {
    match first {
        Err(e) => Err(e),
        Ok(a) => match second {
            Err(e) => Err(e),
            Ok(b) => Ok(merkle_root(a + b)),
        },
    }
}

/// Lays `bytes` out in chunks.
fn pack(bytes: &[u8]) -> (chunks: Vec<u8>)
    ensures
        chunks@ == packed(bytes@),
        chunks@.len() % 32 == 0,
        chunks@.len() >= 32,
{
    let mut chunks: Vec<u8> = slice_to_vec(bytes);
    if chunks.len() == 0 {
        let mut i: usize = 0;
        while i < 32
            invariant
                i <= 32,
                chunks@ == zeros(i as nat),
            decreases 32 - i,
        {
            chunks.push(0u8);
            assert(chunks@ =~= zeros((i + 1) as nat));
            i += 1;
        }
        return chunks;
    }
    let ghost start: nat = bytes@.len();
    while chunks.len() % 32 != 0
        invariant
            start == bytes@.len(),
            start > 0,
            start <= chunks@.len(),
            chunks@ == bytes@ + zeros((chunks@.len() - start) as nat),
            (chunks@.len() - start) + (32 - chunks@.len() % 32) % 32 == (32 - start % 32) % 32,
        decreases (32 - chunks@.len() % 32) % 32,
    {
        chunks.push(0u8);
        assert(chunks@ =~= bytes@ + zeros((chunks@.len() - start) as nat));
    }
    chunks
}

/// Merges the roots of two fields into the root of their record.
pub fn merkleize_pair(first: Result<Node, Error>, second: Result<Node, Error>) -> (res: Result<
    Node,
    Error,
>)
    ensures
        result_view(res) == pair_root(result_view(first), result_view(second)),
{
    let a = match first {
        Ok(node) => node,
        Err(e) => {
            return Err(e);
        },
    };
    let b = match second {
        Ok(node) => node,
        Err(e) => {
            return Err(e);
        },
    };
    let mut chunks: Vec<u8> = slice_to_vec(a.as_slice());
    chunks.extend_from_slice(b.as_slice());
    assert(chunks@ =~= a@ + b@);
    match merkleize(chunks.as_slice()) {
        Ok(root) => Ok(root),
        Err(_) => Err(Error::HashingFailure),
    }
}

impl<const N: usize> Merkleized for ByteVector<N> {
    open spec fn spec_hash_tree_root(&self) -> Result<Seq<u8>, Error> {
        if self@.len() == N {
            Ok(bytes_root(self@))
        } else {
            Err(Error::MalformedInput)
        }
    }

    fn hash_tree_root(&mut self) -> (res: Result<Node, Error>) {
        if self.len() != N {
            return Err(Error::MalformedInput);
        }
        let chunks = pack(self.as_slice());
        if chunks.len() == 32 {
            Ok(node_from_chunk(chunks.as_slice()))
        } else {
            match merkleize(chunks.as_slice()) {
                Ok(root) => Ok(root),
                Err(_) => Err(Error::HashingFailure),
            }
        }
    }
}

impl Merkleized for ForkVersion {
    open spec fn spec_hash_tree_root(&self) -> Result<Seq<u8>, Error> {
        if self@.len() == 4 {
            Ok(bytes_root(self@))
        } else {
            Err(Error::MalformedInput)
        }
    }

    fn hash_tree_root(&mut self) -> (res: Result<Node, Error>) {
        let bytes = self.as_slice();
        if bytes.len() != 4 {
            return Err(Error::MalformedInput);
        }
        let chunks = pack(bytes);
        Ok(node_from_chunk(chunks.as_slice()))
    }
}

/// Whether `index` names a leaf position of a tree of the given `depth`.
fn index_in_tree(index: usize, depth: usize) -> (res: bool)
    requires
        depth <= usize::BITS,
    ensures
        res == (index < pow2(depth as nat)),
{
    if depth >= usize::BITS as usize {
        proof {
            lemma2_to64();
            lemma2_to64_rest();
        }
        true
    } else {
        proof {
            lemma_usize_shr_is_div(index, depth);
            lemma_pow2_pos(depth as nat);
            if index < pow2(depth as nat) {
                lemma_basic_div(index as int, pow2(depth as nat) as int);
            } else {
                lemma_div_non_zero(index as int, pow2(depth as nat) as int);
            }
        }
        index >> depth == 0
    }
}

/// The outcome of checking a proof, before any failure is folded into a
/// rejection: the failure that stopped the check, or whether the branch leads
/// from the leaf to the state root.
///
/// A failure to reduce the leaf comes first, then a state root or a branch
/// value that is not 32 bytes long. The proof is accepted when the branch has
/// exactly `depth` nodes, `index` is a position of a tree of that depth, and
/// the hashes agree. No proof deeper than the width of `usize` is accepted.
pub open spec fn proof_outcome(
    leaf_root: Result<Seq<u8>, Error>,
    state_root: Seq<u8>,
    branch: Seq<Seq<u8>>,
    depth: usize,
    index: usize,
) -> Result<bool, Error> {
    match leaf_root {
        Err(e) => Err(e),
        Ok(leaf) => if state_root.len() == 32 && all_chunks(branch) {
            Ok(
                branch.len() == depth && depth <= usize::BITS && index < pow2(depth as nat)
                    && merkle_branch_valid(leaf, branch, depth as nat, index as nat, state_root),
            )
        } else {
            Err(Error::MalformedInput)
        },
    }
}

/// A branch whose length is not the claimed depth is never accepted,
/// whatever its hashes are.
pub proof fn branch_of_other_length_is_not_accepted(
    leaf_root: Result<Seq<u8>, Error>,
    state_root: Seq<u8>,
    branch: Seq<Seq<u8>>,
    depth: usize,
    index: usize,
)
    requires
        branch.len() != depth,
    ensures
        proof_outcome(leaf_root, state_root, branch, depth, index) != Ok::<bool, Error>(true),
{
}

/// An index that is no position of a tree of the claimed depth is never
/// accepted, whatever the hashes are.
pub proof fn index_outside_the_tree_is_not_accepted(
    leaf_root: Result<Seq<u8>, Error>,
    state_root: Seq<u8>,
    branch: Seq<Seq<u8>>,
    depth: usize,
    index: usize,
)
    requires
        index >= pow2(depth as nat),
    ensures
        proof_outcome(leaf_root, state_root, branch, depth, index) != Ok::<bool, Error>(true),
{
}

/// Checks a proof against the root of the leaf, once that root, or the
/// failure to compute it, is known.
pub fn check_proof_of_root(
    attested_header: &Header,
    leaf_root: Result<Node, Error>,
    branch: &[Bytes32],
    depth: usize,
    index: usize,
) -> (res: Result<bool, Error>)
    ensures
        res == proof_outcome(
            result_view(leaf_root),
            attested_header.state_root@,
            views(branch@),
            depth,
            index,
        ),
{
    let leaf_hash = match leaf_root {
        Ok(node) => node,
        Err(e) => {
            return Err(e);
        },
    };
    let state_root = match bytes32_to_node(&attested_header.state_root) {
        Ok(node) => node,
        Err(e) => {
            return Err(e);
        },
    };
    let nodes = match slice_to_nodes(branch) {
        Ok(nodes) => nodes,
        Err(e) => {
            return Err(e);
        },
    };
    if nodes.len() != depth || depth > usize::BITS as usize || !index_in_tree(index, depth) {
        return Ok(false);
    }
    Ok(is_valid_merkle_branch(&leaf_hash, &nodes, depth, index, &state_root))
}

/// Checks that `leaf_object` lies under the state root of `attested_header`,
/// and says what kept the check from being made where it could not be.
pub fn check_proof<L: Merkleized>(
    attested_header: &Header,
    leaf_object: &mut L,
    branch: &[Bytes32],
    depth: usize,
    index: usize,
) -> (res: Result<bool, Error>)
    ensures
        res == proof_outcome(
            old(leaf_object).spec_hash_tree_root(),
            attested_header.state_root@,
            views(branch@),
            depth,
            index,
        ),
        final(leaf_object).spec_hash_tree_root() == old(leaf_object).spec_hash_tree_root(),
{
    let leaf_root = leaf_object.hash_tree_root();
    check_proof_of_root(attested_header, leaf_root, branch, depth, index)
}

/// Folds every failure into a rejection.
pub fn fail_closed(outcome: Result<bool, Error>) -> (res: bool)
    ensures
        res == (outcome == Ok::<bool, Error>(true)),
{
    match outcome {
        Ok(valid) => valid,
        Err(_) => false,
    }
}

/// Whether `branch` proves that `leaf_object` lies at position `index`, at
/// the given `depth`, under the state root of `attested_header`.
///
/// Never fails: whatever keeps the check from being made counts as a
/// rejection.
pub fn is_proof_valid<L: Merkleized>(
    attested_header: &Header,
    leaf_object: &mut L,
    branch: &[Bytes32],
    depth: usize,
    index: usize,
) -> (res: bool)
    ensures
        res == (proof_outcome(
            old(leaf_object).spec_hash_tree_root(),
            attested_header.state_root@,
            views(branch@),
            depth,
            index,
        ) == Ok::<bool, Error>(true)),
        branch@.len() != depth ==> !res,
        index >= pow2(depth as nat) ==> !res,
        final(leaf_object).spec_hash_tree_root() == old(leaf_object).spec_hash_tree_root(),
{
    fail_closed(check_proof(attested_header, leaf_object, branch, depth, index))
}

} // verus!
