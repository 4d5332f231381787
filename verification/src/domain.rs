//! Fork-data roots, domains and signing roots: what binds a signature to a
//! chain, a fork and a payload.

use crate::merkle::{bytes_root, merkle_root, merkleize_pair, packed, pair_root, zeros, Merkleized};
use crate::types::{result_view, Bytes32, Error, ForkVersion, Node};
use vstd::prelude::*;
use vstd::slice::slice_to_vec;

verus! {

/// What validators sign: the root of an object, bound to a domain.
#[derive(Debug, Clone, PartialEq, Eq)]
pub struct SigningData {
    pub object_root: Bytes32,
    pub domain: Bytes32,
}

/// The fork a chain is on, bound to the genesis of that chain.
#[derive(Debug, PartialEq, Eq)]
pub struct ForkData {
    pub current_version: ForkVersion,
    pub genesis_validator_root: Bytes32,
}

impl Merkleized for SigningData {
    open spec fn spec_hash_tree_root(&self) -> Result<Seq<u8>, Error> {
        pair_root(self.object_root.spec_hash_tree_root(), self.domain.spec_hash_tree_root())
    }

    fn hash_tree_root(&mut self) -> (res: Result<Node, Error>) {
        let first = self.object_root.hash_tree_root();
        let second = self.domain.hash_tree_root();
        merkleize_pair(first, second)
    }
}

impl Merkleized for ForkData {
    open spec fn spec_hash_tree_root(&self) -> Result<Seq<u8>, Error> {
        pair_root(
            self.current_version.spec_hash_tree_root(),
            self.genesis_validator_root.spec_hash_tree_root(),
        )
    }

    fn hash_tree_root(&mut self) -> (res: Result<Node, Error>) {
        let first = self.current_version.hash_tree_root();
        let second = self.genesis_validator_root.hash_tree_root();
        merkleize_pair(first, second)
    }
}

/// The signing root of an object root under a domain: the Merkle root over
/// the two 32-byte chunks, the object root first.
pub open spec fn signing_root(object_root: Seq<u8>, domain: Seq<u8>) -> Result<Seq<u8>, Error> {
    if object_root.len() != 32 || domain.len() != 32 {
        Err(Error::MalformedInput)
    } else {
        Ok(merkle_root(object_root + domain))
    }
}

/// The fork-data root: the Merkle root over the chunk of the 4-byte version,
/// padded with 28 zero bytes, and the chunk of the genesis validators root.
pub open spec fn fork_data_root(current_version: Seq<u8>, genesis_validators_root: Seq<u8>) -> Result<
    Seq<u8>,
    Error,
> {
    if current_version.len() != 4 || genesis_validators_root.len() != 32 {
        Err(Error::MalformedInput)
    } else {
        Ok(merkle_root(current_version + zeros(28) + genesis_validators_root))
    }
}

/// The domain made of a 4-byte domain type and a fork-data root: the type,
/// then the first 28 bytes of the root.
pub open spec fn domain_from(domain_type: Seq<u8>, fork_data_root: Seq<u8>) -> Result<
    Seq<u8>,
    Error,
> {
    if domain_type.len() != 4 {
        Err(Error::MalformedInput)
    } else {
        Ok(domain_type + fork_data_root.subrange(0, 28))
    }
}

/// The domain of a domain type on a fork of a chain.
pub open spec fn domain_of(
    domain_type: Seq<u8>,
    fork_version: Seq<u8>,
    genesis_validators_root: Seq<u8>,
) -> Result<Seq<u8>, Error> {
    match fork_data_root(fork_version, genesis_validators_root) {
        Err(e) => Err(e),
        Ok(root) => domain_from(domain_type, root),
    }
}

/// A vector of up to 32 bytes is its own chunk, and a full chunk is left as
/// it is.
proof fn lemma_small_roots(bytes: Seq<u8>)
    ensures
        bytes.len() == 32 ==> bytes_root(bytes) == bytes,
        bytes.len() == 4 ==> bytes_root(bytes) == bytes + zeros(28),
{
    if bytes.len() == 32 {
        assert(packed(bytes) =~= bytes);
    }
    if bytes.len() == 4 {
        assert(packed(bytes) =~= bytes + zeros(28));
    }
}

/// The signing root is the hash-tree root of the record of the object root
/// and the domain, in that order.
pub proof fn signing_root_is_record_root(data: SigningData)
    ensures
        data.spec_hash_tree_root() == signing_root(data.object_root@, data.domain@),
{
    lemma_small_roots(data.object_root@);
    lemma_small_roots(data.domain@);
}

/// The fork-data root is the hash-tree root of the record of the fork
/// version and the genesis validators root, in that order.
pub proof fn fork_data_root_is_record_root(data: ForkData)
    ensures
        data.spec_hash_tree_root() == fork_data_root(
            data.current_version@,
            data.genesis_validator_root@,
        ),
{
    lemma_small_roots(data.current_version@);
    lemma_small_roots(data.genesis_validator_root@);
}

/// Computes the root that a signature over `object_root` in `domain` signs.
pub fn compute_signing_root(object_root: Bytes32, domain: Bytes32) -> (res: Result<Node, Error>)
    ensures
        result_view(res) == signing_root(object_root@, domain@),
{
    let mut data = SigningData { object_root, domain };
    proof {
        signing_root_is_record_root(data);
    }
    data.hash_tree_root()
}

/// Computes the root of the fork version and the genesis validators root.
pub fn compute_fork_data_root(current_version: ForkVersion, genesis_validator_root: Bytes32) -> (res:
    Result<Node, Error>)
    ensures
        result_view(res) == fork_data_root(current_version@, genesis_validator_root@),
{
    let mut fork_data = ForkData { current_version, genesis_validator_root };
    proof {
        fork_data_root_is_record_root(fork_data);
    }
    fork_data.hash_tree_root()
}

/// Joins a domain type and the first 28 bytes of a fork-data root into a
/// domain.
pub fn domain_from_root(domain_type: &[u8], fork_data_root: &Node) -> (res: Result<Bytes32, Error>)
    ensures
        result_view(res) == domain_from(domain_type@, fork_data_root@),
        res matches Ok(domain) ==> domain.wf(),
{
    if domain_type.len() != 4 {
        return Err(Error::MalformedInput);
    }
    let mut bytes: Vec<u8> = slice_to_vec(domain_type);
    let root = fork_data_root.as_slice();
    let mut i: usize = 0;
    while i < 28
        invariant
            i <= 28,
            root@.len() == 32,
            bytes@ == domain_type@ + root@.subrange(0, i as int),
        decreases 28 - i,
    {
        bytes.push(root[i]);
        assert(bytes@ =~= domain_type@ + root@.subrange(0, i + 1));
        i += 1;
    }
    Bytes32::try_from_vec(bytes)
}

/// Computes the domain that scopes signatures of one kind to a fork of a
/// chain.
pub fn compute_domain(domain_type: &[u8], fork_version: ForkVersion, genesis_root: Bytes32) -> (res:
    Result<Bytes32, Error>)
    ensures
        result_view(res) == domain_of(domain_type@, fork_version@, genesis_root@),
        res matches Ok(domain) ==> domain.wf(),
{
    match compute_fork_data_root(fork_version, genesis_root) {
        Ok(root) => domain_from_root(domain_type, &root),
        Err(e) => Err(e),
    }
}

/// The three computations fail on input of the wrong length and on nothing
/// else, and then with `Error::MalformedInput`.
pub proof fn computations_fail_on_malformed_input_only(
    object_root: Seq<u8>,
    domain: Seq<u8>,
    domain_type: Seq<u8>,
    fork_version: Seq<u8>,
    genesis_validators_root: Seq<u8>,
)
    ensures
        signing_root(object_root, domain) is Ok <==> object_root.len() == 32 && domain.len() == 32,
        fork_data_root(fork_version, genesis_validators_root) is Ok <==> fork_version.len() == 4
            && genesis_validators_root.len() == 32,
        domain_of(domain_type, fork_version, genesis_validators_root) is Ok <==> domain_type.len()
            == 4 && fork_version.len() == 4 && genesis_validators_root.len() == 32,
        signing_root(object_root, domain) matches Err(e) ==> e == Error::MalformedInput,
        fork_data_root(fork_version, genesis_validators_root) matches Err(e) ==> e
            == Error::MalformedInput,
        domain_of(domain_type, fork_version, genesis_validators_root) matches Err(e) ==> e
            == Error::MalformedInput,
{
}

/// Two outcomes of computing a domain from the same domain type, fork
/// version and genesis validators root are the same.
pub proof fn domain_is_determined(
    domain_type: Seq<u8>,
    fork_version: Seq<u8>,
    genesis_validators_root: Seq<u8>,
    first: Result<Bytes32, Error>,
    second: Result<Bytes32, Error>,
)
    requires
        result_view(first) == domain_of(domain_type, fork_version, genesis_validators_root),
        result_view(second) == domain_of(domain_type, fork_version, genesis_validators_root),
    ensures
        result_view(first) == result_view(second),
{
}

/// A domain is 32 bytes long: the 4 bytes of the domain type, followed by
/// bytes 0 to 27 of the fork-data root.
pub proof fn domain_layout(
    domain_type: Seq<u8>,
    fork_version: Seq<u8>,
    genesis_validators_root: Seq<u8>,
    root: Node,
)
    requires
        domain_type.len() == 4,
        fork_data_root(fork_version, genesis_validators_root) == Ok::<Seq<u8>, Error>(root@),
    ensures
        domain_of(domain_type, fork_version, genesis_validators_root) matches Ok(domain)
            && domain.len() == 32 && (forall|i: int| 0 <= i < 4 ==> domain[i] == domain_type[i])
            && (forall|i: int| 4 <= i < 32 ==> domain[i] == root@[i - 4]),
{
}

} // verus!
