//! Fixed-size byte values exchanged with the rest of the client.

use vstd::prelude::*;
use vstd::slice::slice_to_vec;

verus! {

/// Why a computation could not produce its result.
#[derive(Debug, Clone, Copy, PartialEq, Eq, Structural)]
pub enum Error {
    /// A fixed-size value did not have the length its type calls for.
    MalformedInput,
    /// A value could not be reduced to its hash-tree root.
    HashingFailure,
    /// A text was not an even number of hexadecimal digits.
    InvalidHex,
}

/// A byte string meant to hold exactly `N` bytes.
///
/// The checked constructors are the only way to make one, so every value
/// built by running code is well formed. Functions that take one still test
/// the length and report `Error::MalformedInput` instead of assuming it.
#[derive(Debug, Clone, PartialEq, Eq)]
pub struct ByteVector<const N: usize> {
    bytes: Vec<u8>,
}

/// A 32-byte value: a state root, an object root, a domain, a leaf hash.
pub type Bytes32 = ByteVector<32>;

/// A compressed aggregate BLS signature.
pub type SignatureBytes = ByteVector<96>;

impl<const N: usize> View for ByteVector<N> {
    type V = Seq<u8>;

    closed spec fn view(&self) -> Seq<u8> {
        self.bytes@
    }
}

impl<const N: usize> ByteVector<N> {
    /// Holds exactly `N` bytes.
    pub open spec fn wf(&self) -> bool {
        self@.len() == N
    }

    /// Copies `bytes` into a byte vector, if there are exactly `N` of them.
    pub fn try_from_slice(bytes: &[u8]) -> (res: Result<Self, Error>)
        ensures
            res is Ok <==> bytes@.len() == N,
            res matches Ok(v) ==> v@ == bytes@ && v.wf(),
            res matches Err(e) ==> e == Error::MalformedInput,
    {
        if bytes.len() != N {
            return Err(Error::MalformedInput);
        }
        Ok(ByteVector { bytes: slice_to_vec(bytes) })
    }

    /// Takes `bytes` over as a byte vector, if there are exactly `N` of them.
    pub fn try_from_vec(bytes: Vec<u8>) -> (res: Result<Self, Error>)
        ensures
            res is Ok <==> bytes@.len() == N,
            res matches Ok(v) ==> v@ == bytes@ && v.wf(),
            res matches Err(e) ==> e == Error::MalformedInput,
    {
        if bytes.len() != N {
            return Err(Error::MalformedInput);
        }
        Ok(ByteVector { bytes })
    }

    /// The bytes held.
    pub fn as_slice(&self) -> (res: &[u8])
        ensures
            res@ == self@,
    {
        self.bytes.as_slice()
    }

    /// How many bytes are held.
    pub fn len(&self) -> (res: usize)
        ensures
            res == self@.len(),
    {
        self.bytes.len()
    }
}

/// Identifies the active hard fork: the four bytes of the version, held in
/// the fixed-length vector of the SSZ library.
#[verifier::external_body]
#[derive(Debug, PartialEq, Eq)]
pub struct ForkVersion {
    inner: ssz_rs::Vector<u8, 4>,
}

/// The bytes that a fork version holds, in order.
pub uninterp spec fn fork_version_bytes(version: ForkVersion) -> Seq<u8>;

/// Calls `Vector::<u8, 4>::try_from` on a copy of the bytes.
///
/// Trusted: a vector is made of exactly four bytes and of nothing else, and
/// it holds the bytes it was made of.
#[verifier::external_body]
fn vector_from_slice(bytes: &[u8]) -> (res: Option<ForkVersion>)
    ensures
        res is Some <==> bytes@.len() == 4,
        res matches Some(version) ==> fork_version_bytes(version) == bytes@,
{
    match ssz_rs::Vector::try_from(bytes.to_vec()) {
        Ok(inner) => Some(ForkVersion { inner }),
        Err(_) => None,
    }
}

/// Calls `Vector::as_ref`.
///
/// Trusted: the slice it returns holds the bytes of the vector.
#[verifier::external_body]
fn vector_as_slice(version: &ForkVersion) -> (res: &[u8])
    ensures
        res@ == fork_version_bytes(*version),
{
    version.inner.as_ref()
}

impl View for ForkVersion {
    type V = Seq<u8>;

    open spec fn view(&self) -> Seq<u8> {
        fork_version_bytes(*self)
    }
}

impl ForkVersion {
    /// Copies `bytes` into a fork version, if there are exactly four of them.
    pub fn try_from_slice(bytes: &[u8]) -> (res: Result<Self, Error>)
        ensures
            res is Ok <==> bytes@.len() == 4,
            res matches Ok(version) ==> version@ == bytes@,
            res matches Err(e) ==> e == Error::MalformedInput,
    {
        match vector_from_slice(bytes) {
            Some(version) => Ok(version),
            None => Err(Error::MalformedInput),
        }
    }

    /// The bytes held.
    pub fn as_slice(&self) -> (res: &[u8])
        ensures
            res@ == self@,
    {
        vector_as_slice(self)
    }
}

/// A node of a hash tree: a leaf chunk or the hash of a subtree.
#[derive(Debug, Clone, Copy, PartialEq, Eq)]
pub struct Node {
    pub bytes: [u8; 32],
}

impl View for Node {
    type V = Seq<u8>;

    open spec fn view(&self) -> Seq<u8> {
        self.bytes@
    }
}

impl Node {
    /// The 32 bytes of the node.
    pub fn as_slice(&self) -> (res: &[u8])
        ensures
            res@ == self@,
            res@.len() == 32,
    {
        self.bytes.as_slice()
    }
}

/// A 20-byte account address of the execution layer.
#[derive(Debug, Clone, Copy, PartialEq, Eq)]
pub struct Address {
    pub bytes: [u8; 20],
}

impl View for Address {
    type V = Seq<u8>;

    open spec fn view(&self) -> Seq<u8> {
        self.bytes@
    }
}

/// A beacon block header, of which the proofs read the state root only.
#[derive(Debug, Clone, PartialEq, Eq)]
pub struct Header {
    pub slot: u64,
    pub proposer_index: u64,
    pub parent_root: Bytes32,
    pub state_root: Bytes32,
    pub body_root: Bytes32,
}

/// The views of the items of a sequence, in the same order.
pub open spec fn views<T: View>(items: Seq<T>) -> Seq<T::V> {
    items.map_values(|item: T| item@)
}

/// The view of a result that holds a viewable value.
pub open spec fn result_view<T: View>(res: Result<T, Error>) -> Result<T::V, Error> {
    match res {
        Ok(v) => Ok(v@),
        Err(e) => Err(e),
    }
}

} // verus!
