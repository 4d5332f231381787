//! Aggregate BLS signatures of a sync committee over one message.

use crate::types::SignatureBytes;
use snowbridge_milagro_bls::{AggregateSignature, AmclError, PublicKey};
use vstd::prelude::*;

verus! {

#[verifier::external_type_specification]
#[verifier::external_body]
pub struct ExAggregateSignature(snowbridge_milagro_bls::AggregateSignature);

#[verifier::external_type_specification]
#[verifier::external_body]
pub struct ExPublicKey(snowbridge_milagro_bls::PublicKey);

#[verifier::external_type_specification]
#[verifier::external_body]
pub struct ExAmclError(snowbridge_milagro_bls::AmclError);

/// The aggregate signature that `bytes` are the compressed encoding of, if
/// they are one.
pub uninterp spec fn decoded_aggregate_signature(bytes: Seq<u8>) -> Option<AggregateSignature>;

/// Whether `signature` is a valid aggregate of signatures over `msg`, one by
/// each of `public_keys`.
pub uninterp spec fn fast_aggregate_verified(
    signature: AggregateSignature,
    msg: Seq<u8>,
    public_keys: Seq<PublicKey>,
) -> bool;

/// The keys that a sequence of borrowed keys refers to.
pub open spec fn keys_of(public_keys: Seq<&PublicKey>) -> Seq<PublicKey> {
    public_keys.map_values(|key: &PublicKey| *key)
}

/// Calls `AggregateSignature::from_bytes`.
///
/// Trusted: it returns `decoded_aggregate_signature` of the bytes, and an
/// error where there is none; anything but 96 bytes is an error.
#[verifier::external_body]
pub(crate) fn aggregate_signature_from_bytes(bytes: &[u8]) -> (res: Result<
    AggregateSignature,
    AmclError,
>)
    ensures
        res is Ok <==> decoded_aggregate_signature(bytes@) is Some,
        res matches Ok(signature) ==> decoded_aggregate_signature(bytes@) == Some(signature),
        bytes@.len() != 96 ==> res is Err,
{
    AggregateSignature::from_bytes(bytes)
}

/// Calls `AggregateSignature::fast_aggregate_verify`.
///
/// Trusted: its answer is `fast_aggregate_verified` of the same values, and
/// it is `false` where no public key is given.
#[verifier::external_body]
pub(crate) fn fast_aggregate_verify(
    signature: &AggregateSignature,
    msg: &[u8],
    public_keys: &[&PublicKey],
) -> (res: bool)
    ensures
        res == fast_aggregate_verified(*signature, msg@, keys_of(public_keys@)),
        public_keys@.len() == 0 ==> !res,
{
    signature.fast_aggregate_verify(msg, public_keys)
}

/// Whether a signature, decoded or not, verifies: one that could not be
/// decoded does not.
pub open spec fn aggregate_outcome(
    decoded: Option<AggregateSignature>,
    msg: Seq<u8>,
    public_keys: Seq<PublicKey>,
) -> bool {
    match decoded {
        Some(signature) => fast_aggregate_verified(signature, msg, public_keys),
        None => false,
    }
}

/// Verifies a signature once it is known whether its bytes decode: a failure
/// to decode is a rejection.
pub fn verify_decoded(
    decoded: Result<AggregateSignature, AmclError>,
    msg: &[u8],
    pks: &[&PublicKey],
) -> (res: bool)
    ensures
        res == match decoded {
            Ok(signature) => fast_aggregate_verified(signature, msg@, keys_of(pks@)),
            Err(_) => false,
        },
        pks@.len() == 0 ==> !res,
{
    match decoded {
        Ok(signature) => fast_aggregate_verify(&signature, msg, pks),
        Err(_) => false,
    }
}

/// Whether `sig_bytes` is a valid aggregate signature over `msg` by all of
/// `pks`.
///
/// Never fails: bytes that are no signature, and an empty set of keys, are
/// rejected.
pub fn is_aggregate_valid(sig_bytes: &SignatureBytes, msg: &[u8], pks: &[&PublicKey]) -> (res: bool)
    ensures
        res == aggregate_outcome(decoded_aggregate_signature(sig_bytes@), msg@, keys_of(pks@)),
        sig_bytes@.len() != 96 ==> !res,
        pks@.len() == 0 ==> !res,
{
    let decoded = aggregate_signature_from_bytes(sig_bytes.as_slice());
    verify_decoded(decoded, msg, pks)
}

} // verus!
