//! Plain descriptor types: block numbers, channel identifiers, digests,
//! head-state blobs, candidate commitments and the relay-chain anchor block.

use vstd::prelude::*;

verus! {

/// A relay-chain block number.
pub type BlockNumber = u32;

/// Identifier of the chain on the other end of a channel.
pub type ParaId = u32;

/// Opaque head-state blob of the dependent chain.
pub type HeadData = Vec<u8>;

/// Identity of the collator that authored a candidate (opaque key bytes).
pub type CollatorId = Vec<u8>;

/// Signature of the collator on the candidate (opaque signature bytes).
pub type CollatorSignature = Vec<u8>;

/// A 256-bit digest, held as two 128-bit halves. The engine only ever
/// compares digests for equality and carries them through.
#[derive(Clone, Copy, Debug, PartialEq, Eq, Structural)]
pub struct Hash256 {
    /// The upper 16 bytes of the digest.
    pub hi: u128,
    /// The lower 16 bytes of the digest.
    pub lo: u128,
}

/// The hash of a validation-code blob.
pub type ValidationCodeHash = Hash256;

/// The go-ahead signal for a pending code upgrade.
#[derive(Clone, Copy, Debug, PartialEq, Eq, Structural)]
pub enum UpgradeGoAhead {
    /// Abort the upgrade and discard the pending code.
    Abort,
    /// Apply the pending code upgrade.
    GoAhead,
}

/// The restriction signal on signalling a new code upgrade.
#[derive(Clone, Copy, Debug, PartialEq, Eq, Structural)]
pub enum UpgradeRestriction {
    /// No new upgrade may be signalled at present.
    Present,
}

/// Information about a relay-chain block.
#[derive(Clone, Copy, Debug, PartialEq, Eq, Structural)]
pub struct RelayChainBlockInfo {
    /// The hash of the relay-chain block.
    pub hash: Hash256,
    /// The number of the relay-chain block.
    pub number: BlockNumber,
    /// The storage-root of the relay-chain block.
    pub storage_root: Hash256,
}

/// The inputs a candidate claims it was built against.
#[derive(Clone, Debug, PartialEq, Eq)]
pub struct PersistedValidationData {
    /// The head-state of the dependent chain the candidate builds upon.
    pub parent_head: HeadData,
    /// The number of the relay-chain block the candidate is anchored to.
    pub relay_parent_number: BlockNumber,
    /// The storage-root of that relay-chain block.
    pub relay_parent_storage_root: Hash256,
    /// The maximum Proof-of-Validity size the candidate may use, in bytes.
    pub max_pov_size: u32,
}

/// One outbound horizontal message declared by a candidate.
#[derive(Clone, Debug, PartialEq, Eq)]
pub struct OutboundHrmpMessage {
    /// The chain the message is addressed to.
    pub recipient: ParaId,
    /// The message payload.
    pub data: Vec<u8>,
}

/// The outputs a candidate commits to.
#[derive(Clone, Debug, PartialEq, Eq)]
pub struct CandidateCommitments {
    /// Messages destined to be interpreted by the relay chain itself.
    pub upward_messages: Vec<Vec<u8>>,
    /// Horizontal messages sent to other dependent chains.
    pub horizontal_messages: Vec<OutboundHrmpMessage>,
    /// The new head-state produced as a result of execution.
    pub head_data: HeadData,
    /// The number of downward messages processed by the candidate.
    pub processed_downward_messages: u32,
    /// The mark up to which all inbound horizontal messages are processed.
    pub hrmp_watermark: BlockNumber,
}

/// The prospective candidate: declared outputs, authorship and claimed inputs.
#[derive(Clone, Debug, PartialEq, Eq)]
pub struct ProspectiveCandidate {
    /// The commitments to the output of the execution.
    pub commitments: CandidateCommitments,
    /// The collator that created the candidate.
    pub collator: CollatorId,
    /// The signature of the collator on the payload.
    pub collator_signature: CollatorSignature,
    /// The persisted validation data used to create the candidate.
    pub persisted_validation_data: PersistedValidationData,
    /// The hash of the Proof-of-Validity.
    pub pov_hash: Hash256,
    /// The validation code hash used by the candidate.
    pub validation_code_hash: ValidationCodeHash,
}

/// Field-wise equality of two persisted-validation-data values.
pub open spec fn pvd_eq(a: PersistedValidationData, b: PersistedValidationData) -> bool {
    &&& a.parent_head@ == b.parent_head@
    &&& a.relay_parent_number == b.relay_parent_number
    &&& a.relay_parent_storage_root == b.relay_parent_storage_root
    &&& a.max_pov_size == b.max_pov_size
}

/// Copy a vector of copyable elements, preserving its contents exactly.
pub fn clone_vec_copy<T: Copy>(v: &Vec<T>) -> (r: Vec<T>)
    ensures
        r@ == v@,
{
    let mut r: Vec<T> = Vec::new();
    let mut i: usize = 0;
    while i < v.len()
        invariant
            i <= v@.len(),
            r@ == v@.take(i as int),
        decreases v@.len() - i,
    {
        r.push(v[i]);
        proof {
            assert(v@.take(i + 1 as int) =~= v@.take(i as int).push(v@[i as int]));
        }
        i += 1;
    }
    proof {
        assert(v@.take(v@.len() as int) =~= v@);
    }
    r
}

/// Compare two byte vectors for element-wise equality.
pub fn bytes_eq(a: &Vec<u8>, b: &Vec<u8>) -> (r: bool)
    ensures
        r == (a@ == b@),
{
    if a.len() != b.len() {
        proof {
            assert(a@ != b@);
        }
        return false;
    }
    let mut i: usize = 0;
    while i < a.len()
        invariant
            i <= a@.len(),
            a@.len() == b@.len(),
            forall|j: int| 0 <= j < i ==> a@[j] == b@[j],
        decreases a@.len() - i,
    {
        if a[i] != b[i] {
            return false;
        }
        i += 1;
    }
    proof {
        assert(a@ =~= b@);
    }
    true
}

impl PersistedValidationData {
    /// Field-wise copy of this value.
    pub fn duplicate(&self) -> (r: Self)
        ensures
            pvd_eq(r, *self),
    {
        PersistedValidationData {
            parent_head: clone_vec_copy(&self.parent_head),
            relay_parent_number: self.relay_parent_number,
            relay_parent_storage_root: self.relay_parent_storage_root,
            max_pov_size: self.max_pov_size,
        }
    }

    /// Field-wise equality with another value.
    pub fn eq_fields(&self, other: &Self) -> (r: bool)
        ensures
            r == pvd_eq(*self, *other),
    {
        bytes_eq(&self.parent_head, &other.parent_head)
            && self.relay_parent_number == other.relay_parent_number
            && self.relay_parent_storage_root == other.relay_parent_storage_root
            && self.max_pov_size == other.max_pov_size
    }
}

} // verus!
