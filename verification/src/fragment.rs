//! Fragments: a candidate paired with the constraints it was built against
//! and the modifications its declared outputs would apply. Construction
//! derives the modifications from the candidate's commitments and validates
//! them; a fragment can later be revalidated against newer constraints.

use crate::constraints::{
    channel_mod_allowed, check_error, lemma_check_ok_iff_allowed, modifications_allowed,
    Constraints, ModificationError,
};
use crate::kvlist::{
    get_index, keys_unique, lemma_lookup_index, lemma_lookup_push,
    lemma_lookup_unique_at, lemma_lookup_update, lemma_push_unique, lookup,
};
use crate::modifications::{ConstraintModifications, OutboundHrmpChannelModification};
use crate::primitives::{
    clone_vec_copy, pvd_eq, OutboundHrmpMessage, ParaId, PersistedValidationData,
    ProspectiveCandidate, RelayChainBlockInfo,
};
use vstd::prelude::*;

verus! {

/// The number of horizontal messages addressed to `id`.
pub open spec fn messages_to(msgs: Seq<OutboundHrmpMessage>, id: ParaId) -> nat
    decreases msgs.len(),
{
    if msgs.len() == 0 {
        0
    } else {
        (if msgs[0].recipient == id {
            1nat
        } else {
            0nat
        }) + messages_to(msgs.drop_first(), id)
    }
}

/// The number of payload bytes of the horizontal messages addressed to `id`.
pub open spec fn bytes_to(msgs: Seq<OutboundHrmpMessage>, id: ParaId) -> nat
    decreases msgs.len(),
{
    if msgs.len() == 0 {
        0
    } else {
        (if msgs[0].recipient == id {
            msgs[0].data@.len()
        } else {
            0
        }) + bytes_to(msgs.drop_first(), id)
    }
}

/// The number of payload bytes of all horizontal messages.
pub open spec fn total_horizontal_bytes(msgs: Seq<OutboundHrmpMessage>) -> nat
    decreases msgs.len(),
{
    if msgs.len() == 0 {
        0
    } else {
        msgs[0].data@.len() + total_horizontal_bytes(msgs.drop_first())
    }
}

/// The number of bytes of all upward messages.
pub open spec fn sum_upward_lens(msgs: Seq<Vec<u8>>) -> nat
    decreases msgs.len(),
{
    if msgs.len() == 0 {
        0
    } else {
        msgs[0]@.len() + sum_upward_lens(msgs.drop_first())
    }
}

/// The channel delta toward `id` declared by the horizontal messages: absent
/// when no message is addressed to `id`.
pub open spec fn aggregated_mod(msgs: Seq<OutboundHrmpMessage>, id: ParaId) -> Option<
    OutboundHrmpChannelModification,
> {
    if messages_to(msgs, id) == 0 {
        None
    } else {
        Some(
            OutboundHrmpChannelModification {
                bytes_submitted: bytes_to(msgs, id) as usize,
                messages_submitted: messages_to(msgs, id) as usize,
            },
        )
    }
}

/// The distinct recipients of the messages, in order of first occurrence.
pub open spec fn first_recipients(msgs: Seq<OutboundHrmpMessage>) -> Seq<ParaId>
    decreases msgs.len(),
{
    if msgs.len() == 0 {
        Seq::empty()
    } else {
        let f = first_recipients(msgs.drop_last());
        if f.contains(msgs.last().recipient) {
            f
        } else {
            f.push(msgs.last().recipient)
        }
    }
}

/// The keys of an association list, in entry order.
pub open spec fn entry_keys(entries: Seq<(ParaId, OutboundHrmpChannelModification)>) -> Seq<
    ParaId,
> {
    entries.map_values(|p: (ParaId, OutboundHrmpChannelModification)| p.0)
}

/// How the counts toward one recipient grow when one message is appended.
proof fn lemma_counts_push(msgs: Seq<OutboundHrmpMessage>, x: OutboundHrmpMessage, id: ParaId)
    ensures
        messages_to(msgs.push(x), id) == messages_to(msgs, id) + (if x.recipient == id {
            1nat
        } else {
            0nat
        }),
        bytes_to(msgs.push(x), id) == bytes_to(msgs, id) + (if x.recipient == id {
            x.data@.len()
        } else {
            0
        }),
        total_horizontal_bytes(msgs.push(x)) == total_horizontal_bytes(msgs) + x.data@.len(),
    decreases msgs.len(),
{
    if msgs.len() == 0 {
        assert(msgs.push(x)[0] == x);
        assert(msgs.push(x).drop_first() =~= Seq::<OutboundHrmpMessage>::empty());
        assert(messages_to(msgs.push(x).drop_first(), id) == 0);
        assert(bytes_to(msgs.push(x).drop_first(), id) == 0);
        assert(total_horizontal_bytes(msgs.push(x).drop_first()) == 0);
    } else {
        assert(msgs.push(x)[0] == msgs[0]);
        assert(msgs.push(x).drop_first() =~= msgs.drop_first().push(x));
        lemma_counts_push(msgs.drop_first(), x, id);
    }
}

/// The counts toward one recipient over a prefix never exceed the counts
/// over the whole sequence, nor the applicable totals.
proof fn lemma_counts_bounds(msgs: Seq<OutboundHrmpMessage>, id: ParaId)
    ensures
        messages_to(msgs, id) <= msgs.len(),
        bytes_to(msgs, id) <= total_horizontal_bytes(msgs),
    decreases msgs.len(),
{
    if msgs.len() > 0 {
        lemma_counts_bounds(msgs.drop_first(), id);
    }
}

/// A recipient with no messages has no bytes either.
proof fn lemma_counts_zero(msgs: Seq<OutboundHrmpMessage>, id: ParaId)
    requires
        messages_to(msgs, id) == 0,
    ensures
        bytes_to(msgs, id) == 0,
    decreases msgs.len(),
{
    if msgs.len() > 0 {
        lemma_counts_zero(msgs.drop_first(), id);
    }
}

/// The total payload size of a prefix never exceeds that of the whole.
proof fn lemma_total_take_le(msgs: Seq<OutboundHrmpMessage>, k: int)
    requires
        0 <= k <= msgs.len(),
    ensures
        total_horizontal_bytes(msgs.take(k)) <= total_horizontal_bytes(msgs),
    decreases msgs.len() - k,
{
    if k == msgs.len() {
        assert(msgs.take(k) =~= msgs);
    } else {
        assert(msgs.take(k + 1) =~= msgs.take(k).push(msgs[k]));
        lemma_counts_push(msgs.take(k), msgs[k], 0);
        lemma_total_take_le(msgs, k + 1);
    }
}

/// How the upward-byte sum grows when one message is appended, and that a
/// prefix sum never exceeds the whole.
proof fn lemma_sum_upward_take(msgs: Seq<Vec<u8>>, k: int)
    requires
        0 <= k < msgs.len(),
    ensures
        sum_upward_lens(msgs.take(k + 1)) == sum_upward_lens(msgs.take(k)) + msgs[k]@.len(),
        sum_upward_lens(msgs.take(k + 1)) <= sum_upward_lens(msgs),
    decreases msgs.len() - k,
{
    lemma_sum_upward_push(msgs.take(k), msgs[k]);
    assert(msgs.take(k + 1) =~= msgs.take(k).push(msgs[k]));
    if k + 1 == msgs.len() {
        assert(msgs.take(k + 1) =~= msgs);
    } else {
        lemma_sum_upward_take(msgs, k + 1);
    }
}

/// How the upward-byte sum grows when one message is appended.
proof fn lemma_sum_upward_push(msgs: Seq<Vec<u8>>, x: Vec<u8>)
    ensures
        sum_upward_lens(msgs.push(x)) == sum_upward_lens(msgs) + x@.len(),
    decreases msgs.len(),
{
    if msgs.len() == 0 {
        assert(msgs.push(x)[0] == x);
        assert(msgs.push(x).drop_first() =~= Seq::<Vec<u8>>::empty());
        assert(sum_upward_lens(msgs.push(x).drop_first()) == 0);
    } else {
        assert(msgs.push(x)[0] == msgs[0]);
        assert(msgs.push(x).drop_first() =~= msgs.drop_first().push(x));
        lemma_sum_upward_push(msgs.drop_first(), x);
    }
}

/// Whether `m` is exactly the delta that the candidate's commitments declare,
/// given the operating constraints and the relay parent: the new head and
/// watermark as overrides, the horizontal messages aggregated per recipient
/// in order of first occurrence, the upward and downward counters, and the
/// code-upgrade flag set when a pending upgrade has reached its activation
/// number.
pub open spec fn derives_modifications(
    candidate: ProspectiveCandidate,
    constraints: Constraints,
    relay_parent: RelayChainBlockInfo,
    m: ConstraintModifications,
) -> bool {
    let msgs = candidate.commitments.horizontal_messages@;
    &&& m.required_parent matches Some(h) && h@ == candidate.commitments.head_data@
    &&& m.hrmp_watermark == Some(candidate.commitments.hrmp_watermark)
    &&& keys_unique(m.outbound_hrmp@)
    &&& entry_keys(m.outbound_hrmp@) == first_recipients(msgs)
    &&& forall|id: ParaId| #[trigger] lookup(m.outbound_hrmp@, id) == aggregated_mod(msgs, id)
    &&& m.ump_messages_sent == candidate.commitments.upward_messages@.len()
    &&& m.ump_bytes_sent == sum_upward_lens(candidate.commitments.upward_messages@)
    &&& m.dmp_messages_processed == candidate.commitments.processed_downward_messages as usize
    &&& m.code_upgrade_applied == (match constraints.future_validation_code {
        Some(fvc) => fvc.0 <= relay_parent.number,
        None => false,
    })
}

/// Whether `p` is exactly the validation data a candidate anchored at `rp`
/// under `c` must have been built against.
pub open spec fn is_expected_pvd(
    c: Constraints,
    rp: RelayChainBlockInfo,
    p: PersistedValidationData,
) -> bool {
    &&& p.parent_head@ == c.required_parent@
    &&& p.relay_parent_number == rp.number
    &&& p.relay_parent_storage_root == rp.storage_root
    &&& p.max_pov_size == c.max_pov_size as u32
}

/// Whether the candidate's declared outputs respect every budget of `c`.
/// This is order-independent: it constrains the aggregated demand toward
/// each recipient rather than any particular entry order.
pub open spec fn candidate_outputs_allowed(
    c: Constraints,
    rp: RelayChainBlockInfo,
    cand: ProspectiveCandidate,
) -> bool {
    let msgs = cand.commitments.horizontal_messages@;
    &&& c.hrmp_inbound.valid_watermarks@.contains(cand.commitments.hrmp_watermark)
    &&& forall|id: ParaId|
        (#[trigger] aggregated_mod(msgs, id)) matches Some(om) ==> (match lookup(
            c.hrmp_channels_out@,
            id,
        ) {
            Some(lim) => om.bytes_submitted <= lim.bytes_remaining && om.messages_submitted
                <= lim.messages_remaining,
            None => false,
        })
    &&& cand.commitments.upward_messages@.len() <= c.ump_remaining
    &&& sum_upward_lens(cand.commitments.upward_messages@) <= c.ump_remaining_bytes
    &&& cand.commitments.processed_downward_messages as usize <= c.dmp_remaining_messages
}

/// Whether a fragment anchored at `rp` with candidate `cand` is acceptable
/// under `c`: the claimed validation data and code hash match, and the
/// declared outputs are within budget.
pub open spec fn acceptable(
    c: Constraints,
    rp: RelayChainBlockInfo,
    cand: ProspectiveCandidate,
) -> bool {
    &&& is_expected_pvd(c, rp, cand.persisted_validation_data)
    &&& c.validation_code_hash == cand.validation_code_hash
    &&& candidate_outputs_allowed(c, rp, cand)
}

/// Kinds of errors with the validity of a fragment.
#[derive(Clone, Debug, PartialEq, Eq)]
pub enum FragmentValidityError {
    /// The validation code of the candidate doesn't match the operating
    /// constraints. Expected, got.
    ValidationCodeMismatch(crate::primitives::ValidationCodeHash, crate::primitives::ValidationCodeHash),
    /// The persisted validation data doesn't match. Expected, got.
    PersistedValidationDataMismatch(PersistedValidationData, PersistedValidationData),
    /// The outputs of the candidate are invalid under the operating
    /// constraints.
    OutputsInvalid(ModificationError),
}

/// The exact outcome of validating `(c, rp, cand, m)`: the first failing
/// check in the order validation-data, code hash, outputs, with the values
/// each error carries.
pub open spec fn validity_result_matches(
    c: Constraints,
    rp: RelayChainBlockInfo,
    cand: ProspectiveCandidate,
    m: ConstraintModifications,
    r: Result<(), FragmentValidityError>,
) -> bool {
    if !is_expected_pvd(c, rp, cand.persisted_validation_data) {
        r matches Err(FragmentValidityError::PersistedValidationDataMismatch(e, g))
            && is_expected_pvd(c, rp, e) && pvd_eq(g, cand.persisted_validation_data)
    } else if c.validation_code_hash != cand.validation_code_hash {
        r matches Err(FragmentValidityError::ValidationCodeMismatch(e, g)) && e
            == c.validation_code_hash && g == cand.validation_code_hash
    } else if check_error(c, m) is Some {
        r matches Err(FragmentValidityError::OutputsInvalid(me)) && Some(me) == check_error(c, m)
    } else {
        r is Ok
    }
}

/// For a delta derived from a candidate, the per-entry budget check agrees
/// with the order-independent per-recipient statement.
pub proof fn lemma_derived_allowed_iff(
    cand: ProspectiveCandidate,
    c: Constraints,
    rp: RelayChainBlockInfo,
    m: ConstraintModifications,
)
    requires
        derives_modifications(cand, c, rp, m),
    ensures
        modifications_allowed(c, m) <==> candidate_outputs_allowed(c, rp, cand),
{
    let msgs = cand.commitments.horizontal_messages@;
    let entries = m.outbound_hrmp@;
    if modifications_allowed(c, m) {
        assert forall|id: ParaId|
            (#[trigger] aggregated_mod(msgs, id)) matches Some(om) ==> (match lookup(
                c.hrmp_channels_out@,
                id,
            ) {
                Some(lim) => om.bytes_submitted <= lim.bytes_remaining && om.messages_submitted
                    <= lim.messages_remaining,
                None => false,
            }) by {
            if aggregated_mod(msgs, id) is Some {
                assert(lookup(entries, id) == aggregated_mod(msgs, id));
                lemma_lookup_index(entries, id);
                let fki = crate::kvlist::first_key_index(entries, id);
                assert(channel_mod_allowed(c.hrmp_channels_out@, entries[fki]));
            }
        }
    }
    if candidate_outputs_allowed(c, rp, cand) {
        assert forall|j: int| 0 <= j < entries.len() implies channel_mod_allowed(
            c.hrmp_channels_out@,
            #[trigger] entries[j],
        ) by {
            let id = entries[j].0;
            lemma_lookup_unique_at(entries, id, j);
            assert(aggregated_mod(msgs, id) == Some(entries[j].1));
        }
    }
}

/// Derive the constraint delta a candidate's commitments declare.
fn derive_modifications(
    candidate: &ProspectiveCandidate,
    operating_constraints: &Constraints,
    relay_parent: &RelayChainBlockInfo,
) -> (m: ConstraintModifications)
    requires
        sum_upward_lens(candidate.commitments.upward_messages@) <= usize::MAX,
        total_horizontal_bytes(candidate.commitments.horizontal_messages@) <= usize::MAX,
    ensures
        derives_modifications(*candidate, *operating_constraints, *relay_parent, m),
        m.wf(),
{
    let msgs = &candidate.commitments.horizontal_messages;
    let ghost mseq = msgs@;
    let mut outbound: Vec<(ParaId, OutboundHrmpChannelModification)> = Vec::new();
    let mut k: usize = 0;
    while k < msgs.len()
        invariant
            k <= mseq.len(),
            msgs@ == mseq,
            total_horizontal_bytes(mseq) <= usize::MAX,
            keys_unique(outbound@),
            entry_keys(outbound@) == first_recipients(mseq.take(k as int)),
            forall|id: ParaId| #[trigger]
                lookup(outbound@, id) == aggregated_mod(mseq.take(k as int), id),
        decreases mseq.len() - k,
    {
        let rec = msgs[k].recipient;
        let dlen = msgs[k].data.len();
        proof {
            assert(mseq.take(k as int + 1) =~= mseq.take(k as int).push(mseq[k as int]));
            lemma_counts_bounds(mseq.take(k as int + 1), rec);
            lemma_total_take_le(mseq, k as int + 1);
            lemma_counts_push(mseq.take(k as int), mseq[k as int], rec);
        }
        match get_index(&outbound, rec) {
            Some(i) => {
                let cur = outbound[i].1;
                proof {
                    assert(lookup(outbound@, rec) == Some(cur));
                    assert(aggregated_mod(mseq.take(k as int), rec) == Some(cur));
                    assert(messages_to(mseq.take(k as int + 1), rec) <= k + 1);
                }
                let merged = OutboundHrmpChannelModification {
                    bytes_submitted: cur.bytes_submitted + dlen,
                    messages_submitted: cur.messages_submitted + 1,
                };
                let ghost pre = outbound@;
                outbound[i] = (rec, merged);
                proof {
                    lemma_lookup_update(pre, i as int, (rec, merged), rec);
                    assert forall|id: ParaId| #[trigger]
                        lookup(outbound@, id) == aggregated_mod(
                            mseq.take(k as int + 1),
                            id,
                        ) by {
                        lemma_lookup_update(pre, i as int, (rec, merged), id);
                        lemma_counts_push(mseq.take(k as int), mseq[k as int], id);
                        if id == rec {
                            assert(messages_to(mseq.take(k as int + 1), rec) == messages_to(
                                mseq.take(k as int),
                                rec,
                            ) + 1);
                            assert(bytes_to(mseq.take(k as int + 1), rec) == bytes_to(
                                mseq.take(k as int),
                                rec,
                            ) + dlen);
                            assert(lookup(outbound@, rec) == Some(merged));
                            assert(cur.bytes_submitted == bytes_to(mseq.take(k as int), rec));
                            assert(cur.messages_submitted == messages_to(
                                mseq.take(k as int),
                                rec,
                            ));
                            assert(merged.bytes_submitted == bytes_to(
                                mseq.take(k as int + 1),
                                rec,
                            ));
                            assert(merged.messages_submitted == messages_to(
                                mseq.take(k as int + 1),
                                rec,
                            ));
                        } else {
                            assert(lookup(outbound@, id) == lookup(pre, id));
                            assert(messages_to(mseq.take(k as int + 1), id) == messages_to(
                                mseq.take(k as int),
                                id,
                            ));
                            assert(bytes_to(mseq.take(k as int + 1), id) == bytes_to(
                                mseq.take(k as int),
                                id,
                            ));
                        }
                    }
                    // The recipient is already among the keys, so the key
                    // order is unchanged.
                    assert(entry_keys(pre)[i as int] == rec);
                    assert(first_recipients(mseq.take(k as int)).contains(rec));
                    assert(mseq.take(k as int + 1).drop_last() =~= mseq.take(k as int));
                    assert(entry_keys(outbound@) =~= entry_keys(pre));
                }
            },
            None => {
                let ghost pre = outbound@;
                outbound.push(
                    (
                        rec,
                        OutboundHrmpChannelModification {
                            bytes_submitted: dlen,
                            messages_submitted: 1,
                        },
                    ),
                );
                proof {
                    lemma_push_unique(pre, outbound@.last());
                    assert forall|id: ParaId| #[trigger]
                        lookup(outbound@, id) == aggregated_mod(
                            mseq.take(k as int + 1),
                            id,
                        ) by {
                        lemma_lookup_push(pre, outbound@.last(), id);
                        lemma_counts_push(mseq.take(k as int), mseq[k as int], id);
                        if id != rec {
                            assert(lookup(outbound@, id) == lookup(pre, id));
                            assert(messages_to(mseq.take(k as int + 1), id) == messages_to(
                                mseq.take(k as int),
                                id,
                            ));
                            assert(bytes_to(mseq.take(k as int + 1), id) == bytes_to(
                                mseq.take(k as int),
                                id,
                            ));
                        } else {
                            assert(lookup(pre, rec) is None);
                            assert(aggregated_mod(mseq.take(k as int), rec) is None);
                            assert(messages_to(mseq.take(k as int), rec) == 0);
                            lemma_counts_zero(mseq.take(k as int), rec);
                            assert(messages_to(mseq.take(k as int + 1), rec) == 1);
                            assert(bytes_to(mseq.take(k as int + 1), rec) == dlen);
                        }
                    }
                    // The recipient is new, so it is appended to the key
                    // order.
                    assert(!first_recipients(mseq.take(k as int)).contains(rec)) by {
                        if first_recipients(mseq.take(k as int)).contains(rec) {
                            let fr = first_recipients(mseq.take(k as int));
                            let i = choose|i: int| 0 <= i < fr.len() && fr[i] == rec;
                            assert(entry_keys(pre)[i] == rec);
                            assert(pre[i].0 == rec);
                            lemma_lookup_unique_at(pre, rec, i);
                        }
                    }
                    assert(mseq.take(k as int + 1).drop_last() =~= mseq.take(k as int));
                    assert(entry_keys(outbound@) =~= entry_keys(pre).push(rec));
                }
            },
        }
        k += 1;
    }
    proof {
        assert(mseq.take(mseq.len() as int) =~= mseq);
    }
    let ups = &candidate.commitments.upward_messages;
    let ghost useq = ups@;
    let mut ump_bytes: usize = 0;
    let mut j: usize = 0;
    while j < ups.len()
        invariant
            j <= useq.len(),
            ups@ == useq,
            sum_upward_lens(useq) <= usize::MAX,
            ump_bytes == sum_upward_lens(useq.take(j as int)),
        decreases useq.len() - j,
    {
        proof {
            lemma_sum_upward_take(useq, j as int);
        }
        ump_bytes = ump_bytes + ups[j].len();
        j += 1;
    }
    proof {
        assert(useq.take(useq.len() as int) =~= useq);
    }
    let code_upgrade_applied = match operating_constraints.future_validation_code {
        Some(fvc) => relay_parent.number >= fvc.0,
        None => false,
    };
    ConstraintModifications {
        required_parent: Some(clone_vec_copy(&candidate.commitments.head_data)),
        hrmp_watermark: Some(candidate.commitments.hrmp_watermark),
        outbound_hrmp: outbound,
        ump_messages_sent: ups.len(),
        ump_bytes_sent: ump_bytes,
        dmp_messages_processed: candidate.commitments.processed_downward_messages as usize,
        code_upgrade_applied,
    }
}

/// Validate a candidate and its derived delta against some constraints and
/// relay parent: the recomputed validation data must match the candidate's
/// claim exactly, the code hashes must agree, and the delta must pass the
/// constraint check.
fn validate_against_constraints(
    constraints: &Constraints,
    relay_parent: &RelayChainBlockInfo,
    candidate: &ProspectiveCandidate,
    modifications: &ConstraintModifications,
) -> (r: Result<(), FragmentValidityError>)
    ensures
        validity_result_matches(*constraints, *relay_parent, *candidate, *modifications, r),
{
    let expected_pvd = PersistedValidationData {
        parent_head: clone_vec_copy(&constraints.required_parent),
        relay_parent_number: relay_parent.number,
        relay_parent_storage_root: relay_parent.storage_root,
        max_pov_size: constraints.max_pov_size as u32,
    };
    if !expected_pvd.eq_fields(&candidate.persisted_validation_data) {
        return Err(
            FragmentValidityError::PersistedValidationDataMismatch(
                expected_pvd,
                candidate.persisted_validation_data.duplicate(),
            ),
        );
    }
    if constraints.validation_code_hash != candidate.validation_code_hash {
        return Err(
            FragmentValidityError::ValidationCodeMismatch(
                constraints.validation_code_hash,
                candidate.validation_code_hash,
            ),
        );
    }
    match constraints.check_modifications(modifications) {
        Ok(()) => Ok(()),
        Err(e) => Err(FragmentValidityError::OutputsInvalid(e)),
    }
}

/// A dependent-chain fragment, representing another prospective block.
///
/// This has two parts: the new relay-parent and its associated limitations,
/// and information about the advancement of the dependent chain.
#[derive(Clone, Debug)]
pub struct Fragment {
    /// The new relay-parent.
    relay_parent: RelayChainBlockInfo,
    /// The constraints this fragment is operating under.
    operating_constraints: Constraints,
    /// The core information about the prospective candidate.
    candidate: ProspectiveCandidate,
    /// Modifications to the constraints based on the outputs of the
    /// candidate.
    modifications: ConstraintModifications,
}

impl Fragment {
    /// The relay parent this fragment is anchored to.
    pub closed spec fn spec_relay_parent(&self) -> RelayChainBlockInfo {
        self.relay_parent
    }

    /// The constraints this fragment was built against.
    pub closed spec fn spec_operating_constraints(&self) -> Constraints {
        self.operating_constraints
    }

    /// The candidate this fragment carries.
    pub closed spec fn spec_candidate(&self) -> ProspectiveCandidate {
        self.candidate
    }

    /// The delta derived from the candidate's commitments.
    pub closed spec fn spec_modifications(&self) -> ConstraintModifications {
        self.modifications
    }

    /// Create a new fragment: derive the delta the candidate declares and
    /// validate it against the operating constraints. This fails, building
    /// nothing, when the fragment is not in line with them.
    pub fn new(
        relay_parent: RelayChainBlockInfo,
        operating_constraints: Constraints,
        candidate: ProspectiveCandidate,
    ) -> (r: Result<Fragment, FragmentValidityError>)
        requires
            sum_upward_lens(candidate.commitments.upward_messages@) <= usize::MAX,
            total_horizontal_bytes(candidate.commitments.horizontal_messages@) <= usize::MAX,
        ensures
            r is Ok <==> acceptable(operating_constraints, relay_parent, candidate),
            r matches Ok(f) ==> {
                &&& f.spec_relay_parent() == relay_parent
                &&& f.spec_operating_constraints() == operating_constraints
                &&& f.spec_candidate() == candidate
                &&& derives_modifications(
                    candidate,
                    operating_constraints,
                    relay_parent,
                    f.spec_modifications(),
                )
                &&& f.spec_modifications().wf()
            },
            r matches Err(e) ==> exists|m: ConstraintModifications|
                #[trigger] derives_modifications(candidate, operating_constraints, relay_parent, m)
                    && validity_result_matches(
                    operating_constraints,
                    relay_parent,
                    candidate,
                    m,
                    Err(e),
                ),
    {
        let modifications = derive_modifications(&candidate, &operating_constraints, &relay_parent);
        proof {
            lemma_derived_allowed_iff(candidate, operating_constraints, relay_parent, modifications);
            lemma_check_ok_iff_allowed(operating_constraints, modifications);
        }
        match validate_against_constraints(
            &operating_constraints,
            &relay_parent,
            &candidate,
            &modifications,
        ) {
            Ok(()) => {},
            Err(e) => {
                return Err(e);
            },
        }
        Ok(Fragment { relay_parent, operating_constraints, candidate, modifications })
    }

    /// Access the relay parent information.
    pub fn relay_parent(&self) -> (r: &RelayChainBlockInfo)
        ensures
            *r == self.spec_relay_parent(),
    {
        &self.relay_parent
    }

    /// Access the operating constraints.
    pub fn operating_constraints(&self) -> (r: &Constraints)
        ensures
            *r == self.spec_operating_constraints(),
    {
        &self.operating_constraints
    }

    /// Access the underlying prospective candidate.
    pub fn candidate(&self) -> (r: &ProspectiveCandidate)
        ensures
            *r == self.spec_candidate(),
    {
        &self.candidate
    }

    /// Modifications to constraints based on the outputs of the candidate.
    pub fn constraint_modifications(&self) -> (r: &ConstraintModifications)
        ensures
            *r == self.spec_modifications(),
    {
        &self.modifications
    }

    /// Validate this fragment against some set of constraints instead of the
    /// operating constraints, using the stored relay parent, candidate and
    /// derived modifications.
    pub fn validate_against_constraints(&self, constraints: &Constraints) -> (r: Result<
        (),
        FragmentValidityError,
    >)
        ensures
            validity_result_matches(
                *constraints,
                self.spec_relay_parent(),
                self.spec_candidate(),
                self.spec_modifications(),
                r,
            ),
    {
        validate_against_constraints(
            constraints,
            &self.relay_parent,
            &self.candidate,
            &self.modifications,
        )
    }
}

} // verus!
