//! Constraints on the actions a new dependent-chain block can take, and the
//! algebra of checking and applying [`ConstraintModifications`] against them.

use crate::kvlist::{
    get_value, keys_unique, lemma_lookup_index, lemma_lookup_unique_at, lookup,
};
use crate::modifications::{ConstraintModifications, OutboundHrmpChannelModification};
use crate::primitives::{
    clone_vec_copy, BlockNumber, HeadData, ParaId, UpgradeGoAhead, UpgradeRestriction,
    ValidationCodeHash,
};
use vstd::prelude::*;

verus! {

/// Constraints on inbound HRMP channels.
#[derive(Clone, Debug, PartialEq, Eq)]
pub struct InboundHrmpLimitations {
    /// An exhaustive set of all valid watermarks, sorted ascending.
    pub valid_watermarks: Vec<BlockNumber>,
}

/// Constraints on one outbound HRMP channel.
#[derive(Clone, Copy, Debug, PartialEq, Eq, Structural)]
pub struct OutboundHrmpChannelLimitations {
    /// The maximum bytes that can still be written to the channel.
    pub bytes_remaining: usize,
    /// The maximum messages that can still be written to the channel.
    pub messages_remaining: usize,
}

/// Constraints on the actions that can be taken by a new dependent-chain
/// block. These limitations are implicitly associated with some particular
/// chain, which should be apparent from usage.
#[derive(Clone, Debug, PartialEq, Eq)]
pub struct Constraints {
    /// The number of upward messages remaining.
    pub ump_remaining: usize,
    /// The number of upward-message bytes remaining.
    pub ump_remaining_bytes: usize,
    /// The number of remaining downward messages to drain.
    pub dmp_remaining_messages: usize,
    /// The limitations of all registered inbound HRMP channels.
    pub hrmp_inbound: InboundHrmpLimitations,
    /// The limitations of all registered outbound HRMP channels, keyed by
    /// destination (keys unique).
    pub hrmp_channels_out: Vec<(ParaId, OutboundHrmpChannelLimitations)>,
    /// The maximum Proof-of-Validity size allowed, in bytes.
    pub max_pov_size: usize,
    /// The maximum number of horizontal messages allowed per candidate.
    pub max_hrmp_num_per_candidate: usize,
    /// The required parent head-data of the dependent chain.
    pub required_parent: HeadData,
    /// The expected validation-code hash of the dependent chain.
    pub validation_code_hash: ValidationCodeHash,
    /// The go-ahead signal as of this block.
    pub go_ahead: UpgradeGoAhead,
    /// The code-upgrade restriction signal as of this block.
    pub upgrade_restriction: UpgradeRestriction,
    /// The future validation code hash, if any, and at what relay-parent
    /// number the upgrade would be minimally applied.
    pub future_validation_code: Option<(BlockNumber, ValidationCodeHash)>,
}

/// Kinds of errors that can occur when modifying constraints.
#[derive(Clone, Copy, Debug, PartialEq, Eq, Structural)]
pub enum ModificationError {
    /// The HRMP watermark is not allowed.
    DisallowedHrmpWatermark(BlockNumber),
    /// No such HRMP outbound channel.
    NoSuchHrmpChannel(ParaId),
    /// Too many messages submitted to an HRMP channel.
    HrmpMessagesOverflow {
        /// The identifier of the recipient.
        para_id: ParaId,
        /// The number of messages remaining in the capacity of the channel.
        messages_remaining: usize,
        /// The number of messages submitted to the channel.
        messages_submitted: usize,
    },
    /// Too many bytes submitted to an HRMP channel.
    HrmpBytesOverflow {
        /// The identifier of the recipient.
        para_id: ParaId,
        /// The number of bytes remaining in the capacity of the channel.
        bytes_remaining: usize,
        /// The number of bytes submitted to the channel.
        bytes_submitted: usize,
    },
    /// Too many messages submitted upward.
    UmpMessagesOverflow {
        /// The number of messages remaining in the upward capacity.
        messages_remaining: usize,
        /// The number of messages submitted upward.
        messages_submitted: usize,
    },
    /// Too many bytes submitted upward.
    UmpBytesOverflow {
        /// The number of bytes remaining in the upward capacity.
        bytes_remaining: usize,
        /// The number of bytes submitted upward.
        bytes_submitted: usize,
    },
    /// Too many downward messages processed.
    DmpMessagesUnderflow {
        /// The number of downward messages waiting to be processed.
        messages_remaining: usize,
        /// The number of messages processed.
        messages_processed: usize,
    },
    /// No validation code upgrade to apply.
    AppliedNonexistentCodeUpgrade,
}

/// Whether the watermark override, if any, is one of the valid watermarks,
/// reported as the first error of the check order.
pub open spec fn watermark_error(c: Constraints, m: ConstraintModifications) -> Option<
    ModificationError,
> {
    match m.hrmp_watermark {
        Some(w) => if !c.hrmp_inbound.valid_watermarks@.contains(w) {
            Some(ModificationError::DisallowedHrmpWatermark(w))
        } else {
            None
        },
        None => None,
    }
}

/// The first channel error among the outbound-channel modifications, in
/// entry order: a missing destination, then byte budget, then message budget.
pub open spec fn outbound_error(
    channels: Seq<(ParaId, OutboundHrmpChannelLimitations)>,
    mods: Seq<(ParaId, OutboundHrmpChannelModification)>,
) -> Option<ModificationError>
    decreases mods.len(),
{
    if mods.len() == 0 {
        None
    } else {
        let id = mods[0].0;
        let om = mods[0].1;
        match lookup(channels, id) {
            None => Some(ModificationError::NoSuchHrmpChannel(id)),
            Some(lim) => if lim.bytes_remaining < om.bytes_submitted {
                Some(
                    ModificationError::HrmpBytesOverflow {
                        para_id: id,
                        bytes_remaining: lim.bytes_remaining,
                        bytes_submitted: om.bytes_submitted,
                    },
                )
            } else if lim.messages_remaining < om.messages_submitted {
                Some(
                    ModificationError::HrmpMessagesOverflow {
                        para_id: id,
                        messages_remaining: lim.messages_remaining,
                        messages_submitted: om.messages_submitted,
                    },
                )
            } else {
                outbound_error(channels, mods.drop_first())
            },
        }
    }
}

/// The first error, if any, that checking `m` against `c` reports, in the
/// order: watermark, outbound channels (in entry order), upward messages,
/// upward bytes, downward messages, code upgrade.
pub open spec fn check_error(c: Constraints, m: ConstraintModifications) -> Option<
    ModificationError,
> {
    if watermark_error(c, m) is Some {
        watermark_error(c, m)
    } else if outbound_error(c.hrmp_channels_out@, m.outbound_hrmp@) is Some {
        outbound_error(c.hrmp_channels_out@, m.outbound_hrmp@)
    } else if c.ump_remaining < m.ump_messages_sent {
        Some(
            ModificationError::UmpMessagesOverflow {
                messages_remaining: c.ump_remaining,
                messages_submitted: m.ump_messages_sent,
            },
        )
    } else if c.ump_remaining_bytes < m.ump_bytes_sent {
        Some(
            ModificationError::UmpBytesOverflow {
                bytes_remaining: c.ump_remaining_bytes,
                bytes_submitted: m.ump_bytes_sent,
            },
        )
    } else if c.dmp_remaining_messages < m.dmp_messages_processed {
        Some(
            ModificationError::DmpMessagesUnderflow {
                messages_remaining: c.dmp_remaining_messages,
                messages_processed: m.dmp_messages_processed,
            },
        )
    } else if m.code_upgrade_applied && c.future_validation_code is None {
        Some(ModificationError::AppliedNonexistentCodeUpgrade)
    } else {
        None
    }
}

/// Whether one outbound-channel modification entry stays within the budget
/// of the channel it addresses.
pub open spec fn channel_mod_allowed(
    channels: Seq<(ParaId, OutboundHrmpChannelLimitations)>,
    entry: (ParaId, OutboundHrmpChannelModification),
) -> bool {
    match lookup(channels, entry.0) {
        Some(lim) => entry.1.bytes_submitted <= lim.bytes_remaining
            && entry.1.messages_submitted <= lim.messages_remaining,
        None => false,
    }
}

/// Whether `m` respects every budget and signal of `c`: this is exactly when
/// checking reports no error.
pub open spec fn modifications_allowed(c: Constraints, m: ConstraintModifications) -> bool {
    &&& (m.hrmp_watermark matches Some(w) ==> c.hrmp_inbound.valid_watermarks@.contains(w))
    &&& forall|j: int|
        0 <= j < m.outbound_hrmp@.len() ==> channel_mod_allowed(
            c.hrmp_channels_out@,
            #[trigger] m.outbound_hrmp@[j],
        )
    &&& m.ump_messages_sent <= c.ump_remaining
    &&& m.ump_bytes_sent <= c.ump_remaining_bytes
    &&& m.dmp_messages_processed <= c.dmp_remaining_messages
    &&& (m.code_upgrade_applied ==> c.future_validation_code is Some)
}

/// The outbound check reports no error exactly when every entry is within
/// budget.
pub proof fn lemma_outbound_error_none(
    channels: Seq<(ParaId, OutboundHrmpChannelLimitations)>,
    mods: Seq<(ParaId, OutboundHrmpChannelModification)>,
)
    ensures
        (outbound_error(channels, mods) is None) <==> (forall|j: int|
            0 <= j < mods.len() ==> channel_mod_allowed(channels, #[trigger] mods[j])),
    decreases mods.len(),
{
    if mods.len() == 0 {
    } else {
        let rest = mods.drop_first();
        lemma_outbound_error_none(channels, rest);
        assert(forall|k: int| 0 <= k < rest.len() ==> rest[k] == mods[k + 1]);
        if channel_mod_allowed(channels, mods[0]) {
            if outbound_error(channels, mods) is None {
                assert forall|j: int| 0 <= j < mods.len() implies channel_mod_allowed(
                    channels,
                    #[trigger] mods[j],
                ) by {
                    if j >= 1 {
                        assert(mods[j] == rest[j - 1]);
                    }
                }
            } else {
                assert(outbound_error(channels, rest) is Some);
            }
        }
    }
}

/// Checking reports no error exactly when the modifications are allowed.
pub proof fn lemma_check_ok_iff_allowed(c: Constraints, m: ConstraintModifications)
    ensures
        (check_error(c, m) is None) <==> modifications_allowed(c, m),
{
    lemma_outbound_error_none(c.hrmp_channels_out@, m.outbound_hrmp@);
}

/// When a prefix of the modification entries is within budget, the first
/// outbound error is decided by the remaining entries.
pub proof fn lemma_outbound_error_skip(
    channels: Seq<(ParaId, OutboundHrmpChannelLimitations)>,
    mods: Seq<(ParaId, OutboundHrmpChannelModification)>,
    j: int,
)
    requires
        0 <= j <= mods.len(),
        forall|k: int| 0 <= k < j ==> channel_mod_allowed(channels, #[trigger] mods[k]),
    ensures
        outbound_error(channels, mods) == outbound_error(channels, mods.skip(j)),
    decreases j,
{
    if j == 0 {
        assert(mods.skip(0) =~= mods);
    } else {
        let rest = mods.drop_first();
        assert(forall|k: int| 0 <= k < rest.len() ==> rest[k] == mods[k + 1]);
        lemma_outbound_error_skip(channels, rest, j - 1);
        assert(rest.skip(j - 1) =~= mods.skip(j));
    }
}

/// The position of the first occurrence of `w` (meaningful only when `w`
/// occurs).
pub open spec fn first_position(ws: Seq<BlockNumber>, w: BlockNumber) -> int
    decreases ws.len(),
{
    if ws.len() == 0 {
        0
    } else if ws[0] == w {
        0
    } else {
        1 + first_position(ws.drop_first(), w)
    }
}

/// An element preceded only by other values sits at its first position.
pub proof fn lemma_first_position_at(ws: Seq<BlockNumber>, w: BlockNumber, i: int)
    requires
        0 <= i < ws.len(),
        ws[i] == w,
        forall|j: int| 0 <= j < i ==> ws[j] != w,
    ensures
        first_position(ws, w) == i,
        ws.contains(w),
    decreases i,
{
    if i == 0 {
    } else {
        let rest = ws.drop_first();
        assert(forall|k: int| 0 <= k < rest.len() ==> rest[k] == ws[k + 1]);
        lemma_first_position_at(rest, w, i - 1);
    }
}

/// A value that occurs has its first position within the sequence.
pub proof fn lemma_first_position_bounds(ws: Seq<BlockNumber>, w: BlockNumber)
    requires
        ws.contains(w),
    ensures
        0 <= first_position(ws, w) < ws.len(),
        ws[first_position(ws, w)] == w,
    decreases ws.len(),
{
    if ws.len() > 0 && ws[0] != w {
        let rest = ws.drop_first();
        assert(forall|k: int| 0 <= k < rest.len() ==> rest[k] == ws[k + 1]);
        let i = choose|i: int| 0 <= i < ws.len() && ws[i] == w;
        assert(rest[i - 1] == w);
        assert(rest.contains(w));
        lemma_first_position_bounds(rest, w);
    }
}

/// The budget of one channel after a delta is applied to it.
pub open spec fn applied_channel(
    lim: OutboundHrmpChannelLimitations,
    om: Option<OutboundHrmpChannelModification>,
) -> OutboundHrmpChannelLimitations {
    match om {
        None => lim,
        Some(om) => OutboundHrmpChannelLimitations {
            bytes_remaining: (lim.bytes_remaining - om.bytes_submitted) as usize,
            messages_remaining: (lim.messages_remaining - om.messages_submitted) as usize,
        },
    }
}

/// How a successful application relates the new constraints `d` to the old
/// constraints `c` and the modifications `m`, field by field.
pub open spec fn applies_to(c: Constraints, m: ConstraintModifications, d: Constraints) -> bool {
    &&& d.ump_remaining == c.ump_remaining - m.ump_messages_sent
    &&& d.ump_remaining_bytes == c.ump_remaining_bytes - m.ump_bytes_sent
    &&& d.dmp_remaining_messages == c.dmp_remaining_messages - m.dmp_messages_processed
    &&& (match m.hrmp_watermark {
        Some(w) => d.hrmp_inbound.valid_watermarks@ == c.hrmp_inbound.valid_watermarks@.skip(
            first_position(c.hrmp_inbound.valid_watermarks@, w) + 1,
        ),
        None => d.hrmp_inbound.valid_watermarks@ == c.hrmp_inbound.valid_watermarks@,
    })
    &&& d.hrmp_channels_out@.len() == c.hrmp_channels_out@.len()
    &&& forall|i: int|
        0 <= i < c.hrmp_channels_out@.len() ==> (#[trigger] d.hrmp_channels_out@[i]) == (
        c.hrmp_channels_out@[i].0,
        applied_channel(
            c.hrmp_channels_out@[i].1,
            lookup(m.outbound_hrmp@, c.hrmp_channels_out@[i].0),
        ),
        )
    &&& d.max_pov_size == c.max_pov_size
    &&& d.max_hrmp_num_per_candidate == c.max_hrmp_num_per_candidate
    &&& d.required_parent@ == (match m.required_parent {
        Some(p) => p@,
        None => c.required_parent@,
    })
    &&& (if m.code_upgrade_applied {
        &&& c.future_validation_code matches Some(fvc) && d.validation_code_hash == fvc.1
        &&& d.future_validation_code is None
    } else {
        &&& d.validation_code_hash == c.validation_code_hash
        &&& d.future_validation_code == c.future_validation_code
    })
    &&& d.go_ahead == c.go_ahead
    &&& d.upgrade_restriction == c.upgrade_restriction
}

/// Search a watermark list for the first occurrence of `w`.
fn watermark_position(ws: &Vec<BlockNumber>, w: BlockNumber) -> (r: Option<usize>)
    ensures
        match r {
            Some(i) => {
                &&& i < ws@.len()
                &&& ws@[i as int] == w
                &&& first_position(ws@, w) == i
                &&& ws@.contains(w)
            },
            None => !ws@.contains(w),
        },
{
    let mut i: usize = 0;
    while i < ws.len()
        invariant
            i <= ws@.len(),
            forall|j: int| 0 <= j < i ==> ws@[j] != w,
        decreases ws@.len() - i,
    {
        if ws[i] == w {
            proof {
                lemma_first_position_at(ws@, w, i as int);
            }
            return Some(i);
        }
        i += 1;
    }
    proof {
        assert(!ws@.contains(w));
    }
    None
}

impl Constraints {
    /// Well-formedness: the watermarks are strictly ascending and the
    /// outbound-channel keys are unique.
    pub open spec fn wf(&self) -> bool {
        &&& keys_unique(self.hrmp_channels_out@)
        &&& forall|i: int, j: int|
            0 <= i < j < self.hrmp_inbound.valid_watermarks@.len()
                ==> self.hrmp_inbound.valid_watermarks@[i] < self.hrmp_inbound.valid_watermarks@[j]
    }

    /// Check modifications against constraints. Read-only: reports the first
    /// violated budget or signal, if any, in the fixed check order.
    pub fn check_modifications(&self, modifications: &ConstraintModifications) -> (r: Result<
        (),
        ModificationError,
    >)
        ensures
            r is Ok <==> check_error(*self, *modifications) is None,
            r matches Err(e) ==> check_error(*self, *modifications) == Some(e),
    {
        if let Some(w) = modifications.hrmp_watermark {
            if watermark_position(&self.hrmp_inbound.valid_watermarks, w).is_none() {
                return Err(ModificationError::DisallowedHrmpWatermark(w));
            }
        }
        let ghost channels = self.hrmp_channels_out@;
        let ghost mods = modifications.outbound_hrmp@;
        let mut j: usize = 0;
        while j < modifications.outbound_hrmp.len()
            invariant
                j <= mods.len(),
                modifications.outbound_hrmp@ == mods,
                self.hrmp_channels_out@ == channels,
                watermark_error(*self, *modifications) is None,
                forall|k: int| 0 <= k < j ==> channel_mod_allowed(channels, #[trigger] mods[k]),
            decreases mods.len() - j,
        {
            let (id, om) = modifications.outbound_hrmp[j];
            proof {
                lemma_outbound_error_skip(channels, mods, j as int);
                assert(mods.skip(j as int)[0] == mods[j as int]);
            }
            match get_value(&self.hrmp_channels_out, id) {
                None => {
                    return Err(ModificationError::NoSuchHrmpChannel(id));
                },
                Some(lim) => {
                    if lim.bytes_remaining < om.bytes_submitted {
                        return Err(
                            ModificationError::HrmpBytesOverflow {
                                para_id: id,
                                bytes_remaining: lim.bytes_remaining,
                                bytes_submitted: om.bytes_submitted,
                            },
                        );
                    }
                    if lim.messages_remaining < om.messages_submitted {
                        return Err(
                            ModificationError::HrmpMessagesOverflow {
                                para_id: id,
                                messages_remaining: lim.messages_remaining,
                                messages_submitted: om.messages_submitted,
                            },
                        );
                    }
                },
            }
            j += 1;
        }
        proof {
            lemma_outbound_error_none(channels, mods);
        }
        if self.ump_remaining < modifications.ump_messages_sent {
            return Err(
                ModificationError::UmpMessagesOverflow {
                    messages_remaining: self.ump_remaining,
                    messages_submitted: modifications.ump_messages_sent,
                },
            );
        }
        if self.ump_remaining_bytes < modifications.ump_bytes_sent {
            return Err(
                ModificationError::UmpBytesOverflow {
                    bytes_remaining: self.ump_remaining_bytes,
                    bytes_submitted: modifications.ump_bytes_sent,
                },
            );
        }
        if self.dmp_remaining_messages < modifications.dmp_messages_processed {
            return Err(
                ModificationError::DmpMessagesUnderflow {
                    messages_remaining: self.dmp_remaining_messages,
                    messages_processed: modifications.dmp_messages_processed,
                },
            );
        }
        if modifications.code_upgrade_applied && self.future_validation_code.is_none() {
            return Err(ModificationError::AppliedNonexistentCodeUpgrade);
        }
        Ok(())
    }

    /// Apply modifications to these constraints, yielding a new value. The
    /// application succeeds exactly when the check does, with the same error
    /// otherwise, and `self` is never altered.
    pub fn apply_modifications(&self, modifications: &ConstraintModifications) -> (r: Result<
        Self,
        ModificationError,
    >)
        requires
            self.wf(),
            modifications.wf(),
        ensures
            r is Ok <==> check_error(*self, *modifications) is None,
            r matches Err(e) ==> check_error(*self, *modifications) == Some(e),
            r matches Ok(d) ==> applies_to(*self, *modifications, d) && d.wf(),
    {
        match self.check_modifications(modifications) {
            Err(e) => {
                return Err(e);
            },
            Ok(()) => {},
        }
        proof {
            lemma_check_ok_iff_allowed(*self, *modifications);
        }
        let required_parent = match &modifications.required_parent {
            Some(p) => clone_vec_copy(p),
            None => clone_vec_copy(&self.required_parent),
        };
        let valid_watermarks = match modifications.hrmp_watermark {
            Some(w) => {
                match watermark_position(&self.hrmp_inbound.valid_watermarks, w) {
                    Some(pos) => suffix_after(&self.hrmp_inbound.valid_watermarks, pos),
                    None => {
                        proof {
                            assert(false);
                        }
                        Vec::new()
                    },
                }
            },
            None => clone_vec_copy(&self.hrmp_inbound.valid_watermarks),
        };
        let ghost channels = self.hrmp_channels_out@;
        let ghost mods = modifications.outbound_hrmp@;
        let mut new_channels: Vec<(ParaId, OutboundHrmpChannelLimitations)> = Vec::new();
        let mut i: usize = 0;
        while i < self.hrmp_channels_out.len()
            invariant
                i <= channels.len(),
                self.hrmp_channels_out@ == channels,
                modifications.outbound_hrmp@ == mods,
                keys_unique(channels),
                modifications_allowed(*self, *modifications),
                new_channels@.len() == i,
                forall|k: int|
                    0 <= k < i ==> (#[trigger] new_channels@[k]) == (
                    channels[k].0,
                    applied_channel(channels[k].1, lookup(mods, channels[k].0)),
                    ),
            decreases channels.len() - i,
        {
            let (id, lim) = self.hrmp_channels_out[i];
            match get_value(&modifications.outbound_hrmp, id) {
                Some(om) => {
                    proof {
                        lemma_lookup_index(mods, id);
                        let fki = crate::kvlist::first_key_index(mods, id);
                        assert(channel_mod_allowed(channels, mods[fki]));
                        lemma_lookup_unique_at(channels, id, i as int);
                    }
                    new_channels.push(
                        (
                            id,
                            OutboundHrmpChannelLimitations {
                                bytes_remaining: lim.bytes_remaining - om.bytes_submitted,
                                messages_remaining: lim.messages_remaining - om.messages_submitted,
                            },
                        ),
                    );
                },
                None => {
                    new_channels.push((id, lim));
                },
            }
            i += 1;
        }
        let (validation_code_hash, future_validation_code) = if modifications.code_upgrade_applied {
            match self.future_validation_code {
                Some(fvc) => (fvc.1, None),
                None => {
                    proof {
                        assert(false);
                    }
                    (self.validation_code_hash, None)
                },
            }
        } else {
            (self.validation_code_hash, self.future_validation_code)
        };
        let d = Constraints {
            ump_remaining: self.ump_remaining - modifications.ump_messages_sent,
            ump_remaining_bytes: self.ump_remaining_bytes - modifications.ump_bytes_sent,
            dmp_remaining_messages: self.dmp_remaining_messages
                - modifications.dmp_messages_processed,
            hrmp_inbound: InboundHrmpLimitations { valid_watermarks },
            hrmp_channels_out: new_channels,
            max_pov_size: self.max_pov_size,
            max_hrmp_num_per_candidate: self.max_hrmp_num_per_candidate,
            required_parent,
            validation_code_hash,
            go_ahead: self.go_ahead,
            upgrade_restriction: self.upgrade_restriction,
            future_validation_code,
        };
        proof {
            assert(applies_to(*self, *modifications, d));
            lemma_applied_wf(*self, *modifications, d);
        }
        Ok(d)
    }
}

/// Copy the elements of `ws` that follow position `pos`.
fn suffix_after(ws: &Vec<BlockNumber>, pos: usize) -> (r: Vec<BlockNumber>)
    requires
        pos < ws@.len(),
    ensures
        r@ == ws@.skip(pos + 1),
{
    let mut r: Vec<BlockNumber> = Vec::new();
    let n = ws.len();
    let mut k: usize = pos + 1;
    while k < n
        invariant
            n == ws@.len(),
            pos + 1 <= k <= ws@.len(),
            r@ == ws@.subrange(pos + 1, k as int),
        decreases ws@.len() - k,
    {
        r.push(ws[k]);
        proof {
            assert(ws@.subrange(pos + 1, k + 1) =~= ws@.subrange(pos + 1, k as int).push(
                ws@[k as int],
            ));
        }
        k += 1;
    }
    proof {
        assert(ws@.subrange(pos + 1, ws@.len() as int) =~= ws@.skip(pos + 1));
    }
    r
}

/// A successful application preserves well-formedness: the surviving
/// watermarks stay strictly ascending and the channel keys stay unique.
proof fn lemma_applied_wf(c: Constraints, m: ConstraintModifications, d: Constraints)
    requires
        c.wf(),
        applies_to(c, m, d),
        m.hrmp_watermark matches Some(w) ==> c.hrmp_inbound.valid_watermarks@.contains(w),
    ensures
        d.wf(),
{
    let cws = c.hrmp_inbound.valid_watermarks@;
    let dws = d.hrmp_inbound.valid_watermarks@;
    match m.hrmp_watermark {
        Some(w) => {
            lemma_first_position_bounds(cws, w);
            let base = first_position(cws, w) + 1;
            assert forall|i: int, j: int| 0 <= i < j < dws.len() implies dws[i] < dws[j] by {
                assert(dws[i] == cws[base + i]);
                assert(dws[j] == cws[base + j]);
            }
        },
        None => {},
    }
    assert forall|i: int, j: int|
        0 <= i < j < d.hrmp_channels_out@.len() implies (#[trigger] d.hrmp_channels_out@[i]).0 != (
    #[trigger] d.hrmp_channels_out@[j]).0 by {
        assert(d.hrmp_channels_out@[i].0 == c.hrmp_channels_out@[i].0);
        assert(d.hrmp_channels_out@[j].0 == c.hrmp_channels_out@[j].0);
    }
}

} // verus!
