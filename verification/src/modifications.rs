//! Deltas over constraints: the cumulative effect of one or more candidates,
//! with an identity element and sequential composition (`stack`).

use crate::kvlist::{
    get_index, keys_unique, lemma_lookup_absent, lemma_lookup_push, lemma_lookup_update,
    lemma_push_unique, lookup,
};
use crate::primitives::{clone_vec_copy, BlockNumber, HeadData, ParaId};
use vstd::prelude::*;

verus! {

/// An update to one outbound channel.
#[derive(Clone, Copy, Debug, PartialEq, Eq, Structural, Default)]
pub struct OutboundHrmpChannelModification {
    /// The number of bytes submitted to the channel.
    pub bytes_submitted: usize,
    /// The number of messages submitted to the channel.
    pub messages_submitted: usize,
}

/// Modifications to constraints as a result of prospective candidates.
#[derive(Clone, Debug, PartialEq, Eq)]
pub struct ConstraintModifications {
    /// The required parent head to build upon, when overridden.
    pub required_parent: Option<HeadData>,
    /// The new inbound-message watermark, when overridden.
    pub hrmp_watermark: Option<BlockNumber>,
    /// Outbound channel modifications, keyed by destination (keys unique).
    pub outbound_hrmp: Vec<(ParaId, OutboundHrmpChannelModification)>,
    /// The number of upward messages sent.
    pub ump_messages_sent: usize,
    /// The number of upward-message bytes sent.
    pub ump_bytes_sent: usize,
    /// The number of downward messages processed.
    pub dmp_messages_processed: usize,
    /// Whether a pending code upgrade has been applied.
    pub code_upgrade_applied: bool,
}

/// The composition of the channel values bound to one key on the two sides
/// of a `stack`: the per-key submitted counters add.
pub open spec fn combined_channel_mod(
    a: Option<OutboundHrmpChannelModification>,
    b: Option<OutboundHrmpChannelModification>,
) -> Option<OutboundHrmpChannelModification> {
    match (a, b) {
        (None, None) => None,
        (Some(x), None) => Some(x),
        (None, Some(y)) => Some(y),
        (Some(x), Some(y)) => Some(
            OutboundHrmpChannelModification {
                bytes_submitted: (x.bytes_submitted + y.bytes_submitted) as usize,
                messages_submitted: (x.messages_submitted + y.messages_submitted) as usize,
            },
        ),
    }
}

/// What `a.stack(&b)` produces: later overrides win, counters add, and the
/// code-upgrade flag is the disjunction. `b` is the newer suffix.
pub open spec fn stacks_to(
    a: ConstraintModifications,
    b: ConstraintModifications,
    r: ConstraintModifications,
) -> bool {
    &&& (match b.required_parent {
        Some(p) => r.required_parent matches Some(q) && q@ == p@,
        None => r.required_parent == a.required_parent,
    })
    &&& r.hrmp_watermark == (if b.hrmp_watermark is Some {
        b.hrmp_watermark
    } else {
        a.hrmp_watermark
    })
    &&& keys_unique(r.outbound_hrmp@)
    &&& forall|id: ParaId| #[trigger]
        lookup(r.outbound_hrmp@, id) == combined_channel_mod(
            lookup(a.outbound_hrmp@, id),
            lookup(b.outbound_hrmp@, id),
        )
    &&& r.ump_messages_sent == a.ump_messages_sent + b.ump_messages_sent
    &&& r.ump_bytes_sent == a.ump_bytes_sent + b.ump_bytes_sent
    &&& r.dmp_messages_processed == a.dmp_messages_processed + b.dmp_messages_processed
    &&& r.code_upgrade_applied == (a.code_upgrade_applied || b.code_upgrade_applied)
}

impl ConstraintModifications {
    /// Well-formedness: the channel keys are unique.
    pub open spec fn wf(&self) -> bool {
        keys_unique(self.outbound_hrmp@)
    }

    /// Whether this is the no-op delta: no overrides, no channel entries,
    /// all counters zero and no code upgrade.
    pub open spec fn is_identity(&self) -> bool {
        &&& self.required_parent is None
        &&& self.hrmp_watermark is None
        &&& self.outbound_hrmp@.len() == 0
        &&& self.ump_messages_sent == 0
        &&& self.ump_bytes_sent == 0
        &&& self.dmp_messages_processed == 0
        &&& !self.code_upgrade_applied
    }

    /// The 'identity' modifications: these can be applied to any constraints
    /// and yield the exact same result.
    pub fn identity() -> (r: Self)
        ensures
            r.is_identity(),
            r.wf(),
    {
        ConstraintModifications {
            required_parent: None,
            hrmp_watermark: None,
            outbound_hrmp: Vec::new(),
            ump_messages_sent: 0,
            ump_bytes_sent: 0,
            dmp_messages_processed: 0,
            code_upgrade_applied: false,
        }
    }

    /// Stack other modifications on top of these: `other` is the newer
    /// suffix, so its overrides win. Counters add, per destination and
    /// globally. This addition is intentionally not commutative.
    ///
    /// No validity checking is done here; the result is to be judged by
    /// `Constraints::check_modifications`.
    pub fn stack(&mut self, other: &Self)
        requires
            old(self).wf(),
            other.wf(),
            old(self).ump_messages_sent + other.ump_messages_sent <= usize::MAX,
            old(self).ump_bytes_sent + other.ump_bytes_sent <= usize::MAX,
            old(self).dmp_messages_processed + other.dmp_messages_processed <= usize::MAX,
            forall|j: int|
                0 <= j < other.outbound_hrmp@.len() ==> match lookup(
                    old(self).outbound_hrmp@,
                    (#[trigger] other.outbound_hrmp@[j]).0,
                ) {
                    Some(a) => {
                        &&& a.bytes_submitted + other.outbound_hrmp@[j].1.bytes_submitted
                            <= usize::MAX
                        &&& a.messages_submitted + other.outbound_hrmp@[j].1.messages_submitted
                            <= usize::MAX
                    },
                    None => true,
                },
        ensures
            stacks_to(*old(self), *other, *final(self)),
            final(self).wf(),
    {
        let ghost a_entries = self.outbound_hrmp@;
        let ghost b_entries = other.outbound_hrmp@;
        let mut j: usize = 0;
        while j < other.outbound_hrmp.len()
            invariant
                j <= b_entries.len(),
                other.outbound_hrmp@ == b_entries,
                keys_unique(a_entries),
                keys_unique(b_entries),
                keys_unique(self.outbound_hrmp@),
                forall|jj: int|
                    0 <= jj < b_entries.len() ==> match lookup(
                        a_entries,
                        (#[trigger] b_entries[jj]).0,
                    ) {
                        Some(a) => {
                            &&& a.bytes_submitted + b_entries[jj].1.bytes_submitted <= usize::MAX
                            &&& a.messages_submitted + b_entries[jj].1.messages_submitted
                                <= usize::MAX
                        },
                        None => true,
                    },
                forall|id: ParaId| #[trigger]
                    lookup(self.outbound_hrmp@, id) == combined_channel_mod(
                        lookup(a_entries, id),
                        lookup(b_entries.take(j as int), id),
                    ),
                self.required_parent == old(self).required_parent,
                self.hrmp_watermark == old(self).hrmp_watermark,
                self.ump_messages_sent == old(self).ump_messages_sent,
                self.ump_bytes_sent == old(self).ump_bytes_sent,
                self.dmp_messages_processed == old(self).dmp_messages_processed,
                self.code_upgrade_applied == old(self).code_upgrade_applied,
            decreases b_entries.len() - j,
        {
            let (id, om) = other.outbound_hrmp[j];
            proof {
                // This entry's key is new to the processed prefix of `other`.
                assert forall|k: int| 0 <= k < j implies (#[trigger] b_entries.take(j as int)[k]).0
                    != id by {
                    assert(b_entries.take(j as int)[k] == b_entries[k]);
                    assert(b_entries[k].0 != b_entries[j as int].0);
                }
                lemma_lookup_absent(b_entries.take(j as int), id);
                assert(lookup(self.outbound_hrmp@, id) == lookup(a_entries, id));
                assert(b_entries.take(j as int + 1) =~= b_entries.take(j as int).push(
                    b_entries[j as int],
                ));
            }
            match get_index(&self.outbound_hrmp, id) {
                Some(i) => {
                    let cur = self.outbound_hrmp[i].1;
                    let merged = OutboundHrmpChannelModification {
                        bytes_submitted: cur.bytes_submitted + om.bytes_submitted,
                        messages_submitted: cur.messages_submitted + om.messages_submitted,
                    };
                    let ghost pre = self.outbound_hrmp@;
                    self.outbound_hrmp[i] = (id, merged);
                    proof {
                        lemma_lookup_update(pre, i as int, (id, merged), id);
                        assert forall|key: ParaId| #[trigger]
                            lookup(self.outbound_hrmp@, key) == combined_channel_mod(
                                lookup(a_entries, key),
                                lookup(b_entries.take(j as int + 1), key),
                            ) by {
                            lemma_lookup_update(pre, i as int, (id, merged), key);
                            lemma_lookup_push(b_entries.take(j as int), b_entries[j as int], key);
                        }
                    }
                },
                None => {
                    let ghost pre = self.outbound_hrmp@;
                    self.outbound_hrmp.push((id, om));
                    proof {
                        lemma_push_unique(pre, (id, om));
                        assert forall|key: ParaId| #[trigger]
                            lookup(self.outbound_hrmp@, key) == combined_channel_mod(
                                lookup(a_entries, key),
                                lookup(b_entries.take(j as int + 1), key),
                            ) by {
                            lemma_lookup_push(pre, (id, om), key);
                            lemma_lookup_push(b_entries.take(j as int), b_entries[j as int], key);
                        }
                    }
                },
            }
            j += 1;
        }
        proof {
            assert(b_entries.take(b_entries.len() as int) =~= b_entries);
        }
        match &other.required_parent {
            Some(p) => {
                self.required_parent = Some(clone_vec_copy(p));
            },
            None => {},
        }
        if let Some(w) = other.hrmp_watermark {
            self.hrmp_watermark = Some(w);
        }
        self.ump_messages_sent = self.ump_messages_sent + other.ump_messages_sent;
        self.ump_bytes_sent = self.ump_bytes_sent + other.ump_bytes_sent;
        self.dmp_messages_processed = self.dmp_messages_processed + other.dmp_messages_processed;
        self.code_upgrade_applied = self.code_upgrade_applied || other.code_upgrade_applied;
    }
}

} // verus!
