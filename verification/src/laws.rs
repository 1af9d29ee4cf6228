//! General laws of the modification algebra, stated over the same spec
//! functions that the executable contracts use.

use crate::constraints::{
    applies_to, check_error, lemma_check_ok_iff_allowed, Constraints, ModificationError,
};
use crate::kvlist::lookup;
use crate::modifications::{stacks_to, ConstraintModifications};
use vstd::prelude::*;

verus! {

/// The identity modifications pass the check against any constraints, so
/// applying them always succeeds.
pub proof fn lemma_identity_always_allowed(c: Constraints, m: ConstraintModifications)
    requires
        m.is_identity(),
    ensures
        check_error(c, m) is None,
{
    lemma_check_ok_iff_allowed(c, m);
}

/// Applying the identity modifications changes nothing: every field of the
/// resulting constraints `d` equals the corresponding field of `c`.
pub proof fn lemma_apply_identity_is_noop(
    c: Constraints,
    m: ConstraintModifications,
    d: Constraints,
)
    requires
        m.is_identity(),
        applies_to(c, m, d),
    ensures
        d.ump_remaining == c.ump_remaining,
        d.ump_remaining_bytes == c.ump_remaining_bytes,
        d.dmp_remaining_messages == c.dmp_remaining_messages,
        d.hrmp_inbound.valid_watermarks@ == c.hrmp_inbound.valid_watermarks@,
        d.hrmp_channels_out@ == c.hrmp_channels_out@,
        d.max_pov_size == c.max_pov_size,
        d.max_hrmp_num_per_candidate == c.max_hrmp_num_per_candidate,
        d.required_parent@ == c.required_parent@,
        d.validation_code_hash == c.validation_code_hash,
        d.go_ahead == c.go_ahead,
        d.upgrade_restriction == c.upgrade_restriction,
        d.future_validation_code == c.future_validation_code,
{
    assert forall|i: int|
        0 <= i < c.hrmp_channels_out@.len() implies (#[trigger] d.hrmp_channels_out@[i])
        == c.hrmp_channels_out@[i] by {
        assert(lookup(m.outbound_hrmp@, c.hrmp_channels_out@[i].0) is None);
    }
    assert(d.hrmp_channels_out@ =~= c.hrmp_channels_out@);
}

/// Checking and applying agree: given outcomes that satisfy the contracts
/// of `Constraints::check_modifications` and
/// `Constraints::apply_modifications` for the same constraints and
/// modifications, one succeeds exactly when the other does, and when both
/// fail they report the same error. Neither call alters the constraints,
/// which both take by shared reference.
pub proof fn lemma_check_agrees_with_apply(
    c: Constraints,
    m: ConstraintModifications,
    checked: Result<(), ModificationError>,
    applied: Result<Constraints, ModificationError>,
)
    requires
        checked is Ok <==> check_error(c, m) is None,
        checked matches Err(e) ==> check_error(c, m) == Some(e),
        applied is Ok <==> check_error(c, m) is None,
        applied matches Err(e) ==> check_error(c, m) == Some(e),
    ensures
        checked is Ok <==> applied is Ok,
        checked matches Err(e1) ==> applied matches Err(e2) && e1 == e2,
{
}

/// Stacking is not commutative: when the two sides override the watermark
/// with different values, each order keeps the value of its own newer
/// suffix, so the two results differ.
pub proof fn lemma_stack_not_commutative(
    a: ConstraintModifications,
    b: ConstraintModifications,
    r_ab: ConstraintModifications,
    r_ba: ConstraintModifications,
)
    requires
        stacks_to(a, b, r_ab),
        stacks_to(b, a, r_ba),
        a.hrmp_watermark is Some,
        b.hrmp_watermark is Some,
        a.hrmp_watermark != b.hrmp_watermark,
    ensures
        r_ab.hrmp_watermark == b.hrmp_watermark,
        r_ba.hrmp_watermark == a.hrmp_watermark,
        r_ab.hrmp_watermark != r_ba.hrmp_watermark,
{
}

} // verus!
