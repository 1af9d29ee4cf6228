use inclusion_emulator::constraints::{
    Constraints, InboundHrmpLimitations, ModificationError, OutboundHrmpChannelLimitations,
};
use inclusion_emulator::modifications::{ConstraintModifications, OutboundHrmpChannelModification};
use inclusion_emulator::primitives::{Hash256, UpgradeGoAhead, UpgradeRestriction};

fn hash(n: u128) -> Hash256 {
    Hash256 { hi: n, lo: 0 }
}

fn base_constraints() -> Constraints {
    Constraints {
        ump_remaining: 10,
        ump_remaining_bytes: 1000,
        dmp_remaining_messages: 5,
        hrmp_inbound: InboundHrmpLimitations {
            valid_watermarks: vec![5, 10, 15],
        },
        hrmp_channels_out: vec![
            (
                1,
                OutboundHrmpChannelLimitations {
                    bytes_remaining: 100,
                    messages_remaining: 10,
                },
            ),
            (
                2,
                OutboundHrmpChannelLimitations {
                    bytes_remaining: 50,
                    messages_remaining: 3,
                },
            ),
        ],
        max_pov_size: 1024,
        max_hrmp_num_per_candidate: 4,
        required_parent: vec![1, 2, 3],
        validation_code_hash: hash(42),
        go_ahead: UpgradeGoAhead::Abort,
        upgrade_restriction: UpgradeRestriction::Present,
        future_validation_code: None,
    }
}

#[test]
fn apply_identity_yields_equal_constraints() {
    let c = base_constraints();
    let out = c
        .apply_modifications(&ConstraintModifications::identity())
        .unwrap();
    assert_eq!(out, base_constraints());
    assert_eq!(c, base_constraints());
}

#[test]
fn check_and_apply_agree() {
    let c = base_constraints();
    let mut ok = ConstraintModifications::identity();
    ok.hrmp_watermark = Some(10);
    ok.ump_messages_sent = 10;
    assert!(c.check_modifications(&ok).is_ok());
    assert!(c.apply_modifications(&ok).is_ok());
    assert_eq!(c, base_constraints());

    let mut bad = ConstraintModifications::identity();
    bad.ump_bytes_sent = 1001;
    let e1 = c.check_modifications(&bad).unwrap_err();
    let e2 = c.apply_modifications(&bad).unwrap_err();
    assert_eq!(e1, e2);
    assert_eq!(
        e1,
        ModificationError::UmpBytesOverflow {
            bytes_remaining: 1000,
            bytes_submitted: 1001,
        }
    );
}

#[test]
fn watermark_consumes_prefix() {
    let c = base_constraints();
    let mut m = ConstraintModifications::identity();
    m.hrmp_watermark = Some(10);
    let out = c.apply_modifications(&m).unwrap();
    assert_eq!(out.hrmp_inbound.valid_watermarks, vec![15]);
}

#[test]
fn absent_watermark_is_rejected() {
    let c = base_constraints();
    let mut m = ConstraintModifications::identity();
    m.hrmp_watermark = Some(7);
    assert_eq!(
        c.check_modifications(&m).unwrap_err(),
        ModificationError::DisallowedHrmpWatermark(7)
    );
    assert_eq!(
        c.apply_modifications(&m).unwrap_err(),
        ModificationError::DisallowedHrmpWatermark(7)
    );
}

#[test]
fn hrmp_bytes_overflow_is_rejected() {
    let c = base_constraints();
    let mut m = ConstraintModifications::identity();
    m.outbound_hrmp = vec![(
        1,
        OutboundHrmpChannelModification {
            bytes_submitted: 101,
            messages_submitted: 1,
        },
    )];
    assert_eq!(
        c.apply_modifications(&m).unwrap_err(),
        ModificationError::HrmpBytesOverflow {
            para_id: 1,
            bytes_remaining: 100,
            bytes_submitted: 101,
        }
    );
}

#[test]
fn hrmp_budget_can_be_exhausted_exactly() {
    let c = base_constraints();
    let mut m = ConstraintModifications::identity();
    m.outbound_hrmp = vec![(
        1,
        OutboundHrmpChannelModification {
            bytes_submitted: 100,
            messages_submitted: 1,
        },
    )];
    let out = c.apply_modifications(&m).unwrap();
    assert_eq!(
        out.hrmp_channels_out[0],
        (
            1,
            OutboundHrmpChannelLimitations {
                bytes_remaining: 0,
                messages_remaining: 9,
            }
        )
    );
    assert_eq!(out.hrmp_channels_out[1], c.hrmp_channels_out[1]);
}

#[test]
fn hrmp_messages_overflow_is_rejected() {
    let c = base_constraints();
    let mut m = ConstraintModifications::identity();
    m.outbound_hrmp = vec![(
        2,
        OutboundHrmpChannelModification {
            bytes_submitted: 1,
            messages_submitted: 4,
        },
    )];
    assert_eq!(
        c.check_modifications(&m).unwrap_err(),
        ModificationError::HrmpMessagesOverflow {
            para_id: 2,
            messages_remaining: 3,
            messages_submitted: 4,
        }
    );
}

#[test]
fn unknown_channel_is_rejected() {
    let c = base_constraints();
    let mut m = ConstraintModifications::identity();
    m.outbound_hrmp = vec![(
        9,
        OutboundHrmpChannelModification {
            bytes_submitted: 1,
            messages_submitted: 1,
        },
    )];
    assert_eq!(
        c.check_modifications(&m).unwrap_err(),
        ModificationError::NoSuchHrmpChannel(9)
    );
}

#[test]
fn ump_and_dmp_overflows_are_rejected() {
    let c = base_constraints();
    let mut m = ConstraintModifications::identity();
    m.ump_messages_sent = 11;
    assert_eq!(
        c.check_modifications(&m).unwrap_err(),
        ModificationError::UmpMessagesOverflow {
            messages_remaining: 10,
            messages_submitted: 11,
        }
    );
    let mut m2 = ConstraintModifications::identity();
    m2.dmp_messages_processed = 6;
    assert_eq!(
        c.check_modifications(&m2).unwrap_err(),
        ModificationError::DmpMessagesUnderflow {
            messages_remaining: 5,
            messages_processed: 6,
        }
    );
}

#[test]
fn quotas_are_reduced_by_apply() {
    let c = base_constraints();
    let mut m = ConstraintModifications::identity();
    m.ump_messages_sent = 4;
    m.ump_bytes_sent = 100;
    m.dmp_messages_processed = 5;
    let out = c.apply_modifications(&m).unwrap();
    assert_eq!(out.ump_remaining, 6);
    assert_eq!(out.ump_remaining_bytes, 900);
    assert_eq!(out.dmp_remaining_messages, 0);
}

#[test]
fn code_upgrade_without_pending_code_is_rejected() {
    let c = base_constraints();
    let mut m = ConstraintModifications::identity();
    m.code_upgrade_applied = true;
    assert_eq!(
        c.check_modifications(&m).unwrap_err(),
        ModificationError::AppliedNonexistentCodeUpgrade
    );
    assert_eq!(
        c.apply_modifications(&m).unwrap_err(),
        ModificationError::AppliedNonexistentCodeUpgrade
    );
}

#[test]
fn code_upgrade_applies_pending_code() {
    let mut c = base_constraints();
    c.future_validation_code = Some((50, hash(9)));
    let mut m = ConstraintModifications::identity();
    m.code_upgrade_applied = true;
    let out = c.apply_modifications(&m).unwrap();
    assert_eq!(out.validation_code_hash, hash(9));
    assert_eq!(out.future_validation_code, None);
}

#[test]
fn required_parent_is_overridden() {
    let c = base_constraints();
    let mut m = ConstraintModifications::identity();
    m.required_parent = Some(vec![7, 8]);
    let out = c.apply_modifications(&m).unwrap();
    assert_eq!(out.required_parent, vec![7, 8]);
}

#[test]
fn watermark_error_comes_first() {
    let c = base_constraints();
    let mut m = ConstraintModifications::identity();
    m.hrmp_watermark = Some(7);
    m.ump_messages_sent = 11;
    assert_eq!(
        c.check_modifications(&m).unwrap_err(),
        ModificationError::DisallowedHrmpWatermark(7)
    );
}

#[test]
fn consuming_the_last_watermark_empties_the_list() {
    let c = base_constraints();
    let mut m = ConstraintModifications::identity();
    m.hrmp_watermark = Some(15);
    let out = c.apply_modifications(&m).unwrap();
    assert!(out.hrmp_inbound.valid_watermarks.is_empty());
}

#[test]
fn empty_constraints_accept_the_identity() {
    let mut c = base_constraints();
    c.hrmp_channels_out = vec![];
    c.hrmp_inbound.valid_watermarks = vec![];
    c.ump_remaining = 0;
    c.ump_remaining_bytes = 0;
    c.dmp_remaining_messages = 0;
    let out = c.apply_modifications(&ConstraintModifications::identity()).unwrap();
    assert_eq!(out, c);
}

#[test]
fn largest_budget_can_be_spent_whole() {
    let mut c = base_constraints();
    c.ump_remaining = usize::MAX;
    let mut m = ConstraintModifications::identity();
    m.ump_messages_sent = usize::MAX;
    let out = c.apply_modifications(&m).unwrap();
    assert_eq!(out.ump_remaining, 0);
}
