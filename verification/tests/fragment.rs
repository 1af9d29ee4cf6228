use inclusion_emulator::constraints::{
    Constraints, InboundHrmpLimitations, ModificationError, OutboundHrmpChannelLimitations,
};
use inclusion_emulator::fragment::{Fragment, FragmentValidityError};
use inclusion_emulator::modifications::OutboundHrmpChannelModification;
use inclusion_emulator::primitives::{
    CandidateCommitments, Hash256, OutboundHrmpMessage, PersistedValidationData,
    ProspectiveCandidate, RelayChainBlockInfo, UpgradeGoAhead, UpgradeRestriction,
};

fn hash(n: u128) -> Hash256 {
    Hash256 { hi: n, lo: 0 }
}

fn base_constraints() -> Constraints {
    Constraints {
        ump_remaining: 10,
        ump_remaining_bytes: 1000,
        dmp_remaining_messages: 5,
        hrmp_inbound: InboundHrmpLimitations {
            valid_watermarks: vec![5, 10, 15],
        },
        hrmp_channels_out: vec![
            (
                1,
                OutboundHrmpChannelLimitations {
                    bytes_remaining: 100,
                    messages_remaining: 10,
                },
            ),
            (
                2,
                OutboundHrmpChannelLimitations {
                    bytes_remaining: 50,
                    messages_remaining: 3,
                },
            ),
        ],
        max_pov_size: 1024,
        max_hrmp_num_per_candidate: 4,
        required_parent: vec![1, 2, 3],
        validation_code_hash: hash(42),
        go_ahead: UpgradeGoAhead::Abort,
        upgrade_restriction: UpgradeRestriction::Present,
        future_validation_code: None,
    }
}

fn anchor() -> RelayChainBlockInfo {
    RelayChainBlockInfo {
        hash: hash(100),
        number: 6,
        storage_root: hash(101),
    }
}

fn candidate_for(c: &Constraints, rp: &RelayChainBlockInfo) -> ProspectiveCandidate {
    ProspectiveCandidate {
        commitments: CandidateCommitments {
            upward_messages: vec![],
            horizontal_messages: vec![],
            head_data: vec![9, 9],
            processed_downward_messages: 0,
            hrmp_watermark: 10,
        },
        collator: vec![1],
        collator_signature: vec![2],
        persisted_validation_data: PersistedValidationData {
            parent_head: c.required_parent.clone(),
            relay_parent_number: rp.number,
            relay_parent_storage_root: rp.storage_root,
            max_pov_size: c.max_pov_size as u32,
        },
        pov_hash: hash(7),
        validation_code_hash: c.validation_code_hash,
    }
}

#[test]
fn fragment_new_succeeds_and_exposes_parts() {
    let c = base_constraints();
    let rp = anchor();
    let cand = candidate_for(&c, &rp);
    let f = Fragment::new(rp.clone(), c.clone(), cand.clone()).unwrap();
    assert_eq!(*f.relay_parent(), rp);
    assert_eq!(*f.operating_constraints(), c);
    assert_eq!(*f.candidate(), cand);
    let m = f.constraint_modifications();
    assert_eq!(m.required_parent, Some(vec![9, 9]));
    assert_eq!(m.hrmp_watermark, Some(10));
    assert!(m.outbound_hrmp.is_empty());
    assert_eq!(m.ump_messages_sent, 0);
    assert_eq!(m.ump_bytes_sent, 0);
    assert_eq!(m.dmp_messages_processed, 0);
    assert!(!m.code_upgrade_applied);
}

#[test]
fn horizontal_messages_aggregate_per_recipient() {
    let c = base_constraints();
    let rp = anchor();
    let mut cand = candidate_for(&c, &rp);
    cand.commitments.horizontal_messages = vec![
        OutboundHrmpMessage {
            recipient: 2,
            data: vec![0, 0, 0],
        },
        OutboundHrmpMessage {
            recipient: 1,
            data: vec![0, 0],
        },
        OutboundHrmpMessage {
            recipient: 2,
            data: vec![0],
        },
    ];
    cand.commitments.upward_messages = vec![vec![0, 0, 0, 0], vec![0]];
    cand.commitments.processed_downward_messages = 3;
    let f = Fragment::new(rp, c, cand).unwrap();
    let m = f.constraint_modifications();
    assert_eq!(
        m.outbound_hrmp,
        vec![
            (
                2,
                OutboundHrmpChannelModification {
                    bytes_submitted: 4,
                    messages_submitted: 2,
                }
            ),
            (
                1,
                OutboundHrmpChannelModification {
                    bytes_submitted: 2,
                    messages_submitted: 1,
                }
            ),
        ]
    );
    assert_eq!(m.ump_messages_sent, 2);
    assert_eq!(m.ump_bytes_sent, 5);
    assert_eq!(m.dmp_messages_processed, 3);
}

#[test]
fn mismatched_validation_data_builds_nothing() {
    let c = base_constraints();
    let rp = anchor();
    let mut cand = candidate_for(&c, &rp);
    cand.persisted_validation_data.parent_head = vec![4, 4];
    let got = cand.persisted_validation_data.clone();
    match Fragment::new(rp.clone(), c.clone(), cand) {
        Err(FragmentValidityError::PersistedValidationDataMismatch(expected, actual)) => {
            assert_eq!(expected.parent_head, c.required_parent);
            assert_eq!(expected.relay_parent_number, rp.number);
            assert_eq!(expected.relay_parent_storage_root, rp.storage_root);
            assert_eq!(expected.max_pov_size, c.max_pov_size as u32);
            assert_eq!(actual, got);
        }
        other => panic!("expected a validation-data mismatch, got {:?}", other),
    }
}

#[test]
fn mismatched_validation_code_builds_nothing() {
    let c = base_constraints();
    let rp = anchor();
    let mut cand = candidate_for(&c, &rp);
    cand.validation_code_hash = hash(43);
    match Fragment::new(rp, c, cand) {
        Err(FragmentValidityError::ValidationCodeMismatch(expected, got)) => {
            assert_eq!(expected, hash(42));
            assert_eq!(got, hash(43));
        }
        other => panic!("expected a code mismatch, got {:?}", other),
    }
}

#[test]
fn too_many_upward_messages_build_nothing() {
    let mut c = base_constraints();
    c.ump_remaining = 2;
    let rp = anchor();
    let mut cand = candidate_for(&c, &rp);
    cand.commitments.upward_messages = vec![vec![1], vec![2], vec![3]];
    match Fragment::new(rp, c, cand) {
        Err(FragmentValidityError::OutputsInvalid(e)) => {
            assert_eq!(
                e,
                ModificationError::UmpMessagesOverflow {
                    messages_remaining: 2,
                    messages_submitted: 3,
                }
            );
        }
        other => panic!("expected invalid outputs, got {:?}", other),
    }
}

#[test]
fn code_upgrade_flag_follows_activation_number() {
    let rp = anchor();

    let mut reached = base_constraints();
    reached.future_validation_code = Some((6, hash(9)));
    let cand = candidate_for(&reached, &rp);
    let f = Fragment::new(rp.clone(), reached, cand).unwrap();
    assert!(f.constraint_modifications().code_upgrade_applied);

    let mut pending = base_constraints();
    pending.future_validation_code = Some((7, hash(9)));
    let cand2 = candidate_for(&pending, &rp);
    let f2 = Fragment::new(rp, pending, cand2).unwrap();
    assert!(!f2.constraint_modifications().code_upgrade_applied);
}

#[test]
fn revalidation_reports_newly_exceeded_budget() {
    let c = base_constraints();
    let rp = anchor();
    let mut cand = candidate_for(&c, &rp);
    cand.commitments.upward_messages = vec![vec![1]];
    let f = Fragment::new(rp, c, cand).unwrap();
    assert!(f
        .validate_against_constraints(f.operating_constraints())
        .is_ok());
    let mut tightened = base_constraints();
    tightened.ump_remaining = 0;
    match f.validate_against_constraints(&tightened) {
        Err(FragmentValidityError::OutputsInvalid(e)) => {
            assert_eq!(
                e,
                ModificationError::UmpMessagesOverflow {
                    messages_remaining: 0,
                    messages_submitted: 1,
                }
            );
        }
        other => panic!("expected invalid outputs, got {:?}", other),
    }
}

#[test]
fn disallowed_watermark_surfaces_through_fragment_construction() {
    let c = base_constraints();
    let rp = anchor();
    let mut cand = candidate_for(&c, &rp);
    cand.commitments.hrmp_watermark = 7;
    match Fragment::new(rp, c, cand) {
        Err(FragmentValidityError::OutputsInvalid(e)) => {
            assert_eq!(e, ModificationError::DisallowedHrmpWatermark(7));
        }
        other => panic!("expected invalid outputs, got {:?}", other),
    }
}
