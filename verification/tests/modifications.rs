use inclusion_emulator::modifications::{ConstraintModifications, OutboundHrmpChannelModification};

#[test]
fn identity_is_the_empty_delta() {
    let m = ConstraintModifications::identity();
    assert_eq!(m.required_parent, None);
    assert_eq!(m.hrmp_watermark, None);
    assert!(m.outbound_hrmp.is_empty());
    assert_eq!(m.ump_messages_sent, 0);
    assert_eq!(m.ump_bytes_sent, 0);
    assert_eq!(m.dmp_messages_processed, 0);
    assert!(!m.code_upgrade_applied);
}

#[test]
fn stack_later_override_wins() {
    let mut a = ConstraintModifications::identity();
    a.hrmp_watermark = Some(5);
    a.required_parent = Some(vec![1]);
    let mut b = ConstraintModifications::identity();
    b.hrmp_watermark = Some(10);
    b.required_parent = Some(vec![2]);

    let mut ab = a.clone();
    ab.stack(&b);
    assert_eq!(ab.hrmp_watermark, Some(10));
    assert_eq!(ab.required_parent, Some(vec![2]));

    let mut ba = b.clone();
    ba.stack(&a);
    assert_eq!(ba.hrmp_watermark, Some(5));
    assert_eq!(ba.required_parent, Some(vec![1]));

    assert_ne!(ab.hrmp_watermark, ba.hrmp_watermark);
}

#[test]
fn stack_keeps_earlier_value_without_override() {
    let mut a = ConstraintModifications::identity();
    a.hrmp_watermark = Some(5);
    a.required_parent = Some(vec![1]);
    let b = ConstraintModifications::identity();
    let mut ab = a.clone();
    ab.stack(&b);
    assert_eq!(ab.hrmp_watermark, Some(5));
    assert_eq!(ab.required_parent, Some(vec![1]));
}

#[test]
fn stack_adds_counters_and_merges_channels() {
    let mut a = ConstraintModifications::identity();
    a.outbound_hrmp = vec![(
        1,
        OutboundHrmpChannelModification {
            bytes_submitted: 10,
            messages_submitted: 1,
        },
    )];
    a.ump_messages_sent = 2;
    a.ump_bytes_sent = 20;
    a.dmp_messages_processed = 1;
    let mut b = ConstraintModifications::identity();
    b.outbound_hrmp = vec![
        (
            1,
            OutboundHrmpChannelModification {
                bytes_submitted: 5,
                messages_submitted: 2,
            },
        ),
        (
            3,
            OutboundHrmpChannelModification {
                bytes_submitted: 7,
                messages_submitted: 1,
            },
        ),
    ];
    b.ump_messages_sent = 3;
    b.ump_bytes_sent = 30;
    b.dmp_messages_processed = 2;
    b.code_upgrade_applied = true;

    let mut ab = a.clone();
    ab.stack(&b);
    assert_eq!(
        ab.outbound_hrmp,
        vec![
            (
                1,
                OutboundHrmpChannelModification {
                    bytes_submitted: 15,
                    messages_submitted: 3,
                }
            ),
            (
                3,
                OutboundHrmpChannelModification {
                    bytes_submitted: 7,
                    messages_submitted: 1,
                }
            ),
        ]
    );
    assert_eq!(ab.ump_messages_sent, 5);
    assert_eq!(ab.ump_bytes_sent, 50);
    assert_eq!(ab.dmp_messages_processed, 3);
    assert!(ab.code_upgrade_applied);
}

#[test]
fn stacking_identities_gives_the_identity() {
    let mut a = ConstraintModifications::identity();
    let b = ConstraintModifications::identity();
    a.stack(&b);
    assert_eq!(a, ConstraintModifications::identity());
}

#[test]
fn stack_appends_a_new_channel_to_an_empty_delta() {
    let mut a = ConstraintModifications::identity();
    let mut b = ConstraintModifications::identity();
    b.outbound_hrmp = vec![(
        4,
        OutboundHrmpChannelModification {
            bytes_submitted: 1,
            messages_submitted: 1,
        },
    )];
    a.stack(&b);
    assert_eq!(a.outbound_hrmp, b.outbound_hrmp);
}
