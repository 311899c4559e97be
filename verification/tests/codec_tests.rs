//! Tests of the canonical outcome codec: the exact wire format, the
//! round trip, and the rejection of malformed bytes.

use promise_precompile::codec::decode;
use promise_precompile::codec::encode;
use promise_precompile::outcome::PromiseOutcome;

#[test]
fn encodes_example_scenario_to_exact_bytes() {
    let outcomes = vec![
        PromiseOutcome::Successful(vec![0xde, 0xad, 0xbe, 0xef]),
        PromiseOutcome::Failed,
    ];
    let encoded = encode(&outcomes);
    assert_eq!(
        encoded,
        vec![
            2, 0, 0, 0, // count, little endian
            1, 4, 0, 0, 0, 0xde, 0xad, 0xbe, 0xef, // successful: tag, length, payload
            2, // failed: tag only
        ]
    );
}

#[test]
fn encodes_empty_list_to_count_prefix_alone() {
    let encoded = encode(&Vec::new());
    assert_eq!(encoded, vec![0, 0, 0, 0]);
    assert_eq!(decode(&encoded), Some(Vec::new()));
}

#[test]
fn failed_outcome_encoding_is_one_byte() {
    let one = encode(&vec![PromiseOutcome::Failed]);
    assert_eq!(one.len(), 4 + 1);
    let not_ready = encode(&vec![PromiseOutcome::NotReady]);
    assert_eq!(not_ready.len(), 4 + 1);
}

#[test]
fn successful_outcome_encoding_is_header_plus_payload() {
    let payload = vec![7u8; 33];
    let one = encode(&vec![PromiseOutcome::Successful(payload)]);
    assert_eq!(one.len(), 4 + 1 + 4 + 33);
}

#[test]
fn round_trip_reproduces_the_sequence() {
    let cases: Vec<Vec<PromiseOutcome>> = vec![
        vec![],
        vec![PromiseOutcome::Failed],
        vec![PromiseOutcome::NotReady],
        vec![PromiseOutcome::Successful(vec![])],
        vec![
            PromiseOutcome::Successful(vec![0xde, 0xad, 0xbe, 0xef]),
            PromiseOutcome::Failed,
        ],
        vec![
            PromiseOutcome::NotReady,
            PromiseOutcome::Successful(vec![1u8; 100]),
            PromiseOutcome::Failed,
            PromiseOutcome::Successful(vec![]),
        ],
    ];
    for outcomes in cases {
        let encoded = encode(&outcomes);
        assert_eq!(decode(&encoded), Some(outcomes));
    }
}

#[test]
fn rejects_truncated_prefix() {
    assert_eq!(decode(&[]), None);
    assert_eq!(decode(&[1, 0, 0]), None);
}

#[test]
fn rejects_missing_outcomes() {
    // Count says one outcome, none follows.
    assert_eq!(decode(&[1, 0, 0, 0]), None);
}

#[test]
fn rejects_unknown_tag() {
    assert_eq!(decode(&[1, 0, 0, 0, 3]), None);
}

#[test]
fn rejects_truncated_payload() {
    // Successful outcome announcing 4 payload bytes, carrying 2.
    assert_eq!(decode(&[1, 0, 0, 0, 1, 4, 0, 0, 0, 0xde, 0xad]), None);
}

#[test]
fn rejects_trailing_bytes() {
    assert_eq!(decode(&[1, 0, 0, 0, 2, 9]), None);
}
