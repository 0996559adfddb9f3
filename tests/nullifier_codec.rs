use pbh_builder::nullifier::{ExternalNullifier, PeriodMarker, PERIOD_LIMIT, SECONDS_PER_DAY};

fn word_of(x: &ExternalNullifier) -> Vec<u8> {
    x.encode().to_bytes()
}

#[test]
fn encode_packs_period_above_nonce() {
    let x = ExternalNullifier::with_period(PeriodMarker { day: 20000 }, 3);
    let w = word_of(&x);
    let mut expected = vec![0u8; 27];
    expected.extend_from_slice(&[0x00, 0x4e, 0x20, 0x00, 0x03]);
    assert_eq!(w, expected);
    assert_eq!(x.to_u64(), 20000 * 65536 + 3);
    assert_eq!(x.to_u64(), 1310720003);
}

#[test]
fn decode_inverts_encode() {
    for day in [0u32, 1, 255, 256, 65535, 65536, 20000, PERIOD_LIMIT - 1] {
        for nonce in [0u16, 1, 255, 256, 65535] {
            let x = ExternalNullifier::with_period(PeriodMarker { day }, nonce);
            assert_eq!(ExternalNullifier::decode(&word_of(&x)), Some(x));
        }
    }
}

#[test]
fn decode_rejects_high_bytes_and_wrong_length() {
    let mut w = vec![0u8; 32];
    w[26] = 1;
    assert_eq!(ExternalNullifier::decode(&w), None);
    assert_eq!(ExternalNullifier::decode(&vec![0u8; 31]), None);
    assert_eq!(ExternalNullifier::decode(&vec![0u8; 33]), None);
    let zero = ExternalNullifier::decode(&vec![0u8; 32]).unwrap();
    assert_eq!(zero, ExternalNullifier::with_period(PeriodMarker { day: 0 }, 0));
}

#[test]
fn period_ignores_time_of_day() {
    let start = 20000 * SECONDS_PER_DAY;
    let a = PeriodMarker::from_unix_seconds(start).unwrap();
    let b = PeriodMarker::from_unix_seconds(start + SECONDS_PER_DAY - 1).unwrap();
    let c = PeriodMarker::from_unix_seconds(start + SECONDS_PER_DAY).unwrap();
    assert_eq!(a, PeriodMarker { day: 20000 });
    assert_eq!(a, b);
    assert_eq!(c, PeriodMarker { day: 20001 });
}

#[test]
fn period_past_three_bytes_is_refused() {
    let last = (PERIOD_LIMIT as u64) * SECONDS_PER_DAY - 1;
    assert_eq!(PeriodMarker::from_unix_seconds(last), Some(PeriodMarker { day: PERIOD_LIMIT - 1 }));
    assert_eq!(PeriodMarker::from_unix_seconds(last + 1), None);
    assert_eq!(ExternalNullifier::at_unix_seconds(last + 1, 0), None);
    assert_eq!(
        ExternalNullifier::at_unix_seconds(86400 * 3 + 7, 9),
        Some(ExternalNullifier::with_period(PeriodMarker { day: 3 }, 9))
    );
}

#[test]
fn different_nonces_give_different_words() {
    let a = ExternalNullifier::with_period(PeriodMarker { day: 20000 }, 0);
    let b = ExternalNullifier::with_period(PeriodMarker { day: 20000 }, 1);
    assert_ne!(word_of(&a), word_of(&b));
}
