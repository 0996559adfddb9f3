use alloy_primitives::{Address as AlloyAddress, Bytes, U256};
use alloy_sol_types::SolValue;
use pbh_builder::field::FieldElement;
use pbh_builder::nullifier::{ExternalNullifier, PeriodMarker};
use pbh_builder::payload::{decode_pbh_payload, encode_pbh_multicall, PBHPayload};
use pbh_builder::signal::{Address, Call};

fn fe(last: u8, fill: u8) -> FieldElement {
    let mut b = vec![fill; 32];
    b[0] = 0;
    b[31] = last;
    FieldElement::from_field_bytes(b)
}

fn sample_payload() -> PBHPayload {
    let proof: Vec<FieldElement> = (0..8u8).map(|i| fe(i + 1, 0x10 + i)).collect();
    PBHPayload::new(
        fe(0xaa, 0x01),
        fe(0xbb, 0x02),
        ExternalNullifier::with_period(PeriodMarker { day: 0x012345 }, 0xbeef),
        proof,
    )
}

fn sample_calls() -> Vec<Call> {
    vec![
        Call::new(Address::from_bytes(vec![0xde; 20]).unwrap(), vec![0x12, 0x34], false),
        Call::new(Address::from_bytes(vec![0x11; 20]).unwrap(), (0..40u8).collect(), true),
        Call::new(Address::from_bytes(vec![0x22; 20]).unwrap(), vec![], false),
    ]
}

fn u256(e: &FieldElement) -> U256 {
    U256::from_be_slice(&e.to_bytes())
}

#[test]
fn selector_is_keccak_of_signature() {
    let cd = encode_pbh_multicall(&sample_calls(), &sample_payload()).unwrap();
    assert_eq!(&cd[0..4], &[0xc5, 0x2c, 0x89, 0x1e]);
}

#[test]
fn arguments_match_standard_abi_encoding() {
    let calls = sample_calls();
    let p = sample_payload();
    let cd = encode_pbh_multicall(&calls, &p).unwrap();
    let alloy_calls: Vec<(AlloyAddress, Bytes, bool)> = calls
        .iter()
        .map(|c| (AlloyAddress::from_slice(&c.target.to_bytes()), Bytes::from(c.data.clone()), c.allow_failure))
        .collect();
    let proof: Vec<U256> = p.proof.iter().map(u256).collect();
    let proof: [U256; 8] = proof.try_into().unwrap();
    let payload = (
        u256(&p.root),
        u256(&p.nullifier_hash),
        (U256::from(0x01u8), U256::from(0x23u8), U256::from(0x45u8), 0xbeefu16),
        (proof,),
    );
    let expected = (alloy_calls, payload).abi_encode_params();
    assert_eq!(&cd[4..], &expected[..]);
}

#[test]
fn payload_reads_back_from_call_data() {
    let p = sample_payload();
    let cd = encode_pbh_multicall(&sample_calls(), &p).unwrap();
    assert_eq!(&cd[36..68], &p.root.to_bytes()[..]);
    assert_eq!(&cd[68..100], &p.nullifier_hash.to_bytes()[..]);
    let day = (cd[131] as u32) << 16 | (cd[163] as u32) << 8 | cd[195] as u32;
    let nonce = (cd[226] as u16) << 8 | cd[227] as u16;
    assert_eq!(ExternalNullifier::with_period(PeriodMarker { day }, nonce), p.external_nullifier);
    for i in 0..8 {
        assert_eq!(&cd[228 + 32 * i..260 + 32 * i], &p.proof[i].to_bytes()[..]);
    }
}

#[test]
fn empty_batch_layout() {
    let cd = encode_pbh_multicall(&vec![], &sample_payload()).unwrap();
    assert_eq!(cd.len(), 4 + 15 * 32 + 32);
    assert_eq!(cd[4 + 31], 0xe0);
    assert_eq!(cd[4 + 30], 0x01);
    assert!(cd[4 + 15 * 32..].iter().all(|b| *b == 0));
}

#[test]
fn encoding_is_deterministic() {
    let a = encode_pbh_multicall(&sample_calls(), &sample_payload()).unwrap();
    let b = encode_pbh_multicall(&sample_calls(), &sample_payload()).unwrap();
    assert_eq!(a, b);
}

#[test]
fn decoder_reconstructs_payload_fields() {
    let p = sample_payload();
    for calls in [sample_calls(), vec![]] {
        let cd = encode_pbh_multicall(&calls, &p).unwrap();
        let d = decode_pbh_payload(&cd).unwrap();
        assert_eq!(d.root, p.root.to_bytes());
        assert_eq!(d.nullifier_hash, p.nullifier_hash.to_bytes());
        assert_eq!(d.external_nullifier, p.external_nullifier);
        let proof: Vec<Vec<u8>> = p.proof.iter().map(|e| e.to_bytes()).collect();
        assert_eq!(d.proof, proof);
    }
}

#[test]
fn decoder_refuses_short_or_out_of_range() {
    let cd = encode_pbh_multicall(&vec![], &sample_payload()).unwrap();
    assert!(decode_pbh_payload(&cd[..483].to_vec()).is_none());
    let mut bad = cd.clone();
    bad[130] = 1;
    assert!(decode_pbh_payload(&bad).is_none());
    let mut bad_nonce = cd.clone();
    bad_nonce[225] = 1;
    assert!(decode_pbh_payload(&bad_nonce).is_none());
}
