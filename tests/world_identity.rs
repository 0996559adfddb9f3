use pbh_builder::error::{ConfigError, PbhError, ProofError};
use pbh_builder::field::FieldElement;
use pbh_builder::nonce::{AllocatorStep, NonceAllocator, SlotReport};
use pbh_builder::nullifier::{ExternalNullifier, PeriodMarker, SECONDS_PER_DAY};
use pbh_builder::payload::MembershipProof;
use pbh_builder::signal::{bind_signal, Address, Call};
use pbh_builder::world_id::WorldID;

const ZERO_SECRET: &str =
    "AAAAAAAAAAAAAAAAAAAAAAAAAAAAAAAAAAAAAAAAAAAAAAAAAAAAAAAAAAAAAAAAAAAAAAAAAAAAAAAAAAAAAA==";

fn hex(b: &[u8]) -> String {
    b.iter().map(|x| format!("{:02x}", x)).collect()
}

fn unhex(s: &str) -> Vec<u8> {
    (0..s.len()).step_by(2).map(|i| u8::from_str_radix(&s[i..i + 2], 16).unwrap()).collect()
}

fn today() -> u32 {
    let secs = std::time::SystemTime::now().duration_since(std::time::UNIX_EPOCH).unwrap().as_secs();
    (secs / SECONDS_PER_DAY) as u32
}

fn sample_proof() -> MembershipProof {
    let root = FieldElement::from_field_bytes(unhex("00000000000000000000000000000000000000000000000000000000000000aa"));
    let proof = (0..8u8)
        .map(|i| {
            let mut b = vec![0u8; 32];
            b[31] = i;
            FieldElement::from_field_bytes(b)
        })
        .collect();
    MembershipProof { root, proof }
}

#[test]
fn zero_secret_gives_zero_identity() {
    let w = WorldID::new(ZERO_SECRET).unwrap();
    assert_eq!(w.identity().trapdoor.to_bytes(), vec![0u8; 32]);
    assert_eq!(w.identity().nullifier.to_bytes(), vec![0u8; 32]);
}

#[test]
fn secret_halves_are_trapdoor_then_nullifier() {
    let w = WorldID::new("AAECAwQFBgcICQoLDA0ODxAREhMUFRYXGBkaGxwdHh8gISIjJCUmJygpKissLS4vMDEyMzQ1Njc4OTo7PD0+Pw==")
        .unwrap();
    assert_eq!(w.identity.trapdoor.to_bytes(), (0..32u8).collect::<Vec<u8>>());
    assert_eq!(w.identity.nullifier.to_bytes(), (32..64u8).collect::<Vec<u8>>());
}

#[test]
fn secrets_are_reduced_into_the_field() {
    let w = WorldID::new("/////////////////////////////////////////////////////////////////////////////////////w==")
        .unwrap();
    let expected = "0e0a77c19a07df2f666ea36f7879462e36fc76959f60cd29ac96341c4ffffffa";
    assert_eq!(hex(&w.identity.trapdoor.to_bytes()), expected);
    assert_eq!(hex(&w.identity.nullifier.to_bytes()), expected);
}

#[test]
fn malformed_secrets_are_refused() {
    assert_eq!(WorldID::new("AAAAAAAAAAAAAA==").err(), Some(PbhError::Config(ConfigError::SecretWrongLength)));
    assert_eq!(WorldID::new("not base64 !").err(), Some(PbhError::Config(ConfigError::SecretNotBase64)));
    assert_eq!(WorldID::new("").err(), Some(PbhError::Config(ConfigError::SecretWrongLength)));
}

#[test]
fn nullifier_hash_matches_semaphore() {
    let w = WorldID::new("AAECAwQFBgcICQoLDA0ODxAREhMUFRYXGBkaGxwdHh8gISIjJCUmJygpKissLS4vMDEyMzQ1Njc4OTo7PD0+Pw==")
        .unwrap();
    let x = ExternalNullifier::with_period(PeriodMarker { day: 20000 }, 7);
    let (x2, ext_hash, nh) = w.ext_nullifier_parts(x);
    assert_eq!(x2, x);
    assert_eq!(ext_hash.to_bytes(), x.encode().to_bytes());
    let id = semaphore_rs::identity::Identity {
        trapdoor: semaphore_rs::Field::from_be_slice(&w.identity.trapdoor.to_bytes()),
        nullifier: semaphore_rs::Field::from_be_slice(&w.identity.nullifier.to_bytes()),
    };
    let ext = semaphore_rs::Field::from_be_slice(&ext_hash.to_bytes());
    let direct = semaphore_rs::protocol::generate_nullifier_hash(&id, ext);
    assert_eq!(nh.to_bytes(), direct.to_be_bytes::<32>().to_vec());
    assert_ne!(nh.to_bytes(), ext_hash.to_bytes());
}

#[test]
fn nullifier_hash_is_pure_and_nonce_sensitive() {
    let w = WorldID::new(ZERO_SECRET).unwrap();
    let a = ExternalNullifier::with_period(PeriodMarker { day: 20000 }, 0);
    let b = ExternalNullifier::with_period(PeriodMarker { day: 20000 }, 1);
    assert_eq!(w.ext_nullifier_parts(a).2, w.ext_nullifier_parts(a).2);
    assert_ne!(w.ext_nullifier_parts(a).2, w.ext_nullifier_parts(b).2);
}

#[test]
fn ext_nullifier_at_a_given_time() {
    let w = WorldID::new(ZERO_SECRET).unwrap();
    let (x, _, _) = w.pbh_ext_nullifier_at(20000 * 86400 + 3600, 4).unwrap();
    assert_eq!(x, ExternalNullifier::with_period(PeriodMarker { day: 20000 }, 4));
    assert_eq!(w.pbh_ext_nullifier_at(-1, 4).unwrap_err(), PbhError::ClockOutOfRange);
    assert_eq!(w.pbh_ext_nullifier_at(i64::MAX, 4).unwrap_err(), PbhError::ClockOutOfRange);
}

#[test]
fn end_to_end_today() {
    let w = WorldID::new(ZERO_SECRET).unwrap();
    let mut alloc = NonceAllocator::new(65535);
    assert_eq!(alloc.report(SlotReport::Unused), AllocatorStep::Allocated(0));
    let before = today();
    let (x, ext_hash, nh) = w.pbh_ext_nullifier(0).unwrap();
    let after = today();
    assert!(x.period.day == before || x.period.day == after);
    assert_eq!(x.nonce, 0);
    let (x_again, ext_hash_again, nh_again) = w.pbh_ext_nullifier(0).unwrap();
    if x_again == x {
        assert_eq!(ext_hash_again, ext_hash);
        assert_eq!(nh_again, nh);
    }
    let mut expected = vec![0u8; 27];
    expected.extend_from_slice(&[(x.period.day >> 16) as u8, (x.period.day >> 8) as u8, x.period.day as u8, 0, 0]);
    assert_eq!(ext_hash.to_bytes(), expected);
    let target: Vec<u8> = [0xde, 0xad].iter().cycle().take(20).cloned().collect();
    let sender: Vec<u8> = [0xbe, 0xef].iter().cycle().take(20).cloned().collect();
    let calls = vec![Call::new(Address::from_bytes(target).unwrap(), vec![0x12, 0x34], false)];
    let from = Address::from_bytes(sender).unwrap();
    let s1 = bind_signal(&from, &calls);
    let s2 = bind_signal(&from, &calls);
    assert_eq!(s1, s2);
}

#[test]
fn rebuild_gives_identical_call_data() {
    let w = WorldID::new(ZERO_SECRET).unwrap();
    let x = ExternalNullifier::with_period(PeriodMarker { day: today() }, 0);
    let calls = vec![Call::new(Address::from_bytes(vec![0xde; 20]).unwrap(), vec![0x12, 0x34], false)];
    let a = w.pbh_multicall_calldata(x, sample_proof(), &calls).unwrap();
    let b = w.pbh_multicall_calldata(x, sample_proof(), &calls).unwrap();
    assert_eq!(a, b);
    let other = w.pbh_multicall_calldata(ExternalNullifier::with_period(x.period, 1), sample_proof(), &calls).unwrap();
    assert_ne!(a, other);
}

#[test]
fn payload_carries_proof_and_nullifier_hash() {
    let w = WorldID::new(ZERO_SECRET).unwrap();
    let x = ExternalNullifier::with_period(PeriodMarker { day: 20000 }, 2);
    let p = w.pbh_payload(x, sample_proof());
    assert_eq!(p.root, sample_proof().root);
    assert_eq!(p.proof, sample_proof().proof);
    assert_eq!(p.external_nullifier, x);
    assert_eq!(p.nullifier_hash, w.ext_nullifier_parts(x).2);
}

#[test]
fn backend_failures_pass_through() {
    let w = WorldID::new(ZERO_SECRET).unwrap();
    let x = ExternalNullifier::with_period(PeriodMarker { day: 20000 }, 2);
    for e in [ProofError::NotEnrolled, ProofError::GenerationFailed, ProofError::StaleRoot] {
        assert_eq!(w.pbh_payload_from_backend(x, Err(e)).err(), Some(PbhError::Proof(e)));
    }
    let p = w.pbh_payload_from_backend(x, Ok(sample_proof())).unwrap();
    assert_eq!(p, w.pbh_payload(x, sample_proof()));
}
