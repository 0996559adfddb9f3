//! A World ID identity: its two secrets, and the nullifiers and payloads it
//! derives.
use vstd::prelude::*;

use crate::error::{ConfigError, PbhError, ProofError};
use crate::field::{be_value, field_modulus, FieldElement};
use crate::hashing::{generate_nullifier_hash, nullifier_hash_of, reduce_to_field};
use crate::nullifier::{lemma_pack_injective, lemma_pack_round_trip, packed_word, unpacked, ExternalNullifier, PERIOD_LIMIT, SECONDS_PER_DAY};
use crate::payload::{
    calls_array_fits, encode_pbh_multicall, multicall_calldata, multicall_selector, payload_words, proof_view,
    MembershipProof, PBHPayload,
};
use crate::signal::{calls_view, Call, CallView};
use base64::Engine;

verus! {

/// What standard base64 (with padding) decodes a text to, if it is valid.
pub uninterp spec fn base64_standard_decode_of(s: Seq<char>) -> Option<Seq<u8>>;

/// Relies on base64's `STANDARD.decode`: the bytes of a valid standard
/// base64 text, an error otherwise; a function of the text alone.
#[verifier::external_body]
fn decode_base64(s: &str) -> (r: Option<Vec<u8>>)
    ensures
        match r {
            Some(v) => base64_standard_decode_of(s@) == Some(v@),
            None => base64_standard_decode_of(s@) is None,
        },
{
    base64::engine::general_purpose::STANDARD.decode(s).ok()
}

/// Relies on chrono's `From<SystemTime> for DateTime<Utc>` and `timestamp`:
/// the current Unix time in whole seconds, negative for a clock set before
/// 1970. Nothing is promised of its value.
#[verifier::external_body]
fn unix_now_seconds() -> (r: i64) {
    chrono::DateTime::<chrono::Utc>::from(std::time::SystemTime::now()).timestamp()
}

/// The nullifier hash of an identity's nullifier secret for an external
/// nullifier.
pub open spec fn identity_nullifier_hash(identity_nullifier: Seq<u8>, x: ExternalNullifier) -> Seq<u8> {
    nullifier_hash_of(identity_nullifier, packed_word(x))
}

/// The nullifier hash is a function of the identity's nullifier secret and
/// the external nullifier: the same inputs give the same hash. Two external
/// nullifiers that differ, in nonce or in period, pack to different words,
/// so their hashes are taken of different inputs.
pub proof fn lemma_nullifier_hash_inputs(n1: Seq<u8>, n2: Seq<u8>, x: ExternalNullifier, y: ExternalNullifier)
    requires
        x.period.wf(),
        y.period.wf(),
    ensures
        n1 == n2 && x == y ==> identity_nullifier_hash(n1, x) == identity_nullifier_hash(n2, y),
        x != y ==> packed_word(x) != packed_word(y),
{
    if packed_word(x) == packed_word(y) {
        lemma_pack_injective(x, y);
    }
}

/// The call data of a PBH batch: the payload that carries `proof` (with its
/// root) for the identity's nullifier hash of `x`, after the calls.
pub open spec fn pbh_calldata(
    identity_nullifier: Seq<u8>,
    x: ExternalNullifier,
    root: Seq<u8>,
    proof: Seq<Seq<u8>>,
    cs: Seq<CallView>,
) -> Seq<u8> {
    multicall_calldata(
        multicall_selector(),
        cs,
        payload_words(root, identity_nullifier_hash(identity_nullifier, x), x, proof),
    )
}

/// Rebuilding is idempotent: with the same identity secret, the same
/// external nullifier (period and nonce), the same proof and the same calls
/// in the same order, the call data is byte for byte the same.
pub proof fn lemma_rebuild_identical(
    n1: Seq<u8>,
    n2: Seq<u8>,
    x: ExternalNullifier,
    y: ExternalNullifier,
    root1: Seq<u8>,
    root2: Seq<u8>,
    proof1: Seq<Seq<u8>>,
    proof2: Seq<Seq<u8>>,
    cs1: Seq<CallView>,
    cs2: Seq<CallView>,
)
    requires
        n1 == n2,
        x == y,
        root1 == root2,
        proof1 == proof2,
        cs1 == cs2,
    ensures
        pbh_calldata(n1, x, root1, proof1, cs1) == pbh_calldata(n2, y, root2, proof2, cs2),
{
}

/// The two secrets of an identity, each reduced into the field. Neither
/// this type nor `WorldID` derives `Debug`; the field elements themselves
/// can still be printed.
#[derive(PartialEq, Eq)]
pub struct Identity {
    pub trapdoor: FieldElement,
    pub nullifier: FieldElement,
}

/// An identity that can prove membership, and what it derives.
#[derive(PartialEq, Eq)]
pub struct WorldID {
    pub identity: Identity,
}

/// The bytes `b[lo..hi]` as a vector.
fn slice_to_vec(b: &Vec<u8>, lo: usize, hi: usize) -> (r: Vec<u8>)
    requires
        lo <= hi <= b@.len(),
    ensures
        r@ == b@.subrange(lo as int, hi as int),
{
    let mut out: Vec<u8> = Vec::new();
    let mut i: usize = lo;
    while i < hi
        invariant
            lo <= i <= hi <= b@.len(),
            out@ == b@.subrange(lo as int, i as int),
        decreases hi - i,
    {
        out.push(b[i]);
        i = i + 1;
        assert(out@ =~= b@.subrange(lo as int, i as int));
    }
    out
}

/// The field element of 32 secret bytes, reduced modulo the field order.
fn reduced(b: &Vec<u8>) -> (r: FieldElement)
    requires
        b@.len() == 32,
    ensures
        r@.len() == 32,
        be_value(r@) == be_value(b@) % field_modulus(),
{
    let v = reduce_to_field(b);
    FieldElement::from_field_bytes(v)
}

impl WorldID {
    /// The identity of a base64 secret of 64 bytes: the first 32 are the
    /// trapdoor, the last 32 the nullifier secret.
    pub fn new(secret: &str) -> (r: Result<WorldID, PbhError>)
        ensures
            match base64_standard_decode_of(secret@) {
                None => r == Err::<WorldID, PbhError>(PbhError::Config(ConfigError::SecretNotBase64)),
                Some(d) => if d.len() != 64 {
                    r == Err::<WorldID, PbhError>(PbhError::Config(ConfigError::SecretWrongLength))
                } else {
                    r is Ok && be_value(r->Ok_0.identity.trapdoor@) == be_value(d.subrange(0, 32))
                        % field_modulus() && be_value(r->Ok_0.identity.nullifier@) == be_value(
                        d.subrange(32, 64),
                    ) % field_modulus()
                },
            },
    {
        let decoded = match decode_base64(secret) {
            Some(d) => d,
            None => {
                return Err(PbhError::Config(ConfigError::SecretNotBase64));
            },
        };
        if decoded.len() != 64 {
            return Err(PbhError::Config(ConfigError::SecretWrongLength));
        }
        let t = slice_to_vec(&decoded, 0, 32);
        let n = slice_to_vec(&decoded, 32, 64);
        let identity = Identity { trapdoor: reduced(&t), nullifier: reduced(&n) };
        Ok(WorldID { identity })
    }

    pub fn identity(&self) -> (r: &Identity)
        ensures
            r == &self.identity,
    {
        &self.identity
    }

    /// The external nullifier, its packed field value and this identity's
    /// nullifier hash for it.
    pub fn ext_nullifier_parts(&self, external_nullifier: ExternalNullifier) -> (r: (
        ExternalNullifier,
        FieldElement,
        FieldElement,
    ))
        requires
            external_nullifier.period.wf(),
        ensures
            r.0 == external_nullifier,
            r.1@ == packed_word(external_nullifier),
            r.2@ == nullifier_hash_of(self.identity.nullifier@, packed_word(external_nullifier)),
    {
        let ext_hash = external_nullifier.encode();
        let t = self.identity.trapdoor.to_bytes();
        let n = self.identity.nullifier.to_bytes();
        let e = ext_hash.to_bytes();
        let h = generate_nullifier_hash(&t, &n, &e);
        (external_nullifier, ext_hash, FieldElement::from_field_bytes(h))
    }

    /// The external nullifier for `pbh_nonce` on the UTC day of the Unix
    /// time `secs`, with its packed value and nullifier hash; an error where
    /// the time is before 1970 or past the last numbered period.
    pub fn pbh_ext_nullifier_at(&self, secs: i64, pbh_nonce: u16) -> (r: Result<
        (ExternalNullifier, FieldElement, FieldElement),
        PbhError,
    >)
        ensures
            match r {
                Ok(t) => secs >= 0 && t.0.period.day == secs as int / SECONDS_PER_DAY as int
                    && t.0.period.wf() && t.0.nonce == pbh_nonce && t.1@ == packed_word(t.0)
                    && unpacked(t.1@) == Some(t.0)
                    && t.2@ == nullifier_hash_of(self.identity.nullifier@, packed_word(t.0)),
                Err(e) => e == PbhError::ClockOutOfRange && (secs < 0 || secs as int / SECONDS_PER_DAY as int
                    >= PERIOD_LIMIT),
            },
    {
        if secs < 0 {
            return Err(PbhError::ClockOutOfRange);
        }
        match ExternalNullifier::at_unix_seconds(secs as u64, pbh_nonce) {
            Some(x) => {
                proof {
                    lemma_pack_round_trip(x);
                }
                Ok(self.ext_nullifier_parts(x))
            },
            None => Err(PbhError::ClockOutOfRange),
        }
    }

    /// The external nullifier for `pbh_nonce` today (UTC), with its packed
    /// value and nullifier hash.
    pub fn pbh_ext_nullifier(&self, pbh_nonce: u16) -> (r: Result<
        (ExternalNullifier, FieldElement, FieldElement),
        PbhError,
    >)
        ensures
            match r {
                Ok(t) => t.0.period.wf() && t.0.nonce == pbh_nonce && t.1@ == packed_word(t.0)
                    && unpacked(t.1@) == Some(t.0)
                    && t.2@ == nullifier_hash_of(self.identity.nullifier@, packed_word(t.0)),
                Err(e) => e == PbhError::ClockOutOfRange,
            },
    {
        let now = unix_now_seconds();
        self.pbh_ext_nullifier_at(now, pbh_nonce)
    }

    /// The payload that carries `proof` for `external_nullifier`.
    pub fn pbh_payload(&self, external_nullifier: ExternalNullifier, proof: MembershipProof) -> (r: PBHPayload)
        requires
            external_nullifier.period.wf(),
            proof.wf(),
        ensures
            r.wf(),
            r.root == proof.root,
            r.nullifier_hash@ == nullifier_hash_of(self.identity.nullifier@, packed_word(external_nullifier)),
            r.external_nullifier == external_nullifier,
            r.proof == proof.proof,
    {
        let (x, _ext_hash, nullifier_hash) = self.ext_nullifier_parts(external_nullifier);
        PBHPayload::new(proof.root, nullifier_hash, x, proof.proof)
    }
}

impl WorldID {
    /// The payload for what the proof backend answered: the proof, carried
    /// for `external_nullifier`, or its failure, passed on as it is.
    pub fn pbh_payload_from_backend(&self, external_nullifier: ExternalNullifier, proved: Result<MembershipProof, ProofError>) -> (r: Result<PBHPayload, PbhError>)
        requires
            external_nullifier.period.wf(),
            proved matches Ok(p) ==> p.wf(),
        ensures
            match proved {
                Err(e) => r == Err::<PBHPayload, PbhError>(PbhError::Proof(e)),
                Ok(p) => r matches Ok(payload) && payload.wf() && payload.root == p.root
                    && payload.nullifier_hash@ == nullifier_hash_of(self.identity.nullifier@, packed_word(external_nullifier))
                    && payload.external_nullifier == external_nullifier && payload.proof == p.proof,
            },
    {
        match proved {
            Err(e) => Err(PbhError::Proof(e)),
            Ok(p) => Ok(self.pbh_payload(external_nullifier, p)),
        }
    }

    /// The call data of `pbhMulticall` for `calls`, carrying `proof` for
    /// `external_nullifier`; an error where the calls cannot be encoded.
    pub fn pbh_multicall_calldata(&self, external_nullifier: ExternalNullifier, proof: MembershipProof, calls: &Vec<Call>) -> (r: Result<Vec<u8>, PbhError>)
        requires
            external_nullifier.period.wf(),
            proof.wf(),
        ensures
            r is Ok <==> calls_array_fits(calls_view(calls@)),
            r is Err ==> r == Err::<Vec<u8>, PbhError>(PbhError::Encoding),
            r matches Ok(cd) ==> cd@ == pbh_calldata(
                self.identity.nullifier@,
                external_nullifier,
                proof.root@,
                proof_view(proof.proof@),
                calls_view(calls@),
            ),
    {
        let payload = self.pbh_payload(external_nullifier, proof);
        encode_pbh_multicall(calls, &payload)
    }
}

} // verus!
