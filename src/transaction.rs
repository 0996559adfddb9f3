//! Transaction requests, the gas-consumer call, and the steps of one
//! transaction attempt.
use vstd::prelude::*;

use crate::bytes::{append_bytes, append_u64_word, u64_word};
use crate::error::{PbhError, ProofError, SubmissionError};
use crate::hashing::{keccak256_text, keccak256_text_of};
use crate::payload::{calls_array_fits, encode_pbh_multicall, multicall_calldata, multicall_selector, payload_words, proof_view, PBHPayload};
use crate::signal::{calls_view, Address, Call};

verus! {

/// The chain that the transactions are for.
pub const CHAIN_ID: u64 = 4801;

/// The gas limit of every transaction.
pub const GAS_LIMIT: u64 = 130000;

/// The fee per gas, and the priority fee, where none is given: 0.1 gwei.
pub const DEFAULT_FEE_PER_GAS: u128 = 100000000;

/// The Solidity signature of the gas consumer's entry.
pub const CONSUME_GAS_SIGNATURE: &'static str = "consumeGas(address,uint256)";

/// A transaction request being filled in: fees, nonce, recipient, input.
#[derive(Debug, PartialEq, Eq)]
pub struct GasTestTransactionBuilder {
    pub chain_id: u64,
    pub gas_limit: u64,
    pub max_fee_per_gas: u128,
    pub max_priority_fee_per_gas: u128,
    pub nonce: Option<u64>,
    pub to: Option<Address>,
    pub input: Vec<u8>,
}

impl GasTestTransactionBuilder {
    /// A request with the given fees in wei, 0.1 gwei for each that is
    /// absent, no nonce, no recipient and no input.
    pub fn new(gas_fee: Option<u128>, priority_gas_fee: Option<u128>) -> (r: Self)
        ensures
            r.chain_id == CHAIN_ID,
            r.gas_limit == GAS_LIMIT,
            r.max_fee_per_gas == (match gas_fee {
                Some(f) => f,
                None => DEFAULT_FEE_PER_GAS,
            }),
            r.max_priority_fee_per_gas == (match priority_gas_fee {
                Some(f) => f,
                None => DEFAULT_FEE_PER_GAS,
            }),
            r.nonce is None,
            r.to is None,
            r.input@.len() == 0,
    {
        let max_fee_per_gas = match gas_fee {
            Some(f) => f,
            None => DEFAULT_FEE_PER_GAS,
        };
        let max_priority_fee_per_gas = match priority_gas_fee {
            Some(f) => f,
            None => DEFAULT_FEE_PER_GAS,
        };
        GasTestTransactionBuilder {
            chain_id: CHAIN_ID,
            gas_limit: GAS_LIMIT,
            max_fee_per_gas,
            max_priority_fee_per_gas,
            nonce: None,
            to: None,
            input: Vec::new(),
        }
    }

    /// The request sent to the entry point with the call data of
    /// `pbhMulticall(calls, payload)`; an error where that call data cannot
    /// be encoded.
    pub fn with_pbh_multicall(self, entry_point: Address, calls: &Vec<Call>, payload: &PBHPayload) -> (r: Result<Self, PbhError>)
        requires
            payload.wf(),
        ensures
            r is Ok <==> calls_array_fits(calls_view(calls@)),
            r is Err ==> r == Err::<Self, PbhError>(PbhError::Encoding),
            r matches Ok(b) ==> b.to == Some(entry_point) && b.input@ == multicall_calldata(
                multicall_selector(),
                calls_view(calls@),
                payload_words(
                    payload.root@,
                    payload.nullifier_hash@,
                    payload.external_nullifier,
                    proof_view(payload.proof@),
                ),
            ) && b.chain_id == self.chain_id && b.gas_limit == self.gas_limit && b.max_fee_per_gas
                == self.max_fee_per_gas && b.max_priority_fee_per_gas == self.max_priority_fee_per_gas
                && b.nonce == self.nonce,
    {
        let input = match encode_pbh_multicall(calls, payload) {
            Ok(cd) => cd,
            Err(e) => {
                return Err(e);
            },
        };
        Ok(GasTestTransactionBuilder { to: Some(entry_point), input, ..self })
    }

    /// Sets the recipient.
    pub fn to(self, to: Address) -> (r: Self)
        ensures
            r == (GasTestTransactionBuilder { to: Some(to), ..self }),
    {
        GasTestTransactionBuilder { to: Some(to), ..self }
    }

    /// Sets the input data.
    pub fn input(self, input: Vec<u8>) -> (r: Self)
        ensures
            r == (GasTestTransactionBuilder { input, ..self }),
    {
        GasTestTransactionBuilder { input, ..self }
    }

    /// Sets the account nonce.
    pub fn nonce(self, nonce: u64) -> (r: Self)
        ensures
            r == (GasTestTransactionBuilder { nonce: Some(nonce), ..self }),
    {
        GasTestTransactionBuilder { nonce: Some(nonce), ..self }
    }
}

/// The call data of `consumeGas(address, iterations)`: the selector, the
/// address as a word, the iteration count as a word.
pub open spec fn consume_gas_input(address: Seq<u8>, iterations: u64) -> Seq<u8> {
    keccak256_text_of(CONSUME_GAS_SIGNATURE@).subrange(0, 4) + Seq::new(12, |i: int| 0u8) + address
        + u64_word(iterations)
}

/// The call data that makes the gas consumer at `address` loop
/// `iterations` times.
pub fn consume_gas_calldata(address: &Address, iterations: u64) -> (r: Vec<u8>)
    ensures
        r@ == consume_gas_input(address@, iterations),
{
    let digest = keccak256_text(CONSUME_GAS_SIGNATURE);
    let mut out: Vec<u8> = Vec::new();
    out.push(digest[0]);
    out.push(digest[1]);
    out.push(digest[2]);
    out.push(digest[3]);
    let mut i: usize = 0;
    while i < 12
        invariant
            0 <= i <= 12,
            out@ == digest@.subrange(0, 4) + Seq::new(i as nat, |j: int| 0u8),
        decreases 12 - i,
    {
        out.push(0u8);
        i = i + 1;
        assert(out@ =~= digest@.subrange(0, 4) + Seq::new(i as nat, |j: int| 0u8));
    }
    let a = address.to_bytes();
    append_bytes(&mut out, &a);
    append_u64_word(&mut out, iterations);
    assert(out@ =~= consume_gas_input(address@, iterations));
    out
}

/// A batch of one call, which may not fail, to the gas consumer at
/// `contract_address`.
pub fn consume_gas_multicall(contract_address: &Address, iterations: u64) -> (r: Vec<Call>)
    ensures
        calls_view(r@) == seq![(contract_address@, consume_gas_input(contract_address@, iterations), false)],
{
    let data = consume_gas_calldata(contract_address, iterations);
    let call = Call::new(contract_address.clone(), data, false);
    let mut v: Vec<Call> = Vec::new();
    v.push(call);
    assert(calls_view(v@) =~= seq![(contract_address@, consume_gas_input(contract_address@, iterations), false)]);
    v
}

/// Where one transaction attempt stands.
#[derive(Clone, Copy, Debug, PartialEq, Eq, Structural)]
pub enum AttemptStage {
    Init,
    NonceAllocated,
    SignalBound,
    Proved,
    PayloadBuilt,
    Encoded,
    Submitted,
    Failed(PbhError),
}

/// What the current step of an attempt came to.
#[derive(Clone, Copy, Debug, PartialEq, Eq, Structural)]
pub enum AttemptEvent {
    StepDone,
    StepFailed(PbhError),
}

/// The stage after `stage` when its step ends with `event`: a step that is
/// done leads to the next stage, a failure ends the attempt, and a
/// submitted or failed attempt stays as it is.
pub open spec fn next_stage(stage: AttemptStage, event: AttemptEvent) -> AttemptStage {
    match stage {
        AttemptStage::Submitted => stage,
        AttemptStage::Failed(_) => stage,
        _ => match event {
            AttemptEvent::StepFailed(e) => AttemptStage::Failed(e),
            AttemptEvent::StepDone => match stage {
                AttemptStage::Init => AttemptStage::NonceAllocated,
                AttemptStage::NonceAllocated => AttemptStage::SignalBound,
                AttemptStage::SignalBound => AttemptStage::Proved,
                AttemptStage::Proved => AttemptStage::PayloadBuilt,
                AttemptStage::PayloadBuilt => AttemptStage::Encoded,
                _ => AttemptStage::Submitted,
            },
        },
    }
}

/// Moves an attempt on by one step.
pub fn advance(stage: AttemptStage, event: AttemptEvent) -> (r: AttemptStage)
    ensures
        r == next_stage(stage, event),
{
    match stage {
        AttemptStage::Submitted => stage,
        AttemptStage::Failed(_) => stage,
        _ => match event {
            AttemptEvent::StepFailed(e) => AttemptStage::Failed(e),
            AttemptEvent::StepDone => match stage {
                AttemptStage::Init => AttemptStage::NonceAllocated,
                AttemptStage::NonceAllocated => AttemptStage::SignalBound,
                AttemptStage::SignalBound => AttemptStage::Proved,
                AttemptStage::Proved => AttemptStage::PayloadBuilt,
                AttemptStage::PayloadBuilt => AttemptStage::Encoded,
                _ => AttemptStage::Submitted,
            },
        },
    }
}

/// What a caller does after a failed attempt.
#[derive(Clone, Copy, Debug, PartialEq, Eq, Structural)]
pub enum RetryDecision {
    /// Give up and surface the error.
    Abort,
    /// Refresh the membership witness, then try once more.
    RefreshWitnessAndRetry,
    /// Allocate another nonce slot, then try once more.
    ReallocateNonceAndRetry,
}

/// The decision after `error` when `retried` says whether this attempt was
/// already the one retry: a stale root and a spent nullifier each earn one
/// retry, every other failure is final.
pub fn retry_decision(error: PbhError, retried: bool) -> (r: RetryDecision)
    ensures
        r == (if retried {
            RetryDecision::Abort
        } else {
            match error {
                PbhError::Proof(ProofError::StaleRoot) => RetryDecision::RefreshWitnessAndRetry,
                PbhError::Submission(SubmissionError::NullifierAlreadyUsed) => RetryDecision::ReallocateNonceAndRetry,
                _ => RetryDecision::Abort,
            }
        }),
{
    if retried {
        return RetryDecision::Abort;
    }
    match error {
        PbhError::Proof(ProofError::StaleRoot) => RetryDecision::RefreshWitnessAndRetry,
        PbhError::Submission(SubmissionError::NullifierAlreadyUsed) => RetryDecision::ReallocateNonceAndRetry,
        _ => RetryDecision::Abort,
    }
}

} // verus!
