//! The PBH payload and the call data of `pbhMulticall`, in the tuple layout
//! that the entry-point contract declares.
use vstd::prelude::*;

use crate::bytes::{
    append_bytes, append_u64_word, lemma_u64_be_round_trip, lemma_u64_word, read_u64_be, u64_be, u64_from_be, u64_word,
};
use crate::error::PbhError;
use crate::field::FieldElement;
use crate::hashing::{keccak256_text, keccak256_text_of};
use crate::nullifier::{ExternalNullifier, PeriodMarker};
use crate::signal::{calls_view, Call, CallView};

verus! {

/// The Solidity signature of the entry point's batch call.
pub const PBH_MULTICALL_SIGNATURE: &'static str =
    "pbhMulticall((address,bytes,bool)[],(uint256,uint256,(uint8,uint8,uint8,uint16),(uint256[8],)))";

/// A membership proof: the Merkle root it was made against and the eight
/// field elements of the proof itself.
#[derive(Debug, PartialEq, Eq)]
pub struct MembershipProof {
    pub root: FieldElement,
    pub proof: Vec<FieldElement>,
}

impl MembershipProof {
    pub open spec fn wf(&self) -> bool {
        self.proof@.len() == 8
    }
}

/// What the entry point checks before it runs the calls.
#[derive(Debug, PartialEq, Eq)]
pub struct PBHPayload {
    pub root: FieldElement,
    pub nullifier_hash: FieldElement,
    pub external_nullifier: ExternalNullifier,
    pub proof: Vec<FieldElement>,
}

impl PBHPayload {
    pub open spec fn wf(&self) -> bool {
        self.proof@.len() == 8 && self.external_nullifier.period.wf()
    }

    /// The payload of a proof for `external_nullifier`.
    pub fn new(
        root: FieldElement,
        nullifier_hash: FieldElement,
        external_nullifier: ExternalNullifier,
        proof: Vec<FieldElement>,
    ) -> (r: PBHPayload)
        ensures
            r.root == root,
            r.nullifier_hash == nullifier_hash,
            r.external_nullifier == external_nullifier,
            r.proof == proof,
    {
        PBHPayload { root, nullifier_hash, external_nullifier, proof }
    }
}

/// The field elements of a proof, in order.
pub open spec fn proof_view(proof: Seq<FieldElement>) -> Seq<Seq<u8>> {
    proof.map_values(|e: FieldElement| e@)
}

/// The words of a sequence of field elements, concatenated.
pub open spec fn words(ws: Seq<Seq<u8>>) -> Seq<u8>
    decreases ws.len(),
{
    if ws.len() == 0 {
        Seq::empty()
    } else {
        words(ws.drop_last()) + ws.last()
    }
}

/// The external nullifier as the contract's tuple: the three bytes of the
/// period, most significant first, then the nonce, one word each.
pub open spec fn external_nullifier_words(x: ExternalNullifier) -> Seq<u8> {
    u64_word((x.period.day / 65536) as u64) + u64_word(((x.period.day / 256) % 256) as u64)
        + u64_word((x.period.day % 256) as u64) + u64_word(x.nonce as u64)
}

/// The payload tuple: root, nullifier hash, external nullifier, proof; all
/// of it static, fourteen words.
pub open spec fn payload_words(root: Seq<u8>, nullifier_hash: Seq<u8>, x: ExternalNullifier, proof: Seq<Seq<u8>>) -> Seq<u8> {
    root + nullifier_hash + external_nullifier_words(x) + words(proof)
}

/// `n` rounded up to a whole number of words.
pub open spec fn padded_len(n: nat) -> nat {
    ((n + 31) / 32) * 32
}

/// An address as a word: twelve zero bytes, then its twenty.
pub open spec fn address_word(a: Seq<u8>) -> Seq<u8> {
    Seq::new(12, |i: int| 0u8) + a
}

/// One call as a dynamic tuple: target, offset of the input (three words
/// on), the flag, then the input's length and its bytes padded to a word.
pub open spec fn call_tuple(c: CallView) -> Seq<u8> {
    address_word(c.0) + u64_word(96) + u64_word(if c.2 { 1 } else { 0 }) + u64_word(c.1.len() as u64)
        + c.1 + Seq::new((padded_len(c.1.len()) - c.1.len()) as nat, |i: int| 0u8)
}

/// The size of one call's tuple.
pub open spec fn call_tuple_len(c: CallView) -> nat {
    128 + padded_len(c.1.len())
}

/// The sizes of the tuples of `cs`, added up.
pub open spec fn tuples_len(cs: Seq<CallView>) -> nat
    decreases cs.len(),
{
    if cs.len() == 0 {
        0
    } else {
        tuples_len(cs.drop_last()) + call_tuple_len(cs.last())
    }
}

/// The offset words of the tuples of `cs`, each counted from the first
/// offset word, when `base` bytes of offsets precede the first tuple.
pub open spec fn offset_words(cs: Seq<CallView>, base: nat) -> Seq<u8>
    decreases cs.len(),
{
    if cs.len() == 0 {
        Seq::empty()
    } else {
        offset_words(cs.drop_last(), base) + u64_word((base + tuples_len(cs.drop_last())) as u64)
    }
}

/// The tuples of `cs`, in order.
pub open spec fn tuples(cs: Seq<CallView>) -> Seq<u8>
    decreases cs.len(),
{
    if cs.len() == 0 {
        Seq::empty()
    } else {
        tuples(cs.drop_last()) + call_tuple(cs.last())
    }
}

/// The calls array: its length, the offsets of its elements, the elements.
pub open spec fn calls_array(cs: Seq<CallView>) -> Seq<u8> {
    u64_word(cs.len() as u64) + offset_words(cs, 32 * cs.len()) + tuples(cs)
}

/// Whether every offset and length of the calls array fits a 64-bit word.
pub open spec fn calls_array_fits(cs: Seq<CallView>) -> bool {
    32 * cs.len() + tuples_len(cs) <= u64::MAX
}

/// The arguments of `pbhMulticall`: the offset of the calls array (after
/// the fifteen head words), the payload in place, then the calls array.
pub open spec fn multicall_arguments(cs: Seq<CallView>, payload: Seq<u8>) -> Seq<u8> {
    u64_word(480) + payload + calls_array(cs)
}

/// The selector of `pbhMulticall`: the first four bytes of the Keccak-256
/// of its signature.
pub open spec fn multicall_selector() -> Seq<u8> {
    keccak256_text_of(PBH_MULTICALL_SIGNATURE@).subrange(0, 4)
}

/// Call data: a four-byte selector, then the arguments.
pub open spec fn multicall_calldata(selector: Seq<u8>, cs: Seq<CallView>, payload: Seq<u8>) -> Seq<u8> {
    selector + multicall_arguments(cs, payload)
}

/// What the entry point reads of the payload out of the call data: root,
/// nullifier hash, external nullifier and proof; `None` where the call data
/// is too short or a period byte or the nonce is out of its range.
pub open spec fn decode_payload(cd: Seq<u8>) -> Option<(Seq<u8>, Seq<u8>, ExternalNullifier, Seq<Seq<u8>>)> {
    if cd.len() < 484 {
        None
    } else {
        let d2 = u64_from_be(cd.subrange(124, 132));
        let d1 = u64_from_be(cd.subrange(156, 164));
        let d0 = u64_from_be(cd.subrange(188, 196));
        let nonce = u64_from_be(cd.subrange(220, 228));
        if d2 >= 256 || d1 >= 256 || d0 >= 256 || nonce >= 65536 {
            None
        } else {
            Some(
                (
                    cd.subrange(36, 68),
                    cd.subrange(68, 100),
                    ExternalNullifier {
                        period: PeriodMarker { day: (d2 * 65536 + d1 * 256 + d0) as u32 },
                        nonce: nonce as u16,
                    },
                    Seq::new(8, |i: int| cd.subrange(228 + 32 * i, 260 + 32 * i)),
                ),
            )
        }
    }
}

/// The payload fields read out of call data: root and nullifier hash as
/// they stand, the external nullifier, the eight proof words.
#[derive(Debug, PartialEq, Eq)]
pub struct DecodedPayload {
    pub root: Vec<u8>,
    pub nullifier_hash: Vec<u8>,
    pub external_nullifier: ExternalNullifier,
    pub proof: Vec<Vec<u8>>,
}

/// The bytes `b[lo..hi]` as a vector.
fn copy_range(b: &Vec<u8>, lo: usize, hi: usize) -> (r: Vec<u8>)
    requires
        lo <= hi <= b@.len(),
    ensures
        r@ == b@.subrange(lo as int, hi as int),
{
    let mut out: Vec<u8> = Vec::new();
    let mut i: usize = lo;
    while i < hi
        invariant
            lo <= i <= hi <= b@.len(),
            out@ == b@.subrange(lo as int, i as int),
        decreases hi - i,
    {
        out.push(b[i]);
        i = i + 1;
        assert(out@ =~= b@.subrange(lo as int, i as int));
    }
    out
}

/// Reads the payload back out of `pbhMulticall` call data, as the entry
/// point does.
pub fn decode_pbh_payload(cd: &Vec<u8>) -> (r: Option<DecodedPayload>)
    ensures
        match decode_payload(cd@) {
            None => r is None,
            Some(t) => r matches Some(p) && p.root@ == t.0 && p.nullifier_hash@ == t.1
                && p.external_nullifier == t.2 && p.proof@.map_values(|w: Vec<u8>| w@) == t.3,
        },
{
    if cd.len() < 484 {
        return None;
    }
    let d2 = read_u64_be(cd, 124);
    let d1 = read_u64_be(cd, 156);
    let d0 = read_u64_be(cd, 188);
    let nonce = read_u64_be(cd, 220);
    if d2 >= 256 || d1 >= 256 || d0 >= 256 || nonce >= 65536 {
        return None;
    }
    let day = (d2 * 65536 + d1 * 256 + d0) as u32;
    let mut proof: Vec<Vec<u8>> = Vec::new();
    let mut i: usize = 0;
    while i < 8
        invariant
            cd@.len() >= 484,
            0 <= i <= 8,
            proof@.len() == i,
            forall|k: int| 0 <= k < i ==> proof@[k]@ == cd@.subrange(228 + 32 * k, 260 + 32 * k),
        decreases 8 - i,
    {
        proof.push(copy_range(cd, 228 + 32 * i, 260 + 32 * i));
        i = i + 1;
    }
    let r = DecodedPayload {
        root: copy_range(cd, 36, 68),
        nullifier_hash: copy_range(cd, 68, 100),
        external_nullifier: ExternalNullifier { period: PeriodMarker { day }, nonce: nonce as u16 },
        proof,
    };
    assert(r.proof@.map_values(|w: Vec<u8>| w@) =~= decode_payload(cd@).unwrap().3);
    Some(r)
}

proof fn lemma_words_len(ws: Seq<Seq<u8>>)
    requires
        forall|i: int| 0 <= i < ws.len() ==> ws[i].len() == 32,
    ensures
        words(ws).len() == 32 * ws.len(),
        forall|i: int| 0 <= i < ws.len() ==> words(ws).subrange(32 * i, 32 * i + 32) == ws[i],
    decreases ws.len(),
{
    if ws.len() > 0 {
        let p = ws.drop_last();
        lemma_words_len(p);
        let w = words(ws);
        assert forall|i: int| 0 <= i < ws.len() implies w.subrange(32 * i, 32 * i + 32) == ws[i] by {
            if i < p.len() {
                assert(w.subrange(32 * i, 32 * i + 32) =~= words(p).subrange(32 * i, 32 * i + 32));
                assert(p[i] == ws[i]);
            } else {
                assert(w.subrange(32 * i, 32 * i + 32) =~= ws.last());
            }
        }
    }
}

proof fn lemma_day_from_bytes(d: u32)
    requires
        d < 0x1000000,
    ensures
        ((d / 65536) as u64) * 65536 + (((d / 256) % 256) as u64) * 256 + ((d % 256) as u64) == d,
{
    assert(((d / 65536) as u64) * 65536 + (((d / 256) % 256) as u64) * 256 + ((d % 256) as u64) == d)
        by (bit_vector)
        requires
            d < 0x1000000,
    ;
}

/// Reading the payload back out of the call data gives the root, the
/// nullifier hash, the external nullifier and the proof that went in, for
/// every batch of calls.
pub proof fn lemma_payload_round_trip(
    selector: Seq<u8>,
    cs: Seq<CallView>,
    root: Seq<u8>,
    nullifier_hash: Seq<u8>,
    x: ExternalNullifier,
    proof: Seq<Seq<u8>>,
)
    requires
        selector.len() == 4,
        root.len() == 32,
        nullifier_hash.len() == 32,
        x.period.wf(),
        proof.len() == 8,
        forall|i: int| 0 <= i < 8 ==> proof[i].len() == 32,
    ensures
        decode_payload(multicall_calldata(selector, cs, payload_words(root, nullifier_hash, x, proof))) == Some(
            (root, nullifier_hash, x, proof),
        ),
{
    let pw = payload_words(root, nullifier_hash, x, proof);
    let cd = multicall_calldata(selector, cs, pw);
    lemma_words_len(proof);
    let d = x.period.day;
    let d2 = (d / 65536) as u64;
    let d1 = ((d / 256) % 256) as u64;
    let d0 = (d % 256) as u64;
    let n = x.nonce as u64;
    lemma_u64_word(480);
    lemma_u64_word(d2);
    lemma_u64_word(d1);
    lemma_u64_word(d0);
    lemma_u64_word(n);
    let p1 = selector + u64_word(480);
    let p2 = p1 + root;
    let p3 = p2 + nullifier_hash;
    let p4 = p3 + u64_word(d2);
    let p5 = p4 + u64_word(d1);
    let p6 = p5 + u64_word(d0);
    let p7 = p6 + u64_word(n);
    let p8 = p7 + words(proof);
    assert(pw =~= root + nullifier_hash + u64_word(d2) + u64_word(d1) + u64_word(d0) + u64_word(n)
        + words(proof));
    assert(cd =~= p8 + calls_array(cs));
    assert(cd.subrange(0, 484) =~= p8);
    assert(p8.subrange(0, 228) =~= p7);
    assert(p7.subrange(0, 196) =~= p6);
    assert(p6.subrange(0, 164) =~= p5);
    assert(p5.subrange(0, 132) =~= p4);
    assert(p4.subrange(0, 100) =~= p3);
    assert(p3.subrange(0, 68) =~= p2);
    assert(cd.subrange(36, 68) =~= p2.subrange(36, 68));
    assert(p2.subrange(36, 68) =~= root);
    assert(cd.subrange(68, 100) =~= p3.subrange(68, 100));
    assert(p3.subrange(68, 100) =~= nullifier_hash);
    assert(cd.subrange(124, 132) =~= p4.subrange(124, 132));
    assert(p4.subrange(124, 132) =~= u64_be(d2));
    assert(cd.subrange(156, 164) =~= p5.subrange(156, 164));
    assert(p5.subrange(156, 164) =~= u64_be(d1));
    assert(cd.subrange(188, 196) =~= p6.subrange(188, 196));
    assert(p6.subrange(188, 196) =~= u64_be(d0));
    assert(cd.subrange(220, 228) =~= p7.subrange(220, 228));
    assert(p7.subrange(220, 228) =~= u64_be(n));
    lemma_u64_be_round_trip(d2);
    lemma_u64_be_round_trip(d1);
    lemma_u64_be_round_trip(d0);
    lemma_u64_be_round_trip(n);
    lemma_day_from_bytes(d);
    let ps = Seq::new(8, |i: int| cd.subrange(228 + 32 * i, 260 + 32 * i));
    assert forall|i: int| 0 <= i < 8 implies ps[i] == proof[i] by {
        assert(cd.subrange(228 + 32 * i, 260 + 32 * i) =~= p8.subrange(228 + 32 * i, 260 + 32 * i));
        assert(p8.subrange(228 + 32 * i, 260 + 32 * i) =~= words(proof).subrange(32 * i, 32 * i + 32));
    }
    assert(ps =~= proof);
}

/// Appends `count` zero bytes.
fn append_zeros(out: &mut Vec<u8>, count: u64)
    ensures
        final(out)@ == old(out)@ + Seq::new(count as nat, |i: int| 0u8),
{
    let ghost start = out@;
    let mut i: u64 = 0;
    while i < count
        invariant
            i <= count,
            out@ == start + Seq::new(i as nat, |j: int| 0u8),
        decreases count - i,
    {
        out.push(0u8);
        i = i + 1;
        assert(out@ =~= start + Seq::new(i as nat, |j: int| 0u8));
    }
}

/// Appends the words of a sequence of field elements.
fn append_field_words(out: &mut Vec<u8>, es: &Vec<FieldElement>)
    ensures
        final(out)@ == old(out)@ + words(proof_view(es@)),
{
    let ghost start = out@;
    let ghost ws = proof_view(es@);
    let mut i: usize = 0;
    while i < es.len()
        invariant
            0 <= i <= es@.len(),
            ws == proof_view(es@),
            out@ == start + words(ws.subrange(0, i as int)),
        decreases es@.len() - i,
    {
        let b = es[i].to_bytes();
        append_bytes(out, &b);
        proof {
            assert(ws.subrange(0, i + 1).drop_last() =~= ws.subrange(0, i as int));
        }
        i = i + 1;
        assert(out@ =~= start + words(ws.subrange(0, i as int)));
    }
    assert(ws.subrange(0, es@.len() as int) =~= ws);
}

impl PBHPayload {
    /// The fourteen words of the payload tuple.
    pub fn encode_words(&self) -> (r: Vec<u8>)
        requires
            self.wf(),
        ensures
            r@ == payload_words(
                self.root@,
                self.nullifier_hash@,
                self.external_nullifier,
                proof_view(self.proof@),
            ),
    {
        let mut out = self.root.to_bytes();
        let nh = self.nullifier_hash.to_bytes();
        append_bytes(&mut out, &nh);
        let d = self.external_nullifier.period.day;
        append_u64_word(&mut out, (d / 65536) as u64);
        append_u64_word(&mut out, ((d / 256) % 256) as u64);
        append_u64_word(&mut out, (d % 256) as u64);
        append_u64_word(&mut out, self.external_nullifier.nonce as u64);
        append_field_words(&mut out, &self.proof);
        assert(out@ =~= payload_words(
            self.root@,
            self.nullifier_hash@,
            self.external_nullifier,
            proof_view(self.proof@),
        ));
        out
    }
}

/// Appends one call's tuple.
fn append_call_tuple(out: &mut Vec<u8>, c: &Call)
    requires
        c.data@.len() + 31 <= u64::MAX,
    ensures
        final(out)@ == old(out)@ + call_tuple(c@),
{
    append_zeros(out, 12);
    let t = c.target.to_bytes();
    append_bytes(out, &t);
    append_u64_word(out, 96);
    append_u64_word(out, if c.allow_failure { 1 } else { 0 });
    let len = c.data.len() as u64;
    append_u64_word(out, len);
    append_bytes(out, &c.data);
    let padded = ((len + 31) / 32) * 32;
    assert(padded >= len) by (nonlinear_arith)
        requires
            padded == ((len + 31) / 32) * 32,
    ;
    append_zeros(out, padded - len);
    assert(final(out)@ =~= old(out)@ + call_tuple(c@));
}

proof fn lemma_tuples_len_prefix(cs: Seq<CallView>, i: int)
    requires
        0 <= i <= cs.len(),
    ensures
        tuples_len(cs.subrange(0, i)) <= tuples_len(cs),
    decreases cs.len(),
{
    if i == cs.len() {
        assert(cs.subrange(0, i) =~= cs);
    } else {
        lemma_tuples_len_prefix(cs.drop_last(), i);
        assert(cs.drop_last().subrange(0, i) =~= cs.subrange(0, i));
    }
}

/// The size of the calls array past its length word, or `None` where that
/// does not fit a 64-bit word.
fn calls_array_size(calls: &Vec<Call>) -> (r: Option<u64>)
    ensures
        match r {
            Some(total) => calls_array_fits(calls_view(calls@)) && total == 32 * calls@.len()
                + tuples_len(calls_view(calls@)),
            None => !calls_array_fits(calls_view(calls@)),
        },
{
    let ghost cs = calls_view(calls@);
    let n = calls.len();
    if n as u64 > u64::MAX / 32 {
        return None;
    }
    let mut total: u64 = 32 * n as u64;
    let mut i: usize = 0;
    while i < n
        invariant
            n == calls@.len(),
            cs == calls_view(calls@),
            0 <= i <= n,
            total == 32 * n + tuples_len(cs.subrange(0, i as int)),
        decreases n - i,
    {
        proof {
            assert(cs.subrange(0, i + 1).drop_last() =~= cs.subrange(0, i as int));
            lemma_tuples_len_prefix(cs, i + 1);
        }
        let len = calls[i].data.len() as u64;
        if len > u64::MAX - 159 {
            return None;
        }
        let size = 128 + ((len + 31) / 32) * 32;
        assert(((len + 31) / 32) * 32 <= len + 31) by (nonlinear_arith)
            requires
                len + 31 <= u64::MAX,
        ;
        if total > u64::MAX - size {
            return None;
        }
        total = total + size;
        i = i + 1;
    }
    assert(cs.subrange(0, n as int) =~= cs);
    Some(total)
}

/// The call data of `pbhMulticall(calls, payload)`; an error where an
/// offset or length of the calls array does not fit its word.
pub fn encode_pbh_multicall(calls: &Vec<Call>, payload: &PBHPayload) -> (r: Result<Vec<u8>, PbhError>)
    requires
        payload.wf(),
    ensures
        r is Ok <==> calls_array_fits(calls_view(calls@)),
        r is Err ==> r == Err::<Vec<u8>, PbhError>(PbhError::Encoding),
        r is Ok ==> r->Ok_0@ == multicall_calldata(
            multicall_selector(),
            calls_view(calls@),
            payload_words(
                payload.root@,
                payload.nullifier_hash@,
                payload.external_nullifier,
                proof_view(payload.proof@),
            ),
        ),
{
    let ghost cs = calls_view(calls@);
    let total = match calls_array_size(calls) {
        Some(t) => t,
        None => {
            return Err(PbhError::Encoding);
        },
    };
    let digest = keccak256_text(PBH_MULTICALL_SIGNATURE);
    let mut out: Vec<u8> = Vec::new();
    out.push(digest[0]);
    out.push(digest[1]);
    out.push(digest[2]);
    out.push(digest[3]);
    assert(out@ =~= multicall_selector());
    append_u64_word(&mut out, 480);
    let pw = payload.encode_words();
    append_bytes(&mut out, &pw);
    let n = calls.len();
    append_u64_word(&mut out, n as u64);
    let ghost head = out@;
    let base: u64 = 32 * n as u64;
    let mut offset: u64 = base;
    let mut i: usize = 0;
    while i < n
        invariant
            n == calls@.len(),
            cs == calls_view(calls@),
            0 <= i <= n,
            base == 32 * n,
            total == 32 * n + tuples_len(cs),
            offset == base + tuples_len(cs.subrange(0, i as int)),
            out@ == head + offset_words(cs.subrange(0, i as int), base as nat),
        decreases n - i,
    {
        proof {
            assert(cs.subrange(0, i + 1).drop_last() =~= cs.subrange(0, i as int));
            lemma_tuples_len_prefix(cs, i + 1);
        }
        append_u64_word(&mut out, offset);
        let len = calls[i].data.len() as u64;
        let size = 128 + ((len + 31) / 32) * 32;
        offset = offset + size;
        i = i + 1;
    }
    let ghost mid = out@;
    let mut j: usize = 0;
    while j < n
        invariant
            n == calls@.len(),
            cs == calls_view(calls@),
            0 <= j <= n,
            total == 32 * n + tuples_len(cs),
            out@ == mid + tuples(cs.subrange(0, j as int)),
        decreases n - j,
    {
        proof {
            assert(cs.subrange(0, j + 1).drop_last() =~= cs.subrange(0, j as int));
            lemma_tuples_len_prefix(cs, j + 1);
        }
        append_call_tuple(&mut out, &calls[j]);
        j = j + 1;
    }
    assert(cs.subrange(0, n as int) =~= cs);
    assert(out@ =~= multicall_calldata(
        multicall_selector(),
        cs,
        payload_words(
            payload.root@,
            payload.nullifier_hash@,
            payload.external_nullifier,
            proof_view(payload.proof@),
        ),
    ));
    Ok(out)
}

} // verus!
