//! Addresses, calls, and the signal that binds a proof to a sender and the
//! exact calls it authorizes.
use vstd::prelude::*;

use crate::bytes::{append_bytes, append_u64_word, lemma_u64_be_round_trip, lemma_u64_word, u64_be, u64_from_be, u64_word};
use crate::field::{lemma_top_byte_zero_is_field, FieldElement};
use crate::hashing::{hash_to_field, hash_to_field_of};

verus! {

/// A 20-byte account address.
#[derive(Debug, PartialEq, Eq)]
pub struct Address {
    bytes: Vec<u8>,
}

impl View for Address {
    type V = Seq<u8>;

    closed spec fn view(&self) -> Seq<u8> {
        self.bytes@
    }
}

impl Clone for Address {
    fn clone(&self) -> (r: Self)
        ensures
            r@ == self@,
    {
        proof {
            use_type_invariant(self);
        }
        Address { bytes: self.bytes.clone() }
    }
}

impl Address {
    #[verifier::type_invariant]
    spec fn inv(&self) -> bool {
        self.bytes@.len() == 20
    }

    /// The address with bytes `b`; `None` unless there are exactly 20.
    pub fn from_bytes(b: Vec<u8>) -> (r: Option<Address>)
        ensures
            r is Some <==> b@.len() == 20,
            r is Some ==> r->Some_0@ == b@,
    {
        if b.len() == 20 {
            Some(Address { bytes: b })
        } else {
            None
        }
    }

    /// The all-zero address.
    pub fn zero() -> (r: Address)
        ensures
            r@ == Seq::new(20, |i: int| 0u8),
    {
        let r = Address { bytes: vec![0u8; 20] };
        assert(r@ =~= Seq::new(20, |i: int| 0u8));
        r
    }

    /// The 20 bytes of this address.
    pub fn to_bytes(&self) -> (r: Vec<u8>)
        ensures
            r@ == self@,
            r@.len() == 20,
    {
        proof {
            use_type_invariant(self);
        }
        self.bytes.clone()
    }
}

/// A call of a multicall batch: the contract called, its input, and whether
/// the batch goes on when it reverts.
#[derive(Debug, PartialEq, Eq)]
pub struct Call {
    pub target: Address,
    pub data: Vec<u8>,
    pub allow_failure: bool,
}

/// What a call holds: target bytes, input bytes, whether it may fail.
pub type CallView = (Seq<u8>, Seq<u8>, bool);

impl View for Call {
    type V = CallView;

    open spec fn view(&self) -> CallView {
        (self.target@, self.data@, self.allow_failure)
    }
}

impl Clone for Call {
    fn clone(&self) -> (r: Self)
        ensures
            r@ == self@,
    {
        Call { target: self.target.clone(), data: self.data.clone(), allow_failure: self.allow_failure }
    }
}

impl Call {
    pub fn new(target: Address, data: Vec<u8>, allow_failure: bool) -> (r: Call)
        ensures
            r@ == (target@, data@, allow_failure),
    {
        Call { target, data, allow_failure }
    }
}

/// The views of a sequence of calls, in order.
pub open spec fn calls_view(calls: Seq<Call>) -> Seq<CallView> {
    calls.map_values(|c: Call| c@)
}

/// Whether every call has a 20-byte target and an input whose length a
/// 64-bit word holds.
pub open spec fn calls_well_formed(cs: Seq<CallView>) -> bool {
    forall|i: int| 0 <= i < cs.len() ==> cs[i].0.len() == 20 && cs[i].1.len() <= u64::MAX
}

/// One call in the signal: target, length word of the input, the input, and
/// one byte for `allow_failure`.
pub open spec fn call_bytes(c: CallView) -> Seq<u8> {
    c.0 + u64_word(c.1.len() as u64) + c.1 + seq![if c.2 { 1u8 } else { 0u8 }]
}

/// The calls in the signal, in order.
pub open spec fn calls_bytes(cs: Seq<CallView>) -> Seq<u8>
    decreases cs.len(),
{
    if cs.len() == 0 {
        Seq::empty()
    } else {
        call_bytes(cs[0]) + calls_bytes(cs.drop_first())
    }
}

/// The bytes that the signal hash is taken of: the sender, then the calls.
pub open spec fn signal_preimage(from: Seq<u8>, cs: Seq<CallView>) -> Seq<u8> {
    from + calls_bytes(cs)
}

/// Reads calls back from their bytes.
pub open spec fn parse_calls(s: Seq<u8>) -> Option<Seq<CallView>>
    decreases s.len(),
{
    if s.len() == 0 {
        Some(Seq::empty())
    } else if s.len() < 52 {
        None
    } else {
        let n = u64_from_be(s.subrange(44, 52)) as int;
        if s.len() < 53 + n {
            None
        } else {
            let c: CallView = (s.subrange(0, 20), s.subrange(52, 52 + n), s[52 + n] == 1u8);
            match parse_calls(s.subrange(53 + n, s.len() as int)) {
                Some(rest) => Some(seq![c] + rest),
                None => None,
            }
        }
    }
}

/// Reads the sender and the calls back from a signal preimage.
pub open spec fn parse_signal_preimage(s: Seq<u8>) -> Option<(Seq<u8>, Seq<CallView>)> {
    if s.len() < 20 {
        None
    } else {
        match parse_calls(s.subrange(20, s.len() as int)) {
            Some(cs) => Some((s.subrange(0, 20), cs)),
            None => None,
        }
    }
}

proof fn lemma_calls_bytes_push(cs: Seq<CallView>, c: CallView)
    ensures
        calls_bytes(cs.push(c)) == calls_bytes(cs) + call_bytes(c),
    decreases cs.len(),
{
    if cs.len() == 0 {
        assert(cs.push(c).drop_first() =~= Seq::<CallView>::empty());
        assert(cs.push(c)[0] == c);
        assert(calls_bytes(cs.push(c).drop_first()) =~= Seq::<u8>::empty());
        assert(calls_bytes(cs) =~= Seq::<u8>::empty());
        assert(calls_bytes(cs.push(c)) == call_bytes(c) + calls_bytes(cs.push(c).drop_first()));
        assert(calls_bytes(cs.push(c)) =~= calls_bytes(cs) + call_bytes(c));
    } else {
        lemma_calls_bytes_push(cs.drop_first(), c);
        assert(cs.push(c).drop_first() =~= cs.drop_first().push(c));
        assert(cs.push(c)[0] == cs[0]);
        assert(calls_bytes(cs.push(c)) == call_bytes(cs[0]) + calls_bytes(cs.drop_first().push(c)));
        assert(calls_bytes(cs.push(c)) =~= calls_bytes(cs) + call_bytes(c));
    }
}

proof fn lemma_parse_calls_bytes(cs: Seq<CallView>)
    requires
        calls_well_formed(cs),
    ensures
        parse_calls(calls_bytes(cs)) == Some(cs),
    decreases cs.len(),
{
    if cs.len() == 0 {
        assert(calls_bytes(cs) =~= Seq::<u8>::empty());
    } else {
        let c = cs[0];
        let rest = cs.drop_first();
        assert(calls_well_formed(rest));
        lemma_parse_calls_bytes(rest);
        let s = calls_bytes(cs);
        let n = c.1.len() as int;
        let flag: u8 = if c.2 { 1u8 } else { 0u8 };
        lemma_u64_word(n as u64);
        assert(s =~= c.0 + u64_word(n as u64) + c.1 + seq![flag] + calls_bytes(rest));
        assert(s.subrange(0, 20) =~= c.0);
        assert(s.subrange(44, 52) =~= u64_be(n as u64));
        lemma_u64_be_round_trip(n as u64);
        assert(s.subrange(52, 52 + n) =~= c.1);
        assert(s[52 + n] == flag);
        assert(s.subrange(53 + n, s.len() as int) =~= calls_bytes(rest));
        assert(seq![c] + rest =~= cs);
    }
}

/// The signal preimage determines the sender and the ordered calls: two
/// preimages are equal exactly when the senders are equal and the call
/// sequences are equal, element by element and in order. So reordering,
/// adding, removing or changing a call, or changing the sender, changes the
/// bytes that the signal hash is taken of.
pub proof fn lemma_signal_preimage_injective(
    from1: Seq<u8>,
    calls1: Seq<CallView>,
    from2: Seq<u8>,
    calls2: Seq<CallView>,
)
    requires
        from1.len() == 20,
        from2.len() == 20,
        calls_well_formed(calls1),
        calls_well_formed(calls2),
    ensures
        signal_preimage(from1, calls1) == signal_preimage(from2, calls2) <==> (from1 == from2
            && calls1 == calls2),
{
    lemma_signal_preimage_round_trip(from1, calls1);
    lemma_signal_preimage_round_trip(from2, calls2);
}

/// Parsing a signal preimage gives back its sender and calls.
pub proof fn lemma_signal_preimage_round_trip(from: Seq<u8>, calls: Seq<CallView>)
    requires
        from.len() == 20,
        calls_well_formed(calls),
    ensures
        parse_signal_preimage(signal_preimage(from, calls)) == Some((from, calls)),
{
    let s = signal_preimage(from, calls);
    lemma_parse_calls_bytes(calls);
    assert(s.subrange(0, 20) =~= from);
    assert(s.subrange(20, s.len() as int) =~= calls_bytes(calls));
}

/// Appends the signal bytes of one call.
fn append_call_bytes(out: &mut Vec<u8>, c: &Call)
    ensures
        final(out)@ == old(out)@ + call_bytes(c@),
{
    let t = c.target.to_bytes();
    append_bytes(out, &t);
    append_u64_word(out, c.data.len() as u64);
    append_bytes(out, &c.data);
    out.push(if c.allow_failure { 1u8 } else { 0u8 });
    assert(final(out)@ =~= old(out)@ + call_bytes(c@));
}

/// The bytes that the signal hash is taken of.
pub fn signal_preimage_bytes(from: &Address, calls: &Vec<Call>) -> (r: Vec<u8>)
    ensures
        r@ == signal_preimage(from@, calls_view(calls@)),
{
    let mut out = from.to_bytes();
    let ghost views = calls_view(calls@);
    let mut i: usize = 0;
    while i < calls.len()
        invariant
            0 <= i <= calls@.len(),
            views == calls_view(calls@),
            out@ == from@ + calls_bytes(views.subrange(0, i as int)),
        decreases calls@.len() - i,
    {
        let ghost before = out@;
        append_call_bytes(&mut out, &calls[i]);
        proof {
            lemma_calls_bytes_push(views.subrange(0, i as int), views[i as int]);
            assert(views.subrange(0, i as int).push(views[i as int]) =~= views.subrange(0, i + 1));
        }
        i = i + 1;
    }
    assert(views.subrange(0, calls@.len() as int) =~= views);
    out
}

/// The signal hash of a sender and a batch of calls.
pub fn bind_signal(from: &Address, calls: &Vec<Call>) -> (r: FieldElement)
    ensures
        r@ == hash_to_field_of(signal_preimage(from@, calls_view(calls@))),
{
    let pre = signal_preimage_bytes(from, calls);
    let h = hash_to_field(&pre);
    proof {
        lemma_top_byte_zero_is_field(h@);
    }
    FieldElement::from_field_bytes(h)
}

} // verus!
