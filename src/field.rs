//! Elements of the BN254 scalar field, held as 32 big-endian bytes.
use vstd::prelude::*;

verus! {

/// `256^n`.
pub open spec fn pow256(n: nat) -> nat
    decreases n,
{
    if n == 0 {
        1
    } else {
        256 * pow256((n - 1) as nat)
    }
}

/// The unsigned integer that the big-endian bytes `s` denote.
pub open spec fn be_value(s: Seq<u8>) -> nat
    decreases s.len(),
{
    if s.len() == 0 {
        0
    } else {
        s[0] as nat * pow256((s.len() - 1) as nat) + be_value(s.subrange(1, s.len() as int))
    }
}

/// The order of the BN254 scalar field.
pub open spec fn field_modulus() -> nat {
    let e30: nat = 1000000000000000000000000000000;
    21888242871839275 * e30 * e30 + 222246405745257275088548364400 * e30
        + 416034343698204186575808495617
}

/// Whether `s` is the canonical 32-byte encoding of a field element.
pub open spec fn is_field_bytes(s: Seq<u8>) -> bool {
    s.len() == 32 && be_value(s) < field_modulus()
}

/// A value written in `n` bytes is below `256^n`.
pub proof fn lemma_be_value_bound(s: Seq<u8>)
    ensures
        be_value(s) < pow256(s.len()),
    decreases s.len(),
{
    if s.len() > 0 {
        let t = s.subrange(1, s.len() as int);
        lemma_be_value_bound(t);
        let p = pow256((s.len() - 1) as nat);
        let d = s[0] as nat;
        assert(d * p + p <= 256 * p) by (nonlinear_arith)
            requires
                d <= 255,
        ;
    }
}

/// 32 bytes whose first byte is zero always encode a field element.
pub proof fn lemma_top_byte_zero_is_field(s: Seq<u8>)
    requires
        s.len() == 32,
        s[0] == 0,
    ensures
        is_field_bytes(s),
{
    let t = s.subrange(1, 32);
    lemma_be_value_bound(t);
    reveal_with_fuel(pow256, 32);
    assert(pow256(31) < field_modulus());
}

/// Bytes that are all zero denote zero.
pub proof fn lemma_be_value_zeros(s: Seq<u8>)
    requires
        forall|i: int| 0 <= i < s.len() ==> s[i] == 0,
    ensures
        be_value(s) == 0,
    decreases s.len(),
{
    if s.len() > 0 {
        lemma_be_value_zeros(s.subrange(1, s.len() as int));
    }
}

/// Leading zero bytes do not change the value.
pub proof fn lemma_be_value_leading_zeros(s: Seq<u8>, k: int)
    requires
        0 <= k <= s.len(),
        forall|i: int| 0 <= i < k ==> s[i] == 0,
    ensures
        be_value(s) == be_value(s.subrange(k, s.len() as int)),
    decreases k,
{
    if k > 0 {
        let t = s.subrange(1, s.len() as int);
        assert(t.subrange(k - 1, t.len() as int) =~= s.subrange(k, s.len() as int));
        lemma_be_value_leading_zeros(t, k - 1);
    } else {
        assert(s.subrange(0, s.len() as int) =~= s);
    }
}

/// Appending a byte shifts the value up by one byte.
pub proof fn lemma_be_value_push(s: Seq<u8>, b: u8)
    ensures
        be_value(s.push(b)) == be_value(s) * 256 + b,
    decreases s.len(),
{
    let sb = s.push(b);
    if s.len() == 0 {
        assert(sb.subrange(1, 1) =~= Seq::<u8>::empty());
        assert(be_value(sb.subrange(1, 1)) == 0);
        assert(pow256(0) == 1);
        assert(be_value(sb) == b as nat * pow256(0) + be_value(sb.subrange(1, 1)));
    } else {
        let t = s.subrange(1, s.len() as int);
        assert(sb.subrange(1, sb.len() as int) =~= t.push(b));
        lemma_be_value_push(t, b);
        let p = pow256((s.len() - 1) as nat);
        let d = s[0] as nat;
        let v = be_value(t);
        assert(pow256(s.len()) == 256 * p);
        assert(sb[0] == s[0]);
        assert(be_value(sb) == d * pow256(s.len()) + be_value(t.push(b)));
        assert(be_value(s) == d * p + v);
        assert(d * (256 * p) + (v * 256 + b) == (d * p + v) * 256 + b) by (nonlinear_arith);
    }
}

/// An element of the BN254 scalar field, always reduced below the modulus.
#[derive(Debug, PartialEq, Eq)]
pub struct FieldElement {
    bytes: Vec<u8>,
}

impl View for FieldElement {
    type V = Seq<u8>;

    closed spec fn view(&self) -> Seq<u8> {
        self.bytes@
    }
}

impl Clone for FieldElement {
    fn clone(&self) -> (r: Self)
        ensures
            r@ == self@,
    {
        proof {
            use_type_invariant(self);
        }
        FieldElement { bytes: self.bytes.clone() }
    }
}

impl FieldElement {
    #[verifier::type_invariant]
    spec fn inv(&self) -> bool {
        is_field_bytes(self.bytes@)
    }

    /// The element whose encoding is `b`.
    pub fn from_field_bytes(b: Vec<u8>) -> (r: FieldElement)
        requires
            is_field_bytes(b@),
        ensures
            r@ == b@,
    {
        FieldElement { bytes: b }
    }

    /// Zero.
    pub fn zero() -> (r: FieldElement)
        ensures
            r@ == Seq::new(32, |i: int| 0u8),
            be_value(r@) == 0,
    {
        let b: Vec<u8> = vec![0u8; 32];
        proof {
            lemma_top_byte_zero_is_field(b@);
            lemma_be_value_zeros(b@);
        }
        let r = FieldElement { bytes: b };
        assert(r@ =~= Seq::new(32, |i: int| 0u8));
        r
    }

    /// The 32 big-endian bytes of this element.
    pub fn to_bytes(&self) -> (r: Vec<u8>)
        ensures
            r@ == self@,
            is_field_bytes(r@),
    {
        proof {
            use_type_invariant(self);
        }
        self.bytes.clone()
    }
}

} // verus!
