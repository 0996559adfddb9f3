//! Periods and external nullifiers: which day a proof is for, and which of
//! that day's slots it spends.
use vstd::prelude::*;

use crate::field::{be_value, lemma_be_value_leading_zeros, lemma_be_value_push, lemma_top_byte_zero_is_field, FieldElement};

verus! {

pub const SECONDS_PER_DAY: u64 = 86400;

/// Periods are numbered in three bytes.
pub const PERIOD_LIMIT: u32 = 0x1000000;

/// The UTC calendar day that a timestamp falls on, counted in days since
/// 1970-01-01.
#[derive(Clone, Copy, Debug, PartialEq, Eq, Structural)]
pub struct PeriodMarker {
    pub day: u32,
}

impl PeriodMarker {
    pub open spec fn wf(&self) -> bool {
        self.day < PERIOD_LIMIT
    }

    /// The period of the Unix time `secs`, or `None` past the last day that
    /// three bytes can number.
    pub fn from_unix_seconds(secs: u64) -> (r: Option<PeriodMarker>)
        ensures
            match r {
                Some(p) => p.wf() && p.day == (secs / SECONDS_PER_DAY) as int,
                None => (secs / SECONDS_PER_DAY) as int >= PERIOD_LIMIT,
            },
    {
        let day = secs / SECONDS_PER_DAY;
        if day < PERIOD_LIMIT as u64 {
            Some(PeriodMarker { day: day as u32 })
        } else {
            None
        }
    }
}

/// A period together with one of its nonce slots.
#[derive(Clone, Copy, Debug, PartialEq, Eq, Structural)]
pub struct ExternalNullifier {
    pub period: PeriodMarker,
    pub nonce: u16,
}

/// The integer that an external nullifier packs to: period bits above
/// sixteen nonce bits.
pub open spec fn packed_value(x: ExternalNullifier) -> nat {
    x.period.day as nat * 65536 + x.nonce as nat
}

/// The five low bytes of the packed value, most significant first.
pub open spec fn packed_tail(x: ExternalNullifier) -> Seq<u8> {
    seq![
        (x.period.day / 65536) as u8,
        ((x.period.day / 256) % 256) as u8,
        (x.period.day % 256) as u8,
        (x.nonce / 256) as u8,
        (x.nonce % 256) as u8,
    ]
}

/// The 32-byte word of the packed value.
pub open spec fn packed_word(x: ExternalNullifier) -> Seq<u8> {
    Seq::new(27, |i: int| 0u8) + packed_tail(x)
}

/// Reads a packed word back; `None` where a byte above the low five is set.
pub open spec fn unpacked(w: Seq<u8>) -> Option<ExternalNullifier> {
    if w.len() == 32 && (forall|i: int| 0 <= i < 27 ==> w[i] == 0) {
        Some(
            ExternalNullifier {
                period: PeriodMarker {
                    day: (w[27] as int * 65536 + w[28] as int * 256 + w[29] as int) as u32,
                },
                nonce: (w[30] as int * 256 + w[31] as int) as u16,
            },
        )
    } else {
        None
    }
}

proof fn lemma_day_bytes(d: u32)
    requires
        d < 0x1000000,
    ensures
        (d / 65536) < 256,
        (d / 65536) * 65536 + ((d / 256) % 256) * 256 + d % 256 == d,
{
    assert((d / 65536) < 256) by (bit_vector)
        requires
            d < 0x1000000,
    ;
    assert((d / 65536) * 65536 + ((d / 256) % 256) * 256 + d % 256 == d) by (bit_vector)
        requires
            d < 0x1000000,
    ;
}

proof fn lemma_nonce_bytes(n: u16)
    ensures
        (n / 256) * 256 + n % 256 == n,
{
    assert((n / 256) * 256 + n % 256 == n) by (bit_vector);
}

/// The packed word denotes the packed integer.
pub proof fn lemma_packed_word_value(x: ExternalNullifier)
    requires
        x.period.wf(),
    ensures
        be_value(packed_word(x)) == packed_value(x),
{
    let w = packed_word(x);
    let t = packed_tail(x);
    lemma_be_value_leading_zeros(w, 27);
    assert(w.subrange(27, 32) =~= t);
    let d = x.period.day;
    let n = x.nonce;
    lemma_day_bytes(d);
    lemma_nonce_bytes(n);
    let e = Seq::<u8>::empty();
    assert(t =~= e.push(t[0]).push(t[1]).push(t[2]).push(t[3]).push(t[4]));
    lemma_be_value_push(e, t[0]);
    lemma_be_value_push(e.push(t[0]), t[1]);
    lemma_be_value_push(e.push(t[0]).push(t[1]), t[2]);
    lemma_be_value_push(e.push(t[0]).push(t[1]).push(t[2]), t[3]);
    lemma_be_value_push(e.push(t[0]).push(t[1]).push(t[2]).push(t[3]), t[4]);
    let b0 = (d / 65536) as nat;
    let b1 = ((d / 256) % 256) as nat;
    let b2 = (d % 256) as nat;
    let b3 = (n / 256) as nat;
    let b4 = (n % 256) as nat;
    assert(be_value(t) == (((b0 * 256 + b1) * 256 + b2) * 256 + b3) * 256 + b4);
    assert(b0 * 65536 + b1 * 256 + b2 == d);
    assert(b3 * 256 + b4 == n);
    assert((((b0 * 256 + b1) * 256 + b2) * 256 + b3) * 256 + b4 == (b0 * 65536 + b1 * 256 + b2) * 65536
        + (b3 * 256 + b4)) by (nonlinear_arith);
}

/// Unpacking inverts packing, for every period that three bytes can number
/// and every nonce.
pub proof fn lemma_pack_round_trip(x: ExternalNullifier)
    requires
        x.period.wf(),
    ensures
        unpacked(packed_word(x)) == Some(x),
{
    let w = packed_word(x);
    lemma_day_bytes(x.period.day);
    lemma_nonce_bytes(x.nonce);
    assert(forall|i: int| 0 <= i < 27 ==> w[i] == 0);
    let y = unpacked(w).unwrap();
    assert(y.period.day == x.period.day);
    assert(y.nonce == x.nonce);
}

/// Packing is injective: distinct external nullifiers give distinct words.
pub proof fn lemma_pack_injective(x: ExternalNullifier, y: ExternalNullifier)
    requires
        x.period.wf(),
        y.period.wf(),
        packed_word(x) == packed_word(y),
    ensures
        x == y,
{
    lemma_pack_round_trip(x);
    lemma_pack_round_trip(y);
}

impl ExternalNullifier {
    /// The external nullifier for `nonce` in `period`.
    pub fn with_period(period: PeriodMarker, nonce: u16) -> (r: ExternalNullifier)
        ensures
            r.period == period,
            r.nonce == nonce,
    {
        ExternalNullifier { period, nonce }
    }

    /// The external nullifier for `nonce` on the day of the Unix time
    /// `secs`; `None` past the last numbered day.
    pub fn at_unix_seconds(secs: u64, nonce: u16) -> (r: Option<ExternalNullifier>)
        ensures
            match r {
                Some(x) => x.period.wf() && x.period.day == (secs / SECONDS_PER_DAY) as int
                    && x.nonce == nonce,
                None => (secs / SECONDS_PER_DAY) as int >= PERIOD_LIMIT,
            },
    {
        match PeriodMarker::from_unix_seconds(secs) {
            Some(period) => Some(ExternalNullifier { period, nonce }),
            None => None,
        }
    }

    /// The packed integer.
    pub fn to_u64(&self) -> (r: u64)
        requires
            self.period.wf(),
        ensures
            r == packed_value(*self),
    {
        self.period.day as u64 * 65536 + self.nonce as u64
    }

    /// The packed value as a field element, which the proof attests to.
    pub fn encode(&self) -> (r: FieldElement)
        requires
            self.period.wf(),
        ensures
            r@ == packed_word(*self),
            be_value(r@) == packed_value(*self),
    {
        let d = self.period.day;
        let n = self.nonce;
        proof {
            lemma_day_bytes(d);
        }
        let mut w: Vec<u8> = vec![0u8; 27];
        w.push((d / 65536) as u8);
        w.push(((d / 256) % 256) as u8);
        w.push((d % 256) as u8);
        w.push((n / 256) as u8);
        w.push((n % 256) as u8);
        assert(w@ =~= packed_word(*self));
        proof {
            lemma_top_byte_zero_is_field(w@);
            lemma_packed_word_value(*self);
        }
        FieldElement::from_field_bytes(w)
    }

    /// Reads a packed word back; `None` where a byte above the low five is
    /// set or the word is not 32 bytes.
    pub fn decode(w: &Vec<u8>) -> (r: Option<ExternalNullifier>)
        ensures
            r == unpacked(w@),
    {
        if w.len() != 32 {
            return None;
        }
        let mut i: usize = 0;
        while i < 27
            invariant
                w@.len() == 32,
                0 <= i <= 27,
                forall|j: int| 0 <= j < i ==> w@[j] == 0,
            decreases 27 - i,
        {
            if w[i] != 0 {
                return None;
            }
            i = i + 1;
        }
        let day: u32 = w[27] as u32 * 65536 + w[28] as u32 * 256 + w[29] as u32;
        let nonce: u16 = w[30] as u16 * 256 + w[31] as u16;
        Some(ExternalNullifier { period: PeriodMarker { day }, nonce })
    }
}

} // verus!
