use vstd::prelude::*;

use crate::errors::LedgerError;
use crate::slot::{Slot, SlotModel, bytes_eq, set_slot_data, slots_model};

verus! {

/// Exact width in bytes of an encoded [`Counter`] record.
pub const COUNTER_WIDTH: usize = 8;

/// The minimal comparison record: an invocation counter and a value derived
/// from it. After every successful invocation `derived == counter * 2`
/// (modulo the 32-bit wrap).
#[derive(Clone, Copy, Debug, PartialEq, Eq, Structural)]
pub struct Counter {
    pub counter: u32,
    pub derived: u32,
}

/// The four little-endian bytes of a 32-bit scalar.
pub open spec fn spec_u32_le(x: u32) -> Seq<u8> {
    seq![
        (x & 0xff) as u8,
        ((x >> 8) & 0xff) as u8,
        ((x >> 16) & 0xff) as u8,
        ((x >> 24) & 0xff) as u8,
    ]
}

/// The 32-bit scalar denoted by four little-endian bytes.
pub open spec fn spec_le_u32(b: Seq<u8>) -> u32
    recommends
        b.len() == 4,
{
    (b[0] as u32) | ((b[1] as u32) << 8) | ((b[2] as u32) << 16) | ((b[3] as u32) << 24)
}

/// Reading back the four little-endian bytes of a scalar yields the scalar.
pub proof fn lemma_u32_le_round_trip(x: u32)
    ensures
        spec_le_u32(spec_u32_le(x)) == x,
{
    assert((((x & 0xff) as u8) as u32) | ((((x >> 8) & 0xff) as u8) as u32) << 8 | ((((x >> 16)
        & 0xff) as u8) as u32) << 16 | ((((x >> 24) & 0xff) as u8) as u32) << 24 == x)
        by (bit_vector);
}

/// The encoding of a counter record: `counter` then `derived`, each as four
/// little-endian bytes.
pub open spec fn spec_encode_counter(c: Counter) -> Seq<u8> {
    spec_u32_le(c.counter) + spec_u32_le(c.derived)
}

/// The counter record denoted by an 8-byte buffer.
pub open spec fn spec_decode_counter(b: Seq<u8>) -> Counter
    recommends
        b.len() == COUNTER_WIDTH,
{
    Counter { counter: spec_le_u32(b.subrange(0, 4)), derived: spec_le_u32(b.subrange(4, 8)) }
}

/// Round-trip law for counter records.
pub proof fn lemma_counter_round_trip(c: Counter)
    ensures
        spec_decode_counter(spec_encode_counter(c)) == c,
{
    let b = spec_encode_counter(c);
    assert(b.subrange(0, 4) =~= spec_u32_le(c.counter));
    assert(b.subrange(4, 8) =~= spec_u32_le(c.derived));
    lemma_u32_le_round_trip(c.counter);
    lemma_u32_le_round_trip(c.derived);
}

/// Appends the four little-endian bytes of `x` to `out`.
fn push_u32_le(out: &mut Vec<u8>, x: u32)
    ensures
        final(out)@ == old(out)@ + spec_u32_le(x),
{
    out.push((x & 0xff) as u8);
    out.push(((x >> 8) & 0xff) as u8);
    out.push(((x >> 16) & 0xff) as u8);
    out.push(((x >> 24) & 0xff) as u8);
    assert(out@ =~= old(out)@ + spec_u32_le(x));
}

/// Reads a 32-bit scalar from four little-endian bytes at `start`.
fn read_u32_le(b: &Vec<u8>, start: usize) -> (r: u32)
    requires
        start + 4 <= b@.len(),
    ensures
        r == spec_le_u32(b@.subrange(start as int, start as int + 4)),
{
    let n = b.len();
    assert(start + 4 <= n);
    let r = (b[start] as u32) | ((b[start + 1] as u32) << 8) | ((b[start + 2] as u32) << 16) | ((b[
        start + 3] as u32) << 24);
    proof {
        let s = b@.subrange(start as int, start as int + 4);
        assert(s[0] == b@[start as int] && s[1] == b@[start as int + 1] && s[2] == b@[start as int
            + 2] && s[3] == b@[start as int + 3]);
    }
    r
}

/// Encodes a counter record into exactly [`COUNTER_WIDTH`] bytes.
pub fn encode_counter(c: &Counter) -> (r: Vec<u8>)
    ensures
        r@ == spec_encode_counter(*c),
        r@.len() == COUNTER_WIDTH,
{
    let mut out: Vec<u8> = Vec::new();
    push_u32_le(&mut out, c.counter);
    push_u32_le(&mut out, c.derived);
    assert(out@ =~= spec_encode_counter(*c));
    out
}

/// Decodes a buffer into a counter record; fails with
/// [`LedgerError::FormatError`] exactly when the buffer's length differs
/// from [`COUNTER_WIDTH`].
pub fn decode_counter(bytes: &Vec<u8>) -> (r: Result<Counter, LedgerError>)
    ensures
        r is Ok <==> bytes@.len() == COUNTER_WIDTH,
        r is Ok ==> r->Ok_0 == spec_decode_counter(bytes@),
        r is Err ==> r->Err_0 == LedgerError::FormatError,
{
    if bytes.len() != COUNTER_WIDTH {
        return Err(LedgerError::FormatError);
    }
    let counter = read_u32_le(bytes, 0);
    let derived = read_u32_le(bytes, 4);
    Ok(Counter { counter, derived })
}

/// The single transition of the counter variant: the counter advances by one
/// and `derived` is recomputed as its double, both modulo the 32-bit wrap.
pub open spec fn spec_increment(c: Counter) -> Counter {
    let next = ((c.counter + 1) % 0x1_0000_0000) as u32;
    Counter { counter: next, derived: ((2 * next) % 0x1_0000_0000) as u32 }
}

/// Applies [`spec_increment`] to an executable record.
pub fn increment(c: &Counter) -> (r: Counter)
    ensures
        r == spec_increment(*c),
{
    let next: u32 = if c.counter == 0xffff_ffff {
        0
    } else {
        c.counter + 1
    };
    let derived: u32 = if next <= 0x7fff_ffff {
        2 * next
    } else {
        2 * (next - 0x8000_0000)
    };
    Counter { counter: next, derived }
}

/// The counter variant's whole invocation as a transition over slot models:
/// reject a missing or foreign-owned primary slot, reject a buffer of the
/// wrong width, otherwise decode, increment, re-encode and write back.
pub open spec fn spec_counter_step(program_id: Seq<u8>, slots: Seq<SlotModel>) -> Result<
    Seq<SlotModel>,
    LedgerError,
> {
    if slots.len() < 1 {
        Err(LedgerError::MissingSlot)
    } else if slots[0].owner != program_id {
        Err(LedgerError::PermissionError)
    } else if slots[0].data.len() != COUNTER_WIDTH {
        Err(LedgerError::FormatError)
    } else {
        Ok(
            slots.update(
                0,
                SlotModel {
                    owner: slots[0].owner,
                    data: spec_encode_counter(spec_increment(spec_decode_counter(slots[0].data))),
                },
            ),
        )
    }
}

/// The counter variant's entry point: one increment against the primary slot.
pub fn process_increment(program_id: &Vec<u8>, slots: &mut Vec<Slot>) -> (r: Result<
    (),
    LedgerError,
>)
    ensures
        r is Ok ==> spec_counter_step(program_id@, slots_model(old(slots)@)) == Ok::<
            Seq<SlotModel>,
            LedgerError,
        >(slots_model(final(slots)@)),
        r is Err ==> spec_counter_step(program_id@, slots_model(old(slots)@)) == Err::<
            Seq<SlotModel>,
            LedgerError,
        >(r->Err_0) && final(slots)@ == old(slots)@,
{
    if slots.len() < 1 {
        return Err(LedgerError::MissingSlot);
    }
    if !bytes_eq(&slots[0].owner, program_id) {
        return Err(LedgerError::PermissionError);
    }
    let cur = match decode_counter(&slots[0].data) {
        Ok(c) => c,
        Err(e) => {
            return Err(e);
        },
    };
    let next = increment(&cur);
    let data = encode_counter(&next);
    set_slot_data(slots, 0, data);
    Ok(())
}

/// `n`-fold application of the increment transition.
pub open spec fn spec_increment_n(c: Counter, n: nat) -> Counter
    decreases n,
{
    if n == 0 {
        c
    } else {
        spec_increment(spec_increment_n(c, (n - 1) as nat))
    }
}

/// Counter invariant: starting from the all-zero record, `n` applications of
/// the increment leave `counter == n` and `derived == 2 * n`, for every `n`
/// small enough that the doubled value does not wrap.
pub proof fn lemma_counter_invariant(n: nat)
    requires
        n <= 0x7fff_ffff,
    ensures
        spec_increment_n(Counter { counter: 0, derived: 0 }, n).counter == n,
        spec_increment_n(Counter { counter: 0, derived: 0 }, n).derived == 2 * n,
    decreases n,
{
    if n > 0 {
        lemma_counter_invariant((n - 1) as nat);
    }
}

/// After any increment, `derived` is the double of `counter`, modulo the
/// 32-bit wrap.
pub proof fn lemma_increment_derived(c: Counter)
    ensures
        spec_increment(c).derived == (2 * spec_increment(c).counter) % 0x1_0000_0000,
{
}

} // verus!
