//! Model-specific register values: the split into the EDX:EAX halves that
//! `wrmsr` takes and the join of the halves that `rdmsr` returns.

use vstd::prelude::*;

verus! {

/// The low (EAX) and high (EDX) halves in which a 64-bit value is written to an MSR.
pub fn split_msr_value(value: u64) -> (r: (u32, u32))
    ensures
        r.0 == value as u32,
        r.1 == (value >> 32u64) as u32,
{
    let low = value as u32;
    let high = (value >> 32u64) as u32;
    (low, high)
}

/// The 64-bit value of an MSR read as its low (EAX) and high (EDX) halves.
pub fn join_msr_halves(low: u32, high: u32) -> (r: u64)
    ensures
        r == ((high as u64) << 32u64) | (low as u64),
{
    ((high as u64) << 32u64) | (low as u64)
}

/// Reading back the halves of a written value gives the value: joining the
/// halves of a split is the identity.
pub proof fn lemma_join_of_split(value: u64)
    ensures
        (((value >> 32u64) as u32 as u64) << 32u64) | (value as u32 as u64) == value,
{
    assert((((value >> 32u64) as u32 as u64) << 32u64) | (value as u32 as u64) == value)
        by (bit_vector);
}

/// Splitting a joined value gives back its halves.
pub proof fn lemma_split_of_join(low: u32, high: u32)
    ensures
        ((((high as u64) << 32u64) | (low as u64)) as u32) == low,
        (((((high as u64) << 32u64) | (low as u64)) >> 32u64) as u32) == high,
{
    assert(((((high as u64) << 32u64) | (low as u64)) as u32) == low) by (bit_vector);
    assert((((((high as u64) << 32u64) | (low as u64)) >> 32u64) as u32) == high)
        by (bit_vector);
}

} // verus!
