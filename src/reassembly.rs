use vstd::prelude::*;

verus! {

/// Number of consecutive keys `from`, `from + 1`, ... that `m` holds, counting
/// only keys below `u64::MAX`.
pub open spec fn run_length<V>(m: Map<u64, V>, from: u64) -> nat
    decreases u64::MAX - from,
{
    if from < u64::MAX && m.contains_key(from) {
        1 + run_length(m, (from + 1) as u64)
    } else {
        0
    }
}

/// The keys at or above `from`.
pub open spec fn keys_from(from: u64) -> Set<u64> {
    Set::new(|k: u64| k >= from)
}

/// The values of `m` at `from`, `from + 1`, ..., `count` of them, in order.
pub open spec fn values_from<V>(m: Map<u64, V>, from: u64, count: nat) -> Seq<V> {
    Seq::new(count, |i: int| m[(from + i) as u64])
}

} // verus!
