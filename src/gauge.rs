use vstd::prelude::*;

verus! {

/// The share of memory in use, in whole percent rounded down, for a gauge
/// that takes 0 to 100: 0 when the total is unknown (0), and 100 when the
/// source reports more in use than there is.
pub open spec fn spec_memory_percent(used: u64, total: u64) -> int {
    if total == 0 {
        0
    } else if used >= total {
        100
    } else {
        used as int * 100 / total as int
    }
}

pub fn memory_percent(used: u64, total: u64) -> (r: u16)
    ensures
        r == spec_memory_percent(used, total),
        r <= 100,
{
    if total == 0 {
        0
    } else if used >= total {
        100
    } else {
        let scaled: u128 = used as u128 * 100;
        let q: u128 = scaled / total as u128;
        assert(q <= 100) by (nonlinear_arith)
            requires
                q == scaled / total as u128,
                scaled == used * 100,
                used < total,
                total > 0,
        ;
        q as u16
    }
}

} // verus!
