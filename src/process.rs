use vstd::prelude::*;

verus! {

/// One row of the process table.
///
/// The CPU usage is kept as the bit pattern of its IEEE-754 single-precision
/// value, so that no reading is lost and the ordering below can be stated over
/// integers.
pub struct ProcessInfo {
    pub pid: u32,
    pub name: String,
    pub cpu_bits: u32,
    pub memory: u64,
}

/// The sign bit of a single-precision bit pattern, as a number.
pub open spec fn sign_bit() -> int {
    0x8000_0000
}

/// The bit pattern encodes a not-a-number value: all exponent bits set and a
/// non-zero fraction.
pub open spec fn cpu_is_nan(bits: u32) -> bool {
    bits as int % sign_bit() > 0x7f80_0000
}

/// An integer that orders the non-NaN bit patterns as their values order;
/// both zeros map to 0.
pub open spec fn cpu_key(bits: u32) -> int {
    if bits as int >= sign_bit() {
        sign_bit() - bits as int
    } else {
        bits as int
    }
}

/// `a` uses strictly more CPU than `b`; a NaN reading compares with nothing.
pub open spec fn cpu_above(a: ProcessInfo, b: ProcessInfo) -> bool {
    !cpu_is_nan(a.cpu_bits) && !cpu_is_nan(b.cpu_bits) && cpu_key(a.cpu_bits) > cpu_key(
        b.cpu_bits,
    )
}

pub open spec fn all_numeric(s: Seq<ProcessInfo>) -> bool {
    forall|k: int| 0 <= k < s.len() ==> !cpu_is_nan(#[trigger] s[k].cpu_bits)
}

/// Descending by CPU: no entry uses strictly more CPU than one before it.
pub open spec fn sorted_by_cpu(r: Seq<ProcessInfo>) -> bool {
    forall|k1: int, k2: int| 0 <= k1 < k2 < r.len() ==> !cpu_above(#[trigger] r[k2], #[trigger] r[k1])
}

/// `p` takes each position of `r` to a distinct position of `s` holding the same
/// entry, and two entries trade places only where the one moved forward uses
/// strictly more CPU (so entries of equal CPU keep their order).
pub open spec fn is_stable_cpu_arrangement(r: Seq<ProcessInfo>, s: Seq<ProcessInfo>, p: Seq<int>) -> bool {
    &&& r.len() == s.len()
    &&& p.len() == s.len()
    &&& forall|k: int| 0 <= k < p.len() ==> 0 <= #[trigger] p[k] < s.len() && r[k] == s[p[k]]
    &&& forall|k1: int, k2: int|
        0 <= k1 < k2 < p.len() ==> #[trigger] p[k1] != #[trigger] p[k2]
    &&& forall|k1: int, k2: int|
        0 <= k1 < k2 < p.len() && #[trigger] p[k1] > #[trigger] p[k2] ==> cpu_above(r[k1], r[k2])
}

/// `r` is the stable descending-by-CPU arrangement of `s`.
pub open spec fn is_cpu_sorting_of(r: Seq<ProcessInfo>, s: Seq<ProcessInfo>) -> bool {
    &&& exists|p: Seq<int>| is_stable_cpu_arrangement(r, s, p)
    &&& all_numeric(s) ==> sorted_by_cpu(r)
}

/// The NaN test of `cpu_is_nan`, computed.
pub fn cpu_reading_is_nan(bits: u32) -> (r: bool)
    ensures
        r == cpu_is_nan(bits),
{
    bits % 0x8000_0000 > 0x7f80_0000
}

/// Whether `a` uses strictly more CPU than `b`.
pub fn uses_more_cpu(a: &ProcessInfo, b: &ProcessInfo) -> (r: bool)
    ensures
        r == cpu_above(*a, *b),
{
    if cpu_reading_is_nan(a.cpu_bits) || cpu_reading_is_nan(b.cpu_bits) {
        return false;
    }
    let ka: i64 = if a.cpu_bits >= 0x8000_0000 {
        0x8000_0000i64 - a.cpu_bits as i64
    } else {
        a.cpu_bits as i64
    };
    let kb: i64 = if b.cpu_bits >= 0x8000_0000 {
        0x8000_0000i64 - b.cpu_bits as i64
    } else {
        b.cpu_bits as i64
    };
    ka > kb
}

/// Sorts the processes by CPU usage, highest first, keeping the enumeration
/// order of entries with equal usage (a stable insertion sort).
pub fn sort_by_cpu(v: &mut Vec<ProcessInfo>)
    ensures
        is_cpu_sorting_of(final(v)@, old(v)@),
{
    let ghost s = v@;
    let n = v.len();
    let ghost mut p: Seq<int> = Seq::new(n as nat, |k: int| k);
    if n == 0 {
        assert(is_stable_cpu_arrangement(v@, s, p));
        return;
    }
    let mut i: usize = 1;
    while i < n
        invariant
            1 <= i <= n,
            n == s.len(),
            v@.len() == n,
            p.len() == n,
            forall|k: int| 0 <= k < n ==> 0 <= #[trigger] p[k] < n && v@[k] == s[p[k]],
            forall|k: int| i <= k < n ==> #[trigger] p[k] == k,
            forall|k: int| 0 <= k < i ==> #[trigger] p[k] < i,
            forall|k1: int, k2: int| 0 <= k1 < k2 < n ==> #[trigger] p[k1] != #[trigger] p[k2],
            forall|k1: int, k2: int|
                0 <= k1 < k2 < n && #[trigger] p[k1] > #[trigger] p[k2] ==> cpu_above(
                    v@[k1],
                    v@[k2],
                ),
            all_numeric(s) ==> forall|k1: int, k2: int|
                0 <= k1 < k2 < i ==> !cpu_above(#[trigger] v@[k2], #[trigger] v@[k1]),
        decreases n - i,
    {
        let ghost v0 = v@;
        let ghost p0 = p;
        let x = v.remove(i);
        let mut j: usize = i;
        loop
            invariant
                0 <= j <= i,
                i < n,
                v0.len() == n,
                v@ == v0.remove(i as int),
                x == v0[i as int],
                forall|k: int| j <= k < i ==> cpu_above(x, #[trigger] v0[k]),
            ensures
                0 <= j <= i,
                j == 0 || !cpu_above(x, v0[j - 1]),
                forall|k: int| j <= k < i ==> cpu_above(x, #[trigger] v0[k]),
            decreases j,
        {
            if j == 0 {
                break;
            }
            assert(v@[j - 1] == v0[j - 1]);
            if !uses_more_cpu(&x, &v[j - 1]) {
                break;
            }
            j = j - 1;
        }
        v.insert(j, x);
        proof {
            p = p0.remove(i as int).insert(j as int, i as int);
            assert(v@ == v0.remove(i as int).insert(j as int, x));
            assert forall|k: int| 0 <= k < n implies 0 <= #[trigger] p[k] < n && v@[k] == s[p[k]] by {
                if k < j {
                    assert(p[k] == p0[k] && v@[k] == v0[k]);
                } else if k == j {
                    assert(p0[i as int] == i);
                    assert(v0[i as int] == s[p0[i as int]]);
                } else if k <= i {
                    assert(p[k] == p0[k - 1] && v@[k] == v0[k - 1]);
                } else {
                    assert(p[k] == p0[k] && v@[k] == v0[k]);
                }
            }
            assert forall|k1: int, k2: int| 0 <= k1 < k2 < n implies #[trigger] p[k1] != #[trigger] p[k2] by {
                let o1 = if k1 < j { k1 } else if k1 == j { -1 } else if k1 <= i { k1 - 1 } else { k1 };
                let o2 = if k2 < j { k2 } else if k2 == j { -1 } else if k2 <= i { k2 - 1 } else { k2 };
                if o1 >= 0 && o2 >= 0 {
                    assert(p[k1] == p0[o1] && p[k2] == p0[o2]);
                } else if o1 >= 0 {
                    assert(p[k1] == p0[o1]);
                    if o1 >= i {
                        assert(p0[o1] == o1);
                    }
                } else if o2 >= 0 {
                    assert(p[k2] == p0[o2]);
                    if o2 >= i {
                        assert(p0[o2] == o2);
                    }
                }
            }
            assert forall|k1: int, k2: int|
                0 <= k1 < k2 < n && #[trigger] p[k1] > #[trigger] p[k2] implies cpu_above(v@[k1], v@[k2]) by {
                let o1 = if k1 < j { k1 } else if k1 == j { -1 } else if k1 <= i { k1 - 1 } else { k1 };
                let o2 = if k2 < j { k2 } else if k2 == j { -1 } else if k2 <= i { k2 - 1 } else { k2 };
                if o1 >= 0 && o2 >= 0 {
                    assert(p[k1] == p0[o1] && p[k2] == p0[o2]);
                    assert(v@[k1] == v0[o1] && v@[k2] == v0[o2]);
                } else if o1 >= 0 {
                    assert(p[k1] == p0[o1]);
                    if o1 >= i {
                        assert(p0[o1] == o1);
                    }
                } else if o2 >= 0 {
                    assert(p[k2] == p0[o2]);
                    if o2 >= i {
                        assert(p0[o2] == o2);
                    }
                    assert(v@[k2] == v0[o2]);
                }
            }
            if all_numeric(s) {
                assert(!cpu_is_nan(x.cpu_bits)) by {
                    assert(s[p0[i as int]] == x);
                }
                assert forall|k1: int, k2: int|
                    0 <= k1 < k2 < i + 1 implies !cpu_above(#[trigger] v@[k2], #[trigger] v@[k1]) by {
                    assert(!cpu_is_nan(v@[k1].cpu_bits)) by {
                        assert(s[p[k1]] == v@[k1]);
                    }
                    assert(!cpu_is_nan(v@[k2].cpu_bits)) by {
                        assert(s[p[k2]] == v@[k2]);
                    }
                    if k1 < j && k2 == j {
                        assert(!cpu_above(x, v0[j - 1]));
                        assert(!cpu_is_nan(v0[j - 1].cpu_bits)) by {
                            assert(s[p0[j - 1]] == v0[j - 1]);
                        }
                        if k1 < j - 1 {
                            assert(!cpu_above(v0[j - 1], v0[k1]));
                        }
                    } else if k1 < j && k2 > j {
                        assert(v@[k2] == v0[k2 - 1]);
                    } else if k1 == j {
                        assert(v@[k2] == v0[k2 - 1]);
                        assert(cpu_above(x, v0[k2 - 1]));
                    } else if k1 > j {
                        assert(v@[k1] == v0[k1 - 1] && v@[k2] == v0[k2 - 1]);
                    }
                }
            }
        }
        i = i + 1;
    }
    assert(is_stable_cpu_arrangement(v@, s, p));
}

} // verus!
