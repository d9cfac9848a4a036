use vstd::prelude::*;

verus! {

/// The most entries the traffic history holds.
pub const HISTORY_CAPACITY: usize = 100;

/// Bytes one interface received and sent since the previous refresh.
#[derive(Clone, Copy, Debug, PartialEq, Eq, Structural)]
pub struct InterfaceTraffic {
    pub received: u64,
    pub transmitted: u64,
}

/// Bytes received over all interfaces of `s`.
pub open spec fn total_received(s: Seq<InterfaceTraffic>) -> int
    decreases s.len(),
{
    if s.len() == 0 {
        0
    } else {
        total_received(s.drop_last()) + s.last().received
    }
}

/// Bytes sent over all interfaces of `s`.
pub open spec fn total_transmitted(s: Seq<InterfaceTraffic>) -> int
    decreases s.len(),
{
    if s.len() == 0 {
        0
    } else {
        total_transmitted(s.drop_last()) + s.last().transmitted
    }
}

/// The history after appending `e`: the last `HISTORY_CAPACITY` entries of
/// `h` followed by `e`.
pub open spec fn appended(h: Seq<(u128, u128)>, e: (u128, u128)) -> Seq<(u128, u128)> {
    let g = h.push(e);
    if g.len() > HISTORY_CAPACITY {
        g.subrange(g.len() - HISTORY_CAPACITY, g.len() as int)
    } else {
        g
    }
}

proof fn lemma_totals_bounded(s: Seq<InterfaceTraffic>)
    ensures
        0 <= total_received(s) <= s.len() * u64::MAX,
        0 <= total_transmitted(s) <= s.len() * u64::MAX,
    decreases s.len(),
{
    if s.len() > 0 {
        lemma_totals_bounded(s.drop_last());
    }
}

/// The traffic of one refresh, summed over all interfaces, as
/// (received, transmitted).
pub fn sum_traffic(interfaces: &Vec<InterfaceTraffic>) -> (r: (u128, u128))
    ensures
        r.0 == total_received(interfaces@),
        r.1 == total_transmitted(interfaces@),
{
    let mut rx: u128 = 0;
    let mut tx: u128 = 0;
    let mut i: usize = 0;
    while i < interfaces.len()
        invariant
            0 <= i <= interfaces@.len(),
            rx == total_received(interfaces@.subrange(0, i as int)),
            tx == total_transmitted(interfaces@.subrange(0, i as int)),
        decreases interfaces@.len() - i,
    {
        let ghost pre = interfaces@.subrange(0, i as int);
        let ghost next = interfaces@.subrange(0, i + 1);
        proof {
            assert(next.drop_last() == pre);
            lemma_totals_bounded(pre);
            let len = pre.len();
            assert(len < 0x1_0000_0000_0000_0000);
            assert(len * u64::MAX + u64::MAX <= 0x1_0000_0000_0000_0000 * u64::MAX)
                by (nonlinear_arith)
                requires
                    len < 0x1_0000_0000_0000_0000,
            ;
        }
        rx = rx + interfaces[i].received as u128;
        tx = tx + interfaces[i].transmitted as u128;
        i = i + 1;
    }
    assert(interfaces@.subrange(0, i as int) == interfaces@);
    (rx, tx)
}

/// Appends `e` to the history, dropping entries from the front until at most
/// `HISTORY_CAPACITY` remain.
pub fn push_history(history: &mut Vec<(u128, u128)>, e: (u128, u128))
    ensures
        final(history)@ == appended(old(history)@, e),
        final(history)@.len() <= HISTORY_CAPACITY,
        final(history)@.last() == e,
        old(history)@.len() == HISTORY_CAPACITY ==> final(history)@ == old(history)@.subrange(
            1,
            HISTORY_CAPACITY as int,
        ).push(e),
{
    let ghost g = old(history)@.push(e);
    history.push(e);
    while history.len() > HISTORY_CAPACITY
        invariant
            history@.len() >= 1,
            history@.len() <= g.len(),
            history@ == g.subrange(g.len() - history@.len(), g.len() as int),
            g.len() > HISTORY_CAPACITY ==> history@.len() >= HISTORY_CAPACITY,
            g.len() <= HISTORY_CAPACITY ==> history@.len() == g.len(),
        decreases history@.len(),
    {
        history.remove(0);
    }
    proof {
        if g.len() > HISTORY_CAPACITY {
            assert(history@.len() == HISTORY_CAPACITY);
        } else {
            assert(history@ =~= g);
        }
    }
    assert(history@ == appended(old(history)@, e));
}

/// The top of the traffic chart's scale: the largest count in the history,
/// and never less than 100.
pub fn chart_ceiling(history: &Vec<(u128, u128)>) -> (r: u128)
    ensures
        r >= 100,
        forall|k: int| 0 <= k < history@.len() ==> r >= #[trigger] history@[k].0 && r >= history@[k].1,
        r == 100 || exists|k: int|
            0 <= k < history@.len() && (r == #[trigger] history@[k].0 || r == history@[k].1),
{
    let mut top: u128 = 100;
    let mut i: usize = 0;
    while i < history.len()
        invariant
            0 <= i <= history@.len(),
            top >= 100,
            forall|k: int| 0 <= k < i ==> top >= #[trigger] history@[k].0 && top >= history@[k].1,
            top == 100 || exists|k: int|
                0 <= k < i && (top == #[trigger] history@[k].0 || top == history@[k].1),
        decreases history@.len() - i,
    {
        let (rx, tx) = history[i];
        if rx > top {
            top = rx;
        }
        if tx > top {
            top = tx;
        }
        assert(top >= history@[i as int].0 && top >= history@[i as int].1);
        i = i + 1;
    }
    top
}

} // verus!
