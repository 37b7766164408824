//! Per-tick liquidity bookkeeping.
//!
//! Every initialized tick carries the total liquidity referencing it as a
//! boundary (`liquidity_gross`) and the signed delta applied to the pool's
//! aggregate liquidity when price crosses it moving upward (`liquidity_net`).
//! A tick that no position references reads as all zeroes; absence is a
//! valid, common state.

use vstd::prelude::*;

verus! {

/// The bookkeeping anchored at one tick boundary.
#[derive(Clone, Copy, Debug, PartialEq, Eq, Structural)]
pub struct TickInfo {
    /// Total liquidity referencing this tick as either boundary.
    pub liquidity_gross: i128,
    /// Delta applied to aggregate liquidity when price crosses this tick
    /// moving upward: a lower boundary contributes `+L`, an upper one `-L`.
    pub liquidity_net: i128,
}

/// The mathematical image of a `TickInfo`.
pub struct TickView {
    pub liquidity_gross: int,
    pub liquidity_net: int,
}

impl View for TickInfo {
    type V = TickView;

    open spec fn view(&self) -> TickView {
        TickView {
            liquidity_gross: self.liquidity_gross as int,
            liquidity_net: self.liquidity_net as int,
        }
    }
}

/// The reading of an uninitialized tick.
pub open spec fn zero_tick_view() -> TickView {
    TickView { liquidity_gross: 0, liquidity_net: 0 }
}

/// A boundary update: `gross` grows by `delta`; `net` grows by `delta` at a
/// lower boundary and shrinks by `delta` at an upper boundary.
pub open spec fn tick_updated(t: TickView, delta: int, upper: bool) -> TickView {
    TickView {
        liquidity_gross: t.liquidity_gross + delta,
        liquidity_net: if upper {
            t.liquidity_net - delta
        } else {
            t.liquidity_net + delta
        },
    }
}

impl TickInfo {
    /// The reading of an uninitialized tick.
    pub fn zero() -> (r: TickInfo)
        ensures
            r@ == zero_tick_view(),
    {
        TickInfo { liquidity_gross: 0, liquidity_net: 0 }
    }

    /// Apply one boundary's share of a liquidity change.
    pub fn apply_delta(&mut self, delta_liquidity: i128, upper: bool)
        requires
            i128::MIN <= old(self)@.liquidity_gross + delta_liquidity <= i128::MAX,
            upper ==> i128::MIN <= old(self)@.liquidity_net - delta_liquidity <= i128::MAX,
            !upper ==> i128::MIN <= old(self)@.liquidity_net + delta_liquidity <= i128::MAX,
        ensures
            final(self)@ == tick_updated(old(self)@, delta_liquidity as int, upper),
    {
        self.liquidity_gross = self.liquidity_gross + delta_liquidity;
        if upper {
            self.liquidity_net = self.liquidity_net - delta_liquidity;
        } else {
            self.liquidity_net = self.liquidity_net + delta_liquidity;
        }
    }
}

/// First-match association of a tick index with its info; zero if absent.
spec fn lookup_tick(s: Seq<(i32, TickInfo)>, t: int) -> TickView
    decreases s.len(),
{
    if s.len() == 0 {
        zero_tick_view()
    } else if s[0].0 as int == t {
        s[0].1@
    } else {
        lookup_tick(s.drop_first(), t)
    }
}

proof fn lemma_lookup_tick_found(s: Seq<(i32, TickInfo)>, t: int, i: int)
    requires
        0 <= i < s.len(),
        s[i].0 as int == t,
        forall|j: int| 0 <= j < i ==> (#[trigger] s[j]).0 as int != t,
    ensures
        lookup_tick(s, t) == s[i].1@,
    decreases i,
{
    if i > 0 {
        lemma_lookup_tick_found(s.drop_first(), t, i - 1);
    }
}

proof fn lemma_lookup_tick_absent(s: Seq<(i32, TickInfo)>, t: int)
    requires
        forall|j: int| 0 <= j < s.len() ==> (#[trigger] s[j]).0 as int != t,
    ensures
        lookup_tick(s, t) == zero_tick_view(),
    decreases s.len(),
{
    if s.len() > 0 {
        lemma_lookup_tick_absent(s.drop_first(), t);
    }
}

proof fn lemma_lookup_tick_update_at(s: Seq<(i32, TickInfo)>, i: int, info: TickInfo, u: int)
    requires
        0 <= i < s.len(),
        forall|j: int| 0 <= j < i ==> (#[trigger] s[j]).0 as int != s[i].0 as int,
    ensures
        lookup_tick(s.update(i, (s[i].0, info)), u) == if u == s[i].0 as int {
            info@
        } else {
            lookup_tick(s, u)
        },
    decreases i,
{
    let s2 = s.update(i, (s[i].0, info));
    if i == 0 {
        assert(s2.drop_first() =~= s.drop_first());
    } else {
        lemma_lookup_tick_update_at(s.drop_first(), i - 1, info, u);
        assert(s2.drop_first() =~= s.drop_first().update(
            i - 1,
            (s.drop_first()[i - 1].0, info),
        ));
        assert(s2[0] == s[0]);
    }
}

proof fn lemma_lookup_tick_push_at(s: Seq<(i32, TickInfo)>, tick: i32, info: TickInfo, u: int)
    requires
        forall|j: int| 0 <= j < s.len() ==> (#[trigger] s[j]).0 as int != tick as int,
    ensures
        lookup_tick(s.push((tick, info)), u) == if u == tick as int {
            info@
        } else {
            lookup_tick(s, u)
        },
    decreases s.len(),
{
    if s.len() == 0 {
        assert(s.push((tick, info)).drop_first() =~= s);
    } else {
        lemma_lookup_tick_push_at(s.drop_first(), tick, info, u);
        assert(s.push((tick, info)).drop_first() =~= s.drop_first().push((tick, info)));
        assert(s.push((tick, info))[0] == s[0]);
    }
}

proof fn lemma_lookup_tick_bounded(s: Seq<(i32, TickInfo)>, t: int)
    ensures
        i128::MIN <= lookup_tick(s, t).liquidity_gross <= i128::MAX,
        i128::MIN <= lookup_tick(s, t).liquidity_net <= i128::MAX,
    decreases s.len(),
{
    if s.len() > 0 {
        lemma_lookup_tick_bounded(s.drop_first(), t);
    }
}

/// The set of initialized ticks, held as an association list with distinct
/// keys; every tick index reads as its stored info, or zero when absent.
pub struct TickRegistry {
    entries: Vec<(i32, TickInfo)>,
}

impl View for TickRegistry {
    type V = Map<int, TickView>;

    closed spec fn view(&self) -> Map<int, TickView> {
        Map::new(|t: int| true, |t: int| lookup_tick(self.entries@, t))
    }
}

impl TickRegistry {
    /// Stored tick indices never repeat.
    pub closed spec fn wf(&self) -> bool {
        forall|i: int, j: int|
            0 <= i < j < self.entries@.len() ==> (#[trigger] self.entries@[i]).0 != (
            #[trigger] self.entries@[j]).0
    }

    /// An empty registry: every tick reads as zero.
    pub fn new() -> (r: TickRegistry)
        ensures
            r.wf(),
            forall|t: int| #[trigger] r@[t] == zero_tick_view(),
    {
        let r = TickRegistry { entries: Vec::new() };
        proof {
            assert forall|t: int| #[trigger] r@[t] == zero_tick_view() by {
                assert(lookup_tick(r.entries@, t) == zero_tick_view());
            }
        }
        r
    }

    /// Every reading of the registry fits the stored integer width.
    pub proof fn lemma_view_bounded(&self, t: int)
        ensures
            i128::MIN <= self@[t].liquidity_gross <= i128::MAX,
            i128::MIN <= self@[t].liquidity_net <= i128::MAX,
    {
        lemma_lookup_tick_bounded(self.entries@, t);
    }

    /// The info stored at `tick`, or all zeroes if the tick is uninitialized.
    pub fn read_tick_info(&self, tick: i32) -> (r: TickInfo)
        ensures
            r@ == self@[tick as int],
    {
        let n = self.entries.len();
        let mut idx: usize = 0;
        while idx < n
            invariant
                n == self.entries@.len(),
                idx <= n,
                forall|j: int| 0 <= j < idx ==> (#[trigger] self.entries@[j]).0 as int != tick as int,
            decreases n - idx,
        {
            if self.entries[idx].0 == tick {
                proof {
                    lemma_lookup_tick_found(self.entries@, tick as int, idx as int);
                }
                return self.entries[idx].1;
            }
            idx = idx + 1;
        }
        proof {
            lemma_lookup_tick_absent(self.entries@, tick as int);
        }
        TickInfo::zero()
    }

    /// Upsert the info stored at `tick`.
    pub fn write_tick_info(&mut self, tick: i32, info: TickInfo)
        requires
            old(self).wf(),
        ensures
            final(self).wf(),
            final(self)@ == old(self)@.insert(tick as int, info@),
    {
        let n = self.entries.len();
        let mut idx: usize = 0;
        while idx < n
            invariant
                old(self).wf(),
                self.entries == old(self).entries,
                n == self.entries@.len(),
                idx <= n,
                forall|j: int| 0 <= j < idx ==> (#[trigger] self.entries@[j]).0 as int != tick as int,
            decreases n - idx,
        {
            if self.entries[idx].0 == tick {
                self.entries[idx] = (tick, info);
                proof {
                    assert(self.entries@ =~= old(self).entries@.update(
                        idx as int,
                        (old(self).entries@[idx as int].0, info),
                    ));
                    assert(forall|k: int|
                        0 <= k < self.entries@.len() ==> (#[trigger] self.entries@[k]).0 == old(
                            self,
                        ).entries@[k].0);
                    assert forall|a: int, b: int|
                        0 <= a < b < self.entries@.len() implies (#[trigger] self.entries@[a]).0
                        != (#[trigger] self.entries@[b]).0 by {
                        assert(0 <= a < b < old(self).entries@.len());
                        assert(old(self).entries@[a].0 != old(self).entries@[b].0);
                    }
                    assert forall|u: int| #[trigger] self@[u] == old(self)@.insert(
                        tick as int,
                        info@,
                    )[u] by {
                        lemma_lookup_tick_update_at(old(self).entries@, idx as int, info, u);
                    }
                    assert(self@ =~= old(self)@.insert(tick as int, info@));
                }
                return;
            }
            idx = idx + 1;
        }
        self.entries.push((tick, info));
        proof {
            assert forall|u: int| #[trigger] self@[u] == old(self)@.insert(
                tick as int,
                info@,
            )[u] by {
                lemma_lookup_tick_push_at(old(self).entries@, tick, info, u);
            }
            assert(self@ =~= old(self)@.insert(tick as int, info@));
        }
    }

    /// Apply one boundary's share of a liquidity change at `tick`:
    /// `gross += delta`, and `net += delta` at a lower boundary or
    /// `net -= delta` at an upper one.
    pub fn update_tick(&mut self, tick: i32, delta_liquidity: i128, upper: bool)
        requires
            old(self).wf(),
            i128::MIN <= old(self)@[tick as int].liquidity_gross + delta_liquidity <= i128::MAX,
            upper ==> i128::MIN <= old(self)@[tick as int].liquidity_net - delta_liquidity
                <= i128::MAX,
            !upper ==> i128::MIN <= old(self)@[tick as int].liquidity_net + delta_liquidity
                <= i128::MAX,
        ensures
            final(self).wf(),
            final(self)@ == old(self)@.insert(
                tick as int,
                tick_updated(old(self)@[tick as int], delta_liquidity as int, upper),
            ),
    {
        let mut info = self.read_tick_info(tick);
        info.apply_delta(delta_liquidity, upper);
        self.write_tick_info(tick, info);
    }
}

/// The tick one spacing away in the direction of travel: downward when
/// `zero_for_one` (price decreasing), upward otherwise.
pub open spec fn spec_next_tick(t: int, spacing: int, zero_for_one: bool) -> int {
    if zero_for_one {
        t - spacing
    } else {
        t + spacing
    }
}

/// The next tick boundary consulted by the swap loop. This version does not
/// consult an initialized-tick index: it steps one spacing in the direction
/// of travel unconditionally.
pub fn find_next_initialized_tick(current_tick: i32, tick_spacing: i32, zero_for_one: bool) -> (r:
    i32)
    requires
        i32::MIN <= spec_next_tick(current_tick as int, tick_spacing as int, zero_for_one)
            <= i32::MAX,
    ensures
        r as int == spec_next_tick(current_tick as int, tick_spacing as int, zero_for_one),
{
    if zero_for_one {
        current_tick - tick_spacing
    } else {
        current_tick + tick_spacing
    }
}

} // verus!
