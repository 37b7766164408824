//! Per-owner, per-range liquidity positions.
//!
//! A position is keyed by its owner and its half-open tick range
//! `[lower, upper)`. It records the owner's liquidity contribution and the
//! amounts of both tokens deposited against it; a never-touched position
//! reads as all zeroes. Withdrawal pays out proportionally, by integer floor
//! division, and shrinks the stored amounts by exactly what was paid.

use vstd::prelude::*;
use vstd::arithmetic::div_mod::{lemma_div_is_ordered, lemma_div_multiples_vanish, lemma_div_pos_is_pos};
use vstd::arithmetic::mul::{lemma_mul_inequality, lemma_mul_is_commutative, lemma_mul_nonnegative};
use crate::Address;
use crate::Error;

verus! {

/// One liquidity provider's stake in one tick range.
#[derive(Clone, Copy, Debug, PartialEq, Eq, Structural)]
pub struct Position {
    /// The caller's liquidity contribution active within the range.
    pub liquidity: i128,
    /// The position's recorded claim on token0 units.
    pub token_a_amount: i128,
    /// The position's recorded claim on token1 units.
    pub token_b_amount: i128,
}

/// The mathematical image of a `Position`.
pub struct PositionView {
    pub liquidity: int,
    pub token_a_amount: int,
    pub token_b_amount: int,
}

impl View for Position {
    type V = PositionView;

    open spec fn view(&self) -> PositionView {
        PositionView {
            liquidity: self.liquidity as int,
            token_a_amount: self.token_a_amount as int,
            token_b_amount: self.token_b_amount as int,
        }
    }
}

/// The reading of a position that was never touched.
pub open spec fn zero_position_view() -> PositionView {
    PositionView { liquidity: 0, token_a_amount: 0, token_b_amount: 0 }
}

/// A position never holds negative liquidity or negative amount claims.
pub open spec fn pos_nonneg(p: PositionView) -> bool {
    p.liquidity >= 0 && p.token_a_amount >= 0 && p.token_b_amount >= 0
}

/// A deposit adds the liquidity and both recorded amounts.
pub open spec fn position_deposited(p: PositionView, l: int, amt_a: int, amt_b: int)
    -> PositionView {
    PositionView {
        liquidity: p.liquidity + l,
        token_a_amount: p.token_a_amount + amt_a,
        token_b_amount: p.token_b_amount + amt_b,
    }
}

/// The proportional share `amount * d / held` paid out when withdrawing `d`
/// of `held` liquidity, by integer floor division.
pub open spec fn spec_withdraw_share(amount: int, d: int, held: int) -> int
    recommends
        held > 0,
{
    amount * d / held
}

/// A withdrawal of `d` liquidity removes `d` and the proportional share of
/// both recorded amounts.
pub open spec fn position_withdrawn(p: PositionView, d: int) -> PositionView {
    PositionView {
        liquidity: p.liquidity - d,
        token_a_amount: p.token_a_amount - spec_withdraw_share(p.token_a_amount, d, p.liquidity),
        token_b_amount: p.token_b_amount - spec_withdraw_share(p.token_b_amount, d, p.liquidity),
    }
}

/// The proportional share is between zero and the full recorded amount, and
/// equals the full amount when everything held is withdrawn.
proof fn lemma_withdraw_share_bounds(amount: int, d: int, held: int)
    requires
        amount >= 0,
        0 < d <= held,
    ensures
        0 <= spec_withdraw_share(amount, d, held) <= amount,
        d == held ==> spec_withdraw_share(amount, d, held) == amount,
{
    lemma_mul_nonnegative(amount, d);
    lemma_div_pos_is_pos(amount * d, held);
    lemma_mul_inequality(d, held, amount);
    lemma_mul_is_commutative(d, amount);
    lemma_mul_is_commutative(held, amount);
    lemma_div_is_ordered(amount * d, amount * held, held);
    lemma_div_multiples_vanish(amount, held);
}

impl Position {
    /// The reading of a position that was never touched.
    pub fn zero() -> (r: Position)
        ensures
            r@ == zero_position_view(),
    {
        Position { liquidity: 0, token_a_amount: 0, token_b_amount: 0 }
    }

    /// Record a deposit of `liquidity` against amounts `amt_a` and `amt_b`.
    pub fn deposit(&mut self, liquidity: i128, amt_a: i128, amt_b: i128)
        requires
            old(self)@.liquidity + liquidity <= i128::MAX,
            old(self)@.token_a_amount + amt_a <= i128::MAX,
            old(self)@.token_b_amount + amt_b <= i128::MAX,
            i128::MIN <= old(self)@.liquidity + liquidity,
            i128::MIN <= old(self)@.token_a_amount + amt_a,
            i128::MIN <= old(self)@.token_b_amount + amt_b,
        ensures
            final(self)@ == position_deposited(
                old(self)@,
                liquidity as int,
                amt_a as int,
                amt_b as int,
            ),
    {
        self.liquidity = self.liquidity + liquidity;
        self.token_a_amount = self.token_a_amount + amt_a;
        self.token_b_amount = self.token_b_amount + amt_b;
    }

    /// Withdraw `liquidity` and pay out the proportional share of both
    /// recorded amounts, or refuse the whole withdrawal: `InvalidAmount` for
    /// a non-positive request, `InsufficientLiquidity` when the position
    /// holds less than requested, each leaving the position unchanged.
    pub fn withdraw(&mut self, liquidity: i128) -> (r: Result<(i128, i128), Error>)
        requires
            pos_nonneg(old(self)@),
            0 < liquidity <= old(self)@.liquidity ==> old(self)@.token_a_amount * liquidity
                <= i128::MAX && old(self)@.token_b_amount * liquidity <= i128::MAX,
        ensures
            liquidity <= 0 ==> r == Err::<(i128, i128), Error>(Error::InvalidAmount) && *final(self)
                == *old(self),
            liquidity > 0 && old(self)@.liquidity < liquidity ==> r == Err::<(i128, i128), Error>(
                Error::InsufficientLiquidity,
            ) && *final(self) == *old(self),
            0 < liquidity <= old(self)@.liquidity ==> {
                &&& r matches Ok(out) && out.0 as int == spec_withdraw_share(
                    old(self)@.token_a_amount,
                    liquidity as int,
                    old(self)@.liquidity,
                ) && out.1 as int == spec_withdraw_share(
                    old(self)@.token_b_amount,
                    liquidity as int,
                    old(self)@.liquidity,
                )
                &&& final(self)@ == position_withdrawn(old(self)@, liquidity as int)
                &&& pos_nonneg(final(self)@)
            },
    {
        if liquidity <= 0 {
            return Err(Error::InvalidAmount);
        }
        if self.liquidity < liquidity {
            return Err(Error::InsufficientLiquidity);
        }
        proof {
            lemma_withdraw_share_bounds(self@.token_a_amount, liquidity as int, self@.liquidity);
            lemma_withdraw_share_bounds(self@.token_b_amount, liquidity as int, self@.liquidity);
        }
        let out_a = self.token_a_amount * liquidity / self.liquidity;
        let out_b = self.token_b_amount * liquidity / self.liquidity;
        self.liquidity = self.liquidity - liquidity;
        self.token_a_amount = self.token_a_amount - out_a;
        self.token_b_amount = self.token_b_amount - out_b;
        Ok((out_a, out_b))
    }
}

/// First-match association of a position key with its stored value; zero if
/// absent.
spec fn lookup_position(s: Seq<((Address, i32, i32), Position)>, k: (Address, i32, i32))
    -> PositionView
    decreases s.len(),
{
    if s.len() == 0 {
        zero_position_view()
    } else if s[0].0 == k {
        s[0].1@
    } else {
        lookup_position(s.drop_first(), k)
    }
}

/// The total liquidity recorded across all stored positions.
spec fn sum_liq(s: Seq<((Address, i32, i32), Position)>) -> int
    decreases s.len(),
{
    if s.len() == 0 {
        0
    } else {
        s[0].1@.liquidity + sum_liq(s.drop_first())
    }
}

proof fn lemma_lookup_position_found(
    s: Seq<((Address, i32, i32), Position)>,
    k: (Address, i32, i32),
    i: int,
)
    requires
        0 <= i < s.len(),
        s[i].0 == k,
        forall|j: int| 0 <= j < i ==> (#[trigger] s[j]).0 != k,
    ensures
        lookup_position(s, k) == s[i].1@,
    decreases i,
{
    if i > 0 {
        lemma_lookup_position_found(s.drop_first(), k, i - 1);
    }
}

proof fn lemma_lookup_position_absent(
    s: Seq<((Address, i32, i32), Position)>,
    k: (Address, i32, i32),
)
    requires
        forall|j: int| 0 <= j < s.len() ==> (#[trigger] s[j]).0 != k,
    ensures
        lookup_position(s, k) == zero_position_view(),
    decreases s.len(),
{
    if s.len() > 0 {
        lemma_lookup_position_absent(s.drop_first(), k);
    }
}

proof fn lemma_lookup_position_update_at(
    s: Seq<((Address, i32, i32), Position)>,
    i: int,
    pos: Position,
    u: (Address, i32, i32),
)
    requires
        0 <= i < s.len(),
        forall|j: int| 0 <= j < i ==> (#[trigger] s[j]).0 != s[i].0,
    ensures
        lookup_position(s.update(i, (s[i].0, pos)), u) == if u == s[i].0 {
            pos@
        } else {
            lookup_position(s, u)
        },
    decreases i,
{
    let s2 = s.update(i, (s[i].0, pos));
    if i == 0 {
        assert(s2.drop_first() =~= s.drop_first());
    } else {
        lemma_lookup_position_update_at(s.drop_first(), i - 1, pos, u);
        assert(s2.drop_first() =~= s.drop_first().update(i - 1, (s.drop_first()[i - 1].0, pos)));
        assert(s2[0] == s[0]);
    }
}

proof fn lemma_lookup_position_push_at(
    s: Seq<((Address, i32, i32), Position)>,
    k: (Address, i32, i32),
    pos: Position,
    u: (Address, i32, i32),
)
    requires
        forall|j: int| 0 <= j < s.len() ==> (#[trigger] s[j]).0 != k,
    ensures
        lookup_position(s.push((k, pos)), u) == if u == k {
            pos@
        } else {
            lookup_position(s, u)
        },
    decreases s.len(),
{
    if s.len() == 0 {
        assert(s.push((k, pos)).drop_first() =~= s);
    } else {
        lemma_lookup_position_push_at(s.drop_first(), k, pos, u);
        assert(s.push((k, pos)).drop_first() =~= s.drop_first().push((k, pos)));
        assert(s.push((k, pos))[0] == s[0]);
    }
}

proof fn lemma_sum_update(s: Seq<((Address, i32, i32), Position)>, i: int, pos: Position)
    requires
        0 <= i < s.len(),
    ensures
        sum_liq(s.update(i, (s[i].0, pos))) == sum_liq(s) - s[i].1@.liquidity + pos@.liquidity,
    decreases i,
{
    let s2 = s.update(i, (s[i].0, pos));
    if i == 0 {
        assert(s2.drop_first() =~= s.drop_first());
    } else {
        lemma_sum_update(s.drop_first(), i - 1, pos);
        assert(s2.drop_first() =~= s.drop_first().update(i - 1, (s.drop_first()[i - 1].0, pos)));
        assert(s2[0] == s[0]);
    }
}

proof fn lemma_sum_push(s: Seq<((Address, i32, i32), Position)>, e: ((Address, i32, i32), Position))
    ensures
        sum_liq(s.push(e)) == sum_liq(s) + e.1@.liquidity,
    decreases s.len(),
{
    if s.len() == 0 {
        assert(s.push(e).drop_first() =~= s);
    } else {
        lemma_sum_push(s.drop_first(), e);
        assert(s.push(e).drop_first() =~= s.drop_first().push(e));
        assert(s.push(e)[0] == s[0]);
    }
}

proof fn lemma_sum_lookup_bound(s: Seq<((Address, i32, i32), Position)>, k: (Address, i32, i32))
    requires
        forall|j: int| 0 <= j < s.len() ==> pos_nonneg((#[trigger] s[j]).1@),
    ensures
        sum_liq(s) >= 0,
        sum_liq(s) >= lookup_position(s, k).liquidity,
    decreases s.len(),
{
    if s.len() > 0 {
        lemma_sum_lookup_bound(s.drop_first(), k);
        assert(pos_nonneg(s[0].1@));
    }
}

/// All positions, held as an association list with distinct keys; every key
/// reads as its stored position, or zero when absent.
pub struct PositionLedger {
    entries: Vec<((Address, i32, i32), Position)>,
}

impl View for PositionLedger {
    type V = Map<(Address, i32, i32), PositionView>;

    closed spec fn view(&self) -> Map<(Address, i32, i32), PositionView> {
        Map::new(|k: (Address, i32, i32)| true, |k: (Address, i32, i32)| lookup_position(self.entries@, k))
    }
}

impl PositionLedger {
    /// Stored keys never repeat, and every stored position is non-negative.
    pub closed spec fn wf(&self) -> bool {
        &&& forall|i: int, j: int|
            0 <= i < j < self.entries@.len() ==> (#[trigger] self.entries@[i]).0 != (
            #[trigger] self.entries@[j]).0
        &&& forall|j: int|
            0 <= j < self.entries@.len() ==> pos_nonneg((#[trigger] self.entries@[j]).1@)
    }

    /// The total liquidity recorded across all stored positions.
    pub closed spec fn sum_liquidity(&self) -> int {
        sum_liq(self.entries@)
    }

    /// An empty ledger: every key reads as zero and the total is zero.
    pub fn new() -> (r: PositionLedger)
        ensures
            r.wf(),
            r.sum_liquidity() == 0,
            forall|k: (Address, i32, i32)| #[trigger] r@[k] == zero_position_view(),
    {
        let r = PositionLedger { entries: Vec::new() };
        proof {
            assert forall|k: (Address, i32, i32)| #[trigger] r@[k] == zero_position_view() by {
                assert(lookup_position(r.entries@, k) == zero_position_view());
            }
        }
        r
    }

    /// The total liquidity is at least any one position's share, and never
    /// negative.
    pub proof fn lemma_sum_bounds(&self, owner: Address, lower: i32, upper: i32)
        requires
            self.wf(),
        ensures
            self.sum_liquidity() >= self@[(owner, lower, upper)].liquidity,
            self.sum_liquidity() >= 0,
            self@[(owner, lower, upper)].liquidity >= 0,
            pos_nonneg(self@[(owner, lower, upper)]),
    {
        lemma_sum_lookup_bound(self.entries@, (owner, lower, upper));
        self.lemma_read_nonneg(owner, lower, upper);
    }

    /// Every reading of a well-formed ledger is non-negative.
    pub proof fn lemma_read_nonneg(&self, owner: Address, lower: i32, upper: i32)
        requires
            self.wf(),
        ensures
            pos_nonneg(self@[(owner, lower, upper)]),
    {
        lemma_lookup_nonneg(self.entries@, (owner, lower, upper));
    }

    /// The position stored for `(owner, [lower, upper))`, or all zeroes if
    /// absent.
    pub fn read_position(&self, owner: Address, lower: i32, upper: i32) -> (r: Position)
        ensures
            r@ == self@[(owner, lower, upper)],
    {
        let n = self.entries.len();
        let mut idx: usize = 0;
        while idx < n
            invariant
                n == self.entries@.len(),
                idx <= n,
                forall|j: int|
                    0 <= j < idx ==> (#[trigger] self.entries@[j]).0 != (owner, lower, upper),
            decreases n - idx,
        {
            let key = self.entries[idx].0;
            if key.0 == owner && key.1 == lower && key.2 == upper {
                proof {
                    assert(self.entries@[idx as int].0 == (owner, lower, upper));
                    lemma_lookup_position_found(self.entries@, (owner, lower, upper), idx as int);
                }
                return self.entries[idx].1;
            }
            idx = idx + 1;
        }
        proof {
            lemma_lookup_position_absent(self.entries@, (owner, lower, upper));
        }
        Position::zero()
    }

    /// Upsert the position stored for `(owner, [lower, upper))`.
    pub fn write_position(&mut self, owner: Address, lower: i32, upper: i32, pos: Position)
        requires
            old(self).wf(),
            pos_nonneg(pos@),
        ensures
            final(self).wf(),
            final(self)@ == old(self)@.insert((owner, lower, upper), pos@),
            final(self).sum_liquidity() == old(self).sum_liquidity() - old(self)@[
                (owner, lower, upper)
            ].liquidity + pos@.liquidity,
    {
        let n = self.entries.len();
        let mut idx: usize = 0;
        while idx < n
            invariant
                old(self).wf(),
                pos_nonneg(pos@),
                self.entries == old(self).entries,
                n == self.entries@.len(),
                idx <= n,
                forall|j: int|
                    0 <= j < idx ==> (#[trigger] self.entries@[j]).0 != (owner, lower, upper),
            decreases n - idx,
        {
            let key = self.entries[idx].0;
            if key.0 == owner && key.1 == lower && key.2 == upper {
                self.entries[idx] = ((owner, lower, upper), pos);
                proof {
                    assert(old(self).entries@[idx as int].0 == (owner, lower, upper));
                    assert(self.entries@ =~= old(self).entries@.update(
                        idx as int,
                        (old(self).entries@[idx as int].0, pos),
                    ));
                    assert(forall|k: int|
                        0 <= k < self.entries@.len() ==> (#[trigger] self.entries@[k]).0 == old(
                            self,
                        ).entries@[k].0);
                    assert forall|a: int, b: int|
                        0 <= a < b < self.entries@.len() implies (#[trigger] self.entries@[a]).0
                        != (#[trigger] self.entries@[b]).0 by {
                        assert(0 <= a < b < old(self).entries@.len());
                        assert(old(self).entries@[a].0 != old(self).entries@[b].0);
                    }
                    assert forall|j: int|
                        0 <= j < self.entries@.len() implies pos_nonneg(
                        (#[trigger] self.entries@[j]).1@,
                    ) by {
                        if j != idx as int {
                            assert(self.entries@[j] == old(self).entries@[j]);
                            assert(pos_nonneg(old(self).entries@[j].1@));
                        }
                    }
                    assert forall|u: (Address, i32, i32)| #[trigger] self@[u] == old(self)@.insert(
                        (owner, lower, upper),
                        pos@,
                    )[u] by {
                        lemma_lookup_position_update_at(
                            old(self).entries@,
                            idx as int,
                            pos,
                            u,
                        );
                    }
                    assert(self@ =~= old(self)@.insert((owner, lower, upper), pos@));
                    lemma_sum_update(old(self).entries@, idx as int, pos);
                    lemma_lookup_position_found(
                        old(self).entries@,
                        (owner, lower, upper),
                        idx as int,
                    );
                }
                return;
            }
            idx = idx + 1;
        }
        self.entries.push(((owner, lower, upper), pos));
        proof {
            assert forall|u: (Address, i32, i32)| #[trigger] self@[u] == old(self)@.insert(
                (owner, lower, upper),
                pos@,
            )[u] by {
                lemma_lookup_position_push_at(
                    old(self).entries@,
                    (owner, lower, upper),
                    pos,
                    u,
                );
            }
            assert(self@ =~= old(self)@.insert((owner, lower, upper), pos@));
            lemma_sum_push(old(self).entries@, ((owner, lower, upper), pos));
            lemma_lookup_position_absent(old(self).entries@, (owner, lower, upper));
        }
    }
}

proof fn lemma_lookup_nonneg(s: Seq<((Address, i32, i32), Position)>, k: (Address, i32, i32))
    requires
        forall|j: int| 0 <= j < s.len() ==> pos_nonneg((#[trigger] s[j]).1@),
    ensures
        pos_nonneg(lookup_position(s, k)),
    decreases s.len(),
{
    if s.len() > 0 {
        lemma_lookup_nonneg(s.drop_first(), k);
        assert(pos_nonneg(s[0].1@));
    }
}

} // verus!
