//! Position keeping: how a buy or a sell changes an account's position in an
//! instrument (quantity, cost basis, cost per unit, realized and unrealized
//! P&L), how a new price marks a position to market, and what a position
//! summary shows.
use vstd::prelude::*;
use crate::decimal::{
    add_result, difference_is_exact, div_result, exact_difference, exact_product, lemma_units_exact_difference,
    lemma_units_exact_product, lemma_units_exact_sum, mul_result, opt_pair, pair_fits, pair_units, pow10,
    product_is_exact, sub_result, sum_is_exact, Dec,
};
use crate::fees::min_pair;
use crate::text::{eq_ignore_ascii_case, eq_ignoring_ascii_case, owned};

verus! {

/// The cost basis record of a position.
#[derive(Debug, Clone)]
pub struct PositionCostBasis {
    pub id: u128,
    pub tenant_id: u128,
    pub account_id: u128,
    pub instrument_id: String,
    pub quantity: Dec,
    pub cost_basis_total: Dec,
    pub cost_basis_per_unit: Option<Dec>,
    pub total_realized_pnl: Dec,
    pub total_unrealized_pnl: Dec,
    pub last_price: Option<Dec>,
    pub version: i64,
}

/// What a trade does to the position record.
#[derive(Debug, Clone, Copy)]
pub enum PositionChange {
    /// The existing record takes these values and the next version.
    Update {
        quantity: Dec,
        cost_basis_total: Dec,
        cost_basis_per_unit: Option<Dec>,
        total_realized_pnl: Dec,
        total_unrealized_pnl: Dec,
        version: i64,
    },
    /// A new record is opened with these values (no P&L, no price, version 0).
    Insert { quantity: Dec, cost_basis_total: Dec, cost_basis_per_unit: Option<Dec> },
    /// Nothing is recorded (a sell with no position).
    Unchanged,
}

/// What marking a position to a new price does.
#[derive(Debug, Clone, Copy)]
pub enum MarkOutcome {
    /// The position has no cost per unit (or a zero one) and is left alone.
    Skipped,
    /// The position takes the price, this unrealized P&L and the next version.
    Marked { last_price: Dec, total_unrealized_pnl: Dec, version: i64 },
}

/// A position as a summary shows it.
#[derive(Debug, Clone)]
pub struct PositionSummary {
    pub instrument_id: String,
    pub quantity: Dec,
    pub cost_basis_total: Dec,
    pub cost_basis_per_unit: Option<Dec>,
    pub total_realized_pnl: Dec,
    pub total_unrealized_pnl: Dec,
    pub last_price: Option<Dec>,
    pub market_value: Dec,
}

/// The P&L snapshot of a desk on a day.
#[derive(Debug, Clone)]
pub struct PnlSnapshot {
    pub id: u128,
    pub tenant_id: u128,
    pub desk: String,
    pub instrument_id: Option<String>,
    pub snapshot_date: i32,
    pub realized_pnl: Dec,
    pub unrealized_pnl: Dec,
    pub commission_paid: Dec,
    pub fee_paid: Dec,
    pub interest_accrued: Dec,
    pub gross_pnl: Dec,
    pub net_pnl: Dec,
    pub trade_count: i32,
    pub updated_at: i64,
}

/// Whether a side adds to the position: "BUY" or "DEBIT" in any ASCII case.
pub open spec fn is_buy_side(side: Seq<char>) -> bool {
    eq_ignoring_ascii_case(side, "BUY"@) || eq_ignoring_ascii_case(side, "DEBIT"@)
}

/// The pair of an optional decimal, zero when absent.
pub open spec fn or_zero(d: Option<Dec>) -> (int, int) {
    match d {
        Some(x) => x.pair(),
        None => (0, 0),
    }
}

/// The pair of a trade value as it moves the position: as is on a buy, negated
/// on a sell.
pub open spec fn signed(d: Dec, buy: bool) -> (int, int) {
    if buy {
        d.pair()
    } else {
        (-d.pair().0, d.pair().1)
    }
}

/// The cost per unit of a position with quantity `nq` and cost `nc`: none when
/// the quantity is zero.
pub open spec fn cost_per_unit(nq: (int, int), nc: (int, int)) -> Option<(int, int)> {
    if pair_units(nq) != 0 {
        div_result(nc, nq)
    } else {
        None
    }
}

/// The realized P&L after a trade: on a sell out of a long position, the amount
/// less the cost (at the old cost per unit, zero if none) of the part of the
/// sell the position covered is added; otherwise it is unchanged.
pub open spec fn realized_after(curr: PositionCostBasis, buy: bool, quantity: Dec, amount: Dec) -> Option<(int, int)> {
    if !buy && curr.quantity.units() > 0 {
        let sell_qty = min_pair(quantity.pair(), curr.quantity.pair());
        match mul_result(or_zero(curr.cost_basis_per_unit), sell_qty) {
            None => None,
            Some(sell_basis) => match sub_result(amount.pair(), sell_basis) {
                None => None,
                Some(g) => add_result(curr.total_realized_pnl.pair(), g),
            },
        }
    } else {
        Some(curr.total_realized_pnl.pair())
    }
}

/// The unrealized P&L of a position with quantity `nq` and cost per unit `cpu`
/// at the last price (zero if none): (price - cost per unit) times quantity, zero
/// when the quantity or the cost per unit is zero or absent.
pub open spec fn unrealized_at(last_price: Option<Dec>, cpu: Option<(int, int)>, nq: (int, int)) -> Option<(int, int)> {
    if pair_units(nq) != 0 && cpu is Some && pair_units(cpu->0) != 0 {
        match sub_result(or_zero(last_price), cpu->0) {
            None => None,
            Some(d) => mul_result(d, nq),
        }
    } else {
        Some((0, 0))
    }
}

/// Whether the change of an existing position by a trade can be computed.
pub open spec fn update_defined(curr: PositionCostBasis, buy: bool, quantity: Dec, amount: Dec) -> bool {
    &&& add_result(curr.quantity.pair(), signed(quantity, buy)) matches Some(nq)
    &&& add_result(curr.cost_basis_total.pair(), signed(amount, buy)) matches Some(nc)
    &&& (pair_units(nq) != 0 ==> div_result(nc, nq) is Some)
    &&& realized_after(curr, buy, quantity, amount) is Some
    &&& unrealized_at(curr.last_price, cost_per_unit(nq, nc), nq) is Some
    &&& curr.version < i64::MAX
}

/// Whether `ch` is the change of the existing position `curr` by a trade: the
/// quantity and cost move by the trade, the cost per unit, realized and
/// unrealized P&L are as above, and the version goes up by one.
pub open spec fn is_update(ch: PositionChange, curr: PositionCostBasis, buy: bool, quantity: Dec, amount: Dec) -> bool {
    let nq = add_result(curr.quantity.pair(), signed(quantity, buy))->0;
    let nc = add_result(curr.cost_basis_total.pair(), signed(amount, buy))->0;
    let cpu = cost_per_unit(nq, nc);
    match ch {
        PositionChange::Update {
            quantity: q,
            cost_basis_total: c,
            cost_basis_per_unit: u,
            total_realized_pnl: rp,
            total_unrealized_pnl: up,
            version: v,
        } => {
            &&& q.pair() == nq
            &&& c.pair() == nc
            &&& opt_pair(u) == cpu
            &&& rp.pair() == realized_after(curr, buy, quantity, amount)->0
            &&& up.pair() == unrealized_at(curr.last_price, cpu, nq)->0
            &&& v == curr.version + 1
        },
        _ => false,
    }
}

/// The unrealized P&L at the last price, zero when there is none.
fn unrealized(last_price: Option<Dec>, cpu: Option<Dec>, nq: Dec) -> (r: Option<Dec>)
    ensures
        opt_pair(r) == unrealized_at(last_price, opt_pair(cpu), nq.pair()),
{
    proof {
        crate::decimal::lemma_units_sign(nq);
    }
    match cpu {
        Some(c) => {
            proof {
                crate::decimal::lemma_units_sign(c);
            }
            if nq.is_zero() || c.is_zero() {
                return Some(Dec::zero());
            }
            let price = match last_price {
                Some(p) => p,
                None => Dec::zero(),
            };
            match price.checked_sub(&c) {
                Some(d) => d.checked_mul(&nq),
                None => None,
            }
        },
        None => Some(Dec::zero()),
    }
}

/// What a trade on `side` of `quantity` for `amount` does to the position
/// `existing` (none when the account holds no record for the instrument): a buy
/// ("BUY" or "DEBIT", any ASCII case) opens a record where there is none, with the
/// amount as cost and amount over quantity as cost per unit (none for a zero
/// quantity); a sell with no record changes nothing; an existing record is
/// updated as `is_update` says.  `None` where the arithmetic overflows.
pub fn position_change(existing: &Option<PositionCostBasis>, side: &str, quantity: Dec, amount: Dec) -> (r: Option<PositionChange>)
    ensures
        ({
            let buy = is_buy_side(side@);
            match *existing {
                None => if buy {
                    &&& r is Some <==> (quantity.units() != 0 ==> div_result(amount.pair(), quantity.pair()) is Some)
                    &&& r matches Some(ch) ==> (ch matches PositionChange::Insert { quantity: q, cost_basis_total: c, cost_basis_per_unit: u }
                        && q == quantity && c == amount && opt_pair(u) == (if quantity.units() != 0 {
                        div_result(amount.pair(), quantity.pair())
                    } else {
                        None
                    }))
                } else {
                    r == Some(PositionChange::Unchanged)
                },
                Some(curr) => {
                    &&& r is Some <==> update_defined(curr, buy, quantity, amount)
                    &&& r matches Some(ch) ==> is_update(ch, curr, buy, quantity, amount)
                },
            }
        }),
{
    let buy = eq_ignore_ascii_case(side, "BUY") || eq_ignore_ascii_case(side, "DEBIT");
    proof {
        crate::decimal::lemma_units_sign(quantity);
    }
    match existing {
        None => {
            if !buy {
                return Some(PositionChange::Unchanged);
            }
            let cpu = if quantity.is_zero() {
                None
            } else {
                match amount.checked_div(&quantity) {
                    Some(c) => Some(c),
                    None => {
                        return None;
                    },
                }
            };
            Some(PositionChange::Insert { quantity, cost_basis_total: amount, cost_basis_per_unit: cpu })
        },
        Some(curr) => {
            let qty_delta = if buy {
                quantity
            } else {
                quantity.neg()
            };
            let cost_delta = if buy {
                amount
            } else {
                amount.neg()
            };
            let new_qty = match curr.quantity.checked_add(&qty_delta) {
                Some(x) => x,
                None => {
                    return None;
                },
            };
            let new_cost = match curr.cost_basis_total.checked_add(&cost_delta) {
                Some(x) => x,
                None => {
                    return None;
                },
            };
            proof {
                crate::decimal::lemma_units_sign(new_qty);
                crate::decimal::lemma_units_sign(curr.quantity);
            }
            let new_cpu = if new_qty.is_zero() {
                None
            } else {
                match new_cost.checked_div(&new_qty) {
                    Some(c) => Some(c),
                    None => {
                        return None;
                    },
                }
            };
            let mut realized = curr.total_realized_pnl;
            if !buy && curr.quantity.is_positive() {
                let sell_qty = quantity.min(&curr.quantity);
                let cpu_old = match curr.cost_basis_per_unit {
                    Some(c) => c,
                    None => Dec::zero(),
                };
                let sell_basis = match cpu_old.checked_mul(&sell_qty) {
                    Some(x) => x,
                    None => {
                        return None;
                    },
                };
                let gain = match amount.checked_sub(&sell_basis) {
                    Some(x) => x,
                    None => {
                        return None;
                    },
                };
                realized = match realized.checked_add(&gain) {
                    Some(x) => x,
                    None => {
                        return None;
                    },
                };
            }
            let unreal = match unrealized(curr.last_price, new_cpu, new_qty) {
                Some(x) => x,
                None => {
                    return None;
                },
            };
            if curr.version == i64::MAX {
                return None;
            }
            Some(
                PositionChange::Update {
                    quantity: new_qty,
                    cost_basis_total: new_cost,
                    cost_basis_per_unit: new_cpu,
                    total_realized_pnl: realized,
                    total_unrealized_pnl: unreal,
                    version: curr.version + 1,
                },
            )
        },
    }
}

/// Law (flat position): a trade that brings a position's quantity to zero leaves
/// it with no cost per unit and no unrealized P&L.
pub proof fn law_flat_position(ch: PositionChange, curr: PositionCostBasis, buy: bool, quantity: Dec, amount: Dec)
    requires
        update_defined(curr, buy, quantity, amount),
        is_update(ch, curr, buy, quantity, amount),
        pair_units(add_result(curr.quantity.pair(), signed(quantity, buy))->0) == 0,
    ensures
        ch matches PositionChange::Update { cost_basis_per_unit: u, total_unrealized_pnl: up, .. } && u is None
            && up.units() == 0,
{
}

/// What marking `pos` to `price` does: a position with no cost per unit, or a
/// zero one, is skipped; any other takes the price, (price - cost per unit) times
/// its quantity as unrealized P&L, and the next version.  `None` on overflow.
pub fn mark_position(pos: &PositionCostBasis, price: Dec) -> (r: Option<MarkOutcome>)
    ensures
        ({
            match pos.cost_basis_per_unit {
                Some(c) if c.units() != 0 => {
                    &&& r is Some <==> (sub_result(price.pair(), c.pair()) matches Some(d) && mul_result(
                        d,
                        pos.quantity.pair(),
                    ) is Some && pos.version < i64::MAX)
                    &&& r matches Some(m) ==> (m matches MarkOutcome::Marked { last_price: lp, total_unrealized_pnl: u, version: v }
                        && lp == price && u.pair() == mul_result(sub_result(price.pair(), c.pair())->0, pos.quantity.pair())->0
                        && v == pos.version + 1)
                },
                _ => r == Some(MarkOutcome::Skipped),
            }
        }),
{
    let spu = match pos.cost_basis_per_unit {
        Some(c) => c,
        None => {
            return Some(MarkOutcome::Skipped);
        },
    };
    proof {
        crate::decimal::lemma_units_sign(spu);
    }
    if spu.is_zero() {
        return Some(MarkOutcome::Skipped);
    }
    let diff = match price.checked_sub(&spu) {
        Some(x) => x,
        None => {
            return None;
        },
    };
    let unrealized = match diff.checked_mul(&pos.quantity) {
        Some(x) => x,
        None => {
            return None;
        },
    };
    if pos.version == i64::MAX {
        return None;
    }
    Some(MarkOutcome::Marked { last_price: price, total_unrealized_pnl: unrealized, version: pos.version + 1 })
}

/// Law (marking at cost): a position marked at exactly its cost per unit shows
/// no unrealized P&L.
pub proof fn law_mark_at_cost(pos: PositionCostBasis, m: MarkOutcome, c: Dec)
    requires
        crate::decimal::pair_fits(c.pair()),
        pos.cost_basis_per_unit == Some(c),
        c.units() != 0,
        m matches MarkOutcome::Marked { total_unrealized_pnl: u, .. } && u.pair() == mul_result(
            sub_result(c.pair(), c.pair())->0,
            pos.quantity.pair(),
        )->0,
    ensures
        m matches MarkOutcome::Marked { total_unrealized_pnl: u, .. } && u.units() == 0,
{
    let a = c.pair();
    let p = pow10((28 - a.1) as nat);
    assert(a.0 != 0) by {
        assert(a.0 == 0 ==> a.0 * p == 0) by (nonlinear_arith);
    }
    assert(pow10(0) == 1);
    let z = crate::decimal::aligned_difference(a, a);
    assert(a.0 * pow10(0) + (-a.0) * pow10(0) == 0) by (nonlinear_arith)
        requires
            pow10(0) == 1,
    ;
    assert(z == (0int, a.1));
    assert(sub_result(a, a) == Some((0int, a.1)));
    assert(mul_result((0int, a.1), pos.quantity.pair()) == Some((0int, 0int)));
    assert(0 * pow10(28) == 0) by (nonlinear_arith);
}

/// The summary of a position: its values and its market value, the last price
/// (zero if none) times the quantity; `None` where that product overflows.
pub fn position_summary(pos: &PositionCostBasis) -> (r: Option<PositionSummary>)
    ensures
        r is Some <==> mul_result(or_zero(pos.last_price), pos.quantity.pair()) is Some,
        r matches Some(s) ==> {
            &&& s.instrument_id@ == pos.instrument_id@
            &&& s.quantity == pos.quantity
            &&& s.cost_basis_total == pos.cost_basis_total
            &&& s.cost_basis_per_unit == pos.cost_basis_per_unit
            &&& s.total_realized_pnl == pos.total_realized_pnl
            &&& s.total_unrealized_pnl == pos.total_unrealized_pnl
            &&& s.last_price == pos.last_price
            &&& s.market_value.pair() == mul_result(or_zero(pos.last_price), pos.quantity.pair())->0
        },
{
    let price = match pos.last_price {
        Some(p) => p,
        None => Dec::zero(),
    };
    let market_value = match price.checked_mul(&pos.quantity) {
        Some(x) => x,
        None => {
            return None;
        },
    };
    Some(
        PositionSummary {
            instrument_id: pos.instrument_id.clone(),
            quantity: pos.quantity,
            cost_basis_total: pos.cost_basis_total,
            cost_basis_per_unit: pos.cost_basis_per_unit,
            total_realized_pnl: pos.total_realized_pnl,
            total_unrealized_pnl: pos.total_unrealized_pnl,
            last_price: pos.last_price,
            market_value,
        },
    )
}

/// The snapshot reported for a desk and day with nothing on record: all amounts
/// zero, no trades, the nil id, for the whole desk (no instrument).
pub fn empty_snapshot(tenant_id: u128, desk: &str, date: i32, now: i64) -> (r: PnlSnapshot)
    ensures
        r.id == 0,
        r.tenant_id == tenant_id,
        r.desk@ == desk@,
        r.instrument_id is None,
        r.snapshot_date == date,
        r.realized_pnl.pair() == (0int, 0int),
        r.unrealized_pnl.pair() == (0int, 0int),
        r.commission_paid.pair() == (0int, 0int),
        r.fee_paid.pair() == (0int, 0int),
        r.interest_accrued.pair() == (0int, 0int),
        r.gross_pnl.pair() == (0int, 0int),
        r.net_pnl.pair() == (0int, 0int),
        r.trade_count == 0,
        r.updated_at == now,
{
    PnlSnapshot {
        id: 0,
        tenant_id,
        desk: owned(desk),
        instrument_id: None,
        snapshot_date: date,
        realized_pnl: Dec::zero(),
        unrealized_pnl: Dec::zero(),
        commission_paid: Dec::zero(),
        fee_paid: Dec::zero(),
        interest_accrued: Dec::zero(),
        gross_pnl: Dec::zero(),
        net_pnl: Dec::zero(),
        trade_count: 0,
        updated_at: now,
    }
}

/// Law (a sale adds to what was realized): on a sell out of a long position the
/// new realized P&L is the old realized P&L plus the sale amount less the cost,
/// at the old cost per unit (zero if none), of the part of the sale the position
/// covered; P&L already realized is never dropped.  Stated where the product,
/// the difference and the sum are exact (no step rounds).
pub proof fn law_sale_adds_to_realized(curr: PositionCostBasis, quantity: Dec, amount: Dec)
    requires
        curr.quantity.units() > 0,
        pair_fits(curr.quantity.pair()),
        pair_fits(quantity.pair()),
        pair_fits(amount.pair()),
        pair_fits(curr.total_realized_pnl.pair()),
        pair_fits(or_zero(curr.cost_basis_per_unit)),
        product_is_exact(or_zero(curr.cost_basis_per_unit), min_pair(quantity.pair(), curr.quantity.pair())),
        difference_is_exact(
            amount.pair(),
            exact_product(or_zero(curr.cost_basis_per_unit), min_pair(quantity.pair(), curr.quantity.pair())),
        ),
        sum_is_exact(
            curr.total_realized_pnl.pair(),
            exact_difference(
                amount.pair(),
                exact_product(or_zero(curr.cost_basis_per_unit), min_pair(quantity.pair(), curr.quantity.pair())),
            ),
        ),
    ensures
        realized_after(curr, false, quantity, amount) matches Some(r) && pair_units(r) * pow10(28) == (
        curr.total_realized_pnl.units() + amount.units()) * pow10(28) - pair_units(or_zero(curr.cost_basis_per_unit))
            * (if quantity.units() <= curr.quantity.units() {
            quantity.units()
        } else {
            curr.quantity.units()
        }),
{
    let cpu = or_zero(curr.cost_basis_per_unit);
    let sq = min_pair(quantity.pair(), curr.quantity.pair());
    let basis = exact_product(cpu, sq);
    lemma_units_exact_product(cpu, sq);
    lemma_units_exact_difference(amount.pair(), basis);
    let g = exact_difference(amount.pair(), basis);
    lemma_units_exact_sum(curr.total_realized_pnl.pair(), g);
    let r = realized_after(curr, false, quantity, amount)->0;
    let p = pow10(28);
    assert(pair_units(r) * p == (curr.total_realized_pnl.units() + amount.units()) * p - pair_units(basis) * p)
        by (nonlinear_arith)
        requires
            pair_units(r) == curr.total_realized_pnl.units() + pair_units(g),
            pair_units(g) == amount.units() - pair_units(basis),
    ;
}

/// Law (only a sale out of a long position realizes P&L): a buy, or a sale with
/// no long position, leaves the realized P&L as it was.
pub proof fn law_realized_kept_otherwise(curr: PositionCostBasis, buy: bool, quantity: Dec, amount: Dec)
    requires
        buy || curr.quantity.units() <= 0,
    ensures
        realized_after(curr, buy, quantity, amount) == Some(curr.total_realized_pnl.pair()),
{
}

} // verus!
