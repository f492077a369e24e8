use fb_ledger::decimal::Dec;
use fb_ledger::pnl::{empty_snapshot, mark_position, position_change, position_summary, MarkOutcome, PositionChange, PositionCostBasis};
use rust_decimal::Decimal;

fn d(m: i64, s: u32) -> Dec {
    Dec::from_small(m, s)
}

fn dec(x: Dec) -> Decimal {
    Decimal::from_i128_with_scale(x.mantissa(), x.scale())
}

fn position(qty: Dec, cost: Dec, cpu: Option<Dec>, last_price: Option<Dec>, version: i64) -> PositionCostBasis {
    PositionCostBasis {
        id: 9,
        tenant_id: 1,
        account_id: 2,
        instrument_id: "AAPL".to_string(),
        quantity: qty,
        cost_basis_total: cost,
        cost_basis_per_unit: cpu,
        total_realized_pnl: d(0, 0),
        total_unrealized_pnl: d(0, 0),
        last_price,
        version,
    }
}

#[test]
fn buy_without_record_opens_one() {
    match position_change(&None, "BUY", d(100, 0), d(1000, 0)).unwrap() {
        PositionChange::Insert { quantity, cost_basis_total, cost_basis_per_unit } => {
            assert_eq!(dec(quantity), Decimal::new(100, 0));
            assert_eq!(dec(cost_basis_total), Decimal::new(1000, 0));
            assert_eq!(dec(cost_basis_per_unit.unwrap()), Decimal::new(10, 0));
        }
        other => panic!("unexpected {:?}", other),
    }
}

#[test]
fn buy_of_zero_quantity_has_no_cost_per_unit() {
    match position_change(&None, "debit", d(0, 0), d(1000, 0)).unwrap() {
        PositionChange::Insert { cost_basis_per_unit, .. } => assert!(cost_basis_per_unit.is_none()),
        other => panic!("unexpected {:?}", other),
    }
}

#[test]
fn sell_without_record_changes_nothing() {
    assert!(matches!(position_change(&None, "SELL", d(1, 0), d(1, 0)).unwrap(), PositionChange::Unchanged));
}

#[test]
fn sell_realizes_gain_at_old_cost() {
    let curr = position(d(100, 0), d(1000, 0), Some(d(10, 0)), Some(d(12, 0)), 3);
    match position_change(&Some(curr), "sell", d(40, 0), d(600, 0)).unwrap() {
        PositionChange::Update { quantity, cost_basis_total, cost_basis_per_unit, total_realized_pnl, total_unrealized_pnl, version } => {
            assert_eq!(dec(quantity), Decimal::new(60, 0));
            assert_eq!(dec(cost_basis_total), Decimal::new(400, 0));
            let cpu = Decimal::new(400, 0) / Decimal::new(60, 0);
            assert_eq!(dec(cost_basis_per_unit.unwrap()), cpu);
            assert_eq!(dec(total_realized_pnl), Decimal::new(200, 0));
            assert_eq!(dec(total_unrealized_pnl), (Decimal::new(12, 0) - cpu) * Decimal::new(60, 0));
            assert_eq!(version, 4);
        }
        other => panic!("unexpected {:?}", other),
    }
}

#[test]
fn buy_adds_to_position_without_realizing() {
    let curr = position(d(100, 0), d(1000, 0), Some(d(10, 0)), None, 0);
    match position_change(&Some(curr), "Buy", d(100, 0), d(1400, 0)).unwrap() {
        PositionChange::Update { quantity, cost_basis_per_unit, total_realized_pnl, total_unrealized_pnl, version, .. } => {
            assert_eq!(dec(quantity), Decimal::new(200, 0));
            assert_eq!(dec(cost_basis_per_unit.unwrap()), Decimal::new(12, 0));
            assert!(total_realized_pnl.is_zero());
            assert_eq!(dec(total_unrealized_pnl), Decimal::new(-2400, 0));
            assert_eq!(version, 1);
        }
        other => panic!("unexpected {:?}", other),
    }
}

#[test]
fn closing_a_position_leaves_no_cost_per_unit_or_unrealized() {
    let curr = position(d(100, 0), d(1000, 0), Some(d(10, 0)), Some(d(15, 0)), 1);
    match position_change(&Some(curr), "SELL", d(100, 0), d(1500, 0)).unwrap() {
        PositionChange::Update { quantity, cost_basis_per_unit, total_unrealized_pnl, total_realized_pnl, .. } => {
            assert!(quantity.is_zero());
            assert!(cost_basis_per_unit.is_none());
            assert!(total_unrealized_pnl.is_zero());
            assert_eq!(dec(total_realized_pnl), Decimal::new(500, 0));
        }
        other => panic!("unexpected {:?}", other),
    }
}

#[test]
fn marking_revalues_position() {
    let pos = position(d(60, 0), d(600, 0), Some(d(10, 0)), None, 5);
    match mark_position(&pos, d(11, 0)).unwrap() {
        MarkOutcome::Marked { last_price, total_unrealized_pnl, version } => {
            assert_eq!(dec(last_price), Decimal::new(11, 0));
            assert_eq!(dec(total_unrealized_pnl), Decimal::new(60, 0));
            assert_eq!(version, 6);
        }
        other => panic!("unexpected {:?}", other),
    }
}

#[test]
fn marking_at_cost_shows_no_unrealized() {
    let pos = position(d(60, 0), d(600, 0), Some(d(100, 1)), None, 0);
    match mark_position(&pos, d(100, 1)).unwrap() {
        MarkOutcome::Marked { total_unrealized_pnl, .. } => assert!(total_unrealized_pnl.is_zero()),
        other => panic!("unexpected {:?}", other),
    }
}

#[test]
fn marking_skips_positions_without_cost() {
    let none = position(d(60, 0), d(0, 0), None, None, 0);
    assert!(matches!(mark_position(&none, d(11, 0)).unwrap(), MarkOutcome::Skipped));
    let zero = position(d(60, 0), d(0, 0), Some(d(0, 2)), None, 0);
    assert!(matches!(mark_position(&zero, d(11, 0)).unwrap(), MarkOutcome::Skipped));
}

#[test]
fn summary_values_at_last_price() {
    let pos = position(d(60, 0), d(600, 0), Some(d(10, 0)), Some(d(1250, 2)), 0);
    let s = position_summary(&pos).unwrap();
    assert_eq!(dec(s.market_value), Decimal::new(750, 0));
    assert_eq!(s.instrument_id, "AAPL");
    let unpriced = position(d(60, 0), d(600, 0), Some(d(10, 0)), None, 0);
    assert!(position_summary(&unpriced).unwrap().market_value.is_zero());
}

#[test]
fn empty_snapshot_is_all_zero() {
    let s = empty_snapshot(3, "ny-eq", 738000, 42);
    assert_eq!(s.id, 0);
    assert_eq!(s.desk, "ny-eq");
    assert_eq!(s.trade_count, 0);
    assert!(s.net_pnl.is_zero() && s.gross_pnl.is_zero() && s.realized_pnl.is_zero());
    assert_eq!(s.updated_at, 42);
    assert!(s.instrument_id.is_none());
}
