use fb_ledger::decimal::Dec;
use fb_ledger::tax::{compute_tax, default_rates, lot_order, new_lot, plan_consumption, LotOrder, TaxLot};
use rust_decimal::Decimal;

fn d(m: i64, s: u32) -> Dec {
    Dec::from_small(m, s)
}

fn dec(x: Dec) -> Decimal {
    Decimal::from_i128_with_scale(x.mantissa(), x.scale())
}

fn lot(id: u128, acquire_date: i32, remaining: Dec, cpu: Dec) -> TaxLot {
    TaxLot {
        id,
        tenant_id: 1,
        account_id: 2,
        instrument_id: "AAPL".to_string(),
        acquire_date,
        acquire_price: cpu,
        original_quantity: remaining,
        remaining_quantity: remaining,
        cost_basis_total: d(0, 0),
        cost_basis_per_unit: cpu,
        cost_method: "FIFO".to_string(),
        status: "open".to_string(),
        closed_date: None,
        jurisdiction: "US".to_string(),
    }
}

#[test]
fn new_lot_records_cost_basis_and_open_status() {
    let l = new_lot(7, 1, 2, "AAPL", 738000, d(10050, 2), d(10, 0), "FIFO", "US").unwrap();
    assert_eq!(l.id, 7);
    assert_eq!(dec(l.cost_basis_total), Decimal::new(100500, 2));
    assert_eq!(l.cost_basis_total.scale(), 2);
    assert_eq!(dec(l.cost_basis_per_unit), Decimal::new(10050, 2));
    assert_eq!(dec(l.remaining_quantity), Decimal::new(10, 0));
    assert_eq!(l.status, "open");
    assert_eq!(l.closed_date, None);
    assert_eq!(l.jurisdiction, "US");
}

#[test]
fn lot_order_follows_method() {
    assert_eq!(lot_order("LIFO"), LotOrder::NewestFirst);
    assert_eq!(lot_order("HIFO"), LotOrder::HighestCostFirst);
    assert_eq!(lot_order("FIFO"), LotOrder::OldestFirst);
    assert_eq!(lot_order("average"), LotOrder::OldestFirst);
}

#[test]
fn fifo_sale_takes_lots_in_order() {
    let sale_date = 738400;
    let lots = vec![lot(1, sale_date - 400, d(100, 0), d(10, 0)), lot(2, sale_date - 100, d(50, 0), d(12, 0))];
    let steps = plan_consumption(&lots, sale_date, d(120, 0), d(1800, 0), "FIFO").unwrap();
    assert_eq!(steps.len(), 2);
    let unit = Decimal::new(1800, 0) / Decimal::new(120, 0);

    let s0 = &steps[0];
    assert_eq!(s0.lot_index, 0);
    assert_eq!(s0.lot_id, 1);
    assert_eq!(dec(s0.quantity_consumed), Decimal::new(100, 0));
    assert_eq!(dec(s0.cost_basis_consumed), Decimal::new(1000, 0));
    assert_eq!(dec(s0.proceeds), unit * Decimal::new(100, 0));
    assert_eq!(dec(s0.realized_gain), Decimal::new(500, 0));
    assert_eq!(s0.holding_period_days, 400);
    assert_eq!(s0.tax_classification, "LONG_TERM");
    assert!(s0.new_remaining.is_zero());
    assert_eq!(s0.new_status, "closed");
    assert_eq!(s0.closed_date, Some(sale_date));

    let s1 = &steps[1];
    assert_eq!(s1.lot_index, 1);
    assert_eq!(dec(s1.quantity_consumed), Decimal::new(20, 0));
    assert_eq!(dec(s1.cost_basis_consumed), Decimal::new(240, 0));
    assert_eq!(dec(s1.proceeds), Decimal::new(300, 0));
    assert_eq!(dec(s1.realized_gain), Decimal::new(60, 0));
    assert_eq!(s1.holding_period_days, 100);
    assert_eq!(s1.tax_classification, "SHORT_TERM");
    assert_eq!(dec(s1.new_remaining), Decimal::new(30, 0));
    assert_eq!(s1.new_status, "partial");
    assert_eq!(s1.closed_date, None);
}

#[test]
fn sale_stops_once_covered() {
    let lots = vec![lot(1, 10, d(100, 0), d(10, 0)), lot(2, 20, d(50, 0), d(12, 0))];
    let steps = plan_consumption(&lots, 30, d(100, 0), d(1000, 0), "FIFO").unwrap();
    assert_eq!(steps.len(), 1);
    assert_eq!(steps[0].new_status, "closed");
}

#[test]
fn holding_period_is_never_negative() {
    let lots = vec![lot(1, 500, d(10, 0), d(1, 0))];
    let steps = plan_consumption(&lots, 400, d(5, 0), d(10, 0), "FIFO").unwrap();
    assert_eq!(steps[0].holding_period_days, 0);
    assert_eq!(steps[0].tax_classification, "SHORT_TERM");
}

#[test]
fn exactly_365_days_is_long_term() {
    let lots = vec![lot(1, 1000, d(10, 0), d(1, 0))];
    let steps = plan_consumption(&lots, 1365, d(5, 0), d(10, 0), "FIFO").unwrap();
    assert_eq!(steps[0].holding_period_days, 365);
    assert_eq!(steps[0].tax_classification, "LONG_TERM");
}

#[test]
fn average_method_charges_average_cost() {
    let lots = vec![lot(1, 10, d(100, 0), d(10, 0)), lot(2, 20, d(50, 0), d(12, 0))];
    let steps = plan_consumption(&lots, 30, d(120, 0), d(1800, 0), "average").unwrap();
    assert_eq!(steps.len(), 2);
    let avg = Decimal::new(1600, 0) / Decimal::new(150, 0);
    assert_eq!(dec(steps[0].cost_basis_consumed), avg * Decimal::new(100, 0));
    assert_eq!(dec(steps[1].cost_basis_consumed), avg * Decimal::new(20, 0));
    assert_eq!(dec(steps[1].realized_gain), Decimal::new(300, 0) - avg * Decimal::new(20, 0));
}

#[test]
fn average_method_with_nothing_left_takes_nothing() {
    let lots = vec![lot(1, 10, d(0, 0), d(10, 0))];
    let steps = plan_consumption(&lots, 30, d(5, 0), d(50, 0), "average").unwrap();
    assert!(steps.is_empty());
}

#[test]
fn zero_sale_takes_nothing() {
    let lots = vec![lot(1, 10, d(10, 0), d(10, 0))];
    let steps = plan_consumption(&lots, 30, d(0, 0), d(0, 0), "FIFO").unwrap();
    assert!(steps.is_empty());
}

#[test]
fn consumption_never_exceeds_lot_or_sale() {
    let lots = vec![lot(1, 10, d(3, 0), d(10, 0)), lot(2, 20, d(4, 0), d(12, 0)), lot(3, 25, d(9, 0), d(11, 0))];
    let sale = Decimal::new(8, 0);
    let steps = plan_consumption(&lots, 30, d(8, 0), d(80, 0), "LIFO").unwrap();
    let mut left = sale;
    for s in &steps {
        let q = dec(s.quantity_consumed);
        assert!(q <= dec(lots[s.lot_index].remaining_quantity));
        assert!(q <= left);
        left -= q;
    }
    assert_eq!(left, Decimal::ZERO);
}

#[test]
fn tax_at_default_rates() {
    let rates = default_rates();
    assert_eq!(dec(rates.short_term_rate), Decimal::new(37, 2));
    assert_eq!(rates.long_term_rate.scale(), 2);
    let c = compute_tax(d(1000, 0), d(2000, 0), rates, "US").unwrap();
    assert_eq!(dec(c.short_term_tax), Decimal::new(37000, 2));
    assert_eq!(dec(c.long_term_tax), Decimal::new(40000, 2));
    assert_eq!(dec(c.total_gain), Decimal::new(3000, 0));
    assert_eq!(dec(c.total_tax), Decimal::new(77000, 2));
    assert_eq!(dec(c.effective_rate), Decimal::new(2567, 2));
    assert_eq!(c.effective_rate.scale(), 2);
    assert_eq!(c.jurisdiction_code, "US");
}

#[test]
fn tax_without_gain_has_zero_effective_rate() {
    let c = compute_tax(d(0, 0), d(0, 0), default_rates(), "UK").unwrap();
    assert!(c.effective_rate.is_zero());
    assert!(c.total_tax.is_zero());
}
