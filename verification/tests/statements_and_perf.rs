use fb_ledger::decimal::Dec;
use fb_ledger::perf::{net_flow_and_return, twr_without_flows, CashFlow};
use fb_ledger::statements::{generate_position_statement, generate_transaction_statement, PositionStatementRow, TransactionStatementEntry};
use rust_decimal::Decimal;

fn d(m: i64, s: u32) -> Dec {
    Dec::from_small(m, s)
}

fn dec(x: Dec) -> Decimal {
    Decimal::from_i128_with_scale(x.mantissa(), x.scale())
}

fn row(id: &str, qty: Dec, cost: Dec, price: Option<Dec>, realized: Dec, unrealized: Dec) -> PositionStatementRow {
    PositionStatementRow {
        instrument_id: id.to_string(),
        quantity: qty,
        cost_basis_per_unit: None,
        cost_basis_total: cost,
        last_price: price,
        total_realized_pnl: realized,
        total_unrealized_pnl: unrealized,
    }
}

fn entry(side: &str, amount: Dec) -> TransactionStatementEntry {
    TransactionStatementEntry {
        transaction_id: 1,
        entry_sequence: 1,
        value_date: 738000,
        side: side.to_string(),
        amount,
        currency: "USD".to_string(),
        narrative: String::new(),
        instrument_type: "BOND".to_string(),
        instrument_id: "X".to_string(),
    }
}

#[test]
fn position_statement_totals() {
    let rows = vec![
        row("AAPL", d(10, 0), d(1500, 0), Some(d(1600, 1)), d(5, 0), d(100, 0)),
        row("MSFT", d(2, 0), d(800, 0), None, d(-3, 0), d(0, 0)),
    ];
    let st = generate_position_statement(1, 2, 738000, &rows).unwrap();
    assert_eq!(st.positions.len(), 2);
    assert_eq!(dec(st.positions[0].market_value), Decimal::new(1600, 0));
    assert!(st.positions[1].market_value.is_zero());
    assert!(st.positions[1].market_price.is_none());
    assert_eq!(dec(st.total_market_value), Decimal::new(1600, 0));
    assert_eq!(dec(st.total_cost_basis), Decimal::new(2300, 0));
    assert_eq!(dec(st.total_realized_pnl), Decimal::new(2, 0));
    assert_eq!(dec(st.total_unrealized_pnl), Decimal::new(100, 0));
    assert_eq!(st.account_id, 2);
}

#[test]
fn empty_position_statement_is_zero() {
    let st = generate_position_statement(1, 2, 3, &Vec::new()).unwrap();
    assert!(st.positions.is_empty());
    assert!(st.total_market_value.is_zero());
}

#[test]
fn transaction_statement_nets_debits_against_credits() {
    let entries = vec![entry("DEBIT", d(100, 0)), entry("CREDIT", d(30, 0)), entry("DEBIT", d(5, 1)), entry("OTHER", d(7, 0))];
    let st = generate_transaction_statement(1, 2, 10, 20, entries).unwrap();
    assert_eq!(st.entries.len(), 4);
    assert_eq!(dec(st.total_debits), Decimal::new(1005, 1));
    assert_eq!(dec(st.total_credits), Decimal::new(30, 0));
    assert_eq!(dec(st.net_amount), Decimal::new(705, 1));
    assert_eq!(st.from_date, 10);
    assert_eq!(st.to_date, 20);
}

#[test]
fn net_flow_and_simple_return() {
    let flows = vec![CashFlow { date: 1, amount: d(100, 0) }, CashFlow { date: 2, amount: d(-40, 0) }];
    let (ncf, ret) = net_flow_and_return(&flows, d(1000, 0), d(1160, 0)).unwrap();
    assert_eq!(dec(ncf), Decimal::new(60, 0));
    assert_eq!(dec(ret), Decimal::new(1, 1));
}

#[test]
fn return_on_zero_start_is_zero() {
    let (_, ret) = net_flow_and_return(&Vec::new(), d(0, 0), d(500, 0)).unwrap();
    assert!(ret.is_zero());
}

#[test]
fn time_weighted_return_without_flows() {
    let r = twr_without_flows(d(200, 0), d(250, 0)).unwrap().unwrap();
    assert_eq!(dec(r), Decimal::new(25, 2));
    assert!(twr_without_flows(d(0, 0), d(250, 0)).unwrap().is_none());
}
