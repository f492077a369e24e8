use fb_ledger::decimal::Dec;
use fb_ledger::recon::{reconcile, AccountBalance, PositionBalance};
use rust_decimal::Decimal;

fn d(m: i64, s: u32) -> Dec {
    Dec::from_small(m, s)
}

fn dec(x: Dec) -> Decimal {
    Decimal::from_i128_with_scale(x.mantissa(), x.scale())
}

fn bal(account_id: u128, debit: Dec, credit: Dec, net: Dec) -> AccountBalance {
    AccountBalance { account_id, debit_total: debit, credit_total: credit, net_balance: net }
}

fn pos(account_id: u128, instrument: &str, cost: Dec) -> PositionBalance {
    PositionBalance { account_id, instrument_id: instrument.to_string(), quantity: d(1, 0), cost_basis_total: cost }
}

#[test]
fn reports_each_kind_of_discrepancy() {
    let balances = vec![
        bal(1, d(10000, 2), d(0, 0), d(10000, 2)),
        bal(3, d(50000, 2), d(0, 0), d(50000, 2)),
        bal(4, d(300, 0), d(200, 0), d(100, 0)),
    ];
    let positions = vec![
        pos(2, "XYZ", d(7500, 2)),
        pos(3, "AAPL", d(48000, 2)),
        pos(3, "MSFT", d(1000, 2)),
        pos(4, "GS", d(100, 0)),
        pos(2, "ABC", d(1, 0)),
    ];
    let r = reconcile(11, 738000, &balances, &positions).unwrap();
    assert_eq!(r.tenant_id, 11);
    assert_eq!(r.as_of_date, 738000);
    assert!(!r.passed);
    assert_eq!(r.total_discrepancies, 4);
    let ds = &r.discrepancies;

    assert_eq!(ds[0].account_id, 1);
    assert_eq!(ds[0].source, "journal_entries");
    assert_eq!(ds[0].message, "Account has journal entries (net: 100.00) but no position records");
    assert_eq!(ds[0].instrument_id, None);
    assert_eq!(dec(ds[0].amount_difference), Decimal::new(10000, 2));

    assert_eq!(ds[1].account_id, 2);
    assert_eq!(ds[1].source, "position_cost_basis");
    assert_eq!(ds[1].instrument_id.as_deref(), Some("XYZ"));
    assert_eq!(ds[1].message, "Account has position records but no journal entries");
    assert_eq!(dec(ds[1].amount_difference), Decimal::new(7500, 2));

    assert_eq!(ds[2].account_id, 3);
    assert_eq!(ds[2].source, "balance_mismatch");
    assert_eq!(ds[2].message, "Account will have JE balance 500.00 vs position cost 490.00");
    assert_eq!(dec(ds[2].amount_difference), Decimal::new(1000, 2));

    assert_eq!(ds[3].account_id, 4);
    assert_eq!(ds[3].source, "unbalanced");
    assert_eq!(ds[3].message, "Account has unbalanced journal entries: D=300 C=200 diff=100");
    assert_eq!(dec(ds[3].amount_difference), Decimal::new(100, 0));

    assert_eq!(dec(r.total_difference), Decimal::new(28500, 2));
}

#[test]
fn matching_books_pass() {
    let balances = vec![bal(5, d(1000, 0), d(0, 0), d(1000, 0))];
    let positions = vec![pos(5, "AAPL", d(100001, 2))];
    let r = reconcile(1, 1, &balances, &positions).unwrap();
    assert!(r.passed);
    assert_eq!(r.total_discrepancies, 0);
    assert!(r.discrepancies.is_empty());
    assert!(r.total_difference.is_zero());
}

#[test]
fn difference_just_above_a_cent_is_reported() {
    let balances = vec![bal(5, d(1000, 0), d(0, 0), d(1000, 0))];
    let positions = vec![pos(5, "AAPL", d(99998, 2))];
    let r = reconcile(1, 1, &balances, &positions).unwrap();
    assert_eq!(r.total_discrepancies, 1);
    assert_eq!(dec(r.discrepancies[0].amount_difference), Decimal::new(2, 2));
}

#[test]
fn negative_differences_count_by_magnitude() {
    let balances = vec![bal(1, d(0, 0), d(50, 0), d(-50, 0))];
    let r = reconcile(1, 1, &balances, &Vec::new()).unwrap();
    assert_eq!(dec(r.total_difference), Decimal::new(50, 0));
}

#[test]
fn nothing_to_reconcile_passes() {
    let r = reconcile(1, 1, &Vec::new(), &Vec::new()).unwrap();
    assert!(r.passed);
}
