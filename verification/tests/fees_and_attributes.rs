use fb_ledger::attributes::AttributeBag;
use fb_ledger::decimal::Dec;
use fb_ledger::errors::FbError;
use fb_ledger::fees::{compute_fee_amount, checked_compute_fee_amount, fee_tenant, fee_items, to_child_transactions, FeeConfig, FeeSchedule, Tier, TierConfig};
use fb_ledger::models::Transaction;
use fb_ledger::types::{AmountType, QuantityType, TransactionStatus};
use rust_decimal::Decimal;

fn d(m: i64, s: u32) -> Dec {
    Dec::from_small(m, s)
}

fn dec(x: Dec) -> Decimal {
    Decimal::from_i128_with_scale(x.mantissa(), x.scale())
}

fn schedule(code: &str, method: &str, rate: Option<&str>, min: Option<Dec>, max: Option<Dec>) -> FeeSchedule {
    FeeSchedule {
        id: 1,
        tenant_id: 2,
        fee_code: code.to_string(),
        fee_name: format!("{} fee", code),
        fee_type: "TRADE".to_string(),
        fee_category: "EXCHANGE".to_string(),
        instrument_type: None,
        market_code: None,
        counterparty: None,
        calc_method: method.to_string(),
        calc_config: FeeConfig { rate: rate.map(|r| r.to_string()), units: None, tiers: None },
        min_amount: min,
        max_amount: max,
        currency: "USD".to_string(),
        priority: 1,
        status: "active".to_string(),
        metadata: "{}".to_string(),
        created_at: 0,
    }
}

#[test]
fn fee_methods() {
    let basis = d(200000, 0);
    assert_eq!(dec(compute_fee_amount(&schedule("F", "flat", Some("25.50"), None, None), basis)), Decimal::new(2550, 2));
    assert_eq!(dec(compute_fee_amount(&schedule("P", "percentage", Some("0.1"), None, None), basis)), Decimal::new(200, 0));
    assert_eq!(dec(compute_fee_amount(&schedule("B", "bps", Some("5"), None, None), basis)), Decimal::new(100, 0));
    assert_eq!(dec(compute_fee_amount(&schedule("C", "contract", Some("2"), None, None), basis)), Decimal::new(4000, 0));
    assert!(compute_fee_amount(&schedule("U", "unknown", Some("2"), None, None), basis).is_zero());
    assert!(compute_fee_amount(&schedule("N", "flat", Some("not a number"), None, None), basis).is_zero());
    let mut per_unit = schedule("U", "per_unit", Some("0.02"), None, None);
    per_unit.calc_config.units = Some("500".to_string());
    assert_eq!(dec(compute_fee_amount(&per_unit, basis)), Decimal::new(10, 0));
    per_unit.calc_config.units = None;
    assert_eq!(dec(compute_fee_amount(&per_unit, basis)), Decimal::new(2, 2));
}

#[test]
fn fee_is_clamped_to_minimum_and_maximum() {
    let basis = d(1000, 0);
    let low = schedule("P", "percentage", Some("0.1"), Some(d(5, 0)), Some(d(50, 0)));
    assert_eq!(dec(compute_fee_amount(&low, basis)), Decimal::new(5, 0));
    let high = schedule("P", "percentage", Some("10"), Some(d(5, 0)), Some(d(50, 0)));
    assert_eq!(dec(compute_fee_amount(&high, basis)), Decimal::new(50, 0));
    assert!(checked_compute_fee_amount(&high, basis).is_some());
}

#[test]
fn tiered_fee_charges_each_band() {
    let mut s = schedule("T", "tiered", None, None, None);
    s.calc_config.tiers = Some(TierConfig {
        tiers: vec![
            Tier { from_amount: d(0, 0), to: Some(d(1000, 0)), rate: d(1, 0) },
            Tier { from_amount: d(1000, 0), to: Some(d(5000, 0)), rate: d(5, 1) },
            Tier { from_amount: d(5000, 0), to: None, rate: d(1, 1) },
        ],
    });
    // 1000 at 1% + 4000 at 0.5% + 1000 at 0.1% = 10 + 20 + 1
    assert_eq!(dec(compute_fee_amount(&s, d(6000, 0))), Decimal::new(31, 0));
    assert_eq!(dec(compute_fee_amount(&s, d(500, 0))), Decimal::new(5, 0));
    let mut none = schedule("T", "tiered", None, None, None);
    none.calc_config.tiers = None;
    assert!(compute_fee_amount(&none, d(6000, 0)).is_zero());
}

#[test]
fn fee_items_keep_positive_fees_in_order() {
    let schedules = vec![
        schedule("A", "flat", Some("3"), None, None),
        schedule("Z", "flat", Some("0"), None, None),
        schedule("B", "bps", Some("10"), None, None),
    ];
    let items = fee_items(&schedules, d(10000, 0)).unwrap();
    assert_eq!(items.len(), 2);
    assert_eq!(items[0].fee_code, "A");
    assert_eq!(dec(items[0].fee_amount), Decimal::new(3, 0));
    assert_eq!(items[1].fee_code, "B");
    assert_eq!(dec(items[1].fee_amount), Decimal::new(10, 0));
    assert_eq!(items[1].fee_name, "B fee");
    assert_eq!(items[1].currency, "USD");
}

#[test]
fn fee_children_link_to_parent() {
    let schedules = vec![schedule("SEC", "flat", Some("1.25"), None, None)];
    let items = fee_items(&schedules, d(1, 0)).unwrap();
    let parent = Transaction {
        id: 100,
        tenant_id: 5,
        instrument_type: "BOND".to_string(),
        instrument_id: "X".to_string(),
        parent_tx_id: None,
        root_tx_id: 100,
        link_type: None,
        link_depth: 0,
        input_attributes: AttributeBag::new(),
        derived_attributes: None,
        enricher_name: "bond_trade".to_string(),
        enricher_version: "1.0.0".to_string(),
        contract_version: None,
        status: TransactionStatus::Validated,
        idempotency_key: None,
        error_reason: None,
        metadata: None,
        created_at: 0,
        posted_at: None,
    };
    let kids = to_child_transactions(&items, &parent, &vec![201], 9);
    assert_eq!(kids.len(), 1);
    let k = &kids[0];
    assert_eq!(k.id, 201);
    assert_eq!(k.instrument_type, "FEE");
    assert_eq!(k.instrument_id, "FEE-SEC");
    assert_eq!(k.parent_tx_id, Some(100));
    assert_eq!(k.root_tx_id, 100);
    assert_eq!(k.link_type.as_deref(), Some("FEE"));
    assert_eq!(k.link_depth, 1);
    assert_eq!(k.status, TransactionStatus::Submitted);
    assert_eq!(k.enricher_name, "fee_engine");
    assert_eq!(dec(k.input_attributes.get_amount(AmountType::Fee).unwrap()), Decimal::new(125, 2));
    assert_eq!(k.input_attributes.get_string("instrument_type"), Some("BOND".to_string()));
    assert_eq!(k.created_at, 9);
}

#[test]
fn attribute_bag_last_write_wins_and_merge_prefers_derived() {
    let mut a = AttributeBag::new();
    a.set_quantity(QuantityType::Traded, d(1, 0));
    a.set_quantity(QuantityType::Traded, d(2, 0));
    a.set_string("desk", "ny-fi");
    assert_eq!(dec(a.get_quantity(QuantityType::Traded).unwrap()), Decimal::new(2, 0));
    let mut b = AttributeBag::new();
    b.set_string("desk", "ny-eq");
    b.set_enum("kind", "X");
    let m = a.merge(&b);
    assert_eq!(m.get_string("desk"), Some("ny-eq".to_string()));
    assert_eq!(m.get_enum("kind"), Some("X".to_string()));
    assert_eq!(dec(m.get_quantity(QuantityType::Traded).unwrap()), Decimal::new(2, 0));
    assert_eq!(m.get_string("missing"), None);
    let copy = a.duplicate();
    assert_eq!(copy.get_string("desk"), Some("ny-fi".to_string()));
}

#[test]
fn fee_tenant_reads_a_uuid() {
    assert_eq!(
        fee_tenant("67e55044-10b1-426f-9247-bb680e5fe0c8").unwrap(),
        0x67e5504410b1426f9247bb680e5fe0c8u128
    );
    match fee_tenant("not-a-uuid") {
        Err(FbError::PipelineError { stage, tx_id, reason }) => {
            assert_eq!(stage, "FEE");
            assert_eq!(tx_id, "parse");
            assert!(!reason.is_empty());
        }
        other => panic!("unexpected {:?}", other),
    }
}

#[test]
fn tiered_fee_grows_with_the_basis() {
    let mut s = schedule("T", "tiered", None, None, None);
    s.calc_config.tiers = Some(TierConfig {
        tiers: vec![
            Tier { from_amount: d(0, 0), to: Some(d(1000, 0)), rate: d(1, 0) },
            Tier { from_amount: d(1000, 0), to: Some(d(5000, 0)), rate: d(5, 1) },
            Tier { from_amount: d(5000, 0), to: None, rate: d(1, 1) },
        ],
    });
    let mut last = Decimal::ZERO;
    for basis in [0i64, 1, 999, 1000, 1001, 4999, 5000, 5001, 12345, 100000] {
        let fee = dec(compute_fee_amount(&s, d(basis, 0)));
        assert!(fee >= last, "fee fell at basis {}", basis);
        last = fee;
    }
    // exact quotients: 1000 at 1% plus 234.5 at 0.5% is 10 + 1.1725
    assert_eq!(dec(compute_fee_amount(&s, d(12345, 1))), Decimal::new(111725, 4));
}
