use fb_ledger::accounts::parse_account_type;
use fb_ledger::faker::{desk_for, sample_transaction, seed_subledger, Faker};
use fb_ledger::output::{cell_value, collect_headers, format_csv, format_table, Cell, OutputFormat, Record};
use fb_ledger::types::{AccountType, DateType, PriceType, QuantityType, SubledgerType};
use rust_decimal::Decimal;

fn rec(fields: Vec<(&str, Cell)>) -> Record {
    Record { fields: Some(fields.into_iter().map(|(k, v)| (k.to_string(), v)).collect()) }
}

#[test]
fn default_format_is_table() {
    assert_eq!(OutputFormat::default(), OutputFormat::Table);
}

#[test]
fn table_of_records() {
    let items = vec![
        rec(vec![("code", Cell::Text("CASH".to_string())), ("balance", Cell::Other("12.5".to_string()))]),
        rec(vec![("code", Cell::Text("TRADING-X".to_string())), ("note", Cell::Null)]),
    ];
    let headers = collect_headers(&items);
    assert_eq!(headers, vec!["code".to_string(), "balance".to_string(), "note".to_string()]);
    assert_eq!(cell_value(&items[1], "note"), "-");
    assert_eq!(cell_value(&items[1], "balance"), "");
    let expected = "\
+-----------+---------+------+
| code      | balance | note |
+===========+=========+======+
| CASH      | 12.5    |      |
| TRADING-X |         | -    |
+-----------+---------+------+
";
    assert_eq!(format_table(&items), expected);
}

#[test]
fn table_edge_cases() {
    assert_eq!(format_table(&Vec::new()), "No results.");
    assert_eq!(format_table(&vec![Record { fields: None }]), "No columns.");
    assert_eq!(format_table(&vec![rec(Vec::new())]), "No columns.");
}

#[test]
fn csv_of_records() {
    let items = vec![
        rec(vec![("a", Cell::Text("x,y".to_string())), ("b", Cell::Other("1".to_string()))]),
        rec(vec![("b", Cell::Null)]),
    ];
    assert_eq!(format_csv(&items).unwrap(), "a,b\n\"x,y\",1\n,-\n");
    assert_eq!(format_csv(&Vec::new()).unwrap(), "");
}

#[test]
fn faker_tables() {
    let f = Faker { tenant_code: "jpmam".to_string() };
    let seeds = f.seed_accounts();
    assert_eq!(seeds.len(), 25);
    assert_eq!(seeds[0].code, "CASH-ny-fi-USD");
    assert_eq!(seeds[18].account_type, AccountType::Expense);
    assert_eq!(seeds[24].account_type, AccountType::Income);
    assert_eq!(seeds[24].subledger_type, Some(SubledgerType::PNL));
    assert_eq!(seed_subledger("OTHER"), None);
    assert_eq!(parse_account_type("INCOME"), AccountType::Income);
    let instruments = f.instruments();
    assert_eq!(instruments.len(), 15);
    assert_eq!(instruments[11].id, "BTC");
    assert_eq!(Decimal::from_i128_with_scale(instruments[0].base_price.mantissa(), instruments[0].base_price.scale()), Decimal::new(9825, 4));
    assert_eq!(f.counterparties()[9], "KRAK");
    assert_eq!(desk_for("BOND"), "ny-fi");
    assert_eq!(desk_for("CRYPTO"), "ny-crypto");
}

#[test]
fn drawn_trades_stay_in_range() {
    let f = Faker { tenant_code: "t".to_string() };
    let instruments = f.instruments();
    for _ in 0..200 {
        let draw = f.draw_trade(&instruments, 10);
        let t = &instruments[draw.instrument].instrument_type;
        let (lo, hi) = match t.as_str() {
            "BOND" => (1_000_000, 50_000_000),
            "EQUITY" => (100, 500_000),
            _ => (1, 100),
        };
        assert!(lo <= draw.quantity && draw.quantity < hi);
        assert!(draw.counterparty < 10);
        assert!((0..10).contains(&draw.price_step));
        assert!((0..30).contains(&draw.days_ago));
    }
}

#[test]
fn sample_trade_attributes() {
    let f = Faker { tenant_code: "t".to_string() };
    let instruments = f.instruments();
    let draw = fb_ledger::faker::TradeDraw { instrument: 3, counterparty: 0, quantity: 250, price_step: 7, days_ago: 3 };
    let tx = sample_transaction(9, &instruments[3], "GSCO", &draw, 738000, 42).unwrap();
    assert_eq!(tx.instrument_id, "AAPL");
    assert_eq!(tx.instrument_type, "EQUITY");
    assert_eq!(tx.idempotency_key, Some(42));
    let price = tx.attributes.get_price(PriceType::Clean).unwrap();
    let expected = (Decimal::new(18550, 2) * (Decimal::new(95, 2) + Decimal::from(7) / Decimal::new(100, 0))).round_dp(4);
    assert_eq!(Decimal::from_i128_with_scale(price.mantissa(), price.scale()), expected);
    assert_eq!(tx.attributes.get_quantity(QuantityType::Traded).unwrap().mantissa(), 250);
    assert_eq!(tx.attributes.get_date(DateType::Trade), Some(737997));
    assert_eq!(tx.attributes.get_string("desk"), Some("ny-eq".to_string()));
    assert_eq!(tx.attributes.get_string("geo"), Some("us-east".to_string()));
}

#[test]
fn csv_header_then_one_line_per_record() {
    let items = vec![
        rec(vec![("a", Cell::Text("x".to_string())), ("b", Cell::Other("1".to_string()))]),
        rec(vec![("a", Cell::Null)]),
    ];
    assert_eq!(format_csv(&items), Some("a,b\nx,1\n-,\n".to_string()));
    // records that are not objects still give one (empty) line each
    let odd = vec![Record { fields: None }, Record { fields: None }];
    assert!(format_csv(&odd).is_some());
}
