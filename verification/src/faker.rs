//! Sample data for a demo tenant: the accounts it is seeded with, the
//! instruments and counterparties it trades, and random trades on them.
use vstd::prelude::*;
use crate::accounts::{account_type_of_code, parse_account_type};
use crate::attributes::AttributeBag;
use crate::decimal::{add_result, div_result, mul_result, round_dp_pair, Dec};
use crate::models::RawTransaction;
use crate::text::{owned, str_eq};
use crate::types::{AccountType, DateType, PriceType, QuantityType, SubledgerType};
use rand::Rng;

verus! {

/// Generates sample data for the tenant with this code.
#[derive(Debug, Clone)]
pub struct Faker {
    pub tenant_code: String,
}

/// An account a demo tenant is seeded with.
#[derive(Debug, Clone)]
pub struct AccountSeed {
    pub code: String,
    pub name: String,
    pub account_type: AccountType,
    pub subledger_type: Option<SubledgerType>,
    pub currency: String,
}

/// An instrument the demo trades: its id, type and base price.
#[derive(Debug, Clone)]
pub struct Instrument {
    pub id: String,
    pub instrument_type: String,
    pub base_price: Dec,
}

/// The instruments the demo trades: id, type and base price as a pair.
pub open spec fn instrument_table() -> Seq<(Seq<char>, Seq<char>, (int, int))> {
    seq![
        ("US037833AK99"@, "BOND"@, (9825int, 4int)),
        ("US91282CFW45"@, "BOND"@, (10210int, 4int)),
        ("IBM.GL"@, "BOND"@, (10450int, 4int)),
        ("AAPL"@, "EQUITY"@, (18550int, 2int)),
        ("MSFT"@, "EQUITY"@, (42030int, 2int)),
        ("GOOGL"@, "EQUITY"@, (17520int, 2int)),
        ("JPM"@, "EQUITY"@, (19875int, 2int)),
        ("GS"@, "EQUITY"@, (46530int, 2int)),
        ("TSLA"@, "EQUITY"@, (25010int, 2int)),
        ("NVDA"@, "EQUITY"@, (88045int, 2int)),
        ("SPY"@, "EQUITY"@, (52560int, 2int)),
        ("BTC"@, "CRYPTO"@, (672500int, 1int)),
        ("ETH"@, "CRYPTO"@, (34500int, 1int)),
        ("DOGE"@, "CRYPTO"@, (15int, 2int)),
        ("SOL"@, "CRYPTO"@, (1450int, 1int)),
    ]
}

/// The accounts a demo tenant is seeded with: code, name, type code and
/// subledger code (all in USD).
pub open spec fn seed_table() -> Seq<(Seq<char>, Seq<char>, Seq<char>, Seq<char>)> {
    seq![
        ("CASH-ny-fi-USD"@, "Operating Cash"@, "ASSET"@, "CASH"@),
        ("CASH-ny-eq-USD"@, "Operating Cash"@, "ASSET"@, "CASH"@),
        ("CASH-ny-crypto-USD"@, "Operating Cash"@, "ASSET"@, "CASH"@),
        ("TRADING-ny-fi-US037833AK99"@, "Trading"@, "ASSET"@, "TRADING"@),
        ("TRADING-ny-fi-US91282CFW45"@, "Trading"@, "ASSET"@, "TRADING"@),
        ("TRADING-ny-fi-IBM.GL"@, "Trading"@, "ASSET"@, "TRADING"@),
        ("TRADING-ny-eq-AAPL"@, "Trading"@, "ASSET"@, "TRADING"@),
        ("TRADING-ny-eq-MSFT"@, "Trading"@, "ASSET"@, "TRADING"@),
        ("TRADING-ny-eq-GOOGL"@, "Trading"@, "ASSET"@, "TRADING"@),
        ("TRADING-ny-eq-JPM"@, "Trading"@, "ASSET"@, "TRADING"@),
        ("TRADING-ny-eq-GS"@, "Trading"@, "ASSET"@, "TRADING"@),
        ("TRADING-ny-eq-TSLA"@, "Trading"@, "ASSET"@, "TRADING"@),
        ("TRADING-ny-eq-NVDA"@, "Trading"@, "ASSET"@, "TRADING"@),
        ("TRADING-ny-eq-SPY"@, "Trading"@, "ASSET"@, "TRADING"@),
        ("TRADING-ny-crypto-BTC"@, "Trading"@, "ASSET"@, "TRADING"@),
        ("TRADING-ny-crypto-ETH"@, "Trading"@, "ASSET"@, "TRADING"@),
        ("TRADING-ny-crypto-DOGE"@, "Trading"@, "ASSET"@, "TRADING"@),
        ("TRADING-ny-crypto-SOL"@, "Trading"@, "ASSET"@, "TRADING"@),
        ("PNL-commission-ny-fi"@, "Commission"@, "EXPENSE"@, "PNL"@),
        ("PNL-commission-ny-eq"@, "Commission"@, "EXPENSE"@, "PNL"@),
        ("PNL-commission-ny-crypto"@, "Commission"@, "EXPENSE"@, "PNL"@),
        ("PNL-stamp_duty-ny-eq"@, "Stamp Duty"@, "EXPENSE"@, "PNL"@),
        ("PNL-fee-ny-crypto"@, "Fees"@, "EXPENSE"@, "PNL"@),
        ("PNL-fee-ny-fi"@, "Fees"@, "EXPENSE"@, "PNL"@),
        ("PNL-accrued_interest-ny-fi"@, "Accrued Interest"@, "INCOME"@, "PNL"@),
    ]
}

/// The random choices of one sample trade.
#[derive(Debug, Clone, Copy)]
pub struct TradeDraw {
    /// Position of the instrument in `instruments()`.
    pub instrument: usize,
    /// Position of the counterparty in `counterparties()`.
    pub counterparty: usize,
    /// The traded quantity.
    pub quantity: i64,
    /// The price variation in hundredths above 0.95 (0 to 9).
    pub price_step: i64,
    /// How many days ago the trade was made (0 to 29).
    pub days_ago: i32,
}

/// The subledger a seed code names; none for an unknown code.
pub open spec fn seed_subledger_of(s: Seq<char>) -> Option<SubledgerType> {
    if s == "CASH"@ {
        Some(SubledgerType::Cash)
    } else if s == "TRADING"@ {
        Some(SubledgerType::Trading)
    } else if s == "PNL"@ {
        Some(SubledgerType::PNL)
    } else if s == "SETTLEMENT"@ {
        Some(SubledgerType::Settlement)
    } else if s == "POSITION"@ {
        Some(SubledgerType::Position)
    } else {
        None
    }
}

/// The subledger a seed code names ("CASH", "TRADING", "PNL", "SETTLEMENT",
/// "POSITION"); none for any other code.
pub fn seed_subledger(s: &str) -> (r: Option<SubledgerType>)
    ensures
        r == seed_subledger_of(s@),
{
    if str_eq(s, "CASH") {
        Some(SubledgerType::Cash)
    } else if str_eq(s, "TRADING") {
        Some(SubledgerType::Trading)
    } else if str_eq(s, "PNL") {
        Some(SubledgerType::PNL)
    } else if str_eq(s, "SETTLEMENT") {
        Some(SubledgerType::Settlement)
    } else if str_eq(s, "POSITION") {
        Some(SubledgerType::Position)
    } else {
        None
    }
}

/// One seed account, its type and subledger read from their codes.
fn seed(code: &str, name: &str, type_code: &str, subledger_code: &str, currency: &str) -> (r: AccountSeed)
    ensures
        r.code@ == code@,
        r.name@ == name@,
        r.account_type == account_type_of_code(type_code@),
        r.subledger_type == seed_subledger_of(subledger_code@),
        r.currency@ == currency@,
{
    AccountSeed {
        code: owned(code),
        name: owned(name),
        account_type: parse_account_type(type_code),
        subledger_type: seed_subledger(subledger_code),
        currency: owned(currency),
    }
}

/// The desk of an instrument type: "ny-fi" for bonds, "ny-eq" for equities,
/// "ny-crypto" for anything else.
pub open spec fn desk_of(instrument_type: Seq<char>) -> Seq<char> {
    if instrument_type == "BOND"@ {
        "ny-fi"@
    } else if instrument_type == "EQUITY"@ {
        "ny-eq"@
    } else {
        "ny-crypto"@
    }
}

/// The range quantities of an instrument type are drawn from: bonds 1,000,000
/// to 49,999,999, equities 100 to 499,999, anything else 1 to 99.
pub open spec fn quantity_range(instrument_type: Seq<char>) -> (i64, i64) {
    if instrument_type == "BOND"@ {
        (1_000_000, 50_000_000)
    } else if instrument_type == "EQUITY"@ {
        (100, 500_000)
    } else {
        (1, 100)
    }
}

/// The desk of an instrument type.
pub fn desk_for(instrument_type: &str) -> (r: String)
    ensures
        r@ == desk_of(instrument_type@),
{
    if str_eq(instrument_type, "BOND") {
        owned("ny-fi")
    } else if str_eq(instrument_type, "EQUITY") {
        owned("ny-eq")
    } else {
        owned("ny-crypto")
    }
}

/// The range quantities of an instrument type are drawn from.
fn quantity_range_for(instrument_type: &str) -> (r: (i64, i64))
    ensures
        r == quantity_range(instrument_type@),
{
    if str_eq(instrument_type, "BOND") {
        (1_000_000, 50_000_000)
    } else if str_eq(instrument_type, "EQUITY") {
        (100, 500_000)
    } else {
        (1, 100)
    }
}

fn instrument(id: &str, instrument_type: &str, mantissa: i64, scale: u32) -> (r: Instrument)
    requires
        scale <= 28,
    ensures
        r.id@ == id@,
        r.instrument_type@ == instrument_type@,
        r.base_price.pair() == (mantissa as int, scale as int),
{
    Instrument { id: owned(id), instrument_type: owned(instrument_type), base_price: Dec::from_small(mantissa, scale) }
}

/// `rand`'s thread-local generator drawing uniformly from `lo..hi`; nothing is
/// said of which value comes but that it lies in the range.
#[verifier::external_body]
fn random_in(lo: i64, hi: i64) -> (r: i64)
    requires
        lo < hi,
    ensures
        lo <= r < hi,
{
    rand::thread_rng().gen_range(lo..hi)
}

/// A uniform index below `n`, drawn with `rand`'s thread-local generator.
#[verifier::external_body]
fn random_index(n: usize) -> (r: usize)
    requires
        n > 0,
    ensures
        r < n,
{
    rand::thread_rng().gen_range(0..n)
}

impl Faker {
    /// The accounts a demo tenant is seeded with: cash per desk, a trading
    /// account per instrument, and the commission, stamp duty, fee and accrued
    /// interest P&L accounts, all in USD.
    pub fn seed_accounts(&self) -> (r: Vec<AccountSeed>)
        ensures
            r@.len() == seed_table().len(),
            forall|i: int|
                0 <= i < r@.len() ==> {
                    &&& (#[trigger] r@[i]).code@ == seed_table()[i].0
                    &&& r@[i].name@ == seed_table()[i].1
                    &&& r@[i].account_type == account_type_of_code(seed_table()[i].2)
                    &&& r@[i].subledger_type == seed_subledger_of(seed_table()[i].3)
                    &&& r@[i].currency@ == "USD"@
                },
    {
        let mut v: Vec<AccountSeed> = Vec::new();
        v.push(seed("CASH-ny-fi-USD", "Operating Cash", "ASSET", "CASH", "USD"));
        v.push(seed("CASH-ny-eq-USD", "Operating Cash", "ASSET", "CASH", "USD"));
        v.push(seed("CASH-ny-crypto-USD", "Operating Cash", "ASSET", "CASH", "USD"));
        v.push(seed("TRADING-ny-fi-US037833AK99", "Trading", "ASSET", "TRADING", "USD"));
        v.push(seed("TRADING-ny-fi-US91282CFW45", "Trading", "ASSET", "TRADING", "USD"));
        v.push(seed("TRADING-ny-fi-IBM.GL", "Trading", "ASSET", "TRADING", "USD"));
        v.push(seed("TRADING-ny-eq-AAPL", "Trading", "ASSET", "TRADING", "USD"));
        v.push(seed("TRADING-ny-eq-MSFT", "Trading", "ASSET", "TRADING", "USD"));
        v.push(seed("TRADING-ny-eq-GOOGL", "Trading", "ASSET", "TRADING", "USD"));
        v.push(seed("TRADING-ny-eq-JPM", "Trading", "ASSET", "TRADING", "USD"));
        v.push(seed("TRADING-ny-eq-GS", "Trading", "ASSET", "TRADING", "USD"));
        v.push(seed("TRADING-ny-eq-TSLA", "Trading", "ASSET", "TRADING", "USD"));
        v.push(seed("TRADING-ny-eq-NVDA", "Trading", "ASSET", "TRADING", "USD"));
        v.push(seed("TRADING-ny-eq-SPY", "Trading", "ASSET", "TRADING", "USD"));
        v.push(seed("TRADING-ny-crypto-BTC", "Trading", "ASSET", "TRADING", "USD"));
        v.push(seed("TRADING-ny-crypto-ETH", "Trading", "ASSET", "TRADING", "USD"));
        v.push(seed("TRADING-ny-crypto-DOGE", "Trading", "ASSET", "TRADING", "USD"));
        v.push(seed("TRADING-ny-crypto-SOL", "Trading", "ASSET", "TRADING", "USD"));
        v.push(seed("PNL-commission-ny-fi", "Commission", "EXPENSE", "PNL", "USD"));
        v.push(seed("PNL-commission-ny-eq", "Commission", "EXPENSE", "PNL", "USD"));
        v.push(seed("PNL-commission-ny-crypto", "Commission", "EXPENSE", "PNL", "USD"));
        v.push(seed("PNL-stamp_duty-ny-eq", "Stamp Duty", "EXPENSE", "PNL", "USD"));
        v.push(seed("PNL-fee-ny-crypto", "Fees", "EXPENSE", "PNL", "USD"));
        v.push(seed("PNL-fee-ny-fi", "Fees", "EXPENSE", "PNL", "USD"));
        v.push(seed("PNL-accrued_interest-ny-fi", "Accrued Interest", "INCOME", "PNL", "USD"));
        v
    }

    /// The instruments the demo trades, with their base prices.
    pub fn instruments(&self) -> (r: Vec<Instrument>)
        ensures
            r@.len() == instrument_table().len(),
            forall|i: int|
                0 <= i < r@.len() ==> {
                    &&& (#[trigger] r@[i]).id@ == instrument_table()[i].0
                    &&& r@[i].instrument_type@ == instrument_table()[i].1
                    &&& r@[i].base_price.pair() == instrument_table()[i].2
                },
    {
        let mut v: Vec<Instrument> = Vec::new();
        v.push(instrument("US037833AK99", "BOND", 9825, 4));
        v.push(instrument("US91282CFW45", "BOND", 10210, 4));
        v.push(instrument("IBM.GL", "BOND", 10450, 4));
        v.push(instrument("AAPL", "EQUITY", 18550, 2));
        v.push(instrument("MSFT", "EQUITY", 42030, 2));
        v.push(instrument("GOOGL", "EQUITY", 17520, 2));
        v.push(instrument("JPM", "EQUITY", 19875, 2));
        v.push(instrument("GS", "EQUITY", 46530, 2));
        v.push(instrument("TSLA", "EQUITY", 25010, 2));
        v.push(instrument("NVDA", "EQUITY", 88045, 2));
        v.push(instrument("SPY", "EQUITY", 52560, 2));
        v.push(instrument("BTC", "CRYPTO", 672500, 1));
        v.push(instrument("ETH", "CRYPTO", 34500, 1));
        v.push(instrument("DOGE", "CRYPTO", 15, 2));
        v.push(instrument("SOL", "CRYPTO", 1450, 1));
        v
    }

    /// The counterparties the demo trades with.
    pub fn counterparties(&self) -> (r: Vec<String>)
        ensures
            r@.len() == 10,
            r@[0]@ == "GSCO"@ && r@[1]@ == "BNPP"@ && r@[2]@ == "MSCO"@ && r@[3]@ == "JPM"@ && r@[4]@ == "DBAG"@,
            r@[5]@ == "CITI"@ && r@[6]@ == "BOFA"@ && r@[7]@ == "UBS"@ && r@[8]@ == "COIN"@ && r@[9]@ == "KRAK"@,
    {
        let mut v: Vec<String> = Vec::new();
        v.push(owned("GSCO"));
        v.push(owned("BNPP"));
        v.push(owned("MSCO"));
        v.push(owned("JPM"));
        v.push(owned("DBAG"));
        v.push(owned("CITI"));
        v.push(owned("BOFA"));
        v.push(owned("UBS"));
        v.push(owned("COIN"));
        v.push(owned("KRAK"));
        v
    }

    /// Draws the choices of one sample trade: an instrument, a counterparty, a
    /// quantity in the range of the instrument's type, a price step below 10 and
    /// a trade date less than 30 days back.
    pub fn draw_trade(&self, instruments: &Vec<Instrument>, counterparty_count: usize) -> (r: TradeDraw)
        requires
            instruments@.len() > 0,
            counterparty_count > 0,
        ensures
            r.instrument < instruments@.len(),
            r.counterparty < counterparty_count,
            quantity_range(instruments@[r.instrument as int].instrument_type@).0 <= r.quantity,
            r.quantity < quantity_range(instruments@[r.instrument as int].instrument_type@).1,
            0 <= r.price_step < 10,
            0 <= r.days_ago < 30,
    {
        let k = random_index(instruments.len());
        let cp = random_index(counterparty_count);
        let (lo, hi) = quantity_range_for(instruments[k].instrument_type.as_str());
        let quantity = random_in(lo, hi);
        let price_step = random_in(0, 10);
        let days = random_in(0, 30);
        TradeDraw { instrument: k, counterparty: cp, quantity, price_step, days_ago: days as i32 }
    }
}

/// The price of a sample trade: the base price times 0.95 plus the step in
/// hundredths, rounded to four places.
pub open spec fn sample_price(base: (int, int), step: int) -> Option<(int, int)> {
    match div_result((step, 0), (100, 0)) {
        None => None,
        Some(q) => match add_result((95, 2), q) {
            None => None,
            Some(v) => match mul_result(base, v) {
                None => None,
                Some(p) => Some(round_dp_pair(p, 4)),
            },
        },
    }
}

/// The sample trade of a draw on `instrument` with `counterparty`, made `today`
/// less the draw's days: its traded quantity, its clean price, its trade date,
/// and the counterparty, the instrument type's desk, currency "USD" and geo
/// "us-east" as strings; `None` where the price overflows.
pub fn sample_transaction(
    tenant_id: u128,
    instrument: &Instrument,
    counterparty: &str,
    draw: &TradeDraw,
    today: i32,
    idempotency_key: u128,
) -> (r: Option<RawTransaction>)
    requires
        0 <= draw.days_ago < 30,
        today >= i32::MIN + 30,
    ensures
        r is Some <==> sample_price(instrument.base_price.pair(), draw.price_step as int) is Some,
        r matches Some(tx) ==> {
            &&& tx.tenant_id == tenant_id
            &&& tx.instrument_type@ == instrument.instrument_type@
            &&& tx.instrument_id@ == instrument.id@
            &&& tx.parent_tx_id is None
            &&& tx.root_tx_id is None
            &&& tx.link_type is None
            &&& tx.link_depth == 0
            &&& tx.idempotency_key == Some(idempotency_key)
            &&& tx.metadata is None
            &&& tx.attributes@.quantities.dom() == set![QuantityType::Traded]
            &&& tx.attributes@.quantities[QuantityType::Traded].pair() == (draw.quantity as int, 0int)
            &&& tx.attributes@.prices.dom() == set![PriceType::Clean]
            &&& tx.attributes@.prices[PriceType::Clean].pair() == sample_price(
                instrument.base_price.pair(),
                draw.price_step as int,
            )->0
            &&& tx.attributes@.dates == Map::<DateType, i32>::empty().insert(DateType::Trade, (today - draw.days_ago) as i32)
            &&& tx.attributes@.strings == Map::<Seq<char>, Seq<char>>::empty().insert("counterparty"@, counterparty@).insert(
                "desk"@,
                desk_of(instrument.instrument_type@),
            ).insert("currency"@, "USD"@).insert("geo"@, "us-east"@)
        },
{
    let q = match Dec::from_int(draw.price_step).checked_div(&Dec::from_small(100, 0)) {
        Some(x) => x,
        None => {
            return None;
        },
    };
    let variation = match Dec::from_small(95, 2).checked_add(&q) {
        Some(x) => x,
        None => {
            return None;
        },
    };
    let price = match instrument.base_price.checked_mul(&variation) {
        Some(x) => x,
        None => {
            return None;
        },
    };
    let mut attrs = AttributeBag::new();
    attrs.set_quantity(QuantityType::Traded, Dec::from_int(draw.quantity));
    attrs.set_price(PriceType::Clean, price.round_dp(4));
    attrs.set_date(DateType::Trade, today - draw.days_ago);
    attrs.set_string("counterparty", counterparty);
    let desk = desk_for(instrument.instrument_type.as_str());
    attrs.set_string("desk", desk.as_str());
    attrs.set_string("currency", "USD");
    attrs.set_string("geo", "us-east");
    proof {
        assert(attrs@.prices.dom() =~= set![PriceType::Clean]);
        assert(attrs@.quantities.dom() =~= set![QuantityType::Traded]);
    }
    Some(
        RawTransaction {
            tenant_id,
            instrument_type: instrument.instrument_type.clone(),
            instrument_id: instrument.id.clone(),
            parent_tx_id: None,
            root_tx_id: None,
            link_type: None,
            link_depth: 0,
            attributes: attrs,
            idempotency_key: Some(idempotency_key),
            metadata: None,
        },
    )
}

} // verus!
