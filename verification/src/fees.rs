//! Fee schedules: how much a schedule charges on a basis amount (flat, percentage,
//! basis points, per unit, tiered bands, contract rate; clamped to a minimum and
//! maximum), the fee items of a transaction and the child transactions that
//! carry them.
use vstd::prelude::*;
use crate::attributes::{lookup, AttributeBag};
use crate::decimal::{
    add_result, decimal_from_text, difference_is_exact, div_result, exact_difference, exact_product, exact_sum,
    lemma_divide_by_hundred, lemma_units_exact_difference, lemma_units_exact_product, lemma_units_exact_sum,
    lemma_pow10_positive, mul_result, pair_fits, pair_units, pow10, product_is_exact, sub_result, sum_is_exact, Dec,
};
use crate::accounts::{parse_uuid, uuid_parsed};
use crate::errors::{is_pipeline_error, FbError};
use crate::models::{FeeItem, Transaction};
use crate::text::{owned, str_eq};
use crate::types::{AmountType, TransactionStatus};

verus! {

/// One band of a tiered fee: from `from_amount` up to `to` (open-ended when
/// absent), charged at `rate` percent.
#[derive(Debug, Clone, Copy)]
pub struct Tier {
    pub from_amount: Dec,
    pub to: Option<Dec>,
    pub rate: Dec,
}

/// The bands of a tiered fee.
#[derive(Debug, Clone)]
pub struct TierConfig {
    pub tiers: Vec<Tier>,
}

/// The calculation parameters of a fee schedule: the "rate" and "units" texts of
/// its configuration (when they are texts) and its tier configuration (when the
/// configuration reads as one).
#[derive(Debug, Clone)]
pub struct FeeConfig {
    pub rate: Option<String>,
    pub units: Option<String>,
    pub tiers: Option<TierConfig>,
}

/// A fee schedule of a tenant.
#[derive(Debug, Clone)]
pub struct FeeSchedule {
    pub id: u128,
    pub tenant_id: u128,
    pub fee_code: String,
    pub fee_name: String,
    pub fee_type: String,
    pub fee_category: String,
    pub instrument_type: Option<String>,
    pub market_code: Option<String>,
    pub counterparty: Option<String>,
    pub calc_method: String,
    pub calc_config: FeeConfig,
    pub min_amount: Option<Dec>,
    pub max_amount: Option<Dec>,
    pub currency: String,
    pub priority: i32,
    pub status: String,
    pub metadata: String,
    pub created_at: i64,
}

/// A configuration text read as a decimal, or `default` when absent or unreadable.
pub open spec fn parsed_or(text: Option<String>, default: (int, int)) -> (int, int) {
    match text {
        Some(t) => match decimal_from_text(t@) {
            Some(p) => p,
            None => default,
        },
        None => default,
    }
}

/// `a * b / d`, each step with `rust_decimal`'s arithmetic.
pub open spec fn scaled(a: (int, int), b: (int, int), d: (int, int)) -> Option<(int, int)> {
    match mul_result(a, b) {
        Some(x) => div_result(x, d),
        None => None,
    }
}

/// The smaller of two pairs by value, the first when equal.
pub open spec fn min_pair(a: (int, int), b: (int, int)) -> (int, int) {
    if pair_units(b) < pair_units(a) {
        b
    } else {
        a
    }
}

/// The total of the tiered bands from band `i` on, with `remaining` of the basis
/// still to charge and `total` charged so far; `None` on overflow.
pub open spec fn tiered_from(tiers: Seq<Tier>, i: int, remaining: (int, int), total: (int, int)) -> Option<(int, int)>
    decreases tiers.len() - i,
{
    if i < 0 || i >= tiers.len() || pair_units(remaining) <= 0 {
        Some(total)
    } else {
        let t = tiers[i];
        let band = match t.to {
            Some(hi) => match sub_result(hi.pair(), t.from_amount.pair()) {
                Some(w) => Some(min_pair(w, remaining)),
                None => None,
            },
            None => Some(remaining),
        };
        match band {
            None => None,
            Some(b) => if pair_units(b) <= 0 {
                tiered_from(tiers, i + 1, remaining, total)
            } else {
                match scaled(b, t.rate.pair(), (100, 0)) {
                    None => None,
                    Some(charge) => match add_result(total, charge) {
                        None => None,
                        Some(nt) => match sub_result(remaining, b) {
                            None => None,
                            Some(nr) => tiered_from(tiers, i + 1, nr, nt),
                        },
                    },
                }
            },
        }
    }
}

/// The fee before clamping, by calculation method; `None` on overflow.
pub open spec fn raw_fee(s: FeeSchedule, basis: (int, int)) -> Option<(int, int)> {
    let m = s.calc_method@;
    let cfg = s.calc_config;
    if m == "flat"@ {
        Some(parsed_or(cfg.rate, (0, 0)))
    } else if m == "percentage"@ {
        scaled(basis, parsed_or(cfg.rate, (0, 0)), (100, 0))
    } else if m == "bps"@ {
        scaled(basis, parsed_or(cfg.rate, (0, 0)), (10000, 0))
    } else if m == "per_unit"@ {
        mul_result(parsed_or(cfg.rate, (0, 0)), parsed_or(cfg.units, (1, 0)))
    } else if m == "tiered"@ {
        match cfg.tiers {
            Some(tc) => tiered_from(tc.tiers@, 0, basis, (0, 0)),
            None => Some((0, 0)),
        }
    } else if m == "contract"@ {
        scaled(basis, parsed_or(cfg.rate, (0, 0)), (100, 0))
    } else {
        Some((0, 0))
    }
}

/// The fee a schedule charges on `basis`: the raw fee raised to the minimum and
/// then lowered to the maximum, where those are set; `None` on overflow.
pub open spec fn fee_amount(s: FeeSchedule, basis: (int, int)) -> Option<(int, int)> {
    match raw_fee(s, basis) {
        None => None,
        Some(raw) => {
            let a = match s.min_amount {
                Some(mn) => if pair_units(raw) < mn.units() { mn.pair() } else { raw },
                None => raw,
            };
            Some(match s.max_amount {
                Some(mx) => if pair_units(a) > mx.units() { mx.pair() } else { a },
                None => a,
            })
        },
    }
}

/// A configuration text read as a decimal, or `default`.
fn parse_or(text: &Option<String>, default: Dec) -> (r: Dec)
    ensures
        r.pair() == parsed_or(*text, default.pair()),
{
    match text {
        Some(t) => match Dec::parse(t.as_str()) {
            Some(d) => d,
            None => default,
        },
        None => default,
    }
}

/// `a * b / d` with `rust_decimal`'s arithmetic; `None` on overflow.
fn checked_scaled(a: &Dec, b: &Dec, d: &Dec) -> (r: Option<Dec>)
    ensures
        r matches Some(x) ==> scaled(a.pair(), b.pair(), d.pair()) == Some(x.pair()),
        r is None ==> scaled(a.pair(), b.pair(), d.pair()) is None,
{
    match a.checked_mul(b) {
        Some(x) => x.checked_div(d),
        None => None,
    }
}

/// The total of a tiered fee on `basis`; `None` on overflow.
fn checked_tiered(tiers: &Vec<Tier>, basis: Dec) -> (r: Option<Dec>)
    ensures
        r matches Some(x) ==> tiered_from(tiers@, 0, basis.pair(), (0, 0)) == Some(x.pair()),
        r is None ==> tiered_from(tiers@, 0, basis.pair(), (0, 0)) is None,
{
    let mut remaining = basis;
    let mut total = Dec::zero();
    let hundred = Dec::from_small(100, 0);
    let mut i: usize = 0;
    while i < tiers.len() && remaining.is_positive()
        invariant
            i <= tiers@.len(),
            hundred.pair() == (100int, 0int),
            tiered_from(tiers@, 0, basis.pair(), (0, 0)) == tiered_from(tiers@, i as int, remaining.pair(), total.pair()),
        decreases tiers.len() - i,
    {
        let t = &tiers[i];
        let band = match t.to {
            Some(hi) => match hi.checked_sub(&t.from_amount) {
                Some(w) => w.min(&remaining),
                None => {
                    return None;
                },
            },
            None => remaining,
        };
        if !band.is_positive() {
            i = i + 1;
            continue;
        }
        let charge = match checked_scaled(&band, &t.rate, &hundred) {
            Some(c) => c,
            None => {
                return None;
            },
        };
        total = match total.checked_add(&charge) {
            Some(x) => x,
            None => {
                return None;
            },
        };
        remaining = match remaining.checked_sub(&band) {
            Some(x) => x,
            None => {
                return None;
            },
        };
        i = i + 1;
    }
    Some(total)
}

/// The fee a schedule charges on `basis`; `None` where the arithmetic overflows.
pub fn checked_compute_fee_amount(schedule: &FeeSchedule, basis_amount: Dec) -> (r: Option<Dec>)
    ensures
        r matches Some(x) ==> fee_amount(*schedule, basis_amount.pair()) == Some(x.pair()),
        r is None ==> fee_amount(*schedule, basis_amount.pair()) is None,
{
    let cfg = &schedule.calc_config;
    let method = schedule.calc_method.as_str();
    let zero = Dec::zero();
    let raw: Option<Dec> = if str_eq(method, "flat") {
        Some(parse_or(&cfg.rate, zero))
    } else if str_eq(method, "percentage") {
        checked_scaled(&basis_amount, &parse_or(&cfg.rate, zero), &Dec::from_small(100, 0))
    } else if str_eq(method, "bps") {
        checked_scaled(&basis_amount, &parse_or(&cfg.rate, zero), &Dec::from_small(10000, 0))
    } else if str_eq(method, "per_unit") {
        let per_unit = parse_or(&cfg.rate, zero);
        let units = parse_or(&cfg.units, Dec::from_small(1, 0));
        per_unit.checked_mul(&units)
    } else if str_eq(method, "tiered") {
        match &cfg.tiers {
            Some(tc) => checked_tiered(&tc.tiers, basis_amount),
            None => Some(zero),
        }
    } else if str_eq(method, "contract") {
        checked_scaled(&basis_amount, &parse_or(&cfg.rate, zero), &Dec::from_small(100, 0))
    } else {
        Some(zero)
    };
    let mut amount = match raw {
        Some(x) => x,
        None => {
            return None;
        },
    };
    if let Some(mn) = schedule.min_amount {
        if amount.compare(&mn) == crate::decimal::Order::Less {
            amount = mn;
        }
    }
    if let Some(mx) = schedule.max_amount {
        if amount.compare(&mx) == crate::decimal::Order::Greater {
            amount = mx;
        }
    }
    Some(amount)
}

/// The fee a schedule charges on `basis_amount`.
pub fn compute_fee_amount(schedule: &FeeSchedule, basis_amount: Dec) -> (r: Dec)
    requires
        fee_amount(*schedule, basis_amount.pair()) is Some,
    ensures
        r.pair() == fee_amount(*schedule, basis_amount.pair())->0,
{
    checked_compute_fee_amount(schedule, basis_amount).unwrap()
}

/// Law (minimum and maximum): where a schedule sets a minimum not above its
/// maximum, the fee it charges lies between them.
pub proof fn law_fee_within_bounds(s: FeeSchedule, basis: (int, int))
    requires
        fee_amount(s, basis) is Some,
        s.min_amount matches Some(mn) && s.max_amount matches Some(mx) && mn.units() <= mx.units(),
    ensures
        s.min_amount->0.units() <= pair_units(fee_amount(s, basis)->0) <= s.max_amount->0.units(),
{
}

/// Whether no step of the tiered computation from band `i` on rounds: each band
/// width, product, running total and remainder is exact, and each product has at
/// most 26 fractional digits, so that dividing it by 100 is exact too.
pub open spec fn tiered_exact(tiers: Seq<Tier>, i: int, remaining: (int, int), total: (int, int)) -> bool
    decreases tiers.len() - i,
{
    if i < 0 || i >= tiers.len() || pair_units(remaining) <= 0 {
        true
    } else {
        let t = tiers[i];
        let width_exact = match t.to {
            Some(hi) => difference_is_exact(hi.pair(), t.from_amount.pair()),
            None => true,
        };
        let band = match t.to {
            Some(hi) => min_pair(exact_difference(hi.pair(), t.from_amount.pair()), remaining),
            None => remaining,
        };
        width_exact && if pair_units(band) <= 0 {
            tiered_exact(tiers, i + 1, remaining, total)
        } else {
            let x = exact_product(band, t.rate.pair());
            &&& product_is_exact(band, t.rate.pair())
            &&& x.1 <= 26
            &&& match div_result(x, (100, 0)) {
                Some(c) => sum_is_exact(total, c) && difference_is_exact(remaining, band) && tiered_exact(
                    tiers,
                    i + 1,
                    exact_difference(remaining, band),
                    exact_sum(total, c),
                ),
                None => true,
            }
        }
    }
}

/// The decimals of a tier are valid and its rate is not negative.
pub open spec fn tier_ok(t: Tier) -> bool {
    &&& pair_fits(t.from_amount.pair())
    &&& pair_fits(t.rate.pair())
    &&& t.rate.pair().0 >= 0
    &&& (t.to matches Some(hi) ==> pair_fits(hi.pair()))
}

/// The charge of one band where nothing rounds: a band's charge grows with the
/// band, and is never negative.
proof fn lemma_band_charge(b1: (int, int), b2: (int, int), rate: (int, int))
    requires
        0 <= b1.1 <= 28,
        0 <= b2.1 <= 28,
        pair_fits(rate),
        rate.0 >= 0,
        0 < pair_units(b1) <= pair_units(b2),
        product_is_exact(b1, rate),
        product_is_exact(b2, rate),
        exact_product(b1, rate).1 <= 26,
        exact_product(b2, rate).1 <= 26,
    ensures
        div_result(exact_product(b1, rate), (100, 0)) matches Some(c1) && div_result(exact_product(b2, rate), (100, 0))
            matches Some(c2) && 0 <= pair_units(c1) <= pair_units(c2) && 0 <= c1.1 <= 28 && 0 <= c2.1 <= 28,
{
    let x1 = exact_product(b1, rate);
    let x2 = exact_product(b2, rate);
    lemma_units_exact_product(b1, rate);
    lemma_units_exact_product(b2, rate);
    lemma_pow10_positive(28);
    lemma_pow10_positive((28 - rate.1) as nat);
    let ur = pair_units(rate);
    assert(ur >= 0) by (nonlinear_arith)
        requires
            ur == rate.0 * pow10((28 - rate.1) as nat),
            rate.0 >= 0,
            pow10((28 - rate.1) as nat) > 0,
    ;
    let p = pow10(28);
    assert(0 <= pair_units(x1) <= pair_units(x2)) by (nonlinear_arith)
        requires
            pair_units(x1) * p == pair_units(b1) * ur,
            pair_units(x2) * p == pair_units(b2) * ur,
            0 < pair_units(b1) <= pair_units(b2),
            ur >= 0,
            p > 0,
    ;
    lemma_divide_by_hundred(x1);
    lemma_divide_by_hundred(x2);
}

/// Where nothing rounds and no rate is negative, the tiered total from band `i`
/// on is at least the total so far.
proof fn lemma_tiered_grows(tiers: Seq<Tier>, i: int, r: (int, int), t: (int, int))
    requires
        forall|j: int| 0 <= j < tiers.len() ==> tier_ok(#[trigger] tiers[j]),
        0 <= r.1 <= 28,
        0 <= t.1 <= 28,
        tiered_from(tiers, i, r, t) is Some,
        tiered_exact(tiers, i, r, t),
    ensures
        pair_units(t) <= pair_units(tiered_from(tiers, i, r, t)->0),
    decreases tiers.len() - i,
{
    if i < 0 || i >= tiers.len() || pair_units(r) <= 0 {
    } else {
        let tier = tiers[i];
        assert(tier_ok(tier));
        if let Some(hi) = tier.to {
            lemma_units_exact_difference(hi.pair(), tier.from_amount.pair());
        }
        let band = match tier.to {
            Some(hi) => min_pair(exact_difference(hi.pair(), tier.from_amount.pair()), r),
            None => r,
        };
        if pair_units(band) <= 0 {
            lemma_tiered_grows(tiers, i + 1, r, t);
        } else {
            lemma_band_charge(band, band, tier.rate.pair());
            let c = div_result(exact_product(band, tier.rate.pair()), (100, 0))->0;
            lemma_units_exact_sum(t, c);
            lemma_units_exact_difference(r, band);
            lemma_tiered_grows(tiers, i + 1, exact_difference(r, band), exact_sum(t, c));
        }
    }
}

/// Where nothing rounds and no rate is negative, a larger remainder and a larger
/// total so far give a tiered total no smaller.
proof fn lemma_tiered_mono(tiers: Seq<Tier>, i: int, r1: (int, int), t1: (int, int), r2: (int, int), t2: (int, int))
    requires
        forall|j: int| 0 <= j < tiers.len() ==> tier_ok(#[trigger] tiers[j]),
        0 <= r1.1 <= 28,
        0 <= t1.1 <= 28,
        0 <= r2.1 <= 28,
        0 <= t2.1 <= 28,
        pair_units(r1) <= pair_units(r2),
        pair_units(t1) <= pair_units(t2),
        tiered_from(tiers, i, r1, t1) is Some,
        tiered_from(tiers, i, r2, t2) is Some,
        tiered_exact(tiers, i, r1, t1),
        tiered_exact(tiers, i, r2, t2),
    ensures
        pair_units(tiered_from(tiers, i, r1, t1)->0) <= pair_units(tiered_from(tiers, i, r2, t2)->0),
    decreases tiers.len() - i,
{
    if i < 0 || i >= tiers.len() {
    } else if pair_units(r1) <= 0 {
        lemma_tiered_grows(tiers, i, r2, t2);
    } else {
        let tier = tiers[i];
        assert(tier_ok(tier));
        if let Some(hi) = tier.to {
            lemma_units_exact_difference(hi.pair(), tier.from_amount.pair());
        }
        let band1 = match tier.to {
            Some(hi) => min_pair(exact_difference(hi.pair(), tier.from_amount.pair()), r1),
            None => r1,
        };
        let band2 = match tier.to {
            Some(hi) => min_pair(exact_difference(hi.pair(), tier.from_amount.pair()), r2),
            None => r2,
        };
        assert(pair_units(band1) <= pair_units(band2));
        if pair_units(band1) <= 0 {
            assert(pair_units(band2) <= 0);
            lemma_tiered_mono(tiers, i + 1, r1, t1, r2, t2);
        } else {
            lemma_band_charge(band1, band2, tier.rate.pair());
            let c1 = div_result(exact_product(band1, tier.rate.pair()), (100, 0))->0;
            let c2 = div_result(exact_product(band2, tier.rate.pair()), (100, 0))->0;
            lemma_units_exact_sum(t1, c1);
            lemma_units_exact_sum(t2, c2);
            lemma_units_exact_difference(r1, band1);
            lemma_units_exact_difference(r2, band2);
            lemma_tiered_mono(
                tiers,
                i + 1,
                exact_difference(r1, band1),
                exact_sum(t1, c1),
                exact_difference(r2, band2),
                exact_sum(t2, c2),
            );
        }
    }
}

/// Law (tiered fees grow with the basis): for a tiered schedule whose rates are
/// not negative, a larger basis never gives a smaller fee, where neither fee
/// overflows and no step of either computation rounds (`tiered_exact`).
pub proof fn law_tiered_fee_grows_with_basis(s: FeeSchedule, b1: (int, int), b2: (int, int))
    requires
        s.calc_method@ == "tiered"@,
        s.calc_config.tiers matches Some(tc) && forall|j: int|
            0 <= j < tc.tiers@.len() ==> tier_ok(#[trigger] tc.tiers@[j]),
        pair_fits(b1),
        pair_fits(b2),
        pair_units(b1) <= pair_units(b2),
        fee_amount(s, b1) is Some,
        fee_amount(s, b2) is Some,
        tiered_exact(s.calc_config.tiers->0.tiers@, 0, b1, (0, 0)),
        tiered_exact(s.calc_config.tiers->0.tiers@, 0, b2, (0, 0)),
    ensures
        pair_units(fee_amount(s, b1)->0) <= pair_units(fee_amount(s, b2)->0),
{
    reveal_strlit("tiered");
    reveal_strlit("flat");
    reveal_strlit("percentage");
    reveal_strlit("bps");
    reveal_strlit("per_unit");
    assert("tiered"@ != "flat"@ && "tiered"@ != "percentage"@ && "tiered"@ != "bps"@ && "tiered"@ != "per_unit"@) by {
        assert("tiered"@[0] != "flat"@[0]);
        assert("tiered"@[0] != "percentage"@[0]);
        assert("tiered"@[0] != "bps"@[0]);
        assert("tiered"@[0] != "per_unit"@[0]);
    }
    let tiers = s.calc_config.tiers->0.tiers@;
    lemma_tiered_mono(tiers, 0, b1, (0, 0), b2, (0, 0));
}

/// Whether schedule `s` charges a positive fee on `basis`.
pub open spec fn charges(s: FeeSchedule, basis: (int, int)) -> bool {
    fee_amount(s, basis) matches Some(f) && pair_units(f) > 0
}

/// Positions, in order, of the schedules that charge a positive fee.
pub open spec fn charging(ss: Seq<FeeSchedule>, basis: (int, int)) -> Seq<int>
    decreases ss.len(),
{
    if ss.len() == 0 {
        Seq::empty()
    } else if charges(ss.last(), basis) {
        charging(ss.drop_last(), basis).push(ss.len() - 1)
    } else {
        charging(ss.drop_last(), basis)
    }
}

/// Whether every schedule's fee on `basis` stays within range.
pub open spec fn fees_defined(ss: Seq<FeeSchedule>, basis: (int, int)) -> bool {
    forall|i: int| 0 <= i < ss.len() ==> fee_amount(#[trigger] ss[i], basis) is Some
}

/// Whether `item` is the fee item of schedule `s` on `basis`.
pub open spec fn is_fee_item(item: FeeItem, s: FeeSchedule, basis: (int, int)) -> bool {
    &&& item.fee_code@ == s.fee_code@
    &&& item.fee_category@ == s.fee_category@
    &&& item.fee_name@ == s.fee_name@
    &&& item.fee_amount.pair() == fee_amount(s, basis)->0
    &&& item.currency@ == s.currency@
}

/// Positions in `charging` stay below the number of schedules and increase.
proof fn lemma_charging_bounds(ss: Seq<FeeSchedule>, basis: (int, int))
    ensures
        forall|k: int| 0 <= k < charging(ss, basis).len() ==> 0 <= #[trigger] charging(ss, basis)[k] < ss.len(),
    decreases ss.len(),
{
    if ss.len() > 0 {
        let prev = ss.drop_last();
        lemma_charging_bounds(prev, basis);
        if charges(ss.last(), basis) {
            assert forall|k: int| 0 <= k < charging(ss, basis).len() implies 0 <= #[trigger] charging(ss, basis)[k] < ss.len() by {
                if k < charging(prev, basis).len() {
                    assert(charging(ss, basis)[k] == charging(prev, basis)[k]);
                }
            }
        }
    }
}

/// The fee items the schedules charge on `basis_amount`, in schedule order: one
/// for each schedule whose fee is above zero; `None` where a fee overflows.
pub fn fee_items(schedules: &Vec<FeeSchedule>, basis_amount: Dec) -> (r: Option<Vec<FeeItem>>)
    ensures
        r is Some <==> fees_defined(schedules@, basis_amount.pair()),
        r matches Some(items) ==> {
            let idx = charging(schedules@, basis_amount.pair());
            &&& items@.len() == idx.len()
            &&& forall|k: int| 0 <= k < items@.len() ==> is_fee_item(
                #[trigger] items@[k],
                schedules@[idx[k]],
                basis_amount.pair(),
            )
        },
{
    let ghost basis = basis_amount.pair();
    let mut items: Vec<FeeItem> = Vec::new();
    let mut i: usize = 0;
    while i < schedules.len()
        invariant
            i <= schedules@.len(),
            basis == basis_amount.pair(),
            fees_defined(schedules@.subrange(0, i as int), basis),
            items@.len() == charging(schedules@.subrange(0, i as int), basis).len(),
            forall|k: int| 0 <= k < items@.len() ==> is_fee_item(
                #[trigger] items@[k],
                schedules@[charging(schedules@.subrange(0, i as int), basis)[k]],
                basis,
            ),
        decreases schedules.len() - i,
    {
        let s = &schedules[i];
        let ghost prev = schedules@.subrange(0, i as int);
        let ghost next = schedules@.subrange(0, i + 1);
        proof {
            assert(next.drop_last() =~= prev);
            assert(next.last() == schedules@[i as int]);
            lemma_charging_bounds(prev, basis);
        }
        let fee = match checked_compute_fee_amount(s, basis_amount) {
            Some(f) => f,
            None => {
                proof {
                    assert(!fees_defined(schedules@, basis)) by {
                        assert(fee_amount(schedules@[i as int], basis) is None);
                    }
                }
                return None;
            },
        };
        if fee.is_positive() {
            items.push(
                FeeItem {
                    fee_code: s.fee_code.clone(),
                    fee_category: s.fee_category.clone(),
                    fee_name: s.fee_name.clone(),
                    fee_amount: fee,
                    currency: s.currency.clone(),
                },
            );
        }
        i = i + 1;
        proof {
            assert forall|j: int| 0 <= j < i implies fee_amount(#[trigger] next[j], basis) is Some by {
                if j < i - 1 {
                    assert(next[j] == prev[j]);
                }
            }
            assert forall|k: int| 0 <= k < items@.len() implies is_fee_item(
                #[trigger] items@[k],
                schedules@[charging(next, basis)[k]],
                basis,
            ) by {
            }
        }
    }
    proof {
        assert(schedules@.subrange(0, schedules@.len() as int) =~= schedules@);
    }
    Some(items)
}

/// Whether `tx` is the child transaction carrying `fee` for `parent`, with id
/// `id`, created at `now`.
pub open spec fn is_fee_child(tx: Transaction, fee: FeeItem, parent: Transaction, id: u128, now: i64) -> bool {
    &&& tx.id == id
    &&& tx.tenant_id == parent.tenant_id
    &&& tx.instrument_type@ == "FEE"@
    &&& tx.instrument_id@ == "FEE-"@ + fee.fee_code@
    &&& tx.parent_tx_id == Some(parent.id)
    &&& tx.root_tx_id == parent.root_tx_id
    &&& (tx.link_type matches Some(l) && l@ == "FEE"@)
    &&& tx.link_depth == parent.link_depth + 1
    &&& tx.input_attributes@.amounts == Map::<AmountType, Dec>::empty().insert(AmountType::Fee, fee.fee_amount)
    &&& tx.input_attributes@.strings == Map::<Seq<char>, Seq<char>>::empty().insert("fee_code"@, fee.fee_code@).insert(
        "fee_category"@,
        fee.fee_category@,
    ).insert("fee_name"@, fee.fee_name@).insert("currency"@, fee.currency@).insert(
        "instrument_type"@,
        parent.instrument_type@,
    )
    &&& tx.input_attributes@.quantities == Map::<crate::types::QuantityType, Dec>::empty()
    &&& tx.input_attributes@.prices == Map::<crate::types::PriceType, Dec>::empty()
    &&& tx.input_attributes@.dates == Map::<crate::types::DateType, i32>::empty()
    &&& tx.input_attributes@.enums == Map::<Seq<char>, Seq<char>>::empty()
    &&& tx.derived_attributes is None
    &&& tx.enricher_name@ == "fee_engine"@
    &&& tx.enricher_version@ == "1.0.0"@
    &&& tx.contract_version is None
    &&& tx.status == TransactionStatus::Submitted
    &&& tx.idempotency_key is None
    &&& tx.error_reason is None
    &&& tx.metadata is None
    &&& tx.created_at == now
    &&& tx.posted_at is None
}

/// One child transaction per fee, in order, each linked to `parent` (same root,
/// one level deeper, link type "FEE") and carrying the fee as its FEE amount and
/// its code, category, name, currency and the parent's instrument type as strings.
pub fn to_child_transactions(fees: &Vec<FeeItem>, parent: &Transaction, ids: &Vec<u128>, now: i64) -> (r: Vec<Transaction>)
    requires
        ids@.len() == fees@.len(),
        parent.link_depth < 0x7fff_ffff,
    ensures
        r@.len() == fees@.len(),
        forall|i: int| 0 <= i < r@.len() ==> is_fee_child(#[trigger] r@[i], fees@[i], *parent, ids@[i], now),
{
    let mut out: Vec<Transaction> = Vec::new();
    let mut i: usize = 0;
    while i < fees.len()
        invariant
            ids@.len() == fees@.len(),
            parent.link_depth < 0x7fff_ffff,
            i <= fees@.len(),
            out@.len() == i,
            forall|k: int| 0 <= k < i ==> is_fee_child(#[trigger] out@[k], fees@[k], *parent, ids@[k], now),
        decreases fees.len() - i,
    {
        let fee = &fees[i];
        let mut attrs = AttributeBag::new();
        attrs.set_amount(AmountType::Fee, fee.fee_amount);
        attrs.set_string("fee_code", fee.fee_code.as_str());
        attrs.set_string("fee_category", fee.fee_category.as_str());
        attrs.set_string("fee_name", fee.fee_name.as_str());
        attrs.set_string("currency", fee.currency.as_str());
        attrs.set_string("instrument_type", parent.instrument_type.as_str());
        let mut instrument_id = owned("FEE-");
        instrument_id.append(fee.fee_code.as_str());
        out.push(
            Transaction {
                id: ids[i],
                tenant_id: parent.tenant_id,
                instrument_type: owned("FEE"),
                instrument_id,
                parent_tx_id: Some(parent.id),
                root_tx_id: parent.root_tx_id,
                link_type: Some(owned("FEE")),
                link_depth: parent.link_depth + 1,
                input_attributes: attrs,
                derived_attributes: None,
                enricher_name: owned("fee_engine"),
                enricher_version: owned("1.0.0"),
                contract_version: None,
                status: TransactionStatus::Submitted,
                idempotency_key: None,
                error_reason: None,
                metadata: None,
                created_at: now,
                posted_at: None,
            },
        );
        i = i + 1;
    }
    out
}

/// The tenant a fee request names, read as a UUID; a text that is not one is a
/// pipeline error of the fee stage for "parse", carrying the parser's message.
pub fn fee_tenant(tenant_id: &str) -> (r: Result<u128, FbError>)
    ensures
        uuid_parsed(tenant_id@) matches Ok(id) ==> r == Ok::<u128, FbError>(id),
        uuid_parsed(tenant_id@) matches Err(m) ==> (r matches Err(e) && is_pipeline_error(e, "FEE"@, "parse"@, m)),
{
    match parse_uuid(tenant_id) {
        Ok(id) => Ok(id),
        Err(m) => Err(FbError::pipeline("FEE", "parse", m.as_str())),
    }
}

/// Law (a fee child carries its fee): the child transaction of a fee holds the
/// fee's amount as its FEE amount and the fee's own code, category, name and
/// currency, whatever they are, and the parent's instrument type, as strings;
/// it hangs below the parent, one level deeper, under the same root.
pub proof fn law_fee_child_carries_fee(tx: Transaction, fee: FeeItem, parent: Transaction, id: u128, now: i64)
    requires
        is_fee_child(tx, fee, parent, id, now),
    ensures
        tx.input_attributes@.amounts.contains_key(AmountType::Fee),
        tx.input_attributes@.amounts[AmountType::Fee] == fee.fee_amount,
        tx.input_attributes@.strings.contains_key("currency"@),
        tx.input_attributes@.strings["currency"@] == fee.currency@,
        tx.input_attributes@.strings.contains_key("fee_code"@),
        tx.input_attributes@.strings["fee_code"@] == fee.fee_code@,
        tx.input_attributes@.strings.contains_key("fee_category"@),
        tx.input_attributes@.strings["fee_category"@] == fee.fee_category@,
        tx.input_attributes@.strings.contains_key("fee_name"@),
        tx.input_attributes@.strings["fee_name"@] == fee.fee_name@,
        tx.input_attributes@.strings.contains_key("instrument_type"@),
        tx.input_attributes@.strings["instrument_type"@] == parent.instrument_type@,
        tx.parent_tx_id == Some(parent.id),
        tx.root_tx_id == parent.root_tx_id,
        tx.link_depth == parent.link_depth + 1,
{
    reveal_strlit("currency");
    reveal_strlit("fee_code");
    reveal_strlit("fee_category");
    reveal_strlit("fee_name");
    reveal_strlit("instrument_type");
    assert("currency"@ != "instrument_type"@) by {
        assert("currency"@[0] != "instrument_type"@[0]);
    }
    assert("fee_name"@ != "currency"@ && "fee_name"@ != "instrument_type"@) by {
        assert("fee_name"@[0] != "currency"@[0]);
        assert("fee_name"@[0] != "instrument_type"@[0]);
    }
    assert("fee_category"@ != "fee_name"@ && "fee_category"@ != "currency"@ && "fee_category"@ != "instrument_type"@)
        by {
        assert("fee_category"@.len() != "fee_name"@.len());
        assert("fee_category"@[0] != "currency"@[0]);
        assert("fee_category"@[0] != "instrument_type"@[0]);
    }
    assert("fee_code"@ != "fee_category"@ && "fee_code"@ != "fee_name"@ && "fee_code"@ != "currency"@ && "fee_code"@
        != "instrument_type"@) by {
        assert("fee_code"@.len() != "fee_category"@.len());
        assert("fee_code"@[4] != "fee_name"@[4]);
        assert("fee_code"@[0] != "currency"@[0]);
        assert("fee_code"@[0] != "instrument_type"@[0]);
    }
}

} // verus!
