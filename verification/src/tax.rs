//! Tax lots: what opening a lot records, which lots a sale consumes and with what
//! cost basis, proceeds, gain, holding period and classification, and the tax on
//! the realized short- and long-term gains of a jurisdiction.
use vstd::prelude::*;
use crate::decimal::{add_result, div_result, mul_result, pair_units, round_dp_pair, sub_result, Dec};
use crate::fees::min_pair;
use crate::text::{owned, str_eq};

verus! {

/// A tax lot: a quantity of an instrument acquired on one day at one price.
#[derive(Debug, Clone)]
pub struct TaxLot {
    pub id: u128,
    pub tenant_id: u128,
    pub account_id: u128,
    pub instrument_id: String,
    pub acquire_date: i32,
    pub acquire_price: Dec,
    pub original_quantity: Dec,
    pub remaining_quantity: Dec,
    pub cost_basis_total: Dec,
    pub cost_basis_per_unit: Dec,
    pub cost_method: String,
    pub status: String,
    pub closed_date: Option<i32>,
    pub jurisdiction: String,
}

/// The part of a sale taken from one lot.
#[derive(Debug, Clone)]
pub struct LotConsumption {
    pub id: u128,
    pub tenant_id: u128,
    pub transaction_id: u128,
    pub lot_id: u128,
    pub quantity_consumed: Dec,
    pub cost_basis_consumed: Dec,
    pub proceeds: Dec,
    pub realized_gain: Dec,
    pub holding_period_days: i32,
    pub tax_classification: String,
    pub tax_rate_applied: Option<Dec>,
    pub jurisdiction: String,
}

/// The tax on the realized gains of a jurisdiction.
#[derive(Debug, Clone)]
pub struct TaxComputation {
    pub short_term_gain: Dec,
    pub long_term_gain: Dec,
    pub total_gain: Dec,
    pub short_term_tax: Dec,
    pub long_term_tax: Dec,
    pub total_tax: Dec,
    pub effective_rate: Dec,
    pub jurisdiction_code: String,
}

/// The rates a jurisdiction taxes short- and long-term gains at.
#[derive(Debug, Clone, Copy)]
pub struct JurisdictionRates {
    pub short_term_rate: Dec,
    pub long_term_rate: Dec,
}

/// The order in which a sale takes the open lots.
#[derive(Debug, Clone, Copy, PartialEq, Eq, Structural)]
pub enum LotOrder {
    /// Latest acquisition date first.
    NewestFirst,
    /// Highest cost per unit first.
    HighestCostFirst,
    /// Earliest acquisition date first.
    OldestFirst,
}

/// One lot's part of a sale, with what becomes of the lot.
#[derive(Debug, Clone)]
pub struct ConsumptionStep {
    pub lot_index: usize,
    pub lot_id: u128,
    pub quantity_consumed: Dec,
    pub cost_basis_consumed: Dec,
    pub proceeds: Dec,
    pub realized_gain: Dec,
    pub holding_period_days: i32,
    pub tax_classification: String,
    pub jurisdiction: String,
    pub new_remaining: Dec,
    pub new_status: String,
    pub closed_date: Option<i32>,
}

/// The lot order of a cost method: "LIFO" newest first, "HIFO" highest cost
/// first, any other method (FIFO, average) oldest first.
pub open spec fn lot_order_of(method: Seq<char>) -> LotOrder {
    if method == "LIFO"@ {
        LotOrder::NewestFirst
    } else if method == "HIFO"@ {
        LotOrder::HighestCostFirst
    } else {
        LotOrder::OldestFirst
    }
}

/// The order in which a sale under `method` takes the open lots.
pub fn lot_order(method: &str) -> (r: LotOrder)
    ensures
        r == lot_order_of(method@),
{
    if str_eq(method, "LIFO") {
        LotOrder::NewestFirst
    } else if str_eq(method, "HIFO") {
        LotOrder::HighestCostFirst
    } else {
        LotOrder::OldestFirst
    }
}

/// Whether `lot` is the lot opened with these values: cost basis price times
/// quantity, per-unit cost the price, all of the quantity remaining, status "open".
pub open spec fn is_new_lot(
    lot: TaxLot,
    id: u128,
    tenant_id: u128,
    account_id: u128,
    instrument_id: Seq<char>,
    acquire_date: i32,
    acquire_price: Dec,
    quantity: Dec,
    cost_method: Seq<char>,
    jurisdiction: Seq<char>,
) -> bool {
    &&& lot.id == id
    &&& lot.tenant_id == tenant_id
    &&& lot.account_id == account_id
    &&& lot.instrument_id@ == instrument_id
    &&& lot.acquire_date == acquire_date
    &&& lot.acquire_price == acquire_price
    &&& lot.original_quantity == quantity
    &&& lot.remaining_quantity == quantity
    &&& lot.cost_basis_total.pair() == mul_result(acquire_price.pair(), quantity.pair())->0
    &&& lot.cost_basis_per_unit == acquire_price
    &&& lot.cost_method@ == cost_method
    &&& lot.status@ == "open"@
    &&& lot.closed_date is None
    &&& lot.jurisdiction@ == jurisdiction
}

/// The lot opened by buying `quantity` at `acquire_price`; `None` where the cost
/// basis overflows.
pub fn new_lot(
    id: u128,
    tenant_id: u128,
    account_id: u128,
    instrument_id: &str,
    acquire_date: i32,
    acquire_price: Dec,
    quantity: Dec,
    cost_method: &str,
    jurisdiction: &str,
) -> (r: Option<TaxLot>)
    ensures
        r is Some <==> mul_result(acquire_price.pair(), quantity.pair()) is Some,
        r matches Some(lot) ==> is_new_lot(
            lot,
            id,
            tenant_id,
            account_id,
            instrument_id@,
            acquire_date,
            acquire_price,
            quantity,
            cost_method@,
            jurisdiction@,
        ),
{
    let cost_basis_total = match acquire_price.checked_mul(&quantity) {
        Some(x) => x,
        None => {
            return None;
        },
    };
    Some(
        TaxLot {
            id,
            tenant_id,
            account_id,
            instrument_id: owned(instrument_id),
            acquire_date,
            acquire_price,
            original_quantity: quantity,
            remaining_quantity: quantity,
            cost_basis_total,
            cost_basis_per_unit: acquire_price,
            cost_method: owned(cost_method),
            status: owned("open"),
            closed_date: None,
            jurisdiction: owned(jurisdiction),
        },
    )
}

/// What is left of the sale quantity before lot `k` is looked at; `None` where a
/// subtraction overflowed.  Lots are taken while something is left.
pub open spec fn remaining_before(lots: Seq<TaxLot>, sale_qty: (int, int), k: int) -> Option<(int, int)>
    decreases k,
{
    if k <= 0 {
        Some(sale_qty)
    } else {
        match remaining_before(lots, sale_qty, k - 1) {
            None => None,
            Some(r) => if pair_units(r) <= 0 || k - 1 >= lots.len() {
                Some(r)
            } else {
                sub_result(r, min_pair(r, lots[k - 1].remaining_quantity.pair()))
            },
        }
    }
}

/// The number of lots a sale takes, counting from lot `k`: lots are taken in
/// order while something of the sale is left.
pub open spec fn lots_taken_from(lots: Seq<TaxLot>, sale_qty: (int, int), k: int) -> int
    decreases lots.len() - k,
{
    if k >= lots.len() {
        k
    } else {
        match remaining_before(lots, sale_qty, k) {
            Some(r) => if pair_units(r) > 0 {
                lots_taken_from(lots, sale_qty, k + 1)
            } else {
                k
            },
            None => k,
        }
    }
}

/// The number of lots a sale takes.
pub open spec fn lots_taken(lots: Seq<TaxLot>, sale_qty: (int, int)) -> int {
    lots_taken_from(lots, sale_qty, 0)
}

/// The remaining quantities of the first `k` lots, summed in order.
pub open spec fn quantity_total(lots: Seq<TaxLot>, k: int) -> Option<(int, int)>
    decreases k,
{
    if k <= 0 {
        Some((0, 0))
    } else {
        match quantity_total(lots, k - 1) {
            None => None,
            Some(s) => add_result(s, lots[k - 1].remaining_quantity.pair()),
        }
    }
}

/// The cost bases (per-unit cost times remaining quantity) of the first `k`
/// lots, summed in order.
pub open spec fn basis_total(lots: Seq<TaxLot>, k: int) -> Option<(int, int)>
    decreases k,
{
    if k <= 0 {
        Some((0, 0))
    } else {
        match basis_total(lots, k - 1) {
            None => None,
            Some(s) => match mul_result(
                lots[k - 1].cost_basis_per_unit.pair(),
                lots[k - 1].remaining_quantity.pair(),
            ) {
                None => None,
                Some(b) => add_result(s, b),
            },
        }
    }
}

/// Whether the method is the average-cost method.
pub open spec fn is_average(method: Seq<char>) -> bool {
    method == "average"@
}

/// Whether an average-cost sale finds nothing left in the lots (their remaining
/// quantities sum to zero), so that it takes nothing.
pub open spec fn nothing_to_average(lots: Seq<TaxLot>, method: Seq<char>) -> bool {
    &&& is_average(method)
    &&& quantity_total(lots, lots.len() as int) matches Some(t) && pair_units(t) == 0
}

/// The average cost per unit over the lots: total cost basis over total quantity.
pub open spec fn average_cost(lots: Seq<TaxLot>) -> Option<(int, int)> {
    match quantity_total(lots, lots.len() as int) {
        None => None,
        Some(q) => match basis_total(lots, lots.len() as int) {
            None => None,
            Some(b) => div_result(b, q),
        },
    }
}

/// The cost per unit a sale charges lot `k` with: the average cost under the
/// average method, else the lot's own cost per unit.
pub open spec fn unit_cost(lots: Seq<TaxLot>, method: Seq<char>, k: int) -> Option<(int, int)> {
    if is_average(method) {
        average_cost(lots)
    } else {
        Some(lots[k].cost_basis_per_unit.pair())
    }
}

/// The days a lot acquired on `acquire` was held when sold on `sale`, never
/// negative, as a 32-bit count.
pub open spec fn holding_days(sale: i32, acquire: i32) -> i32 {
    (if sale - acquire > 0 {
        sale - acquire
    } else {
        0
    }) as i32
}

/// The classification of a holding period: long term from 365 days on.
pub open spec fn classification(days: i32) -> Seq<char> {
    if days >= 365 {
        "LONG_TERM"@
    } else {
        "SHORT_TERM"@
    }
}

/// Whether every value of the step on lot `k` can be computed.
pub open spec fn step_defined(
    lots: Seq<TaxLot>,
    k: int,
    sale_qty: (int, int),
    sale_proceeds: (int, int),
    method: Seq<char>,
) -> bool {
    let r = remaining_before(lots, sale_qty, k)->0;
    let qty = min_pair(r, lots[k].remaining_quantity.pair());
    &&& remaining_before(lots, sale_qty, k + 1) is Some
    &&& unit_cost(lots, method, k) matches Some(c) && mul_result(c, qty) matches Some(basis)
        && div_result(sale_proceeds, sale_qty) matches Some(u) && mul_result(u, qty) matches Some(p)
        && sub_result(p, basis) is Some
    &&& sub_result(lots[k].remaining_quantity.pair(), qty) is Some
}

/// Whether a sale's consumption can be computed: the average method's totals and
/// average, and every step's values.
pub open spec fn plan_defined(
    lots: Seq<TaxLot>,
    sale_qty: (int, int),
    sale_proceeds: (int, int),
    method: Seq<char>,
) -> bool {
    &&& is_average(method) ==> quantity_total(lots, lots.len() as int) is Some
    &&& !nothing_to_average(lots, method) ==> {
        &&& is_average(method) ==> average_cost(lots) is Some
        &&& forall|k: int|
            0 <= k < lots_taken(lots, sale_qty) ==> #[trigger] step_defined(
                lots,
                k,
                sale_qty,
                sale_proceeds,
                method,
            )
    }
}

/// Whether `st` is the step of the sale on lot `k`: it takes the smaller of what
/// is left of the sale and what the lot holds (what is left when they are equal),
/// charges the unit cost on it, credits its share of the proceeds, and leaves the
/// lot closed on the sale date when nothing remains of it, partial otherwise.
pub open spec fn is_step(
    st: ConsumptionStep,
    lots: Seq<TaxLot>,
    k: int,
    sale_date: i32,
    sale_qty: (int, int),
    sale_proceeds: (int, int),
    method: Seq<char>,
) -> bool {
    let lot = lots[k];
    let r = remaining_before(lots, sale_qty, k)->0;
    let qty = min_pair(r, lot.remaining_quantity.pair());
    let basis = mul_result(unit_cost(lots, method, k)->0, qty)->0;
    let proceeds = mul_result(div_result(sale_proceeds, sale_qty)->0, qty)->0;
    let left = sub_result(lot.remaining_quantity.pair(), qty)->0;
    let days = holding_days(sale_date, lot.acquire_date);
    &&& st.lot_index == k
    &&& st.lot_id == lot.id
    &&& st.quantity_consumed.pair() == qty
    &&& st.cost_basis_consumed.pair() == basis
    &&& st.proceeds.pair() == proceeds
    &&& st.realized_gain.pair() == sub_result(proceeds, basis)->0
    &&& st.holding_period_days == days
    &&& st.tax_classification@ == classification(days)
    &&& st.jurisdiction@ == lot.jurisdiction@
    &&& st.new_remaining.pair() == left
    &&& st.new_status@ == (if pair_units(left) == 0 {
        "closed"@
    } else {
        "partial"@
    })
    &&& st.closed_date == (if pair_units(left) == 0 {
        Some(sale_date)
    } else {
        None
    })
}

/// Whether `steps` is the consumption of the sale: nothing where an average-cost
/// sale finds nothing to average, else one step for each lot taken, in order.
pub open spec fn is_plan(
    steps: Seq<ConsumptionStep>,
    lots: Seq<TaxLot>,
    sale_date: i32,
    sale_qty: (int, int),
    sale_proceeds: (int, int),
    method: Seq<char>,
) -> bool {
    if nothing_to_average(lots, method) {
        steps.len() == 0
    } else {
        &&& steps.len() == lots_taken(lots, sale_qty)
        &&& forall|k: int|
            0 <= k < steps.len() ==> is_step(
                #[trigger] steps[k],
                lots,
                k,
                sale_date,
                sale_qty,
                sale_proceeds,
                method,
            )
    }
}

/// The lots taken by `lots_taken_from` from `k` are those taken from `k + 1`
/// when something is left before lot `k`.
proof fn lemma_taken_step(lots: Seq<TaxLot>, sale_qty: (int, int), k: int)
    requires
        0 <= k < lots.len(),
        remaining_before(lots, sale_qty, k) matches Some(r) && pair_units(r) > 0,
    ensures
        lots_taken_from(lots, sale_qty, k) == lots_taken_from(lots, sale_qty, k + 1),
{
}

/// The lots taken from `k` are at least `k` and at most the number of lots.
proof fn lemma_taken_bounds(lots: Seq<TaxLot>, sale_qty: (int, int), k: int)
    requires
        0 <= k <= lots.len(),
    ensures
        k <= lots_taken_from(lots, sale_qty, k) <= lots.len(),
    decreases lots.len() - k,
{
    if k < lots.len() {
        if let Some(r) = remaining_before(lots, sale_qty, k) {
            if pair_units(r) > 0 {
                lemma_taken_bounds(lots, sale_qty, k + 1);
            }
        }
    }
}

/// Sums the remaining quantities of the lots; `None` on overflow.
fn sum_quantities(lots: &Vec<TaxLot>) -> (r: Option<Dec>)
    ensures
        opt_matches(r, quantity_total(lots@, lots@.len() as int)),
{
    let mut total = Dec::zero();
    let mut i: usize = 0;
    while i < lots.len()
        invariant
            i <= lots@.len(),
            quantity_total(lots@, i as int) == Some(total.pair()),
        decreases lots.len() - i,
    {
        total = match total.checked_add(&lots[i].remaining_quantity) {
            Some(x) => x,
            None => {
                proof {
                    lemma_total_stays_none(lots@, i as int + 1, lots@.len() as int);
                }
                return None;
            },
        };
        i = i + 1;
    }
    Some(total)
}

/// Sums the cost bases of the lots; `None` on overflow.
fn sum_bases(lots: &Vec<TaxLot>) -> (r: Option<Dec>)
    ensures
        opt_matches(r, basis_total(lots@, lots@.len() as int)),
{
    let mut total = Dec::zero();
    let mut i: usize = 0;
    while i < lots.len()
        invariant
            i <= lots@.len(),
            basis_total(lots@, i as int) == Some(total.pair()),
        decreases lots.len() - i,
    {
        let lot = &lots[i];
        let b = match lot.cost_basis_per_unit.checked_mul(&lot.remaining_quantity) {
            Some(x) => x,
            None => {
                proof {
                    lemma_basis_stays_none(lots@, i as int + 1, lots@.len() as int);
                }
                return None;
            },
        };
        total = match total.checked_add(&b) {
            Some(x) => x,
            None => {
                proof {
                    lemma_basis_stays_none(lots@, i as int + 1, lots@.len() as int);
                }
                return None;
            },
        };
        i = i + 1;
    }
    Some(total)
}

/// Whether an optional decimal is the optional pair.
pub open spec fn opt_matches(r: Option<Dec>, p: Option<(int, int)>) -> bool {
    match r {
        Some(x) => p == Some(x.pair()),
        None => p is None,
    }
}

/// Once a running quantity total overflows, it stays undefined.
proof fn lemma_total_stays_none(lots: Seq<TaxLot>, k: int, n: int)
    requires
        quantity_total(lots, k) is None,
        k <= n,
    ensures
        quantity_total(lots, n) is None,
    decreases n - k,
{
    if k < n {
        lemma_total_stays_none(lots, k, n - 1);
    }
}

/// Once a running basis total overflows, it stays undefined.
proof fn lemma_basis_stays_none(lots: Seq<TaxLot>, k: int, n: int)
    requires
        basis_total(lots, k) is None,
        k <= n,
    ensures
        basis_total(lots, n) is None,
    decreases n - k,
{
    if k < n {
        lemma_basis_stays_none(lots, k, n - 1);
    }
}

/// The days between acquisition and sale, never negative, as a 32-bit count.
fn holding_period(sale_date: i32, acquire_date: i32) -> (r: i32)
    ensures
        r == holding_days(sale_date, acquire_date),
{
    let d: i64 = sale_date as i64 - acquire_date as i64;
    let d: i64 = if d > 0 {
        d
    } else {
        0
    };
    #[verifier::truncate]
    (d as i32)
}

/// The lots a sale of `sale_quantity` for `sale_proceeds` on `sale_date` takes,
/// in the order given (the order `lot_order` gives for `method`), with the cost
/// basis, proceeds, gain, holding period and classification of each part and what
/// becomes of each lot; `None` where a sum, product, quotient or difference
/// overflows.
pub fn plan_consumption(
    lots: &Vec<TaxLot>,
    sale_date: i32,
    sale_quantity: Dec,
    sale_proceeds: Dec,
    method: &str,
) -> (r: Option<Vec<ConsumptionStep>>)
    ensures
        r is Some <==> plan_defined(lots@, sale_quantity.pair(), sale_proceeds.pair(), method@),
        r matches Some(steps) ==> is_plan(
            steps@,
            lots@,
            sale_date,
            sale_quantity.pair(),
            sale_proceeds.pair(),
            method@,
        ),
{
    let ghost sq = sale_quantity.pair();
    let ghost sp = sale_proceeds.pair();
    let average = str_eq(method, "average");
    let mut avg_cpu = Dec::zero();
    if average {
        let total_qty = match sum_quantities(lots) {
            Some(q) => q,
            None => {
                return None;
            },
        };
        if total_qty.is_zero() {
            let empty: Vec<ConsumptionStep> = Vec::new();
            return Some(empty);
        }
        let total_basis = match sum_bases(lots) {
            Some(b) => b,
            None => {
                return None;
            },
        };
        avg_cpu = match total_basis.checked_div(&total_qty) {
            Some(a) => a,
            None => {
                return None;
            },
        };
    }
    proof {
        lemma_taken_bounds(lots@, sq, 0);
    }
    let mut steps: Vec<ConsumptionStep> = Vec::new();
    let mut remaining = sale_quantity;
    let mut i: usize = 0;
    while i < lots.len() && remaining.is_positive()
        invariant
            i <= lots@.len(),
            sq == sale_quantity.pair(),
            sp == sale_proceeds.pair(),
            average == is_average(method@),
            !nothing_to_average(lots@, method@),
            average ==> average_cost(lots@) == Some(avg_cpu.pair()),
            remaining_before(lots@, sq, i as int) == Some(remaining.pair()),
            lots_taken(lots@, sq) == lots_taken_from(lots@, sq, i as int),
            steps@.len() == i,
            forall|k: int| 0 <= k < i ==> #[trigger] step_defined(lots@, k, sq, sp, method@),
            forall|k: int|
                0 <= k < i ==> is_step(#[trigger] steps@[k], lots@, k, sale_date, sq, sp, method@),
        decreases lots.len() - i,
    {
        let lot = &lots[i];
        proof {
            lemma_taken_step(lots@, sq, i as int);
            lemma_taken_bounds(lots@, sq, i as int + 1);
        }
        let cpu = if average {
            avg_cpu
        } else {
            lot.cost_basis_per_unit
        };
        let consume_qty = remaining.min(&lot.remaining_quantity);
        let basis_consumed = match cpu.checked_mul(&consume_qty) {
            Some(x) => x,
            None => {
                proof {
                    lemma_step_undefined(lots@, i as int, sq, sp, method@);
                }
                return None;
            },
        };
        let unit = match sale_proceeds.checked_div(&sale_quantity) {
            Some(x) => x,
            None => {
                proof {
                    lemma_step_undefined(lots@, i as int, sq, sp, method@);
                }
                return None;
            },
        };
        let proceeds = match unit.checked_mul(&consume_qty) {
            Some(x) => x,
            None => {
                proof {
                    lemma_step_undefined(lots@, i as int, sq, sp, method@);
                }
                return None;
            },
        };
        let gain = match proceeds.checked_sub(&basis_consumed) {
            Some(x) => x,
            None => {
                proof {
                    lemma_step_undefined(lots@, i as int, sq, sp, method@);
                }
                return None;
            },
        };
        let hold_days = holding_period(sale_date, lot.acquire_date);
        let new_remaining = match lot.remaining_quantity.checked_sub(&consume_qty) {
            Some(x) => x,
            None => {
                proof {
                    lemma_step_undefined(lots@, i as int, sq, sp, method@);
                }
                return None;
            },
        };
        let closed = new_remaining.is_zero();
        let next_remaining = match remaining.checked_sub(&consume_qty) {
            Some(x) => x,
            None => {
                proof {
                    lemma_step_undefined(lots@, i as int, sq, sp, method@);
                }
                return None;
            },
        };
        proof {
            crate::decimal::lemma_units_sign(new_remaining);
        }
        steps.push(
            ConsumptionStep {
                lot_index: i,
                lot_id: lot.id,
                quantity_consumed: consume_qty,
                cost_basis_consumed: basis_consumed,
                proceeds,
                realized_gain: gain,
                holding_period_days: hold_days,
                tax_classification: if hold_days >= 365 {
                    owned("LONG_TERM")
                } else {
                    owned("SHORT_TERM")
                },
                jurisdiction: lot.jurisdiction.clone(),
                new_remaining,
                new_status: if closed {
                    owned("closed")
                } else {
                    owned("partial")
                },
                closed_date: if closed {
                    Some(sale_date)
                } else {
                    None
                },
            },
        );
        remaining = next_remaining;
        i = i + 1;
        proof {
            crate::decimal::lemma_units_sign(remaining);
        }
    }
    proof {
        crate::decimal::lemma_units_sign(remaining);
    }
    Some(steps)
}

/// A step that cannot be computed makes the plan undefined.
proof fn lemma_step_undefined(
    lots: Seq<TaxLot>,
    k: int,
    sale_qty: (int, int),
    sale_proceeds: (int, int),
    method: Seq<char>,
)
    requires
        0 <= k < lots_taken(lots, sale_qty),
        !nothing_to_average(lots, method),
        !step_defined(lots, k, sale_qty, sale_proceeds, method),
    ensures
        !plan_defined(lots, sale_qty, sale_proceeds, method),
{
}

/// Law (consumption within bounds): every step of a sale takes no more than what
/// was left of the sale and no more than the lot held.
pub proof fn law_step_within_lot_and_sale(
    steps: Seq<ConsumptionStep>,
    lots: Seq<TaxLot>,
    sale_date: i32,
    sale_qty: (int, int),
    sale_proceeds: (int, int),
    method: Seq<char>,
    k: int,
)
    requires
        is_plan(steps, lots, sale_date, sale_qty, sale_proceeds, method),
        0 <= k < steps.len(),
    ensures
        steps[k].quantity_consumed.units() <= lots[k].remaining_quantity.units(),
        steps[k].quantity_consumed.units() <= pair_units(remaining_before(lots, sale_qty, k)->0),
{
    assert(is_step(steps[k], lots, k, sale_date, sale_qty, sale_proceeds, method));
}

/// The rates applied where a jurisdiction has none on record: 0.37 on short-term
/// and 0.20 on long-term gains.
pub fn default_rates() -> (r: JurisdictionRates)
    ensures
        r.short_term_rate.pair() == (37int, 2int),
        r.long_term_rate.pair() == (20int, 2int),
{
    JurisdictionRates { short_term_rate: Dec::from_small(37, 2), long_term_rate: Dec::from_small(20, 2) }
}

/// Whether `c` is the tax on gains `st` and `lt` at `rates`: each gain times its
/// rate, the totals their sums, and the effective rate the total tax over the
/// total gain in percent, rounded to two places (zero when there is no gain).
pub open spec fn is_tax(c: TaxComputation, st: Dec, lt: Dec, rates: JurisdictionRates, code: Seq<char>) -> bool {
    let st_tax = mul_result(st.pair(), rates.short_term_rate.pair())->0;
    let lt_tax = mul_result(lt.pair(), rates.long_term_rate.pair())->0;
    let total_gain = add_result(st.pair(), lt.pair())->0;
    let total_tax = add_result(st_tax, lt_tax)->0;
    &&& c.short_term_gain == st
    &&& c.long_term_gain == lt
    &&& c.short_term_tax.pair() == st_tax
    &&& c.long_term_tax.pair() == lt_tax
    &&& c.total_gain.pair() == total_gain
    &&& c.total_tax.pair() == total_tax
    &&& c.effective_rate.pair() == (if pair_units(total_gain) != 0 {
        round_dp_pair(mul_result(div_result(total_tax, total_gain)->0, (100, 0))->0, 2)
    } else {
        (0, 0)
    })
    &&& c.jurisdiction_code@ == code
}

/// Whether the tax on gains `st` and `lt` at `rates` can be computed.
pub open spec fn tax_defined(st: Dec, lt: Dec, rates: JurisdictionRates) -> bool {
    &&& mul_result(st.pair(), rates.short_term_rate.pair()) matches Some(st_tax)
    &&& mul_result(lt.pair(), rates.long_term_rate.pair()) matches Some(lt_tax)
    &&& add_result(st.pair(), lt.pair()) matches Some(total_gain)
    &&& add_result(st_tax, lt_tax) matches Some(total_tax)
    &&& pair_units(total_gain) != 0 ==> (div_result(total_tax, total_gain) matches Some(q) && mul_result(
        q,
        (100, 0),
    ) is Some)
}

/// The tax on the short- and long-term gains realized in a jurisdiction; `None`
/// where the arithmetic overflows.
pub fn compute_tax(
    short_term_gain: Dec,
    long_term_gain: Dec,
    rates: JurisdictionRates,
    jurisdiction_code: &str,
) -> (r: Option<TaxComputation>)
    ensures
        r is Some <==> tax_defined(short_term_gain, long_term_gain, rates),
        r matches Some(c) ==> is_tax(c, short_term_gain, long_term_gain, rates, jurisdiction_code@),
{
    let st_tax = match short_term_gain.checked_mul(&rates.short_term_rate) {
        Some(x) => x,
        None => {
            return None;
        },
    };
    let lt_tax = match long_term_gain.checked_mul(&rates.long_term_rate) {
        Some(x) => x,
        None => {
            return None;
        },
    };
    let total_gain = match short_term_gain.checked_add(&long_term_gain) {
        Some(x) => x,
        None => {
            return None;
        },
    };
    let total_tax = match st_tax.checked_add(&lt_tax) {
        Some(x) => x,
        None => {
            return None;
        },
    };
    proof {
        crate::decimal::lemma_units_sign(total_gain);
    }
    let effective_rate = if !total_gain.is_zero() {
        let q = match total_tax.checked_div(&total_gain) {
            Some(x) => x,
            None => {
                return None;
            },
        };
        let pct = match q.checked_mul(&Dec::from_small(100, 0)) {
            Some(x) => x,
            None => {
                return None;
            },
        };
        pct.round_dp(2)
    } else {
        Dec::zero()
    };
    Some(
        TaxComputation {
            short_term_gain,
            long_term_gain,
            total_gain,
            short_term_tax: st_tax,
            long_term_tax: lt_tax,
            total_tax,
            effective_rate,
            jurisdiction_code: owned(jurisdiction_code),
        },
    )
}

} // verus!
