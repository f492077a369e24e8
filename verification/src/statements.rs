//! Statements of an account: its positions valued at their last prices with
//! totals, and its journal entries over a period with debit, credit and net
//! totals.
use vstd::prelude::*;
use crate::decimal::{add_result, exact_sum, lemma_units_exact_sum, mul_result, pair_fits, pair_units, sub_result, sum_is_exact, Dec};
use crate::pnl::or_zero;
use crate::text::str_eq;

verus! {

/// A position as a statement reads it.
#[derive(Debug, Clone)]
pub struct PositionStatementRow {
    pub instrument_id: String,
    pub quantity: Dec,
    pub cost_basis_per_unit: Option<Dec>,
    pub cost_basis_total: Dec,
    pub last_price: Option<Dec>,
    pub total_realized_pnl: Dec,
    pub total_unrealized_pnl: Dec,
}

/// One position line of a statement.
#[derive(Debug, Clone)]
pub struct PositionStatementEntry {
    pub instrument_id: String,
    pub quantity: Dec,
    pub cost_basis_per_unit: Option<Dec>,
    pub cost_basis_total: Dec,
    pub market_price: Option<Dec>,
    pub market_value: Dec,
    pub unrealized_pnl: Dec,
    pub realized_pnl: Dec,
}

/// The positions of an account with their totals.
#[derive(Debug, Clone)]
pub struct PositionStatement {
    pub as_of_date: i32,
    pub tenant_id: u128,
    pub account_id: u128,
    pub positions: Vec<PositionStatementEntry>,
    pub total_market_value: Dec,
    pub total_cost_basis: Dec,
    pub total_unrealized_pnl: Dec,
    pub total_realized_pnl: Dec,
}

/// One journal entry of a transaction statement.
#[derive(Debug, Clone)]
pub struct TransactionStatementEntry {
    pub transaction_id: u128,
    pub entry_sequence: i32,
    pub value_date: i32,
    pub side: String,
    pub amount: Dec,
    pub currency: String,
    pub narrative: String,
    pub instrument_type: String,
    pub instrument_id: String,
}

/// The journal entries of an account over a period with their totals.
#[derive(Debug, Clone)]
pub struct TransactionStatement {
    pub from_date: i32,
    pub to_date: i32,
    pub tenant_id: u128,
    pub account_id: u128,
    pub entries: Vec<TransactionStatementEntry>,
    pub total_debits: Dec,
    pub total_credits: Dec,
    pub net_amount: Dec,
}

/// The market value of a position: its last price (zero if none) times its
/// quantity.
pub open spec fn market_value(row: PositionStatementRow) -> Option<(int, int)> {
    mul_result(or_zero(row.last_price), row.quantity.pair())
}

/// The running totals (market value, cost, unrealized, realized) of the first
/// `n` rows; `None` where a value or a sum overflows.
pub open spec fn position_totals(rows: Seq<PositionStatementRow>, n: int) -> Option<((int, int), (int, int), (int, int), (int, int))>
    decreases n,
{
    if n <= 0 {
        Some(((0, 0), (0, 0), (0, 0), (0, 0)))
    } else {
        match position_totals(rows, n - 1) {
            None => None,
            Some(t) => {
                let row = rows[n - 1];
                match market_value(row) {
                    None => None,
                    Some(mv) => match (
                        add_result(t.0, mv),
                        add_result(t.1, row.cost_basis_total.pair()),
                        add_result(t.2, row.total_unrealized_pnl.pair()),
                        add_result(t.3, row.total_realized_pnl.pair()),
                    ) {
                        (Some(a), Some(b), Some(c), Some(d)) => Some((a, b, c, d)),
                        _ => None,
                    },
                }
            },
        }
    }
}

/// Whether `e` is the statement line of `row`.
pub open spec fn is_position_line(e: PositionStatementEntry, row: PositionStatementRow) -> bool {
    &&& e.instrument_id@ == row.instrument_id@
    &&& e.quantity == row.quantity
    &&& e.cost_basis_per_unit == row.cost_basis_per_unit
    &&& e.cost_basis_total == row.cost_basis_total
    &&& e.market_price == row.last_price
    &&& e.market_value.pair() == market_value(row)->0
    &&& e.unrealized_pnl == row.total_unrealized_pnl
    &&& e.realized_pnl == row.total_realized_pnl
}

/// Once the running totals overflow, they stay undefined.
proof fn lemma_totals_none(rows: Seq<PositionStatementRow>, k: int, n: int)
    requires
        position_totals(rows, k) is None,
        k <= n,
    ensures
        position_totals(rows, n) is None,
    decreases n - k,
{
    if k < n {
        lemma_totals_none(rows, k, n - 1);
    }
}

/// The position statement of an account: one line per position, in order, each
/// valued at its last price (zero if none), and the totals of market value,
/// cost, unrealized and realized P&L; `None` where a value or a total overflows.
pub fn generate_position_statement(
    tenant_id: u128,
    account_id: u128,
    as_of_date: i32,
    rows: &Vec<PositionStatementRow>,
) -> (r: Option<PositionStatement>)
    ensures
        r is Some <==> position_totals(rows@, rows@.len() as int) is Some,
        r matches Some(st) ==> {
            let t = position_totals(rows@, rows@.len() as int)->0;
            &&& st.as_of_date == as_of_date
            &&& st.tenant_id == tenant_id
            &&& st.account_id == account_id
            &&& st.positions@.len() == rows@.len()
            &&& forall|i: int| 0 <= i < rows@.len() ==> is_position_line(#[trigger] st.positions@[i], rows@[i])
            &&& st.total_market_value.pair() == t.0
            &&& st.total_cost_basis.pair() == t.1
            &&& st.total_unrealized_pnl.pair() == t.2
            &&& st.total_realized_pnl.pair() == t.3
        },
{
    let mut entries: Vec<PositionStatementEntry> = Vec::new();
    let mut total_mv = Dec::zero();
    let mut total_cost = Dec::zero();
    let mut total_unrealized = Dec::zero();
    let mut total_realized = Dec::zero();
    let mut i: usize = 0;
    while i < rows.len()
        invariant
            i <= rows@.len(),
            entries@.len() == i,
            forall|k: int| 0 <= k < i ==> is_position_line(#[trigger] entries@[k], rows@[k]),
            position_totals(rows@, i as int) == Some(
                (total_mv.pair(), total_cost.pair(), total_unrealized.pair(), total_realized.pair()),
            ),
        decreases rows.len() - i,
    {
        let row = &rows[i];
        let price = match row.last_price {
            Some(p) => p,
            None => Dec::zero(),
        };
        let mv = match price.checked_mul(&row.quantity) {
            Some(x) => x,
            None => {
                proof {
                    lemma_totals_none(rows@, i as int + 1, rows@.len() as int);
                }
                return None;
            },
        };
        let a = total_mv.checked_add(&mv);
        let b = total_cost.checked_add(&row.cost_basis_total);
        let c = total_unrealized.checked_add(&row.total_unrealized_pnl);
        let d = total_realized.checked_add(&row.total_realized_pnl);
        match (a, b, c, d) {
            (Some(a), Some(b), Some(c), Some(d)) => {
                total_mv = a;
                total_cost = b;
                total_unrealized = c;
                total_realized = d;
            },
            _ => {
                proof {
                    lemma_totals_none(rows@, i as int + 1, rows@.len() as int);
                }
                return None;
            },
        }
        entries.push(
            PositionStatementEntry {
                instrument_id: row.instrument_id.clone(),
                quantity: row.quantity,
                cost_basis_per_unit: row.cost_basis_per_unit,
                cost_basis_total: row.cost_basis_total,
                market_price: row.last_price,
                market_value: mv,
                unrealized_pnl: row.total_unrealized_pnl,
                realized_pnl: row.total_realized_pnl,
            },
        );
        i = i + 1;
    }
    Some(
        PositionStatement {
            as_of_date,
            tenant_id,
            account_id,
            positions: entries,
            total_market_value: total_mv,
            total_cost_basis: total_cost,
            total_unrealized_pnl: total_unrealized,
            total_realized_pnl: total_realized,
        },
    )
}

/// The amounts of the first `n` entries on side `side`, summed in order.
pub open spec fn side_sum(entries: Seq<TransactionStatementEntry>, side: Seq<char>, n: int) -> Option<(int, int)>
    decreases n,
{
    if n <= 0 {
        Some((0, 0))
    } else {
        match side_sum(entries, side, n - 1) {
            None => None,
            Some(s) => if entries[n - 1].side@ == side {
                add_result(s, entries[n - 1].amount.pair())
            } else {
                Some(s)
            },
        }
    }
}

/// Once a side sum overflows, it stays undefined.
proof fn lemma_side_sum_none(entries: Seq<TransactionStatementEntry>, side: Seq<char>, k: int, n: int)
    requires
        side_sum(entries, side, k) is None,
        k <= n,
    ensures
        side_sum(entries, side, n) is None,
    decreases n - k,
{
    if k < n {
        lemma_side_sum_none(entries, side, k, n - 1);
    }
}

/// Sums the amounts of the entries on `side`; `None` on overflow.
fn sum_side(entries: &Vec<TransactionStatementEntry>, side: &str) -> (r: Option<Dec>)
    ensures
        match r {
            Some(x) => side_sum(entries@, side@, entries@.len() as int) == Some(x.pair()),
            None => side_sum(entries@, side@, entries@.len() as int) is None,
        },
{
    let mut total = Dec::zero();
    let mut i: usize = 0;
    while i < entries.len()
        invariant
            i <= entries@.len(),
            side_sum(entries@, side@, i as int) == Some(total.pair()),
        decreases entries.len() - i,
    {
        if str_eq(entries[i].side.as_str(), side) {
            total = match total.checked_add(&entries[i].amount) {
                Some(x) => x,
                None => {
                    proof {
                        lemma_side_sum_none(entries@, side@, i as int + 1, entries@.len() as int);
                    }
                    return None;
                },
            };
        }
        i = i + 1;
    }
    Some(total)
}

/// The transaction statement of an account over a period: the entries as given
/// (in value-date and sequence order), the sum of the "DEBIT" amounts, the sum
/// of the "CREDIT" amounts, and debits less credits; `None` where a sum or the
/// difference overflows.
pub fn generate_transaction_statement(
    tenant_id: u128,
    account_id: u128,
    from_date: i32,
    to_date: i32,
    entries: Vec<TransactionStatementEntry>,
) -> (r: Option<TransactionStatement>)
    ensures
        r is Some <==> (side_sum(entries@, "DEBIT"@, entries@.len() as int) matches Some(d) && side_sum(
            entries@,
            "CREDIT"@,
            entries@.len() as int,
        ) matches Some(c) && sub_result(d, c) is Some),
        r matches Some(st) ==> {
            let d = side_sum(entries@, "DEBIT"@, entries@.len() as int)->0;
            let c = side_sum(entries@, "CREDIT"@, entries@.len() as int)->0;
            &&& st.from_date == from_date
            &&& st.to_date == to_date
            &&& st.tenant_id == tenant_id
            &&& st.account_id == account_id
            &&& st.entries@ == entries@
            &&& st.total_debits.pair() == d
            &&& st.total_credits.pair() == c
            &&& st.net_amount.pair() == sub_result(d, c)->0
        },
{
    let total_debits = match sum_side(&entries, "DEBIT") {
        Some(x) => x,
        None => {
            return None;
        },
    };
    let total_credits = match sum_side(&entries, "CREDIT") {
        Some(x) => x,
        None => {
            return None;
        },
    };
    let net_amount = match total_debits.checked_sub(&total_credits) {
        Some(x) => x,
        None => {
            return None;
        },
    };
    Some(
        TransactionStatement {
            from_date,
            to_date,
            tenant_id,
            account_id,
            entries,
            total_debits,
            total_credits,
            net_amount,
        },
    )
}

/// The sum of the rows' unrealized P&L over the first `n` rows, in units of 10^-28.
pub open spec fn unrealized_units(rows: Seq<PositionStatementRow>, n: int) -> int
    decreases n,
{
    if n <= 0 {
        0
    } else {
        unrealized_units(rows, n - 1) + pair_units(rows[n - 1].total_unrealized_pnl.pair())
    }
}

/// The sum of the rows' realized P&L over the first `n` rows, in units of 10^-28.
pub open spec fn realized_units(rows: Seq<PositionStatementRow>, n: int) -> int
    decreases n,
{
    if n <= 0 {
        0
    } else {
        realized_units(rows, n - 1) + pair_units(rows[n - 1].total_realized_pnl.pair())
    }
}

/// The sum of the rows' costs over the first `n` rows, in units of 10^-28.
pub open spec fn cost_units(rows: Seq<PositionStatementRow>, n: int) -> int
    decreases n,
{
    if n <= 0 {
        0
    } else {
        cost_units(rows, n - 1) + pair_units(rows[n - 1].cost_basis_total.pair())
    }
}

/// Whether adding row `j` to the running cost, unrealized and realized totals
/// of the rows before it is exact.
pub open spec fn row_adds_exactly(rows: Seq<PositionStatementRow>, j: int) -> bool {
    let p = position_totals(rows, j)->0;
    &&& sum_is_exact(p.1, rows[j].cost_basis_total.pair())
    &&& sum_is_exact(p.2, rows[j].total_unrealized_pnl.pair())
    &&& sum_is_exact(p.3, rows[j].total_realized_pnl.pair())
}

/// Whether every addition of the unrealized, realized and cost totals of the
/// first `n` rows is exact (none of them rounds).
pub open spec fn pnl_totals_exact(rows: Seq<PositionStatementRow>, n: int) -> bool {
    position_totals(rows, n) is Some && forall|j: int| 0 <= j < n ==> #[trigger] row_adds_exactly(rows, j)
}

/// A defined running total has defined running totals before it.
proof fn lemma_totals_prefix(rows: Seq<PositionStatementRow>, k: int, n: int)
    requires
        position_totals(rows, n) is Some,
        k <= n,
    ensures
        position_totals(rows, k) is Some,
    decreases n - k,
{
    if k < n {
        lemma_totals_prefix(rows, k, n - 1);
    }
}

/// Where no addition rounds, the running cost, unrealized and realized totals
/// are worth the plain sums of the rows.
proof fn lemma_totals_value(rows: Seq<PositionStatementRow>, n: int, m: int)
    requires
        forall|i: int| 0 <= i < rows.len() ==> {
            &&& pair_fits(#[trigger] rows[i].cost_basis_total.pair())
            &&& pair_fits(rows[i].total_unrealized_pnl.pair())
            &&& pair_fits(rows[i].total_realized_pnl.pair())
        },
        0 <= n <= m <= rows.len(),
        pnl_totals_exact(rows, m),
    ensures
        position_totals(rows, n) matches Some(t) && pair_units(t.1) == cost_units(rows, n) && pair_units(t.2)
            == unrealized_units(rows, n) && pair_units(t.3) == realized_units(rows, n) && 0 <= t.1.1 <= 28 && 0
            <= t.2.1 <= 28 && 0 <= t.3.1 <= 28,
    decreases n,
{
    lemma_totals_prefix(rows, n, m);
    if n == 0 {
        let z = crate::decimal::pow10(28);
        assert(0 * z == 0) by (nonlinear_arith);
        assert(pair_units((0, 0)) == 0);
    } else {
        lemma_totals_value(rows, n - 1, m);
        let p = position_totals(rows, n - 1)->0;
        let row = rows[n - 1];
        assert(pair_fits(rows[n - 1].cost_basis_total.pair()));
        assert(row_adds_exactly(rows, n - 1));
        lemma_units_exact_sum(p.1, row.cost_basis_total.pair());
        lemma_units_exact_sum(p.2, row.total_unrealized_pnl.pair());
        lemma_units_exact_sum(p.3, row.total_realized_pnl.pair());
    }
}

/// Law (statement totals are plain sums): where no addition rounds, the
/// statement's total cost, unrealized and realized P&L are the signed sums of
/// the rows' values; a loss counts as a loss.
pub proof fn law_statement_totals_are_sums(rows: Seq<PositionStatementRow>)
    requires
        forall|i: int| 0 <= i < rows.len() ==> {
            &&& pair_fits(#[trigger] rows[i].cost_basis_total.pair())
            &&& pair_fits(rows[i].total_unrealized_pnl.pair())
            &&& pair_fits(rows[i].total_realized_pnl.pair())
        },
        pnl_totals_exact(rows, rows.len() as int),
    ensures
        position_totals(rows, rows.len() as int) matches Some(t) && pair_units(t.1) == cost_units(
            rows,
            rows.len() as int,
        ) && pair_units(t.2) == unrealized_units(rows, rows.len() as int) && pair_units(t.3) == realized_units(
            rows,
            rows.len() as int,
        ),
{
    lemma_totals_value(rows, rows.len() as int, rows.len() as int);
}

} // verus!
