//! Performance of an account over a period: the net cash flow, the simple total
//! return, and the time-weighted return of a period without cash flows.
use vstd::prelude::*;
use crate::decimal::{
    add_result, difference_is_exact, div_result, exact_difference, exact_sum, lemma_pow10_positive,
    lemma_quotient_value, lemma_units_exact_difference, lemma_units_exact_sum, pair_fits, pair_units, pow10,
    quotient_terminates, sub_result, sum_is_exact, Dec,
};

verus! {

/// The net journal flow of an account on one day.
#[derive(Debug, Clone, Copy)]
pub struct CashFlow {
    pub date: i32,
    pub amount: Dec,
}

/// The amounts of the first `n` cash flows, summed in order.
pub open spec fn flow_sum(flows: Seq<CashFlow>, n: int) -> Option<(int, int)>
    decreases n,
{
    if n <= 0 {
        Some((0, 0))
    } else {
        match flow_sum(flows, n - 1) {
            None => None,
            Some(s) => add_result(s, flows[n - 1].amount.pair()),
        }
    }
}

/// The simple total return: (end - start - net flow) / start, zero when the
/// start value is zero.
pub open spec fn total_return_of(start: (int, int), end: (int, int), ncf: (int, int)) -> Option<(int, int)> {
    if pair_units(start) != 0 {
        match sub_result(end, start) {
            None => None,
            Some(d) => match sub_result(d, ncf) {
                None => None,
                Some(g) => div_result(g, start),
            },
        }
    } else {
        Some((0, 0))
    }
}

/// Once a running flow sum overflows, it stays undefined.
proof fn lemma_flow_sum_none(flows: Seq<CashFlow>, k: int, n: int)
    requires
        flow_sum(flows, k) is None,
        k <= n,
    ensures
        flow_sum(flows, n) is None,
    decreases n - k,
{
    if k < n {
        lemma_flow_sum_none(flows, k, n - 1);
    }
}

/// The net cash flow of the period and its simple total return on the start
/// value; `None` where a sum, difference or quotient overflows.
pub fn net_flow_and_return(flows: &Vec<CashFlow>, start_value: Dec, end_value: Dec) -> (r: Option<(Dec, Dec)>)
    ensures
        r is Some <==> (flow_sum(flows@, flows@.len() as int) matches Some(n) && total_return_of(
            start_value.pair(),
            end_value.pair(),
            n,
        ) is Some),
        r matches Some((ncf, ret)) ==> {
            &&& ncf.pair() == flow_sum(flows@, flows@.len() as int)->0
            &&& ret.pair() == total_return_of(start_value.pair(), end_value.pair(), ncf.pair())->0
        },
{
    let mut ncf = Dec::zero();
    let mut i: usize = 0;
    while i < flows.len()
        invariant
            i <= flows@.len(),
            flow_sum(flows@, i as int) == Some(ncf.pair()),
        decreases flows.len() - i,
    {
        ncf = match ncf.checked_add(&flows[i].amount) {
            Some(x) => x,
            None => {
                proof {
                    lemma_flow_sum_none(flows@, i as int + 1, flows@.len() as int);
                }
                return None;
            },
        };
        i = i + 1;
    }
    proof {
        crate::decimal::lemma_units_sign(start_value);
    }
    let ret = if !start_value.is_zero() {
        let d = match end_value.checked_sub(&start_value) {
            Some(x) => x,
            None => {
                return None;
            },
        };
        let g = match d.checked_sub(&ncf) {
            Some(x) => x,
            None => {
                return None;
            },
        };
        match g.checked_div(&start_value) {
            Some(x) => x,
            None => {
                return None;
            },
        }
    } else {
        Dec::zero()
    };
    Some((ncf, ret))
}

/// The time-weighted return of a period without cash flows: (end - start) /
/// start, none when the start value is zero.  The outer `None` is an overflow.
pub fn twr_without_flows(start_value: Dec, end_value: Dec) -> (r: Option<Option<Dec>>)
    ensures
        start_value.units() == 0 ==> r == Some(None::<Dec>),
        start_value.units() != 0 ==> {
            &&& r is Some <==> (sub_result(end_value.pair(), start_value.pair()) matches Some(d) && div_result(
                d,
                start_value.pair(),
            ) is Some)
            &&& r matches Some(Some(x)) ==> x.pair() == div_result(
                sub_result(end_value.pair(), start_value.pair())->0,
                start_value.pair(),
            )->0
            &&& r matches Some(o) ==> o is Some
        },
{
    proof {
        crate::decimal::lemma_units_sign(start_value);
    }
    if start_value.is_zero() {
        return Some(None);
    }
    let d = match end_value.checked_sub(&start_value) {
        Some(x) => x,
        None => {
            return None;
        },
    };
    match d.checked_div(&start_value) {
        Some(x) => Some(Some(x)),
        None => None,
    }
}

/// The sum of the values of the first `n` flows, in units of 10^-28.
pub open spec fn flow_units(flows: Seq<CashFlow>, n: int) -> int
    decreases n,
{
    if n <= 0 {
        0
    } else {
        flow_units(flows, n - 1) + pair_units(flows[n - 1].amount.pair())
    }
}

/// The running sum of the first `n` flows where every addition is exact, and
/// whether it is.
pub open spec fn exact_flow_total(flows: Seq<CashFlow>, n: int) -> Option<(int, int)>
    decreases n,
{
    if n <= 0 {
        Some((0, 0))
    } else {
        match exact_flow_total(flows, n - 1) {
            Some(s) => if sum_is_exact(s, flows[n - 1].amount.pair()) {
                Some(exact_sum(s, flows[n - 1].amount.pair()))
            } else {
                None
            },
            None => None,
        }
    }
}

/// Where no addition rounds, the net cash flow is worth the plain sum of the flows.
proof fn lemma_flow_sum_value(flows: Seq<CashFlow>, n: int)
    requires
        forall|i: int| 0 <= i < flows.len() ==> pair_fits(#[trigger] flows[i].amount.pair()),
        n <= flows.len(),
        exact_flow_total(flows, n) is Some,
    ensures
        flow_sum(flows, n) == exact_flow_total(flows, n),
        pair_units(flow_sum(flows, n)->0) == flow_units(flows, n),
        0 <= (flow_sum(flows, n)->0).1 <= 28,
    decreases n,
{
    if n <= 0 {
        crate::decimal::lemma_pow10_positive(28);
        assert(pair_units((0, 0)) == 0);
    } else {
        lemma_flow_sum_value(flows, n - 1);
        let s = flow_sum(flows, n - 1)->0;
        assert(pair_fits(flows[n - 1].amount.pair()));
        lemma_units_exact_sum(s, flows[n - 1].amount.pair());
    }
}

/// Law (net flow is the sum of the flows): where no addition rounds, the net
/// cash flow is defined and worth the plain sum of the flows' amounts, whatever
/// their signs.
pub proof fn law_net_flow_is_sum(flows: Seq<CashFlow>)
    requires
        forall|i: int| 0 <= i < flows.len() ==> pair_fits(#[trigger] flows[i].amount.pair()),
        exact_flow_total(flows, flows.len() as int) is Some,
    ensures
        flow_sum(flows, flows.len() as int) matches Some(s) && pair_units(s) == flow_units(flows, flows.len() as int),
{
    lemma_flow_sum_value(flows, flows.len() as int);
}

/// Law (return on the gain): for a nonzero start value the total return times
/// the start value is the gain, end - start - net flow, with its sign; so a
/// value that falls with no flows gives a negative return.  Stated where the two
/// subtractions are exact and the quotient terminates (no step rounds).
pub proof fn law_total_return_is_gain_over_start(start: (int, int), end: (int, int), ncf: (int, int))
    requires
        pair_fits(start),
        pair_fits(end),
        pair_fits(ncf),
        pair_units(start) != 0,
        difference_is_exact(end, start),
        difference_is_exact(exact_difference(end, start), ncf),
        exact_difference(exact_difference(end, start), ncf).0 != 0 ==> quotient_terminates(
            exact_difference(exact_difference(end, start), ncf),
            start,
        ),
    ensures
        total_return_of(start, end, ncf) matches Some(r) && pair_units(r) * pair_units(start) == (pair_units(end)
            - pair_units(start) - pair_units(ncf)) * pow10(28),
        pair_units(start) > 0 ==> (pair_units(total_return_of(start, end, ncf)->0) < 0 <==> pair_units(end)
            < pair_units(start) + pair_units(ncf)),
        pair_units(start) > 0 ==> (pair_units(total_return_of(start, end, ncf)->0) == 0 <==> pair_units(end)
            == pair_units(start) + pair_units(ncf)),
{
    lemma_pow10_positive(28);
    lemma_pow10_positive((28 - start.1) as nat);
    assert(start.0 != 0) by (nonlinear_arith)
        requires
            pair_units(start) == start.0 * pow10((28 - start.1) as nat),
            pair_units(start) != 0,
    ;
    let d = exact_difference(end, start);
    lemma_units_exact_difference(end, start);
    let g = exact_difference(d, ncf);
    lemma_units_exact_difference(d, ncf);
    lemma_quotient_value(g, start);
    let r = total_return_of(start, end, ncf)->0;
    let p = pow10(28);
    let us = pair_units(start);
    let ug = pair_units(g);
    assert(us > 0 ==> ((pair_units(r) < 0 <==> ug < 0) && (pair_units(r) == 0 <==> ug == 0))) by (nonlinear_arith)
        requires
            pair_units(r) * us == ug * p,
            p > 0,
    ;
}

} // verus!
