//! Reconciliation of journal balances against position records: accounts with
//! journal entries but no positions, accounts with positions but no journal
//! entries, balances that differ from the positions' cost by more than a cent,
//! and accounts whose debits and credits do not match.
use vstd::prelude::*;
use crate::decimal::{
    add_result, decimal_display, difference_is_exact, lemma_units_exact_difference, lemma_units_neg, pair_fits,
    pair_units, pow10, sub_result, Dec,
};
use crate::text::owned;

verus! {

/// The journal totals of an account up to a date.
#[derive(Debug, Clone, Copy)]
pub struct AccountBalance {
    pub account_id: u128,
    pub debit_total: Dec,
    pub credit_total: Dec,
    pub net_balance: Dec,
}

/// A position record of an account.
#[derive(Debug, Clone)]
pub struct PositionBalance {
    pub account_id: u128,
    pub instrument_id: String,
    pub quantity: Dec,
    pub cost_basis_total: Dec,
}

/// A difference found by a reconciliation.
#[derive(Debug, Clone)]
pub struct ReconDiscrepancy {
    pub account_id: u128,
    pub instrument_id: Option<String>,
    pub source: String,
    pub message: String,
    pub amount_difference: Dec,
}

/// The outcome of a reconciliation.
#[derive(Debug, Clone)]
pub struct ReconResult {
    pub as_of_date: i32,
    pub tenant_id: u128,
    pub passed: bool,
    pub total_discrepancies: usize,
    pub total_difference: Dec,
    pub discrepancies: Vec<ReconDiscrepancy>,
}

/// A discrepancy as plain values.
pub struct DiscrepancyView {
    pub account_id: u128,
    pub instrument_id: Option<Seq<char>>,
    pub source: Seq<char>,
    pub message: Seq<char>,
    pub amount: (int, int),
}

impl View for ReconDiscrepancy {
    type V = DiscrepancyView;

    open spec fn view(&self) -> DiscrepancyView {
        DiscrepancyView {
            account_id: self.account_id,
            instrument_id: match self.instrument_id {
                Some(s) => Some(s@),
                None => None,
            },
            source: self.source@,
            message: self.message@,
            amount: self.amount_difference.pair(),
        }
    }
}

/// The views of a sequence of discrepancies.
pub open spec fn views_of(v: Seq<ReconDiscrepancy>) -> Seq<DiscrepancyView> {
    Seq::new(v.len(), |i: int| v[i]@)
}

/// The tolerance a difference must exceed to count: 0.01.
pub open spec fn tolerance_units() -> int {
    pair_units((1, 2))
}

/// The absolute value of a pair (same scale).
pub open spec fn abs_pair(p: (int, int)) -> (int, int) {
    (if p.0 < 0 { -p.0 } else { p.0 }, p.1)
}

/// Whether some journal balance is of account `a`.
pub open spec fn has_balance(bs: Seq<AccountBalance>, a: u128) -> bool {
    exists|i: int| 0 <= i < bs.len() && #[trigger] bs[i].account_id == a
}

/// Whether some position is of account `a`.
pub open spec fn has_position(ps: Seq<PositionBalance>, a: u128) -> bool {
    exists|i: int| 0 <= i < ps.len() && #[trigger] ps[i].account_id == a
}

/// Whether balance `i` is the first of its account.
pub open spec fn first_balance(bs: Seq<AccountBalance>, i: int) -> bool {
    forall|j: int| 0 <= j < i ==> #[trigger] bs[j].account_id != bs[i].account_id
}

/// Whether position `i` is the first of its account.
pub open spec fn first_position(ps: Seq<PositionBalance>, i: int) -> bool {
    forall|j: int| 0 <= j < i ==> #[trigger] ps[j].account_id != ps[i].account_id
}

/// The discrepancy of an account with journal entries and no positions.
pub open spec fn no_position_view(b: AccountBalance) -> DiscrepancyView {
    DiscrepancyView {
        account_id: b.account_id,
        instrument_id: None,
        source: "journal_entries"@,
        message: "Account has journal entries (net: "@ + decimal_display(b.net_balance.pair().0, b.net_balance.pair().1)
            + ") but no position records"@,
        amount: b.net_balance.pair(),
    }
}

/// The discrepancy of an account with positions and no journal entries.
pub open spec fn no_journal_view(p: PositionBalance) -> DiscrepancyView {
    DiscrepancyView {
        account_id: p.account_id,
        instrument_id: Some(p.instrument_id@),
        source: "position_cost_basis"@,
        message: "Account has position records but no journal entries"@,
        amount: p.cost_basis_total.pair(),
    }
}

/// The discrepancies of accounts among the first `n` balances (each account
/// once, at its first balance) that have no position.
pub open spec fn without_positions(bs: Seq<AccountBalance>, ps: Seq<PositionBalance>, n: int) -> Seq<DiscrepancyView>
    decreases n,
{
    if n <= 0 {
        Seq::empty()
    } else {
        let prev = without_positions(bs, ps, n - 1);
        if first_balance(bs, n - 1) && !has_position(ps, bs[n - 1].account_id) {
            prev.push(no_position_view(bs[n - 1]))
        } else {
            prev
        }
    }
}

/// The discrepancies of accounts among the first `n` positions (each account
/// once, at its first position) that have no journal balance.
pub open spec fn without_journal(bs: Seq<AccountBalance>, ps: Seq<PositionBalance>, n: int) -> Seq<DiscrepancyView>
    decreases n,
{
    if n <= 0 {
        Seq::empty()
    } else {
        let prev = without_journal(bs, ps, n - 1);
        if first_position(ps, n - 1) && !has_balance(bs, ps[n - 1].account_id) {
            prev.push(no_journal_view(ps[n - 1]))
        } else {
            prev
        }
    }
}

/// The cost totals of the first `n` positions of account `a`, summed in order.
pub open spec fn position_sum(ps: Seq<PositionBalance>, a: u128, n: int) -> Option<(int, int)>
    decreases n,
{
    if n <= 0 {
        Some((0, 0))
    } else {
        match position_sum(ps, a, n - 1) {
            None => None,
            Some(s) => if ps[n - 1].account_id == a {
                add_result(s, ps[n - 1].cost_basis_total.pair())
            } else {
                Some(s)
            },
        }
    }
}

/// The discrepancy of a balance that differs from the positions' cost.
pub open spec fn mismatch_view(a: u128, b: AccountBalance, psum: (int, int), diff: (int, int)) -> DiscrepancyView {
    DiscrepancyView {
        account_id: a,
        instrument_id: None,
        source: "balance_mismatch"@,
        message: "Account will have JE balance "@ + decimal_display(b.net_balance.pair().0, b.net_balance.pair().1)
            + " vs position cost "@ + decimal_display(psum.0, psum.1),
        amount: diff,
    }
}

/// The balance mismatches of account `a` among the first `n` balances: each
/// balance of `a` whose net differs from `psum` by more than the tolerance.
pub open spec fn mismatches(bs: Seq<AccountBalance>, a: u128, psum: (int, int), n: int) -> Option<Seq<DiscrepancyView>>
    decreases n,
{
    if n <= 0 {
        Some(Seq::empty())
    } else {
        match mismatches(bs, a, psum, n - 1) {
            None => None,
            Some(prev) => if bs[n - 1].account_id == a {
                match sub_result(bs[n - 1].net_balance.pair(), psum) {
                    None => None,
                    Some(d) => if pair_units(abs_pair(d)) > tolerance_units() {
                        Some(prev.push(mismatch_view(a, bs[n - 1], psum, d)))
                    } else {
                        Some(prev)
                    },
                }
            } else {
                Some(prev)
            },
        }
    }
}

/// Whether a balance has debits and credits, both above zero, that differ.
pub open spec fn is_lopsided(b: AccountBalance) -> bool {
    &&& b.debit_total.units() != b.credit_total.units()
    &&& b.debit_total.units() > 0
    &&& b.credit_total.units() > 0
}

/// The discrepancy of a balance whose debits and credits differ.
pub open spec fn unbalanced_view(a: u128, b: AccountBalance, diff: (int, int)) -> DiscrepancyView {
    DiscrepancyView {
        account_id: a,
        instrument_id: None,
        source: "unbalanced"@,
        message: "Account has unbalanced journal entries: D="@ + decimal_display(
            b.debit_total.pair().0,
            b.debit_total.pair().1,
        ) + " C="@ + decimal_display(b.credit_total.pair().0, b.credit_total.pair().1) + " diff="@
            + decimal_display(diff.0, diff.1),
        amount: diff,
    }
}

/// The unbalanced journals of account `a` among the first `n` balances: each
/// lopsided balance of `a` whose debits less credits exceed the tolerance.
pub open spec fn unbalanced(bs: Seq<AccountBalance>, a: u128, n: int) -> Option<Seq<DiscrepancyView>>
    decreases n,
{
    if n <= 0 {
        Some(Seq::empty())
    } else {
        match unbalanced(bs, a, n - 1) {
            None => None,
            Some(prev) => if bs[n - 1].account_id == a && is_lopsided(bs[n - 1]) {
                match sub_result(bs[n - 1].debit_total.pair(), bs[n - 1].credit_total.pair()) {
                    None => None,
                    Some(d) => if pair_units(abs_pair(d)) > tolerance_units() {
                        Some(prev.push(unbalanced_view(a, bs[n - 1], d)))
                    } else {
                        Some(prev)
                    },
                }
            } else {
                Some(prev)
            },
        }
    }
}

/// The checks of an account with both journal balances and positions: its
/// balance mismatches, then its unbalanced journals.
pub open spec fn account_checks(bs: Seq<AccountBalance>, ps: Seq<PositionBalance>, a: u128) -> Option<Seq<DiscrepancyView>> {
    match position_sum(ps, a, ps.len() as int) {
        None => None,
        Some(psum) => match mismatches(bs, a, psum, bs.len() as int) {
            None => None,
            Some(m) => match unbalanced(bs, a, bs.len() as int) {
                None => None,
                Some(u) => Some(m + u),
            },
        },
    }
}

/// The checks of the accounts among the first `n` balances (each once, at its
/// first balance) that also have positions.
pub open spec fn both_checks(bs: Seq<AccountBalance>, ps: Seq<PositionBalance>, n: int) -> Option<Seq<DiscrepancyView>>
    decreases n,
{
    if n <= 0 {
        Some(Seq::empty())
    } else {
        match both_checks(bs, ps, n - 1) {
            None => None,
            Some(prev) => if first_balance(bs, n - 1) && has_position(ps, bs[n - 1].account_id) {
                match account_checks(bs, ps, bs[n - 1].account_id) {
                    None => None,
                    Some(c) => Some(prev + c),
                }
            } else {
                Some(prev)
            },
        }
    }
}

/// The discrepancies of a reconciliation: accounts without positions, accounts
/// without journal entries, then the checks of accounts with both.
pub open spec fn discrepancies_of(bs: Seq<AccountBalance>, ps: Seq<PositionBalance>) -> Option<Seq<DiscrepancyView>> {
    match both_checks(bs, ps, bs.len() as int) {
        None => None,
        Some(c) => Some(without_positions(bs, ps, bs.len() as int) + without_journal(bs, ps, ps.len() as int) + c),
    }
}

/// The absolute amounts of the first `n` discrepancies, summed in order.
pub open spec fn total_abs(ds: Seq<DiscrepancyView>, n: int) -> Option<(int, int)>
    decreases n,
{
    if n <= 0 {
        Some((0, 0))
    } else {
        match total_abs(ds, n - 1) {
            None => None,
            Some(s) => add_result(s, abs_pair(ds[n - 1].amount)),
        }
    }
}

/// Whether balance account `a` has a position.
fn position_exists(ps: &Vec<PositionBalance>, a: u128) -> (r: bool)
    ensures
        r == has_position(ps@, a),
{
    let mut i: usize = 0;
    while i < ps.len()
        invariant
            i <= ps@.len(),
            forall|j: int| 0 <= j < i ==> #[trigger] ps@[j].account_id != a,
        decreases ps.len() - i,
    {
        if ps[i].account_id == a {
            return true;
        }
        i = i + 1;
    }
    false
}

/// Whether some balance is of account `a`.
fn balance_exists(bs: &Vec<AccountBalance>, a: u128) -> (r: bool)
    ensures
        r == has_balance(bs@, a),
{
    let mut i: usize = 0;
    while i < bs.len()
        invariant
            i <= bs@.len(),
            forall|j: int| 0 <= j < i ==> #[trigger] bs@[j].account_id != a,
        decreases bs.len() - i,
    {
        if bs[i].account_id == a {
            return true;
        }
        i = i + 1;
    }
    false
}

/// Whether balance `i` is the first of its account.
fn is_first_balance(bs: &Vec<AccountBalance>, i: usize) -> (r: bool)
    requires
        i < bs@.len(),
    ensures
        r == first_balance(bs@, i as int),
{
    let mut j: usize = 0;
    while j < i
        invariant
            i < bs@.len(),
            j <= i,
            forall|k: int| 0 <= k < j ==> #[trigger] bs@[k].account_id != bs@[i as int].account_id,
        decreases i - j,
    {
        if bs[j].account_id == bs[i].account_id {
            return false;
        }
        j = j + 1;
    }
    true
}

/// Whether position `i` is the first of its account.
fn is_first_position(ps: &Vec<PositionBalance>, i: usize) -> (r: bool)
    requires
        i < ps@.len(),
    ensures
        r == first_position(ps@, i as int),
{
    let mut j: usize = 0;
    while j < i
        invariant
            i < ps@.len(),
            j <= i,
            forall|k: int| 0 <= k < j ==> #[trigger] ps@[k].account_id != ps@[i as int].account_id,
        decreases i - j,
    {
        if ps[j].account_id == ps[i].account_id {
            return false;
        }
        j = j + 1;
    }
    true
}

/// Appends one discrepancy, keeping the views in step.
fn push_discrepancy(out: &mut Vec<ReconDiscrepancy>, d: ReconDiscrepancy)
    ensures
        views_of(final(out)@) == views_of(old(out)@).push(d@),
{
    out.push(d);
    assert(views_of(out@) =~= views_of(old(out)@).push(d@));
}

/// Once a running position sum overflows, it stays undefined.
proof fn lemma_position_sum_none(ps: Seq<PositionBalance>, a: u128, k: int, n: int)
    requires
        position_sum(ps, a, k) is None,
        k <= n,
    ensures
        position_sum(ps, a, n) is None,
    decreases n - k,
{
    if k < n {
        lemma_position_sum_none(ps, a, k, n - 1);
    }
}

/// Once the mismatch checks overflow, they stay undefined.
proof fn lemma_mismatches_none(bs: Seq<AccountBalance>, a: u128, psum: (int, int), k: int, n: int)
    requires
        mismatches(bs, a, psum, k) is None,
        k <= n,
    ensures
        mismatches(bs, a, psum, n) is None,
    decreases n - k,
{
    if k < n {
        lemma_mismatches_none(bs, a, psum, k, n - 1);
    }
}

/// Once the unbalanced checks overflow, they stay undefined.
proof fn lemma_unbalanced_none(bs: Seq<AccountBalance>, a: u128, k: int, n: int)
    requires
        unbalanced(bs, a, k) is None,
        k <= n,
    ensures
        unbalanced(bs, a, n) is None,
    decreases n - k,
{
    if k < n {
        lemma_unbalanced_none(bs, a, k, n - 1);
    }
}

/// Once the checks of accounts with both overflow, they stay undefined.
proof fn lemma_both_none(bs: Seq<AccountBalance>, ps: Seq<PositionBalance>, k: int, n: int)
    requires
        both_checks(bs, ps, k) is None,
        k <= n,
    ensures
        both_checks(bs, ps, n) is None,
    decreases n - k,
{
    if k < n {
        lemma_both_none(bs, ps, k, n - 1);
    }
}

/// Once the running total overflows, it stays undefined.
proof fn lemma_total_none(ds: Seq<DiscrepancyView>, k: int, n: int)
    requires
        total_abs(ds, k) is None,
        k <= n,
    ensures
        total_abs(ds, n) is None,
    decreases n - k,
{
    if k < n {
        lemma_total_none(ds, k, n - 1);
    }
}

/// Sums the costs of the positions of account `a`; `None` on overflow.
fn sum_positions(ps: &Vec<PositionBalance>, a: u128) -> (r: Option<Dec>)
    ensures
        match r {
            Some(x) => position_sum(ps@, a, ps@.len() as int) == Some(x.pair()),
            None => position_sum(ps@, a, ps@.len() as int) is None,
        },
{
    let mut total = Dec::zero();
    let mut i: usize = 0;
    while i < ps.len()
        invariant
            i <= ps@.len(),
            position_sum(ps@, a, i as int) == Some(total.pair()),
        decreases ps.len() - i,
    {
        if ps[i].account_id == a {
            total = match total.checked_add(&ps[i].cost_basis_total) {
                Some(x) => x,
                None => {
                    proof {
                        lemma_position_sum_none(ps@, a, i as int + 1, ps@.len() as int);
                    }
                    return None;
                },
            };
        }
        i = i + 1;
    }
    Some(total)
}

/// Appends the checks of account `a`; `false` on overflow.
fn check_account(
    out: &mut Vec<ReconDiscrepancy>,
    bs: &Vec<AccountBalance>,
    ps: &Vec<PositionBalance>,
    a: u128,
) -> (ok: bool)
    ensures
        ok == (account_checks(bs@, ps@, a) is Some),
        ok ==> views_of(final(out)@) == views_of(old(out)@) + account_checks(bs@, ps@, a)->0,
{
    let ghost start = views_of(out@);
    let psum = match sum_positions(ps, a) {
        Some(x) => x,
        None => {
            return false;
        },
    };
    let tolerance = Dec::from_small(1, 2);
    let mut i: usize = 0;
    while i < bs.len()
        invariant
            i <= bs@.len(),
            tolerance.pair() == (1int, 2int),
            position_sum(ps@, a, ps@.len() as int) == Some(psum.pair()),
            mismatches(bs@, a, psum.pair(), i as int) matches Some(m) && views_of(out@) == start + m,
        decreases bs.len() - i,
    {
        let b = &bs[i];
        if b.account_id == a {
            let diff = match b.net_balance.checked_sub(&psum) {
                Some(x) => x,
                None => {
                    proof {
                        lemma_mismatches_none(bs@, a, psum.pair(), i as int + 1, bs@.len() as int);
                    }
                    return false;
                },
            };
            if diff.abs().compare(&tolerance) == crate::decimal::Order::Greater {
                let mut message = owned("Account will have JE balance ");
                message.append(b.net_balance.display().as_str());
                message.append(" vs position cost ");
                message.append(psum.display().as_str());
                push_discrepancy(
                    out,
                    ReconDiscrepancy {
                        account_id: a,
                        instrument_id: None,
                        source: owned("balance_mismatch"),
                        message,
                        amount_difference: diff,
                    },
                );
            }
        }
        i = i + 1;
    }
    let ghost after_mismatch = views_of(out@);
    let mut i: usize = 0;
    while i < bs.len()
        invariant
            i <= bs@.len(),
            tolerance.pair() == (1int, 2int),
            position_sum(ps@, a, ps@.len() as int) == Some(psum.pair()),
            mismatches(bs@, a, psum.pair(), bs@.len() as int) matches Some(m) && after_mismatch == start + m,
            unbalanced(bs@, a, i as int) matches Some(u) && views_of(out@) == after_mismatch + u,
        decreases bs.len() - i,
    {
        let b = &bs[i];
        proof {
            crate::decimal::lemma_units_sign(b.debit_total);
            crate::decimal::lemma_units_sign(b.credit_total);
        }
        if b.account_id == a && b.debit_total.compare(&b.credit_total) != crate::decimal::Order::Equal
            && b.debit_total.is_positive() && b.credit_total.is_positive() {
            let diff = match b.debit_total.checked_sub(&b.credit_total) {
                Some(x) => x,
                None => {
                    proof {
                        lemma_unbalanced_none(bs@, a, i as int + 1, bs@.len() as int);
                    }
                    return false;
                },
            };
            if diff.abs().compare(&tolerance) == crate::decimal::Order::Greater {
                let mut message = owned("Account has unbalanced journal entries: D=");
                message.append(b.debit_total.display().as_str());
                message.append(" C=");
                message.append(b.credit_total.display().as_str());
                message.append(" diff=");
                message.append(diff.display().as_str());
                push_discrepancy(
                    out,
                    ReconDiscrepancy {
                        account_id: a,
                        instrument_id: None,
                        source: owned("unbalanced"),
                        message,
                        amount_difference: diff,
                    },
                );
            }
        }
        i = i + 1;
    }
    proof {
        let m = mismatches(bs@, a, psum.pair(), bs@.len() as int)->0;
        let u = unbalanced(bs@, a, bs@.len() as int)->0;
        assert(views_of(out@) =~= start + (m + u));
    }
    true
}

/// Reconciles the journal balances of a tenant's accounts up to `as_of_date`
/// against their position records (one balance per account, as the journal
/// totals are grouped by account): an account with journal entries and no
/// position is reported with its net balance; an account with positions and no
/// journal entries with its first position's instrument and cost; an account
/// with both with each balance that differs from the sum of its positions' cost
/// by more than 0.01, and each balance whose debits and credits are both above
/// zero and differ by more than 0.01.  Accounts are taken in the order of their
/// first balance (or first position).  The reconciliation passes when nothing is
/// found; the total difference sums the absolute amounts.  `None` where a sum or
/// difference overflows.
pub fn reconcile(
    tenant_id: u128,
    as_of_date: i32,
    balances: &Vec<AccountBalance>,
    positions: &Vec<PositionBalance>,
) -> (r: Option<ReconResult>)
    ensures
        r is Some <==> (discrepancies_of(balances@, positions@) matches Some(ds) && total_abs(ds, ds.len() as int) is Some),
        r matches Some(res) ==> {
            let ds = discrepancies_of(balances@, positions@)->0;
            &&& views_of(res.discrepancies@) == ds
            &&& res.as_of_date == as_of_date
            &&& res.tenant_id == tenant_id
            &&& res.passed == (ds.len() == 0)
            &&& res.total_discrepancies == ds.len()
            &&& res.total_difference.pair() == total_abs(ds, ds.len() as int)->0
        },
{
    let mut out: Vec<ReconDiscrepancy> = Vec::new();
    proof {
        assert(views_of(out@) =~= Seq::<DiscrepancyView>::empty());
    }
    let mut i: usize = 0;
    while i < balances.len()
        invariant
            i <= balances@.len(),
            views_of(out@) == without_positions(balances@, positions@, i as int),
        decreases balances.len() - i,
    {
        let b = &balances[i];
        if is_first_balance(balances, i) && !position_exists(positions, b.account_id) {
            let mut message = owned("Account has journal entries (net: ");
            message.append(b.net_balance.display().as_str());
            message.append(") but no position records");
            push_discrepancy(
                &mut out,
                ReconDiscrepancy {
                    account_id: b.account_id,
                    instrument_id: None,
                    source: owned("journal_entries"),
                    message,
                    amount_difference: b.net_balance,
                },
            );
        }
        i = i + 1;
    }
    let ghost part1 = views_of(out@);
    let mut j: usize = 0;
    while j < positions.len()
        invariant
            j <= positions@.len(),
            part1 == without_positions(balances@, positions@, balances@.len() as int),
            views_of(out@) == part1 + without_journal(balances@, positions@, j as int),
        decreases positions.len() - j,
    {
        let p = &positions[j];
        if is_first_position(positions, j) && !balance_exists(balances, p.account_id) {
            push_discrepancy(
                &mut out,
                ReconDiscrepancy {
                    account_id: p.account_id,
                    instrument_id: Some(p.instrument_id.clone()),
                    source: owned("position_cost_basis"),
                    message: owned("Account has position records but no journal entries"),
                    amount_difference: p.cost_basis_total,
                },
            );
            proof {
                assert(views_of(out@) =~= part1 + without_journal(balances@, positions@, j as int + 1));
            }
        }
        j = j + 1;
    }
    let ghost part12 = views_of(out@);
    let mut i: usize = 0;
    while i < balances.len()
        invariant
            i <= balances@.len(),
            part12 == without_positions(balances@, positions@, balances@.len() as int) + without_journal(
                balances@,
                positions@,
                positions@.len() as int,
            ),
            both_checks(balances@, positions@, i as int) matches Some(c) && views_of(out@) == part12 + c,
        decreases balances.len() - i,
    {
        let b = &balances[i];
        if is_first_balance(balances, i) && position_exists(positions, b.account_id) {
            let ghost before = views_of(out@);
            if !check_account(&mut out, balances, positions, b.account_id) {
                proof {
                    lemma_both_none(balances@, positions@, i as int + 1, balances@.len() as int);
                }
                return None;
            }
            proof {
                let prev = both_checks(balances@, positions@, i as int)->0;
                let c = account_checks(balances@, positions@, b.account_id)->0;
                assert(views_of(out@) =~= part12 + (prev + c));
            }
        }
        i = i + 1;
    }
    let ghost ds = views_of(out@);
    proof {
        assert(ds == discrepancies_of(balances@, positions@)->0);
    }
    let mut total = Dec::zero();
    let mut k: usize = 0;
    while k < out.len()
        invariant
            k <= out@.len(),
            ds == views_of(out@),
            discrepancies_of(balances@, positions@) == Some(ds),
            total_abs(ds, k as int) == Some(total.pair()),
        decreases out.len() - k,
    {
        total = match total.checked_add(&out[k].amount_difference.abs()) {
            Some(x) => x,
            None => {
                proof {
                    lemma_total_none(ds, k as int + 1, ds.len() as int);
                }
                return None;
            },
        };
        k = k + 1;
    }
    let n = out.len();
    Some(
        ReconResult {
            as_of_date,
            tenant_id,
            passed: n == 0,
            total_discrepancies: n,
            total_difference: total,
            discrepancies: out,
        },
    )
}

/// Law (passing means nothing found): a reconciliation passes exactly when it
/// reports no discrepancy, and then its total difference is zero.
pub proof fn law_pass_iff_clean(res: ReconResult, bs: Seq<AccountBalance>, ps: Seq<PositionBalance>)
    requires
        discrepancies_of(bs, ps) matches Some(ds) && total_abs(ds, ds.len() as int) is Some,
        views_of(res.discrepancies@) == discrepancies_of(bs, ps)->0,
        res.passed == (discrepancies_of(bs, ps)->0.len() == 0),
        res.total_difference.pair() == total_abs(
            discrepancies_of(bs, ps)->0,
            discrepancies_of(bs, ps)->0.len() as int,
        )->0,
    ensures
        res.passed == (res.discrepancies@.len() == 0),
        res.passed ==> res.total_difference.pair() == (0int, 0int),
{
    assert(views_of(res.discrepancies@).len() == res.discrepancies@.len());
}

/// Whether a difference (in units of 10^-28) is more than a cent either way.
pub open spec fn beyond_a_cent(d: int) -> bool {
    d > pow10(26) || d < -pow10(26)
}

/// The differences net balance - position cost (in units of 10^-28) of the
/// balances of `a` among the first `n` that differ by more than a cent either way.
pub open spec fn mismatch_units(bs: Seq<AccountBalance>, a: u128, psum: (int, int), n: int) -> Seq<int>
    decreases n,
{
    if n <= 0 {
        seq![]
    } else {
        let d = bs[n - 1].net_balance.units() - pair_units(psum);
        if bs[n - 1].account_id == a && beyond_a_cent(d) {
            mismatch_units(bs, a, psum, n - 1).push(d)
        } else {
            mismatch_units(bs, a, psum, n - 1)
        }
    }
}

/// The differences debits - credits (in units of 10^-28) of the lopsided
/// balances of `a` among the first `n` that differ by more than a cent either way.
pub open spec fn unbalanced_units(bs: Seq<AccountBalance>, a: u128, n: int) -> Seq<int>
    decreases n,
{
    if n <= 0 {
        seq![]
    } else {
        let d = bs[n - 1].debit_total.units() - bs[n - 1].credit_total.units();
        if bs[n - 1].account_id == a && is_lopsided(bs[n - 1]) && beyond_a_cent(d) {
            unbalanced_units(bs, a, n - 1).push(d)
        } else {
            unbalanced_units(bs, a, n - 1)
        }
    }
}

/// The amounts of discrepancies in units of 10^-28.
pub open spec fn amount_units(ds: Seq<DiscrepancyView>) -> Seq<int> {
    ds.map_values(|v: DiscrepancyView| pair_units(v.amount))
}

/// The tolerance is a cent.
proof fn lemma_tolerance()
    ensures
        tolerance_units() == pow10(26),
{
}

/// The absolute value of a pair is worth the absolute value.
proof fn lemma_abs_units(p: (int, int))
    ensures
        pair_units(abs_pair(p)) == if pair_units(p) < 0 { -pair_units(p) } else { pair_units(p) },
{
    lemma_units_neg(p.0, p.1);
    crate::decimal::lemma_pow10_positive((28 - p.1) as nat);
    let q = pow10((28 - p.1) as nat);
    assert((p.0 < 0) == (p.0 * q < 0)) by (nonlinear_arith)
        requires
            q > 0,
    ;
    assert((-p.0, p.1) == (-(p.0), p.1));
}

/// Law (a mismatch is a difference of more than a cent either way): where the
/// subtractions are exact, the balance mismatches of an account are exactly its
/// balances whose net differs from the positions' cost by more than 0.01, in
/// order, each carrying net - cost; a balance below the cost is reported as
/// surely as one above it.
pub proof fn law_mismatch_beyond_a_cent(bs: Seq<AccountBalance>, a: u128, psum: (int, int), n: int)
    requires
        pair_fits(psum),
        n <= bs.len(),
        forall|i: int|
            0 <= i < bs.len() && #[trigger] bs[i].account_id == a ==> pair_fits(bs[i].net_balance.pair())
                && difference_is_exact(bs[i].net_balance.pair(), psum),
    ensures
        mismatches(bs, a, psum, n) matches Some(s) && amount_units(s) == mismatch_units(bs, a, psum, n),
    decreases n,
{
    lemma_tolerance();
    if n > 0 {
        law_mismatch_beyond_a_cent(bs, a, psum, n - 1);
        let prev = mismatches(bs, a, psum, n - 1)->0;
        let b = bs[n - 1];
        if b.account_id == a {
            lemma_units_exact_difference(b.net_balance.pair(), psum);
            let d = sub_result(b.net_balance.pair(), psum)->0;
            lemma_abs_units(d);
            if pair_units(abs_pair(d)) > tolerance_units() {
                assert(amount_units(prev.push(mismatch_view(a, b, psum, d))) =~= amount_units(prev).push(
                    pair_units(d),
                ));
            }
        }
    }
}

/// Law (a journal is unbalanced by more than a cent either way): where the
/// subtractions are exact, the unbalanced journals of an account are exactly its
/// lopsided balances whose debits and credits differ by more than 0.01, in
/// order, each carrying debits - credits.
pub proof fn law_unbalanced_beyond_a_cent(bs: Seq<AccountBalance>, a: u128, n: int)
    requires
        n <= bs.len(),
        forall|i: int|
            0 <= i < bs.len() && #[trigger] bs[i].account_id == a ==> pair_fits(bs[i].debit_total.pair()) && pair_fits(
                bs[i].credit_total.pair(),
            ) && difference_is_exact(bs[i].debit_total.pair(), bs[i].credit_total.pair()),
    ensures
        unbalanced(bs, a, n) matches Some(s) && amount_units(s) == unbalanced_units(bs, a, n),
    decreases n,
{
    lemma_tolerance();
    if n > 0 {
        law_unbalanced_beyond_a_cent(bs, a, n - 1);
        let prev = unbalanced(bs, a, n - 1)->0;
        let b = bs[n - 1];
        if b.account_id == a && is_lopsided(b) {
            lemma_units_exact_difference(b.debit_total.pair(), b.credit_total.pair());
            let d = sub_result(b.debit_total.pair(), b.credit_total.pair())->0;
            lemma_abs_units(d);
            if pair_units(abs_pair(d)) > tolerance_units() {
                assert(amount_units(prev.push(unbalanced_view(a, b, d))) =~= amount_units(prev).push(pair_units(d)));
            }
        }
    }
}

} // verus!
