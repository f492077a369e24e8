//! The bond trade contract: its schema, validation, enrichment (gross, commission
//! of 5 basis points, net, settlement two days after trade) and posting rules.
use vstd::prelude::*;
use crate::attributes::{lookup, AttributeBag};
use crate::decimal::{add_result, mul_result, Dec};
use crate::errors::ValidationError;
use crate::models::{EnrichedTransaction, InstrumentSchema, JournalEntry, PostingRule, PostingRules, PostingTemplate, RawTransaction};
use crate::pipeline::{balanced, side_total, totals_defined};
use crate::template::{amount_type_of_text, is_rule_amount, plan_follows_rule, referenced_amount, EntryPlan};
use crate::text::has_prefix;
use crate::text::owned;
use crate::types::{AmountType, DateType, PriceType, QuantityType, Side};

verus! {

/// The bond trade contract.
#[derive(Debug, Clone, Copy)]
pub struct BondContract;

/// A decimal option as a pair, zero when absent.
pub open spec fn pair_or_zero(o: Option<Dec>) -> (int, int) {
    match o {
        Some(d) => d.pair(),
        None => (0, 0),
    }
}

/// The traded quantity of a bond trade (zero when absent).
pub open spec fn bond_quantity(tx: RawTransaction) -> (int, int) {
    pair_or_zero(lookup(tx.attributes@.quantities, QuantityType::Traded))
}

/// The clean price of a bond trade (zero when absent).
pub open spec fn bond_price(tx: RawTransaction) -> (int, int) {
    pair_or_zero(lookup(tx.attributes@.prices, PriceType::Clean))
}

/// Gross amount: quantity times clean price.
pub open spec fn bond_gross(tx: RawTransaction) -> Option<(int, int)> {
    mul_result(bond_quantity(tx), bond_price(tx))
}

/// Commission: 5 basis points (0.0005) of the gross amount.
pub open spec fn bond_commission(tx: RawTransaction) -> Option<(int, int)> {
    match bond_gross(tx) {
        Some(g) => mul_result(g, (5, 4)),
        None => None,
    }
}

/// Net amount: gross plus commission.
pub open spec fn bond_net(tx: RawTransaction) -> Option<(int, int)> {
    match (bond_gross(tx), bond_commission(tx)) {
        (Some(g), Some(c)) => add_result(g, c),
        _ => None,
    }
}

/// Whether the enrichment arithmetic of a bond trade stays within range.
pub open spec fn bond_amounts_defined(tx: RawTransaction) -> bool {
    bond_net(tx) is Some
}

/// Whether `bag` holds exactly what the bond contract derives for `tx` on day
/// `today`: gross, commission, net and settlement (= gross) amounts, a settlement
/// date two days later, the traded quantity as current quantity, and currency USD.
pub open spec fn is_bond_enrichment(tx: RawTransaction, today: int, bag: AttributeBag) -> bool {
    &&& bag@.amounts.dom() == set![AmountType::Gross, AmountType::Commission, AmountType::Net, AmountType::Settlement]
    &&& bag@.amounts[AmountType::Gross].pair() == bond_gross(tx)->0
    &&& bag@.amounts[AmountType::Commission].pair() == bond_commission(tx)->0
    &&& bag@.amounts[AmountType::Net].pair() == bond_net(tx)->0
    &&& bag@.amounts[AmountType::Settlement].pair() == bond_gross(tx)->0
    &&& bag@.dates == Map::<DateType, i32>::empty().insert(DateType::Settlement, (today + 2) as i32)
    &&& bag@.quantities.dom() == set![QuantityType::Current]
    &&& bag@.quantities[QuantityType::Current].pair() == bond_quantity(tx)
    &&& bag@.prices == Map::<PriceType, Dec>::empty()
    &&& bag@.strings == Map::<Seq<char>, Seq<char>>::empty().insert("currency"@, "USD"@)
    &&& bag@.enums == Map::<Seq<char>, Seq<char>>::empty()
}

impl BondContract {
    /// The contract's name, "bond_trade".
    pub fn name(&self) -> (r: &'static str)
        ensures
            r@ == "bond_trade"@,
    {
        "bond_trade"
    }

    /// The schema of BOND instruments, created at `now`.
    pub fn schema(&self, now: i64) -> (r: InstrumentSchema)
        ensures
            r.id == 0,
            r.tenant_id == 0,
            r.instrument_type@ == "BOND"@,
            r.enricher_name@ == "bond_trade"@,
            r.version@ == "1.0.0"@,
            r.active,
            r.created_at == now,
            r.schema_data@ == "{\"inputs\":[\"quantity.traded\",\"price.clean\",\"counterparty\",\"trade_date\"]}"@,
    {
        InstrumentSchema {
            id: 0,
            tenant_id: 0,
            instrument_type: owned("BOND"),
            enricher_name: owned(self.name()),
            version: owned("1.0.0"),
            active: true,
            created_at: now,
            schema_data: owned("{\"inputs\":[\"quantity.traded\",\"price.clean\",\"counterparty\",\"trade_date\"]}"),
        }
    }

    /// A bond trade needs a traded quantity; otherwise the one error is
    /// "quantity.traded" / "MISSING" / "required".
    pub fn validate(&self, tx: &RawTransaction) -> (r: Vec<ValidationError>)
        ensures
            lookup(tx.attributes@.quantities, QuantityType::Traded) is Some ==> r@.len() == 0,
            lookup(tx.attributes@.quantities, QuantityType::Traded) is None ==> r@.len() == 1
                && r@[0].field@ == "quantity.traded"@ && r@[0].code@ == "MISSING"@ && r@[0].message@
                == "required"@,
    {
        let mut errs: Vec<ValidationError> = Vec::new();
        if tx.attributes.get_quantity(QuantityType::Traded).is_none() {
            errs.push(
                ValidationError { field: owned("quantity.traded"), code: owned("MISSING"), message: owned("required") },
            );
        }
        errs
    }

    /// Derives the trade's amounts on day `today`: gross = quantity x clean price
    /// (each zero when absent), commission = gross x 0.0005, net = gross +
    /// commission, settlement = gross, settlement date = today + 2, current
    /// quantity = traded quantity, currency USD.
    pub fn enrich(&self, tx: &RawTransaction, today: i32) -> (r: AttributeBag)
        requires
            bond_amounts_defined(*tx),
            today <= 0x7fff_fffd,
        ensures
            is_bond_enrichment(*tx, today as int, r),
    {
        let zero = Dec::zero();
        let qty = match tx.attributes.get_quantity(QuantityType::Traded) {
            Some(q) => q,
            None => zero,
        };
        let price = match tx.attributes.get_price(PriceType::Clean) {
            Some(p) => p,
            None => zero,
        };
        let rate = Dec::from_small(5, 4);
        let gross = qty.checked_mul(&price).unwrap();
        let commission = gross.checked_mul(&rate).unwrap();
        let net = gross.checked_add(&commission).unwrap();
        let mut attrs = AttributeBag::new();
        attrs.set_amount(AmountType::Gross, gross);
        attrs.set_amount(AmountType::Commission, commission);
        attrs.set_amount(AmountType::Net, net);
        attrs.set_amount(AmountType::Settlement, gross);
        attrs.set_date(DateType::Settlement, today + 2);
        attrs.set_quantity(QuantityType::Current, qty);
        attrs.set_string("currency", "USD");
        proof {
            assert(attrs@.amounts.dom() =~= set![AmountType::Gross, AmountType::Commission, AmountType::Net, AmountType::Settlement]);
            assert(attrs@.quantities.dom() =~= set![QuantityType::Current]);
        }
        attrs
    }

    /// `enrich` where the arithmetic stays within range; `None` where it overflows.
    pub fn checked_enrich(&self, tx: &RawTransaction, today: i32) -> (r: Option<AttributeBag>)
        requires
            today <= 0x7fff_fffd,
        ensures
            r is Some <==> bond_amounts_defined(*tx),
            r matches Some(b) ==> is_bond_enrichment(*tx, today as int, b),
    {
        let zero = Dec::zero();
        let qty = match tx.attributes.get_quantity(QuantityType::Traded) {
            Some(q) => q,
            None => zero,
        };
        let price = match tx.attributes.get_price(PriceType::Clean) {
            Some(p) => p,
            None => zero,
        };
        let rate = Dec::from_small(5, 4);
        match qty.checked_mul(&price) {
            Some(g) => match g.checked_mul(&rate) {
                Some(c) => match g.checked_add(&c) {
                    Some(_) => Some(self.enrich(tx, today)),
                    None => None,
                },
                None => None,
            },
            None => None,
        }
    }

    /// The bond posting template "bond_buy" 1.0.0: debit the settlement amount to
    /// "TRADING-{desk}-{instrument_id}", debit the commission to
    /// "PNL-commission-{desk}", credit the net amount to "CASH-{desk}-USD"; all in
    /// USD, without link rules.
    pub fn posting_rules(&self) -> (r: PostingRules)
        ensures
            is_bond_posting_rules(r),
    {
        let mut entries: Vec<PostingRule> = Vec::new();
        entries.push(
            PostingRule {
                side: Side::Debit,
                account_code_template: owned("TRADING-{desk}-{instrument_id}"),
                amount_ref: Some(owned("$derived.amount.settlement")),
                quantity_ref: Some(owned("$input.quantity.traded")),
                currency: Some(owned("USD")),
                date_ref: None,
                narrative: None,
                subledger_type: Some(owned("TRADING")),
            },
        );
        entries.push(
            PostingRule {
                side: Side::Debit,
                account_code_template: owned("PNL-commission-{desk}"),
                amount_ref: Some(owned("$derived.amount.commission")),
                quantity_ref: None,
                currency: Some(owned("USD")),
                date_ref: None,
                narrative: None,
                subledger_type: Some(owned("PNL")),
            },
        );
        entries.push(
            PostingRule {
                side: Side::Credit,
                account_code_template: owned("CASH-{desk}-USD"),
                amount_ref: Some(owned("$derived.amount.net")),
                quantity_ref: None,
                currency: Some(owned("USD")),
                date_ref: None,
                narrative: None,
                subledger_type: Some(owned("CASH")),
            },
        );
        PostingRules {
            template: PostingTemplate { name: owned("bond_buy"), version: owned("1.0.0"), entries },
            link_rules: Vec::new(),
        }
    }
}

/// Whether an optional text holds `t`.
pub open spec fn holds_text(o: Option<String>, t: Seq<char>) -> bool {
    o matches Some(s) && s@ == t
}

/// Whether `r` is the bond posting template.
pub open spec fn is_bond_posting_rules(r: PostingRules) -> bool {
    let e = r.template.entries@;
    &&& r.template.name@ == "bond_buy"@
    &&& r.template.version@ == "1.0.0"@
    &&& r.link_rules@.len() == 0
    &&& e.len() == 3
    &&& e[0].side == Side::Debit
    &&& e[0].account_code_template@ == "TRADING-{desk}-{instrument_id}"@
    &&& holds_text(e[0].amount_ref, "$derived.amount.settlement"@)
    &&& holds_text(e[0].quantity_ref, "$input.quantity.traded"@)
    &&& holds_text(e[0].currency, "USD"@)
    &&& e[0].date_ref is None && e[0].narrative is None
    &&& holds_text(e[0].subledger_type, "TRADING"@)
    &&& e[1].side == Side::Debit
    &&& e[1].account_code_template@ == "PNL-commission-{desk}"@
    &&& holds_text(e[1].amount_ref, "$derived.amount.commission"@)
    &&& e[1].quantity_ref is None
    &&& holds_text(e[1].currency, "USD"@)
    &&& e[1].date_ref is None && e[1].narrative is None
    &&& holds_text(e[1].subledger_type, "PNL"@)
    &&& e[2].side == Side::Credit
    &&& e[2].account_code_template@ == "CASH-{desk}-USD"@
    &&& holds_text(e[2].amount_ref, "$derived.amount.net"@)
    &&& e[2].quantity_ref is None
    &&& holds_text(e[2].currency, "USD"@)
    &&& e[2].date_ref is None && e[2].narrative is None
    &&& holds_text(e[2].subledger_type, "CASH"@)
}

/// The derived amount a "$derived.amount.<name>" reference reads.
proof fn lemma_derived_reference(e: EnrichedTransaction, d: AttributeBag, r: Seq<char>, name: Seq<char>)
    requires
        e.derived_attributes == Some(d),
        r == "$derived.amount."@ + name,
        lookup(d@.amounts, amount_type_of_text(name)) is Some,
    ensures
        referenced_amount(Some(r), e) == lookup(d@.amounts, amount_type_of_text(name)),
{
    let dp = "$derived.amount."@;
    assert(r.subrange(0, dp.len() as int) =~= dp);
    assert(has_prefix(r, dp));
    assert(r.subrange(dp.len() as int, r.len() as int) =~= name);
}

/// Law (debits equal credits): the journal entries booked for an enriched bond
/// trade with the bond posting template balance, whatever accounts they resolve to.
pub proof fn law_bond_entries_balance(
    tx: RawTransaction,
    today: int,
    derived: AttributeBag,
    enriched: EnrichedTransaction,
    rules: PostingRules,
    plans: Seq<EntryPlan>,
    subs: Seq<(String, String)>,
    entries: Seq<JournalEntry>,
)
    requires
        bond_amounts_defined(tx),
        is_bond_enrichment(tx, today, derived),
        enriched.raw == tx,
        enriched.derived_attributes == Some(derived),
        is_bond_posting_rules(rules),
        plans.len() == rules.template.entries@.len(),
        forall|i: int| 0 <= i < plans.len() ==> plan_follows_rule(#[trigger] plans[i], rules.template.entries@[i], i, enriched, subs),
        entries.len() == plans.len(),
        forall|i: int| 0 <= i < entries.len() ==> (#[trigger] entries[i]).amount == plans[i].amount && entries[i].side == plans[i].side,
    ensures
        entries.len() > 0,
        totals_defined(entries),
        balanced(entries),
{
    reveal_strlit("$derived.amount.");
    reveal_strlit("$derived.amount.settlement");
    reveal_strlit("$derived.amount.commission");
    reveal_strlit("$derived.amount.net");
    reveal_strlit("settlement");
    reveal_strlit("commission");
    reveal_strlit("net");
    reveal_strlit("gross");
    let rs = rules.template.entries@;
    let g = bond_gross(tx)->0;
    let c = bond_commission(tx)->0;
    let n = bond_net(tx)->0;
    assert("$derived.amount.settlement"@ =~= "$derived.amount."@ + "settlement"@);
    assert("$derived.amount.commission"@ =~= "$derived.amount."@ + "commission"@);
    assert("$derived.amount.net"@ =~= "$derived.amount."@ + "net"@);
    assert(amount_type_of_text("settlement"@) == AmountType::Settlement) by {
        assert("settlement"@ != "gross"@);
        assert("settlement"@ != "net"@);
    }
    assert(amount_type_of_text("commission"@) == AmountType::Commission) by {
        assert("commission"@ != "gross"@);
        assert("commission"@ != "net"@);
        assert("commission"@[0] != "settlement"@[0]);
    }
    assert(amount_type_of_text("net"@) == AmountType::Net) by {
        assert("net"@ != "gross"@);
    }
    lemma_derived_reference(enriched, derived, "$derived.amount.settlement"@, "settlement"@);
    lemma_derived_reference(enriched, derived, "$derived.amount.commission"@, "commission"@);
    lemma_derived_reference(enriched, derived, "$derived.amount.net"@, "net"@);
    assert(plan_follows_rule(plans[0], rs[0], 0, enriched, subs));
    assert(plan_follows_rule(plans[1], rs[1], 1, enriched, subs));
    assert(plan_follows_rule(plans[2], rs[2], 2, enriched, subs));
    assert(is_rule_amount(plans[0].amount, rs[0].amount_ref, enriched));
    assert(is_rule_amount(plans[1].amount, rs[1].amount_ref, enriched));
    assert(is_rule_amount(plans[2].amount, rs[2].amount_ref, enriched));
    let e0 = entries[0];
    let e1 = entries[1];
    let e2 = entries[2];
    assert(e0.amount.pair() == g && e0.side == Side::Debit);
    assert(e1.amount.pair() == c && e1.side == Side::Debit);
    assert(e2.amount.pair() == n && e2.side == Side::Credit);
    let s1 = entries.subrange(0, 1);
    let s2 = entries.subrange(0, 2);
    assert(entries.drop_last() =~= s2);
    assert(s2.drop_last() =~= s1);
    assert(s1.drop_last() =~= Seq::<JournalEntry>::empty());
    assert(s1.last() == e0);
    assert(s2.last() == e1);
    assert(entries.last() == e2);
    assert(side_total(s1.drop_last(), Side::Debit) == Some((0int, 0int)));
    assert(side_total(s1.drop_last(), Side::Credit) == Some((0int, 0int)));
    assert(add_result((0int, 0int), g) == Some(g));
    assert(side_total(s1, Side::Debit) == Some(g));
    assert(side_total(s2, Side::Debit) == Some(n));
    assert(side_total(entries, Side::Debit) == Some(n));
    assert(side_total(s1, Side::Credit) == Some((0int, 0int)));
    assert(side_total(s2, Side::Credit) == Some((0int, 0int)));
    assert(side_total(entries, Side::Credit) == Some(n));
}

} // verus!
