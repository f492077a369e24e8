//! Posting templates: account-code substitution, amount references and the
//! planning of journal entries from a template and an enriched transaction.
use vstd::prelude::*;
use crate::attributes::{lookup, AttributeBag};
use crate::decimal::Dec;
use crate::models::{EnrichedTransaction, JournalEntry, PostingRule, PostingTemplate, ResolveContext};
use crate::text::{chars_of, has_prefix, owned, push_char, str_eq, strip_prefix};
use crate::types::{AmountType, QuantityType, Side};

verus! {

/// The amount kind a name selects; unknown names select `Gross`.
pub open spec fn amount_type_of_text(s: Seq<char>) -> AmountType {
    if s == "gross"@ {
        AmountType::Gross
    } else if s == "net"@ {
        AmountType::Net
    } else if s == "settlement"@ {
        AmountType::Settlement
    } else if s == "commission"@ {
        AmountType::Commission
    } else if s == "tax"@ {
        AmountType::Tax
    } else if s == "fee"@ {
        AmountType::Fee
    } else if s == "accrued_interest"@ {
        AmountType::AccruedInterest
    } else if s == "stamp_duty"@ {
        AmountType::StampDuty
    } else {
        AmountType::Gross
    }
}

/// The quantity kind a name selects; unknown names select `Traded`.
pub open spec fn quantity_type_of_text(s: Seq<char>) -> QuantityType {
    if s == "current"@ {
        QuantityType::Current
    } else if s == "traded"@ {
        QuantityType::Traded
    } else if s == "safe_keeping"@ {
        QuantityType::SafeKeeping
    } else if s == "segregated"@ {
        QuantityType::Segregated
    } else if s == "frozen"@ {
        QuantityType::Frozen
    } else if s == "available"@ {
        QuantityType::Available
    } else if s == "pending_settlement"@ {
        QuantityType::PendingSettlement
    } else if s == "pledged"@ {
        QuantityType::Pledged
    } else if s == "recalled"@ {
        QuantityType::Recalled
    } else if s == "accrued_interest"@ {
        QuantityType::AccruedInterest
    } else {
        QuantityType::Traded
    }
}

/// The amount kind named by `s` ("gross", "net", ...); `Gross` for any other name.
pub fn amount_type_from_str(s: &str) -> (r: AmountType)
    ensures
        r == amount_type_of_text(s@),
{
    if str_eq(s, "gross") {
        AmountType::Gross
    } else if str_eq(s, "net") {
        AmountType::Net
    } else if str_eq(s, "settlement") {
        AmountType::Settlement
    } else if str_eq(s, "commission") {
        AmountType::Commission
    } else if str_eq(s, "tax") {
        AmountType::Tax
    } else if str_eq(s, "fee") {
        AmountType::Fee
    } else if str_eq(s, "accrued_interest") {
        AmountType::AccruedInterest
    } else if str_eq(s, "stamp_duty") {
        AmountType::StampDuty
    } else {
        AmountType::Gross
    }
}

/// The quantity kind named by `s` ("current", "traded", ...); `Traded` for any other name.
pub fn quantity_type_from_str(s: &str) -> (r: QuantityType)
    ensures
        r == quantity_type_of_text(s@),
{
    if str_eq(s, "current") {
        QuantityType::Current
    } else if str_eq(s, "traded") {
        QuantityType::Traded
    } else if str_eq(s, "safe_keeping") {
        QuantityType::SafeKeeping
    } else if str_eq(s, "segregated") {
        QuantityType::Segregated
    } else if str_eq(s, "frozen") {
        QuantityType::Frozen
    } else if str_eq(s, "available") {
        QuantityType::Available
    } else if str_eq(s, "pending_settlement") {
        QuantityType::PendingSettlement
    } else if str_eq(s, "pledged") {
        QuantityType::Pledged
    } else if str_eq(s, "recalled") {
        QuantityType::Recalled
    } else if str_eq(s, "accrued_interest") {
        QuantityType::AccruedInterest
    } else {
        QuantityType::Traded
    }
}

/// Position of the first `}` of `t` at or after `i`.
pub open spec fn close_brace_from(t: Seq<char>, i: int) -> Option<int>
    decreases t.len() - i,
{
    if i < 0 || i >= t.len() {
        None
    } else if t[i] == '}' {
        Some(i)
    } else {
        close_brace_from(t, i + 1)
    }
}

/// A closing brace found from `i` lies at or after `i`, inside `t`, and no
/// character between them is a closing brace.
pub proof fn lemma_close_brace(t: Seq<char>, i: int)
    ensures
        close_brace_from(t, i) matches Some(j) ==> i <= j < t.len() && t[j] == '}' && forall|k: int|
            i <= k < j ==> t[k] != '}',
        close_brace_from(t, i) is None && 0 <= i ==> forall|k: int| i <= k < t.len() ==> t[k] != '}',
    decreases t.len() - i,
{
    if 0 <= i < t.len() && t[i] != '}' {
        lemma_close_brace(t, i + 1);
    }
}

/// The value a substitution list gives for a key; a later pair replaces an
/// earlier one with the same key.
pub open spec fn text_lookup(m: Seq<(String, String)>, key: Seq<char>) -> Option<Seq<char>>
    decreases m.len(),
{
    if m.len() == 0 {
        None
    } else if m.last().0@ == key {
        Some(m.last().1@)
    } else {
        text_lookup(m.drop_last(), key)
    }
}

/// The text the template `t` becomes from position `i` on: a `{key}`
/// placeholder whose key the list knows is replaced by its value; every other
/// character is kept.
pub open spec fn substituted(t: Seq<char>, i: int, m: Seq<(String, String)>) -> Seq<char>
    decreases t.len() - i,
{
    if i < 0 || i >= t.len() {
        seq![]
    } else {
        let close = close_brace_from(t, i);
        if t[i] == '{' && close is Some && text_lookup(m, t.subrange(i + 1, close->0)) is Some {
            proof {
                lemma_close_brace(t, i);
            }
            text_lookup(m, t.subrange(i + 1, close->0))->0 + substituted(t, close->0 + 1, m)
        } else {
            seq![t[i]] + substituted(t, i + 1, m)
        }
    }
}

/// A template with no opening brace from `i` on is kept as it is from there.
pub proof fn lemma_no_placeholder_kept(t: Seq<char>, i: int, m: Seq<(String, String)>)
    requires
        0 <= i <= t.len(),
        forall|k: int| i <= k < t.len() ==> t[k] != '{',
    ensures
        substituted(t, i, m) == t.subrange(i, t.len() as int),
    decreases t.len() - i,
{
    if i < t.len() {
        lemma_no_placeholder_kept(t, i + 1, m);
        assert(seq![t[i]] + t.subrange(i + 1, t.len() as int) =~= t.subrange(i, t.len() as int));
    } else {
        assert(t.subrange(i, t.len() as int) =~= seq![]);
    }
}

/// The value of the last pair whose key is `key`.
fn find_value<'a>(m: &'a Vec<(String, String)>, key: &str) -> (r: Option<&'a String>)
    ensures
        text_lookup(m@, key@) matches Some(v) ==> (r matches Some(s) && s@ == v),
        text_lookup(m@, key@) is None ==> r is None,
{
    let mut i = m.len();
    assert(m@.subrange(0, i as int) =~= m@);
    while i > 0
        invariant
            i <= m.len(),
            text_lookup(m@, key@) == text_lookup(m@.subrange(0, i as int), key@),
        decreases i,
    {
        assert(m@.subrange(0, i as int).drop_last() =~= m@.subrange(0, i - 1));
        i = i - 1;
        if str_eq(m[i].0.as_str(), key) {
            return Some(&m[i].1);
        }
    }
    None
}

/// Replaces each `{key}` in `template` whose key the list `map` knows (the last
/// pair for a key counts) by its value, in one pass from left to right; all
/// other text of the template is kept as it is.
pub fn fast_replace_ref(template: &str, map: &Vec<(String, String)>) -> (r: String)
    ensures
        r@ == substituted(template@, 0, map@),
        (forall|k: int| 0 <= k < template@.len() ==> template@[k] != '{') ==> r@ == template@,
{
    let chars = chars_of(template);
    let ghost t = chars@;
    let mut result = String::new();
    let mut i: usize = 0;
    while i < chars.len()
        invariant
            t == chars@,
            t == template@,
            i <= t.len(),
            result@ + substituted(t, i as int, map@) == substituted(t, 0, map@),
        decreases t.len() - i,
    {
        if chars[i] == '{' {
            let mut j = i;
            while j < chars.len() && chars[j] != '}'
                invariant
                    t == chars@,
                    i <= j <= t.len(),
                    close_brace_from(t, i as int) == close_brace_from(t, j as int),
                decreases t.len() - j,
            {
                j = j + 1;
            }
            if j < chars.len() {
                proof {
                    lemma_close_brace(t, i as int);
                }
                let mut key = String::new();
                let mut k = i + 1;
                while k < j
                    invariant
                        t == chars@,
                        i + 1 <= k <= j < t.len(),
                        key@ == t.subrange(i + 1, k as int),
                    decreases j - k,
                {
                    push_char(&mut key, chars[k]);
                    k = k + 1;
                    assert(key@ =~= t.subrange(i + 1, k as int));
                }
                match find_value(map, key.as_str()) {
                    Some(v) => {
                        let ghost before = result@;
                        result.append(v.as_str());
                        proof {
                            assert(result@ + substituted(t, j + 1, map@) =~= before + substituted(t, i as int, map@));
                        }
                        i = j + 1;
                        continue;
                    },
                    None => {},
                }
            }
        }
        let ghost before = result@;
        push_char(&mut result, chars[i]);
        proof {
            assert(result@ + substituted(t, i + 1, map@) =~= before + substituted(t, i as int, map@));
        }
        i = i + 1;
    }
    proof {
        assert(substituted(t, i as int, map@) =~= seq![]);
        assert(result@ =~= result@ + substituted(t, i as int, map@));
        if forall|k: int| 0 <= k < t.len() ==> t[k] != '{' {
            lemma_no_placeholder_kept(t, 0, map@);
            assert(t.subrange(0, t.len() as int) =~= t);
        }
    }
    result
}

/// An optional text as an optional sequence of characters.
pub open spec fn opt_text(o: Option<String>) -> Option<Seq<char>> {
    match o {
        Some(s) => Some(s@),
        None => None,
    }
}

/// The value an amount reference of a posting rule points at, if any:
/// "$derived.amount.<kind>" reads a derived amount, "$input.quantity.<kind>" an
/// input quantity; both are only read when the transaction has derived attributes.
pub open spec fn referenced_amount(ref_opt: Option<Seq<char>>, e: EnrichedTransaction) -> Option<Dec> {
    match ref_opt {
        None => None,
        Some(r) => match e.derived_attributes {
            None => None,
            Some(d) => {
                let dp = "$derived.amount."@;
                let ip = "$input.quantity."@;
                let a = if has_prefix(r, dp) {
                    lookup(d@.amounts, amount_type_of_text(r.subrange(dp.len() as int, r.len() as int)))
                } else {
                    None
                };
                if a is Some {
                    a
                } else if has_prefix(r, ip) {
                    lookup(
                        e.raw.attributes@.quantities,
                        quantity_type_of_text(r.subrange(ip.len() as int, r.len() as int)),
                    )
                } else {
                    None
                }
            },
        },
    }
}

/// The amount a posting rule's reference points at, or zero when it points at nothing.
pub fn resolve_amount(ref_opt: &Option<String>, enriched: &EnrichedTransaction) -> (r: Dec)
    ensures
        referenced_amount(opt_text(*ref_opt), *enriched) matches Some(v) ==> r == v,
        referenced_amount(opt_text(*ref_opt), *enriched) is None ==> r.pair() == (0int, 0int),
{
    let ref_str = match ref_opt {
        Some(s) => s.as_str(),
        None => return Dec::zero(),
    };
    if let Some(d) = &enriched.derived_attributes {
        if let Some(name) = strip_prefix(ref_str, "$derived.amount.") {
            let at = amount_type_from_str(name.as_str());
            if let Some(v) = d.get_amount(at) {
                return v;
            }
        }
        if let Some(name) = strip_prefix(ref_str, "$input.quantity.") {
            let qt = quantity_type_from_str(name.as_str());
            if let Some(v) = enriched.raw.attributes.get_quantity(qt) {
                return v;
            }
        }
    }
    Dec::zero()
}

/// The string attribute `key` of a bag, or the empty text.
pub open spec fn string_or_empty(bag: AttributeBag, key: Seq<char>) -> Seq<char> {
    match lookup(bag@.strings, key) {
        Some(v) => v,
        None => Seq::empty(),
    }
}

/// Whether `r` is the substitution list of `e`: the instrument id and the desk,
/// then the input strings, then the derived strings.
pub open spec fn is_substitution_list(r: Seq<(String, String)>, e: EnrichedTransaction) -> bool {
    &&& r.len() >= 2
    &&& r[0].0@ == "instrument_id"@
    &&& r[0].1@ == e.raw.instrument_id@
    &&& r[1].0@ == "desk"@
    &&& r[1].1@ == string_or_empty(e.raw.attributes, "desk"@)
    &&& r.subrange(2, 2 + e.raw.attributes.strings@.len() as int) == e.raw.attributes.strings@
    &&& e.derived_attributes matches Some(d) ==> r.len() == 2 + e.raw.attributes.strings@.len()
        + d.strings@.len() && r.subrange(2 + e.raw.attributes.strings@.len() as int, r.len() as int)
        == d.strings@
    &&& e.derived_attributes is None ==> r.len() == 2 + e.raw.attributes.strings@.len()
}

/// The pairs account-code placeholders are substituted from: the instrument id
/// and the desk first, then the input strings, then the derived strings, so that
/// a later pair with the same key wins.
pub fn substitutions(enriched: &EnrichedTransaction) -> (r: Vec<(String, String)>)
    ensures
        is_substitution_list(r@, *enriched),
{
    let desk = match enriched.raw.attributes.get_string("desk") {
        Some(d) => d,
        None => String::new(),
    };
    let mut r: Vec<(String, String)> = Vec::new();
    r.push((owned("instrument_id"), enriched.raw.instrument_id.clone()));
    r.push((owned("desk"), desk));
    let raw = &enriched.raw.attributes.strings;
    let mut i: usize = 0;
    while i < raw.len()
        invariant
            r@.len() == 2 + i,
            i <= raw@.len(),
            r@[0].0@ == "instrument_id"@,
            r@[0].1@ == enriched.raw.instrument_id@,
            r@[1].0@ == "desk"@,
            r@[1].1@ == string_or_empty(enriched.raw.attributes, "desk"@),
            r@.subrange(2, 2 + i) == raw@.subrange(0, i as int),
        decreases raw.len() - i,
    {
        r.push((raw[i].0.clone(), raw[i].1.clone()));
        i = i + 1;
        assert(r@.subrange(2, 2 + i) =~= raw@.subrange(0, i as int));
    }
    assert(raw@.subrange(0, raw@.len() as int) =~= raw@);
    if let Some(d) = &enriched.derived_attributes {
        let n = r.len();
        let der = &d.strings;
        let mut j: usize = 0;
        while j < der.len()
            invariant
                n == 2 + raw@.len(),
                r@.len() == n + j,
                j <= der@.len(),
                r@[0].0@ == "instrument_id"@,
                r@[0].1@ == enriched.raw.instrument_id@,
                r@[1].0@ == "desk"@,
                r@[1].1@ == string_or_empty(enriched.raw.attributes, "desk"@),
                r@.subrange(2, n as int) == raw@,
                r@.subrange(n as int, n + j) == der@.subrange(0, j as int),
            decreases der.len() - j,
        {
            let ghost prev = r@;
            r.push((der[j].0.clone(), der[j].1.clone()));
            j = j + 1;
            assert(r@.subrange(2, n as int) =~= prev.subrange(2, n as int));
            assert(r@.subrange(n as int, n + j) =~= der@.subrange(0, j as int));
        }
        assert(der@.subrange(0, der@.len() as int) =~= der@);
    }
    r
}

/// What a posting rule's text option defaults to.
pub open spec fn text_or(o: Option<String>, default: Seq<char>) -> Seq<char> {
    match o {
        Some(s) => s@,
        None => default,
    }
}

/// Whether `amount` is what the rule's amount reference gives for `e`.
pub open spec fn is_rule_amount(amount: Dec, ref_opt: Option<String>, e: EnrichedTransaction) -> bool {
    match referenced_amount(opt_text(ref_opt), e) {
        Some(v) => amount == v,
        None => amount.pair() == (0int, 0int),
    }
}

/// Whether `p` is the entry planned at position `i` for `rule`: sequence number
/// `i + 1`, the rule's side, the amount its reference gives, its currency ("USD"
/// when absent), its narrative (empty when absent) and its account-code template
/// with the substitution list applied.
pub open spec fn plan_follows_rule(
    p: EntryPlan,
    rule: PostingRule,
    i: int,
    e: EnrichedTransaction,
    subs: Seq<(String, String)>,
) -> bool {
    &&& p.entry_sequence == i + 1
    &&& p.side == rule.side
    &&& is_rule_amount(p.amount, rule.amount_ref, e)
    &&& p.currency@ == text_or(rule.currency, "USD"@)
    &&& p.narrative@ == text_or(rule.narrative, Seq::empty())
    &&& p.account_code@ == substituted(rule.account_code_template@, 0, subs)
}

/// A journal entry before its account is resolved: the account code (the rule's
/// template with placeholders substituted), side, amount, currency and narrative.
#[derive(Debug, Clone)]
pub struct EntryPlan {
    pub entry_sequence: i32,
    pub account_code: String,
    pub side: Side,
    pub amount: Dec,
    pub currency: String,
    pub narrative: String,
}

/// The entries a template asks for, with the context and the substitution list
/// their account codes are resolved with.
#[derive(Debug, Clone)]
pub struct EntryPlanning {
    pub context: ResolveContext,
    pub substitutions: Vec<(String, String)>,
    pub plans: Vec<EntryPlan>,
}

/// The context account codes of a transaction are resolved in: its tenant, the
/// "geo" and "desk" strings (empty when absent) and the "currency" string ("USD"
/// when absent).
pub fn resolve_context(enriched: &EnrichedTransaction) -> (r: ResolveContext)
    ensures
        r.tenant_id == enriched.raw.tenant_id,
        r.geo@ == string_or_empty(enriched.raw.attributes, "geo"@),
        r.desk@ == string_or_empty(enriched.raw.attributes, "desk"@),
        r.currency@ == (match lookup(enriched.raw.attributes@.strings, "currency"@) {
            Some(c) => c,
            None => "USD"@,
        }),
        r.attributes is None,
{
    let desk = match enriched.raw.attributes.get_string("desk") {
        Some(d) => d,
        None => String::new(),
    };
    let geo = match enriched.raw.attributes.get_string("geo") {
        Some(g) => g,
        None => String::new(),
    };
    let currency = match enriched.raw.attributes.get_string("currency") {
        Some(c) => c,
        None => owned("USD"),
    };
    ResolveContext { tenant_id: enriched.raw.tenant_id, geo, desk, currency, attributes: None }
}

/// Plans one journal entry per rule of `template`, in order: entry `i` has
/// sequence number `i + 1`, the rule's side, the amount its reference gives (zero
/// when none), its currency ("USD" when absent), its narrative (empty when absent)
/// and its account-code template with placeholders substituted.
pub fn generate_entries(template: &PostingTemplate, enriched: &EnrichedTransaction) -> (r: EntryPlanning)
    requires
        template.entries@.len() < 0x7fff_ffff,
    ensures
        r.context.tenant_id == enriched.raw.tenant_id,
        r.context.geo@ == string_or_empty(enriched.raw.attributes, "geo"@),
        r.context.desk@ == string_or_empty(enriched.raw.attributes, "desk"@),
        r.context.currency@ == (match lookup(enriched.raw.attributes@.strings, "currency"@) {
            Some(c) => c,
            None => "USD"@,
        }),
        r.context.attributes is None,
        is_substitution_list(r.substitutions@, *enriched),
        r.plans@.len() == template.entries@.len(),
        forall|i: int| 0 <= i < r.plans@.len() ==> plan_follows_rule(
            #[trigger] r.plans@[i],
            template.entries@[i],
            i,
            *enriched,
            r.substitutions@,
        ),
{
    let context = resolve_context(enriched);
    let subs = substitutions(enriched);
    let mut plans: Vec<EntryPlan> = Vec::new();
    let mut i: usize = 0;
    while i < template.entries.len()
        invariant
            template.entries@.len() < 0x7fff_ffff,
            i <= template.entries@.len(),
            plans@.len() == i,
            forall|k: int| 0 <= k < i ==> {
                let p = #[trigger] plans@[k];
                let rule = template.entries@[k];
                &&& p.entry_sequence == k + 1
                &&& p.side == rule.side
                &&& is_rule_amount(p.amount, rule.amount_ref, *enriched)
                &&& p.currency@ == text_or(rule.currency, "USD"@)
                &&& p.narrative@ == text_or(rule.narrative, Seq::empty())
                &&& p.account_code@ == substituted(rule.account_code_template@, 0, subs@)
            },
        decreases template.entries.len() - i,
    {
        let rule = &template.entries[i];
        let code = fast_replace_ref(rule.account_code_template.as_str(), &subs);
        let amount = resolve_amount(&rule.amount_ref, enriched);
        let currency = match &rule.currency {
            Some(c) => c.clone(),
            None => owned("USD"),
        };
        let narrative = match &rule.narrative {
            Some(n) => n.clone(),
            None => String::new(),
        };
        let seq: i32 = (i + 1) as i32;
        plans.push(EntryPlan { entry_sequence: seq, account_code: code, side: rule.side, amount, currency, narrative });
        i = i + 1;
    }
    EntryPlanning { context, substitutions: subs, plans }
}

/// Journal entries for planned entries whose accounts have been resolved: entry
/// `i` gets id `entry_ids[i]` and account `account_ids[i]`, the plan's sequence
/// number, side, amount, currency and narrative, no transaction yet (id 0), the
/// given value date and posting instant, and no metadata.
pub fn entries_from_plans(
    plans: &Vec<EntryPlan>,
    account_ids: &Vec<u128>,
    entry_ids: &Vec<u128>,
    tenant_id: u128,
    value_date: i32,
    posted_at: i64,
) -> (r: Vec<JournalEntry>)
    requires
        account_ids@.len() == plans@.len(),
        entry_ids@.len() == plans@.len(),
    ensures
        r@.len() == plans@.len(),
        forall|i: int| 0 <= i < r@.len() ==> {
            let e = #[trigger] r@[i];
            let p = plans@[i];
            &&& e.id == entry_ids@[i]
            &&& e.tenant_id == tenant_id
            &&& e.transaction_id == 0
            &&& e.entry_sequence == p.entry_sequence
            &&& e.account_id == account_ids@[i]
            &&& e.amount == p.amount
            &&& e.currency@ == p.currency@
            &&& e.side == p.side
            &&& e.value_date == value_date
            &&& e.narrative@ == p.narrative@
            &&& e.metadata is None
            &&& e.posted_at == posted_at
        },
{
    let mut r: Vec<JournalEntry> = Vec::new();
    let mut i: usize = 0;
    while i < plans.len()
        invariant
            account_ids@.len() == plans@.len(),
            entry_ids@.len() == plans@.len(),
            i <= plans@.len(),
            r@.len() == i,
            forall|k: int| 0 <= k < i ==> {
                let e = #[trigger] r@[k];
                let p = plans@[k];
                &&& e.id == entry_ids@[k]
                &&& e.tenant_id == tenant_id
                &&& e.transaction_id == 0
                &&& e.entry_sequence == p.entry_sequence
                &&& e.account_id == account_ids@[k]
                &&& e.amount == p.amount
                &&& e.currency@ == p.currency@
                &&& e.side == p.side
                &&& e.value_date == value_date
                &&& e.narrative@ == p.narrative@
                &&& e.metadata is None
                &&& e.posted_at == posted_at
            },
        decreases plans.len() - i,
    {
        let p = &plans[i];
        r.push(JournalEntry {
            id: entry_ids[i],
            tenant_id,
            transaction_id: 0,
            entry_sequence: p.entry_sequence,
            account_id: account_ids[i],
            amount: p.amount,
            currency: p.currency.clone(),
            side: p.side,
            value_date,
            narrative: p.narrative.clone(),
            metadata: None,
            posted_at,
        });
        i = i + 1;
    }
    r
}

} // verus!
