//! The chart of accounts: the codes account and subledger types are stored
//! under, how a stored account row reads back, and how an account code template
//! is resolved against a transaction's context.
use vstd::prelude::*;
use vstd::arithmetic::power::pow;
use crate::attributes::{lookup, AttributeBag};
use crate::decimal::Dec;
use crate::models::{Account, ResolveContext};
use crate::text::{chars_of, owned, str_eq, string_of};
use crate::types::{AccountType, SubledgerType};

verus! {

/// The account type a stored code stands for; an unknown code reads as an asset.
pub open spec fn account_type_of_code(s: Seq<char>) -> AccountType {
    if s == "ASSET"@ {
        AccountType::Asset
    } else if s == "LIABILITY"@ {
        AccountType::Liability
    } else if s == "EQUITY"@ {
        AccountType::Equity
    } else if s == "INCOME"@ {
        AccountType::Income
    } else if s == "EXPENSE"@ {
        AccountType::Expense
    } else {
        AccountType::Asset
    }
}

/// The subledger type a stored code stands for; an unknown code reads as trading.
pub open spec fn subledger_type_of_code(s: Seq<char>) -> SubledgerType {
    if s == "TRADING"@ {
        SubledgerType::Trading
    } else if s == "CASH"@ {
        SubledgerType::Cash
    } else if s == "PNL"@ {
        SubledgerType::PNL
    } else if s == "SETTLEMENT"@ {
        SubledgerType::Settlement
    } else if s == "POSITION"@ {
        SubledgerType::Position
    } else {
        SubledgerType::Trading
    }
}

/// The code an account type is stored under: its name in capitals.
pub open spec fn account_type_code_of(t: AccountType) -> Seq<char> {
    match t {
        AccountType::Asset => "ASSET"@,
        AccountType::Liability => "LIABILITY"@,
        AccountType::Equity => "EQUITY"@,
        AccountType::Income => "INCOME"@,
        AccountType::Expense => "EXPENSE"@,
    }
}

/// The code a subledger type is stored under: its name in capitals.
pub open spec fn subledger_type_code_of(t: SubledgerType) -> Seq<char> {
    match t {
        SubledgerType::Trading => "TRADING"@,
        SubledgerType::Cash => "CASH"@,
        SubledgerType::PNL => "PNL"@,
        SubledgerType::Settlement => "SETTLEMENT"@,
        SubledgerType::Position => "POSITION"@,
    }
}

/// Reads a stored account type code ("ASSET", "LIABILITY", "EQUITY", "INCOME",
/// "EXPENSE"); anything else reads as an asset.
pub fn parse_account_type(s: &str) -> (r: AccountType)
    ensures
        r == account_type_of_code(s@),
{
    if str_eq(s, "ASSET") {
        AccountType::Asset
    } else if str_eq(s, "LIABILITY") {
        AccountType::Liability
    } else if str_eq(s, "EQUITY") {
        AccountType::Equity
    } else if str_eq(s, "INCOME") {
        AccountType::Income
    } else if str_eq(s, "EXPENSE") {
        AccountType::Expense
    } else {
        AccountType::Asset
    }
}

/// Reads a stored subledger type code ("TRADING", "CASH", "PNL", "SETTLEMENT",
/// "POSITION"); anything else reads as trading.
pub fn parse_subledger_type(s: &str) -> (r: SubledgerType)
    ensures
        r == subledger_type_of_code(s@),
{
    if str_eq(s, "TRADING") {
        SubledgerType::Trading
    } else if str_eq(s, "CASH") {
        SubledgerType::Cash
    } else if str_eq(s, "PNL") {
        SubledgerType::PNL
    } else if str_eq(s, "SETTLEMENT") {
        SubledgerType::Settlement
    } else if str_eq(s, "POSITION") {
        SubledgerType::Position
    } else {
        SubledgerType::Trading
    }
}

/// The code an account type is stored under.
pub fn account_type_code(t: AccountType) -> (r: String)
    ensures
        r@ == account_type_code_of(t),
{
    match t {
        AccountType::Asset => owned("ASSET"),
        AccountType::Liability => owned("LIABILITY"),
        AccountType::Equity => owned("EQUITY"),
        AccountType::Income => owned("INCOME"),
        AccountType::Expense => owned("EXPENSE"),
    }
}

/// The code a subledger type is stored under.
pub fn subledger_type_code(t: SubledgerType) -> (r: String)
    ensures
        r@ == subledger_type_code_of(t),
{
    match t {
        SubledgerType::Trading => owned("TRADING"),
        SubledgerType::Cash => owned("CASH"),
        SubledgerType::PNL => owned("PNL"),
        SubledgerType::Settlement => owned("SETTLEMENT"),
        SubledgerType::Position => owned("POSITION"),
    }
}

/// Law (stored type codes read back): the code an account type is stored
/// under reads back as that type.
pub proof fn law_account_type_round_trip(t: AccountType)
    ensures
        account_type_of_code(account_type_code_of(t)) == t,
{
    reveal_strlit("ASSET");
    reveal_strlit("LIABILITY");
    reveal_strlit("EQUITY");
    reveal_strlit("INCOME");
    reveal_strlit("EXPENSE");
    assert("ASSET"@[0] == 'A' && "LIABILITY"@[0] == 'L' && "EQUITY"@[0] == 'E' && "INCOME"@[0] == 'I');
    assert("EXPENSE"@[0] == 'E' && "EQUITY"@[1] == 'Q' && "EXPENSE"@[1] == 'X');
}

/// Law (stored subledger codes read back): the code a subledger type is stored
/// under reads back as that type.
pub proof fn law_subledger_type_round_trip(t: SubledgerType)
    ensures
        subledger_type_of_code(subledger_type_code_of(t)) == t,
{
    reveal_strlit("TRADING");
    reveal_strlit("CASH");
    reveal_strlit("PNL");
    reveal_strlit("SETTLEMENT");
    reveal_strlit("POSITION");
    assert("TRADING"@[0] == 'T' && "CASH"@[0] == 'C' && "PNL"@[0] == 'P' && "SETTLEMENT"@[0] == 'S');
    assert("POSITION"@[0] == 'P' && "PNL"@[1] == 'N' && "POSITION"@[1] == 'O');
}

/// An account as stored: types as codes, attributes already read from their
/// JSON document.
#[derive(Debug, Clone)]
pub struct AccountRow {
    pub id: u128,
    pub tenant_id: u128,
    pub geo: String,
    pub account_code: String,
    pub account_name: String,
    pub display_name: Option<String>,
    pub display_code: Option<String>,
    pub account_type: String,
    pub subledger_type: Option<String>,
    pub currency: String,
    pub balance: Dec,
    pub frozen_balance: Dec,
    pub version: i64,
    pub sequence_number: i64,
    pub status: String,
    pub attributes: Option<AttributeBag>,
    pub contract_name: Option<String>,
    pub contract_version: Option<String>,
    pub created_at: i64,
    pub updated_at: i64,
}

/// The characters of an optional text.
pub open spec fn opt_chars(o: Option<String>) -> Option<Seq<char>> {
    match o {
        Some(s) => Some(s@),
        None => None,
    }
}

/// A copy of an optional text.
fn copy_opt(o: &Option<String>) -> (r: Option<String>)
    ensures
        opt_chars(r) == opt_chars(*o),
{
    match o {
        Some(s) => Some(s.clone()),
        None => None,
    }
}

impl Account {
    /// The account a stored row reads as: its type and subledger codes parsed,
    /// every other value as stored.
    pub fn from_row(row: AccountRow) -> (r: Account)
        ensures
            r.id == row.id,
            r.tenant_id == row.tenant_id,
            r.geo@ == row.geo@,
            r.account_code@ == row.account_code@,
            r.account_name@ == row.account_name@,
            opt_chars(r.display_name) == opt_chars(row.display_name),
            opt_chars(r.display_code) == opt_chars(row.display_code),
            r.account_type == account_type_of_code(row.account_type@),
            r.subledger_type == (match row.subledger_type {
                Some(s) => Some(subledger_type_of_code(s@)),
                None => None,
            }),
            r.currency@ == row.currency@,
            r.balance == row.balance,
            r.frozen_balance == row.frozen_balance,
            r.version == row.version,
            r.sequence_number == row.sequence_number,
            r.status@ == row.status@,
            r.attributes == row.attributes,
            opt_chars(r.contract_name) == opt_chars(row.contract_name),
            opt_chars(r.contract_version) == opt_chars(row.contract_version),
            r.created_at == row.created_at,
            r.updated_at == row.updated_at,
    {
        let account_type = parse_account_type(row.account_type.as_str());
        let subledger_type = match &row.subledger_type {
            Some(s) => Some(parse_subledger_type(s.as_str())),
            None => None,
        };
        Account {
            id: row.id,
            tenant_id: row.tenant_id,
            geo: row.geo,
            account_code: row.account_code,
            account_name: row.account_name,
            display_name: row.display_name,
            display_code: row.display_code,
            account_type,
            subledger_type,
            currency: row.currency,
            balance: row.balance,
            frozen_balance: row.frozen_balance,
            version: row.version,
            sequence_number: row.sequence_number,
            status: row.status,
            attributes: row.attributes,
            contract_name: row.contract_name,
            contract_version: row.contract_version,
            created_at: row.created_at,
            updated_at: row.updated_at,
        }
    }
}

/// `s` with every occurrence of `pat` from position `i` on replaced by `to`,
/// scanning left to right and resuming after each replaced occurrence (as
/// `str::replace` does for a non-empty pattern).
pub open spec fn replaced_from(s: Seq<char>, pat: Seq<char>, to: Seq<char>, i: int) -> Seq<char>
    decreases s.len() - i,
{
    if i < 0 || i >= s.len() || pat.len() == 0 {
        s.subrange(if 0 <= i <= s.len() { i } else { s.len() as int }, s.len() as int)
    } else if i + pat.len() <= s.len() && s.subrange(i, i + pat.len()) == pat {
        to + replaced_from(s, pat, to, i + pat.len())
    } else {
        seq![s[i]] + replaced_from(s, pat, to, i + 1)
    }
}

/// `s` with every occurrence of the non-empty `pat` replaced by `to`.
pub open spec fn replaced(s: Seq<char>, pat: Seq<char>, to: Seq<char>) -> Seq<char> {
    replaced_from(s, pat, to, 0)
}

/// Whether `pat` occurs in `s` at position `i`.
fn occurs_at(s: &Vec<char>, pat: &Vec<char>, i: usize) -> (r: bool)
    requires
        i <= s@.len(),
    ensures
        r == (i + pat@.len() <= s@.len() && s@.subrange(i as int, i + pat@.len()) == pat@),
{
    let n = s.len();
    if pat.len() > n - i {
        return false;
    }
    let mut k: usize = 0;
    while k < pat.len()
        invariant
            n == s@.len(),
            i + pat@.len() <= n,
            k <= pat@.len(),
            forall|j: int| 0 <= j < k ==> s@[i + j] == #[trigger] pat@[j],
        decreases pat.len() - k,
    {
        if s[i + k] != pat[k] {
            assert(s@.subrange(i as int, i + pat@.len())[k as int] != pat@[k as int]);
            return false;
        }
        k = k + 1;
    }
    assert(s@.subrange(i as int, i + pat@.len()) =~= pat@);
    true
}

/// `s` with every occurrence of the non-empty `pat` replaced by `to`, as
/// `str::replace` gives it.
pub fn replace_all(s: &str, pat: &str, to: &str) -> (r: String)
    requires
        pat@.len() > 0,
    ensures
        r@ == replaced(s@, pat@, to@),
{
    let cs = chars_of(s);
    let ps = chars_of(pat);
    let ts = chars_of(to);
    let mut out: Vec<char> = Vec::new();
    let mut i: usize = 0;
    while i < cs.len()
        invariant
            cs@ == s@,
            ps@ == pat@,
            ts@ == to@,
            pat@.len() > 0,
            i <= cs@.len(),
            out@ + replaced_from(s@, pat@, to@, i as int) == replaced(s@, pat@, to@),
        decreases cs.len() - i,
    {
        if occurs_at(&cs, &ps, i) {
            let ghost before = out@;
            let mut k: usize = 0;
            while k < ts.len()
                invariant
                    ts@ == to@,
                    k <= ts@.len(),
                    out@ == before + to@.subrange(0, k as int),
                decreases ts.len() - k,
            {
                out.push(ts[k]);
                k = k + 1;
                assert(out@ =~= before + to@.subrange(0, k as int));
            }
            proof {
                assert(to@.subrange(0, to@.len() as int) =~= to@);
                assert(before + replaced_from(s@, pat@, to@, i as int) =~= out@ + replaced_from(
                    s@,
                    pat@,
                    to@,
                    i + pat@.len(),
                ));
            }
            i = i + ps.len();
        } else {
            let ghost before = out@;
            out.push(cs[i]);
            proof {
                assert(before + replaced_from(s@, pat@, to@, i as int) =~= out@ + replaced_from(
                    s@,
                    pat@,
                    to@,
                    i + 1,
                ));
            }
            i = i + 1;
        }
    }
    proof {
        assert(replaced_from(s@, pat@, to@, i as int) =~= Seq::<char>::empty());
        assert(out@ =~= out@ + Seq::<char>::empty());
    }
    string_of(&out)
}

/// The lower-case hexadecimal digit of a value below 16.
pub open spec fn hex_char(d: int) -> char {
    if d < 10 {
        (48 + d) as char
    } else {
        (87 + d) as char
    }
}

/// Digit `k` of the 32 hexadecimal digits of `id`, the most significant first.
pub open spec fn hex_digit(id: u128, k: int) -> char {
    hex_char((id as int / pow(16, (31 - k) as nat)) % 16)
}

/// The hyphenated lower-case text `uuid` writes for an identifier: its 32
/// hexadecimal digits, most significant first, in groups of 8, 4, 4, 4 and 12
/// joined by hyphens.
pub open spec fn uuid_hyphenated(id: u128) -> Seq<char> {
    Seq::new(
        36,
        |p: int|
            if p == 8 || p == 13 || p == 18 || p == 23 {
                '-'
            } else {
                hex_digit(
                    id,
                    p - (if p < 8 {
                        0int
                    } else if p < 13 {
                        1int
                    } else if p < 18 {
                        2int
                    } else if p < 23 {
                        3int
                    } else {
                        4int
                    }),
                )
            },
    )
}

/// `Uuid::to_string` on the identifier with these bits (`Uuid::from_u128`,
/// big-endian): its hyphenated lower-case text.
#[verifier::external_body]
fn uuid_text(id: u128) -> (r: String)
    ensures
        r@ == uuid_hyphenated(id),
{
    uuid::Uuid::from_u128(id).to_string()
}

/// What `Uuid::parse_str` gives for a text: the identifier's 128 bits, or the
/// text of its error.
pub uninterp spec fn uuid_parsed(text: Seq<char>) -> Result<u128, Seq<char>>;

/// A parse outcome with its error taken as text.
pub open spec fn parse_outcome(r: Result<u128, String>) -> Result<u128, Seq<char>> {
    match r {
        Ok(id) => Ok(id),
        Err(m) => Err(m@),
    }
}

/// `uuid::Uuid::parse_str` on `text`: the identifier's bits (`Uuid::as_u128`)
/// or the error's display text, which `uuid_parsed` names.
#[verifier::external_body]
pub(crate) fn parse_uuid(text: &str) -> (r: Result<u128, String>)
    ensures
        parse_outcome(r) == uuid_parsed(text@),
{
    match uuid::Uuid::parse_str(text) {
        Ok(u) => Ok(u.as_u128()),
        Err(e) => Err(e.to_string()),
    }
}

/// Replaces `{key}` by the bag's string under `key` where the bag holds one.
pub open spec fn fill_from_bag(s: Seq<char>, attrs: Option<AttributeBag>, key: Seq<char>, placeholder: Seq<char>) -> Seq<char> {
    match attrs {
        Some(b) => match lookup(b@.strings, key) {
            Some(v) => replaced(s, placeholder, v),
            None => s,
        },
        None => s,
    }
}

/// The account code a template resolves to in a context: `{tenant_id}`,
/// `{geo}`, `{desk}` and `{currency}` replaced by the context's values, then
/// `{instrument_id}`, `{instrument_type}` and `{counterparty}` by the strings
/// of the context's attributes where they hold them, and any of these three
/// still left removed.
pub open spec fn resolved_template(template: Seq<char>, ctx: ResolveContext) -> Seq<char> {
    let r1 = replaced(template, "{tenant_id}"@, uuid_hyphenated(ctx.tenant_id));
    let r2 = replaced(r1, "{geo}"@, ctx.geo@);
    let r3 = replaced(r2, "{desk}"@, ctx.desk@);
    let r4 = replaced(r3, "{currency}"@, ctx.currency@);
    let r5 = fill_from_bag(r4, ctx.attributes, "instrument_id"@, "{instrument_id}"@);
    let r6 = fill_from_bag(r5, ctx.attributes, "instrument_type"@, "{instrument_type}"@);
    let r7 = fill_from_bag(r6, ctx.attributes, "counterparty"@, "{counterparty}"@);
    let r8 = replaced(r7, "{instrument_id}"@, Seq::empty());
    let r9 = replaced(r8, "{instrument_type}"@, Seq::empty());
    replaced(r9, "{counterparty}"@, Seq::empty())
}

/// Replaces `placeholder` by the bag's string under `key` where it holds one.
fn fill(s: String, attrs: &Option<AttributeBag>, key: &str, placeholder: &str) -> (r: String)
    requires
        placeholder@.len() > 0,
    ensures
        r@ == fill_from_bag(s@, *attrs, key@, placeholder@),
{
    match attrs {
        Some(b) => match b.get_string(key) {
            Some(v) => replace_all(s.as_str(), placeholder, v.as_str()),
            None => s,
        },
        None => s,
    }
}

/// Resolves an account code template against a context (see
/// `resolved_template`).
pub fn resolve_template(template: &str, ctx: &ResolveContext) -> (r: String)
    ensures
        r@ == resolved_template(template@, *ctx),
{
    proof {
        reveal_strlit("{tenant_id}");
        reveal_strlit("{geo}");
        reveal_strlit("{desk}");
        reveal_strlit("{currency}");
        reveal_strlit("{instrument_id}");
        reveal_strlit("{instrument_type}");
        reveal_strlit("{counterparty}");
        reveal_strlit("");
    }
    let tenant = uuid_text(ctx.tenant_id);
    let r1 = replace_all(template, "{tenant_id}", tenant.as_str());
    let r2 = replace_all(r1.as_str(), "{geo}", ctx.geo.as_str());
    let r3 = replace_all(r2.as_str(), "{desk}", ctx.desk.as_str());
    let r4 = replace_all(r3.as_str(), "{currency}", ctx.currency.as_str());
    let r5 = fill(r4, &ctx.attributes, "instrument_id", "{instrument_id}");
    let r6 = fill(r5, &ctx.attributes, "instrument_type", "{instrument_type}");
    let r7 = fill(r6, &ctx.attributes, "counterparty", "{counterparty}");
    let r8 = replace_all(r7.as_str(), "{instrument_id}", "");
    let r9 = replace_all(r8.as_str(), "{instrument_type}", "");
    let r10 = replace_all(r9.as_str(), "{counterparty}", "");
    proof {
        assert(""@ =~= Seq::<char>::empty());
    }
    r10
}

} // verus!
