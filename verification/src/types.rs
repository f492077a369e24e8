//! The closed vocabularies of the ledger: kinds of quantities, prices, amounts,
//! dates, entry sides, subledgers, account types, statuses and link types.
use vstd::prelude::*;
use crate::text::{owned, str_eq};

verus! {

/// Kinds of quantity an attribute bag can carry.
#[derive(Clone, Copy, Debug, PartialEq, Eq, Structural, Hash)]
pub enum QuantityType {
    Current,
    Traded,
    SafeKeeping,
    Segregated,
    Frozen,
    Available,
    PendingSettlement,
    Pledged,
    Recalled,
    AccruedInterest,
}

/// Kinds of price an attribute bag can carry.
#[derive(Clone, Copy, Debug, PartialEq, Eq, Structural, Hash)]
pub enum PriceType {
    Clean,
    Dirty,
    Market,
    Strike,
    Forward,
    AllIn,
}

/// Kinds of amount an attribute bag can carry.
#[derive(Clone, Copy, Debug, PartialEq, Eq, Structural, Hash)]
pub enum AmountType {
    Gross,
    Net,
    Settlement,
    Commission,
    Tax,
    Fee,
    AccruedInterest,
    StampDuty,
}

/// Kinds of date an attribute bag can carry.
#[derive(Clone, Copy, Debug, PartialEq, Eq, Structural, Hash)]
pub enum DateType {
    Trade,
    Settlement,
    Value,
    Ex,
    Maturity,
    Payment,
}

/// Side of a journal entry.
#[derive(Clone, Copy, Debug, PartialEq, Eq, Structural)]
pub enum Side {
    Debit,
    Credit,
}

/// Level of an entry.
#[derive(Clone, Copy, Debug, PartialEq, Eq, Structural)]
pub enum EntryType {
    Subledger,
    GL,
}

/// Subledgers an account can belong to.
#[derive(Clone, Copy, Debug, PartialEq, Eq, Structural, Hash)]
pub enum SubledgerType {
    Trading,
    Cash,
    PNL,
    Settlement,
    Position,
}

/// Accounting classes of an account.
#[derive(Clone, Copy, Debug, PartialEq, Eq, Structural)]
pub enum AccountType {
    Asset,
    Liability,
    Equity,
    Income,
    Expense,
}

/// Lifecycle states of a transaction.
#[derive(Clone, Copy, Debug, PartialEq, Eq, Structural)]
pub enum TransactionStatus {
    Submitted,
    Enriched,
    Validated,
    Posted,
    Failed,
    Cancelled,
}

/// Ways a child transaction is linked to its parent.
#[derive(Clone, Copy, Debug, PartialEq, Eq, Structural)]
pub enum LinkType {
    AccruedInterest,
    Commission,
    Tax,
    Settlement,
    QuantityTransfer,
    CashMovement,
    CorpAction,
}

/// The text of a side: "DEBIT" or "CREDIT".
pub open spec fn side_text(s: Side) -> Seq<char> {
    match s {
        Side::Debit => "DEBIT"@,
        Side::Credit => "CREDIT"@,
    }
}

/// The side a text names, if any.
pub open spec fn side_of_text(t: Seq<char>) -> Option<Side> {
    if t == "DEBIT"@ {
        Some(Side::Debit)
    } else if t == "CREDIT"@ {
        Some(Side::Credit)
    } else {
        None
    }
}

impl Side {
    /// The side as text, "DEBIT" or "CREDIT" (its display form).
    pub fn to_text(&self) -> (r: String)
        ensures
            r@ == side_text(*self),
    {
        match self {
            Side::Debit => owned("DEBIT"),
            Side::Credit => owned("CREDIT"),
        }
    }

    /// Reads a side from its text; any other text gives the error
    /// "invalid side: " followed by the text.
    pub fn try_from_str(s: &str) -> (r: Result<Side, String>)
        ensures
            side_of_text(s@) matches Some(x) ==> r == Ok::<Side, String>(x),
            side_of_text(s@) is None ==> (r matches Err(e) && e@ == "invalid side: "@ + s@),
    {
        if str_eq(s, "DEBIT") {
            Ok(Side::Debit)
        } else if str_eq(s, "CREDIT") {
            Ok(Side::Credit)
        } else {
            let mut e = owned("invalid side: ");
            e.append(s);
            Err(e)
        }
    }
}

/// Law (side round trip): reading the text of a side gives the side back.
pub proof fn law_side_text_round_trip(s: Side)
    ensures
        side_of_text(side_text(s)) == Some(s),
{
    reveal_strlit("DEBIT");
    reveal_strlit("CREDIT");
    assert("DEBIT"@.len() == 5);
    assert("CREDIT"@.len() == 6);
}

} // verus!
