//! Rules of daily transaction generation: when payroll arrives, how a debit
//! is categorised, which payment rail carries it and whether it posts to the
//! balance at once.
use vstd::prelude::*;
use crate::text::{decimal, decimal_string};

verus! {

/// Payroll is credited every this many ticks.
pub const PAYROLL_INTERVAL: u64 = 14;

/// Whether the transaction step runs on `tick`: not on tick 0, when
/// customers are still being onboarded and have no accounts yet.
pub fn generates_transactions(tick: u64) -> (r: bool)
    ensures
        r == (tick != 0),
{
    tick != 0
}

/// Whether `tick` is a payroll day (every fourteenth tick, tick 0 included).
pub fn is_payroll_tick(tick: u64) -> (r: bool)
    ensures
        r == (tick % PAYROLL_INTERVAL == 0),
{
    tick % PAYROLL_INTERVAL == 0
}

/// The payment rails a debit can travel on.
#[derive(PartialEq, Eq, Structural, Clone, Copy, Debug)]
pub enum PaymentRail {
    Card,
    Ach,
    Wire,
    Rtp,
}

impl PaymentRail {
    /// The rail's id text.
    pub open spec fn id_text(self) -> Seq<char> {
        match self {
            PaymentRail::Card => "card"@,
            PaymentRail::Ach => "ACH"@,
            PaymentRail::Wire => "wire"@,
            PaymentRail::Rtp => "RTP"@,
        }
    }

    /// Whether a debit on this rail settles when it is made.
    pub open spec fn settles_at_once(self) -> bool {
        self != PaymentRail::Card
    }

    /// The rail's id, as stored with a transaction.
    pub fn rail_id(self) -> (r: &'static str)
        ensures
            r@ == self.id_text(),
    {
        proof {
            reveal_strlit("card");
            reveal_strlit("ACH");
            reveal_strlit("wire");
            reveal_strlit("RTP");
        }
        match self {
            PaymentRail::Card => "card",
            PaymentRail::Ach => "ACH",
            PaymentRail::Wire => "wire",
            PaymentRail::Rtp => "RTP",
        }
    }

    /// The settlement status of a new debit on this rail: card debits wait
    /// for authorization, all others are settled.
    pub fn settlement_status(self) -> (r: &'static str)
        ensures
            r@ == (if self.settles_at_once() {
                "settled"@
            } else {
                "pending_authorization"@
            }),
    {
        proof {
            reveal_strlit("settled");
            reveal_strlit("pending_authorization");
        }
        match self {
            PaymentRail::Card => "pending_authorization",
            _ => "settled",
        }
    }

    /// Whether a debit on this rail changes the account balance at once;
    /// card debits only hold the available balance until the payment hub
    /// settles them.
    pub fn posts_immediately(self) -> (r: bool)
        ensures
            r == self.settles_at_once(),
    {
        match self {
            PaymentRail::Card => false,
            _ => true,
        }
    }
}

/// The rail of a cash withdrawal: always ACH, so it settles and posts to
/// the balance at once. (A purchase goes on a rail drawn for it.)
pub fn cash_withdrawal_rail() -> (r: PaymentRail)
    ensures
        r == PaymentRail::Ach,
        r.settles_at_once(),
{
    PaymentRail::Ach
}

/// The category of a debit.
pub fn debit_category(is_cash: bool) -> (r: &'static str)
    ensures
        r@ == (if is_cash {
            "cash_withdrawal"@
        } else {
            "purchase"@
        }),
{
    proof {
        reveal_strlit("cash_withdrawal");
        reveal_strlit("purchase");
    }
    if is_cash {
        "cash_withdrawal"
    } else {
        "purchase"
    }
}

/// One of the customer's recurring merchants: `merchant-<customer>-<slot>`.
pub fn recurring_counterparty(customer_id: &str, slot: u64) -> (r: String)
    ensures
        r@ == "merchant-"@ + customer_id@ + "-"@ + decimal(slot as nat),
{
    let mut r = String::from_str("merchant-");
    r.append(customer_id);
    r.append("-");
    let d = decimal_string(slot);
    r.append(d.as_str());
    r
}

/// A merchant the customer has not used before: `new-merchant-<n>`.
pub fn new_counterparty(n: u64) -> (r: String)
    ensures
        r@ == "new-merchant-"@ + decimal(n as nat),
{
    let mut r = String::from_str("new-merchant-");
    let d = decimal_string(n);
    r.append(d.as_str());
    r
}

} // verus!
