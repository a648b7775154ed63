//! The computations the store makes around its queries: how ticks and
//! flags are written to integer columns and read back, which fee columns a
//! price change may touch, how a stored command id is read, and the windows
//! its aggregate queries cover.
use vstd::prelude::*;
use crate::text::{i64_text, parse_i64, str_eq};

verus! {

/// Days of history that the churn inputs of a customer cover.
pub const CHURN_INPUT_LOOKBACK_DAYS: u64 = 90;

/// Days of history that a churn aggregate covers.
pub const CHURN_AGGREGATE_LOOKBACK_DAYS: u64 = 30;

/// Days of history in which a payroll credit counts as direct deposit.
pub const DIRECT_DEPOSIT_LOOKBACK_DAYS: u64 = 30;

/// The integer column value of a tick (`tick as i64`): ticks beyond
/// `i64::MAX` wrap to negative values.
pub open spec fn tick_column(tick: u64) -> i64 {
    if tick <= i64::MAX {
        tick as i64
    } else {
        (tick - 0x1_0000_0000_0000_0000int) as i64
    }
}

/// The tick that an integer column holds (`value as u64`).
pub open spec fn column_tick(value: i64) -> u64 {
    if value >= 0 {
        value as u64
    } else {
        (value + 0x1_0000_0000_0000_0000int) as u64
    }
}

/// Writes a tick to an integer column.
pub fn tick_to_column(tick: u64) -> (v: i64)
    ensures
        v == tick_column(tick),
{
    if tick <= i64::MAX as u64 {
        tick as i64
    } else {
        let below: u64 = tick - 9223372036854775808u64;
        i64::MIN + (below as i64)
    }
}

/// Reads a tick from an integer column.
pub fn tick_from_column(value: i64) -> (t: u64)
    ensures
        t == column_tick(value),
{
    if value >= 0 {
        value as u64
    } else {
        let above: u64 = (value - i64::MIN) as u64;
        9223372036854775808u64 + above
    }
}

/// Every tick survives a round trip through its column, and every column
/// value through the tick it holds.
pub proof fn law_tick_column_round_trip(tick: u64, value: i64)
    ensures
        column_tick(tick_column(tick)) == tick,
        tick_column(column_tick(value)) == value,
{
}

/// The integer column value of a flag: 1 for set, 0 for clear.
pub open spec fn flag_column(flag: bool) -> i64 {
    if flag {
        1
    } else {
        0
    }
}

/// Writes a flag to an integer column.
pub fn flag_to_column(flag: bool) -> (v: i64)
    ensures
        v == flag_column(flag),
{
    if flag {
        1
    } else {
        0
    }
}

/// Reads a flag from an integer column: any non-zero value is set.
pub fn flag_from_column(value: i64) -> (f: bool)
    ensures
        f == (value != 0),
{
    value != 0
}

/// A flag read back from its column is the flag written.
pub proof fn law_flag_column_round_trip(flag: bool)
    ensures
        (flag_column(flag) != 0) == flag,
{
}

/// Ticks since a customer's last transaction: the whole run (`tick`) when
/// there is none; otherwise `tick` less the stored tick, clamped at zero.
pub open spec fn ticks_since(last: Option<i64>, tick: u64) -> u64 {
    match last {
        None => tick,
        Some(t) => if tick >= column_tick(t) {
            (tick - column_tick(t)) as u64
        } else {
            0
        },
    }
}

/// Ticks since a customer's last transaction, from the stored tick of that
/// transaction.
pub fn ticks_since_last_txn(last: Option<i64>, tick: u64) -> (r: u64)
    ensures
        r == ticks_since(last, tick),
{
    match last {
        None => tick,
        Some(t) => tick.saturating_sub(tick_from_column(t)),
    }
}

/// No more ticks can have passed since the last transaction than the run
/// has lasted.
pub proof fn law_ticks_since_bounded(last: Option<i64>, tick: u64)
    ensures
        ticks_since(last, tick) <= tick,
{
}

/// The product fees a player may change.
pub open spec fn is_fee_column(fee_type: Seq<char>) -> bool {
    fee_type == "monthly_fee"@ || fee_type == "overdraft_fee"@ || fee_type == "nsf_fee"@
        || fee_type == "atm_fee"@ || fee_type == "wire_fee"@
}

/// The column that a fee change writes: the fee type itself when it names
/// one of the five product fees; `None` (an invalid fee type) otherwise.
pub fn fee_column(fee_type: &str) -> (r: Option<&'static str>)
    ensures
        r is Some <==> is_fee_column(fee_type@),
        r matches Some(c) ==> c@ == fee_type@,
{
    if str_eq(fee_type, "monthly_fee") {
        Some("monthly_fee")
    } else if str_eq(fee_type, "overdraft_fee") {
        Some("overdraft_fee")
    } else if str_eq(fee_type, "nsf_fee") {
        Some("nsf_fee")
    } else if str_eq(fee_type, "atm_fee") {
        Some("atm_fee")
    } else if str_eq(fee_type, "wire_fee") {
        Some("wire_fee")
    } else {
        None
    }
}

/// Reads a stored player command's id, as `str::parse::<i64>` does;
/// `None` is an invalid command id.
pub fn parse_command_id(command_id: &str) -> (r: Option<i64>)
    ensures
        r == i64_text(command_id@),
{
    parse_i64(command_id)
}

/// The length, in ticks, over which a component's uptime is measured:
/// the window's span, and at least one tick.
pub fn uptime_window_ticks(start_tick: u64, end_tick: u64) -> (r: u64)
    requires
        start_tick <= end_tick,
    ensures
        r == (if end_tick - start_tick >= 1 {
            end_tick - start_tick
        } else {
            1
        }),
        r >= 1,
{
    let span = end_tick - start_tick;
    if span >= 1 {
        span
    } else {
        1
    }
}


/// The status a reconciliation exception takes when resolved: written off
/// for a write-off, resolved otherwise.
pub fn recon_resolution_status(resolution_type: &str) -> (r: &'static str)
    ensures
        r@ == (if resolution_type@ == "write_off"@ {
            "written_off"@
        } else {
            "resolved"@
        }),
{
    proof {
        reveal_strlit("written_off");
        reveal_strlit("resolved");
    }
    if str_eq(resolution_type, "write_off") {
        "written_off"
    } else {
        "resolved"
    }
}

} // verus!
