//! The decisions of the headless runner: reading its command-line flags,
//! naming its database and run, stamping them with the clock, and answering
//! each message of the interactive protocol.
use vstd::prelude::*;
use crate::text::{decimal, decimal_string, i64_text, str_eq, u64_text};
use std::time::{Duration, SystemTime, SystemTimeError};

verus! {

/// The word after the first occurrence of `flag` among `args[i..]` that is
/// followed by another word; `None` when there is none.
pub open spec fn flag_value_from(args: Seq<String>, flag: Seq<char>, i: nat) -> Option<Seq<char>>
    decreases args.len() - i,
{
    if i + 1 >= args.len() {
        None
    } else if args[i as int]@ == flag {
        Some(args[i as int + 1]@)
    } else {
        flag_value_from(args, flag, i + 1)
    }
}

/// The word that follows the first occurrence of `flag` in `args` (the
/// first pair of adjacent words whose first word is `flag`).
pub open spec fn flag_value(args: Seq<String>, flag: Seq<char>) -> Option<Seq<char>> {
    flag_value_from(args, flag, 0)
}

/// Finds the index of the word that follows the first occurrence of `flag`.
fn flag_position(args: &[String], flag: &str) -> (r: Option<usize>)
    ensures
        match r {
            Some(i) => i < args@.len() && 1 <= i && flag_value(args@, flag@) == Some(
                args@[i as int]@,
            ),
            None => flag_value(args@, flag@) is None,
        },
{
    let n = args.len();
    let mut i: usize = 0;
    while n > 1 && i < n - 1
        invariant
            n == args@.len(),
            i <= n,
            flag_value(args@, flag@) == flag_value_from(args@, flag@, i as nat),
        decreases n - i,
    {
        if str_eq(args[i].as_str(), flag) {
            return Some(i + 1);
        }
        i = i + 1;
    }
    None
}

/// Reads a numeric flag: the number after the first occurrence of `flag`,
/// or `default` when the flag is missing, has no word after it, or that
/// word is not a number.
pub fn parse_arg(args: &[String], flag: &str, default: u64) -> (r: u64)
    ensures
        r == match flag_value(args@, flag@) {
            Some(v) => match u64_text(v) {
                Some(x) => x,
                None => default,
            },
            None => default,
        },
{
    match flag_position(args, flag) {
        Some(i) => match crate::text::parse_u64(args[i].as_str()) {
            Some(x) => x,
            None => default,
        },
        None => default,
    }
}

/// Reads a signed numeric flag: the number after the first occurrence of
/// `flag`, or `default` when the flag is missing, has no word after it, or
/// that word is not a number within `i64`.
pub fn parse_signed_arg(args: &[String], flag: &str, default: i64) -> (r: i64)
    ensures
        r == match flag_value(args@, flag@) {
            Some(v) => match i64_text(v) {
                Some(x) => x,
                None => default,
            },
            None => default,
        },
{
    match flag_position(args, flag) {
        Some(i) => match crate::text::parse_i64(args[i].as_str()) {
            Some(x) => x,
            None => default,
        },
        None => default,
    }
}

/// Reads a text flag: the word after the first occurrence of `flag`, or
/// `default` when there is none.
pub fn text_arg(args: &[String], flag: &str, default: &str) -> (r: String)
    ensures
        r@ == match flag_value(args@, flag@) {
            Some(v) => v,
            None => default@,
        },
{
    match flag_position(args, flag) {
        Some(i) => args[i].clone(),
        None => String::from_str(default),
    }
}

/// Whether `flag` appears anywhere among `args`.
pub fn has_flag(args: &[String], flag: &str) -> (r: bool)
    ensures
        r == exists|i: int| 0 <= i < args@.len() && #[trigger] args@[i]@ == flag@,
{
    let mut i: usize = 0;
    while i < args.len()
        invariant
            i <= args@.len(),
            forall|j: int| 0 <= j < i ==> #[trigger] args@[j]@ != flag@,
        decreases args.len() - i,
    {
        if str_eq(args[i].as_str(), flag) {
            return true;
        }
        i = i + 1;
    }
    false
}

/// The runner's settings from its command line.
pub struct RunnerConfig {
    pub seed: u64,
    pub ticks: u64,
    pub ipc_mode: bool,
    pub db: String,
    pub data_dir: String,
}

/// A numeric flag's value, or `default` (see `parse_arg`).
pub open spec fn numeric_flag(args: Seq<String>, flag: Seq<char>, default: u64) -> u64 {
    match flag_value(args, flag) {
        Some(v) => match u64_text(v) {
            Some(x) => x,
            None => default,
        },
        None => default,
    }
}

/// Reads the runner's settings: `--seed` (default 42), `--ticks` (default
/// 365), `--ipc-mode` anywhere, `--db` (default `:memory:`) and
/// `--data-dir` (default `./data`).
pub fn runner_config(args: &[String]) -> (c: RunnerConfig)
    ensures
        c.seed == numeric_flag(args@, "--seed"@, 42),
        c.ticks == numeric_flag(args@, "--ticks"@, 365),
        c.ipc_mode == exists|i: int| 0 <= i < args@.len() && #[trigger] args@[i]@ == "--ipc-mode"@,
        c.db@ == match flag_value(args@, "--db"@) {
            Some(v) => v,
            None => ":memory:"@,
        },
        c.data_dir@ == match flag_value(args@, "--data-dir"@) {
            Some(v) => v,
            None => "./data"@,
        },
{
    RunnerConfig {
        seed: parse_arg(args, "--seed", 42),
        ticks: parse_arg(args, "--ticks", 365),
        ipc_mode: has_flag(args, "--ipc-mode"),
        db: text_arg(args, "--db", ":memory:"),
        data_dir: text_arg(args, "--data-dir", "./data"),
    }
}

/// The system clock's time, as std keeps it.
#[verifier::external_type_specification]
#[verifier::external_body]
pub struct ExSystemTime(std::time::SystemTime);

/// The error std gives for a time that lies before the one it is measured
/// from.
#[verifier::external_type_specification]
#[verifier::external_body]
pub struct ExSystemTimeError(std::time::SystemTimeError);

/// Wraps `std::time::SystemTime::now`: the system clock's current time.
/// The reading depends on the clock, so nothing is stated of it.
#[verifier::external_body]
fn clock_now() -> (r: SystemTime) {
    SystemTime::now()
}

/// Wraps `std::time::SystemTime::duration_since`, measured from
/// `std::time::UNIX_EPOCH`: the time elapsed since the epoch, or an error
/// when `t` lies before it. Nothing is stated of which comes back, since
/// `SystemTime` is opaque here.
#[verifier::external_body]
fn since_unix_epoch(t: &SystemTime) -> (r: Result<Duration, SystemTimeError>) {
    t.duration_since(std::time::UNIX_EPOCH)
}

/// Wraps `std::time::Duration::as_secs`: the whole seconds of `d`. Nothing
/// is stated of the number, since `Duration` is opaque here.
#[verifier::external_body]
fn whole_seconds(d: &Duration) -> (r: u64) {
    d.as_secs()
}

/// Seconds since the Unix epoch by the system clock, or `None` when the
/// clock reads earlier than the epoch.
fn unix_time_secs() -> (r: Option<u64>) {
    let now = clock_now();
    match since_unix_epoch(&now) {
        Ok(d) => Some(whole_seconds(&d)),
        Err(_) => None,
    }
}

/// The stamp for a clock reading: the seconds read, or 0 when the clock
/// could not be read.
pub fn stamp_from_clock(reading: Option<u64>) -> (r: u64)
    ensures
        r == match reading {
            Some(secs) => secs,
            None => 0,
        },
{
    match reading {
        Some(secs) => secs,
        None => 0,
    }
}

/// A wall-clock stamp, in seconds since the Unix epoch (0 when the clock
/// reads earlier than the epoch), that tells runs and in-memory databases
/// apart.
pub fn chrono_tick() -> (r: u64) {
    stamp_from_clock(unix_time_secs())
}

/// The database to open: a private shared-memory database named after
/// `stamp` when `db` asks for memory, else `db` itself.
pub open spec fn database_uri(db: Seq<char>, stamp: u64) -> Seq<char> {
    if db == ":memory:"@ {
        "file:simrun_"@ + decimal(stamp as nat) + "?mode=memory&cache=shared"@
    } else {
        db
    }
}

/// Names the database to open for `db` (see `database_uri`).
pub fn effective_database(db: &str, stamp: u64) -> (r: String)
    ensures
        r@ == database_uri(db@, stamp),
{
    if str_eq(db, ":memory:") {
        let mut r = String::from_str("file:simrun_");
        let d = decimal_string(stamp);
        r.append(d.as_str());
        r.append("?mode=memory&cache=shared");
        r
    } else {
        String::from_str(db)
    }
}

/// The id of a run: `run-<seed>-<stamp>`.
pub fn run_label(seed: u64, stamp: u64) -> (r: String)
    ensures
        r@ == "run-"@ + decimal(seed as nat) + "-"@ + decimal(stamp as nat),
{
    let mut r = String::from_str("run-");
    let s = decimal_string(seed);
    r.append(s.as_str());
    r.append("-");
    let t = decimal_string(stamp);
    r.append(t.as_str());
    r
}

// ── Interactive protocol ────────────────────────────────────────────────

/// A message of the interactive protocol, as read from one input line.
pub enum IpcInput {
    /// The input ended.
    EndOfInput,
    /// The line is not a message of the protocol.
    Unreadable,
    /// `get_state`.
    GetState,
    /// `tick` with a count of ticks to advance.
    Tick { count: u64 },
    /// `command` with the command's name.
    Command { cmd: String },
    /// `quit`.
    Quit,
}

/// The player commands the runner carries out.
#[derive(PartialEq, Eq, Structural, Clone, Copy, Debug)]
pub enum PlayerCommandKind {
    ResolveComplaint,
    /// Any other name: logged and ignored.
    Unknown,
}

/// Which command a command name asks for.
pub fn command_kind(cmd: &str) -> (k: PlayerCommandKind)
    ensures
        k == (if cmd@ == "resolve_complaint"@ {
            PlayerCommandKind::ResolveComplaint
        } else {
            PlayerCommandKind::Unknown
        }),
{
    if str_eq(cmd, "resolve_complaint") {
        PlayerCommandKind::ResolveComplaint
    } else {
        PlayerCommandKind::Unknown
    }
}

/// What the runner does with one message.
#[derive(PartialEq, Eq, Structural, Clone, Copy, Debug)]
pub enum IpcAction {
    /// Stop reading and end the session.
    Stop,
    /// Write an error line and read on.
    ReportError,
    /// Advance the simulation by `count` ticks, then write the state.
    AdvanceThenReport { count: u64 },
    /// Write the state.
    Report,
    /// Carry out the command, then write the state.
    ApplyThenReport { command: PlayerCommandKind },
}

/// The action for one message: end of input and `quit` stop the session;
/// an unreadable line is answered with an error and the session goes on;
/// every other message is answered with the state, after advancing the
/// simulation for `tick` and after the command for `command`.
pub fn ipc_action(input: &IpcInput) -> (a: IpcAction)
    ensures
        a == match input {
            IpcInput::EndOfInput => IpcAction::Stop,
            IpcInput::Quit => IpcAction::Stop,
            IpcInput::Unreadable => IpcAction::ReportError,
            IpcInput::GetState => IpcAction::Report,
            IpcInput::Tick { count } => IpcAction::AdvanceThenReport { count: *count },
            IpcInput::Command { cmd } => IpcAction::ApplyThenReport {
                command: if cmd@ == "resolve_complaint"@ {
                    PlayerCommandKind::ResolveComplaint
                } else {
                    PlayerCommandKind::Unknown
                },
            },
        },
{
    match input {
        IpcInput::EndOfInput => IpcAction::Stop,
        IpcInput::Quit => IpcAction::Stop,
        IpcInput::Unreadable => IpcAction::ReportError,
        IpcInput::GetState => IpcAction::Report,
        IpcInput::Tick { count } => IpcAction::AdvanceThenReport { count: *count },
        IpcInput::Command { cmd } => IpcAction::ApplyThenReport {
            command: command_kind(cmd.as_str()),
        },
    }
}

/// The resolution code of a `resolve_complaint` command, `explanation_only`
/// when the command gives none.
pub fn resolution_or_default(resolution: Option<String>) -> (r: String)
    ensures
        r@ == match resolution {
            Some(s) => s@,
            None => "explanation_only"@,
        },
{
    match resolution {
        Some(s) => s,
        None => String::from_str("explanation_only"),
    }
}

/// The positions of the quarters that the run summary lists: the last four
/// (or all, when there are fewer), oldest first.
pub fn summary_quarters(count: usize) -> (r: (usize, usize))
    ensures
        r.1 == count,
        r.0 == (if count >= 4 {
            count - 4
        } else {
            0
        }),
{
    if count >= 4 {
        (count - 4, count)
    } else {
        (0, count)
    }
}

} // verus!
