//! The command-line toolbox: commands, status icons, the clock line and the
//! server address.
use vstd::prelude::*;
use crate::automation::{env_lookup, lookup, parse_u64, parse_u64_spec};
use crate::text::{digit_char, push_char, str_eq};
use crate::watchdog::unix_now;

verus! {

/// A toolbox command.
#[derive(Debug, Clone, PartialEq, Eq)]
pub enum CliCommand {
    Status,
    Deploy,
    Monitor,
    Backup,
    Logs,
    Help,
    /// Any other argument.
    Unknown,
}

/// The command a first argument names; no argument means `help`.
pub open spec fn command_spec(arg: Option<Seq<char>>) -> CliCommand {
    match arg {
        None => CliCommand::Help,
        Some(a) => if a == "status"@ {
            CliCommand::Status
        } else if a == "deploy"@ {
            CliCommand::Deploy
        } else if a == "monitor"@ {
            CliCommand::Monitor
        } else if a == "backup"@ {
            CliCommand::Backup
        } else if a == "logs"@ {
            CliCommand::Logs
        } else if a == "help"@ || a == "--help"@ || a == "-h"@ {
            CliCommand::Help
        } else {
            CliCommand::Unknown
        },
    }
}

/// The command named by the first argument.
pub fn parse_command(arg: Option<&str>) -> (c: CliCommand)
    ensures
        c == command_spec(
            match arg {
                Some(a) => Some(a@),
                None => None,
            },
        ),
{
    match arg {
        None => CliCommand::Help,
        Some(a) => if str_eq(a, "status") {
            CliCommand::Status
        } else if str_eq(a, "deploy") {
            CliCommand::Deploy
        } else if str_eq(a, "monitor") {
            CliCommand::Monitor
        } else if str_eq(a, "backup") {
            CliCommand::Backup
        } else if str_eq(a, "logs") {
            CliCommand::Logs
        } else if str_eq(a, "help") || str_eq(a, "--help") || str_eq(a, "-h") {
            CliCommand::Help
        } else {
            CliCommand::Unknown
        },
    }
}

/// The icon for a check result.
pub fn status_icon(ok: bool) -> (r: &'static str)
    ensures
        ok ==> r@ == "✅ OK"@,
        !ok ==> r@ == "❌ FAIL"@,
{
    if ok {
        "✅ OK"
    } else {
        "❌ FAIL"
    }
}

/// Two decimal digits of `n` (below 100).
pub open spec fn two_digits(n: int) -> Seq<char> {
    seq![digit_char(n / 10), digit_char(n % 10)]
}

/// The time of day (UTC) of a Unix time: `HH:MM:SS`.
pub open spec fn clock_spec(total_secs: u64) -> Seq<char> {
    let t = total_secs as int;
    two_digits((t / 3600) % 24) + ":"@ + two_digits((t / 60) % 60) + ":"@ + two_digits(t % 60)
}

fn digit(d: u64) -> (c: char)
    requires
        d < 10,
    ensures
        c == digit_char(d as int),
{
    match d {
        0 => '0',
        1 => '1',
        2 => '2',
        3 => '3',
        4 => '4',
        5 => '5',
        6 => '6',
        7 => '7',
        8 => '8',
        _ => '9',
    }
}

fn push_two_digits(s: &mut String, n: u64)
    requires
        n < 100,
    ensures
        final(s)@ == old(s)@ + two_digits(n as int),
{
    push_char(s, digit(n / 10));
    push_char(s, digit(n % 10));
}

/// The time of day (UTC) of a Unix time, as `HH:MM:SS`.
pub fn clock_text(total_secs: u64) -> (r: String)
    ensures
        r@ == clock_spec(total_secs),
{
    let mut r = String::new();
    push_two_digits(&mut r, (total_secs / 3600) % 24);
    push_char(&mut r, ':');
    push_two_digits(&mut r, (total_secs / 60) % 60);
    push_char(&mut r, ':');
    push_two_digits(&mut r, total_secs % 60);
    proof {
        reveal_strlit(":");
    }
    assert(r@ =~= clock_spec(total_secs));
    r
}

/// The current time of day (UTC), as `HH:MM:SS`.
pub fn chrono_now() -> (r: String)
    ensures
        exists|t: u64| r@ == clock_spec(t),
{
    clock_text(unix_now())
}

/// The monitor's refresh interval: the argument as seconds, 10 when absent or not a number.
pub fn monitor_interval(arg: Option<&str>) -> (secs: u64)
    ensures
        secs == match arg {
            Some(a) => match parse_u64_spec(a@) {
                Some(n) => n,
                None => 10,
            },
            None => 10,
        },
{
    match arg {
        Some(a) => match parse_u64(a) {
            Some(n) => n,
            None => 10,
        },
        None => 10,
    }
}

/// The server address: `ASI_SERVER_URL`, by default `http://localhost:3000`.
pub fn base_url(vars: &Vec<(String, String)>) -> (r: String)
    ensures
        r@ == match env_lookup(vars@, "ASI_SERVER_URL"@) {
            Some(u) => u,
            None => "http://localhost:3000"@,
        },
{
    match lookup(vars, "ASI_SERVER_URL") {
        Some(u) => u.clone(),
        None => "http://localhost:3000".to_owned(),
    }
}

} // verus!
