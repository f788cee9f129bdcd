//! Automation configuration read from environment variables.
use vstd::prelude::*;
use crate::text::str_eq;

verus! {

/// Global automation configuration from environment.
#[derive(Debug, Clone, Copy, PartialEq, Eq)]
pub struct AutomationConfig {
    /// Enable watchdog (default: true).
    pub watchdog_enabled: bool,
    /// Enable auto-backup (default: false).
    pub auto_backup_enabled: bool,
    /// Enable self-healing (default: true).
    pub self_heal_enabled: bool,
    /// Health check interval, in seconds.
    pub health_interval: u64,
    /// Watchdog heartbeat timeout, in seconds.
    pub watchdog_timeout: u64,
}

/// The value of `key` in an environment given as (name, value) pairs: the
/// first pair with that name.
pub open spec fn env_lookup(vars: Seq<(String, String)>, key: Seq<char>) -> Option<Seq<char>>
    decreases vars.len(),
{
    if vars.len() == 0 {
        None
    } else if vars[0].0@ == key {
        Some(vars[0].1@)
    } else {
        env_lookup(vars.drop_first(), key)
    }
}

/// A flag is set when its value is `true` or `1`; an absent flag takes the default.
pub open spec fn env_bool_spec(value: Option<Seq<char>>, default: bool) -> bool {
    match value {
        Some(v) => v == "true"@ || v == "1"@,
        None => default,
    }
}

/// Whether `c` is an ASCII decimal digit.
pub open spec fn is_digit(c: char) -> bool {
    '0' <= c && c <= '9'
}

/// The value of a decimal digit.
pub open spec fn digit_value(c: char) -> int {
    if c == '1' {
        1
    } else if c == '2' {
        2
    } else if c == '3' {
        3
    } else if c == '4' {
        4
    } else if c == '5' {
        5
    } else if c == '6' {
        6
    } else if c == '7' {
        7
    } else if c == '8' {
        8
    } else if c == '9' {
        9
    } else {
        0
    }
}

/// The value of a decimal digit character.
fn digit_of(c: char) -> (v: u64)
    ensures
        v == digit_value(c),
        v <= 9,
{
    match c {
        '1' => 1,
        '2' => 2,
        '3' => 3,
        '4' => 4,
        '5' => 5,
        '6' => 6,
        '7' => 7,
        '8' => 8,
        '9' => 9,
        _ => 0,
    }
}

/// The number written by a sequence of decimal digits.
pub open spec fn digits_value(s: Seq<char>) -> int
    decreases s.len(),
{
    if s.len() == 0 {
        0
    } else {
        digits_value(s.drop_last()) * 10 + digit_value(s.last())
    }
}

/// `s` without a leading `+`.
pub open spec fn unsigned_part(s: Seq<char>) -> Seq<char> {
    if s.len() > 0 && s[0] == '+' {
        s.drop_first()
    } else {
        s
    }
}

/// Every character of `d` is a decimal digit.
pub open spec fn all_digits(d: Seq<char>) -> bool {
    forall|i: int| 0 <= i < d.len() ==> is_digit(#[trigger] d[i])
}

/// `u64::from_str`: an optional `+`, then one or more decimal digits whose
/// value fits in `u64`.
pub open spec fn parse_u64_spec(s: Seq<char>) -> Option<u64> {
    let d = unsigned_part(s);
    if d.len() > 0 && all_digits(d) && digits_value(d) <= u64::MAX {
        Some(digits_value(d) as u64)
    } else {
        None
    }
}

/// A duration in seconds: the parsed value, or the default when absent or malformed.
pub open spec fn env_duration_spec(value: Option<Seq<char>>, default_secs: u64) -> u64 {
    match value {
        Some(v) => match parse_u64_spec(v) {
            Some(n) => n,
            None => default_secs,
        },
        None => default_secs,
    }
}

/// The configuration an environment gives.
pub open spec fn config_from(vars: Seq<(String, String)>) -> AutomationConfig {
    AutomationConfig {
        watchdog_enabled: env_bool_spec(env_lookup(vars, "AUTO_WATCHDOG"@), true),
        auto_backup_enabled: env_bool_spec(env_lookup(vars, "AUTO_BACKUP"@), false),
        self_heal_enabled: env_bool_spec(env_lookup(vars, "AUTO_SELF_HEAL"@), true),
        health_interval: env_duration_spec(env_lookup(vars, "AUTO_HEALTH_INTERVAL"@), 30),
        watchdog_timeout: env_duration_spec(env_lookup(vars, "AUTO_WATCHDOG_TIMEOUT"@), 60),
    }
}

proof fn lemma_digits_value_nonneg(s: Seq<char>)
    requires
        forall|i: int| 0 <= i < s.len() ==> is_digit(#[trigger] s[i]),
    ensures
        digits_value(s) >= 0,
    decreases s.len(),
{
    if s.len() > 0 {
        lemma_digits_value_nonneg(s.drop_last());
    }
}

proof fn lemma_digits_value_grows(s: Seq<char>, j: int)
    requires
        0 <= j <= s.len(),
        forall|i: int| 0 <= i < s.len() ==> is_digit(#[trigger] s[i]),
    ensures
        digits_value(s) >= digits_value(s.take(j)),
    decreases s.len() - j,
{
    if j < s.len() {
        lemma_digits_value_grows(s, j + 1);
        assert(s.take(j + 1).drop_last() =~= s.take(j));
        assert(s.take(j + 1).last() == s[j]);
        lemma_digits_value_nonneg(s.take(j));
    } else {
        assert(s.take(j) =~= s);
    }
}

/// Parses a decimal `u64` as `str::parse::<u64>` does.
pub fn parse_u64(s: &str) -> (r: Option<u64>)
    ensures
        r == parse_u64_spec(s@),
{
    let cs = crate::text::to_chars(s);
    let start: usize = if cs.len() > 0 && cs[0] == '+' { 1 } else { 0 };
    let ghost d = unsigned_part(s@);
    assert(d =~= cs@.skip(start as int));
    if start == cs.len() {
        assert(d.len() == 0);
        return None;
    }
    let mut acc: u64 = 0;
    let mut i = start;
    while i < cs.len()
        invariant
            start <= i <= cs.len(),
            d == cs@.skip(start as int),
            d == unsigned_part(s@),
            forall|k: int| 0 <= k < i - start ==> is_digit(#[trigger] d[k]),
            acc == digits_value(d.take(i - start)),
        decreases cs.len() - i,
    {
        let c = cs[i];
        assert(d[i - start] == c);
        if !('0' <= c && c <= '9') {
            proof {
                assert(!is_digit(d[i - start]));
                assert(!all_digits(d));
                assert(parse_u64_spec(s@) is None);
            }
            return None;
        }
        let v: u64 = digit_of(c);
        assert(d.take(i + 1 - start).drop_last() =~= d.take(i - start));
        if acc > (u64::MAX - v) / 10 {
            proof {
                assert(forall|k: int| 0 <= k < i + 1 - start ==> is_digit(#[trigger] d.take(i + 1 - start)[k]));
                assert(digits_value(d.take(i + 1 - start)) > u64::MAX) by (nonlinear_arith)
                    requires
                        digits_value(d.take(i + 1 - start)) == acc * 10 + v,
                        acc > (u64::MAX - v) / 10,
                        v <= 9,
                ;
                if all_digits(d) {
                    lemma_digits_value_grows(d, i + 1 - start);
                    assert(digits_value(d) > u64::MAX);
                }
                assert(parse_u64_spec(s@) is None);
            }
            return None;
        }
        assert(acc * 10 + v <= u64::MAX) by (nonlinear_arith)
            requires
                acc <= (u64::MAX - v) / 10,
                v <= 9,
        ;
        acc = acc * 10 + v;
        i = i + 1;
    }
    assert(d.take(d.len() as int) == d);
    Some(acc)
}

/// The value of `key` among the (name, value) pairs: the first pair with that name.
pub fn lookup<'a>(vars: &'a Vec<(String, String)>, key: &str) -> (r: Option<&'a String>)
    ensures
        match r {
            Some(v) => env_lookup(vars@, key@) == Some(v@),
            None => env_lookup(vars@, key@) is None,
        },
{
    let mut i: usize = 0;
    assert(vars@.skip(0) =~= vars@);
    while i < vars.len()
        invariant
            i <= vars.len(),
            env_lookup(vars@, key@) == env_lookup(vars@.skip(i as int), key@),
        decreases vars.len() - i,
    {
        assert(vars@.skip(i as int).drop_first() =~= vars@.skip(i + 1));
        if str_eq(vars[i].0.as_str(), key) {
            return Some(&vars[i].1);
        }
        i = i + 1;
    }
    None
}

/// Whether a flag is set (`true` or `1`), or the default when absent.
pub fn env_bool(vars: &Vec<(String, String)>, key: &str, default: bool) -> (b: bool)
    ensures
        b == env_bool_spec(env_lookup(vars@, key@), default),
{
    match lookup(vars, key) {
        Some(v) => str_eq(v.as_str(), "true") || str_eq(v.as_str(), "1"),
        None => default,
    }
}

/// A duration in seconds from the environment, or the default when the
/// variable is absent or not a valid `u64`.
pub fn env_duration(vars: &Vec<(String, String)>, key: &str, default_secs: u64) -> (d: u64)
    ensures
        d == env_duration_spec(env_lookup(vars@, key@), default_secs),
{
    match lookup(vars, key) {
        Some(v) => match parse_u64(v.as_str()) {
            Some(n) => n,
            None => default_secs,
        },
        None => default_secs,
    }
}

impl AutomationConfig {
    /// The configuration given by the environment, passed as (name, value) pairs.
    pub fn from_env(vars: &Vec<(String, String)>) -> (c: Self)
        ensures
            c == config_from(vars@),
    {
        AutomationConfig {
            watchdog_enabled: env_bool(vars, "AUTO_WATCHDOG", true),
            auto_backup_enabled: env_bool(vars, "AUTO_BACKUP", false),
            self_heal_enabled: env_bool(vars, "AUTO_SELF_HEAL", true),
            health_interval: env_duration(vars, "AUTO_HEALTH_INTERVAL", 30),
            watchdog_timeout: env_duration(vars, "AUTO_WATCHDOG_TIMEOUT", 60),
        }
    }
}

} // verus!
